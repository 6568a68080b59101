//! The record kept for one channel, and the form of it that is handed out.

use vstd::prelude::*;
use crate::channel::{ChannelState, ChannelType};
use crate::label::{label_of, resolve_label};
use crate::text::{chars_of, string_of};

verus! {

/// The state that the two counters give a channel in state `state`: a final
/// state stays; otherwise the channel is full while more was sent than received,
/// and active when not.
pub open spec fn derived_state(state: ChannelState, sent: u64, received: u64) -> ChannelState {
    if state.is_terminal() {
        state
    } else if sent > received {
        ChannelState::Full
    } else {
        ChannelState::Active
    }
}

/// Statistics of one channel.
#[derive(Debug, Clone, Copy)]
pub struct ChannelStats {
    /// Where the channel was made, `<file>:<line>`; the key of the record.
    pub id: &'static str,
    /// The label its author gave it, if any.
    pub label: Option<&'static str>,
    /// Flavor of the channel.
    pub channel_type: ChannelType,
    /// Current state.
    pub state: ChannelState,
    /// Messages sent so far.
    pub sent_count: u64,
    /// Messages received so far.
    pub received_count: u64,
    /// Name of the message type.
    pub payload_type: &'static str,
    /// Size of one message in bytes.
    pub type_size: u64,
}

impl ChannelStats {
    /// Messages sent and not yet received.
    pub open spec fn queued_spec(self) -> nat {
        if self.sent_count >= self.received_count {
            (self.sent_count - self.received_count) as nat
        } else {
            0
        }
    }

    /// Bytes sent so far.
    pub open spec fn total_bytes_spec(self) -> nat {
        (self.sent_count * self.type_size) as nat
    }

    /// Bytes sent and not yet received.
    pub open spec fn queued_bytes_spec(self) -> nat {
        self.queued_spec() * self.type_size as nat
    }

    /// The label that was given, as text.
    pub open spec fn label_view(self) -> Option<Seq<char>> {
        match self.label {
            Some(l) => Some(l@),
            None => None,
        }
    }

    /// The label under which the channel is shown.
    pub open spec fn display_label(self) -> Seq<char> {
        label_of(self.id@, self.label_view())
    }

    /// A record is well formed when the bytes it has sent can be counted in 64 bits.
    pub open spec fn wf(self) -> bool {
        self.total_bytes_spec() <= u64::MAX
    }

    /// Whether nothing was received that was not sent.
    pub open spec fn ordered(self) -> bool {
        self.sent_count >= self.received_count
    }

    /// The record of a channel that was just made: nothing sent, nothing received.
    pub fn new(
        id: &'static str,
        label: Option<&'static str>,
        channel_type: ChannelType,
        payload_type: &'static str,
        type_size: u64,
    ) -> (r: ChannelStats)
        ensures
            r == (ChannelStats {
                id,
                label,
                channel_type,
                state: ChannelState::Active,
                sent_count: 0,
                received_count: 0,
                payload_type,
                type_size,
            }),
            r.wf(),
    {
        ChannelStats {
            id,
            label,
            channel_type,
            state: ChannelState::Active,
            sent_count: 0,
            received_count: 0,
            payload_type,
            type_size,
        }
    }

    /// Messages sent and not yet received; zero where the counters say that more
    /// was received than sent.
    pub fn queued(&self) -> (q: u64)
        ensures
            q == self.queued_spec(),
    {
        self.sent_count.saturating_sub(self.received_count)
    }

    /// Bytes sent through the channel so far.
    pub fn total_bytes(&self) -> (b: u64)
        requires
            self.wf(),
        ensures
            b == self.total_bytes_spec(),
    {
        self.sent_count * self.type_size
    }

    /// Bytes that wait in the channel.
    pub fn queued_bytes(&self) -> (b: u64)
        requires
            self.wf(),
        ensures
            b == self.queued_bytes_spec(),
    {
        proof {
            lemma_queued_bytes_fit(*self);
        }
        self.queued() * self.type_size
    }

    /// Whether the bytes of this record can be counted in 64 bits.
    pub fn fits(&self) -> (r: bool)
        ensures
            r == self.wf(),
    {
        self.sent_count.checked_mul(self.type_size).is_some()
    }

    /// Brings the state in line with the counters.
    pub fn update_state(&mut self)
        ensures
            *final(self) == (ChannelStats {
                state: derived_state(
                    old(self).state,
                    old(self).sent_count,
                    old(self).received_count,
                ),
                ..*old(self)
            }),
    {
        if self.state.terminal() {
            return ;
        }
        if self.sent_count > self.received_count {
            self.state = ChannelState::Full;
        } else {
            self.state = ChannelState::Active;
        }
    }

    /// The label under which the channel is shown.
    pub fn resolved_label(&self) -> (r: String)
        ensures
            r@ == self.display_label(),
    {
        resolve_label(self.id, self.label)
    }
}

/// What waits in a channel is no more than what was sent through it.
pub proof fn lemma_queued_bytes_fit(s: ChannelStats)
    ensures
        s.queued_bytes_spec() <= s.total_bytes_spec(),
{
    assert(s.queued_spec() * s.type_size <= s.sent_count * s.type_size) by (nonlinear_arith)
        requires
            s.queued_spec() <= s.sent_count,
    ;
}

/// While nothing was received that was not sent, what waits is the difference of
/// the two counters.
pub proof fn lemma_queued_is_difference(s: ChannelStats)
    requires
        s.ordered(),
    ensures
        s.queued_spec() == s.sent_count - s.received_count,
        s.queued_bytes_spec() == s.total_bytes_spec() - s.received_count * s.type_size,
{
    assert((s.sent_count - s.received_count) * s.type_size == s.sent_count * s.type_size
        - s.received_count * s.type_size) by (nonlinear_arith);
}

/// A channel record as it is handed out: the stored fields as owned values, with
/// the label resolved and the derived counts worked out.
#[derive(Debug, Clone)]
pub struct SerializableChannelStats {
    /// Where the channel was made.
    pub id: String,
    /// The label under which the channel is shown.
    pub label: String,
    /// Flavor of the channel.
    pub channel_type: ChannelType,
    /// Current state.
    pub state: ChannelState,
    /// Messages sent so far.
    pub sent_count: u64,
    /// Messages received so far.
    pub received_count: u64,
    /// Messages sent and not yet received.
    pub queued: u64,
    /// Name of the message type.
    pub payload_type: String,
    /// Size of one message in bytes.
    pub type_size: u64,
    /// Bytes sent so far.
    pub total_bytes: u64,
    /// Bytes sent and not yet received.
    pub queued_bytes: u64,
}

impl SerializableChannelStats {
    /// Whether this is the handed-out form of the record `stats`.
    pub open spec fn describes(self, stats: ChannelStats) -> bool {
        &&& self.id@ == stats.id@
        &&& self.label@ == stats.display_label()
        &&& self.channel_type == stats.channel_type
        &&& self.state == stats.state
        &&& self.sent_count == stats.sent_count
        &&& self.received_count == stats.received_count
        &&& self.queued == stats.queued_spec()
        &&& self.payload_type@ == stats.payload_type@
        &&& self.type_size == stats.type_size
        &&& self.total_bytes == stats.total_bytes_spec()
        &&& self.queued_bytes == stats.queued_bytes_spec()
    }

    /// The handed-out form of a record.
    pub fn from_stats(stats: &ChannelStats) -> (r: SerializableChannelStats)
        requires
            stats.wf(),
        ensures
            r.describes(*stats),
    {
        let label = stats.resolved_label();
        SerializableChannelStats {
            id: string_of(&chars_of(stats.id)),
            label,
            channel_type: stats.channel_type,
            state: stats.state,
            sent_count: stats.sent_count,
            received_count: stats.received_count,
            queued: stats.queued(),
            payload_type: string_of(&chars_of(stats.payload_type)),
            type_size: stats.type_size,
            total_bytes: stats.total_bytes(),
            queued_bytes: stats.queued_bytes(),
        }
    }
}

} // verus!
