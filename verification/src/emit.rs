//! What an instrumented channel reports. The wrapper round a channel tells its
//! emitter what it saw happen; the emitter answers with the events to put on the
//! bus, and sees to it that a channel is reported closed, or notified, only once.

use vstd::prelude::*;
use crate::channel::{ChannelState, ChannelType};
use crate::event::StatsEvent;
use crate::registry::{admits, apply_all_spec, apply_spec};
use crate::stats::ChannelStats;

verus! {

/// What a wrapper saw happen on its channel.
#[derive(Debug, Clone, Copy, PartialEq, Eq, Structural)]
pub enum Outcome {
    /// A send went through.
    Sent,
    /// A send failed: the receiving side is gone.
    SendFailed,
    /// A receive gave a message.
    Received,
    /// A receive gave nothing more: every sender is gone.
    Ended,
    /// The receiving side was released.
    ReceiverGone,
}

/// The reporting state of one instrumented channel.
#[derive(Debug, Clone, Copy)]
pub struct Emitter {
    /// The channel.
    pub id: &'static str,
    /// Its flavor.
    pub channel_type: ChannelType,
    /// Whether the channel was reported closed.
    pub closed_sent: bool,
    /// Whether the channel was reported notified.
    pub notified_sent: bool,
}

/// `Closed` for the channel, unless that was reported before.
pub open spec fn closing(em: Emitter) -> Seq<StatsEvent> {
    if em.closed_sent {
        seq![]
    } else {
        seq![StatsEvent::Closed { id: em.id }]
    }
}

/// `Notified` for the channel, unless that was reported before.
pub open spec fn notifying(em: Emitter) -> Seq<StatsEvent> {
    if em.notified_sent {
        seq![]
    } else {
        seq![StatsEvent::Notified { id: em.id }]
    }
}

/// The events that an outcome calls for. On a channel with a queue, a message
/// sent or received is reported as such, a failed send is not reported, and the
/// end of the stream or the loss of the receiver closes the channel. On a oneshot
/// channel, a send that went through is a message sent and the receiver notified,
/// a failed send closes the channel, a receive that gave the message is a message
/// received and, if not yet reported, the receiver notified, and a receive that
/// gave nothing, or the loss of the receiver, closes the channel.
pub open spec fn emitted(em: Emitter, outcome: Outcome) -> Seq<StatsEvent> {
    if em.channel_type is Oneshot {
        match outcome {
            Outcome::Sent => seq![StatsEvent::MessageSent { id: em.id }] + notifying(em),
            Outcome::SendFailed => closing(em),
            Outcome::Received => seq![StatsEvent::MessageReceived { id: em.id }] + notifying(em),
            Outcome::Ended => closing(em),
            Outcome::ReceiverGone => closing(em),
        }
    } else {
        match outcome {
            Outcome::Sent => seq![StatsEvent::MessageSent { id: em.id }],
            Outcome::SendFailed => seq![],
            Outcome::Received => seq![StatsEvent::MessageReceived { id: em.id }],
            Outcome::Ended => closing(em),
            Outcome::ReceiverGone => closing(em),
        }
    }
}

/// Whether the outcome is one on which the channel is reported closed.
pub open spec fn closes(channel_type: ChannelType, outcome: Outcome) -> bool {
    outcome is Ended || outcome is ReceiverGone || (channel_type is Oneshot
        && outcome is SendFailed)
}

/// Whether the outcome is one on which the receiver is reported notified.
pub open spec fn notifies(channel_type: ChannelType, outcome: Outcome) -> bool {
    channel_type is Oneshot && (outcome is Sent || outcome is Received)
}

/// The emitter after an outcome: it remembers what it has reported.
pub open spec fn after(em: Emitter, outcome: Outcome) -> Emitter {
    Emitter {
        closed_sent: em.closed_sent || closes(em.channel_type, outcome),
        notified_sent: em.notified_sent || notifies(em.channel_type, outcome),
        ..em
    }
}

/// All that is emitted over a run of outcomes, in order.
pub open spec fn emitted_over(em: Emitter, outcomes: Seq<Outcome>) -> Seq<StatsEvent>
    decreases outcomes.len(),
{
    if outcomes.len() == 0 {
        seq![]
    } else {
        emitted(em, outcomes[0]) + emitted_over(after(em, outcomes[0]), outcomes.drop_first())
    }
}

/// How many of the events report the channel closed.
pub open spec fn closed_count(events: Seq<StatsEvent>) -> nat {
    events.filter(|e: StatsEvent| e is Closed).len()
}

/// How many of the events report the receiver notified.
pub open spec fn notified_count(events: Seq<StatsEvent>) -> nat {
    events.filter(|e: StatsEvent| e is Notified).len()
}

impl Emitter {
    /// The emitter of a channel just instrumented, and the event that puts the
    /// channel on record.
    pub fn created(
        id: &'static str,
        label: Option<&'static str>,
        channel_type: ChannelType,
        payload_type: &'static str,
        type_size: u64,
    ) -> (r: (Emitter, StatsEvent))
        ensures
            r.0 == (Emitter { id, channel_type, closed_sent: false, notified_sent: false }),
            r.1 == (StatsEvent::Created {
                id,
                display_label: label,
                channel_type,
                payload_type,
                type_size,
            }),
    {
        (
            Emitter { id, channel_type, closed_sent: false, notified_sent: false },
            StatsEvent::Created { id, display_label: label, channel_type, payload_type, type_size },
        )
    }

    /// Adds `Closed` to `events`, unless the channel was reported closed before.
    fn push_closing(&mut self, events: &mut Vec<StatsEvent>)
        ensures
            final(events)@ == old(events)@ + closing(*old(self)),
            *final(self) == (Emitter { closed_sent: true, ..*old(self) }),
    {
        if !self.closed_sent {
            events.push(StatsEvent::Closed { id: self.id });
            self.closed_sent = true;
        }
        assert(events@ =~= old(events)@ + closing(*old(self)));
    }

    /// Adds `Notified` to `events`, unless the receiver was reported notified
    /// before.
    fn push_notifying(&mut self, events: &mut Vec<StatsEvent>)
        ensures
            final(events)@ == old(events)@ + notifying(*old(self)),
            *final(self) == (Emitter { notified_sent: true, ..*old(self) }),
    {
        if !self.notified_sent {
            events.push(StatsEvent::Notified { id: self.id });
            self.notified_sent = true;
        }
        assert(events@ =~= old(events)@ + notifying(*old(self)));
    }

    /// Takes note of an outcome and gives the events to put on the bus for it.
    pub fn observe(&mut self, outcome: Outcome) -> (events: Vec<StatsEvent>)
        ensures
            events@ == emitted(*old(self), outcome),
            *final(self) == after(*old(self), outcome),
    {
        let mut events: Vec<StatsEvent> = Vec::new();
        let oneshot = match self.channel_type {
            ChannelType::Oneshot => true,
            _ => false,
        };
        match outcome {
            Outcome::Sent => {
                events.push(StatsEvent::MessageSent { id: self.id });
                if oneshot {
                    self.push_notifying(&mut events);
                }
            },
            Outcome::SendFailed => {
                if oneshot {
                    self.push_closing(&mut events);
                }
            },
            Outcome::Received => {
                events.push(StatsEvent::MessageReceived { id: self.id });
                if oneshot {
                    self.push_notifying(&mut events);
                }
            },
            Outcome::Ended => {
                self.push_closing(&mut events);
            },
            Outcome::ReceiverGone => {
                self.push_closing(&mut events);
            },
        }
        assert(events@ =~= emitted(*old(self), outcome));
        events
    }
}

/// Counting the closing reports of two runs of events put together.
proof fn lemma_counts_add(a: Seq<StatsEvent>, b: Seq<StatsEvent>)
    ensures
        closed_count(a + b) == closed_count(a) + closed_count(b),
        notified_count(a + b) == notified_count(a) + notified_count(b),
    decreases b.len(),
{
    reveal(Seq::filter);
    if b.len() == 0 {
        assert(a + b =~= a);
    } else {
        assert((a + b).drop_last() =~= a + b.drop_last());
        assert((a + b).last() == b.last());
        lemma_counts_add(a, b.drop_last());
    }
}

/// What one outcome emits reports the channel closed at most once and the
/// receiver notified at most once, and neither if it was reported before.
proof fn lemma_counts_of_one(em: Emitter, outcome: Outcome)
    ensures
        closed_count(emitted(em, outcome)) == if !em.closed_sent && closes(
            em.channel_type,
            outcome,
        ) {
            1nat
        } else {
            0nat
        },
        notified_count(emitted(em, outcome)) == if !em.notified_sent && notifies(
            em.channel_type,
            outcome,
        ) {
            1nat
        } else {
            0nat
        },
{
    let sent = seq![StatsEvent::MessageSent { id: em.id }];
    let received = seq![StatsEvent::MessageReceived { id: em.id }];
    lemma_counts_of_short(sent);
    lemma_counts_of_short(received);
    lemma_counts_of_short(closing(em));
    lemma_counts_of_short(notifying(em));
    lemma_counts_of_short(Seq::<StatsEvent>::empty());
    lemma_counts_add(sent, notifying(em));
    lemma_counts_add(received, notifying(em));
}

/// Counting in a run of at most one event.
proof fn lemma_counts_of_short(events: Seq<StatsEvent>)
    requires
        events.len() <= 1,
    ensures
        closed_count(events) == if events.len() == 1 && events[0] is Closed {
            1nat
        } else {
            0nat
        },
        notified_count(events) == if events.len() == 1 && events[0] is Notified {
            1nat
        } else {
            0nat
        },
{
    reveal(Seq::filter);
    let none = Seq::<StatsEvent>::empty();
    assert(none.filter(|e: StatsEvent| e is Closed).len() == 0);
    assert(none.filter(|e: StatsEvent| e is Notified).len() == 0);
    if events.len() == 1 {
        assert(events.drop_last() =~= none);
    } else {
        assert(events =~= none);
    }
}

/// Every event that an emitter gives is about the emitter's channel.
pub proof fn lemma_events_name_the_channel(em: Emitter, outcome: Outcome, i: int)
    requires
        0 <= i < emitted(em, outcome).len(),
    ensures
        emitted(em, outcome)[i].id() == em.id@,
        !(emitted(em, outcome)[i] is Created),
{
}

/// Whatever happens to a channel, it is reported closed at most once and its
/// receiver notified at most once; and not at all where that was reported before.
pub proof fn lemma_reported_once(em: Emitter, outcomes: Seq<Outcome>)
    ensures
        closed_count(emitted_over(em, outcomes)) <= 1,
        notified_count(emitted_over(em, outcomes)) <= 1,
        em.closed_sent ==> closed_count(emitted_over(em, outcomes)) == 0,
        em.notified_sent ==> notified_count(emitted_over(em, outcomes)) == 0,
        !(em.channel_type is Oneshot) ==> notified_count(emitted_over(em, outcomes)) == 0,
    decreases outcomes.len(),
{
    reveal(Seq::filter);
    if outcomes.len() > 0 {
        let first = emitted(em, outcomes[0]);
        let rest = emitted_over(after(em, outcomes[0]), outcomes.drop_first());
        lemma_counts_of_one(em, outcomes[0]);
        lemma_reported_once(after(em, outcomes[0]), outcomes.drop_first());
        lemma_counts_add(first, rest);
    }
}

/// A send on a oneshot channel is reported either as a message sent or as the
/// channel closed, never as both.
pub proof fn lemma_oneshot_send(em: Emitter, outcome: Outcome)
    requires
        em.channel_type is Oneshot,
        !em.closed_sent,
        outcome is Sent || outcome is SendFailed,
    ensures
        outcome is Sent ==> emitted(em, outcome)[0] is MessageSent && closed_count(
            emitted(em, outcome),
        ) == 0,
        outcome is SendFailed ==> emitted(em, outcome) == seq![StatsEvent::Closed { id: em.id }],
{
    lemma_counts_of_one(em, outcome);
}

/// Once both sides of a channel are gone, its record is in a final state, as
/// soon as what the emitter gives for that has reached the registry: on the
/// outcome that closes the channel, the events of an emitter that has not yet
/// reported it closed leave the record closed, or notified if it was.
pub proof fn lemma_release_is_final(s: Seq<ChannelStats>, em: Emitter, outcome: Outcome, i: int)
    requires
        0 <= i < s.len(),
        s[i].id@ == em.id@,
        closes(em.channel_type, outcome),
        !em.closed_sent,
    ensures
        i < apply_all_spec(s, emitted(em, outcome)).len(),
        apply_all_spec(s, emitted(em, outcome))[i].state.is_terminal(),
        apply_all_spec(s, emitted(em, outcome))[i].state == if s[i].state
            == ChannelState::Notified {
            ChannelState::Notified
        } else {
            ChannelState::Closed
        },
{
    let events = emitted(em, outcome);
    let closed = StatsEvent::Closed { id: em.id };
    assert(events =~= seq![closed]);
    assert(events.drop_first() =~= Seq::<StatsEvent>::empty());
    reveal_with_fuel(apply_all_spec, 2);
    assert(apply_all_spec(s, events) == apply_spec(s, closed));
}

/// A oneshot channel that delivers its message ends notified: the events for
/// the send that went through leave the record notified, with one message sent.
pub proof fn lemma_delivery_notifies(s: Seq<ChannelStats>, em: Emitter, i: int)
    requires
        0 <= i < s.len(),
        s[i].id@ == em.id@,
        em.channel_type is Oneshot,
        !em.notified_sent,
        admits(s, StatsEvent::MessageSent { id: em.id }),
    ensures
        i < apply_all_spec(s, emitted(em, Outcome::Sent)).len(),
        apply_all_spec(s, emitted(em, Outcome::Sent))[i].state == ChannelState::Notified,
        apply_all_spec(s, emitted(em, Outcome::Sent))[i].sent_count == s[i].sent_count + 1,
{
    let events = emitted(em, Outcome::Sent);
    let sent = StatsEvent::MessageSent { id: em.id };
    let notified = StatsEvent::Notified { id: em.id };
    assert(events =~= seq![sent, notified]);
    assert(events.drop_first() =~= seq![notified]);
    assert(seq![notified].drop_first() =~= Seq::<StatsEvent>::empty());
    reveal_with_fuel(apply_all_spec, 3);
    let t = apply_spec(s, sent);
    assert(apply_all_spec(s, events) == apply_spec(t, notified));
    assert(t[i].id@ == em.id@);
}

} // verus!
