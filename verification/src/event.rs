//! Lifecycle events of channels, as the endpoints report them.

use vstd::prelude::*;
use crate::channel::{ChannelState, ChannelType};
use crate::stats::ChannelStats;

verus! {

/// Something that happened to the channel `id`.
#[derive(Debug, Clone, Copy)]
pub enum StatsEvent {
    /// The channel was made.
    Created {
        id: &'static str,
        display_label: Option<&'static str>,
        channel_type: ChannelType,
        payload_type: &'static str,
        type_size: u64,
    },
    /// A message went in.
    MessageSent { id: &'static str },
    /// A message came out.
    MessageReceived { id: &'static str },
    /// One side of the channel is gone.
    Closed { id: &'static str },
    /// The one message of a oneshot channel was delivered.
    Notified { id: &'static str },
}

impl StatsEvent {
    /// The channel that the event is about.
    pub open spec fn id(self) -> Seq<char> {
        match self {
            StatsEvent::Created { id, .. } => id@,
            StatsEvent::MessageSent { id } => id@,
            StatsEvent::MessageReceived { id } => id@,
            StatsEvent::Closed { id } => id@,
            StatsEvent::Notified { id } => id@,
        }
    }

    /// The record that a `Created` event introduces.
    pub open spec fn fresh_record(self) -> ChannelStats
        recommends
            self is Created,
    {
        ChannelStats {
            id: self->Created_id,
            label: self->display_label,
            channel_type: self->channel_type,
            state: ChannelState::Active,
            sent_count: 0,
            received_count: 0,
            payload_type: self->payload_type,
            type_size: self->type_size,
        }
    }

    /// The channel that the event is about.
    pub fn channel_id(&self) -> (r: &'static str)
        ensures
            r@ == self.id(),
    {
        match self {
            StatsEvent::Created { id, .. } => id,
            StatsEvent::MessageSent { id } => id,
            StatsEvent::MessageReceived { id } => id,
            StatsEvent::Closed { id } => id,
            StatsEvent::Notified { id } => id,
        }
    }
}

} // verus!
