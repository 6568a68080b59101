//! The event bus: the queue, from the `crossbeam_channel` crate, on which the
//! instrumented channels put their events for the collator.

use vstd::prelude::*;
use crossbeam_channel::Sender;
use crate::emit::{after, emitted, Emitter, Outcome};
use crate::event::StatsEvent;

verus! {

/// The sending end of a channel of `crossbeam_channel`.
#[verifier::external_type_specification]
#[verifier::external_body]
#[verifier::reject_recursive_types(T)]
pub struct ExSender<T>(Sender<T>);

/// Offers one event to the bus with `Sender::try_send` of `crossbeam_channel`,
/// which does not wait, and says whether the bus took it. Whether it does rests
/// with the other end of the bus, so nothing is stated of the answer.
#[verifier::external_body]
fn offer(bus: &Sender<StatsEvent>, event: StatsEvent) -> (taken: bool) {
    bus.try_send(event).is_ok()
}

/// Offers the events to the bus, in order, and counts those it took. An event
/// that the bus does not take is dropped: a bus that is gone stops nothing.
pub fn publish(bus: &Sender<StatsEvent>, events: &Vec<StatsEvent>) -> (taken: usize)
    ensures
        taken <= events.len(),
{
    let mut taken: usize = 0;
    let mut i: usize = 0;
    while i < events.len()
        invariant
            taken <= i <= events.len(),
        decreases events.len() - i,
    {
        if offer(bus, events[i]) {
            taken += 1;
        }
        i += 1;
    }
    taken
}

impl Emitter {
    /// Takes note of an outcome and puts the events that it calls for on the
    /// bus; the count is of those that the bus took. The emitter remembers what
    /// it has reported whether or not the bus took it.
    pub fn report(&mut self, bus: &Sender<StatsEvent>, outcome: Outcome) -> (taken: usize)
        ensures
            *final(self) == after(*old(self), outcome),
            taken <= emitted(*old(self), outcome).len(),
    {
        let events = self.observe(outcome);
        publish(bus, &events)
    }
}

} // verus!
