//! The registry: one record per channel, brought up to date event by event.

use vstd::prelude::*;
use crate::channel::ChannelState;
use crate::event::StatsEvent;
use crate::stats::{derived_state, ChannelStats};
use crate::text::{chars_eq, chars_of};

verus! {

/// Whether one of the records is that of the channel `id`.
pub open spec fn has_id(s: Seq<ChannelStats>, id: Seq<char>) -> bool {
    exists|i: int| 0 <= i < s.len() && (#[trigger] s[i]).id@ == id
}

/// Whether no two of the records are of the same channel.
pub open spec fn distinct_ids(s: Seq<ChannelStats>) -> bool {
    forall|i: int, j: int|
        0 <= i < s.len() && 0 <= j < s.len() && i != j ==> (#[trigger] s[i]).id@ != (
        #[trigger] s[j]).id@
}

/// What an event makes of one record. A record of another channel stays as it
/// is. For the channel's own record: a second `Created` changes nothing; a message
/// sent or received raises its counter by one, and the state follows the counters
/// unless it is final; `Closed` closes the channel unless it was notified;
/// `Notified` always takes effect.
pub open spec fn step(rec: ChannelStats, event: StatsEvent) -> ChannelStats {
    if rec.id@ != event.id() {
        rec
    } else {
        match event {
            StatsEvent::Created { .. } => rec,
            StatsEvent::MessageSent { .. } => ChannelStats {
                sent_count: (rec.sent_count + 1) as u64,
                state: derived_state(rec.state, (rec.sent_count + 1) as u64, rec.received_count),
                ..rec
            },
            StatsEvent::MessageReceived { .. } => ChannelStats {
                received_count: (rec.received_count + 1) as u64,
                state: derived_state(rec.state, rec.sent_count, (rec.received_count + 1) as u64),
                ..rec
            },
            StatsEvent::Closed { .. } => if rec.state == ChannelState::Notified {
                rec
            } else {
                ChannelStats { state: ChannelState::Closed, ..rec }
            },
            StatsEvent::Notified { .. } => ChannelStats { state: ChannelState::Notified, ..rec },
        }
    }
}

/// What an event makes of the records: each record takes its step, and a
/// `Created` for a channel that has no record yet adds one at the end.
pub open spec fn apply_spec(s: Seq<ChannelStats>, event: StatsEvent) -> Seq<ChannelStats> {
    let stepped = s.map_values(|rec: ChannelStats| step(rec, event));
    if event is Created && !has_id(s, event.id()) {
        stepped.push(event.fresh_record())
    } else {
        stepped
    }
}

/// What a run of events makes of the records, the events taken in order.
pub open spec fn apply_all_spec(s: Seq<ChannelStats>, events: Seq<StatsEvent>) -> Seq<
    ChannelStats,
>
    decreases events.len(),
{
    if events.len() == 0 {
        s
    } else {
        apply_all_spec(apply_spec(s, events[0]), events.drop_first())
    }
}

/// Whether the record can take the event: where the event raises one of its
/// counters, the counter and the bytes counted from it still fit in 64 bits.
pub open spec fn record_admits(rec: ChannelStats, event: StatsEvent) -> bool {
    rec.id@ == event.id() ==> match event {
        StatsEvent::MessageSent { .. } => (rec.sent_count + 1) * rec.type_size <= u64::MAX
            && rec.sent_count < u64::MAX,
        StatsEvent::MessageReceived { .. } => rec.received_count < u64::MAX,
        _ => true,
    }
}

/// Whether every record can take the event.
pub open spec fn admits(s: Seq<ChannelStats>, event: StatsEvent) -> bool {
    forall|i: int| 0 <= i < s.len() ==> record_admits(#[trigger] s[i], event)
}

/// The records of all channels, in the order in which the channels were made.
pub struct Registry {
    records: Vec<ChannelStats>,
}

impl View for Registry {
    type V = Seq<ChannelStats>;

    closed spec fn view(&self) -> Seq<ChannelStats> {
        self.records@
    }
}

/// What `event` makes of the record `rec`.
pub fn advance(rec: ChannelStats, event: StatsEvent) -> (next: ChannelStats)
    requires
        rec.wf(),
        record_admits(rec, event),
        rec.id@ == event.id(),
    ensures
        next == step(rec, event),
        next.wf(),
{
    let mut next = rec;
    match event {
        StatsEvent::Created { .. } => {},
        StatsEvent::MessageSent { .. } => {
            next.sent_count = next.sent_count + 1;
            next.update_state();
        },
        StatsEvent::MessageReceived { .. } => {
            next.received_count = next.received_count + 1;
            next.update_state();
        },
        StatsEvent::Closed { .. } => {
            if next.state != ChannelState::Notified {
                next.state = ChannelState::Closed;
            }
        },
        StatsEvent::Notified { .. } => {
            next.state = ChannelState::Notified;
        },
    }
    next
}

impl Registry {
    /// A registry is well formed when no channel has two records and every record
    /// is well formed.
    pub open spec fn wf(self) -> bool {
        &&& distinct_ids(self@)
        &&& forall|i: int| 0 <= i < self@.len() ==> (#[trigger] self@[i]).wf()
    }

    /// The record of the channel `id`, if it has one.
    pub open spec fn lookup(self, id: Seq<char>) -> Option<ChannelStats> {
        if has_id(self@, id) {
            Some(self@[choose|i: int| 0 <= i < self@.len() && (#[trigger] self@[i]).id@ == id])
        } else {
            None
        }
    }

    /// A registry without records.
    pub fn new() -> (r: Registry)
        ensures
            r@ == Seq::<ChannelStats>::empty(),
            r.wf(),
    {
        Registry { records: Vec::new() }
    }

    /// The records, in the order in which the channels were made.
    pub fn records(&self) -> (r: &Vec<ChannelStats>)
        ensures
            r@ == self@,
    {
        &self.records
    }

    /// A copy of the registry as it stands.
    pub fn copy(&self) -> (r: Registry)
        ensures
            r@ == self@,
    {
        let mut records: Vec<ChannelStats> = Vec::new();
        let mut i: usize = 0;
        while i < self.records.len()
            invariant
                i <= self.records.len(),
                records@ == self.records@.take(i as int),
            decreases self.records.len() - i,
        {
            records.push(self.records[i]);
            assert(records@ =~= self.records@.take(i + 1));
            i += 1;
        }
        assert(self.records@.take(i as int) =~= self.records@);
        Registry { records }
    }

    /// The number of channels on record.
    pub fn len(&self) -> (n: usize)
        ensures
            n == self@.len(),
    {
        self.records.len()
    }

    /// Whether no channel is on record.
    pub fn is_empty(&self) -> (r: bool)
        ensures
            r == (self@.len() == 0),
    {
        self.records.len() == 0
    }

    /// Where the record of the channel `id` stands.
    fn position(&self, id: &str) -> (r: Option<usize>)
        ensures
            match r {
                Some(i) => i < self@.len() && self@[i as int].id@ == id@,
                None => !has_id(self@, id@),
            },
    {
        let key = chars_of(id);
        let mut i: usize = 0;
        while i < self.records.len()
            invariant
                i <= self.records.len(),
                key@ == id@,
                forall|j: int| 0 <= j < i ==> self.records@[j].id@ != id@,
            decreases self.records.len() - i,
        {
            let other = chars_of(self.records[i].id);
            if chars_eq(&other, &key) {
                return Some(i);
            }
            i += 1;
        }
        None
    }

    /// The record of the channel `id`, if it has one.
    pub fn get(&self, id: &str) -> (r: Option<ChannelStats>)
        requires
            self.wf(),
        ensures
            r == self.lookup(id@),
    {
        match self.position(id) {
            Some(i) => Some(self.records[i]),
            None => None,
        }
    }

    /// Whether every record can take the event.
    pub fn can_apply(&self, event: &StatsEvent) -> (r: bool)
        requires
            self.wf(),
        ensures
            r == admits(self@, *event),
    {
        match self.position(event.channel_id()) {
            Some(i) => {
                let rec = self.records[i];
                let r = match event {
                    StatsEvent::MessageSent { .. } => rec.sent_count < u64::MAX && (
                    rec.sent_count + 1).checked_mul(rec.type_size).is_some(),
                    StatsEvent::MessageReceived { .. } => rec.received_count < u64::MAX,
                    _ => true,
                };
                assert(r == record_admits(rec, *event));
                r
            },
            None => true,
        }
    }

    /// Brings the records up to date with one event.
    pub fn apply(&mut self, event: StatsEvent)
        requires
            old(self).wf(),
            admits(old(self)@, event),
        ensures
            final(self)@ == apply_spec(old(self)@, event),
            final(self).wf(),
    {
        let ghost before = self@;
        let ghost stepped = before.map_values(|rec: ChannelStats| step(rec, event));
        match self.position(event.channel_id()) {
            Some(i) => {
                let next = advance(self.records[i], event);
                self.records.set(i, next);
                assert(self@ =~= stepped);
            },
            None => {
                assert(before =~= stepped);
                if let StatsEvent::Created { id, display_label, channel_type, payload_type, type_size } =
                    event {
                    self.records.push(
                        ChannelStats::new(id, display_label, channel_type, payload_type, type_size),
                    );
                }
            },
        }
    }
}

/// Whether the state of a record agrees with its counters: unless the state is
/// final, the channel is full exactly while more was sent than received, and
/// active otherwise.
pub open spec fn state_follows_counters(rec: ChannelStats) -> bool {
    !rec.state.is_terminal() ==> rec.state == if rec.sent_count > rec.received_count {
        ChannelState::Full
    } else {
        ChannelState::Active
    }
}

/// An event removes no record and moves none: every record is afterwards where
/// it was, and is what its step made of it; only a `Created` for a channel not
/// yet on record adds one, at the end.
pub proof fn lemma_apply_keeps_records(s: Seq<ChannelStats>, event: StatsEvent)
    ensures
        apply_spec(s, event).len() == if event is Created && !has_id(s, event.id()) {
            s.len() + 1
        } else {
            s.len()
        },
        forall|i: int| 0 <= i < s.len() ==> #[trigger] apply_spec(s, event)[i] == step(s[i], event),
        event is Created && !has_id(s, event.id()) ==> apply_spec(s, event).last()
            == event.fresh_record(),
{
}

/// What identifies and describes a channel never changes: its identifier, label,
/// flavor, message type and message size are the same after any event.
pub proof fn lemma_identity_is_stable(s: Seq<ChannelStats>, event: StatsEvent, i: int)
    requires
        0 <= i < s.len(),
    ensures
        i < apply_spec(s, event).len(),
        apply_spec(s, event)[i].id == s[i].id,
        apply_spec(s, event)[i].label == s[i].label,
        apply_spec(s, event)[i].channel_type == s[i].channel_type,
        apply_spec(s, event)[i].payload_type == s[i].payload_type,
        apply_spec(s, event)[i].type_size == s[i].type_size,
{
}

/// A channel is on record once: events keep the identifiers distinct, and after
/// a `Created` the channel is on record.
pub proof fn lemma_one_record_per_channel(s: Seq<ChannelStats>, event: StatsEvent)
    requires
        distinct_ids(s),
    ensures
        distinct_ids(apply_spec(s, event)),
        event is Created ==> has_id(apply_spec(s, event), event.id()),
        forall|id: Seq<char>| has_id(s, id) ==> has_id(apply_spec(s, event), id),
{
    let t = apply_spec(s, event);
    assert forall|i: int| 0 <= i < s.len() implies (#[trigger] t[i]).id@ == s[i].id@ by {}
    assert forall|id: Seq<char>| has_id(s, id) implies has_id(t, id) by {
        let i = choose|i: int| 0 <= i < s.len() && (#[trigger] s[i]).id@ == id;
        assert(t[i].id@ == id);
    }
    if event is Created {
        if has_id(s, event.id()) {
            assert(has_id(t, event.id()));
        } else {
            assert(t[s.len() as int].id@ == event.id());
        }
    }
    assert forall|i: int, j: int| 0 <= i < t.len() && 0 <= j < t.len() && i != j implies (
    #[trigger] t[i]).id@ != (#[trigger] t[j]).id@ by {
        if i < s.len() && j < s.len() {
            assert(s[i].id@ != s[j].id@);
        } else if i < s.len() {
            assert(s[i].id@ != event.id());
        } else {
            assert(s[j].id@ != event.id());
        }
    }
}

/// A final state is final: a record that is closed or notified is closed or
/// notified after any event, and one that is notified stays notified.
pub proof fn lemma_terminal_is_final(s: Seq<ChannelStats>, event: StatsEvent, i: int)
    requires
        0 <= i < s.len(),
        s[i].state.is_terminal(),
    ensures
        apply_spec(s, event)[i].state.is_terminal(),
        s[i].state == ChannelState::Notified ==> apply_spec(s, event)[i].state
            == ChannelState::Notified,
{
}

/// The counters never go down, and an event raises a counter by at most one.
pub proof fn lemma_counters_grow(s: Seq<ChannelStats>, event: StatsEvent, i: int)
    requires
        0 <= i < s.len(),
        admits(s, event),
    ensures
        s[i].sent_count <= apply_spec(s, event)[i].sent_count <= s[i].sent_count + 1,
        s[i].received_count <= apply_spec(s, event)[i].received_count <= s[i].received_count
            + 1,
{
}

/// Nothing is received that was not sent, as long as the events say so: a record
/// whose received count is at most its sent count keeps that, unless the event
/// reports a message received from a channel that holds none.
pub proof fn lemma_order_is_kept(s: Seq<ChannelStats>, event: StatsEvent, i: int)
    requires
        0 <= i < s.len(),
        admits(s, event),
        s[i].ordered(),
        !(event is MessageReceived && event.id() == s[i].id@ && s[i].sent_count
            == s[i].received_count),
    ensures
        apply_spec(s, event)[i].ordered(),
        apply_spec(s, event)[i].queued_spec() == apply_spec(s, event)[i].sent_count
            - apply_spec(s, event)[i].received_count,
{
}

/// The state goes with the counters: a record whose state agrees with its
/// counters still agrees after any event, and so does a record just made.
pub proof fn lemma_state_follows_counters(s: Seq<ChannelStats>, event: StatsEvent)
    requires
        admits(s, event),
        forall|i: int| 0 <= i < s.len() ==> state_follows_counters(#[trigger] s[i]),
    ensures
        forall|i: int|
            0 <= i < apply_spec(s, event).len() ==> state_follows_counters(
                #[trigger] apply_spec(s, event)[i],
            ),
{
    let t = apply_spec(s, event);
    assert forall|i: int| 0 <= i < t.len() implies state_follows_counters(#[trigger] t[i]) by {
        if i < s.len() {
            assert(state_follows_counters(s[i]));
            assert(record_admits(s[i], event));
        }
    }
}

/// Well-formed records that can take an event are well formed after it.
pub proof fn lemma_apply_keeps_wf(s: Seq<ChannelStats>, event: StatsEvent)
    requires
        admits(s, event),
        forall|i: int| 0 <= i < s.len() ==> (#[trigger] s[i]).wf(),
    ensures
        forall|i: int|
            0 <= i < apply_spec(s, event).len() ==> (#[trigger] apply_spec(s, event)[i]).wf(),
{
    let t = apply_spec(s, event);
    assert forall|i: int| 0 <= i < t.len() implies (#[trigger] t[i]).wf() by {
        if i < s.len() {
            assert(s[i].wf());
            assert(record_admits(s[i], event));
            assert(t[i] == step(s[i], event));
            if s[i].id@ == event.id() && event is MessageSent {
                assert(t[i].sent_count == s[i].sent_count + 1);
                assert(t[i].type_size == s[i].type_size);
            } else {
                assert(t[i].sent_count == s[i].sent_count);
                assert(t[i].type_size == s[i].type_size);
            }
        } else {
            assert(t[i] == event.fresh_record());
            assert(t[i].sent_count == 0);
        }
    }
}

/// Over any run of events no record is lost or moved, what identifies a channel
/// stays the same, and a final state stays final.
pub proof fn lemma_run_keeps_records(s: Seq<ChannelStats>, events: Seq<StatsEvent>, i: int)
    requires
        0 <= i < s.len(),
    ensures
        i < apply_all_spec(s, events).len(),
        apply_all_spec(s, events)[i].id == s[i].id,
        apply_all_spec(s, events)[i].label == s[i].label,
        apply_all_spec(s, events)[i].channel_type == s[i].channel_type,
        apply_all_spec(s, events)[i].payload_type == s[i].payload_type,
        apply_all_spec(s, events)[i].type_size == s[i].type_size,
        s[i].state.is_terminal() ==> apply_all_spec(s, events)[i].state.is_terminal(),
        s[i].state == ChannelState::Notified ==> apply_all_spec(s, events)[i].state
            == ChannelState::Notified,
    decreases events.len(),
{
    if events.len() > 0 {
        lemma_identity_is_stable(s, events[0], i);
        if s[i].state.is_terminal() {
            lemma_terminal_is_final(s, events[0], i);
        }
        lemma_run_keeps_records(apply_spec(s, events[0]), events.drop_first(), i);
    }
}

/// Whether a run of events can be taken, and reports no message as received
/// from a channel that, by the records, holds none.
pub open spec fn in_order(s: Seq<ChannelStats>, events: Seq<StatsEvent>) -> bool
    decreases events.len(),
{
    events.len() == 0 || {
        &&& admits(s, events[0])
        &&& events[0] is MessageReceived ==> forall|i: int|
            0 <= i < s.len() && (#[trigger] s[i]).id@ == events[0].id() ==> s[i].sent_count
                > s[i].received_count
        &&& in_order(apply_spec(s, events[0]), events.drop_first())
    }
}

/// Whether no record has received more than was sent.
pub open spec fn all_ordered(s: Seq<ChannelStats>) -> bool {
    forall|i: int| 0 <= i < s.len() ==> (#[trigger] s[i]).ordered()
}

/// After a run of events that come in order, no record has received more than
/// was sent; this holds of every run from an empty registry.
pub proof fn lemma_run_keeps_order(s: Seq<ChannelStats>, events: Seq<StatsEvent>)
    requires
        all_ordered(s),
        in_order(s, events),
    ensures
        all_ordered(apply_all_spec(s, events)),
    decreases events.len(),
{
    if events.len() > 0 {
        let t = apply_spec(s, events[0]);
        assert forall|i: int| 0 <= i < t.len() implies (#[trigger] t[i]).ordered() by {
            if i < s.len() {
                assert(s[i].ordered());
                lemma_order_is_kept(s, events[0], i);
            }
        }
        lemma_run_keeps_order(t, events.drop_first());
    }
}

/// Once a channel is reported closed or notified, its record is in a final
/// state: `Notified` makes it notified, `Closed` makes it closed unless it was
/// notified.
pub proof fn lemma_closing_events_are_final(s: Seq<ChannelStats>, event: StatsEvent, i: int)
    requires
        0 <= i < s.len(),
        s[i].id@ == event.id(),
        event is Closed || event is Notified,
    ensures
        apply_spec(s, event)[i].state.is_terminal(),
        event is Notified ==> apply_spec(s, event)[i].state == ChannelState::Notified,
        event is Closed && s[i].state != ChannelState::Notified ==> apply_spec(s, event)[i].state
            == ChannelState::Closed,
{
}

} // verus!
