//! What the console makes of its polls: the latest snapshot, a warning while the
//! endpoint cannot be reached, and log lines for what changed between two polls.

use vstd::prelude::*;
use crate::channel::ChannelState;
use crate::stats::SerializableChannelStats;
use crate::text::{
    chars_le, chars_of, decimal, lemma_lex_le_reflexive, lemma_lex_le_total,
    lemma_lex_le_transitive, lex_le, push_decimal, push_str, str_eq, string_of,
};

verus! {

/// One line of a channel's log.
#[derive(Debug)]
pub struct LogLine {
    /// The channel.
    pub id: String,
    /// What happened.
    pub text: String,
}

/// What a poll showed of a channel, as far as the log is concerned.
pub struct Seen {
    pub sent: u64,
    pub received: u64,
    pub state: ChannelState,
}

/// What counts as seen of a channel that no poll has shown yet: nothing sent,
/// nothing received, active.
pub open spec fn unseen() -> Seen {
    Seen { sent: 0, received: 0, state: ChannelState::Active }
}

/// What the earlier poll showed of the channel `id`: the first of its records
/// with that identifier, or nothing seen.
pub open spec fn seen_in(prev: Seq<SerializableChannelStats>, id: Seq<char>) -> Seen
    decreases prev.len(),
{
    if prev.len() == 0 {
        unseen()
    } else if prev[0].id@ == id {
        Seen { sent: prev[0].sent_count, received: prev[0].received_count, state: prev[0].state }
    } else {
        seen_in(prev.drop_first(), id)
    }
}

/// The log line for a counter that went from `before` to `now`: the gain, where
/// there is one.
pub open spec fn gain_line(what: Seq<char>, before: u64, now: u64) -> Seq<Seq<char>> {
    if now > before {
        seq![what + " +"@ + decimal((now - before) as nat)]
    } else {
        seq![]
    }
}

/// The log line for the state, where it changed.
pub open spec fn state_line(before: ChannelState, now: ChannelState) -> Seq<Seq<char>> {
    if now != before {
        seq!["state \u{2192} "@ + now.name_text()]
    } else {
        seq![]
    }
}

/// The log lines for one channel: `sent +N` and `received +N` for what the
/// counters gained since it was last seen, and `state \u{2192} <State>` if the state
/// changed.
pub open spec fn lines_for(seen: Seen, now: SerializableChannelStats) -> Seq<Seq<char>> {
    gain_line("sent"@, seen.sent, now.sent_count) + gain_line(
        "received"@,
        seen.received,
        now.received_count,
    ) + state_line(seen.state, now.state)
}

/// The log lines of a poll, each with its channel: those of the first channel
/// first.
pub open spec fn poll_lines(
    prev: Seq<SerializableChannelStats>,
    next: Seq<SerializableChannelStats>,
) -> Seq<(Seq<char>, Seq<char>)>
    decreases next.len(),
{
    if next.len() == 0 {
        seq![]
    } else {
        poll_lines(prev, next.drop_last()) + lines_for(
            seen_in(prev, next.last().id@),
            next.last(),
        ).map_values(|text: Seq<char>| (next.last().id@, text))
    }
}

/// The channel and the text of each line.
pub open spec fn line_views(lines: Seq<LogLine>) -> Seq<(Seq<char>, Seq<char>)> {
    lines.map_values(|line: LogLine| (line.id@, line.text@))
}

/// What the earlier poll showed of the channel `id`.
fn find_seen(prev: &Vec<SerializableChannelStats>, id: &str) -> (seen: Seen)
    ensures
        seen == seen_in(prev@, id@),
{
    let mut i: usize = 0;
    assert(prev@.skip(0) =~= prev@);
    while i < prev.len()
        invariant
            i <= prev.len(),
            seen_in(prev@, id@) == seen_in(prev@.skip(i as int), id@),
        decreases prev.len() - i,
    {
        assert(prev@.skip(i as int)[0] == prev@[i as int]);
        if str_eq(prev[i].id.as_str(), id) {
            return Seen {
                sent: prev[i].sent_count,
                received: prev[i].received_count,
                state: prev[i].state,
            };
        }
        assert(prev@.skip(i as int).drop_first() =~= prev@.skip(i + 1));
        i += 1;
    }
    Seen { sent: 0, received: 0, state: ChannelState::Active }
}

/// Adds the line for a counter's gain, where there is one.
fn push_gain(lines: &mut Vec<LogLine>, id: &str, what: &str, before: u64, now: u64)
    ensures
        line_views(final(lines)@) == line_views(old(lines)@) + gain_line(
            what@,
            before,
            now,
        ).map_values(|text: Seq<char>| (id@, text)),
{
    if now > before {
        let mut text: Vec<char> = Vec::new();
        push_str(&mut text, what);
        push_str(&mut text, " +");
        push_decimal(&mut text, (now - before) as u128);
        lines.push(LogLine { id: string_of(&chars_of(id)), text: string_of(&text) });
    }
    assert(line_views(lines@) =~= line_views(old(lines)@) + gain_line(
        what@,
        before,
        now,
    ).map_values(|text: Seq<char>| (id@, text)));
}

/// Adds the line for the state, where it changed.
fn push_state(lines: &mut Vec<LogLine>, id: &str, before: ChannelState, now: ChannelState)
    ensures
        line_views(final(lines)@) == line_views(old(lines)@) + state_line(
            before,
            now,
        ).map_values(|text: Seq<char>| (id@, text)),
{
    if now != before {
        let mut text: Vec<char> = Vec::new();
        push_str(&mut text, "state \u{2192} ");
        push_str(&mut text, now.name());
        lines.push(LogLine { id: string_of(&chars_of(id)), text: string_of(&text) });
    }
    assert(line_views(lines@) =~= line_views(old(lines)@) + state_line(before, now).map_values(
        |text: Seq<char>| (id@, text),
    ));
}

/// The log lines for what changed from the poll `prev` to the poll `next`.
pub fn diff_polls(prev: &Vec<SerializableChannelStats>, next: &Vec<SerializableChannelStats>) -> (lines:
    Vec<LogLine>)
    ensures
        line_views(lines@) == poll_lines(prev@, next@),
{
    let mut lines: Vec<LogLine> = Vec::new();
    let mut i: usize = 0;
    assert(line_views(lines@) =~= poll_lines(prev@, next@.take(0)));
    while i < next.len()
        invariant
            i <= next.len(),
            line_views(lines@) == poll_lines(prev@, next@.take(i as int)),
        decreases next.len() - i,
    {
        let now = &next[i];
        let id = now.id.as_str();
        let seen = find_seen(prev, id);
        let ghost before = line_views(lines@);
        push_gain(&mut lines, id, "sent", seen.sent, now.sent_count);
        push_gain(&mut lines, id, "received", seen.received, now.received_count);
        push_state(&mut lines, id, seen.state, now.state);
        proof {
            let upto = next@.take(i + 1);
            assert(upto.drop_last() =~= next@.take(i as int));
            assert(upto.last() == next@[i as int]);
            let tag = |text: Seq<char>| (id@, text);
            let a = gain_line("sent"@, seen.sent, now.sent_count);
            let b = gain_line("received"@, seen.received, now.received_count);
            let c = state_line(seen.state, now.state);
            assert((a + b + c).map_values(tag) =~= a.map_values(tag) + b.map_values(tag)
                + c.map_values(tag));
            assert(line_views(lines@) =~= before + lines_for(seen, *now).map_values(tag));
        }
        i += 1;
    }
    assert(next@.take(i as int) =~= next@);
    lines
}

/// What the console holds of the endpoint: the latest snapshot, the log, and a
/// warning while the endpoint cannot be reached.
#[derive(Debug)]
pub struct Feed {
    /// The channels as the last poll that went through showed them.
    pub channels: Vec<SerializableChannelStats>,
    /// The log lines of all polls so far, oldest first.
    pub logs: Vec<LogLine>,
    /// Why the last poll failed, if it did.
    pub warning: Option<String>,
}

impl Feed {
    /// A feed before the first poll.
    pub fn new() -> (feed: Feed)
        ensures
            feed.channels@.len() == 0,
            feed.logs@.len() == 0,
            feed.warning is None,
    {
        Feed { channels: Vec::new(), logs: Vec::new(), warning: None }
    }

    /// Takes in the result of a poll. One that went through becomes the
    /// snapshot, its changes are added to the log, and the warning goes. One that
    /// failed leaves snapshot and log as they are and sets the warning.
    pub fn on_poll(&mut self, result: Result<Vec<SerializableChannelStats>, String>)
        ensures
            match result {
                Ok(next) => {
                    &&& final(self).channels@ == next@
                    &&& line_views(final(self).logs@) == line_views(old(self).logs@) + poll_lines(
                        old(self).channels@,
                        next@,
                    )
                    &&& final(self).warning is None
                },
                Err(error) => {
                    &&& final(self).channels@ == old(self).channels@
                    &&& final(self).logs@ == old(self).logs@
                    &&& final(self).warning == Some(error)
                },
            },
    {
        match result {
            Ok(next) => {
                let mut lines = diff_polls(&self.channels, &next);
                let ghost before = self.logs@;
                let ghost added = lines@;
                self.logs.append(&mut lines);
                assert(line_views(self.logs@) =~= line_views(before) + line_views(added));
                self.channels = next;
                self.warning = None;
            },
            Err(error) => {
                self.warning = Some(error);
            },
        }
    }
}

/// Whether `order` lists the channels by label: it names every channel once,
/// the labels ascend along it, and channels of the same label follow each other
/// as they do in `channels`.
pub open spec fn is_label_order(order: Seq<usize>, channels: Seq<SerializableChannelStats>) -> bool {
    &&& order.len() == channels.len()
    &&& forall|a: int| 0 <= a < order.len() ==> (#[trigger] order[a]) < channels.len()
    &&& forall|a: int, b: int|
        0 <= a < b < order.len() ==> (#[trigger] order[a]) != (#[trigger] order[b])
    &&& forall|a: int, b: int|
        0 <= a < b < order.len() ==> lex_le(
            channels[(#[trigger] order[a]) as int].label@,
            channels[(#[trigger] order[b]) as int].label@,
        )
    &&& forall|a: int, b: int|
        0 <= a < b < order.len() && channels[(#[trigger] order[a]) as int].label@
            == channels[(#[trigger] order[b]) as int].label@ ==> order[a] < order[b]
}

/// The order in which the list shows the channels: by label.
pub fn order_by_label(channels: &Vec<SerializableChannelStats>) -> (order: Vec<usize>)
    ensures
        is_label_order(order@, channels@),
{
    let mut keys: Vec<Vec<char>> = Vec::new();
    let mut n: usize = 0;
    while n < channels.len()
        invariant
            n <= channels.len(),
            keys.len() == n,
            forall|j: int| 0 <= j < n ==> (#[trigger] keys[j])@ == channels[j].label@,
        decreases channels.len() - n,
    {
        keys.push(chars_of(channels[n].label.as_str()));
        n += 1;
    }
    let mut order: Vec<usize> = Vec::new();
    let mut i: usize = 0;
    while i < channels.len()
        invariant
            i <= channels.len(),
            keys.len() == channels.len(),
            forall|j: int| 0 <= j < channels.len() ==> (#[trigger] keys[j])@ == channels[j].label@,
            order.len() == i,
            forall|a: int| 0 <= a < order.len() ==> (#[trigger] order[a]) < i,
            forall|a: int, b: int|
                0 <= a < b < order.len() ==> (#[trigger] order[a]) != (#[trigger] order[b]),
            forall|a: int, b: int|
                0 <= a < b < order.len() ==> lex_le(
                    keys[(#[trigger] order[a]) as int]@,
                    keys[(#[trigger] order[b]) as int]@,
                ),
            forall|a: int, b: int|
                0 <= a < b < order.len() && keys[(#[trigger] order[a]) as int]@
                    == keys[(#[trigger] order[b]) as int]@ ==> order[a] < order[b],
        decreases channels.len() - i,
    {
        let mut p: usize = order.len();
        while p > 0 && !chars_le(&keys[order[p - 1]], &keys[i])
            invariant
                p <= order.len(),
                i < channels.len(),
                keys.len() == channels.len(),
                forall|a: int| 0 <= a < order.len() ==> (#[trigger] order[a]) < i,
                forall|a: int|
                    p <= a < order.len() ==> !lex_le(
                        keys[(#[trigger] order[a]) as int]@,
                        keys[i as int]@,
                    ),
            decreases p,
        {
            p -= 1;
        }
        let ghost before = order@;
        let ghost kx = keys[i as int]@;
        proof {
            assert forall|a: int| p <= a < before.len() implies lex_le(
                kx,
                keys[(#[trigger] before[a]) as int]@,
            ) && keys[before[a] as int]@ != kx by {
                lemma_lex_le_total(kx, keys[before[a] as int]@);
                lemma_lex_le_reflexive(kx);
            }
            assert forall|a: int| 0 <= a < p implies lex_le(
                keys[(#[trigger] before[a]) as int]@,
                kx,
            ) by {
                assert(lex_le(keys[before[p - 1] as int]@, kx));
                if a < p - 1 {
                    lemma_lex_le_transitive(
                        keys[before[a] as int]@,
                        keys[before[p - 1] as int]@,
                        kx,
                    );
                }
            }
        }
        order.insert(p, i);
        proof {
            let after = order@;
            assert forall|a: int| 0 <= a < after.len() implies (#[trigger] after[a]) < i + 1 by {
                if a < p {
                    assert(after[a] == before[a]);
                } else if a > p {
                    assert(after[a] == before[a - 1]);
                }
            }
            assert forall|a: int, b: int| 0 <= a < b < after.len() implies {
                &&& (#[trigger] after[a]) != (#[trigger] after[b])
                &&& lex_le(keys[after[a] as int]@, keys[after[b] as int]@)
                &&& keys[after[a] as int]@ == keys[after[b] as int]@ ==> after[a] < after[b]
            } by {
                let a0 = if a < p {
                    a
                } else {
                    a - 1
                };
                let b0 = if b < p {
                    b
                } else {
                    b - 1
                };
                if a == p {
                    assert(after[b] == before[b0]);
                    assert(before[b0] < i);
                } else if b == p {
                    assert(after[a] == before[a0]);
                    assert(before[a0] < i);
                } else {
                    assert(after[a] == before[a0] && after[b] == before[b0]);
                }
            }
        }
        i += 1;
    }
    order
}

} // verus!
