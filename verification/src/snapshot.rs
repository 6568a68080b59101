//! Snapshots of the registry in the orders in which they are shown: by label for
//! the summary table, by identifier for the metrics endpoint.

use vstd::prelude::*;
use crate::registry::Registry;
use crate::stats::{ChannelStats, SerializableChannelStats};
use crate::text::{
    chars_le, chars_of, lemma_lex_le_reflexive, lemma_lex_le_total, lemma_lex_le_transitive,
    lex_le,
};

verus! {

/// The key that orders records by identifier.
pub open spec fn id_key() -> spec_fn(ChannelStats) -> Seq<char> {
    |rec: ChannelStats| rec.id@
}

/// The key that orders records by the label under which they are shown.
pub open spec fn label_key() -> spec_fn(ChannelStats) -> Seq<char> {
    |rec: ChannelStats| rec.display_label()
}

/// Whether the records stand in ascending order of their keys.
pub open spec fn sorted_by(s: Seq<ChannelStats>, key: spec_fn(ChannelStats) -> Seq<char>) -> bool {
    forall|i: int, j: int| 0 <= i < j < s.len() ==> lex_le(key(s[i]), key(s[j]))
}

/// The records whose key is `k`, in the order in which they stand.
pub open spec fn with_key(
    s: Seq<ChannelStats>,
    key: spec_fn(ChannelStats) -> Seq<char>,
    k: Seq<char>,
) -> Seq<ChannelStats> {
    s.filter(|rec: ChannelStats| key(rec) == k)
}

/// Whether `out` is `s` sorted by `key`: the same records, in ascending order of
/// their keys, those of equal key in the order in which they stand in `s`.
pub open spec fn is_sorted_form(
    out: Seq<ChannelStats>,
    s: Seq<ChannelStats>,
    key: spec_fn(ChannelStats) -> Seq<char>,
) -> bool {
    &&& out.to_multiset() == s.to_multiset()
    &&& sorted_by(out, key)
    &&& forall|k: Seq<char>| with_key(out, key, k) == with_key(s, key, k)
}

/// Filtering after putting in one more element that the filter lets through,
/// at a place behind which the filter lets nothing through.
proof fn lemma_filter_insert_kept(
    s: Seq<ChannelStats>,
    p: int,
    x: ChannelStats,
    pred: spec_fn(ChannelStats) -> bool,
)
    requires
        0 <= p <= s.len(),
        pred(x),
        forall|j: int| p <= j < s.len() ==> !pred(s[j]),
    ensures
        s.insert(p, x).filter(pred) == s.filter(pred).push(x),
    decreases s.len() - p,
{
    reveal(Seq::filter);
    let t = s.insert(p, x);
    if p == s.len() {
        assert(t =~= s.push(x));
        assert(t.drop_last() =~= s);
    } else {
        assert(t.drop_last() =~= s.drop_last().insert(p, x));
        assert(t.last() == s.last());
        lemma_filter_insert_kept(s.drop_last(), p, x, pred);
    }
}

/// Filtering after putting in one more element that the filter holds back.
proof fn lemma_filter_insert_dropped(
    s: Seq<ChannelStats>,
    p: int,
    x: ChannelStats,
    pred: spec_fn(ChannelStats) -> bool,
)
    requires
        0 <= p <= s.len(),
        !pred(x),
    ensures
        s.insert(p, x).filter(pred) == s.filter(pred),
    decreases s.len() - p,
{
    reveal(Seq::filter);
    let t = s.insert(p, x);
    if p == s.len() {
        assert(t =~= s.push(x));
        assert(t.drop_last() =~= s);
    } else {
        assert(t.drop_last() =~= s.drop_last().insert(p, x));
        assert(t.last() == s.last());
        lemma_filter_insert_dropped(s.drop_last(), p, x, pred);
    }
}

/// Sorts records by keys worked out beforehand: `keys[i]` is the key of `recs[i]`.
fn sort_by_keys(
    recs: &Vec<ChannelStats>,
    keys: &Vec<Vec<char>>,
    Ghost(key): Ghost<spec_fn(ChannelStats) -> Seq<char>>,
) -> (out: Vec<ChannelStats>)
    requires
        keys.len() == recs.len(),
        forall|i: int| 0 <= i < recs.len() ==> (#[trigger] keys[i])@ == key(recs[i]),
    ensures
        is_sorted_form(out@, recs@, key),
{
    let mut out: Vec<ChannelStats> = Vec::new();
    let mut order: Vec<usize> = Vec::new();
    let mut i: usize = 0;
    proof {
        reveal(Seq::filter);
        assert(recs@.take(0) =~= out@);
    }
    while i < recs.len()
        invariant
            i <= recs.len(),
            keys.len() == recs.len(),
            forall|j: int| 0 <= j < recs.len() ==> (#[trigger] keys[j])@ == key(recs[j]),
            order.len() == out.len(),
            forall|j: int|
                0 <= j < out.len() ==> (#[trigger] order[j]) < recs.len() && out[j]
                    == recs[order[j] as int],
            is_sorted_form(out@, recs@.take(i as int), key),
        decreases recs.len() - i,
    {
        let x = recs[i];
        let mut p: usize = out.len();
        while p > 0 && !chars_le(&keys[order[p - 1]], &keys[i])
            invariant
                p <= out.len(),
                i < recs.len(),
                keys.len() == recs.len(),
                order.len() == out.len(),
                forall|j: int| 0 <= j < out.len() ==> (#[trigger] order[j]) < recs.len(),
                forall|j: int| p <= j < out.len() ==> !lex_le(keys[order[j] as int]@, keys[i as int]@),
            decreases p,
        {
            p -= 1;
        }
        let ghost before = out@;
        let ghost kx = key(x);
        proof {
            assert(keys[i as int]@ == kx);
            assert forall|j: int| 0 <= j < before.len() implies keys[order[j] as int]@ == key(
                before[j],
            ) by {
                assert(order[j] < recs.len());
            }
            assert forall|j: int| p <= j < before.len() implies lex_le(kx, key(before[j]))
                && key(before[j]) != kx by {
                lemma_lex_le_total(kx, key(before[j]));
                lemma_lex_le_reflexive(kx);
            }
            assert forall|j: int| 0 <= j < p implies lex_le(key(before[j]), kx) by {
                assert(lex_le(key(before[p - 1]), kx));
                if j < p - 1 {
                    lemma_lex_le_transitive(key(before[j]), key(before[p - 1]), kx);
                }
            }
        }
        out.insert(p, x);
        order.insert(p, i);
        proof {
            let after = out@;
            let prefix = recs@.take(i as int);
            let next = recs@.take(i + 1);
            assert(next =~= prefix.push(x));
            assert(next.drop_last() =~= prefix);
            vstd::seq_lib::to_multiset_insert(before, p as int, x);
            vstd::seq_lib::to_multiset_build(prefix, x);
            assert forall|a: int, b: int| 0 <= a < b < after.len() implies lex_le(
                key(after[a]),
                key(after[b]),
            ) by {
                if a == p {
                    assert(after[b] == before[b - 1]);
                } else if b == p {
                    assert(after[a] == before[a]);
                } else {
                    let a0 = if a < p {
                        a
                    } else {
                        a - 1
                    };
                    let b0 = if b < p {
                        b
                    } else {
                        b - 1
                    };
                    assert(after[a] == before[a0] && after[b] == before[b0]);
                }
            }
            assert forall|k: Seq<char>| with_key(after, key, k) == with_key(next, key, k) by {
                let pred = |rec: ChannelStats| key(rec) == k;
                assert(with_key(before, key, k) == with_key(prefix, key, k));
                reveal(Seq::filter);
                if k == kx {
                    lemma_filter_insert_kept(before, p as int, x, pred);
                } else {
                    lemma_filter_insert_dropped(before, p as int, x, pred);
                }
            }
        }
        i += 1;
    }
    assert(recs@.take(i as int) =~= recs@);
    out
}

/// Whether `out` holds the handed-out forms of `recs`, one for one and in order.
pub open spec fn describes_all(out: Seq<SerializableChannelStats>, recs: Seq<ChannelStats>) -> bool {
    &&& out.len() == recs.len()
    &&& forall|i: int| 0 <= i < out.len() ==> (#[trigger] out[i]).describes(recs[i])
}

impl Registry {
    /// The records sorted by the label under which each is shown; records of the
    /// same label stay in the order in which their channels were made.
    pub fn snapshot(&self) -> (out: Vec<ChannelStats>)
        ensures
            is_sorted_form(out@, self@, label_key()),
    {
        let recs = self.records();
        let mut keys: Vec<Vec<char>> = Vec::new();
        let mut i: usize = 0;
        while i < recs.len()
            invariant
                i <= recs.len(),
                keys.len() == i,
                forall|j: int| 0 <= j < i ==> (#[trigger] keys[j])@ == recs[j].display_label(),
            decreases recs.len() - i,
        {
            let label = recs[i].resolved_label();
            keys.push(chars_of(label.as_str()));
            i += 1;
        }
        sort_by_keys(recs, &keys, Ghost(label_key()))
    }

    /// The records sorted by identifier.
    pub fn sorted_by_id(&self) -> (out: Vec<ChannelStats>)
        ensures
            is_sorted_form(out@, self@, id_key()),
    {
        let recs = self.records();
        let mut keys: Vec<Vec<char>> = Vec::new();
        let mut i: usize = 0;
        while i < recs.len()
            invariant
                i <= recs.len(),
                keys.len() == i,
                forall|j: int| 0 <= j < i ==> (#[trigger] keys[j])@ == recs[j].id@,
            decreases recs.len() - i,
        {
            keys.push(chars_of(recs[i].id));
            i += 1;
        }
        sort_by_keys(recs, &keys, Ghost(id_key()))
    }
}

/// The registry as it stands, or an empty one where none was set up yet.
pub fn get_channel_stats(shared: Option<&Registry>) -> (r: Registry)
    ensures
        r@ == match shared {
            Some(registry) => registry@,
            None => Seq::<ChannelStats>::empty(),
        },
{
    match shared {
        Some(registry) => registry.copy(),
        None => Registry::new(),
    }
}

/// The handed-out forms of all records, in ascending order of identifier.
pub fn get_serializable_stats(registry: &Registry) -> (out: Vec<SerializableChannelStats>)
    requires
        registry.wf(),
    ensures
        exists|sorted: Seq<ChannelStats>| #[trigger]
            is_sorted_form(sorted, registry@, id_key()) && describes_all(out@, sorted),
{
    let sorted = registry.sorted_by_id();
    proof {
        assert forall|i: int| 0 <= i < sorted@.len() implies (#[trigger] sorted@[i]).wf() by {
            lemma_member_of_original(sorted@, registry@, i);
        }
    }
    let mut out: Vec<SerializableChannelStats> = Vec::new();
    let mut i: usize = 0;
    while i < sorted.len()
        invariant
            i <= sorted.len(),
            out.len() == i,
            forall|j: int| 0 <= j < sorted@.len() ==> (#[trigger] sorted@[j]).wf(),
            forall|j: int| 0 <= j < i ==> (#[trigger] out[j]).describes(sorted[j]),
        decreases sorted.len() - i,
    {
        out.push(SerializableChannelStats::from_stats(&sorted[i]));
        i += 1;
    }
    assert(describes_all(out@, sorted@));
    out
}

/// Every record of a sorted form is a record of what was sorted.
pub proof fn lemma_member_of_original(out: Seq<ChannelStats>, s: Seq<ChannelStats>, i: int)
    requires
        out.to_multiset() == s.to_multiset(),
        0 <= i < out.len(),
    ensures
        exists|j: int| 0 <= j < s.len() && s[j] == out[i],
{
    broadcast use vstd::seq_lib::to_multiset_contains;

    assert(out.contains(out[i]));
    assert(out.to_multiset().count(out[i]) > 0);
    assert(s.to_multiset().count(out[i]) > 0);
    assert(s.contains(out[i]));
}

/// The key of the last record of a sorted sequence is at or after that of
/// every record in it.
proof fn lemma_last_is_greatest(
    a: Seq<ChannelStats>,
    key: spec_fn(ChannelStats) -> Seq<char>,
    x: ChannelStats,
)
    requires
        sorted_by(a, key),
        a.contains(x),
    ensures
        lex_le(key(x), key(a.last())),
{
    let i = choose|i: int| 0 <= i < a.len() && a[i] == x;
    if i == a.len() - 1 {
        lemma_lex_le_reflexive(key(x));
    }
}

/// Two sequences that hold the same records, both in ascending order of their
/// keys and with the records of each key in the same order, are the same
/// sequence.
proof fn lemma_same_order(
    a: Seq<ChannelStats>,
    b: Seq<ChannelStats>,
    key: spec_fn(ChannelStats) -> Seq<char>,
)
    requires
        a.to_multiset() == b.to_multiset(),
        sorted_by(a, key),
        sorted_by(b, key),
        forall|k: Seq<char>| with_key(a, key, k) == with_key(b, key, k),
    ensures
        a == b,
    decreases a.len(),
{
    broadcast use vstd::seq_lib::to_multiset_contains;

    vstd::seq_lib::to_multiset_len(a);
    vstd::seq_lib::to_multiset_len(b);
    if a.len() == 0 {
        assert(a =~= b);
    } else {
        let x = a.last();
        let y = b.last();
        let a0 = a.drop_last();
        let b0 = b.drop_last();
        assert(a.contains(x)) by {
            assert(a[a.len() - 1] == x);
        }
        assert(b.contains(y)) by {
            assert(b[b.len() - 1] == y);
        }
        assert(a.to_multiset().count(y) > 0);
        assert(a.contains(y));
        assert(b.to_multiset().count(x) > 0);
        assert(b.contains(x));
        lemma_last_is_greatest(a, key, y);
        lemma_last_is_greatest(b, key, x);
        crate::text::lemma_lex_le_antisymmetric(key(x), key(y));
        let k = key(x);
        reveal(Seq::filter);
        assert(with_key(a, key, k) == with_key(a0, key, k).push(x));
        assert(with_key(b, key, k) == with_key(b0, key, k).push(y));
        assert(with_key(a, key, k) == with_key(b, key, k));
        assert(with_key(a, key, k).last() == x);
        assert(with_key(b, key, k).last() == y);
        assert(x == y);
        assert(with_key(a0, key, k) =~= with_key(a, key, k).drop_last());
        assert(with_key(b0, key, k) =~= with_key(b, key, k).drop_last());
        assert forall|other: Seq<char>| with_key(a0, key, other) == with_key(
            b0,
            key,
            other,
        ) by {
            assert(with_key(a, key, other) == with_key(b, key, other));
        }
        assert(a.remove(a.len() - 1) =~= a0);
        assert(b.remove(b.len() - 1) =~= b0);
        vstd::seq_lib::to_multiset_remove(a, a.len() - 1);
        vstd::seq_lib::to_multiset_remove(b, b.len() - 1);
        lemma_same_order(a0, b0, key);
        assert(a =~= a0.push(x));
        assert(b =~= b0.push(y));
    }
}

/// Sorting has one result: any two sorted forms of the same records are the
/// same sequence. So what is handed out depends on the records alone.
pub proof fn lemma_sorted_form_is_unique(
    a: Seq<ChannelStats>,
    b: Seq<ChannelStats>,
    s: Seq<ChannelStats>,
    key: spec_fn(ChannelStats) -> Seq<char>,
)
    requires
        is_sorted_form(a, s, key),
        is_sorted_form(b, s, key),
    ensures
        a == b,
{
    lemma_same_order(a, b, key);
}

} // verus!
