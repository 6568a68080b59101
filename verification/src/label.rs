//! Display labels of channels. A channel is identified by the place in the source
//! where it was made, `<file>:<line>`; its label is the name its author gave it,
//! or else a short form of that place.

use vstd::prelude::*;
use crate::text::{chars_between, chars_of, push_chars, string_of};

verus! {

/// The last position in `s` that holds `c`, if any does.
pub open spec fn last_index_of(s: Seq<char>, c: char) -> Option<int>
    decreases s.len(),
{
    if s.len() == 0 {
        None
    } else if s.last() == c {
        Some(s.len() - 1)
    } else {
        last_index_of(s.drop_last(), c)
    }
}

/// The last two segments of a path whose segments are parted by `/`; the whole
/// path where it has fewer than three segments.
pub open spec fn short_path(path: Seq<char>) -> Seq<char> {
    match last_index_of(path, '/') {
        None => path,
        Some(i) => match last_index_of(path.take(i), '/') {
            None => path,
            Some(j) => path.skip(j + 1),
        },
    }
}

/// The label under which a channel is shown: the one provided, as it stands; else
/// the identifier with its path shortened, the part from the last `:` on kept.
pub open spec fn label_of(id: Seq<char>, provided: Option<Seq<char>>) -> Seq<char> {
    match provided {
        Some(l) => l,
        None => match last_index_of(id, ':') {
            Some(pos) => short_path(id.take(pos)) + seq![':'] + id.skip(pos + 1),
            None => short_path(id),
        },
    }
}

/// What `last_index_of` finds holds the character, and nothing after it does;
/// where it finds nothing, the character occurs nowhere.
pub proof fn lemma_last_index_of(s: Seq<char>, c: char)
    ensures
        match last_index_of(s, c) {
            Some(i) => 0 <= i < s.len() && s[i] == c && forall|j: int|
                i < j < s.len() ==> s[j] != c,
            None => forall|j: int| 0 <= j < s.len() ==> s[j] != c,
        },
    decreases s.len(),
{
    if s.len() > 0 && s.last() != c {
        let t = s.drop_last();
        lemma_last_index_of(t, c);
        assert forall|j: int| 0 <= j < t.len() implies t[j] == s[j] by {}
        match last_index_of(t, c) {
            Some(i) => {
                assert forall|j: int| i < j < s.len() implies s[j] != c by {
                    if j < t.len() {
                        assert(t[j] != c);
                    }
                }
            },
            None => {
                assert forall|j: int| 0 <= j < s.len() implies s[j] != c by {
                    if j < t.len() {
                        assert(t[j] != c);
                    }
                }
            },
        }
    }
}

/// How often `c` occurs in `s`.
pub open spec fn count_of(s: Seq<char>, c: char) -> nat
    decreases s.len(),
{
    if s.len() == 0 {
        0
    } else {
        count_of(s.drop_last(), c) + if s.last() == c {
            1nat
        } else {
            0nat
        }
    }
}

/// Counting in two texts put together.
proof fn lemma_count_add(a: Seq<char>, b: Seq<char>, c: char)
    ensures
        count_of(a + b, c) == count_of(a, c) + count_of(b, c),
    decreases b.len(),
{
    if b.len() == 0 {
        assert(a + b =~= a);
    } else {
        assert((a + b).drop_last() =~= a + b.drop_last());
        assert((a + b).last() == b.last());
        lemma_count_add(a, b.drop_last(), c);
    }
}

/// The last occurrence is the one after which the count stays: where there is
/// none the count is zero, and else the text up to it holds one occurrence less.
proof fn lemma_count_to_last(s: Seq<char>, c: char)
    ensures
        match last_index_of(s, c) {
            Some(i) => 0 <= i < s.len() && s[i] == c && count_of(s, c) == count_of(s.take(i), c)
                + 1,
            None => count_of(s, c) == 0,
        },
    decreases s.len(),
{
    if s.len() > 0 {
        let t = s.drop_last();
        if s.last() == c {
            assert(s.take(s.len() - 1) =~= t);
        } else {
            lemma_count_to_last(t, c);
            match last_index_of(t, c) {
                Some(i) => {
                    assert(t.take(i) =~= s.take(i));
                },
                None => {},
            }
        }
    }
}

/// The short form of a path is its last two segments: it is the end of the
/// path; it is the whole path where that has at most one `/`; and else it
/// begins right after a `/` and holds exactly one.
pub proof fn lemma_short_path_keeps_two_segments(path: Seq<char>)
    ensures
        short_path(path).is_suffix_of(path),
        count_of(path, '/') <= 1 ==> short_path(path) == path,
        count_of(path, '/') >= 2 ==> {
            &&& count_of(short_path(path), '/') == 1
            &&& short_path(path).len() < path.len()
            &&& path[path.len() - short_path(path).len() - 1] == '/'
        },
{
    lemma_count_to_last(path, '/');
    assert(path.subrange(0, path.len() as int) =~= path);
    match last_index_of(path, '/') {
        None => {},
        Some(i) => {
            let head = path.take(i);
            lemma_count_to_last(head, '/');
            match last_index_of(head, '/') {
                None => {},
                Some(j) => {
                    let front = path.take(j + 1);
                    let back = path.skip(j + 1);
                    assert(head.take(j) =~= path.take(j));
                    assert(front.drop_last() =~= path.take(j));
                    assert(front.last() == '/');
                    assert(front + back =~= path);
                    lemma_count_add(front, back, '/');
                    assert(back =~= path.subrange(path.len() - back.len(), path.len() as int));
                },
            }
        },
    }
}

/// A label that was provided is the label, whatever the identifier; so resolving
/// again with a resolved label changes nothing.
pub proof fn lemma_label_idempotent(id: Seq<char>, provided: Option<Seq<char>>)
    ensures
        label_of(id, Some(label_of(id, provided))) == label_of(id, provided),
        provided matches Some(l) ==> label_of(id, provided) == l,
{
}

/// The last position below `end` at which `s` holds `c`.
pub fn last_index(s: &Vec<char>, end: usize, c: char) -> (r: Option<usize>)
    requires
        end <= s.len(),
    ensures
        match r {
            Some(i) => last_index_of(s@.take(end as int), c) == Some(i as int) && i < end,
            None => last_index_of(s@.take(end as int), c) is None,
        },
{
    let mut i: usize = end;
    while i > 0
        invariant
            i <= end <= s.len(),
            last_index_of(s@.take(end as int), c) == last_index_of(s@.take(i as int), c),
        decreases i,
    {
        if s[i - 1] == c {
            return Some(i - 1);
        }
        assert(s@.take(i as int).drop_last() =~= s@.take(i - 1));
        i -= 1;
    }
    None
}

/// Appends the short form of the first `end` characters of `s` to `out`.
fn push_short_path(out: &mut Vec<char>, s: &Vec<char>, end: usize)
    requires
        end <= s.len(),
    ensures
        final(out)@ == old(out)@ + short_path(s@.take(end as int)),
{
    let ghost path = s@.take(end as int);
    let mut from: usize = 0;
    if let Some(i) = last_index(s, end, '/') {
        assert(path.take(i as int) =~= s@.take(i as int));
        if let Some(j) = last_index(s, i, '/') {
            from = j + 1;
        }
    }
    let part = chars_between(s, from, end);
    assert(part@ =~= short_path(path));
    push_chars(out, &part);
}

/// Keeps the last two segments of a path, or the whole path where it has fewer
/// than three.
pub fn extract_filename(path: &str) -> (r: String)
    ensures
        r@ == short_path(path@),
{
    let s = chars_of(path);
    let mut out: Vec<char> = Vec::new();
    assert(s@.take(s.len() as int) =~= s@);
    push_short_path(&mut out, &s, s.len());
    assert(out@ =~= short_path(path@));
    string_of(&out)
}

/// The label under which the channel `id` is shown.
pub fn resolve_label(id: &str, provided: Option<&str>) -> (r: String)
    ensures
        r@ == label_of(
            id@,
            match provided {
                Some(l) => Some(l@),
                None => None,
            },
        ),
{
    if let Some(l) = provided {
        let v = chars_of(l);
        return string_of(&v);
    }
    let s = chars_of(id);
    let mut out: Vec<char> = Vec::new();
    assert(s@.take(s.len() as int) =~= s@);
    match last_index(&s, s.len(), ':') {
        Some(pos) => {
            push_short_path(&mut out, &s, pos);
            out.push(':');
            let line = chars_between(&s, pos + 1, s.len());
            push_chars(&mut out, &line);
            assert(out@ =~= short_path(id@.take(pos as int)) + seq![':'] + id@.skip(pos + 1));
        },
        None => {
            push_short_path(&mut out, &s, s.len());
            assert(out@ =~= short_path(id@));
        },
    }
    string_of(&out)
}

} // verus!
