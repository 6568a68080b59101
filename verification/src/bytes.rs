//! Byte counts for people: `1536` reads `1.5 KB`.

use vstd::prelude::*;
use crate::text::{decimal, digit_char, digit_of, push_decimal, push_str, string_of};

verus! {

/// Which of the five units a count is shown in: 0 for B, then KB, MB, GB, TB.
/// It is the largest whose size the count reaches; a count below 1024 stays in
/// bytes.
pub open spec fn unit_index(bytes: nat) -> nat {
    if bytes < 1024 {
        0
    } else if bytes < 1048576 {
        1
    } else if bytes < 1073741824 {
        2
    } else if bytes < 1099511627776 {
        3
    } else {
        4
    }
}

/// The number of bytes in one of unit `k`: 1024 to the power `k`.
pub open spec fn unit_size(k: nat) -> nat {
    if k == 0 {
        1
    } else if k == 1 {
        1024
    } else if k == 2 {
        1048576
    } else if k == 3 {
        1073741824
    } else {
        1099511627776
    }
}

/// The name of unit `k`.
pub open spec fn unit_name(k: nat) -> Seq<char> {
    if k == 0 {
        "B"@
    } else if k == 1 {
        "KB"@
    } else if k == 2 {
        "MB"@
    } else if k == 3 {
        "GB"@
    } else {
        "TB"@
    }
}

/// `num / den` rounded to the nearest whole number, a value halfway between two
/// going to the even one.
pub open spec fn round_half_even(num: nat, den: nat) -> nat {
    let q = num / den;
    let r = num % den;
    if 2 * r > den || (2 * r == den && q % 2 == 1) {
        q + 1
    } else {
        q
    }
}

/// The count in tenths of its unit, rounded.
pub open spec fn tenths(bytes: nat) -> nat {
    round_half_even(bytes * 10, unit_size(unit_index(bytes)))
}

/// The text of a byte count. Below 1024 it is the count itself and ` B`. From
/// there on it is the count in its unit with one digit after the point, and the
/// unit's name.
pub open spec fn bytes_text(bytes: nat) -> Seq<char> {
    let k = unit_index(bytes);
    if k == 0 {
        decimal(bytes) + " "@ + unit_name(0)
    } else {
        decimal(tenths(bytes) / 10) + "."@ + seq![digit_char(tenths(bytes) % 10)] + " "@
            + unit_name(k)
    }
}

/// The unit chosen is the largest that the count reaches: the count is at least
/// one of it, and less than one of the next, where there is a next.
pub proof fn lemma_unit_is_largest(bytes: nat)
    requires
        bytes >= 1,
    ensures
        unit_index(bytes) <= 4,
        unit_size(unit_index(bytes)) <= bytes,
        unit_index(bytes) < 4 ==> bytes < unit_size(unit_index(bytes) + 1),
        forall|k: nat| k <= 4 && unit_size(k) <= bytes ==> k <= unit_index(bytes),
{
}

/// What is shown before the unit is at least 1.0, and below the last unit at
/// most 1024.0: a count is never shown as a fraction of its unit.
pub proof fn lemma_tenths_in_range(bytes: nat)
    requires
        bytes >= 1024,
    ensures
        tenths(bytes) >= 10,
        unit_index(bytes) < 4 ==> tenths(bytes) <= 10240,
{
    let k = unit_index(bytes);
    let n = bytes * 10;
    if k == 1 {
        assert(10 <= n / 1024 < 10240);
    } else if k == 2 {
        assert(10 <= n / 1048576 < 10240);
    } else if k == 3 {
        assert(10 <= n / 1073741824 < 10240);
    } else {
        assert(10 <= n / 1099511627776);
    }
}

/// The name of unit `k`.
fn unit_label(k: u8) -> (s: &'static str)
    requires
        k <= 4,
    ensures
        s@ == unit_name(k as nat),
{
    if k == 0 {
        "B"
    } else if k == 1 {
        "KB"
    } else if k == 2 {
        "MB"
    } else if k == 3 {
        "GB"
    } else {
        "TB"
    }
}

/// Formats a byte count in the largest fitting unit of B, KB, MB, GB, TB.
pub fn format_bytes(bytes: u64) -> (s: String)
    ensures
        s@ == bytes_text(bytes as nat),
{
    let mut out: Vec<char> = Vec::new();
    if bytes < 1024 {
        push_decimal(&mut out, bytes as u128);
        push_str(&mut out, " ");
        push_str(&mut out, unit_label(0));
        assert(out@ =~= bytes_text(bytes as nat));
        return string_of(&out);
    }
    let k: u8 = if bytes < 1048576 {
        1
    } else if bytes < 1073741824 {
        2
    } else if bytes < 1099511627776 {
        3
    } else {
        4
    };
    let size: u128 = if k == 1 {
        1024
    } else if k == 2 {
        1048576
    } else if k == 3 {
        1073741824
    } else {
        1099511627776
    };
    assert(k == unit_index(bytes as nat));
    assert(size == unit_size(k as nat));
    let num: u128 = (bytes as u128) * 10;
    let q: u128 = num / size;
    let r: u128 = num % size;
    let t: u128 = if 2 * r > size || (2 * r == size && q % 2 == 1) {
        q + 1
    } else {
        q
    };
    assert(t == tenths(bytes as nat));
    push_decimal(&mut out, t / 10);
    push_str(&mut out, ".");
    out.push(digit_of(t % 10));
    push_str(&mut out, " ");
    push_str(&mut out, unit_label(k));
    assert(out@ =~= bytes_text(bytes as nat));
    string_of(&out)
}

} // verus!
