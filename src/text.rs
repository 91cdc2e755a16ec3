//! Character-level helpers for reading device specifications.
use vstd::prelude::*;

verus! {

/// The largest device identifier accepted: identifiers are C `int`s.
pub const MAX_DEVICE_ID: u32 = 2147483647;

/// Unicode `White_Space`, the set that `str::trim` removes.
pub open spec fn is_white_space(c: char) -> bool {
    let u = c as u32;
    (0x9 <= u && u <= 0xd) || u == 0x20 || u == 0x85 || u == 0xa0 || u == 0x1680
        || (0x2000 <= u && u <= 0x200a) || u == 0x2028 || u == 0x2029 || u == 0x202f
        || u == 0x205f || u == 0x3000
}

/// Whether `c` is white space.
pub fn white_space(c: char) -> (r: bool)
    ensures
        r == is_white_space(c),
{
    let u = c as u32;
    (0x9 <= u && u <= 0xd) || u == 0x20 || u == 0x85 || u == 0xa0 || u == 0x1680
        || (0x2000 <= u && u <= 0x200a) || u == 0x2028 || u == 0x2029 || u == 0x202f
        || u == 0x205f || u == 0x3000
}

/// `s` without leading white space.
pub open spec fn trim_start(s: Seq<char>) -> Seq<char>
    decreases s.len(),
{
    if s.len() > 0 && is_white_space(s[0]) {
        trim_start(s.drop_first())
    } else {
        s
    }
}

/// `s` without trailing white space.
pub open spec fn trim_end(s: Seq<char>) -> Seq<char>
    decreases s.len(),
{
    if s.len() > 0 && is_white_space(s.last()) {
        trim_end(s.drop_last())
    } else {
        s
    }
}

/// `s` without leading and trailing white space.
pub open spec fn trim(s: Seq<char>) -> Seq<char> {
    trim_end(trim_start(s))
}

/// Whether `c` is one of `0` to `9`.
pub open spec fn is_digit(c: char) -> bool {
    '0' <= c && c <= '9'
}

/// The value of a decimal digit.
pub open spec fn digit_value(c: char) -> nat {
    (c as u32 - '0' as u32) as nat
}

/// The number that a string of decimal digits denotes.
pub open spec fn decimal_value(s: Seq<char>) -> nat
    decreases s.len(),
{
    if s.len() == 0 {
        0
    } else {
        decimal_value(s.drop_last()) * 10 + digit_value(s.last())
    }
}

/// One or more decimal digits whose value fits a C `int`.
pub open spec fn id_of_digits(t: Seq<char>) -> Option<u32> {
    if t.len() > 0 && (forall|i: int| 0 <= i < t.len() ==> is_digit(#[trigger] t[i]))
        && decimal_value(t) <= MAX_DEVICE_ID {
        Some(decimal_value(t) as u32)
    } else {
        None
    }
}

/// A device identifier written as a token: an optional `+` and then one or
/// more decimal digits whose value fits a C `int`.
pub open spec fn id_of_token(t: Seq<char>) -> Option<u32> {
    if t.len() > 0 && t[0] == '+' {
        id_of_digits(t.drop_first())
    } else {
        id_of_digits(t)
    }
}

/// The characters of `s`, in order.
pub fn chars_of(s: &str) -> (r: Vec<char>)
    ensures
        r@ == s@,
{
    let mut out: Vec<char> = Vec::new();
    for c in it: s.chars()
        invariant
            out@ == it.history(),
    {
        out.push(c);
    }
    out
}

/// The bounds of `v[lo..hi]` once white space is trimmed from both ends.
pub fn trim_bounds(v: &Vec<char>, lo: usize, hi: usize) -> (r: (usize, usize))
    requires
        lo <= hi <= v@.len(),
    ensures
        lo <= r.0 <= r.1 <= hi,
        v@.subrange(r.0 as int, r.1 as int) == trim(v@.subrange(lo as int, hi as int)),
{
    let mut a: usize = lo;
    while a < hi && white_space(v[a])
        invariant
            lo <= a <= hi <= v@.len(),
            trim_start(v@.subrange(lo as int, hi as int)) == trim_start(
                v@.subrange(a as int, hi as int),
            ),
        decreases hi - a,
    {
        assert(v@.subrange(a as int, hi as int).drop_first() =~= v@.subrange(
            a + 1,
            hi as int,
        ));
        a = a + 1;
    }
    assert(trim_start(v@.subrange(a as int, hi as int)) == v@.subrange(a as int, hi as int));
    let mut b: usize = hi;
    while b > a && white_space(v[b - 1])
        invariant
            lo <= a <= b <= hi <= v@.len(),
            trim(v@.subrange(lo as int, hi as int)) == trim_end(
                v@.subrange(a as int, b as int),
            ),
        decreases b - a,
    {
        assert(v@.subrange(a as int, b as int).drop_last() =~= v@.subrange(
            a as int,
            b - 1,
        ));
        b = b - 1;
    }
    (a, b)
}

/// Reads `v[lo..hi]` as a device identifier.
pub fn parse_id(v: &Vec<char>, lo: usize, hi: usize) -> (r: Option<u32>)
    requires
        lo <= hi <= v@.len(),
    ensures
        r == id_of_token(v@.subrange(lo as int, hi as int)),
{
    if lo < hi && v[lo] == '+' {
        assert(v@.subrange(lo as int, hi as int).drop_first() =~= v@.subrange(lo + 1, hi as int));
        parse_digits(v, lo + 1, hi)
    } else {
        parse_digits(v, lo, hi)
    }
}

/// Reads `v[lo..hi]` as decimal digits.
fn parse_digits(v: &Vec<char>, lo: usize, hi: usize) -> (r: Option<u32>)
    requires
        lo <= hi <= v@.len(),
    ensures
        r == id_of_digits(v@.subrange(lo as int, hi as int)),
{
    let ghost t = v@.subrange(lo as int, hi as int);
    let limit: u64 = MAX_DEVICE_ID as u64 + 1;
    let mut acc: u64 = 0;
    let mut digits: bool = true;
    let mut i: usize = lo;
    while i < hi
        invariant
            lo <= i <= hi <= v@.len(),
            t == v@.subrange(lo as int, hi as int),
            limit == MAX_DEVICE_ID + 1,
            acc <= limit,
            digits == (forall|k: int| 0 <= k < i - lo ==> is_digit(#[trigger] t[k])),
            digits ==> acc == if decimal_value(t.subrange(0, i - lo)) < limit {
                decimal_value(t.subrange(0, i - lo))
            } else {
                limit as nat
            },
        decreases hi - i,
    {
        let c = v[i];
        let ghost p = t.subrange(0, i - lo);
        let ghost q = t.subrange(0, i + 1 - lo);
        assert(q.drop_last() =~= p);
        assert(t[i - lo] == c);
        if '0' <= c && c <= '9' {
            if digits {
                let d = (c as u32 - '0' as u32) as u64;
                let next = acc * 10 + d;
                acc = if next < limit { next } else { limit };
            }
        } else {
            digits = false;
        }
        i = i + 1;
    }
    assert(t.subrange(0, t.len() as int) =~= t);
    if digits && hi > lo && acc < limit {
        Some(acc as u32)
    } else {
        None
    }
}

} // verus!
