//! Decimal numbers in text.

use crate::mi::text::chars_of;
use vstd::prelude::*;

verus! {

/// Whether `c` is one of the digits `0` to `9`.
pub open spec fn is_digit(c: char) -> bool {
    '0' <= c <= '9'
}

/// The number that a digit stands for.
pub open spec fn digit_value(c: char) -> nat {
    (c as int - '0' as int) as nat
}

/// Whether `s` holds digits and nothing else.
pub open spec fn all_digits(s: Seq<char>) -> bool {
    forall|i: int| 0 <= i < s.len() ==> is_digit(#[trigger] s[i])
}

/// The number that the digits stand for, read in base ten.
pub open spec fn decimal(digits: Seq<char>) -> nat
    decreases digits.len(),
{
    if digits.len() == 0 {
        0
    } else {
        decimal(digits.drop_last()) * 10 + digit_value(digits.last())
    }
}

/// The number that `digits` stand for, where they are one digit or more and
/// the number is no greater than `max`.
pub open spec fn spec_digits(digits: Seq<char>, max: nat) -> Option<nat> {
    if digits.len() > 0 && all_digits(digits) && decimal(digits) <= max {
        Some(decimal(digits))
    } else {
        None
    }
}

/// The number that `s` is read as, where it is no greater than `max`: an
/// optional `+`, and one digit or more.
pub open spec fn spec_number(s: Seq<char>, max: nat) -> Option<nat> {
    if s.len() > 0 && s[0] == '+' {
        spec_digits(s.skip(1), max)
    } else {
        spec_digits(s, max)
    }
}

/// The number that `s` is read as, where it lies between `-below` and
/// `above`: an optional `+` or `-`, and one digit or more.
pub open spec fn spec_signed_number(s: Seq<char>, below: nat, above: nat) -> Option<int> {
    if s.len() > 0 && s[0] == '-' {
        match spec_digits(s.skip(1), below) {
            Some(n) => Some(-(n as int)),
            None => None,
        }
    } else {
        match spec_number(s, above) {
            Some(n) => Some(n as int),
            None => None,
        }
    }
}

/// More digits never stand for less.
pub proof fn lemma_decimal_grows(digits: Seq<char>, k: int)
    requires
        0 <= k <= digits.len(),
    ensures
        decimal(digits.take(k)) <= decimal(digits),
    decreases digits.len() - k,
{
    if k == digits.len() {
        assert(digits.take(k) =~= digits);
    } else {
        lemma_decimal_grows(digits.drop_last(), k);
        assert(digits.drop_last().take(k) =~= digits.take(k));
    }
}

/// Reads the digits of `text` from `start` on as a number that is no
/// greater than `max`.
fn digits_from(text: &[char], start: usize, max: u64) -> (r: Option<u64>)
    requires
        start <= text.len(),
        max >= 9,
    ensures
        match r {
            Some(n) => spec_digits(text@.skip(start as int), max as nat) == Some(n as nat),
            None => spec_digits(text@.skip(start as int), max as nat) is None,
        },
{
    let ghost digits = text@.skip(start as int);
    if start == text.len() {
        return None;
    }
    let mut acc: u64 = 0;
    let mut p: usize = start;
    assert(digits.take(0) =~= Seq::empty());
    while p < text.len()
        invariant
            start <= p <= text.len(),
            digits == text@.skip(start as int),
            acc == decimal(digits.take(p - start)),
            acc <= max,
            max >= 9,
            all_digits(digits.take(p - start)),
        decreases text.len() - p,
    {
        let c = text[p];
        if !(c >= '0' && c <= '9') {
            assert(!is_digit(digits[p - start]));
            return None;
        }
        let d: u64 = (c as u32 - '0' as u32) as u64;
        proof {
            let next = digits.take(p - start + 1);
            assert(next.drop_last() =~= digits.take(p - start));
            assert(next.last() == c);
            assert(decimal(next) == acc * 10 + d);
            assert forall|i: int| 0 <= i < next.len() implies is_digit(#[trigger] next[i]) by {
                if i < p - start {
                    assert(next[i] == digits.take(p - start)[i]);
                }
            }
            lemma_decimal_grows(digits, p - start + 1);
        }
        if acc > (max - d) / 10 {
            return None;
        }
        acc = acc * 10 + d;
        p = p + 1;
    }
    assert(digits.take(p - start) =~= digits);
    Some(acc)
}

/// Reads `s` as a number that is no greater than `max`.
fn number(s: &str, max: u64) -> (r: Option<u64>)
    requires
        max >= 9,
    ensures
        match r {
            Some(n) => spec_number(s@, max as nat) == Some(n as nat),
            None => spec_number(s@, max as nat) is None,
        },
{
    let chars = chars_of(s);
    let text = chars.as_slice();
    assert(text@.skip(0) =~= text@);
    if text.len() > 0 && text[0] == '+' {
        digits_from(text, 1, max)
    } else {
        digits_from(text, 0, max)
    }
}

/// Reads `s` as a `u32`: an optional `+`, then one digit or more, the number
/// no greater than the type holds.
pub fn parse_u32(s: &str) -> (r: Option<u32>)
    ensures
        match r {
            Some(n) => spec_number(s@, u32::MAX as nat) == Some(n as nat),
            None => spec_number(s@, u32::MAX as nat) is None,
        },
{
    match number(s, 0xffff_ffff) {
        Some(n) => Some(n as u32),
        None => None,
    }
}

/// Reads `s` as a `u64`: an optional `+`, then one digit or more, the number
/// no greater than the type holds.
pub fn parse_u64(s: &str) -> (r: Option<u64>)
    ensures
        match r {
            Some(n) => spec_number(s@, u64::MAX as nat) == Some(n as nat),
            None => spec_number(s@, u64::MAX as nat) is None,
        },
{
    number(s, 0xffff_ffff_ffff_ffff)
}

/// Reads `s` as a `usize`: an optional `+`, then one digit or more, the
/// number no greater than the type holds.
pub fn parse_usize(s: &str) -> (r: Option<usize>)
    ensures
        match r {
            Some(n) => spec_number(s@, usize::MAX as nat) == Some(n as nat),
            None => spec_number(s@, usize::MAX as nat) is None,
        },
{
    match number(s, usize::MAX as u64) {
        Some(n) => Some(n as usize),
        None => None,
    }
}

/// Reads `s` as an `i32`: an optional `+` or `-`, then one digit or more,
/// the number within what the type holds.
pub fn parse_i32(s: &str) -> (r: Option<i32>)
    ensures
        match r {
            Some(n) => spec_signed_number(s@, 0x8000_0000, 0x7fff_ffff) == Some(n as int),
            None => spec_signed_number(s@, 0x8000_0000, 0x7fff_ffff) is None,
        },
{
    let chars = chars_of(s);
    let text = chars.as_slice();
    assert(text@.skip(0) =~= text@);
    if text.len() > 0 && text[0] == '-' {
        match digits_from(text, 1, 0x8000_0000) {
            Some(n) => Some((0 - (n as i64)) as i32),
            None => None,
        }
    } else if text.len() > 0 && text[0] == '+' {
        match digits_from(text, 1, 0x7fff_ffff) {
            Some(n) => Some(n as i32),
            None => None,
        }
    } else {
        match digits_from(text, 0, 0x7fff_ffff) {
            Some(n) => Some(n as i32),
            None => None,
        }
    }
}

} // verus!
