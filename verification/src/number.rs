//! Whole numbers in texts.

use vstd::prelude::*;
use vstd::string::*;

use crate::text;
use crate::text::{chars_of, Text};

verus! {

/// The value of a decimal digit.
pub open spec fn digit_value(c: char) -> Option<int> {
    if '0' <= c <= '9' { Some(c as int - '0' as int) } else { None }
}

/// The value of text that is made of decimal digits.
pub open spec fn digits_number(s: Text) -> Option<int>
    decreases s.len(),
{
    if s.len() == 0 {
        Some(0)
    } else {
        match (digits_number(s.drop_last()), digit_value(s.last())) {
            (Some(n), Some(d)) => Some(n * 10 + d),
            _ => None,
        }
    }
}

/// The value of at least one digit, up to a limit.
pub open spec fn limited_number(digits: Text, most: int) -> Option<int> {
    if digits.len() == 0 {
        None
    } else {
        match digits_number(digits) {
            Some(n) => if n <= most { Some(n) } else { None },
            None => None,
        }
    }
}

/// The digits of a number, behind the plus sign that it may have.
pub open spec fn unsigned_digits(s: Text) -> Text {
    if s.len() > 0 && s[0] == '+' { s.drop_first() } else { s }
}

/// The number from 0 to 2^64 - 1 that a text writes.
pub open spec fn u64_of_text(s: Text) -> Option<u64> {
    match limited_number(unsigned_digits(s), u64::MAX as int) {
        Some(n) => Some(n as u64),
        None => None,
    }
}

/// The number from -2^63 to 2^63 - 1 that a text writes.
pub open spec fn i64_of_text(s: Text) -> Option<i64> {
    if s.len() > 0 && s[0] == '-' {
        match limited_number(s.drop_first(), -(i64::MIN as int)) {
            Some(n) => Some((-n) as i64),
            None => None,
        }
    } else {
        match limited_number(unsigned_digits(s), i64::MAX as int) {
            Some(n) => Some(n as i64),
            None => None,
        }
    }
}

proof fn lemma_digits_nonnegative(s: Text)
    ensures
        digits_number(s) matches Some(n) ==> n >= 0,
    decreases s.len(),
{
    if s.len() > 0 {
        lemma_digits_nonnegative(s.drop_last());
    }
}

proof fn lemma_digits_prefix(s: Text, i: int)
    requires
        0 <= i <= s.len(),
        digits_number(s) is Some,
    ensures
        digits_number(s.take(i)) is Some,
        0 <= digits_number(s.take(i))->0 <= digits_number(s)->0,
    decreases s.len(),
{
    if i == s.len() {
        assert(s.take(i) =~= s);
        lemma_digits_nonnegative(s);
    } else {
        lemma_digits_prefix(s.drop_last(), i);
        assert(s.drop_last().take(i) =~= s.take(i));
    }
}

fn read_digits(chars: &Vec<char>, from: usize, most: u64) -> (n: Option<u64>)
    requires
        from <= chars@.len(),
    ensures
        match (n, limited_number(chars@.skip(from as int), most as int)) {
            (Some(n), Some(m)) => n == m,
            (None, None) => true,
            _ => false,
        },
{
    let ghost digits = chars@.skip(from as int);
    if chars.len() == from {
        return None;
    }
    let mut n: u64 = 0;
    let mut i: usize = from;
    assert(digits.take(0) =~= seq![]);
    while i < chars.len()
        invariant
            from <= i <= chars@.len(),
            digits == chars@.skip(from as int),
            digits.len() > 0,
            n <= most,
            digits_number(digits.take(i - from)) == Some(n as int),
        decreases chars@.len() - i,
    {
        let c: char = chars[i];
        proof {
            assert(digits.take(i - from + 1).drop_last() =~= digits.take(i - from));
            assert(digits.take(i - from + 1).last() == c);
            if digits_number(digits) is Some {
                lemma_digits_prefix(digits, i - from + 1);
            }
        }
        if !('0' <= c && c <= '9') {
            return None;
        }
        let d: u64 = (c as u32 - '0' as u32) as u64;
        let next: u128 = n as u128 * 10 + d as u128;
        if next > most as u128 {
            return None;
        }
        n = next as u64;
        i = i + 1;
    }
    assert(digits.take(digits.len() as int) =~= digits);
    Some(n)
}

/// Reads a number from 0 to 2^64 - 1.
pub fn parse_u64(s: &str) -> (n: Option<u64>)
    ensures
        n == u64_of_text(s@),
{
    let chars: Vec<char> = chars_of(s);
    let from: usize = if chars.len() > 0 && chars[0] == '+' { 1 } else { 0 };
    assert(unsigned_digits(s@) =~= chars@.skip(from as int));
    read_digits(&chars, from, u64::MAX)
}

/// Reads a number from -2^63 to 2^63 - 1.
pub fn parse_i64(s: &str) -> (n: Option<i64>)
    ensures
        n == i64_of_text(s@),
{
    let chars: Vec<char> = chars_of(s);
    if chars.len() > 0 && chars[0] == '-' {
        assert(s@.drop_first() =~= chars@.skip(1));
        return match read_digits(&chars, 1, 0x8000_0000_0000_0000) {
            Some(n) => Some((-(n as i128)) as i64),
            None => None,
        };
    }
    let from: usize = if chars.len() > 0 && chars[0] == '+' { 1 } else { 0 };
    assert(unsigned_digits(s@) =~= chars@.skip(from as int));
    match read_digits(&chars, from, 0x7FFF_FFFF_FFFF_FFFF) {
        Some(n) => Some(n as i64),
        None => None,
    }
}

proof fn lemma_digit_value(d: int)
    requires
        0 <= d < 10,
    ensures
        digit_value(text::digit_char(d)) == Some(d),
{
}

proof fn lemma_written_digits(n: nat)
    ensures
        digits_number(text::nat_text(n)) == Some(n as int),
        text::nat_text(n).len() > 0,
        '0' <= text::nat_text(n)[0] <= '9',
    decreases n,
{
    if n < 10 {
        lemma_digit_value(n as int);
        let t = text::nat_text(n);
        assert(t.drop_last() =~= seq![]);
        assert(digits_number(t.drop_last()) == Some(0int));
        assert(t.last() == text::digit_char(n as int));
    } else {
        lemma_written_digits(n / 10);
        lemma_digit_value((n % 10) as int);
        let t = text::nat_text(n);
        assert(t.drop_last() =~= text::nat_text(n / 10));
        assert(t[0] == text::nat_text(n / 10)[0]);
    }
}

/// A number that is written is read back as it was.
pub proof fn written_numbers_are_read(n: u64, i: i64)
    ensures
        u64_of_text(text::nat_text(n as nat)) == Some(n),
        i64_of_text(text::int_text(i as int)) == Some(i),
{
    lemma_written_digits(n as nat);
    assert(unsigned_digits(text::nat_text(n as nat)) == text::nat_text(n as nat));
    if i < 0 {
        let digits = text::nat_text((-(i as int)) as nat);
        lemma_written_digits((-(i as int)) as nat);
        let t = text::int_text(i as int);
        assert(t.drop_first() =~= digits);
        assert(t[0] == '-');
    } else {
        lemma_written_digits(i as nat);
        assert(unsigned_digits(text::nat_text(i as nat)) == text::nat_text(i as nat));
    }
}

/// Only digits are a number, with a sign before them at most: each one counts ten times what stands
/// behind it.
pub proof fn digits_count_by_tens(s: Text, c: char)
    ensures
        digits_number(s.push(c)) == (if digits_number(s) is Some && '0' <= c <= '9' {
            Some(10 * digits_number(s)->0 + (c as int - '0' as int))
        } else {
            None
        }),
        digits_number(Seq::empty()) == Some(0int),
        u64_of_text(Seq::empty()) is None && i64_of_text(Seq::empty()) is None,
{
    assert(s.push(c).drop_last() =~= s);
}

} // verus!
