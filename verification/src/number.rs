//! Reading numbers.

use vstd::prelude::*;
use vstd::string::*;
use crate::render::{decimal, digit};
use crate::text::chars_of;

verus! {

/// Whether `c` is a decimal digit.
pub open spec fn is_digit(c: char) -> bool {
    48 <= c as u32 <= 57
}

/// Whether `text` is made of digits, and has any.
pub open spec fn all_digits(text: Seq<char>) -> bool {
    text.len() > 0 && forall|i: int| 0 <= i < text.len() ==> is_digit(#[trigger] text[i])
}

/// The number that some digits stand for.
pub open spec fn digits_value(text: Seq<char>) -> nat
    decreases text.len(),
{
    if text.len() == 0 {
        0
    } else {
        (10 * digits_value(text.drop_last()) + (text.last() as u32 - 48)) as nat
    }
}

/// The number that a text stands for: digits, behind a plus sign or not.
pub open spec fn whole_number(text: Seq<char>) -> Option<nat> {
    let digits = if text.len() > 0 && text[0] == '+' { text.skip(1) } else { text };
    if all_digits(digits) { Some(digits_value(digits)) } else { None }
}

/// The number that a text stands for, if it fits.
pub open spec fn unsigned_in(text: Seq<char>) -> Option<u64> {
    match whole_number(text) {
        None => None,
        Some(value) => if value <= u64::MAX { Some(value as u64) } else { None },
    }
}

/// The number that a text stands for, if it fits: digits behind a sign or not.
pub open spec fn signed_in(text: Seq<char>) -> Option<i64> {
    if text.len() > 0 && text[0] == '-' {
        if all_digits(text.skip(1)) && -digits_value(text.skip(1)) >= i64::MIN {
            Some((-digits_value(text.skip(1))) as i64)
        } else {
            None
        }
    } else {
        match whole_number(text) {
            None => None,
            Some(value) => if value <= i64::MAX { Some(value as i64) } else { None },
        }
    }
}

proof fn lemma_value_grows(text: Seq<char>, count: int)
    requires
        0 <= count <= text.len(),
        forall|i: int| 0 <= i < text.len() ==> is_digit(#[trigger] text[i]),
    ensures
        digits_value(text.take(count)) <= digits_value(text),
    decreases text.len() - count,
{
    if count < text.len() {
        lemma_value_grows(text, count + 1);
        assert(text.take(count + 1).drop_last() =~= text.take(count));
        assert(is_digit(text[count]));
        assert(text.take(count + 1).last() == text[count]);
    } else {
        assert(text.take(count) =~= text);
    }
}

/// The number that the digits from `start` on stand for, up to a limit.
fn parse_digits(chars: &[char], start: usize, limit: u64) -> (value: Option<u64>)
    requires
        start <= chars@.len(),
    ensures
        value == if all_digits(chars@.skip(start as int)) && digits_value(chars@.skip(start as int))
            <= limit {
            Some(digits_value(chars@.skip(start as int)) as u64)
        } else {
            None
        },
{
    if start == chars.len() {
        return None;
    }
    let ghost digits = chars@.skip(start as int);
    let mut value: u64 = 0;
    let mut i: usize = start;
    proof {
        assert(digits.take(0) =~= Seq::empty());
    }
    while i < chars.len()
        invariant
            start <= i <= chars@.len(),
            digits == chars@.skip(start as int),
            value == digits_value(digits.take(i - start)),
            value <= limit,
            forall|k: int| 0 <= k < i - start ==> is_digit(#[trigger] digits[k]),
        decreases chars@.len() - i,
    {
        let u: u32 = chars[i] as u32;
        let ghost k = i - start;
        proof {
            assert(digits[k] == chars@[i as int]);
        }
        if u < 48 || u > 57 {
            return None;
        }
        let d: u64 = (u - 48) as u64;
        proof {
            assert(digits.take(k + 1).drop_last() =~= digits.take(k));
            assert(digits.take(k + 1).last() == digits[k]);
            if all_digits(digits) {
                lemma_value_grows(digits, k + 1);
            }
        }
        if value > (u64::MAX - d) / 10 {
            return None;
        }
        value = value * 10 + d;
        if value > limit {
            return None;
        }
        i += 1;
    }
    proof {
        assert(digits.take(i - start) =~= digits);
    }
    Some(value)
}

/// `str::parse` to an unsigned number.
pub fn parse_unsigned(text: &str) -> (value: Option<u64>)
    ensures
        value == unsigned_in(text@),
{
    let chars: Vec<char> = chars_of(text);
    let start: usize = if chars.len() > 0 && chars[0] == '+' {
        1
    } else {
        0
    };
    proof {
        assert(chars@.skip(0) =~= chars@);
    }
    parse_digits(chars.as_slice(), start, u64::MAX)
}

/// `str::parse` to a signed number.
pub fn parse_signed(text: &str) -> (value: Option<i64>)
    ensures
        value == signed_in(text@),
{
    let chars: Vec<char> = chars_of(text);
    proof {
        assert(chars@.skip(0) =~= chars@);
    }
    if chars.len() > 0 && chars[0] == '-' {
        match parse_digits(chars.as_slice(), 1, 0x8000_0000_0000_0000u64) {
            None => None,
            Some(value) => {
                if value == 0x8000_0000_0000_0000u64 {
                    Some(i64::MIN)
                } else {
                    Some(-(value as i64))
                }
            },
        }
    } else {
        let start: usize = if chars.len() > 0 && chars[0] == '+' {
            1
        } else {
            0
        };
        match parse_digits(chars.as_slice(), start, 0x7fff_ffff_ffff_ffffu64) {
            None => None,
            Some(value) => Some(value as i64),
        }
    }
}

/// A number that was written down is read back.
pub proof fn law_numbers_are_read_back(value: u64)
    ensures
        unsigned_in(decimal(value as nat)) == Some(value),
{
    lemma_decimal(value as nat);
}

pub proof fn lemma_decimal(value: nat)
    ensures
        all_digits(decimal(value)),
        digits_value(decimal(value)) == value,
        decimal(value)[0] != '+',
    decreases value,
{
    let last = digit((value % 10) as int);
    assert(is_digit(last));
    assert(last as u32 - 48 == value % 10);
    if value >= 10 {
        lemma_decimal(value / 10);
        assert(decimal(value).drop_last() =~= decimal(value / 10));
        assert(decimal(value)[0] == decimal(value / 10)[0]);
    } else {
        assert(decimal(value).drop_last() =~= Seq::empty());
        assert(digits_value(Seq::<char>::empty()) == 0);
    }
}

} // verus!
