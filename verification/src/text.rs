//! Positions in UTF-8 text.
//!
//! A string is modelled by its characters. A cursor is a byte offset, as in
//! `str`; the functions here relate the two.

use vstd::prelude::*;
use vstd::string::*;
use vstd::utf8::*;

verus! {

/// The number of bytes that hold `chars`.
pub open spec fn utf8_len(chars: Seq<char>) -> nat {
    encode_utf8(chars).len()
}

/// The byte offset of the character with index `index`, or of the end.
pub open spec fn offset(chars: Seq<char>, index: int) -> nat {
    utf8_len(chars.take(index))
}

/// Whether `at` is the byte offset of a character or of the end.
pub open spec fn is_boundary(chars: Seq<char>, at: int) -> bool {
    exists|index: int| 0 <= index <= chars.len() && #[trigger] offset(chars, index) == at
}

/// The index of the character that stands at byte offset `at`.
pub open spec fn char_index(chars: Seq<char>, at: int) -> int
    recommends
        is_boundary(chars, at),
{
    choose|index: int| 0 <= index <= chars.len() && #[trigger] offset(chars, index) == at
}

/// The last character boundary at or before `at`.
pub open spec fn floor_boundary(chars: Seq<char>, at: int) -> int
    decreases at,
{
    if at <= 0 || is_boundary(chars, at) {
        at
    } else {
        floor_boundary(chars, at - 1)
    }
}

/// `chars` without the ends: the characters between two byte offsets.
pub open spec fn slice_of(chars: Seq<char>, start: int, end: int) -> Seq<char> {
    chars.subrange(char_index(chars, start), char_index(chars, end))
}

pub proof fn lemma_encode_concat(left: Seq<char>, right: Seq<char>)
    ensures
        encode_utf8(left + right) == encode_utf8(left) + encode_utf8(right),
        utf8_len(left + right) == utf8_len(left) + utf8_len(right),
    decreases left.len(),
{
    if left.len() == 0 {
        assert(left + right =~= right);
        assert(encode_utf8(left) + encode_utf8(right) =~= encode_utf8(right));
    } else {
        lemma_encode_concat(left.drop_first(), right);
        assert((left + right).drop_first() =~= left.drop_first() + right);
        assert((left + right)[0] == left[0]);
        assert(encode_utf8(left + right) =~= encode_utf8(left) + encode_utf8(right));
    }
}

pub proof fn lemma_utf8_len_positive(chars: Seq<char>)
    ensures
        chars.len() <= utf8_len(chars) <= 4 * chars.len(),
    decreases chars.len(),
{
    if chars.len() > 0 {
        lemma_utf8_len_positive(chars.drop_first());
    }
}

/// Offsets grow with the index.
pub proof fn lemma_offset_grows(chars: Seq<char>, low: int, high: int)
    requires
        0 <= low <= high <= chars.len(),
    ensures
        offset(chars, high) == offset(chars, low) + utf8_len(chars.subrange(low, high)),
        offset(chars, high) - offset(chars, low) >= high - low,
{
    assert(chars.take(high) =~= chars.take(low) + chars.subrange(low, high));
    lemma_encode_concat(chars.take(low), chars.subrange(low, high));
    lemma_utf8_len_positive(chars.subrange(low, high));
}

/// Each boundary belongs to one index.
pub proof fn lemma_char_index(chars: Seq<char>, index: int)
    requires
        0 <= index <= chars.len(),
    ensures
        is_boundary(chars, offset(chars, index) as int),
        char_index(chars, offset(chars, index) as int) == index,
{
    let found = char_index(chars, offset(chars, index) as int);
    if found < index {
        lemma_offset_grows(chars, found, index);
    } else if index < found {
        lemma_offset_grows(chars, index, found);
    }
}

pub proof fn lemma_boundary(chars: Seq<char>, at: int)
    requires
        is_boundary(chars, at),
    ensures
        0 <= char_index(chars, at) <= chars.len(),
        offset(chars, char_index(chars, at)) == at,
        0 <= at <= utf8_len(chars),
{
    lemma_offset_grows(chars, char_index(chars, at), chars.len() as int);
    assert(chars.take(chars.len() as int) =~= chars);
}

pub proof fn lemma_ends_are_boundaries(chars: Seq<char>)
    ensures
        is_boundary(chars, 0),
        char_index(chars, 0) == 0,
        is_boundary(chars, utf8_len(chars) as int),
        char_index(chars, utf8_len(chars) as int) == chars.len(),
{
    assert(chars.take(chars.len() as int) =~= chars);
    assert(chars.take(0) =~= Seq::<char>::empty());
    lemma_char_index(chars, 0);
    lemma_char_index(chars, chars.len() as int);
}

/// The order of two boundaries is the order of their indices.
pub proof fn lemma_boundary_order(chars: Seq<char>, low: int, high: int)
    requires
        is_boundary(chars, low),
        is_boundary(chars, high),
        low <= high,
    ensures
        0 <= char_index(chars, low) <= char_index(chars, high) <= chars.len(),
{
    lemma_boundary(chars, low);
    lemma_boundary(chars, high);
    let a = char_index(chars, low);
    let b = char_index(chars, high);
    if b < a {
        lemma_offset_grows(chars, b, a);
    }
}

pub proof fn lemma_floor_boundary(chars: Seq<char>, at: int)
    requires
        0 <= at,
    ensures
        is_boundary(chars, floor_boundary(chars, at)),
        0 <= floor_boundary(chars, at) <= at,
        is_boundary(chars, at) ==> floor_boundary(chars, at) == at,
        forall|other: int|
            floor_boundary(chars, at) < other <= at ==> !#[trigger] is_boundary(chars, other),
    decreases at,
{
    if at == 0 {
        lemma_ends_are_boundaries(chars);
    } else if !is_boundary(chars, at) {
        lemma_floor_boundary(chars, at - 1);
    }
}

/// This module's boundaries are those of the UTF-8 encoding.
pub proof fn lemma_is_char_boundary(chars: Seq<char>, at: int)
    ensures
        is_boundary(chars, at) <==> is_char_boundary(encode_utf8(chars), at),
    decreases chars.len(),
{
    encode_utf8_valid_utf8(chars);
    let bytes = encode_utf8(chars);
    lemma_ends_are_boundaries(chars);
    if at == 0 {
    } else if at < 0 || bytes.len() < at {
        if is_boundary(chars, at) {
            lemma_boundary(chars, at);
        }
    } else {
        assert(chars.len() > 0);
        let rest = chars.drop_first();
        let first = encode_scalar(chars[0] as u32).len() as int;
        encode_utf8_first_scalar(chars);
        assert(pop_first_scalar(bytes) =~= encode_utf8(rest));
        lemma_is_char_boundary(rest, at - first);
        assert(seq![chars[0]] + rest =~= chars);
        assert(seq![chars[0]].drop_first() =~= Seq::<char>::empty());
        assert(encode_utf8(seq![chars[0]]) =~= encode_scalar(chars[0] as u32)) by {
            reveal_with_fuel(encode_utf8, 2);
        }
        if is_boundary(chars, at) {
            let index = char_index(chars, at);
            lemma_boundary(chars, at);
            assert(index > 0) by {
                if index == 0 {
                    assert(chars.take(0) =~= Seq::<char>::empty());
                }
            }
            assert(chars.take(index) =~= seq![chars[0]] + rest.take(index - 1));
            lemma_encode_concat(seq![chars[0]], rest.take(index - 1));
            assert(offset(rest, index - 1) == at - first);
        }
        if is_boundary(rest, at - first) {
            let index = char_index(rest, at - first);
            lemma_boundary(rest, at - first);
            assert(chars.take(index + 1) =~= seq![chars[0]] + rest.take(index));
            lemma_encode_concat(seq![chars[0]], rest.take(index));
            assert(offset(chars, index + 1) == at);
        }
    }
}

pub proof fn lemma_same_encoding(left: Seq<char>, right: Seq<char>)
    requires
        encode_utf8(left) == encode_utf8(right),
    ensures
        left == right,
{
    encode_utf8_decode_utf8(left);
    encode_utf8_decode_utf8(right);
}

/// The length of `text` in bytes.
pub fn byte_len(text: &str) -> (len: usize)
    ensures
        len == utf8_len(text@),
{
    text.as_bytes().len()
}

/// Whether `at` is a character boundary of `text`.
pub fn at_boundary(text: &str, at: usize) -> (yes: bool)
    ensures
        yes == is_boundary(text@, at as int),
{
    proof {
        lemma_is_char_boundary(text@, at as int);
    }
    text.is_char_boundary(at)
}

/// Splits `text` at a character boundary.
pub fn split_text(text: &str, at: usize) -> (parts: (&str, &str))
    requires
        is_boundary(text@, at as int),
    ensures
        parts.0@ == text@.take(char_index(text@, at as int)),
        parts.1@ == text@.skip(char_index(text@, at as int)),
{
    proof {
        lemma_is_char_boundary(text@, at as int);
    }
    let parts = text.split_at(at);
    proof {
        let index = char_index(text@, at as int);
        lemma_boundary(text@, at as int);
        assert(text@.take(index) + text@.skip(index) =~= text@);
        lemma_encode_concat(text@.take(index), text@.skip(index));
        assert(encode_utf8(text@.take(index)) =~= text.spec_bytes().subrange(0, at as int));
        assert(encode_utf8(text@.skip(index)) =~= text.spec_bytes().subrange(
            at as int,
            text.spec_bytes().len() as int,
        ));
        lemma_same_encoding(parts.0@, text@.take(index));
        lemma_same_encoding(parts.1@, text@.skip(index));
    }
    parts
}

/// The part of `text` between two character boundaries.
pub fn slice_text(text: &str, start: usize, end: usize) -> (part: &str)
    requires
        is_boundary(text@, start as int),
        is_boundary(text@, end as int),
        start <= end,
    ensures
        part@ == slice_of(text@, start as int, end as int),
{
    proof {
        lemma_boundary_order(text@, start as int, end as int);
        lemma_boundary(text@, start as int);
        lemma_boundary(text@, end as int);
        let a = char_index(text@, start as int);
        let b = char_index(text@, end as int);
        assert(text@.take(b).take(a) =~= text@.take(a));
        assert(offset(text@.take(b), a) == start);
        lemma_char_index(text@.take(b), a);
        assert(text@.take(b).skip(a) =~= text@.subrange(a, b));
    }
    split_text(split_text(text, end).0, start).1
}

/// The characters of `text`.
pub fn chars_of(text: &str) -> (chars: Vec<char>)
    ensures
        chars@ == text@,
{
    let mut chars: Vec<char> = Vec::new();
    for c in iter: text.chars()
        invariant
            iter.seq() == text@,
            chars@ == text@.take(iter.index() as int),
    {
        chars.push(c);
        proof {
            assert(chars@ =~= text@.take(iter.index() + 1));
        }
    }
    proof {
        assert(text@.take(text@.len() as int) =~= text@);
    }
    chars
}

/// Appends one character.
pub assume_specification[ String::push ](text: &mut String, c: char)
    ensures
        final(text)@ == old(text)@.push(c),
;

/// The string that holds `chars`.
pub fn string_of(chars: &[char]) -> (text: String)
    ensures
        text@ == chars@,
{
    let mut text: String = String::new();
    let mut i: usize = 0;
    while i < chars.len()
        invariant
            i <= chars.len(),
            text@ == chars@.take(i as int),
        decreases chars.len() - i,
    {
        text.push(chars[i]);
        i += 1;
        proof {
            assert(text@ =~= chars@.take(i as int));
        }
    }
    proof {
        assert(chars@.take(chars@.len() as int) =~= chars@);
    }
    text
}

} // verus!
