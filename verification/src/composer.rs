//! Cursor movement in a text by characters, grapheme clusters and words.

use vstd::prelude::*;
use vstd::string::*;
use crate::text::{
    at_boundary, byte_len, char_index, chars_of, floor_boundary, is_boundary, lemma_boundary,
    lemma_char_index, lemma_encode_concat, lemma_ends_are_boundaries, lemma_floor_boundary, offset,
    split_text, string_of, utf8_len,
};
use crate::unicode::{
    end_of_content, grapheme_clusters, graphemes, is_whitespace, joined, lemma_trimmed_end,
    lemma_trimmed_start, start_of_content, trimmed_end, trimmed_start, views, whitespace,
};

verus! {

/// Where a cursor at the given byte lands: inside the text, on a boundary.
pub open spec fn normalized_cursor(chars: Seq<char>, cursor: int) -> int {
    floor_boundary(chars, if cursor <= utf8_len(chars) { cursor } else { utf8_len(chars) as int })
}

/// The index of the cluster that ends at `at`.
pub open spec fn previous_grapheme_index(chars: Seq<char>, at: int) -> int {
    if at <= 0 {
        0
    } else {
        at - grapheme_clusters(chars.take(at)).last().len()
    }
}

/// The index of the end of the cluster that starts at `at`.
pub open spec fn next_grapheme_index(chars: Seq<char>, at: int) -> int {
    if at >= chars.len() {
        chars.len() as int
    } else {
        at + grapheme_clusters(chars.skip(at))[0].len()
    }
}

/// The start of the word that `chars` ends with.
pub open spec fn last_word_start(chars: Seq<char>) -> int
    decreases chars.len(),
{
    if chars.len() > 0 && !whitespace(chars.last()) {
        last_word_start(chars.drop_last())
    } else {
        chars.len() as int
    }
}

/// The length of the word that `chars` starts with.
pub open spec fn first_word_len(chars: Seq<char>) -> int
    decreases chars.len(),
{
    if chars.len() > 0 && !whitespace(chars[0]) {
        1 + first_word_len(chars.drop_first())
    } else {
        0
    }
}

/// Back over white space, then over a word.
pub open spec fn previous_word_index(chars: Seq<char>, at: int) -> int {
    let head = chars.take(at);
    last_word_start(head.take(trimmed_end(head)))
}

/// Forward over white space, then over a word.
pub open spec fn next_word_index(chars: Seq<char>, at: int) -> int {
    let tail = chars.skip(at);
    at + trimmed_start(tail) + first_word_len(tail.skip(trimmed_start(tail)))
}

pub proof fn lemma_last_word_start(chars: Seq<char>)
    ensures
        0 <= last_word_start(chars) <= chars.len(),
    decreases chars.len(),
{
    if chars.len() > 0 && !whitespace(chars.last()) {
        lemma_last_word_start(chars.drop_last());
    }
}

pub proof fn lemma_first_word_len(chars: Seq<char>)
    ensures
        0 <= first_word_len(chars) <= chars.len(),
    decreases chars.len(),
{
    if chars.len() > 0 && !whitespace(chars[0]) {
        lemma_first_word_len(chars.drop_first());
    }
}

pub proof fn lemma_word_indices(chars: Seq<char>, at: int)
    requires
        0 <= at <= chars.len(),
    ensures
        0 <= previous_word_index(chars, at) <= at,
        at <= next_word_index(chars, at) <= chars.len(),
{
    let head = chars.take(at);
    lemma_trimmed_end(head);
    lemma_last_word_start(head.take(trimmed_end(head)));
    let tail = chars.skip(at);
    lemma_trimmed_start(tail);
    lemma_first_word_len(tail.skip(trimmed_start(tail)));
}

/// Moves a cursor into the text and back to a character boundary.
pub fn normalize_cursor(text: &str, cursor: usize) -> (at: usize)
    ensures
        at == normalized_cursor(text@, cursor as int),
        is_boundary(text@, at as int),
{
    let len: usize = byte_len(text);
    let mut at: usize = if cursor <= len {
        cursor
    } else {
        len
    };
    let ghost start = at;
    proof {
        lemma_floor_boundary(text@, at as int);
        lemma_ends_are_boundaries(text@);
    }
    while !at_boundary(text, at)
        invariant
            is_boundary(text@, 0),
            floor_boundary(text@, at as int) == floor_boundary(text@, start as int),
        decreases at,
    {
        at -= 1;
    }
    at
}

/// The byte offset of the character with the given index.
pub fn byte_offset(chars: &[char], index: usize) -> (at: usize)
    requires
        index <= chars@.len(),
        utf8_len(chars@) <= usize::MAX,
    ensures
        at == offset(chars@, index as int),
        is_boundary(chars@, at as int),
        char_index(chars@, at as int) == index,
{
    let mut head: Vec<char> = Vec::new();
    let mut i: usize = 0;
    while i < index
        invariant
            i <= index <= chars@.len(),
            head@ == chars@.take(i as int),
        decreases index - i,
    {
        head.push(chars[i]);
        i += 1;
        proof {
            assert(head@ =~= chars@.take(i as int));
        }
    }
    proof {
        lemma_char_index(chars@, index as int);
    }
    byte_len(string_of(head.as_slice()).as_str())
}

/// The start of the grapheme cluster before the cursor.
pub fn previous_grapheme(text: &str, cursor: usize) -> (at: usize)
    requires
        is_boundary(text@, cursor as int),
    ensures
        at <= cursor,
        cursor > 0 ==> at < cursor,
        is_boundary(text@, at as int),
        char_index(text@, at as int) == previous_grapheme_index(
            text@,
            char_index(text@, cursor as int),
        ),
{
    let head = split_text(text, cursor).0;
    let mut parts = graphemes(head);
    proof {
        lemma_boundary(text@, cursor as int);
        lemma_ends_are_boundaries(text@);
    }
    let ghost index = char_index(text@, cursor as int);
    let ghost clusters = views(parts@);
    match parts.pop() {
        None => {
            proof {
                assert(clusters =~= Seq::empty());
                assert(head@ =~= Seq::empty());
                assert(index == 0);
            }
            cursor
        },
        Some(part) => {
            proof {
                assert(clusters.last() == part@);
                assert(head@ == joined(clusters.drop_last()) + part@);
                lemma_encode_concat(joined(clusters.drop_last()), part@);
                let start = index - part@.len();
                assert(text@.take(start) =~= joined(clusters.drop_last()));
                lemma_char_index(text@, start);
                crate::text::lemma_utf8_len_positive(part@);
                assert(index > 0);
            }
            cursor - byte_len(part.as_str())
        },
    }
}

/// The end of the grapheme cluster after the cursor.
pub fn next_grapheme(text: &str, cursor: usize) -> (at: usize)
    requires
        is_boundary(text@, cursor as int),
    ensures
        cursor <= at <= utf8_len(text@),
        cursor < utf8_len(text@) ==> cursor < at,
        is_boundary(text@, at as int),
        char_index(text@, at as int) == next_grapheme_index(
            text@,
            char_index(text@, cursor as int),
        ),
{
    let tail = split_text(text, cursor).1;
    let parts = graphemes(tail);
    let len: usize = byte_len(text);
    let ghost index = char_index(text@, cursor as int);
    proof {
        lemma_boundary(text@, cursor as int);
        lemma_ends_are_boundaries(text@);
        crate::text::lemma_offset_grows(text@, index, text@.len() as int);
        assert(text@.take(text@.len() as int) =~= text@);
        assert(text@.subrange(index, text@.len() as int) =~= tail@);
        if cursor < len {
            if index == text@.len() {
                assert(false);
            }
        }
    }
    if parts.len() == 0 {
        proof {
            assert(views(parts@) =~= Seq::empty());
            assert(tail@ =~= Seq::empty());
            assert(index == text@.len());
        }
        cursor
    } else {
        let part = parts[0].as_str();
        proof {
            let clusters = views(parts@);
            assert(clusters[0] == part@);
            assert(seq![clusters[0]] + clusters.skip(1) =~= clusters);
            crate::unicode::lemma_joined_concat(seq![clusters[0]], clusters.skip(1));
            assert(seq![clusters[0]].drop_last() =~= Seq::empty());
            assert(joined(seq![clusters[0]]) =~= clusters[0]) by {
                reveal_with_fuel(joined, 2);
            }
            assert(tail@ == part@ + joined(clusters.skip(1)));
            let end = index + part@.len();
            assert(end <= text@.len());
            assert(tail@.take(part@.len() as int) =~= part@);
            crate::text::lemma_offset_grows(text@, index, end);
            assert(text@.subrange(index, end) =~= part@);
            lemma_char_index(text@, end);
            lemma_boundary(text@, offset(text@, end) as int);
        }
        cursor + byte_len(part)
    }
}

/// The start of the word before the cursor.
pub fn previous_word_boundary(text: &str, cursor: usize) -> (at: usize)
    requires
        is_boundary(text@, cursor as int),
    ensures
        at <= cursor,
        is_boundary(text@, at as int),
        char_index(text@, at as int) == previous_word_index(text@, char_index(text@, cursor as int)),
{
    let head = split_text(text, cursor).0;
    let chars: Vec<char> = chars_of(head);
    let ghost index = char_index(text@, cursor as int);
    proof {
        lemma_boundary(text@, cursor as int);
        lemma_word_indices(text@, index);
    }
    let end: usize = end_of_content(chars.as_slice());
    let mut start: usize = end;
    proof {
        assert(chars@.take(end as int).take(end as int) =~= chars@.take(end as int));
    }
    while start > 0 && !is_whitespace(chars[start - 1])
        invariant
            start <= end <= chars@.len(),
            last_word_start(chars@.take(end as int)) == last_word_start(
                chars@.take(start as int),
            ),
        decreases start,
    {
        proof {
            assert(chars@.take(start as int).drop_last() =~= chars@.take(start - 1));
        }
        start -= 1;
    }
    let all: Vec<char> = chars_of(text);
    let len: usize = byte_len(text);
    proof {
        crate::text::lemma_offset_grows(text@, start as int, index);
    }
    byte_offset(all.as_slice(), start)
}

/// The end of the word after the cursor.
pub fn next_word_boundary(text: &str, cursor: usize) -> (at: usize)
    requires
        is_boundary(text@, cursor as int),
    ensures
        cursor <= at <= utf8_len(text@),
        is_boundary(text@, at as int),
        char_index(text@, at as int) == next_word_index(text@, char_index(text@, cursor as int)),
{
    let parts = split_text(text, cursor);
    let chars: Vec<char> = chars_of(parts.1);
    let ghost index = char_index(text@, cursor as int);
    proof {
        lemma_boundary(text@, cursor as int);
        lemma_word_indices(text@, index);
        lemma_trimmed_start(chars@);
    }
    let start: usize = start_of_content(chars.as_slice());
    let mut end: usize = start;
    let ghost rest = chars@.skip(start as int);
    proof {
        assert(rest.skip(0) =~= rest);
    }
    while end < chars.len() && !is_whitespace(chars[end])
        invariant
            start <= end <= chars@.len(),
            rest == chars@.skip(start as int),
            first_word_len(rest) == end - start + first_word_len(rest.skip(end - start)),
        decreases chars@.len() - end,
    {
        proof {
            assert(rest.skip(end - start).drop_first() =~= rest.skip(end - start + 1));
        }
        end += 1;
    }
    let all: Vec<char> = chars_of(text);
    let len: usize = byte_len(text);
    let before: usize = chars_of(parts.0).len();
    let total: usize = all.len();
    proof {
        crate::text::lemma_offset_grows(text@, index, index + end);
        lemma_boundary(text@, offset(text@, index + end) as int);
    }
    byte_offset(all.as_slice(), before + end)
}

} // verus!
