//! Grapheme clusters and display widths.

use vstd::prelude::*;
use vstd::string::*;
use crate::text::{
    char_index, chars_of, is_boundary, lemma_boundary, lemma_char_index, string_of, utf8_len,
};

verus! {

/// The extended grapheme clusters of a text, in order.
pub uninterp spec fn grapheme_clusters(text: Seq<char>) -> Seq<Seq<char>>;

/// The number of terminal columns that a text takes.
pub uninterp spec fn display_width(text: Seq<char>) -> usize;

/// A text in lower case.
pub uninterp spec fn lower_case(text: Seq<char>) -> Seq<char>;

/// The contents of some strings.
pub open spec fn views(parts: Seq<String>) -> Seq<Seq<char>> {
    parts.map_values(|part: String| part@)
}

/// Some texts one after the other.
pub open spec fn joined(parts: Seq<Seq<char>>) -> Seq<char>
    decreases parts.len(),
{
    if parts.len() == 0 {
        Seq::empty()
    } else {
        joined(parts.drop_last()) + parts.last()
    }
}

/// `unicode_segmentation::UnicodeSegmentation::graphemes` on extended clusters.
/// Claimed: the clusters depend on the text alone, none is empty, and one after
/// the other they are the text.
#[verifier::external_body]
pub(crate) fn graphemes(text: &str) -> (parts: Vec<String>)
    ensures
        views(parts@) == grapheme_clusters(text@),
        joined(views(parts@)) == text@,
        forall|i: int| 0 <= i < parts@.len() ==> (#[trigger] parts@[i])@.len() > 0,
{
    unicode_segmentation::UnicodeSegmentation::graphemes(text, true).map(|part| part.to_owned()).collect()
}

/// Whether a text is made of printable ASCII characters.
pub open spec fn is_plain(text: Seq<char>) -> bool {
    forall|i: int| 0 <= i < text.len() ==> 0x20 <= (#[trigger] text[i]) as u32 <= 0x7e
}

/// `unicode_width::UnicodeWidthStr::width`. Claimed: the width depends on the
/// text alone, and each printable ASCII character of a text of such characters
/// takes one column.
#[verifier::external_body]
pub(crate) fn text_width(text: &str) -> (width: usize)
    ensures
        width == display_width(text@),
        is_plain(text@) ==> width == text@.len(),
{
    unicode_width::UnicodeWidthStr::width(text)
}

/// `str::to_lowercase`. Claimed: the result depends on the text alone.
#[verifier::external_body]
pub(crate) fn to_lower_case(text: &str) -> (lower: String)
    ensures
        lower@ == lower_case(text@),
{
    text.to_lowercase()
}

/// The characters with the Unicode property `White_Space`.
pub open spec fn whitespace(c: char) -> bool {
    let u = c as u32;
    ||| 0x9 <= u <= 0xd
    ||| u == 0x20
    ||| u == 0x85
    ||| u == 0xa0
    ||| u == 0x1680
    ||| 0x2000 <= u <= 0x200a
    ||| u == 0x2028
    ||| u == 0x2029
    ||| u == 0x202f
    ||| u == 0x205f
    ||| u == 0x3000
}

/// Whether `c` is white space.
pub fn is_whitespace(c: char) -> (yes: bool)
    ensures
        yes == whitespace(c),
{
    let u: u32 = c as u32;
    (0x9 <= u && u <= 0xd) || u == 0x20 || u == 0x85 || u == 0xa0 || u == 0x1680 || (0x2000 <= u
        && u <= 0x200a) || u == 0x2028 || u == 0x2029 || u == 0x202f || u == 0x205f || u == 0x3000
}

pub proof fn lemma_joined_push(parts: Seq<Seq<char>>, part: Seq<char>)
    ensures
        joined(parts.push(part)) == joined(parts) + part,
{
    assert(parts.push(part).drop_last() =~= parts);
}

pub proof fn lemma_joined_concat(left: Seq<Seq<char>>, right: Seq<Seq<char>>)
    ensures
        joined(left + right) == joined(left) + joined(right),
    decreases right.len(),
{
    if right.len() == 0 {
        assert(left + right =~= left);
        assert(joined(left) + joined(right) =~= joined(left));
    } else {
        lemma_joined_concat(left, right.drop_last());
        assert((left + right).drop_last() =~= left + right.drop_last());
        assert((left + right).last() == right.last());
        assert(joined(left + right) =~= joined(left) + joined(right));
    }
}

/// The bytes of some texts one after the other, up to `count` of them, end at a
/// boundary of the whole.
pub proof fn lemma_joined_offset(parts: Seq<Seq<char>>, count: int)
    requires
        0 <= count <= parts.len(),
    ensures
        joined(parts) == joined(parts.take(count)) + joined(parts.skip(count)),
        is_boundary(joined(parts), utf8_len(joined(parts.take(count))) as int),
        char_index(joined(parts), utf8_len(joined(parts.take(count))) as int) == joined(
            parts.take(count),
        ).len(),
        utf8_len(joined(parts.take(count))) <= utf8_len(joined(parts)),
{
    assert(parts.take(count) + parts.skip(count) =~= parts);
    lemma_joined_concat(parts.take(count), parts.skip(count));
    let head = joined(parts.take(count));
    assert(joined(parts).take(head.len() as int) =~= head);
    lemma_char_index(joined(parts), head.len() as int);
    lemma_boundary(joined(parts), utf8_len(head) as int);
}

/// The white space at the end of `chars` starts here.
pub open spec fn trimmed_end(chars: Seq<char>) -> int
    decreases chars.len(),
{
    if chars.len() > 0 && whitespace(chars.last()) {
        trimmed_end(chars.drop_last())
    } else {
        chars.len() as int
    }
}

/// The white space at the start of `chars` ends here.
pub open spec fn trimmed_start(chars: Seq<char>) -> int
    decreases chars.len(),
{
    if chars.len() > 0 && whitespace(chars[0]) {
        1 + trimmed_start(chars.drop_first())
    } else {
        0
    }
}

/// `chars` without white space at either end.
pub open spec fn trimmed(chars: Seq<char>) -> Seq<char> {
    let head = chars.take(trimmed_end(chars));
    head.skip(trimmed_start(head))
}

pub proof fn lemma_trimmed_end(chars: Seq<char>)
    ensures
        0 <= trimmed_end(chars) <= chars.len(),
    decreases chars.len(),
{
    if chars.len() > 0 && whitespace(chars.last()) {
        lemma_trimmed_end(chars.drop_last());
    }
}

pub proof fn lemma_trimmed_start(chars: Seq<char>)
    ensures
        0 <= trimmed_start(chars) <= chars.len(),
    decreases chars.len(),
{
    if chars.len() > 0 && whitespace(chars[0]) {
        lemma_trimmed_start(chars.drop_first());
    }
}

/// The first character of `chars` that is not white space, as an index.
pub fn start_of_content(chars: &[char]) -> (start: usize)
    ensures
        start == trimmed_start(chars@),
{
    let mut i: usize = 0;
    proof {
        assert(chars@.skip(0) =~= chars@);
    }
    while i < chars.len() && is_whitespace(chars[i])
        invariant
            i <= chars.len(),
            trimmed_start(chars@) == i + trimmed_start(chars@.skip(i as int)),
        decreases chars.len() - i,
    {
        proof {
            assert(chars@.skip(i as int).drop_first() =~= chars@.skip(i + 1));
        }
        i += 1;
    }
    i
}

/// The end of the content of `chars`: what follows is white space.
pub fn end_of_content(chars: &[char]) -> (end: usize)
    ensures
        end == trimmed_end(chars@),
        end <= chars@.len(),
{
    let mut i: usize = chars.len();
    proof {
        assert(chars@.take(chars@.len() as int) =~= chars@);
    }
    while i > 0 && is_whitespace(chars[i - 1])
        invariant
            i <= chars.len(),
            trimmed_end(chars@) == trimmed_end(chars@.take(i as int)),
        decreases i,
    {
        proof {
            assert(chars@.take(i as int).drop_last() =~= chars@.take(i - 1));
        }
        i -= 1;
    }
    i
}

/// `str::trim`.
pub fn trim(text: &str) -> (part: String)
    ensures
        part@ == trimmed(text@),
{
    let mut chars: Vec<char> = chars_of(text);
    let end: usize = end_of_content(chars.as_slice());
    chars.truncate(end);
    let start: usize = start_of_content(chars.as_slice());
    proof {
        lemma_trimmed_start(chars@);
    }
    let rest = chars.split_off(start);
    string_of(rest.as_slice())
}

} // verus!
