//! Inputs whose text is not shown, and links in text.

use vstd::prelude::*;
use vstd::string::*;
use crate::list::min;
use crate::menu::{input_line, less, text_part};
use crate::render::{concat, repeated, safe, terminal_safe};
use crate::search::{contains, find, first_at, stands_at};
use crate::single_line_input::{InputView, SingleLineInput};
use crate::style::{blank_line, line, span, Line, LineView, Role, Style};
use crate::text::{byte_len, chars_of, is_boundary, lemma_encode_concat, offset, utf8_len};
use crate::unicode::{
    display_width, grapheme_clusters, graphemes, is_whitespace, joined, lemma_joined_offset,
    lemma_joined_push, text_width, views, whitespace,
};

verus! {

/// The byte offsets at which the clusters of a text start, and its end.
pub open spec fn cluster_bounds(text: Seq<char>) -> Seq<usize> {
    let parts = grapheme_clusters(text);
    Seq::new(parts.len() + 1, |i: int| utf8_len(joined(parts.take(i))) as usize)
}

/// The last of some offsets that is at or before `at`, as an index.
pub open spec fn last_bound(bounds: Seq<usize>, at: int) -> int
    decreases bounds.len(),
{
    if bounds.len() == 0 {
        0
    } else if bounds.last() <= at {
        bounds.len() - 1
    } else {
        last_bound(bounds.drop_last(), at)
    }
}

/// What is shown for a text that is masked: one dot for each cluster.
pub open spec fn dots(count: int) -> Seq<char> {
    Seq::new(count as nat, |i: int| '\u{2022}')
}

/// What is shown for a masked text, the cursor in it, and the offsets in the
/// text at which the dots stand.
pub fn masked_input_parts(value: &str, cursor: usize) -> (parts: (String, usize, Vec<usize>))
    requires
        3 * value@.len() <= usize::MAX,
    ensures
        parts.0@ == dots(grapheme_clusters(value@).len() as int),
        parts.2@ == cluster_bounds(value@),
        parts.1 == 3 * last_bound(
            cluster_bounds(value@),
            min(cursor as int, utf8_len(value@) as int),
        ),
{
    let clusters = graphemes(value);
    let len: usize = byte_len(value);
    let ghost all = views(clusters@);
    let mut bounds: Vec<usize> = Vec::new();
    let mut at: usize = 0;
    bounds.push(0);
    let mut i: usize = 0;
    proof {
        assert(all.take(0) =~= Seq::empty());
        assert(bounds@ =~= cluster_bounds(value@).take(1));
    }
    while i < clusters.len()
        invariant
            i <= clusters@.len(),
            all == views(clusters@),
            all == grapheme_clusters(value@),
            joined(all) == value@,
            utf8_len(value@) <= usize::MAX,
            at == utf8_len(joined(all.take(i as int))),
            bounds@ == cluster_bounds(value@).take(i + 1),
        decreases clusters@.len() - i,
    {
        let part = clusters[i].as_str();
        proof {
            assert(all[i as int] == part@);
            assert(all.take(i + 1) =~= all.take(i as int).push(part@));
            lemma_joined_push(all.take(i as int), part@);
            lemma_encode_concat(joined(all.take(i as int)), part@);
            lemma_joined_offset(all, i + 1);
        }
        at = at + byte_len(part);
        bounds.push(at);
        i += 1;
        proof {
            assert(bounds@ =~= cluster_bounds(value@).take(i + 1));
        }
    }
    proof {
        assert(cluster_bounds(value@).take(i + 1) =~= cluster_bounds(value@));
        lemma_clusters_at_most_chars(all);
    }
    let limit: usize = if cursor <= len {
        cursor
    } else {
        len
    };
    let mut n: usize = bounds.len();
    proof {
        assert(bounds@.take(n as int) =~= bounds@);
    }
    while n > 1 && bounds[n - 1] > limit
        invariant
            1 <= n <= bounds@.len(),
            last_bound(bounds@, limit as int) == last_bound(bounds@.take(n as int), limit as int),
        decreases n,
    {
        proof {
            assert(bounds@.take(n as int).last() == bounds@[n - 1]);
            assert(bounds@.take(n as int).drop_last() =~= bounds@.take(n - 1));
        }
        n -= 1;
    }
    proof {
        assert(bounds@.take(n as int).last() == bounds@[n - 1]);
        assert(cluster_bounds(value@)[0] == 0);
        if n == 1 {
            assert(bounds@[0] == 0);
        }
    }
    (repeated('\u{2022}', clusters.len()), 3 * (n - 1), bounds)
}

proof fn lemma_clusters_at_most_chars(parts: Seq<Seq<char>>)
    requires
        forall|i: int| 0 <= i < parts.len() ==> (#[trigger] parts[i]).len() > 0,
    ensures
        parts.len() <= joined(parts).len(),
    decreases parts.len(),
{
    if parts.len() > 0 {
        lemma_clusters_at_most_chars(parts.drop_last());
    }
}

/// Each dot of a masked text stands for one cluster: there is one bound more
/// than there are dots, the first is the start and the last is the end.
pub proof fn law_dots_stand_for_clusters(text: Seq<char>)
    requires
        joined(grapheme_clusters(text)) == text,
        utf8_len(text) <= usize::MAX,
    ensures
        cluster_bounds(text).len() == dots(grapheme_clusters(text).len() as int).len() + 1,
        cluster_bounds(text)[0] == 0,
        cluster_bounds(text).last() == utf8_len(text),
        forall|i: int|
            0 <= i < cluster_bounds(text).len() ==> is_boundary(
                text,
                #[trigger] cluster_bounds(text)[i] as int,
            ),
{
    let parts = grapheme_clusters(text);
    assert(parts.take(0) =~= Seq::empty());
    assert(parts.take(parts.len() as int) =~= parts);
    assert forall|i: int| 0 <= i < cluster_bounds(text).len() implies is_boundary(
        text,
        #[trigger] cluster_bounds(text)[i] as int,
    ) by {
        lemma_joined_offset(parts, i);
    }
}

/// A row that holds a masked input.
pub open spec fn masked_line(prefix: Seq<char>, value: Seq<char>, cursor: int, width: int)
    -> LineView {
    let shown = dots(grapheme_clusters(value).len() as int);
    let at = 3 * last_bound(cluster_bounds(value), min(cursor, utf8_len(value) as int));
    input_line(
        prefix,
        InputView::of(shown, at),
        Seq::empty(),
        less(width, display_width(prefix) as int),
        Style::of(Role::Accent),
    )
}

/// A row that holds a masked input.
pub fn masked_input_line(prefix: &str, value: &str, cursor: usize, width: u16) -> (row: Line)
    requires
        3 * value@.len() <= usize::MAX,
    ensures
        row@ == masked_line(prefix@, value@, cursor as int, width as int),
{
    let available: usize = (width as usize).saturating_sub(text_width(prefix));
    let parts = masked_input_parts(value, cursor);
    let input = SingleLineInput::new(parts.0, parts.1);
    let tokens: Vec<crate::input_syntax::CodeToken> = Vec::new();
    proof {
        assert(tokens@ =~= Seq::empty());
    }
    crate::menu::render_input_line(
        prefix,
        &input,
        tokens.as_slice(),
        available,
        Style::of(Role::Accent),
    )
}

/// Where a link starts in a text, if there is one.
pub open spec fn link_start(text: Seq<char>) -> Option<int> {
    let secure = choose|at: int| first_at(text, "https://"@, at);
    let open = choose|at: int| first_at(text, "http://"@, at);
    if contains(text, "https://"@) && contains(text, "http://"@) {
        Some(min(secure, open))
    } else if contains(text, "https://"@) {
        Some(secure)
    } else if contains(text, "http://"@) {
        Some(open)
    } else {
        None
    }
}

/// The characters of `text` before the first white space.
pub open spec fn first_word(text: Seq<char>) -> int
    decreases text.len(),
{
    if text.len() == 0 || whitespace(text[0]) { 0 } else { 1 + first_word(text.drop_first()) }
}

/// Whether `c` ends a sentence rather than a link.
pub open spec fn is_trailing(c: char) -> bool {
    c == '.' || c == ',' || c == ';' || c == ':' || c == ')' || c == ']' || c == '}'
}

/// The length of `text` without what ends the sentence.
pub open spec fn without_trailing(text: Seq<char>) -> int
    decreases text.len(),
{
    if text.len() > 0 && is_trailing(text.last()) {
        without_trailing(text.drop_last())
    } else {
        text.len() as int
    }
}

/// A link in a text, as a range of characters.
pub open spec fn link_in(text: Seq<char>) -> Option<(int, int)> {
    match link_start(text) {
        None => None,
        Some(start) => {
            let tail = text.skip(start);
            let word = tail.take(first_word(tail));
            Some((start, start + without_trailing(word)))
        },
    }
}

proof fn lemma_first_at_unique(text: Seq<char>, part: Seq<char>, a: int, b: int)
    requires
        first_at(text, part, a),
        first_at(text, part, b),
    ensures
        a == b,
{
    if a < b {
        assert(!stands_at(text, part, a));
    } else if b < a {
        assert(!stands_at(text, part, b));
    }
}

fn find_link_range(text: &str) -> (link: Option<(usize, usize)>)
    ensures
        match (link, link_in(text@)) {
            (None, None) => true,
            (Some(found), Some(range)) => found.0 == range.0 && found.1 == range.1,
            _ => false,
        },
        link matches Some(range) ==> range.0 <= range.1 <= text@.len(),
{
    let secure = find(text, "https://");
    let open = find(text, "http://");
    let ghost s = choose|at: int| first_at(text@, "https://"@, at);
    let ghost o = choose|at: int| first_at(text@, "http://"@, at);
    proof {
        if let Some(at) = secure {
            assert(stands_at(text@, "https://"@, at as int));
            lemma_first_at_unique(text@, "https://"@, at as int, s);
        }
        if let Some(at) = open {
            assert(stands_at(text@, "http://"@, at as int));
            lemma_first_at_unique(text@, "http://"@, at as int, o);
        }
    }
    let start: usize = match (secure, open) {
        (Some(a), Some(b)) => if a <= b {
            a
        } else {
            b
        },
        (Some(a), None) => a,
        (None, Some(b)) => b,
        (None, None) => {
            return None;
        },
    };
    let chars: Vec<char> = chars_of(text);
    let ghost tail = text@.skip(start as int);
    let mut end: usize = start;
    proof {
        assert(tail.skip(0) =~= tail);
    }
    while end < chars.len() && !is_whitespace(chars[end])
        invariant
            start <= end <= chars@.len(),
            chars@ == text@,
            tail == text@.skip(start as int),
            first_word(tail) == end - start + first_word(tail.skip(end - start)),
        decreases chars@.len() - end,
    {
        proof {
            let rest = tail.skip(end - start);
            assert(rest[0] == chars@[end as int]);
            assert(rest.drop_first() =~= tail.skip(end - start + 1));
        }
        end += 1;
    }
    proof {
        let rest = tail.skip(end - start);
        if end < chars@.len() {
            assert(rest[0] == chars@[end as int]);
        }
    }
    let ghost word = tail.take(end - start);
    let mut last: usize = end;
    proof {
        assert(word.take(end - start) =~= word);
    }
    while last > start && (chars[last - 1] == '.' || chars[last - 1] == ',' || chars[last - 1]
        == ';' || chars[last - 1] == ':' || chars[last - 1] == ')' || chars[last - 1] == ']'
        || chars[last - 1] == '}')
        invariant
            start <= last <= end <= chars@.len(),
            chars@ == text@,
            tail == text@.skip(start as int),
            word == tail.take(end - start),
            without_trailing(word) == without_trailing(word.take(last - start)),
        decreases last,
    {
        proof {
            let now = word.take(last - start);
            assert(now.last() == chars@[last - 1]);
            assert(now.drop_last() =~= word.take(last - 1 - start));
        }
        last -= 1;
    }
    proof {
        let now = word.take(last - start);
        if last > start {
            assert(now.last() == chars@[last - 1]);
        }
    }
    Some((start, last))
}

/// A link in a text: where it starts, in bytes, and the link.
pub fn external_url_in_text(text: &str) -> (link: Option<(usize, String)>)
    ensures
        match (link, link_in(text@)) {
            (None, None) => true,
            (Some(found), Some(range)) => found.0 == offset(text@, range.0) && found.1@
                == text@.subrange(range.0, range.1),
            _ => false,
        },
{
    match find_link_range(text) {
        None => None,
        Some(range) => {
            let chars: Vec<char> = chars_of(text);
            let len: usize = byte_len(text);
            let start: usize = crate::composer::byte_offset(chars.as_slice(), range.0);
            Some((start, text_part(chars.as_slice(), range.0, range.1)))
        },
    }
}

/// The description of a package: a link in it stands out.
pub open spec fn description_line(description: Option<Seq<char>>) -> LineView {
    match description {
        None => blank_line(),
        Some(description) => {
            let shown = safe(description);
            match link_in(shown) {
                None => LineView {
                    spans: seq![span("  "@ + shown, Style::plain())],
                    base: Style::of(Role::Dim),
                },
                Some((start, end)) => line(
                    seq![
                        span("  "@ + shown.take(start), Style::of(Role::Dim)),
                        span(shown.subrange(start, end), Style::of(Role::Accent).underlined()),
                        span(shown.skip(end), Style::of(Role::Dim)),
                    ],
                ),
            }
        },
    }
}

pub fn package_description_line(description: &Option<String>) -> (row: Line)
    ensures
        row@ == description_line(
            match *description {
                None => None,
                Some(text) => Some(text@),
            },
        ),
{
    match description {
        None => Line::new(),
        Some(description) => {
            let shown: String = terminal_safe(description.as_str());
            match find_link_range(shown.as_str()) {
                None => {
                    let mut row = Line::styled(concat("  ", shown.as_str()), Style::plain());
                    row.base = Style::of(Role::Dim);
                    row
                },
                Some(range) => {
                    let chars: Vec<char> = chars_of(shown.as_str());
                    let before: String = text_part(chars.as_slice(), 0, range.0);
                    let link: String = text_part(chars.as_slice(), range.0, range.1);
                    let behind: String = text_part(chars.as_slice(), range.1, chars.len());
                    proof {
                        assert(before@ =~= shown@.take(range.0 as int));
                        assert(behind@ =~= shown@.skip(range.1 as int));
                    }
                    let mut row = Line::new();
                    row.push(concat("  ", before.as_str()), Style::of(Role::Dim));
                    row.push(link, Style::of(Role::Accent).underlined());
                    row.push(behind, Style::of(Role::Dim));
                    proof {
                        assert(row@.spans =~= seq![
                            span("  "@ + shown@.take(range.0 as int), Style::of(Role::Dim)),
                            span(
                                shown@.subrange(range.0 as int, range.1 as int),
                                Style::of(Role::Accent).underlined(),
                            ),
                            span(shown@.skip(range.1 as int), Style::of(Role::Dim)),
                        ]);
                    }
                    row
                },
            }
        },
    }
}

proof fn lemma_first_word(text: Seq<char>, count: int)
    requires
        0 <= count <= text.len(),
        forall|i: int| 0 <= i < count ==> !whitespace(#[trigger] text[i]),
    ensures
        count <= first_word(text) <= text.len(),
    decreases text.len(),
{
    if text.len() > 0 && !whitespace(text[0]) {
        let rest = text.drop_first();
        let left = if count > 0 { count - 1 } else { 0 };
        assert forall|i: int| 0 <= i < left implies !whitespace(#[trigger] rest[i]) by {
            assert(rest[i] == text[i + 1]);
        }
        lemma_first_word(rest, left);
    }
}

proof fn lemma_without_trailing(text: Seq<char>, count: int)
    requires
        0 < count <= text.len(),
        !is_trailing(text[count - 1]),
    ensures
        count <= without_trailing(text) <= text.len(),
    decreases text.len(),
{
    if is_trailing(text.last()) {
        lemma_without_trailing(text.drop_last(), count);
    }
}

/// What stands somewhere in a text stands somewhere first.
proof fn lemma_some_first(text: Seq<char>, part: Seq<char>, at: int)
    requires
        stands_at(text, part, at),
    ensures
        exists|first: int| first_at(text, part, first),
    decreases at,
{
    if exists|before: int| before < at && stands_at(text, part, before) {
        let before = choose|before: int| before < at && stands_at(text, part, before);
        lemma_some_first(text, part, before);
    } else {
        assert(first_at(text, part, at));
    }
}

/// A link starts with its scheme, and what ends the sentence around it never takes any of
/// that away.
pub proof fn law_links_keep_their_scheme(text: Seq<char>)
    ensures
        link_in(text) matches Some(range) ==> range.1 <= text.len() && ((range.0 + 8 <= range.1
            && stands_at(text, "https://"@, range.0)) || (range.0 + 7 <= range.1 && stands_at(
            text,
            "http://"@,
            range.0,
        ))),
{
    reveal_strlit("https://");
    reveal_strlit("http://");
    if contains(text, "https://"@) {
        lemma_some_first(
            text,
            "https://"@,
            choose|at: int| stands_at(text, "https://"@, at),
        );
    }
    if contains(text, "http://"@) {
        lemma_some_first(text, "http://"@, choose|at: int| stands_at(text, "http://"@, at));
    }
    if let Some(start) = link_start(text) {
        let secure = stands_at(text, "https://"@, start);
        let count = if secure { 8int } else { 7 };
        let tail = text.skip(start);
        assert(secure || stands_at(text, "http://"@, start));
        let scheme = if secure { "https://"@ } else { "http://"@ };
        assert(text.subrange(start, start + count) =~= scheme);
        assert forall|i: int| 0 <= i < count implies !whitespace(#[trigger] tail[i]) && (i == count
            - 1 ==> !is_trailing(tail[i])) by {
            assert(tail[i] == text.subrange(start, start + count)[i]);
        }
        lemma_first_word(tail, count);
        lemma_without_trailing(tail.take(first_word(tail)), count);
    }
}

} // verus!
