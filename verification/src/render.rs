//! Text made ready for the terminal: escaped, cut, wrapped and padded.

use vstd::prelude::*;
use vstd::string::*;
use crate::input_syntax::{runs, Cell};
use crate::single_line_input::{
    clusters_fitting, clusters_left_of, lemma_clusters_fitting, lemma_clusters_left_of,
};
use crate::style::{
    capped, line, span, span_views, spans_width, Line, LineView, Span, SpanView, Style,
};
use crate::text::chars_of;
use crate::unicode::{
    display_width, grapheme_clusters, graphemes, joined, lemma_joined_concat, lemma_joined_push,
    text_width, views,
};

verus! {

/// `left` followed by `right`.
pub fn concat(left: &str, right: &str) -> (text: String)
    ensures
        text@ == left@ + right@,
{
    let mut text: String = left.to_owned();
    text.append(right);
    text
}

/// `left`, `middle` and `right` one after the other.
pub fn concat3(left: &str, middle: &str, right: &str) -> (text: String)
    ensures
        text@ == left@ + middle@ + right@,
{
    let mut text: String = left.to_owned();
    text.append(middle);
    text.append(right);
    text
}

/// `count` spaces.
pub open spec fn spaces(count: int) -> Seq<char> {
    Seq::new(count as nat, |i: int| ' ')
}

/// A string of `count` spaces.
pub fn blanks(count: usize) -> (text: String)
    ensures
        text@ == spaces(count as int),
{
    repeated(' ', count)
}

/// `count` times the same character.
pub fn repeated(c: char, count: usize) -> (text: String)
    ensures
        text@ == Seq::new(count as nat, |i: int| c),
{
    let mut text: String = String::new();
    let mut i: usize = 0;
    while i < count
        invariant
            i <= count,
            text@ == Seq::new(i as nat, |k: int| c),
        decreases count - i,
    {
        text.push(c);
        i += 1;
        proof {
            assert(text@ =~= Seq::new(i as nat, |k: int| c));
        }
    }
    text
}

/// The character of a digit, in base ten or sixteen.
pub open spec fn digit(value: int) -> char {
    if value < 10 {
        (value + 48) as char
    } else {
        (value + 87) as char
    }
}

fn digit_char(value: u8) -> (c: char)
    requires
        value < 16,
    ensures
        c == digit(value as int),
{
    if value < 10 {
        (value + 48) as char
    } else {
        (value + 87) as char
    }
}

/// A number in base ten.
pub open spec fn decimal(value: nat) -> Seq<char>
    decreases value,
{
    if value < 10 {
        seq![digit(value as int)]
    } else {
        decimal(value / 10).push(digit((value % 10) as int))
    }
}

/// A number in base ten.
pub fn decimal_text(value: u64) -> (text: String)
    ensures
        text@ == decimal(value as nat),
    decreases value,
{
    let last: char = digit_char((value % 10) as u8);
    let mut text: String = if value < 10 {
        String::new()
    } else {
        decimal_text(value / 10)
    };
    text.push(last);
    proof {
        assert(text@ =~= decimal(value as nat));
    }
    text
}

/// A number in base ten.
pub fn count_text(value: usize) -> (text: String)
    ensures
        text@ == decimal(value as nat),
{
    decimal_text(value as u64)
}

/// Whether a terminal would act on `c` rather than show it.
pub open spec fn is_control(c: char) -> bool {
    c as u32 <= 0x1f || 0x7f <= c as u32 <= 0x9f
}

/// What is shown for `c`: a control character other than a line ending or a tab
/// is spelled out.
pub open spec fn safe_char(c: char) -> Seq<char> {
    if is_control(c) && c != '\n' && c != '\r' && c != '\t' {
        let u = c as u32 as int;
        seq!['\\', 'u', '{'] + (if u < 16 {
            seq![digit(u)]
        } else {
            seq![digit(u / 16), digit(u % 16)]
        }) + seq!['}']
    } else {
        seq![c]
    }
}

/// What is shown for a text.
pub open spec fn safe(text: Seq<char>) -> Seq<char>
    decreases text.len(),
{
    if text.len() == 0 {
        Seq::empty()
    } else {
        safe(text.drop_last()) + safe_char(text.last())
    }
}

/// A text without characters that a terminal would act on.
pub fn terminal_safe(text: &str) -> (shown: String)
    ensures
        shown@ == safe(text@),
{
    let chars: Vec<char> = chars_of(text);
    let mut shown: String = String::new();
    let mut i: usize = 0;
    while i < chars.len()
        invariant
            i <= chars@.len(),
            chars@ == text@,
            shown@ == safe(text@.take(i as int)),
        decreases chars@.len() - i,
    {
        let c: char = chars[i];
        let u: u32 = c as u32;
        let ghost before = shown@;
        proof {
            assert(text@.take(i + 1).drop_last() =~= text@.take(i as int));
        }
        if (u <= 0x1f || (0x7f <= u && u <= 0x9f)) && c != '\n' && c != '\r' && c != '\t' {
            shown.push('\\');
            shown.push('u');
            shown.push('{');
            if u >= 16 {
                shown.push(digit_char((u / 16) as u8));
            }
            shown.push(digit_char((u % 16) as u8));
            shown.push('}');
        } else {
            shown.push(c);
        }
        proof {
            if safe_char(c) != seq![c] {
                if u < 16 {
                    assert(shown@ =~= before + seq!['\\', 'u', '{', digit(u as int), '}']);
                    assert(safe_char(c) =~= seq!['\\', 'u', '{', digit(u as int), '}']);
                } else {
                    let spelled = seq![
                        '\\',
                        'u',
                        '{',
                        digit(u as int / 16),
                        digit(u as int % 16),
                        '}',
                    ];
                    assert(shown@ =~= before + spelled);
                    assert(safe_char(c) =~= spelled);
                }
            }
            assert(shown@ =~= before + safe_char(c));
        }
        i += 1;
    }
    proof {
        assert(text@.take(i as int) =~= text@);
    }
    shown
}

/// Text that a terminal shows as it is stays as it is, and what is shown never
/// holds a control character but line endings and tabs.
pub proof fn law_safe_text_is_stable(text: Seq<char>)
    ensures
        forall|i: int|
            0 <= i < safe(text).len() ==> (is_control(#[trigger] safe(text)[i]) ==> safe(text)[i]
                == '\n' || safe(text)[i] == '\r' || safe(text)[i] == '\t'),
        safe(safe(text)) == safe(text),
        (forall|i: int| 0 <= i < text.len() ==> !is_control(#[trigger] text[i])) ==> safe(text)
            == text,
    decreases text.len(),
{
    lemma_safe_output(text);
    lemma_safe_stable(safe(text));
    if forall|i: int| 0 <= i < text.len() ==> !is_control(#[trigger] text[i]) {
        lemma_safe_stable(text);
    }
}

proof fn lemma_safe_output(text: Seq<char>)
    ensures
        forall|i: int|
            0 <= i < safe(text).len() ==> (is_control(#[trigger] safe(text)[i]) ==> safe(text)[i]
                == '\n' || safe(text)[i] == '\r' || safe(text)[i] == '\t'),
    decreases text.len(),
{
    if text.len() > 0 {
        lemma_safe_output(text.drop_last());
        let tail = safe_char(text.last());
        let u = text.last() as u32 as int;
        if tail.len() > 1 {
            assert(!is_control(digit(u)) || u >= 16);
            assert(!is_control(digit(u / 16)) || u >= 256);
            assert(!is_control(digit(u % 16)));
        }
        assert forall|i: int|
            0 <= i < tail.len() && is_control(#[trigger] tail[i]) implies tail[i] == '\n'
            || tail[i] == '\r' || tail[i] == '\t' by {}
        assert forall|i: int|
            0 <= i < safe(text).len() && is_control(#[trigger] safe(text)[i]) implies safe(text)[i]
            == '\n' || safe(text)[i] == '\r' || safe(text)[i] == '\t' by {
            let head = safe(text.drop_last());
            if i < head.len() {
                assert(safe(text)[i] == head[i]);
            } else {
                assert(safe(text)[i] == tail[i - head.len()]);
            }
        }
    }
}

proof fn lemma_safe_stable(text: Seq<char>)
    requires
        forall|i: int|
            0 <= i < text.len() ==> (is_control(#[trigger] text[i]) ==> text[i] == '\n' || text[i]
                == '\r' || text[i] == '\t'),
    ensures
        safe(text) == text,
    decreases text.len(),
{
    if text.len() > 0 {
        lemma_safe_stable(text.drop_last());
        assert(safe_char(text.last()) == seq![text.last()]);
        assert(text.drop_last() + seq![text.last()] =~= text);
    }
}

/// The clusters at the start of a text that end within `width` columns.
pub open spec fn fitting(text: Seq<char>, width: int) -> Seq<char> {
    joined(grapheme_clusters(text).take(clusters_left_of(grapheme_clusters(text), 0, width)))
}

fn fitting_text(text: &str, width: usize) -> (part: String)
    ensures
        part@ == fitting(text@, width as int),
{
    let parts = graphemes(text);
    let ghost clusters = views(parts@);
    let mut part: String = String::new();
    let mut used: usize = 0;
    let mut i: usize = 0;
    proof {
        assert(clusters.skip(0) =~= clusters);
        assert(clusters.take(0) =~= Seq::empty());
        lemma_clusters_left_of(clusters, 0, width as int);
    }
    while i < parts.len()
        invariant
            i <= parts@.len(),
            clusters == views(parts@),
            clusters == grapheme_clusters(text@),
            part@ == joined(clusters.take(i as int)),
            clusters_left_of(clusters, 0, width as int) == i + clusters_left_of(
                clusters.skip(i as int),
                used as int,
                width as int,
            ),
        decreases parts@.len() - i,
    {
        let next: usize = used.saturating_add(text_width(parts[i].as_str()));
        proof {
            assert(clusters[i as int] == parts@[i as int]@);
            assert(clusters.take(i + 1) =~= clusters.take(i as int).push(clusters[i as int]));
            lemma_joined_push(clusters.take(i as int), clusters[i as int]);
            assert(clusters.skip(i as int).drop_first() =~= clusters.skip(i + 1));
        }
        if width < next {
            return part;
        }
        part.append(parts[i].as_str());
        used = next;
        i += 1;
    }
    part
}

/// A text cut to `width` columns; what is cut off leaves an ellipsis.
pub open spec fn ellipsized(text: Seq<char>, width: int) -> Seq<char> {
    if display_width(text) <= width {
        text
    } else if width == 0 {
        Seq::empty()
    } else {
        fitting(text, width - 1) + "\u{2026}"@
    }
}

/// Cuts a text to `width` columns.
pub fn truncate_with_ellipsis(text: &str, width: usize) -> (part: String)
    ensures
        part@ == ellipsized(text@, width as int),
{
    if text_width(text) <= width {
        text.to_owned()
    } else if width == 0 {
        String::new()
    } else {
        let mut part: String = fitting_text(text, width - 1);
        part.append("\u{2026}");
        part
    }
}

/// The spans that fit into `width` columns, and the first that does not, cut
/// and followed by an ellipsis.
pub open spec fn cut_spans(spans: Seq<SpanView>, width: int) -> Seq<SpanView>
    decreases spans.len(),
{
    if spans.len() == 0 {
        Seq::empty()
    } else if display_width(spans[0].text) <= width {
        seq![spans[0]] + cut_spans(spans.drop_first(), width - display_width(spans[0].text))
    } else {
        seq![span(fitting(spans[0].text, width) + "\u{2026}"@, spans[0].style)]
    }
}

/// A line cut to `width` columns.
pub open spec fn cut_line(line: LineView, width: int) -> LineView {
    if capped(spans_width(line.spans) as int) <= width {
        line
    } else if width == 0 {
        LineView { spans: Seq::empty(), ..line }
    } else {
        LineView { spans: cut_spans(line.spans, width - 1), ..line }
    }
}

/// Cuts a line to `width` columns.
pub fn truncate_line(line: Line, width: usize) -> (cut: Line)
    ensures
        cut@ == cut_line(line@, width as int),
{
    if line.width() <= width {
        return line;
    }
    let mut cut = Line::new();
    cut.base = line.base;
    if width == 0 {
        return cut;
    }
    let mut left: usize = width - 1;
    let mut i: usize = 0;
    let ghost all = line@.spans;
    proof {
        assert(all.skip(0) =~= all);
        assert(Seq::<SpanView>::empty() + cut_spans(all, width - 1) =~= cut_spans(all, width - 1));
    }
    while i < line.spans.len()
        invariant
            i <= line.spans@.len(),
            all == line@.spans,
            cut@.base == line@.base,
            width > 0,
            capped(spans_width(all) as int) > width,
            cut_spans(all, width - 1) == cut@.spans + cut_spans(all.skip(i as int), left as int),
        decreases line.spans@.len() - i,
    {
        let part = &line.spans[i];
        let columns: usize = text_width(part.text.as_str());
        let ghost before = cut@.spans;
        proof {
            assert(all.skip(i as int)[0] == part@);
            assert(all.skip(i as int).drop_first() =~= all.skip(i + 1));
        }
        if columns <= left {
            cut.push_str(part.text.as_str(), part.style);
            left = left - columns;
            proof {
                let rest = cut_spans(all.skip(i + 1), left as int);
                assert(cut@.spans + rest =~= before + (seq![part@] + rest));
            }
        } else {
            let mut text: String = fitting_text(part.text.as_str(), left);
            text.append("\u{2026}");
            cut.push(text, part.style);
            proof {
                assert(cut@.spans =~= cut_spans(all, width - 1));
                assert(cut@ =~= cut_line(line@, width as int));
            }
            return cut;
        }
        i += 1;
    }
    proof {
        assert(all.skip(i as int) =~= Seq::empty());
        assert(cut@.spans =~= cut_spans(all, width - 1));
    }
    cut
}

/// The rows that some clusters take, `width` columns wide, as ranges of
/// characters from `start` on. A row holds at least one cluster.
pub open spec fn wrapped(parts: Seq<Seq<char>>, start: int, width: int) -> Seq<(usize, usize)>
    decreases parts.len(),
{
    let count = clusters_fitting(parts, 0, width);
    if parts.len() == 0 || count <= 0 || count > parts.len() {
        Seq::empty()
    } else {
        let end = start + joined(parts.take(count)).len();
        seq![(start as usize, end as usize)] + wrapped(parts.skip(count), end, width)
    }
}

/// The rows that a text takes, as ranges of characters.
pub open spec fn wrap_rows(text: Seq<char>, width: int) -> Seq<(usize, usize)> {
    if text.len() == 0 || grapheme_clusters(text).len() == 0 {
        seq![(0usize, text.len() as usize)]
    } else {
        wrapped(grapheme_clusters(text), 0, width)
    }
}

proof fn lemma_fitting_some(parts: Seq<Seq<char>>, width: int)
    requires
        parts.len() > 0,
    ensures
        1 <= clusters_fitting(parts, 0, width) <= parts.len(),
{
    lemma_clusters_fitting(parts.drop_first(), capped(0 + display_width(parts[0])), width);
    lemma_clusters_fitting(parts, 0, width);
}

/// Wraps a text to `width` columns.
pub fn wrap_ranges(text: &str, width: usize) -> (rows: Vec<(usize, usize)>)
    ensures
        rows@ == wrap_rows(text@, width as int),
{
    let mut rows: Vec<(usize, usize)> = Vec::new();
    let parts = graphemes(text);
    let total: usize = chars_of(text).len();
    if total == 0 {
        rows.push((0, 0));
        proof {
            assert(rows@ =~= wrap_rows(text@, width as int));
        }
        return rows;
    }
    let ghost clusters = views(parts@);
    let mut start: usize = 0;
    let mut i: usize = 0;
    proof {
        assert(clusters.skip(0) =~= clusters);
        assert(clusters.take(0) =~= Seq::empty());
    }
    while i < parts.len()
        invariant
            i <= parts@.len(),
            clusters == views(parts@),
            joined(clusters) == text@,
            text@.len() <= usize::MAX,
            start == joined(clusters.take(i as int)).len(),
            wrapped(clusters, 0, width as int) == rows@ + wrapped(
                clusters.skip(i as int),
                start as int,
                width as int,
            ),
        decreases parts@.len() - i,
    {
        let ghost rest = clusters.skip(i as int);
        let ghost count = clusters_fitting(rest, 0, width as int);
        proof {
            lemma_fitting_some(rest, width as int);
            assert(rest.skip(0) =~= rest);
            assert(rest.take(0) =~= Seq::empty());
        }
        let ghost first = i;
        let mut end: usize = start;
        let mut used: usize = 0;
        while i < parts.len()
            invariant_except_break
                count == i - first + clusters_fitting(
                    rest.skip(i - first),
                    used as int,
                    width as int,
                ),
            invariant
                first <= i <= parts@.len(),
                clusters == views(parts@),
                rest == clusters.skip(first as int),
                joined(clusters) == text@,
                text@.len() <= usize::MAX,
                start == joined(clusters.take(first as int)).len(),
                end == start + joined(rest.take(i - first)).len(),
                count <= rest.len(),
            ensures
                count == i - first,
            decreases parts@.len() - i,
        {
            let next: usize = used.saturating_add(text_width(parts[i].as_str()));
            proof {
                assert(clusters[i as int] == parts@[i as int]@);
                assert(rest[i - first] == clusters[i as int]);
                assert(rest.skip(i - first).drop_first() =~= rest.skip(i - first + 1));
                assert(rest.take(i - first + 1) =~= rest.take(i - first).push(clusters[i as int]));
                lemma_joined_push(rest.take(i - first), clusters[i as int]);
                assert(clusters.take(i + 1) =~= clusters.take(first as int) + rest.take(
                    i - first + 1,
                ));
                lemma_joined_concat(clusters.take(first as int), rest.take(i - first + 1));
                assert(clusters.take(i + 1) + clusters.skip(i + 1) =~= clusters);
                lemma_joined_concat(clusters.take(i + 1), clusters.skip(i + 1));
            }
            if used > 0 && next > width {
                break;
            }
            end = end + parts[i].as_str().unicode_len();
            used = next;
            i += 1;
        }
        let ghost before = rows@;
        rows.push((start, end));
        proof {
            assert(rest.skip(count) =~= clusters.skip(i as int));
            assert(clusters.take(i as int) =~= clusters.take(first as int) + rest.take(count));
            lemma_joined_concat(clusters.take(first as int), rest.take(count));
            let tail = wrapped(clusters.skip(i as int), end as int, width as int);
            assert(rows@ + tail =~= before + (seq![(start, end)] + tail));
        }
        start = end;
    }
    proof {
        assert(clusters.skip(i as int) =~= Seq::empty());
        assert(rows@ =~= wrapped(clusters, 0, width as int));
    }
    rows
}

/// Wrapping loses nothing: the rows follow one another without a gap and
/// together are the whole text.
pub proof fn law_wrapped_rows_cover_the_text(text: Seq<char>, width: int)
    requires
        joined(grapheme_clusters(text)) == text,
        text.len() <= usize::MAX,
    ensures
        ({
            let rows = wrap_rows(text, width);
            &&& rows.len() > 0
            &&& rows[0].0 == 0
            &&& rows.last().1 == text.len()
            &&& forall|i: int| 0 < i < rows.len() ==> (#[trigger] rows[i]).0 == rows[i - 1].1
            &&& forall|i: int| 0 <= i < rows.len() ==> (#[trigger] rows[i]).0 <= rows[i].1
        }),
{
    if text.len() > 0 {
        let parts = grapheme_clusters(text);
        assert(parts.len() > 0);
        lemma_wrapped_cover(parts, 0, width);
    }
}

proof fn lemma_wrapped_cover(parts: Seq<Seq<char>>, start: int, width: int)
    requires
        parts.len() > 0,
        0 <= start,
        start + joined(parts).len() <= usize::MAX,
    ensures
        ({
            let rows = wrapped(parts, start, width);
            &&& rows.len() > 0
            &&& rows[0].0 == start
            &&& rows.last().1 == start + joined(parts).len()
            &&& forall|i: int| 0 < i < rows.len() ==> (#[trigger] rows[i]).0 == rows[i - 1].1
            &&& forall|i: int| 0 <= i < rows.len() ==> (#[trigger] rows[i]).0 <= rows[i].1
        }),
    decreases parts.len(),
{
    lemma_fitting_some(parts, width);
    let count = clusters_fitting(parts, 0, width);
    assert(parts.take(count) + parts.skip(count) =~= parts);
    lemma_joined_concat(parts.take(count), parts.skip(count));
    let end = start + joined(parts.take(count)).len();
    let tail = wrapped(parts.skip(count), end, width);
    let rows = wrapped(parts, start, width);
    assert(rows == seq![(start as usize, end as usize)] + tail);
    if count < parts.len() {
        lemma_wrapped_cover(parts.skip(count), end, width);
        assert(rows.last() == tail.last());
        assert forall|i: int| 0 < i < rows.len() implies (#[trigger] rows[i]).0 == rows[i - 1].1 by {
            if i > 1 {
                assert(rows[i] == tail[i - 1]);
                assert(rows[i - 1] == tail[i - 2]);
            }
        }
        assert forall|i: int| 0 <= i < rows.len() implies (#[trigger] rows[i]).0 <= rows[i].1 by {
            if i > 0 {
                assert(rows[i] == tail[i - 1]);
            }
        }
    } else {
        assert(parts.skip(count) =~= Seq::empty());
        assert(joined(parts.skip(count)) =~= Seq::empty());
        assert(tail =~= Seq::empty());
    }
}

/// The cells of some spans.
pub open spec fn span_cells(spans: Seq<SpanView>) -> Seq<Cell>
    decreases spans.len(),
{
    if spans.len() == 0 {
        Seq::empty()
    } else {
        span_cells(spans.drop_last()) + text_cells(spans.last().text, spans.last().style)
    }
}

/// A character in its style.
pub open spec fn cell(c: char, style: Style) -> Cell {
    Cell { c, style }
}

/// The cells of a text in one style.
pub open spec fn text_cells(text: Seq<char>, style: Style) -> Seq<Cell> {
    Seq::new(text.len(), |i: int| cell(text[i], style))
}

/// The text of some cells.
pub open spec fn cell_text(cells: Seq<Cell>) -> Seq<char> {
    Seq::new(cells.len(), |i: int| cells[i].c)
}

/// The rows that a line takes, `width` columns wide.
pub open spec fn wrapped_line(line: LineView, width: int) -> Seq<LineView> {
    let cells = span_cells(line.spans);
    let rows = wrap_rows(cell_text(cells), width);
    Seq::new(
        rows.len(),
        |i: int|
            LineView {
                spans: runs(cells.subrange(rows[i].0 as int, rows[i].1 as int)),
                base: line.base,
            },
    )
}

/// Joins neighbouring cells of one style.
pub fn join_cells(cells: &[Cell], start: usize, end: usize) -> (spans: Vec<Span>)
    requires
        start <= end <= cells@.len(),
    ensures
        span_views(spans@) == runs(cells@.subrange(start as int, end as int)),
{
    let mut spans: Vec<Span> = Vec::new();
    let mut i: usize = start;
    proof {
        assert(cells@.subrange(start as int, start as int) =~= Seq::empty());
        assert(span_views(spans@) =~= Seq::empty());
    }
    while i < end
        invariant
            start <= i <= end <= cells@.len(),
            span_views(spans@) == runs(cells@.subrange(start as int, i as int)),
        decreases end - i,
    {
        let ghost before = span_views(spans@);
        let ghost cell = cells@[i as int];
        proof {
            let now = cells@.subrange(start as int, i + 1);
            assert(now.drop_last() =~= cells@.subrange(start as int, i as int));
            assert(now.last() == cell);
            if spans@.len() > 0 {
                assert(before.last() == spans@.last()@);
            }
        }
        let n: usize = spans.len();
        if n > 0 && spans[n - 1].style == cells[i].style {
            let mut last = spans.pop().unwrap();
            last.text.push(cells[i].c);
            spans.push(last);
            proof {
                assert(span_views(spans@) =~= before.drop_last().push(
                    span(before.last().text.push(cell.c), cell.style),
                ));
            }
        } else {
            let mut text: String = String::new();
            text.push(cells[i].c);
            spans.push(Span { text, style: cells[i].style });
            proof {
                assert(text@ =~= seq![cell.c]);
                assert(span_views(spans@) =~= before.push(span(seq![cell.c], cell.style)));
            }
        }
        i += 1;
    }
    spans
}

/// The cells of a line.
pub fn cells_of(line: &Line) -> (cells: Vec<Cell>)
    ensures
        cells@ == span_cells(line@.spans),
{
    let mut cells: Vec<Cell> = Vec::new();
    let mut i: usize = 0;
    proof {
        assert(line@.spans.take(0) =~= Seq::empty());
    }
    while i < line.spans.len()
        invariant
            i <= line.spans@.len(),
            cells@ == span_cells(line@.spans.take(i as int)),
        decreases line.spans@.len() - i,
    {
        let chars: Vec<char> = chars_of(line.spans[i].text.as_str());
        let style: Style = line.spans[i].style;
        let ghost before = cells@;
        let mut k: usize = 0;
        while k < chars.len()
            invariant
                k <= chars@.len(),
                text_cells(chars@, style).len() == chars@.len(),
                cells@ == before + text_cells(chars@, style).take(k as int),
            decreases chars@.len() - k,
        {
            cells.push(Cell { c: chars[k], style });
            k += 1;
            proof {
                assert(text_cells(chars@, style)[k - 1] == cell(chars@[k - 1], style));
                assert(cells@ =~= before + text_cells(chars@, style).take(k as int));
            }
        }
        i += 1;
        proof {
            assert(text_cells(chars@, style).take(k as int) =~= text_cells(chars@, style));
            let now = line@.spans.take(i as int);
            assert(now.drop_last() =~= line@.spans.take(i - 1));
            assert(now.last() == line.spans@[i - 1]@);
        }
    }
    proof {
        assert(line@.spans.take(i as int) =~= line@.spans);
    }
    cells
}

pub proof fn lemma_wrap_rows_bounds(text: Seq<char>, width: int, index: int)
    requires
        joined(grapheme_clusters(text)) == text,
        text.len() <= usize::MAX,
        0 <= index < wrap_rows(text, width).len(),
    ensures
        wrap_rows(text, width)[index].0 <= wrap_rows(text, width)[index].1 <= text.len(),
{
    law_wrapped_rows_cover_the_text(text, width);
    lemma_ends_grow(wrap_rows(text, width), index);
}

proof fn lemma_ends_grow(rows: Seq<(usize, usize)>, index: int)
    requires
        0 <= index < rows.len(),
        forall|i: int| 0 < i < rows.len() ==> (#[trigger] rows[i]).0 == rows[i - 1].1,
        forall|i: int| 0 <= i < rows.len() ==> (#[trigger] rows[i]).0 <= rows[i].1,
    ensures
        rows[index].1 <= rows.last().1,
    decreases rows.len() - index,
{
    if index + 1 < rows.len() {
        lemma_ends_grow(rows, index + 1);
        assert(rows[index + 1].0 == rows[index + 1 - 1].1);
    }
}

/// The clusters of a text make up the text.
pub(crate) fn check_clusters(text: &str)
    ensures
        joined(grapheme_clusters(text@)) == text@,
{
    let _ = graphemes(text);
}

/// Wraps a line to `width` columns.
pub fn wrap_log_line(line: &Line, width: usize) -> (rows: Vec<Line>)
    ensures
        crate::style::line_views(rows@) == wrapped_line(line@, width as int),
{
    let cells: Vec<Cell> = cells_of(line);
    let mut text: String = String::new();
    let mut i: usize = 0;
    while i < cells.len()
        invariant
            i <= cells@.len(),
            text@ == cell_text(cells@).take(i as int),
        decreases cells@.len() - i,
    {
        text.push(cells[i].c);
        i += 1;
        proof {
            assert(text@ =~= cell_text(cells@).take(i as int));
        }
    }
    proof {
        assert(cell_text(cells@).take(i as int) =~= cell_text(cells@));
    }
    check_clusters(text.as_str());
    let ranges: Vec<(usize, usize)> = wrap_ranges(text.as_str(), width);
    let mut rows: Vec<Line> = Vec::new();
    let mut k: usize = 0;
    let total: usize = cells.len();
    while k < ranges.len()
        invariant
            k <= ranges@.len(),
            cells@ == span_cells(line@.spans),
            cells@.len() <= usize::MAX,
            text@ == cell_text(cells@),
            joined(grapheme_clusters(text@)) == text@,
            ranges@ == wrap_rows(text@, width as int),
            crate::style::line_views(rows@) == wrapped_line(line@, width as int).take(k as int),
        decreases ranges@.len() - k,
    {
        proof {
            lemma_wrap_rows_bounds(text@, width as int, k as int);
        }
        let spans = join_cells(cells.as_slice(), ranges[k].0, ranges[k].1);
        let ghost before = crate::style::line_views(rows@);
        crate::style::push_line(&mut rows, Line { spans, base: line.base });
        k += 1;
        proof {
            assert(crate::style::line_views(rows@) =~= wrapped_line(line@, width as int).take(
                k as int,
            ));
        }
    }
    proof {
        assert(wrapped_line(line@, width as int).take(k as int) =~= wrapped_line(
            line@,
            width as int,
        ));
    }
    rows
}

/// Every text takes a row.
pub proof fn lemma_wrap_rows_some(text: Seq<char>, width: int)
    ensures
        wrap_rows(text, width).len() >= 1,
{
    let parts = grapheme_clusters(text);
    if text.len() > 0 && parts.len() > 0 {
        lemma_fitting_some(parts, width);
    }
}

} // verus!
