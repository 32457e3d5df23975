//! What rows say, whatever their styles and however they are wrapped.

use vstd::prelude::*;
use crate::input_syntax::{runs, Cell};
use crate::render::{
    cell_text, law_wrapped_rows_cover_the_text, lemma_wrap_rows_bounds, safe, span_cells,
    text_cells, wrap_rows, wrapped_line,
};
use crate::style::{line, LineView, SpanView};
use crate::unicode::{grapheme_clusters, joined};

verus! {

/// The text of some spans.
pub open spec fn spans_text(spans: Seq<SpanView>) -> Seq<char>
    decreases spans.len(),
{
    if spans.len() == 0 {
        Seq::empty()
    } else {
        spans_text(spans.drop_last()) + spans.last().text
    }
}

/// What a row says.
pub open spec fn row_text(row: LineView) -> Seq<char> {
    spans_text(row.spans)
}

/// What some rows say, one after the other.
pub open spec fn rows_text(rows: Seq<LineView>) -> Seq<char>
    decreases rows.len(),
{
    if rows.len() == 0 {
        Seq::empty()
    } else {
        rows_text(rows.drop_last()) + row_text(rows.last())
    }
}

/// Whether a text says `part` somewhere.
pub open spec fn says(text: Seq<char>, part: Seq<char>) -> bool {
    exists|before: Seq<char>, after: Seq<char>| text == #[trigger] (before + part + after)
}

/// Whether the clusters of a text make up the text.
pub open spec fn whole(text: Seq<char>) -> bool {
    joined(grapheme_clusters(text)) == text && text.len() <= usize::MAX
}

pub proof fn lemma_spans_text_concat(a: Seq<SpanView>, b: Seq<SpanView>)
    ensures
        spans_text(a + b) == spans_text(a) + spans_text(b),
    decreases b.len(),
{
    if b.len() == 0 {
        assert(a + b =~= a);
        assert(spans_text(a) + spans_text(b) =~= spans_text(a));
    } else {
        lemma_spans_text_concat(a, b.drop_last());
        assert((a + b).drop_last() =~= a + b.drop_last());
        assert(spans_text(a) + spans_text(b) =~= spans_text(a) + spans_text(b.drop_last())
            + b.last().text);
    }
}

pub proof fn lemma_rows_text_concat(a: Seq<LineView>, b: Seq<LineView>)
    ensures
        rows_text(a + b) == rows_text(a) + rows_text(b),
    decreases b.len(),
{
    if b.len() == 0 {
        assert(a + b =~= a);
        assert(rows_text(a) + rows_text(b) =~= rows_text(a));
    } else {
        lemma_rows_text_concat(a, b.drop_last());
        assert((a + b).drop_last() =~= a + b.drop_last());
        assert(rows_text(a) + rows_text(b) =~= rows_text(a) + rows_text(b.drop_last())
            + row_text(b.last()));
    }
}

pub proof fn lemma_one_span(span: SpanView)
    ensures
        spans_text(seq![span]) == span.text,
{
    assert(seq![span].drop_last() =~= Seq::empty());
    assert(spans_text(Seq::empty()) =~= Seq::empty());
    assert(spans_text(seq![span]) =~= span.text);
}

pub proof fn lemma_pushed_span(spans: Seq<SpanView>, span: SpanView)
    ensures
        spans_text(spans.push(span)) == spans_text(spans) + span.text,
{
    assert(spans.push(span).drop_last() =~= spans);
}

pub proof fn lemma_one_row(row: LineView)
    ensures
        rows_text(seq![row]) == row_text(row),
{
    assert(seq![row].drop_last() =~= Seq::empty());
    assert(rows_text(Seq::empty()) =~= Seq::empty());
    assert(rows_text(seq![row]) =~= row_text(row));
}

/// A row among some rows is said by them.
pub proof fn lemma_row_said(rows: Seq<LineView>, at: int)
    requires
        0 <= at < rows.len(),
    ensures
        says(rows_text(rows), row_text(rows[at])),
{
    let before = rows.take(at);
    let after = rows.skip(at + 1);
    assert(rows =~= before + seq![rows[at]] + after);
    lemma_rows_text_concat(before + seq![rows[at]], after);
    lemma_rows_text_concat(before, seq![rows[at]]);
    lemma_one_row(rows[at]);
    assert(rows_text(rows) == rows_text(before) + row_text(rows[at]) + rows_text(after));
}

/// What a part says, the whole says.
pub proof fn lemma_said_within(whole: Seq<char>, middle: Seq<char>, part: Seq<char>)
    requires
        says(whole, middle),
        says(middle, part),
    ensures
        says(whole, part),
{
    let (a, b) = choose|a: Seq<char>, b: Seq<char>| whole == #[trigger] (a + middle + b);
    let (c, d) = choose|c: Seq<char>, d: Seq<char>| middle == #[trigger] (c + part + d);
    assert(whole =~= (a + c) + part + (d + b));
}

/// A span among some spans is said by them.
pub proof fn lemma_span_said(spans: Seq<SpanView>, at: int)
    requires
        0 <= at < spans.len(),
    ensures
        says(spans_text(spans), spans[at].text),
{
    let before = spans.take(at);
    let after = spans.skip(at + 1);
    assert(spans =~= before + seq![spans[at]] + after);
    lemma_spans_text_concat(before + seq![spans[at]], after);
    lemma_spans_text_concat(before, seq![spans[at]]);
    lemma_one_span(spans[at]);
    assert(spans_text(spans) == spans_text(before) + spans[at].text + spans_text(after));
}

proof fn lemma_span_cells_text(spans: Seq<SpanView>)
    ensures
        cell_text(span_cells(spans)) == spans_text(spans),
    decreases spans.len(),
{
    if spans.len() > 0 {
        lemma_span_cells_text(spans.drop_last());
        let last = text_cells(spans.last().text, spans.last().style);
        assert(cell_text(last) =~= spans.last().text);
        assert(cell_text(span_cells(spans.drop_last()) + last) =~= cell_text(
            span_cells(spans.drop_last()),
        ) + cell_text(last));
    } else {
        assert(cell_text(span_cells(spans)) =~= Seq::empty());
    }
}

/// Joining cells into spans keeps their text.
pub proof fn law_runs_keep_the_text(cells: Seq<Cell>)
    ensures
        spans_text(runs(cells)) == cell_text(cells),
    decreases cells.len(),
{
    if cells.len() == 0 {
        assert(cell_text(cells) =~= Seq::empty());
    } else {
        law_runs_keep_the_text(cells.drop_last());
        let before = runs(cells.drop_last());
        let last = cells.last();
        assert(cell_text(cells) =~= cell_text(cells.drop_last()).push(last.c));
        if before.len() > 0 && before.last().style == last.style {
            let kept = before.drop_last();
            let grown = SpanView { text: before.last().text.push(last.c), style: last.style };
            lemma_pushed_span(kept, grown);
            assert(spans_text(kept) + before.last().text.push(last.c) =~= (spans_text(kept)
                + before.last().text).push(last.c));
        } else {
            let new = SpanView { text: seq![last.c], style: last.style };
            lemma_pushed_span(before, new);
            assert(spans_text(before) + seq![last.c] =~= spans_text(before).push(last.c));
        }
    }
}

proof fn lemma_rows_said(
    cells: Seq<Cell>,
    rows: Seq<LineView>,
    ranges: Seq<(usize, usize)>,
    count: int,
)
    requires
        0 < count <= ranges.len() == rows.len(),
        ranges[0].0 == 0,
        forall|i: int| 0 < i < ranges.len() ==> (#[trigger] ranges[i]).0 == ranges[i - 1].1,
        forall|i: int|
            0 <= i < ranges.len() ==> (#[trigger] ranges[i]).0 <= ranges[i].1 <= cells.len(),
        forall|i: int|
            0 <= i < rows.len() ==> (#[trigger] rows[i]).spans == runs(
                cells.subrange(ranges[i].0 as int, ranges[i].1 as int),
            ),
    ensures
        rows_text(rows.take(count)) == cell_text(cells.take(ranges[count - 1].1 as int)),
    decreases count,
{
    let at = count - 1;
    let part = cells.subrange(ranges[at].0 as int, ranges[at].1 as int);
    law_runs_keep_the_text(part);
    assert(rows.take(count).drop_last() =~= rows.take(at));
    assert(rows.take(count).last() == rows[at]);
    assert(row_text(rows[at]) == cell_text(part));
    if at > 0 {
        lemma_rows_said(cells, rows, ranges, at);
        assert(ranges[at].0 == ranges[at - 1].1);
        assert(cell_text(cells.take(ranges[at].0 as int)) + cell_text(part) =~= cell_text(
            cells.take(ranges[at].1 as int),
        ));
    } else {
        assert(rows.take(0) =~= Seq::empty());
        assert(rows_text(rows.take(0)) =~= Seq::empty());
        assert(Seq::<char>::empty() + cell_text(part) =~= cell_text(
            cells.take(ranges[at].1 as int),
        ));
    }
}

/// Wrapping a line loses nothing of what it says.
pub proof fn law_wrapped_lines_say_the_same(row: LineView, width: int)
    requires
        whole(row_text(row)),
    ensures
        rows_text(wrapped_line(row, width)) == row_text(row),
{
    let cells = span_cells(row.spans);
    let text = cell_text(cells);
    lemma_span_cells_text(row.spans);
    let ranges = wrap_rows(text, width);
    let rows = wrapped_line(row, width);
    law_wrapped_rows_cover_the_text(text, width);
    assert forall|i: int| 0 <= i < ranges.len() implies (#[trigger] ranges[i]).0 <= ranges[i].1
        <= cells.len() by {
        lemma_wrap_rows_bounds(text, width, i);
    }
    lemma_rows_said(cells, rows, ranges, ranges.len() as int);
    assert(rows.take(ranges.len() as int) =~= rows);
    assert(cells.take(cells.len() as int) =~= cells);
}

/// Texts one after the other are as safe to show as each of them.
pub proof fn law_safe_texts_join(a: Seq<char>, b: Seq<char>)
    ensures
        safe(a + b) == safe(a) + safe(b),
    decreases b.len(),
{
    if b.len() == 0 {
        assert(a + b =~= a);
        assert(safe(a) + safe(b) =~= safe(a));
    } else {
        law_safe_texts_join(a, b.drop_last());
        assert((a + b).drop_last() =~= a + b.drop_last());
        assert(safe(a) + safe(b) =~= safe(a) + safe(b.drop_last()) + crate::render::safe_char(
            b.last(),
        ));
    }
}

/// Text without control characters is shown as it is.
pub proof fn law_plain_text_is_shown_as_it_is(text: Seq<char>)
    requires
        forall|i: int| 0 <= i < text.len() ==> 0x20 <= (#[trigger] text[i]) as u32 <= 0x7e,
    ensures
        safe(text) == text,
    decreases text.len(),
{
    if text.len() > 0 {
        law_plain_text_is_shown_as_it_is(text.drop_last());
        assert(text.last() == text[text.len() - 1]);
        assert(text.drop_last() + seq![text.last()] =~= text);
    } else {
        assert(safe(text) =~= text);
    }
}

} // verus!
