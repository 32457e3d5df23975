//! What menus say: their titles, their choices, and which of them is selected.

use vstd::prelude::*;
use vstd::string::*;
use crate::list::{indicator_line, VISIBLE_MENU_ITEMS, ListState, ListWidget};
use crate::menu::{choice, choices_of, fitted, list_rows, title_line, window_rows};
use crate::render::safe;
use crate::render_menus::short_menu_rows;
use crate::shown::{
    law_wrapped_lines_say_the_same, lemma_one_row, lemma_one_span, lemma_rows_text_concat,
    lemma_said_within, lemma_span_said, lemma_spans_text_concat, row_text, rows_text, says,
    spans_text, whole,
};
use crate::style::LineView;

verus! {

/// Whether some rows are a menu whose item `at` reads `label`.
pub open spec fn menu_offers(rows: Seq<LineView>, at: int, label: Seq<char>, width: int) -> bool {
    exists|title: LineView, choices: Seq<(Seq<char>, Seq<char>)>, state: ListState|
        rows == #[trigger] short_menu_rows(title, choices, state, width) && 0 <= at
            < choices.len() && choices[at].0 == label && state.item_count == choices.len()
}

/// Whether some rows are a menu whose item `at` is marked.
pub open spec fn menu_marks(rows: Seq<LineView>, at: int, width: int) -> bool {
    exists|title: LineView, choices: Seq<(Seq<char>, Seq<char>)>, state: ListState|
        rows == #[trigger] short_menu_rows(title, choices, state, width) && state.selected == Some(
            at as usize,
        )
}

/// A choice says its label and its detail, and is marked if and only if it is selected.
pub proof fn law_choices_say_their_labels(selected: bool, label: Seq<char>, detail: Seq<char>)
    ensures
        says(row_text(choice(selected, label, detail)), safe(label)),
        says(row_text(choice(selected, label, detail)), safe(detail)),
        (row_text(choice(selected, label, detail))[0] == '\u{203a}') == selected,
{
    reveal_strlit("\u{203a} ");
    reveal_strlit("  ");
    reveal_strlit("");
    let spans = choice(selected, label, detail).spans;
    lemma_span_said(spans, 1);
    if detail.len() > 0 {
        lemma_span_said(spans, 2);
        assert("  "@ + safe(detail) =~= "  "@ + safe(detail) + Seq::<char>::empty());
        lemma_said_within(spans_text(spans), "  "@ + safe(detail), safe(detail));
    } else {
        assert(safe(detail) =~= Seq::empty());
        let text = row_text(choice(selected, label, detail));
        assert(text =~= text + Seq::<char>::empty() + Seq::<char>::empty());
    }
    let rest = spans.skip(1);
    assert(spans =~= seq![spans[0]] + rest);
    lemma_spans_text_concat(seq![spans[0]], rest);
    lemma_one_span(spans[0]);
}

/// A title says what it is the title of, and the detail behind it.
pub proof fn law_titles_say_what_they_head(title: Seq<char>, detail: Seq<char>)
    ensures
        says(row_text(title_line(title, Some(detail))), title),
        says(row_text(title_line(title, Some(detail))), safe(detail)),
        says(row_text(title_line(title, None)), title),
{
    lemma_span_said(title_line(title, Some(detail)).spans, 1);
    lemma_span_said(title_line(title, Some(detail)).spans, 3);
    lemma_span_said(title_line(title, None).spans, 1);
}

/// What some items say, one after the other.
pub open spec fn items_text(items: Seq<LineView>, start: int, end: int) -> Seq<char>
    decreases end - start,
{
    if start >= end {
        Seq::empty()
    } else {
        items_text(items, start, end - 1) + row_text(items[end - 1])
    }
}

proof fn lemma_window_says(items: Seq<LineView>, start: int, end: int, width: int)
    requires
        0 <= start,
        forall|i: int| start <= i < end ==> whole(row_text(#[trigger] items[i])),
    ensures
        rows_text(window_rows(items, start, end, width, false)) == items_text(items, start, end),
    decreases end - start,
{
    if start < end {
        lemma_window_says(items, start, end - 1, width);
        assert(whole(row_text(items[end - 1])));
        law_wrapped_lines_say_the_same(items[end - 1], width);
        lemma_rows_text_concat(
            window_rows(items, start, end - 1, width, false),
            fitted(items[end - 1], width, false),
        );
    }
}

/// A list says its items in their order, from the first that is shown to the last, however
/// they are wrapped; around them stand only the two indicators.
pub proof fn law_lists_say_their_items(
    items: Seq<LineView>,
    empty: Seq<LineView>,
    state: ListState,
    widget: ListWidget,
    width: int,
)
    requires
        state.item_count > 0,
        widget.trailing == 0,
        forall|i: int|
            state.offset <= i < state.offset + widget.capacity && i < state.item_count ==> whole(
                row_text(#[trigger] items[i]),
            ),
    ensures
        ({
            let last = if state.offset + widget.capacity < state.item_count {
                state.offset + widget.capacity
            } else {
                state.item_count as int
            };
            let above = row_text(indicator_line(true, state.offset > 0));
            let below = row_text(indicator_line(false, last < state.item_count));
            rows_text(list_rows(items, empty, state, widget, width, false)) == (if widget.top {
                above
            } else {
                Seq::empty()
            }) + items_text(items, state.offset as int, last) + (if widget.bottom {
                below
            } else {
                Seq::empty()
            })
        }),
{
    let last = state.visible_end_spec(widget.capacity as int);
    let shown = window_rows(items, state.offset as int, last, width, false);
    lemma_window_says(items, state.offset as int, last, width);
    let top = Seq::new(
        if widget.top { 1 } else { 0 },
        |i: int| indicator_line(true, widget.more_above(state)),
    );
    let bottom = Seq::new(
        if widget.bottom { 1 } else { 0 },
        |i: int| indicator_line(false, widget.more_below(state)),
    );
    let rows = list_rows(items, empty, state, widget, width, false);
    assert(rows =~= top + shown + bottom);
    lemma_rows_text_concat(top + shown, bottom);
    lemma_rows_text_concat(top, shown);
    if widget.top {
        assert(top =~= seq![indicator_line(true, state.offset > 0)]);
        lemma_one_row(indicator_line(true, state.offset > 0));
    } else {
        assert(top =~= Seq::empty());
    }
    if widget.bottom {
        assert(bottom =~= seq![indicator_line(false, last < state.item_count)]);
        lemma_one_row(indicator_line(false, last < state.item_count));
    } else {
        assert(bottom =~= Seq::empty());
    }
}

/// What stands in the middle of some items is said by them.
pub proof fn lemma_item_said(items: Seq<LineView>, start: int, end: int, at: int)
    requires
        start <= at < end,
    ensures
        says(items_text(items, start, end), row_text(items[at])),
    decreases end - start,
{
    let text = items_text(items, start, end);
    let before = items_text(items, start, end - 1);
    if at < end - 1 {
        lemma_item_said(items, start, end - 1, at);
        assert(text =~= Seq::<char>::empty() + before + row_text(items[end - 1]));
        lemma_said_within(text, before, row_text(items[at]));
    } else {
        assert(text =~= before + row_text(items[at]) + Seq::<char>::empty());
    }
}

/// A menu says its title and each of its choices that is shown, and marks the selected one.
pub proof fn law_menus_say_their_choices(
    title: LineView,
    choices: Seq<(Seq<char>, Seq<char>)>,
    state: ListState,
    width: int,
    at: int,
)
    requires
        state.item_count == choices.len() > 0,
        state.offset <= at < state.offset + VISIBLE_MENU_ITEMS,
        at < choices.len(),
        forall|i: int|
            0 <= i < choices.len() ==> whole(
                #[trigger] row_text(choices_of(choices, state.selected)[i]),
            ),
    ensures
        ({
            let text = rows_text(short_menu_rows(title, choices, state, width));
            let item = row_text(choices_of(choices, state.selected)[at]);
            &&& says(text, row_text(title))
            &&& says(text, item)
            &&& says(item, safe(choices[at].0))
            &&& says(item, safe(choices[at].1))
            &&& (item[0] == '\u{203a}') == (state.selected == Some(at as usize))
        }),
{
    let items = choices_of(choices, state.selected);
    let widget = ListWidget::of(VISIBLE_MENU_ITEMS as int);
    let list = list_rows(items, Seq::empty(), state, widget, width, false);
    let rows = short_menu_rows(title, choices, state, width);
    assert forall|i: int|
        state.offset <= i < state.offset + widget.capacity && i < state.item_count implies whole(
        row_text(#[trigger] items[i]),
    ) by {}
    law_lists_say_their_items(items, Seq::empty(), state, widget, width);
    let last = state.visible_end_spec(VISIBLE_MENU_ITEMS as int);
    lemma_item_said(items, state.offset as int, last, at);
    let above = row_text(indicator_line(true, state.offset > 0));
    let below = row_text(indicator_line(false, last < state.item_count));
    let shown = items_text(items, state.offset as int, last);
    assert(rows_text(list) =~= above + shown + below);
    lemma_said_within(rows_text(list), shown, row_text(items[at]));
    lemma_rows_text_concat(seq![title], list);
    lemma_one_row(title);
    let text = rows_text(rows);
    assert(text =~= row_text(title) + rows_text(list) + Seq::<char>::empty());
    lemma_said_within(text, rows_text(list), row_text(items[at]));
    assert(text =~= Seq::<char>::empty() + row_text(title) + rows_text(list));
    law_choices_say_their_labels(
        state.selected == Some(at as usize),
        choices[at].0,
        choices[at].1,
    );
}

} // verus!
