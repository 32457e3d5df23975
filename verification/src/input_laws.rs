//! What inputs show of the text that is written in them.

use vstd::prelude::*;
use vstd::string::*;
use crate::input_syntax::{input_cells, runs, CodeToken};
use crate::masked::{dots, masked_line};
use crate::render::{cell_text, ellipsized, fitting};
use crate::shown::{
    law_runs_keep_the_text, lemma_one_span, lemma_pushed_span, lemma_spans_text_concat, row_text,
    whole,
};
use crate::single_line_input::{
    bounded_range, clusters_left_of, law_window_contains_cursor, lemma_clusters_fitting,
    lemma_clusters_left_of, lemma_first_shown, rendered, window, InputView,
};
use crate::style::Style;
use crate::text::char_index;
use crate::unicode::{display_width, grapheme_clusters, lemma_joined_concat, lemma_joined_offset};

verus! {

/// An input shows the part of its text that its window holds, and nothing else; a space
/// stands for the cursor where it is at the end and there is room.
pub proof fn law_inputs_show_their_window(
    input: InputView,
    tokens: Seq<CodeToken>,
    width: int,
    text_style: Style,
    cursor_style: Style,
)
    requires
        0 < width <= usize::MAX,
        whole(input.text),
    ensures
        ({
            let range = bounded_range(input.text, input.at, width);
            let shown = input.text.subrange(
                char_index(input.text, range.0),
                char_index(input.text, range.1),
            );
            let text = row_text(rendered(input, tokens, width, text_style, cursor_style));
            text == shown || (text == shown + " "@ && input.at == input.text.len())
        }),
{
    let range = bounded_range(input.text, input.at, width);
    let start = char_index(input.text, range.0);
    let end = char_index(input.text, range.1);
    lemma_window_within(input, width);
    let on_text = input.cursor() < range.1;
    let cells = input_cells(
        input.text,
        tokens,
        start,
        end,
        text_style,
        if on_text { input.at } else { end },
        if on_text {
            crate::composer::next_grapheme_index(input.text, input.at)
        } else {
            end
        },
        cursor_style,
    );
    law_runs_keep_the_text(cells);
    assert(cell_text(cells) =~= input.text.subrange(start, end));
    lemma_pushed_span(runs(cells), crate::style::span(" "@, cursor_style));
}

/// The window of an input lies within its text.
proof fn lemma_window_within(input: InputView, width: int)
    requires
        0 < width <= usize::MAX,
        whole(input.text),
    ensures
        ({
            let range = bounded_range(input.text, input.at, width);
            0 <= char_index(input.text, range.0) <= char_index(input.text, range.1)
                <= input.text.len()
        }),
{
    let parts = grapheme_clusters(input.text);
    let (first, last) = window(input.text, input.at, width);
    law_window_contains_cursor(input.text, input.at, width);
    lemma_first_shown(input.text, input.at, width);
    lemma_clusters_fitting(parts.skip(first), 0, width);
    lemma_joined_offset(parts, first);
    lemma_joined_offset(parts, last);
    let head = parts.take(first);
    let middle = parts.subrange(first, last);
    assert(parts.take(last) =~= head + middle);
    lemma_joined_concat(head, middle);
}

/// A secret is never shown: behind what stands before it there are only dots, and a space
/// for the cursor.
pub proof fn law_secrets_are_masked(
    prefix: Seq<char>,
    value: Seq<char>,
    cursor: int,
    width: int,
    i: int,
)
    requires
        width <= usize::MAX,
        whole(dots(grapheme_clusters(value).len() as int)),
        prefix.len() <= i < row_text(masked_line(prefix, value, cursor, width)).len(),
    ensures
        prefix.is_prefix_of(row_text(masked_line(prefix, value, cursor, width))),
        row_text(masked_line(prefix, value, cursor, width))[i] == '\u{2022}' || row_text(
            masked_line(prefix, value, cursor, width),
        )[i] == ' ',
{
    reveal_strlit(" ");
    let row = masked_line(prefix, value, cursor, width);
    let shown = dots(grapheme_clusters(value).len() as int);
    let at = 3 * crate::masked::last_bound(
        crate::masked::cluster_bounds(value),
        crate::list::min(cursor, crate::text::utf8_len(value) as int),
    );
    let input = InputView::of(shown, at);
    let room = crate::menu::less(width, display_width(prefix) as int);
    let rest = rendered(
        input,
        Seq::empty(),
        room,
        Style::of(crate::style::Role::Accent),
        Style::of(crate::style::Role::SearchCursor),
    );
    assert(row.spans =~= seq![row.spans[0]] + rest.spans);
    lemma_spans_text_concat(seq![row.spans[0]], rest.spans);
    lemma_one_span(row.spans[0]);
    assert(row_text(row) == prefix + row_text(rest));
    assert(prefix =~= row_text(row).take(prefix.len() as int));
    if room > 0 {
        lemma_window_within(input, room);
        law_inputs_show_their_window(
            input,
            Seq::empty(),
            room,
            Style::of(crate::style::Role::Accent),
            Style::of(crate::style::Role::SearchCursor),
        );
    } else {
        assert(rest.spans =~= Seq::empty());
    }
    assert(row_text(row)[i] == row_text(rest)[i - prefix.len()]);
}

/// A text that is cut is a start of the text with a sign that it goes on; one that fits is
/// not cut.
pub proof fn law_cut_texts_are_starts(text: Seq<char>, width: int)
    requires
        0 < width,
        whole(text),
    ensures
        display_width(text) <= width ==> ellipsized(text, width) == text,
        display_width(text) > width ==> ellipsized(text, width).last() == '\u{2026}'
            && ellipsized(text, width).drop_last().is_prefix_of(text),
{
    reveal_strlit("\u{2026}");
    let cut = ellipsized(text, width);
    let parts = grapheme_clusters(text);
    let count = clusters_left_of(parts, 0, width - 1);
    lemma_clusters_left_of(parts, 0, width - 1);
    assert(parts.take(count) + parts.skip(count) =~= parts);
    lemma_joined_concat(parts.take(count), parts.skip(count));
    assert(fitting(text, width - 1) =~= text.take(fitting(text, width - 1).len() as int));
    if display_width(text) > width {
        assert(cut.drop_last() =~= fitting(text, width - 1));
    }
}

} // verus!
