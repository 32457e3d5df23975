//! An editor of several lines, shown in a scrolled view that follows the
//! cursor.

use vstd::prelude::*;
use vstd::string::*;
use crate::composer::{
    next_grapheme, next_grapheme_index, previous_grapheme, previous_grapheme_index,
};
use crate::input_syntax::{highlighted_spans, input_cells, runs, CodeToken};
use crate::key::{KeyCode, KeyEvent};
use crate::list::{max, min};
use crate::menu::{less, text_part};
use crate::render::{
    check_clusters, lemma_wrap_rows_bounds, lemma_wrap_rows_some, wrap_ranges, wrap_rows,
};
use crate::scroll::{ScrollViewLayout, ScrollViewMetrics, ScrollViewState, ScrollViewWidget};
use crate::single_line_input::{
    byte_offset_at_display_column, offset_at_display_column, InputView, SingleLineInput,
};
use crate::style::{line, line_views, push_line, span, Line, LineView, Role, Style};
use crate::text::{
    byte_len, char_index, chars_of, is_boundary, lemma_boundary, lemma_char_index,
    lemma_ends_are_boundaries, lemma_floor_boundary, lemma_offset_grows, offset, split_text,
};
use crate::unicode::{display_width, grapheme_clusters, joined, text_width};

verus! {

/// The most rows that a note takes.
pub const INTERACTION_NOTE_MAX_VISUAL_ROWS: usize = 6;

/// The index of the first `c` in a text, or its length.
pub open spec fn first_char(text: Seq<char>, c: char) -> int
    decreases text.len(),
{
    if text.len() == 0 || text[0] == c { 0 } else { 1 + first_char(text.drop_first(), c) }
}

pub proof fn lemma_first_char(text: Seq<char>, c: char)
    ensures
        0 <= first_char(text, c) <= text.len(),
    decreases text.len(),
{
    if text.len() > 0 && text[0] != c {
        lemma_first_char(text.drop_first(), c);
    }
}

/// The index of the first `c` from `start` on, or the end.
pub fn find_char(chars: &[char], start: usize, c: char) -> (at: usize)
    requires
        start <= chars@.len(),
    ensures
        at == start + first_char(chars@.skip(start as int), c),
        start <= at <= chars@.len(),
        at < chars@.len() ==> chars@[at as int] == c,
{
    let ghost rest = chars@.skip(start as int);
    let mut at: usize = start;
    proof {
        assert(rest.skip(0) =~= rest);
    }
    while at < chars.len() && chars[at] != c
        invariant
            start <= at <= chars@.len(),
            rest == chars@.skip(start as int),
            first_char(rest, c) == at - start + first_char(rest.skip(at - start), c),
        decreases chars@.len() - at,
    {
        proof {
            let tail = rest.skip(at - start);
            assert(tail[0] == chars@[at as int]);
            assert(tail.drop_first() =~= rest.skip(at - start + 1));
        }
        at += 1;
    }
    proof {
        let tail = rest.skip(at - start);
        if at < chars@.len() {
            assert(tail[0] == chars@[at as int]);
        }
    }
    at
}

/// Some rows moved by a number of characters.
pub open spec fn shifted(rows: Seq<(usize, usize)>, by: int) -> Seq<(usize, usize)> {
    rows.map_values(|row: (usize, usize)| ((row.0 + by) as usize, (row.1 + by) as usize))
}

/// The rows of a text of several lines, each wrapped, as ranges of characters.
pub open spec fn text_rows(text: Seq<char>, start: int, width: int) -> Seq<(usize, usize)>
    decreases text.len(),
{
    let end = first_char(text, '\n');
    let rows = shifted(wrap_rows(text.take(end), width), start);
    if end < 0 || end >= text.len() {
        rows
    } else {
        rows + text_rows(text.skip(end + 1), start + end + 1, width)
    }
}

/// The columns that are left for text beside its indentation.
pub open spec fn text_columns(width: int) -> int {
    max(less(width, 2), 1)
}

fn columns_for_text(width: u16) -> (columns: usize)
    ensures
        columns == text_columns(width as int),
{
    let columns: usize = (width as usize).saturating_sub(2);
    if columns >= 1 {
        columns
    } else {
        1
    }
}

/// Whether some rows lie within `len` characters.
pub open spec fn rows_within(rows: Seq<(usize, usize)>, len: int) -> bool {
    forall|i: int| 0 <= i < rows.len() ==> (#[trigger] rows[i]).0 <= rows[i].1 <= len
}

/// The rows of a text of several lines.
pub fn rows_of(text: &str, width: usize) -> (rows: Vec<(usize, usize)>)
    ensures
        rows@ == text_rows(text@, 0, width as int),
        rows_within(rows@, text@.len() as int),
        rows@.len() > 0,
{
    let chars: Vec<char> = chars_of(text);
    let total: usize = chars.len();
    let mut rows: Vec<(usize, usize)> = Vec::new();
    let mut start: usize = 0;
    let mut more: bool = true;
    proof {
        assert(text@.skip(0) =~= text@);
        assert(Seq::<(usize, usize)>::empty() + text_rows(text@, 0, width as int) =~= text_rows(
            text@,
            0,
            width as int,
        ));
    }
    while more
        invariant
            start <= chars@.len() == total,
            chars@ == text@,
            rows_within(rows@, text@.len() as int),
            more ==> text_rows(text@, 0, width as int) == rows@ + text_rows(
                text@.skip(start as int),
                start as int,
                width as int,
            ),
            !more ==> text_rows(text@, 0, width as int) == rows@ && rows@.len() > 0,
        decreases chars@.len() - start + if more { 1int } else { 0 },
    {
        let ghost rest = text@.skip(start as int);
        let end: usize = find_char(chars.as_slice(), start, '\n');
        let part: String = text_part(chars.as_slice(), start, end);
        proof {
            assert(part@ =~= rest.take(end - start));
        }
        check_clusters(part.as_str());
        let wrapped = wrap_ranges(part.as_str(), width);
        let ghost before = rows@;
        proof {
            crate::render::law_wrapped_rows_cover_the_text(part@, width as int);
        }
        let mut i: usize = 0;
        while i < wrapped.len()
            invariant
                i <= wrapped@.len(),
                start <= end <= total == text@.len(),
                part@.len() == end - start,
                joined(grapheme_clusters(part@)) == part@,
                wrapped@ == wrap_rows(part@, width as int),
                rows_within(rows@, text@.len() as int),
                rows@ == before + shifted(wrapped@, start as int).take(i as int),
            decreases wrapped@.len() - i,
        {
            proof {
                lemma_wrap_rows_bounds(part@, width as int, i as int);
            }
            rows.push((start + wrapped[i].0, start + wrapped[i].1));
            i += 1;
            proof {
                assert(rows@ =~= before + shifted(wrapped@, start as int).take(i as int));
            }
        }
        proof {
            assert(shifted(wrapped@, start as int).take(i as int) =~= shifted(
                wrapped@,
                start as int,
            ));
        }
        if end < total {
            let ghost old_start = start;
            start = end + 1;
            proof {
                assert(rest.skip(end - old_start + 1) =~= text@.skip(start as int));
                let here = shifted(wrapped@, old_start as int);
                let next = text_rows(text@.skip(start as int), start as int, width as int);
                assert(rows@ + next =~= before + (here + next));
            }
        } else {
            more = false;
            proof {
                assert(rows@ =~= before + shifted(wrapped@, start as int));
            }
        }
    }
    rows
}

/// The row in which a character stands: the last that starts at or before it.
pub open spec fn row_at(rows: Seq<(usize, usize)>, at: int) -> int
    decreases rows.len(),
{
    if rows.len() == 0 {
        0
    } else if rows.last().0 <= at {
        rows.len() - 1
    } else {
        row_at(rows.drop_last(), at)
    }
}

/// The row in which a character stands.
pub fn find_row(rows: &[(usize, usize)], at: usize) -> (row: usize)
    ensures
        row == row_at(rows@, at as int),
        rows@.len() > 0 ==> row < rows@.len(),
{
    let mut n: usize = rows.len();
    proof {
        assert(rows@.take(n as int) =~= rows@);
    }
    while n > 0
        invariant
            n <= rows@.len(),
            row_at(rows@, at as int) == row_at(rows@.take(n as int), at as int),
        decreases n,
    {
        proof {
            assert(rows@.take(n as int).last() == rows@[n - 1]);
            assert(rows@.take(n as int).drop_last() =~= rows@.take(n - 1));
        }
        if rows[n - 1].0 <= at {
            return n - 1;
        }
        n -= 1;
    }
    0
}

/// The first row starts with the text.
proof fn lemma_rows_start(text: Seq<char>, start: int, width: int)
    requires
        0 <= start <= usize::MAX,
    ensures
        text_rows(text, start, width).len() > 0,
        text_rows(text, start, width)[0].0 == start,
{
    lemma_wrap_rows_some(text.take(first_char(text, '\n')), width);
}

/// The row in which a character stands starts at or before it, if the first row does.
proof fn lemma_row_at(rows: Seq<(usize, usize)>, at: int)
    requires
        rows.len() > 0,
        rows[0].0 <= at,
    ensures
        0 <= row_at(rows, at) < rows.len(),
        rows[row_at(rows, at)].0 <= at,
    decreases rows.len(),
{
    if rows.last().0 > at {
        lemma_row_at(rows.drop_last(), at);
    }
}

/// An editor of several lines.
#[derive(Debug)]
pub struct MultilineInput {
    input: SingleLineInput,
}

impl View for MultilineInput {
    type V = InputView;

    closed spec fn view(&self) -> InputView {
        self.input@
    }
}

impl Clone for MultilineInput {
    fn clone(&self) -> (copy: Self)
        ensures
            copy@ == self@,
    {
        MultilineInput { input: self.input.clone() }
    }
}

/// The window that keeps a row visible.
pub open spec fn following(rows: int, row: int, capacity: int) -> ScrollViewState {
    ScrollViewState { offset: less(row + 1, capacity) as usize, content_rows: rows as usize }
}

/// How many rows a key moves the cursor of an editor that shows `capacity` rows; a key
/// that moves up moves by a negative number.
pub open spec fn row_step(key: KeyEvent, capacity: int) -> Option<int> {
    if !key.modifiers.is_empty() {
        None
    } else {
        match key.code {
            KeyCode::Up => Some(-1),
            KeyCode::Down => Some(1),
            KeyCode::PageUp => Some(-max(capacity, 1)),
            KeyCode::PageDown => Some(max(capacity, 1)),
            _ => None,
        }
    }
}

/// The place at a column of a row. A row that is continued in the next one has no place
/// behind its last cluster.
pub open spec fn place_in_row(
    text: Seq<char>,
    rows: Seq<(usize, usize)>,
    row: int,
    column: int,
) -> int {
    let start = rows[row].0 as int;
    let part = text.subrange(start, rows[row].1 as int);
    let inside = char_index(part, offset_at_display_column(part, column) as int);
    if inside == part.len() && row + 1 < rows.len() && rows[row + 1].0 == rows[row].1 {
        start + previous_grapheme_index(part, inside)
    } else {
        start + inside
    }
}

/// What an editor becomes by a key, where it is shown in `capacity` rows of `width`
/// columns: a key that moves by rows moves the cursor to the same column of another row,
/// if there is one.
pub open spec fn edited_in_view(
    input: InputView,
    key: KeyEvent,
    width: int,
    capacity: int,
) -> Option<InputView> {
    match row_step(key, capacity) {
        None => input.edited(key),
        Some(step) => {
            let rows = text_rows(input.text, 0, text_columns(width));
            let row = row_at(rows, input.at);
            let target = max(min(row + step, rows.len() - 1), 0);
            if target == row {
                None
            } else {
                let column = display_width(
                    input.text.subrange(rows[row].0 as int, input.at),
                ) as int;
                Some(input.move_to(place_in_row(input.text, rows, target, column)))
            }
        },
    }
}

/// What an editor becomes by a key, if anything.
pub open spec fn editor_after(
    input: InputView,
    key: KeyEvent,
    width: int,
    capacity: int,
) -> InputView {
    match edited_in_view(input, key, width, capacity) {
        None => input,
        Some(edited) => edited,
    }
}

/// The row that a key leads to, where it moves the cursor by rows.
fn row_reached(key: KeyEvent, row: usize, count: usize, capacity: usize) -> (reached: Option<usize>)
    requires
        row < count,
    ensures
        match row_step(key, capacity as int) {
            None => reached is None,
            Some(step) => reached == Some(max(min(row + step, count - 1), 0) as usize),
        },
        reached matches Some(reached) ==> reached < count,
{
    if !key.modifiers.is_empty() {
        return None;
    }
    let page: usize = if capacity >= 1 {
        capacity
    } else {
        1
    };
    let below: usize = count - 1 - row;
    match key.code {
        KeyCode::Up => Some(row.saturating_sub(1)),
        KeyCode::Down => Some(
            if below >= 1 {
                row + 1
            } else {
                row
            },
        ),
        KeyCode::PageUp => Some(row.saturating_sub(page)),
        KeyCode::PageDown => Some(
            if below >= page {
                row + page
            } else {
                count - 1
            },
        ),
        _ => None,
    }
}

/// A row of an editor, with the cursor in it or not.
pub open spec fn editor_row(
    input: InputView,
    tokens: Seq<CodeToken>,
    row: (usize, usize),
    with_cursor: bool,
) -> LineView {
    let end = row.1 as int;
    let on_text = with_cursor && input.at < end;
    let spans = runs(
        input_cells(
            input.text,
            tokens,
            row.0 as int,
            end,
            Style::plain(),
            if on_text { input.at } else { end },
            if on_text { next_grapheme_index(input.text, input.at) } else { end },
            Style::of(Role::SearchCursor),
        ),
    );
    let shown = seq![span("  "@, Style::plain())] + spans;
    line(
        if with_cursor && !on_text {
            shown.push(span(" "@, Style::of(Role::SearchCursor)))
        } else {
            shown
        },
    )
}

/// The visible rows of an editor.
pub open spec fn editor_rows(
    input: InputView,
    tokens: Seq<CodeToken>,
    rows: Seq<(usize, usize)>,
    start: int,
    end: int,
) -> Seq<LineView> {
    Seq::new(
        (end - start) as nat,
        |i: int|
            editor_row(input, tokens, rows[start + i], start + i == row_at(rows, input.at)),
    )
}

impl MultilineInput {
    pub fn new(value: String, cursor: usize) -> (input: Self)
        ensures
            input@ == InputView::of(value@, cursor as int),
    {
        MultilineInput { input: SingleLineInput::new(value, cursor) }
    }

    pub fn with_syntax_language(self, language: String) -> (input: Self)
        ensures
            input@ == (InputView { language: Some(language@), ..self@ }),
    {
        MultilineInput { input: self.input.with_syntax_language(language) }
    }

    pub fn text(&self) -> (text: &str)
        ensures
            text@ == self@.text,
    {
        self.input.text()
    }

    pub fn cursor(&self) -> (cursor: usize)
        ensures
            cursor == self@.cursor(),
            0 <= self@.at <= self@.text.len(),
            is_boundary(self@.text, cursor as int),
            char_index(self@.text, cursor as int) == self@.at,
    {
        self.input.cursor()
    }

    /// Applies a key, where the editor is shown in `capacity` rows of `width` columns; the
    /// result says whether the editor took it.
    pub fn handle_key_in_view(&mut self, key: KeyEvent, width: u16, capacity: usize) -> (handled:
        bool)
        ensures
            ({
                let edited = edited_in_view(old(self)@, key, width as int, capacity as int);
                &&& handled == edited is Some
                &&& final(self)@ == (if handled {
                    edited->0
                } else {
                    old(self)@
                })
            }),
    {
        let cursor: usize = self.cursor();
        let ghost before = self@;
        let text: &str = self.input.text();
        let chars: Vec<char> = chars_of(text);
        let rows = rows_of(text, columns_for_text(width));
        let at: usize = chars_of(split_text(text, cursor).0).len();
        let row: usize = find_row(rows.as_slice(), at);
        let target: usize = match row_reached(key, row, rows.len(), capacity) {
            None => {
                return self.input.handle_key(key);
            },
            Some(target) => target,
        };
        if target == row {
            return false;
        }
        let total: usize = byte_len(text);
        proof {
            lemma_rows_start(text@, 0, text_columns(width as int));
            lemma_row_at(rows@, at as int);
        }
        let before_cursor: String = text_part(chars.as_slice(), rows[row].0, at);
        let column: usize = text_width(before_cursor.as_str());
        let start: usize = rows[target].0;
        let end: usize = rows[target].1;
        let part: String = text_part(chars.as_slice(), start, end);
        let mut inner: usize = byte_offset_at_display_column(part.as_str(), column);
        let length: usize = byte_len(part.as_str());
        let continued: bool = target + 1 < rows.len() && rows[target + 1].0 == end;
        proof {
            lemma_boundary(part@, inner as int);
            lemma_ends_are_boundaries(part@);
        }
        if inner == length && continued {
            inner = previous_grapheme(part.as_str(), length);
        }
        let base: usize = crate::composer::byte_offset(chars.as_slice(), start);
        proof {
            lemma_boundary(part@, inner as int);
            let k = char_index(part@, inner as int);
            assert(part@.take(k) =~= text@.subrange(start as int, start + k));
            lemma_offset_grows(text@, start as int, start + k);
            lemma_char_index(text@, start + k);
            lemma_boundary(text@, offset(text@, start + k) as int);
            lemma_floor_boundary(text@, base + inner);
        }
        self.input.set_cursor(base + inner);
        true
    }

    /// Inserts text at the cursor.
    pub fn insert_text(&mut self, text: &str)
        ensures
            final(self)@ == old(self)@.insert(text@),
    {
        self.input.insert_verbatim(text);
    }

    /// The text and the cursor.
    pub fn into_parts(self) -> (parts: (String, usize))
        ensures
            parts.0@ == self@.text,
            parts.1 == self@.cursor(),
            is_boundary(parts.0@, parts.1 as int),
            char_index(parts.0@, parts.1 as int) == self@.at,
    {
        self.input.into_parts()
    }

    /// Puts the cursor behind the text.
    pub fn move_to_end(&mut self)
        ensures
            final(self)@ == old(self)@.at_end(),
    {
        let end: usize = byte_len(self.input.text());
        proof {
            let text = self@.text;
            lemma_ends_are_boundaries(text);
            lemma_floor_boundary(text, end as int);
        }
        self.input.set_cursor(end);
    }

    /// The number of rows that the text takes.
    pub fn visual_row_count(&self, width: u16) -> (count: usize)
        ensures
            count == text_rows(self@.text, 0, text_columns(width as int)).len(),
            count > 0,
    {
        rows_of(self.input.text(), columns_for_text(width)).len()
    }

    /// The boundary at a column of a row, as a byte offset.
    pub fn cursor_at_rendered_row(&self, width: u16, row: usize, column: usize) -> (at: Option<
        usize,
    >)
        ensures
            ({
                let rows = text_rows(self@.text, 0, text_columns(width as int));
                match at {
                    None => row >= rows.len(),
                    Some(at) => {
                        &&& row < rows.len()
                        &&& at == offset(self@.text, rows[row as int].0 as int)
                            + offset_at_display_column(
                            self@.text.subrange(
                                rows[row as int].0 as int,
                                rows[row as int].1 as int,
                            ),
                            column as int,
                        )
                        &&& is_boundary(self@.text, at as int)
                    },
                }
            }),
    {
        let text = self.input.text();
        let rows = rows_of(text, columns_for_text(width));
        if row >= rows.len() {
            return None;
        }
        let chars: Vec<char> = chars_of(text);
        let total: usize = byte_len(text);
        let start: usize = rows[row].0;
        let end: usize = rows[row].1;
        let part: String = text_part(chars.as_slice(), start, end);
        let inner: usize = byte_offset_at_display_column(part.as_str(), column);
        let base: usize = crate::composer::byte_offset(chars.as_slice(), start);
        proof {
            lemma_boundary(part@, inner as int);
            let k = char_index(part@, inner as int);
            assert(part@.take(k) =~= text@.subrange(start as int, start + k));
            lemma_offset_grows(text@, start as int, start + k);
            lemma_char_index(text@, start + k);
            lemma_boundary(text@, offset(text@, start + k) as int);
        }
        Some(base + inner)
    }

    /// The scrolled view of the editor. The window follows the cursor; an empty
    /// editor shows its placeholder, if it has one.
    pub fn render_scrolled(
        &self,
        tokens: &[CodeToken],
        width: u16,
        capacity: usize,
        placeholder: Option<Line>,
    ) -> (layout: ScrollViewLayout)
        ensures
            ({
                let rows = text_rows(self@.text, 0, text_columns(width as int));
                let state = following(rows.len() as int, row_at(rows, self@.at), capacity as int);
                let widget = ScrollViewWidget::of(capacity as int);
                &&& line_views(layout.lines@) == widget.lines_spec(
                    state,
                    if self@.text.len() == 0 && placeholder is Some && capacity > 0 {
                        seq![placeholder->0@]
                    } else {
                        editor_rows(
                            self@,
                            tokens@,
                            rows,
                            state.offset as int,
                            state.visible_end_spec(capacity as int),
                        )
                    },
                )
                &&& layout.hits@ == widget.hits_spec(state)
                &&& layout.metrics == ScrollViewMetrics::of(rows.len() as int, capacity as int)
            }),
    {
        let text = self.input.text();
        let rows = rows_of(text, columns_for_text(width));
        let chars: Vec<char> = chars_of(text);
        let cursor: usize = self.input.cursor();
        let at: usize = chars_of(split_text(text, cursor).0).len();
        let cursor_row: usize = find_row(rows.as_slice(), at);
        let total: usize = rows.len();
        let state = ScrollViewState {
            offset: (cursor_row + 1).saturating_sub(capacity),
            content_rows: total,
        };
        let widget = ScrollViewWidget::new(capacity);
        let mut lines: Vec<Line> = Vec::new();
        if text.is_empty() && capacity > 0 {
            if let Some(placeholder) = placeholder {
                push_line(&mut lines, placeholder);
                proof {
                    assert(line_views(lines@) =~= seq![placeholder@]);
                }
                return widget.render(&state, lines);
            }
        }
        let next: usize = next_grapheme(text, cursor);
        let next_at: usize = chars_of(split_text(text, next).0).len();
        proof {
            lemma_boundary(text@, next as int);
        }
        let range = state.visible_range(capacity);
        let ghost all = editor_rows(self@, tokens@, rows@, range.0 as int, range.1 as int);
        let mut i: usize = range.0;
        while i < range.1
            invariant
                range.0 <= i <= range.1 <= rows@.len(),
                chars@ == text@,
                text@ == self@.text,
                at == self@.at,
                next_at == next_grapheme_index(self@.text, self@.at),
                cursor_row == row_at(rows@, self@.at),
                rows_within(rows@, text@.len() as int),
                all == editor_rows(self@, tokens@, rows@, range.0 as int, range.1 as int),
                all.len() == range.1 - range.0,
                line_views(lines@) == all.take(i - range.0),
            decreases range.1 - i,
        {
            let row: (usize, usize) = rows[i];
            let here: bool = i == cursor_row;
            let on_text: bool = here && at < row.1;
            let spans = highlighted_spans(
                chars.as_slice(),
                tokens,
                row.0,
                row.1,
                Style::plain(),
                if on_text {
                    at
                } else {
                    row.1
                },
                if on_text {
                    next_at
                } else {
                    row.1
                },
                Style::of(Role::SearchCursor),
            );
            let mut shown = Line::new();
            shown.push_str("  ", Style::plain());
            shown.append(Line { spans, base: Style::plain() });
            proof {
                assert(shown@.spans =~= seq![span("  "@, Style::plain())]
                    + crate::style::span_views(spans@));
            }
            if here && !on_text {
                shown.push_str(" ", Style::of(Role::SearchCursor));
            }
            proof {
                assert(all[i - range.0] == editor_row(self@, tokens@, row, here));
            }
            push_line(&mut lines, shown);
            i += 1;
            proof {
                assert(line_views(lines@) =~= all.take(i - range.0));
            }
        }
        proof {
            assert(all.take(i - range.0) =~= all);
        }
        widget.render(&state, lines)
    }
}

} // verus!
