//! A small, reusable single-line editor for anchored inputs such as menu
//! filters.

use vstd::prelude::*;
use vstd::string::*;
use crate::composer::{
    next_grapheme, next_grapheme_index, next_word_boundary, next_word_index, normalize_cursor,
    normalized_cursor, previous_grapheme, previous_grapheme_index, previous_word_boundary,
    previous_word_index,
};
use crate::input_syntax::{highlighted_spans, input_cells, runs, CodeToken};
use crate::key::{KeyCode, KeyEvent};
use crate::menu::less;
use crate::style::{capped, line, span, spans_width, Line, LineView, Style};
use crate::text::{
    byte_len, char_index, chars_of, is_boundary, lemma_boundary, lemma_boundary_order,
    lemma_char_index, lemma_ends_are_boundaries, lemma_offset_grows, offset, slice_of, slice_text,
    split_text, string_of, utf8_len,
};
use crate::unicode::{
    display_width, grapheme_clusters, graphemes, joined, lemma_joined_offset, lemma_joined_push,
    text_width, views,
};

verus! {

/// An editor of one line: its text, and a cursor between two characters.
#[derive(Debug)]
pub struct SingleLineInput {
    value: String,
    cursor: usize,
    syntax_language: Option<String>,
}

/// The content of a [`SingleLineInput`]. The cursor stands before the character
/// with index `at`.
#[verifier::ext_equal]
pub struct InputView {
    pub text: Seq<char>,
    pub at: int,
    pub language: Option<Seq<char>>,
}

impl View for SingleLineInput {
    type V = InputView;

    closed spec fn view(&self) -> InputView {
        InputView {
            text: self.value@,
            at: char_index(self.value@, self.cursor as int),
            language: match self.syntax_language {
                None => None,
                Some(language) => Some(language@),
            },
        }
    }
}

impl InputView {
    /// A text with the cursor at, or else before, a byte offset.
    pub open spec fn of(text: Seq<char>, cursor: int) -> InputView {
        InputView { text, at: char_index(text, normalized_cursor(text, cursor)), language: None }
    }

    /// The same text with the cursor behind it.
    pub open spec fn at_end(self) -> InputView {
        InputView { at: self.text.len() as int, ..self }
    }

    /// The cursor as a byte offset.
    pub open spec fn cursor(self) -> nat {
        offset(self.text, self.at)
    }

    /// `text` in place of the cursor, which then stands behind it.
    pub open spec fn insert(self, text: Seq<char>) -> InputView {
        InputView {
            text: self.text.take(self.at) + text + self.text.skip(self.at),
            at: self.at + text.len(),
            ..self
        }
    }

    /// Without the characters from `start` to the cursor.
    pub open spec fn delete_back_to(self, start: int) -> InputView {
        InputView { text: self.text.take(start) + self.text.skip(self.at), at: start, ..self }
    }

    /// Without the characters from the cursor to `end`.
    pub open spec fn delete_up_to(self, end: int) -> InputView {
        InputView { text: self.text.take(self.at) + self.text.skip(end), ..self }
    }

    pub open spec fn move_to(self, at: int) -> InputView {
        InputView { at, ..self }
    }

    /// Without the word or the grapheme cluster before the cursor.
    pub open spec fn delete_previous(self, word: bool) -> InputView {
        self.delete_back_to(
            if word {
                previous_word_index(self.text, self.at)
            } else {
                previous_grapheme_index(self.text, self.at)
            },
        )
    }

    /// What a key makes of the input; `None` for a key that it leaves alone.
    pub open spec fn edited(self, key: KeyEvent) -> Option<InputView> {
        let ctrl = key.modifiers.control && !key.modifiers.shift;
        match key.code {
            KeyCode::Char(c) => if ctrl && (c == 'a' || c == 'A') {
                Some(self.move_to(0))
            } else if ctrl && (c == 'e' || c == 'E') {
                Some(self.move_to(self.text.len() as int))
            } else if ctrl && (c == 'w' || c == 'W') {
                Some(self.delete_previous(true))
            } else if key.modifiers.at_most_shift() {
                Some(self.insert(seq![c]))
            } else {
                None
            },
            KeyCode::Backspace => Some(self.delete_previous(key.modifiers.by_words())),
            KeyCode::Delete => Some(self.delete_up_to(next_grapheme_index(self.text, self.at))),
            KeyCode::Left => Some(
                self.move_to(
                    if key.modifiers.by_words() {
                        previous_word_index(self.text, self.at)
                    } else {
                        previous_grapheme_index(self.text, self.at)
                    },
                ),
            ),
            KeyCode::Right => Some(
                self.move_to(
                    if key.modifiers.by_words() {
                        next_word_index(self.text, self.at)
                    } else {
                        next_grapheme_index(self.text, self.at)
                    },
                ),
            ),
            _ => None,
        }
    }
}

impl Clone for SingleLineInput {
    fn clone(&self) -> (copy: Self)
        ensures
            copy@ == self@,
    {
        proof {
            use_type_invariant(self);
        }
        let syntax_language = match &self.syntax_language {
            None => None,
            Some(language) => Some(language.clone()),
        };
        SingleLineInput { value: self.value.clone(), cursor: self.cursor, syntax_language }
    }
}

/// `text` on one line: each line ending becomes a space.
pub open spec fn on_one_line(text: Seq<char>) -> Seq<char>
    decreases text.len(),
{
    if text.len() == 0 {
        Seq::empty()
    } else if text[0] == '\r' && text.len() > 1 && text[1] == '\n' {
        seq![' '] + on_one_line(text.skip(2))
    } else if text[0] == '\r' || text[0] == '\n' {
        seq![' '] + on_one_line(text.skip(1))
    } else {
        seq![text[0]] + on_one_line(text.skip(1))
    }
}

/// Whether `text` holds no line ending.
pub open spec fn is_one_line(text: Seq<char>) -> bool {
    forall|i: int| 0 <= i < text.len() ==> #[trigger] text[i] != '\n' && text[i] != '\r'
}

/// A pasted text keeps to one line.
pub proof fn lemma_on_one_line(text: Seq<char>)
    ensures
        is_one_line(on_one_line(text)),
        is_one_line(text) ==> on_one_line(text) == text,
        on_one_line(text).len() <= text.len(),
    decreases text.len(),
{
    if text.len() == 0 {
        assert(on_one_line(text) =~= text);
    } else if text[0] == '\r' && text.len() > 1 && text[1] == '\n' {
        lemma_on_one_line(text.skip(2));
    } else {
        lemma_on_one_line(text.skip(1));
        if is_one_line(text) {
            assert(is_one_line(text.skip(1)));
            assert(seq![text[0]] + text.skip(1) =~= text);
        }
    }
}

/// How many clusters from the left end at or before the byte offset `cursor`.
pub open spec fn clusters_until(parts: Seq<Seq<char>>, cursor: int) -> int
    decreases parts.len(),
{
    if parts.len() == 0 || utf8_len(parts[0]) > cursor {
        0
    } else {
        1 + clusters_until(parts.drop_first(), cursor - utf8_len(parts[0]))
    }
}

/// The first of the clusters before the one with index `count` that fit into `room`
/// columns.
pub open spec fn window_start(parts: Seq<Seq<char>>, count: int, room: int) -> int
    decreases count,
{
    if count > 0 && display_width(parts[count - 1]) <= room {
        window_start(parts, count - 1, room - display_width(parts[count - 1]))
    } else {
        count
    }
}

/// How many clusters fit into `width` columns of which `used` are taken; the
/// first cluster that takes any always fits.
pub open spec fn clusters_fitting(parts: Seq<Seq<char>>, used: int, width: int) -> int
    decreases parts.len(),
{
    if parts.len() == 0 {
        0
    } else {
        let next = capped(used + display_width(parts[0]));
        if used > 0 && next > width {
            0
        } else {
            1 + clusters_fitting(parts.drop_first(), next, width)
        }
    }
}

/// How many clusters end at or before the given column, from column `used` on.
pub open spec fn clusters_left_of(parts: Seq<Seq<char>>, used: int, column: int) -> int
    decreases parts.len(),
{
    if parts.len() == 0 {
        0
    } else {
        let next = capped(used + display_width(parts[0]));
        if column < next {
            0
        } else {
            1 + clusters_left_of(parts.drop_first(), next, column)
        }
    }
}

/// How many clusters end at or before the column `limit`, from column `column` on.
pub open spec fn clusters_before(parts: Seq<Seq<char>>, column: int, limit: int) -> int
    decreases parts.len(),
{
    if parts.len() == 0 {
        0
    } else {
        let next = capped(column + display_width(parts[0]));
        if next > limit {
            0
        } else {
            1 + clusters_before(parts.drop_first(), next, limit)
        }
    }
}

/// The columns that the cursor takes: those of the cluster that it stands on, or one at
/// the end of the text.
pub open spec fn cursor_columns(parts: Seq<Seq<char>>, count: int) -> int {
    if count < parts.len() { display_width(parts[count]) as int } else { 1 }
}

/// Whether a window of `width` columns that starts with the cluster `first` shows a
/// cursor behind `count` clusters: the cluster that it stands on, or a column for it at
/// the end of the text.
pub open spec fn shows_cursor(parts: Seq<Seq<char>>, count: int, first: int, width: int) -> bool {
    let last = first + clusters_fitting(parts.skip(first), 0, width);
    first <= count && if count < parts.len() {
        count < last
    } else {
        last == parts.len() && widths(parts.skip(first)) < width
    }
}

/// The first cluster of the window: the one that reaches past the columns that do not fit
/// before the cursor. Where wide clusters would push the cursor out, the window starts
/// with the first cluster from which on everything up to the cursor fits.
pub open spec fn first_shown(text: Seq<char>, at: int, width: int) -> int {
    let parts = grapheme_clusters(text);
    let count = clusters_until(parts, offset(text, at) as int);
    let first = clusters_before(parts, 0, less(display_width(text.take(at)) as int, width - 1));
    if shows_cursor(parts, count, first, width) {
        first
    } else {
        window_start(parts, count, width - cursor_columns(parts, count))
    }
}

/// The window of clusters that is shown in `width` columns, as a range of
/// indices of clusters.
pub open spec fn window(text: Seq<char>, at: int, width: int) -> (int, int) {
    let first = first_shown(text, at, width);
    (first, first + clusters_fitting(grapheme_clusters(text).skip(first), 0, width))
}

/// The window as byte offsets.
pub open spec fn bounded_range(text: Seq<char>, at: int, width: int) -> (int, int) {
    let parts = grapheme_clusters(text);
    if width == 0 {
        (offset(text, at) as int, offset(text, at) as int)
    } else {
        (
            utf8_len(joined(parts.take(window(text, at, width).0))) as int,
            utf8_len(joined(parts.take(window(text, at, width).1))) as int,
        )
    }
}

/// The byte offset of the cluster at a display column, or the end.
pub open spec fn offset_at_display_column(text: Seq<char>, column: int) -> nat {
    utf8_len(joined(grapheme_clusters(text).take(clusters_left_of(grapheme_clusters(text), 0, column))))
}

pub proof fn lemma_clusters_until(parts: Seq<Seq<char>>, cursor: int)
    ensures
        0 <= clusters_until(parts, cursor) <= parts.len(),
    decreases parts.len(),
{
    if parts.len() > 0 && utf8_len(parts[0]) <= cursor {
        lemma_clusters_until(parts.drop_first(), cursor - utf8_len(parts[0]));
    }
}

pub proof fn lemma_clusters_before(parts: Seq<Seq<char>>, column: int, limit: int)
    ensures
        0 <= clusters_before(parts, column, limit) <= parts.len(),
    decreases parts.len(),
{
    if parts.len() > 0 {
        lemma_clusters_before(
            parts.drop_first(),
            capped(column + display_width(parts[0])),
            limit,
        );
    }
}

/// The clusters of the window before the cursor fit, and one more would not.
pub proof fn lemma_window_start(parts: Seq<Seq<char>>, count: int, room: int)
    requires
        0 <= count <= parts.len(),
    ensures
        ({
            let first = window_start(parts, count, room);
            &&& 0 <= first <= count
            &&& first < count ==> widths(parts.subrange(first, count)) <= room
            &&& first > 0 ==> widths(parts.subrange(first - 1, count)) > room
        }),
    decreases count,
{
    let first = window_start(parts, count, room);
    if count > 0 && display_width(parts[count - 1]) <= room {
        let last = seq![parts[count - 1]];
        lemma_window_start(parts, count - 1, room - display_width(parts[count - 1]));
        assert(last.drop_first() =~= Seq::empty());
        assert(widths(last) == display_width(parts[count - 1])) by {
            reveal_with_fuel(widths, 2);
        }
        let before = parts.subrange(first, count - 1);
        assert(parts.subrange(first, count) =~= before + last);
        lemma_widths_concat(before, last);
        if first == count - 1 {
            assert(before =~= Seq::empty());
        }
        if first > 0 {
            assert(parts.subrange(first - 1, count) =~= parts.subrange(first - 1, count - 1)
                + last);
            lemma_widths_concat(parts.subrange(first - 1, count - 1), last);
        }
    } else if count > 0 {
        let last = parts.subrange(count - 1, count);
        assert(last =~= seq![parts[count - 1]]);
        assert(last.drop_first() =~= Seq::empty());
        assert(widths(last) == display_width(parts[count - 1])) by {
            reveal_with_fuel(widths, 2);
        }
    }
}

pub proof fn lemma_clusters_fitting(parts: Seq<Seq<char>>, used: int, width: int)
    ensures
        0 <= clusters_fitting(parts, used, width) <= parts.len(),
    decreases parts.len(),
{
    if parts.len() > 0 {
        lemma_clusters_fitting(parts.drop_first(), capped(used + display_width(parts[0])), width);
    }
}

pub proof fn lemma_clusters_left_of(parts: Seq<Seq<char>>, used: int, column: int)
    ensures
        0 <= clusters_left_of(parts, used, column) <= parts.len(),
    decreases parts.len(),
{
    if parts.len() > 0 {
        lemma_clusters_left_of(parts.drop_first(), capped(used + display_width(parts[0])), column);
    }
}

/// The boundary of the cluster that covers a display column.
pub fn byte_offset_at_display_column(text: &str, column: usize) -> (at: usize)
    ensures
        at == offset_at_display_column(text@, column as int),
        is_boundary(text@, at as int),
{
    let parts = graphemes(text);
    let len: usize = byte_len(text);
    let mut used: usize = 0;
    let mut at: usize = 0;
    let mut i: usize = 0;
    let ghost clusters = views(parts@);
    proof {
        assert(clusters.skip(0) =~= clusters);
        assert(clusters.take(0) =~= Seq::empty());
        lemma_clusters_left_of(clusters, 0, column as int);
    }
    while i < parts.len()
        invariant
            i <= parts@.len(),
            clusters == views(parts@),
            clusters == grapheme_clusters(text@),
            joined(clusters) == text@,
            utf8_len(text@) <= usize::MAX,
            at == utf8_len(joined(clusters.take(i as int))),
            clusters_left_of(clusters, 0, column as int) == i + clusters_left_of(
                clusters.skip(i as int),
                used as int,
                column as int,
            ),
        decreases parts@.len() - i,
    {
        let part = parts[i].as_str();
        let next: usize = used.saturating_add(text_width(part));
        proof {
            assert(clusters[i as int] == part@);
            lemma_joined_offset(clusters, i as int);
            lemma_joined_offset(clusters, i + 1);
            assert(clusters.take(i + 1) =~= clusters.take(i as int).push(part@));
            lemma_joined_push(clusters.take(i as int), part@);
            crate::text::lemma_encode_concat(joined(clusters.take(i as int)), part@);
            assert(clusters.skip(i as int).drop_first() =~= clusters.skip(i + 1));
        }
        if column < next {
            return at;
        }
        used = next;
        at = at + byte_len(part);
        i += 1;
    }
    proof {
        lemma_joined_offset(clusters, i as int);
    }
    at
}

/// How many clusters end at or before a byte offset.
fn count_until(parts: &Vec<String>, cursor: usize) -> (count: usize)
    requires
        utf8_len(joined(views(parts@))) <= usize::MAX,
    ensures
        count == clusters_until(views(parts@), cursor as int),
        count <= parts@.len(),
        utf8_len(joined(views(parts@).take(count as int))) <= cursor,
        count < parts@.len() ==> cursor < utf8_len(joined(views(parts@).take(count + 1))),
{
    let ghost clusters = views(parts@);
    let mut reached: usize = 0;
    let mut i: usize = 0;
    proof {
        assert(clusters.skip(0) =~= clusters);
        assert(clusters.take(0) =~= Seq::empty());
        lemma_clusters_until(clusters, cursor as int);
    }
    while i < parts.len()
        invariant
            i <= parts@.len(),
            clusters == views(parts@),
            utf8_len(joined(clusters)) <= usize::MAX,
            reached == utf8_len(joined(clusters.take(i as int))),
            reached <= cursor,
            clusters_until(clusters, cursor as int) == i + clusters_until(
                clusters.skip(i as int),
                cursor - reached,
            ),
        decreases parts@.len() - i,
    {
        let part = parts[i].as_str();
        let part_len: usize = byte_len(part);
        proof {
            assert(clusters[i as int] == part@);
            assert(clusters.skip(i as int)[0] == part@);
            lemma_joined_offset(clusters, i + 1);
            assert(clusters.take(i + 1) =~= clusters.take(i as int).push(part@));
            lemma_joined_push(clusters.take(i as int), part@);
            crate::text::lemma_encode_concat(joined(clusters.take(i as int)), part@);
            assert(clusters.skip(i as int).drop_first() =~= clusters.skip(i + 1));
        }
        if part_len > cursor - reached {
            return i;
        }
        reached = reached + part_len;
        i += 1;
    }
    i
}

/// How many clusters end at or before a column.
fn count_before(parts: &Vec<String>, limit: usize) -> (count: usize)
    ensures
        count == clusters_before(views(parts@), 0, limit as int),
        count <= parts@.len(),
{
    let ghost clusters = views(parts@);
    let mut column: usize = 0;
    let mut i: usize = 0;
    proof {
        assert(clusters.skip(0) =~= clusters);
    }
    while i < parts.len()
        invariant
            i <= parts@.len(),
            clusters == views(parts@),
            clusters_before(clusters, 0, limit as int) == i + clusters_before(
                clusters.skip(i as int),
                column as int,
                limit as int,
            ),
        decreases parts@.len() - i,
    {
        let next: usize = column.saturating_add(text_width(parts[i].as_str()));
        proof {
            assert(clusters.skip(i as int)[0] == clusters[i as int]);
            assert(clusters.skip(i as int).drop_first() =~= clusters.skip(i + 1));
        }
        if next > limit {
            return i;
        }
        column = next;
        i += 1;
    }
    i
}

/// How many clusters from the cluster `first` on fit into `width` columns.
fn count_fitting(parts: &Vec<String>, first: usize, width: usize) -> (count: usize)
    requires
        first <= parts@.len(),
    ensures
        count == clusters_fitting(views(parts@).skip(first as int), 0, width as int),
        first + count <= parts@.len(),
{
    let ghost clusters = views(parts@);
    let ghost all = clusters_fitting(clusters.skip(first as int), 0, width as int);
    let mut used: usize = 0;
    let mut i: usize = first;
    while i < parts.len()
        invariant
            first <= i <= parts@.len(),
            clusters == views(parts@),
            all == clusters_fitting(clusters.skip(first as int), 0, width as int),
            all == i - first + clusters_fitting(
                clusters.skip(i as int),
                used as int,
                width as int,
            ),
        decreases parts@.len() - i,
    {
        let next: usize = used.saturating_add(text_width(parts[i].as_str()));
        proof {
            assert(clusters.skip(i as int)[0] == clusters[i as int]);
            assert(clusters.skip(i as int).drop_first() =~= clusters.skip(i + 1));
        }
        if used > 0 && next > width {
            return i - first;
        }
        used = next;
        i += 1;
    }
    i - first
}

/// The columns of the clusters from the cluster `first` on, as far as they can be counted.
fn columns_from(parts: &Vec<String>, first: usize) -> (columns: usize)
    requires
        first <= parts@.len(),
    ensures
        columns == capped(widths(views(parts@).skip(first as int)) as int),
{
    let ghost clusters = views(parts@);
    let ghost all = widths(clusters.skip(first as int));
    let ghost mut sum: int = 0;
    let mut columns: usize = 0;
    let mut i: usize = first;
    while i < parts.len()
        invariant
            first <= i <= parts@.len(),
            clusters == views(parts@),
            columns == capped(sum),
            0 <= sum,
            all == sum + widths(clusters.skip(i as int)),
        decreases parts@.len() - i,
    {
        columns = columns.saturating_add(text_width(parts[i].as_str()));
        proof {
            assert(clusters.skip(i as int)[0] == clusters[i as int]);
            assert(clusters.skip(i as int).drop_first() =~= clusters.skip(i + 1));
            sum = sum + display_width(clusters[i as int]);
        }
        i += 1;
    }
    columns
}

/// The first cluster from which on everything up to a cursor behind `count` clusters fits.
fn count_back(parts: &Vec<String>, count: usize, width: usize) -> (first: usize)
    requires
        count <= parts@.len(),
    ensures
        ({
            let clusters = views(parts@);
            first == window_start(
                clusters,
                count as int,
                width - cursor_columns(clusters, count as int),
            )
        }),
        first <= count,
{
    let ghost clusters = views(parts@);
    let reserved: usize = if count < parts.len() {
        text_width(parts[count].as_str())
    } else {
        1
    };
    if reserved > width {
        return count;
    }
    let mut room: usize = width - reserved;
    let ghost first = window_start(clusters, count as int, room as int);
    let mut i: usize = count;
    while i > 0
        invariant
            i <= count <= parts@.len(),
            clusters == views(parts@),
            first == window_start(
                clusters,
                count as int,
                width - cursor_columns(clusters, count as int),
            ),
            first == window_start(clusters, i as int, room as int),
        decreases i,
    {
        let part_width: usize = text_width(parts[i - 1].as_str());
        if part_width > room {
            return i;
        }
        room = room - part_width;
        i = i - 1;
    }
    i
}

/// The bytes of the first `count` clusters.
fn bytes_before(parts: &Vec<String>, count: usize) -> (bytes: usize)
    requires
        count <= parts@.len(),
        utf8_len(joined(views(parts@))) <= usize::MAX,
    ensures
        bytes == utf8_len(joined(views(parts@).take(count as int))),
{
    let ghost clusters = views(parts@);
    let mut bytes: usize = 0;
    let mut i: usize = 0;
    proof {
        assert(clusters.take(0) =~= Seq::empty());
    }
    while i < count
        invariant
            i <= count <= parts@.len(),
            clusters == views(parts@),
            utf8_len(joined(clusters)) <= usize::MAX,
            bytes == utf8_len(joined(clusters.take(i as int))),
        decreases count - i,
    {
        let part = parts[i].as_str();
        proof {
            assert(clusters[i as int] == part@);
            lemma_joined_offset(clusters, i + 1);
            assert(clusters.take(i + 1) =~= clusters.take(i as int).push(part@));
            lemma_joined_push(clusters.take(i as int), part@);
            crate::text::lemma_encode_concat(joined(clusters.take(i as int)), part@);
        }
        bytes = bytes + byte_len(part);
        i += 1;
    }
    bytes
}

/// The rendering of an input: a window that follows the cursor, with the cursor
/// on the cluster behind it, or on a space at the end of the text.
pub open spec fn rendered(
    input: InputView,
    tokens: Seq<CodeToken>,
    width: int,
    text_style: Style,
    cursor_style: Style,
) -> LineView {
    let range = bounded_range(input.text, input.at, width);
    let start = char_index(input.text, range.0);
    let end = char_index(input.text, range.1);
    let on_text = input.cursor() < range.1;
    let spans = runs(
        input_cells(
            input.text,
            tokens,
            start,
            end,
            text_style,
            if on_text { input.at } else { end },
            if on_text { next_grapheme_index(input.text, input.at) } else { end },
            cursor_style,
        ),
    );
    if width == 0 {
        line(Seq::empty())
    } else if input.at == input.text.len() && capped(spans_width(spans) as int) < width {
        line(spans.push(span(" "@, cursor_style)))
    } else {
        line(spans)
    }
}

/// The rendering of an empty input: its placeholder, with the cursor on the
/// first character.
pub open spec fn rendered_placeholder(
    placeholder: Seq<char>,
    width: int,
    placeholder_style: Style,
    cursor_style: Style,
) -> LineView {
    let shown = placeholder.take(
        char_index(placeholder, offset_at_display_column(placeholder, width) as int),
    );
    let first = if shown.len() > 0 { 1 } else { 0 };
    line(seq![span(shown.take(first), cursor_style), span(shown.skip(first), placeholder_style)])
}

impl SingleLineInput {
    /// The cursor stands on a character boundary.
    #[verifier::type_invariant]
    spec fn cursor_on_boundary(&self) -> bool {
        is_boundary(self.value@, self.cursor as int)
    }

    /// An input that holds `value`.
    pub fn new(value: String, cursor: usize) -> (input: Self)
        ensures
            input@ == InputView::of(value@, cursor as int),
    {
        let cursor: usize = normalize_cursor(value.as_str(), cursor);
        SingleLineInput { value, cursor, syntax_language: None }
    }

    /// The same input, highlighted as source code.
    pub fn with_syntax_language(self, language: String) -> (input: Self)
        ensures
            input@ == (InputView { language: Some(language@), ..self@ }),
    {
        proof {
            use_type_invariant(&self);
        }
        SingleLineInput {
            value: self.value,
            cursor: self.cursor,
            syntax_language: Some(language),
        }
    }

    /// The text of the input.
    pub fn text(&self) -> (text: &str)
        ensures
            text@ == self@.text,
    {
        self.value.as_str()
    }

    /// The cursor as a byte offset.
    pub fn cursor(&self) -> (cursor: usize)
        ensures
            cursor == self@.cursor(),
            0 <= self@.at <= self@.text.len(),
            is_boundary(self@.text, cursor as int),
            char_index(self@.text, cursor as int) == self@.at,
    {
        proof {
            use_type_invariant(self);
            lemma_boundary(self.value@, self.cursor as int);
        }
        self.cursor
    }

    /// Moves the cursor to, or else before, a byte offset.
    pub fn set_cursor(&mut self, cursor: usize)
        ensures
            final(self)@ == (InputView {
                language: old(self)@.language,
                ..InputView::of(old(self)@.text, cursor as int)
            }),
    {
        self.cursor = normalize_cursor(self.value.as_str(), cursor);
    }

    /// Replaces the part between two boundaries by `text` and puts the cursor
    /// behind it.
    fn splice(&mut self, start: usize, end: usize, text: &str)
        requires
            is_boundary(old(self).value@, start as int),
            is_boundary(old(self).value@, end as int),
            start <= end,
        ensures
            final(self)@.language == old(self)@.language,
            final(self)@.text == old(self).value@.take(char_index(old(self).value@, start as int))
                + text@ + old(self).value@.skip(char_index(old(self).value@, end as int)),
            final(self)@.at == char_index(old(self).value@, start as int) + text@.len(),
    {
        let ghost before = self.value@;
        let ghost a = char_index(before, start as int);
        let ghost b = char_index(before, end as int);
        let mut value: String = split_text(self.value.as_str(), start).0.to_owned();
        value.append(text);
        let cursor: usize = byte_len(value.as_str());
        let ghost head = value@;
        value.append(split_text(self.value.as_str(), end).1);
        proof {
            lemma_boundary_order(before, start as int, end as int);
            assert(value@.take(head.len() as int) =~= head);
            lemma_char_index(value@, head.len() as int);
        }
        let syntax_language = match &self.syntax_language {
            None => None,
            Some(language) => Some(language.clone()),
        };
        *self = SingleLineInput { value, cursor, syntax_language };
    }

    /// Inserts text at the cursor as it is, line endings and all.
    pub fn insert_verbatim(&mut self, text: &str)
        ensures
            final(self)@ == old(self)@.insert(text@),
    {
        proof {
            use_type_invariant(&*self);
            lemma_boundary(self.value@, self.cursor as int);
        }
        let cursor: usize = self.cursor;
        self.splice(cursor, cursor, text);
        proof {
            assert(self@.text =~= old(self)@.insert(text@).text);
        }
    }

    /// Inserts pasted text while preserving this editor's one-line invariant.
    pub fn insert_text(&mut self, text: &str)
        ensures
            final(self)@ == old(self)@.insert(on_one_line(text@)),
            is_one_line(old(self)@.text) ==> is_one_line(final(self)@.text),
    {
        proof {
            use_type_invariant(&*self);
            lemma_on_one_line(text@);
        }
        let chars: Vec<char> = chars_of(text);
        let mut normalized: String = String::new();
        let mut i: usize = 0;
        proof {
            assert(text@.skip(0) =~= text@);
        }
        while i < chars.len()
            invariant
                i <= chars@.len(),
                chars@ == text@,
                on_one_line(text@) == normalized@ + on_one_line(text@.skip(i as int)),
            decreases chars@.len() - i,
        {
            let c: char = chars[i];
            proof {
                let rest = text@.skip(i as int);
                assert(rest[0] == c);
                assert(rest.skip(1) =~= text@.skip(i + 1));
                if i + 1 < chars@.len() {
                    assert(rest[1] == chars@[i + 1]);
                    assert(rest.skip(2) =~= text@.skip(i + 2));
                }
            }
            if c == '\r' {
                normalized.push(' ');
                if i + 1 < chars.len() && chars[i + 1] == '\n' {
                    i += 1;
                }
            } else if c == '\n' {
                normalized.push(' ');
            } else {
                normalized.push(c);
            }
            i += 1;
            proof {
                assert(on_one_line(text@) =~= normalized@ + on_one_line(text@.skip(i as int)));
            }
        }
        proof {
            assert(normalized@ =~= on_one_line(text@));
            lemma_boundary(self.value@, self.cursor as int);
        }
        let cursor: usize = self.cursor;
        self.splice(cursor, cursor, normalized.as_str());
    }

    /// Deletes the word or the grapheme cluster before the cursor.
    pub fn delete_previous(&mut self, word: bool)
        ensures
            final(self)@ == old(self)@.delete_previous(word),
    {
        proof {
            use_type_invariant(&*self);
        }
        let start: usize = if word {
            previous_word_boundary(self.value.as_str(), self.cursor)
        } else {
            previous_grapheme(self.value.as_str(), self.cursor)
        };
        let cursor: usize = self.cursor;
        self.splice(start, cursor, "");
        proof {
            reveal_strlit("");
            assert(self@ =~= old(self)@.delete_previous(word));
        }
    }

    /// Applies a key; the result says whether the input took it.
    pub fn handle_key(&mut self, key: KeyEvent) -> (handled: bool)
        ensures
            handled == old(self)@.edited(key) is Some,
            handled ==> final(self)@ == old(self)@.edited(key)->0,
            !handled ==> *final(self) == *old(self),
    {
        proof {
            use_type_invariant(&*self);
            lemma_ends_are_boundaries(self.value@);
            lemma_boundary(self.value@, self.cursor as int);
        }
        let control: bool = key.modifiers.control && !key.modifiers.shift;
        match key.code {
            KeyCode::Char(c) => {
                if control && (c == 'a' || c == 'A') {
                    self.cursor = 0;
                    true
                } else if control && (c == 'e' || c == 'E') {
                    self.cursor = byte_len(self.value.as_str());
                    true
                } else if control && (c == 'w' || c == 'W') {
                    self.delete_previous(true);
                    true
                } else if key.modifiers.at_most_shift() {
                    let cursor: usize = self.cursor;
                    let mut text: String = String::new();
                    text.push(c);
                    proof {
                        assert(text@ =~= seq![c]);
                    }
                    self.splice(cursor, cursor, text.as_str());
                    true
                } else {
                    false
                }
            },
            KeyCode::Backspace => {
                self.delete_previous(key.modifiers.by_words());
                true
            },
            KeyCode::Delete => {
                let cursor: usize = self.cursor;
                let end: usize = next_grapheme(self.value.as_str(), cursor);
                self.splice(cursor, end, "");
                proof {
                    reveal_strlit("");
                    assert(self@ =~= old(self)@.edited(key)->0);
                }
                true
            },
            KeyCode::Left => {
                self.cursor = if key.modifiers.by_words() {
                    previous_word_boundary(self.value.as_str(), self.cursor)
                } else {
                    previous_grapheme(self.value.as_str(), self.cursor)
                };
                true
            },
            KeyCode::Right => {
                self.cursor = if key.modifiers.by_words() {
                    next_word_boundary(self.value.as_str(), self.cursor)
                } else {
                    next_grapheme(self.value.as_str(), self.cursor)
                };
                true
            },
            _ => false,
        }
    }

    /// The text and the cursor.
    pub fn into_parts(self) -> (parts: (String, usize))
        ensures
            parts.0@ == self@.text,
            parts.1 == self@.cursor(),
            is_boundary(parts.0@, parts.1 as int),
            char_index(parts.0@, parts.1 as int) == self@.at,
    {
        proof {
            use_type_invariant(&self);
            lemma_boundary(self.value@, self.cursor as int);
        }
        (self.value, self.cursor)
    }

    /// The window of the text that is shown in `width` columns. It always contains the
    /// cursor, with the cluster that the cursor stands on.
    pub fn bounded_range(&self, width: usize) -> (range: (usize, usize))
        ensures
            range.0 <= range.1,
            range.0 == bounded_range(self@.text, self@.at, width as int).0,
            range.1 == bounded_range(self@.text, self@.at, width as int).1,
            is_boundary(self@.text, range.0 as int),
            is_boundary(self@.text, range.1 as int),
            range.0 <= self@.cursor() <= range.1 <= utf8_len(self@.text),
            width > 0 && self@.cursor() < utf8_len(self@.text) ==> self@.cursor() < range.1,
    {
        proof {
            use_type_invariant(self);
            lemma_boundary(self.value@, self.cursor as int);
        }
        if width == 0 {
            return (self.cursor, self.cursor);
        }
        let column: usize = text_width(split_text(self.value.as_str(), self.cursor).0);
        let parts = graphemes(self.value.as_str());
        let len: usize = byte_len(self.value.as_str());
        let ghost clusters = views(parts@);
        let ghost text = self.value@;
        let count: usize = count_until(&parts, self.cursor);
        let mut first: usize = count_before(&parts, column.saturating_sub(width - 1));
        let mut shown: usize = count_fitting(&parts, first, width);
        let mut kept: bool = false;
        if first <= count {
            kept =
            if count < parts.len() {
                count < first + shown
            } else {
                first + shown == parts.len() && columns_from(&parts, first) < width
            };
        }
        if !kept {
            first = count_back(&parts, count, width);
            shown = count_fitting(&parts, first, width);
        }
        proof {
            assert(first == first_shown(text, self@.at, width as int));
            law_window_contains_cursor(text, self@.at, width as int);
            let last = first + shown;
            lemma_joined_offset(clusters, first as int);
            lemma_joined_offset(clusters, last as int);
            lemma_joined_grows(clusters, first as int, count as int);
            lemma_joined_grows(clusters, count as int, last as int);
            if count < clusters.len() {
                lemma_joined_grows(clusters, count + 1, last as int);
            } else {
                assert(clusters.take(last as int) =~= clusters);
            }
        }
        let start: usize = bytes_before(&parts, first);
        let end: usize = bytes_before(&parts, first + shown);
        (start, end)
    }

    /// The source boundary represented by a column in the rendered input. A
    /// bounded input uses the same cursor-following window as the rendering.
    pub fn cursor_at_display_column(&self, column: usize, width: Option<usize>) -> (at: usize)
        ensures
            is_boundary(self@.text, at as int),
            match width {
                None => at == offset_at_display_column(self@.text, column as int),
                Some(width) => {
                    let range = bounded_range(self@.text, self@.at, width as int);
                    at == range.0 + offset_at_display_column(
                        slice_of(self@.text, range.0, range.1),
                        column as int,
                    )
                },
            },
    {
        match width {
            None => byte_offset_at_display_column(self.value.as_str(), column),
            Some(width) => {
                let range = self.bounded_range(width);
                let part = slice_text(self.value.as_str(), range.0, range.1);
                let inner: usize = byte_offset_at_display_column(part, column);
                let len: usize = byte_len(self.value.as_str());
                proof {
                    let text = self.value@;
                    lemma_boundary_order(text, range.0 as int, range.1 as int);
                    lemma_boundary(text, range.0 as int);
                    lemma_boundary(text, range.1 as int);
                    lemma_boundary(part@, inner as int);
                    let a = char_index(text, range.0 as int);
                    let k = char_index(part@, inner as int);
                    assert(part@.take(k) =~= text.subrange(a, a + k));
                    lemma_offset_grows(text, a, a + k);
                    lemma_char_index(text, a + k);
                    lemma_boundary(text, offset(text, a + k) as int);
                }
                range.0 + inner
            },
        }
    }

    /// Renders a horizontal window that always contains the cursor. `tokens`
    /// are the tokens of the text, where it is source code.
    pub fn render_bounded(
        &self,
        tokens: &[CodeToken],
        width: usize,
        text_style: Style,
        cursor_style: Style,
    ) -> (line: Line)
        ensures
            line@ == rendered(self@, tokens@, width as int, text_style, cursor_style),
    {
        if width == 0 {
            return Line::new();
        }
        let range = self.bounded_range(width);
        let cursor: usize = self.cursor();
        let text = self.value.as_str();
        let chars: Vec<char> = chars_of(text);
        proof {
            lemma_boundary_order(text@, range.0 as int, range.1 as int);
            lemma_boundary(text@, range.0 as int);
            lemma_boundary(text@, range.1 as int);
            lemma_ends_are_boundaries(text@);
        }
        let start: usize = chars_of(split_text(text, range.0).0).len();
        let end: usize = chars_of(split_text(text, range.1).0).len();
        let mut first: usize = end;
        let mut last: usize = end;
        if cursor < range.1 {
            let next: usize = next_grapheme(text, cursor);
            proof {
                lemma_boundary(text@, cursor as int);
                lemma_boundary(text@, next as int);
            }
            first = chars_of(split_text(text, cursor).0).len();
            last = chars_of(split_text(text, next).0).len();
        }
        let spans = highlighted_spans(
            chars.as_slice(),
            tokens,
            start,
            end,
            text_style,
            first,
            last,
            cursor_style,
        );
        let mut line = Line { spans, base: Style::plain() };
        let len: usize = byte_len(text);
        if cursor == len && line.width() < width {
            line.push_str(" ", cursor_style);
        }
        line
    }

    /// As `render_bounded`, with a placeholder in an empty input.
    pub fn render_bounded_with_placeholder(
        &self,
        tokens: &[CodeToken],
        width: usize,
        placeholder: &str,
        text_style: Style,
        placeholder_style: Style,
        cursor_style: Style,
    ) -> (line: Line)
        ensures
            line@ == if self@.text.len() > 0 {
                rendered(self@, tokens@, width as int, text_style, cursor_style)
            } else {
                rendered_placeholder(placeholder@, width as int, placeholder_style, cursor_style)
            },
    {
        if !self.value.as_str().is_empty() {
            return self.render_bounded(tokens, width, text_style, cursor_style);
        }
        let end: usize = byte_offset_at_display_column(placeholder, width);
        let mut first: Vec<char> = chars_of(split_text(placeholder, end).0);
        let split: usize = if first.len() > 0 {
            1
        } else {
            0
        };
        let rest: Vec<char> = first.split_off(split);
        let mut line = Line::new();
        line.push(string_of(first.as_slice()), cursor_style);
        line.push(string_of(rest.as_slice()), placeholder_style);
        proof {
            let shown = placeholder@.take(char_index(placeholder@, end as int));
            assert(rest@ =~= shown.skip(split as int));
            assert(first@ =~= shown.take(split as int));
            assert(line@.spans =~= seq![
                span(shown.take(split as int), cursor_style),
                span(shown.skip(split as int), placeholder_style),
            ]);
        }
        line
    }
}

/// The columns of some clusters, one after the other.
pub open spec fn widths(parts: Seq<Seq<char>>) -> nat
    decreases parts.len(),
{
    if parts.len() == 0 {
        0
    } else {
        (display_width(parts[0]) + widths(parts.drop_first())) as nat
    }
}

proof fn lemma_widths_concat(left: Seq<Seq<char>>, right: Seq<Seq<char>>)
    ensures
        widths(left + right) == widths(left) + widths(right),
    decreases left.len(),
{
    if left.len() == 0 {
        assert(left + right =~= right);
    } else {
        assert((left + right).drop_first() =~= left.drop_first() + right);
        lemma_widths_concat(left.drop_first(), right);
    }
}

/// Fewer clusters take no more bytes.
proof fn lemma_joined_grows(parts: Seq<Seq<char>>, low: int, high: int)
    requires
        0 <= low <= high <= parts.len(),
    ensures
        utf8_len(joined(parts.take(low))) <= utf8_len(joined(parts.take(high))),
{
    lemma_joined_offset(parts.take(high), low);
    assert(parts.take(high).take(low) =~= parts.take(low));
}

proof fn lemma_fitting_columns(parts: Seq<Seq<char>>, used: int, width: int, count: int)
    requires
        0 <= used,
        0 <= count <= parts.len(),
        used + widths(parts.take(count)) <= width <= usize::MAX,
    ensures
        clusters_fitting(parts, used, width) >= count,
    decreases parts.len(),
{
    lemma_clusters_fitting(parts, used, width);
    if count > 0 {
        let rest = parts.drop_first();
        assert(parts.take(count).drop_first() =~= rest.take(count - 1));
        lemma_fitting_columns(rest, used + display_width(parts[0]), width, count - 1);
    }
}

pub proof fn lemma_fitting_bounded(parts: Seq<Seq<char>>, used: int, width: int)
    requires
        0 <= used <= width < usize::MAX,
        forall|i: int| 0 <= i < parts.len() ==> display_width(#[trigger] parts[i]) <= width,
    ensures
        used + widths(parts.take(clusters_fitting(parts, used, width))) <= width,
    decreases parts.len(),
{
    lemma_clusters_fitting(parts, used, width);
    let count = clusters_fitting(parts, used, width);
    if count > 0 {
        let next = used + display_width(parts[0]);
        assert(parts.take(count).drop_first() =~= parts.drop_first().take(count - 1));
        lemma_fitting_bounded(parts.drop_first(), next, width);
    } else {
        assert(parts.take(0) =~= Seq::empty());
    }
}

/// The window always contains the cursor: the cluster that the cursor stands on is one
/// of those shown, unless the cursor stands at the end of the text.
pub proof fn law_window_contains_cursor(text: Seq<char>, at: int, width: int)
    requires
        0 < width <= usize::MAX,
    ensures
        ({
            let parts = grapheme_clusters(text);
            let count = clusters_until(parts, offset(text, at) as int);
            let (first, last) = window(text, at, width);
            first <= count <= last && (count < last || count == parts.len())
        }),
{
    let parts = grapheme_clusters(text);
    let count = clusters_until(parts, offset(text, at) as int);
    lemma_clusters_until(parts, offset(text, at) as int);
    let kept = clusters_before(parts, 0, less(display_width(text.take(at)) as int, width - 1));
    lemma_clusters_before(parts, 0, less(display_width(text.take(at)) as int, width - 1));
    if !shows_cursor(parts, count, kept, width) {
        lemma_shown_from_start(parts, count, width);
    }
}

/// The window starts with a cluster of the text, or at its end.
pub proof fn lemma_first_shown(text: Seq<char>, at: int, width: int)
    ensures
        0 <= first_shown(text, at, width) <= grapheme_clusters(text).len(),
{
    let parts = grapheme_clusters(text);
    let count = clusters_until(parts, offset(text, at) as int);
    lemma_clusters_until(parts, offset(text, at) as int);
    lemma_clusters_before(parts, 0, less(display_width(text.take(at)) as int, width - 1));
    lemma_window_start(parts, count, width - cursor_columns(parts, count));
}

/// The cursor is shown where everything before it from the first cluster on fits.
proof fn lemma_shown_from_start(parts: Seq<Seq<char>>, count: int, width: int)
    requires
        0 <= count <= parts.len(),
        0 < width <= usize::MAX,
    ensures
        ({
            let first = window_start(parts, count, width - cursor_columns(parts, count));
            let last = first + clusters_fitting(parts.skip(first), 0, width);
            first <= count <= last && (count < last || count == parts.len())
        }),
{
    let reserved = cursor_columns(parts, count);
    let first = window_start(parts, count, width - reserved);
    lemma_window_start(parts, count, width - reserved);
    let rest = parts.skip(first);
    lemma_clusters_fitting(rest, 0, width);
    if first < count {
        let before = parts.subrange(first, count);
        assert(rest.take(count - first) =~= before);
        if count < parts.len() {
            let on = seq![parts[count]];
            assert(rest.take(count - first + 1) =~= before + on);
            lemma_widths_concat(before, on);
            assert(on.drop_first() =~= Seq::empty());
            assert(widths(on) == display_width(parts[count])) by {
                reveal_with_fuel(widths, 2);
            }
            lemma_fitting_columns(rest, 0, width, count - first + 1);
        } else {
            lemma_fitting_columns(rest, 0, width, count - first);
        }
    } else if count < parts.len() {
        lemma_clusters_fitting(rest.drop_first(), capped(display_width(rest[0]) as int), width);
    }
}

/// The window keeps to its width, where each cluster alone does.
pub proof fn law_window_keeps_to_its_width(text: Seq<char>, at: int, width: int)
    requires
        0 < width < usize::MAX,
        forall|i: int|
            0 <= i < grapheme_clusters(text).len() ==> display_width(
                #[trigger] grapheme_clusters(text)[i],
            ) <= width,
    ensures
        ({
            let (first, last) = window(text, at, width);
            widths(grapheme_clusters(text).subrange(first, last)) <= width
        }),
{
    let parts = grapheme_clusters(text);
    let (first, last) = window(text, at, width);
    let count = clusters_until(parts, offset(text, at) as int);
    lemma_clusters_until(parts, offset(text, at) as int);
    lemma_clusters_before(parts, 0, less(display_width(text.take(at)) as int, width - 1));
    lemma_window_start(parts, count, width - cursor_columns(parts, count));
    let rest = parts.skip(first);
    lemma_fitting_bounded(rest, 0, width);
    lemma_clusters_fitting(rest, 0, width);
    assert(rest.take(last - first) =~= parts.subrange(first, last));
}

} // verus!
