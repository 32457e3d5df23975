//! Wrapped source files of which only the visible rows are rendered.

use vstd::prelude::*;
use vstd::string::*;
use crate::code_lines::{token_view, token_views, tokens_end, TokenView};
use crate::input_syntax::CodeToken;
use crate::list::{max, min};
use crate::menu::same_text;
use crate::render::{
    check_clusters, is_control, law_wrapped_rows_cover_the_text, lemma_wrap_rows_bounds, safe,
    terminal_safe, wrap_ranges, wrap_rows,
};
use crate::style::capped;
use crate::text::chars_of;
use crate::unicode::{display_width, text_width};

verus! {

/// A line of a source file.
#[derive(Debug)]
pub struct HighlightedLine {
    pub tokens: Vec<CodeToken>,
}

/// Whether a text holds a control character.
pub open spec fn has_control(text: Seq<char>) -> bool {
    exists|i: int| 0 <= i < text.len() && is_control(#[trigger] text[i])
}

pub fn file_token_needs_sanitizing(text: &str) -> (yes: bool)
    ensures
        yes == has_control(text@),
{
    let chars: Vec<char> = chars_of(text);
    let mut i: usize = 0;
    while i < chars.len()
        invariant
            i <= chars@.len(),
            chars@ == text@,
            forall|k: int| 0 <= k < i ==> !is_control(#[trigger] text@[k]),
        decreases chars@.len() - i,
    {
        let u: u32 = chars[i] as u32;
        if u <= 0x1f || (0x7f <= u && u <= 0x9f) {
            assert(is_control(text@[i as int]));
            return true;
        }
        i += 1;
    }
    false
}

/// A text with four spaces for each tab.
pub open spec fn without_tabs(text: Seq<char>) -> Seq<char>
    decreases text.len(),
{
    if text.len() == 0 {
        Seq::empty()
    } else {
        without_tabs(text.drop_last()) + if text.last() == '\t' {
            seq![' ', ' ', ' ', ' ']
        } else {
            seq![text.last()]
        }
    }
}

fn expand_tabs(text: &str) -> (expanded: String)
    ensures
        expanded@ == without_tabs(text@),
{
    let chars: Vec<char> = chars_of(text);
    let mut expanded: String = String::new();
    let mut i: usize = 0;
    while i < chars.len()
        invariant
            i <= chars@.len(),
            chars@ == text@,
            expanded@ == without_tabs(text@.take(i as int)),
        decreases chars@.len() - i,
    {
        let ghost before = expanded@;
        if chars[i] == '\t' {
            expanded.push(' ');
            expanded.push(' ');
            expanded.push(' ');
            expanded.push(' ');
        } else {
            expanded.push(chars[i]);
        }
        proof {
            assert(text@.take(i + 1).drop_last() =~= text@.take(i as int));
            assert(expanded@ =~= without_tabs(text@.take(i + 1)));
        }
        i += 1;
    }
    proof {
        assert(text@.take(i as int) =~= text@);
    }
    expanded
}

/// What is shown for a token of a file.
pub open spec fn file_text(text: Seq<char>) -> Seq<char> {
    if has_control(text) { without_tabs(safe(text)) } else { text }
}

/// The tokens of a line as they are shown.
pub open spec fn prepared(tokens: Seq<TokenView>) -> Seq<TokenView> {
    tokens.map_values(
        |token: TokenView| TokenView { kind: token.kind, text: file_text(token.text) },
    )
}

/// The text of some tokens.
pub open spec fn source_of(tokens: Seq<TokenView>) -> Seq<char>
    decreases tokens.len(),
{
    if tokens.len() == 0 {
        Seq::empty()
    } else {
        source_of(tokens.drop_last()) + tokens.last().text
    }
}

pub proof fn lemma_source_len(tokens: Seq<TokenView>, count: int)
    requires
        0 <= count <= tokens.len(),
    ensures
        tokens_end(tokens, count) == source_of(tokens.take(count)).len(),
    decreases count,
{
    if count > 0 {
        lemma_source_len(tokens, count - 1);
        assert(tokens.take(count).drop_last() =~= tokens.take(count - 1));
    }
}

/// The tokens of a line as they are shown, and the text that they make up.
pub fn prepared_file_line(line: &HighlightedLine) -> (result: (Vec<CodeToken>, String))
    ensures
        token_views(result.0@) == prepared(token_views(line.tokens@)),
        result.1@ == source_of(prepared(token_views(line.tokens@))),
        tokens_end(token_views(result.0@), result.0@.len() as int) == result.1@.len(),
        result.1@.len() <= usize::MAX,
{
    let ghost all = prepared(token_views(line.tokens@));
    let mut tokens: Vec<CodeToken> = Vec::new();
    let mut source: String = String::new();
    let mut i: usize = 0;
    proof {
        assert(all.take(0) =~= Seq::empty());
    }
    while i < line.tokens.len()
        invariant
            i <= line.tokens@.len(),
            all == prepared(token_views(line.tokens@)),
            token_views(tokens@) == all.take(i as int),
            source@ == source_of(all.take(i as int)),
        decreases line.tokens@.len() - i,
    {
        let token = &line.tokens[i];
        let text: String = if file_token_needs_sanitizing(token.text.as_str()) {
            expand_tabs(terminal_safe(token.text.as_str()).as_str())
        } else {
            token.text.as_str().to_owned()
        };
        proof {
            assert(token_views(line.tokens@)[i as int] == token_view(*token));
            assert(all[i as int].text == text@);
            assert(all.take(i + 1).drop_last() =~= all.take(i as int));
        }
        source.append(text.as_str());
        let ghost before = token_views(tokens@);
        let shown = CodeToken { kind: token.kind, text };
        tokens.push(shown);
        proof {
            assert(token_views(tokens@) =~= before.push(token_view(shown)));
            assert(token_views(tokens@) =~= all.take(i + 1));
        }
        i += 1;
    }
    proof {
        assert(all.take(i as int) =~= all);
        lemma_source_len(all, all.len() as int);
        assert(token_views(tokens@).len() == tokens@.len());
    }
    let count: usize = chars_of(source.as_str()).len();
    (tokens, source)
}

/// The text of a line as it is shown.
pub fn file_line_source(line: &HighlightedLine) -> (source: String)
    ensures
        source@ == source_of(prepared(token_views(line.tokens@))),
{
    prepared_file_line(line).1
}

/// The text of a line as it is in the file.
pub fn raw_file_line_source(line: &HighlightedLine) -> (source: String)
    ensures
        source@ == source_of(token_views(line.tokens@)),
{
    let ghost all = token_views(line.tokens@);
    let mut source: String = String::new();
    let mut i: usize = 0;
    proof {
        assert(all.take(0) =~= Seq::empty());
    }
    while i < line.tokens.len()
        invariant
            i <= line.tokens@.len(),
            all == token_views(line.tokens@),
            source@ == source_of(all.take(i as int)),
        decreases line.tokens@.len() - i,
    {
        proof {
            assert(all[i as int] == token_view(line.tokens@[i as int]));
            assert(all.take(i + 1).drop_last() =~= all.take(i as int));
        }
        source.append(line.tokens[i].text.as_str());
        i += 1;
    }
    proof {
        assert(all.take(i as int) =~= all);
    }
    source
}

/// The rows of a line of a file, as ranges of characters.
pub open spec fn file_ranges(source: Seq<char>, width: int) -> Seq<(usize, usize)> {
    if display_width(source) <= max(width, 1) {
        seq![(0usize, source.len() as usize)]
    } else {
        wrap_rows(source, max(width, 1))
    }
}

/// The rows of a line of a file. A line that fits takes one row.
pub fn file_wrap_ranges(source: &str, width: u16) -> (ranges: Vec<(usize, usize)>)
    ensures
        ranges@ == file_ranges(source@, width as int),
        ranges@.len() >= 1,
        forall|i: int| 0 <= i < ranges@.len() ==> (#[trigger] ranges@[i]).0 <= ranges@[i].1 <= source@.len(),
{
    let room: usize = if width >= 1 {
        width as usize
    } else {
        1
    };
    if text_width(source) <= room {
        let count: usize = chars_of(source).len();
        let mut ranges: Vec<(usize, usize)> = Vec::new();
        ranges.push((0, count));
        proof {
            assert(ranges@ =~= file_ranges(source@, width as int));
        }
        ranges
    } else {
        check_clusters(source);
        let count: usize = chars_of(source).len();
        proof {
            law_wrapped_rows_cover_the_text(source@, room as int);
            assert forall|i: int| 0 <= i < wrap_rows(source@, room as int).len() implies (
            #[trigger] wrap_rows(source@, room as int)[i]).0 <= wrap_rows(
                source@,
                room as int,
            )[i].1 <= source@.len() by {
                lemma_wrap_rows_bounds(source@, room as int, i);
            }
        }
        wrap_ranges(source, room)
    }
}

/// The columns of the first `count` tokens, each measured for itself.
pub open spec fn token_columns(tokens: Seq<TokenView>, count: int) -> int
    decreases count,
{
    if count <= 0 {
        0
    } else {
        capped(token_columns(tokens, count - 1) + display_width(tokens[count - 1].text))
    }
}

/// Whether all of some tokens can be shown as they are.
pub open spec fn all_clean(tokens: Seq<TokenView>) -> bool {
    forall|i: int| 0 <= i < tokens.len() ==> !has_control((#[trigger] tokens[i]).text)
}

/// How many rows a line is taken to have.
pub open spec fn wrap_count(tokens: Seq<TokenView>, width: int) -> int {
    if all_clean(tokens) && token_columns(tokens, tokens.len() as int) <= max(width, 1) {
        1
    } else {
        line_ranges(tokens, width).len() as int
    }
}

/// The rows of a line, as ranges of the characters that are shown.
pub open spec fn line_ranges(tokens: Seq<TokenView>, width: int) -> Seq<(usize, usize)> {
    file_ranges(source_of(prepared(tokens)), width)
}

/// How many rows a line is taken to have: one, where its tokens are narrow enough.
pub fn file_line_wrap_count(line: &HighlightedLine, width: u16) -> (count: usize)
    ensures
        count == wrap_count(token_views(line.tokens@), width as int),
        1 <= count <= line_ranges(token_views(line.tokens@), width as int).len(),
{
    let ranges = file_wrap_ranges(file_line_source(line).as_str(), width);
    let room: usize = if width >= 1 {
        width as usize
    } else {
        1
    };
    let ghost all = token_views(line.tokens@);
    let mut columns: usize = 0;
    let mut i: usize = 0;
    while i < line.tokens.len()
        invariant
            i <= line.tokens@.len(),
            all == token_views(line.tokens@),
            ranges@ == line_ranges(all, width as int),
            ranges@.len() >= 1,
            columns == token_columns(all, i as int),
            forall|k: int| 0 <= k < i ==> !has_control((#[trigger] all[k]).text),
        decreases line.tokens@.len() - i,
    {
        proof {
            assert(all[i as int] == token_view(line.tokens@[i as int]));
        }
        if file_token_needs_sanitizing(line.tokens[i].text.as_str()) {
            assert(!all_clean(all));
            return ranges.len();
        }
        columns = columns.saturating_add(text_width(line.tokens[i].text.as_str()));
        i += 1;
    }
    if columns <= room {
        1
    } else {
        ranges.len()
    }
}

/// The row at which a line starts when each line has the rows that it is taken to
/// have.
pub open spec fn line_start(lines: Seq<Seq<TokenView>>, width: int, count: int) -> int
    decreases count,
{
    if count <= 0 {
        0
    } else {
        capped(line_start(lines, width, count - 1) + wrap_count(lines[count - 1], width))
    }
}

/// A row of a file: its line, its place among the rows of the line, and its
/// characters.
#[derive(Clone, Copy, Debug, PartialEq, Eq, Structural)]
pub struct RowPart {
    pub line: usize,
    pub wrapped: usize,
    pub start: usize,
    pub end: usize,
}

pub open spec fn row_part(line: int, wrapped: int, range: (usize, usize)) -> RowPart {
    RowPart { line: line as usize, wrapped: wrapped as usize, start: range.0, end: range.1 }
}

/// The rows of a line.
pub open spec fn line_parts(lines: Seq<Seq<TokenView>>, width: int, line: int) -> Seq<RowPart> {
    let ranges = line_ranges(lines[line], width);
    Seq::new(ranges.len(), |i: int| row_part(line, i, ranges[i]))
}

/// The rows of the lines from `line` on.
pub open spec fn parts_from(lines: Seq<Seq<TokenView>>, width: int, line: int) -> Seq<RowPart>
    decreases lines.len() - line,
{
    if line < 0 || line >= lines.len() {
        Seq::empty()
    } else {
        line_parts(lines, width, line) + parts_from(lines, width, line + 1)
    }
}

/// The last of the first `count` lines that starts at or before a row.
pub open spec fn line_at(starts: Seq<usize>, row: int, count: int) -> int
    decreases count,
{
    if count <= 1 || starts[count - 1] <= row { count - 1 } else { line_at(starts, row, count - 1) }
}

/// The lines of a file, wrapped.
pub struct FileView {
    pub lines: Seq<Seq<TokenView>>,
    pub starts: Seq<usize>,
    pub width: int,
}

impl FileView {
    /// A file whose lines have the rows that they are taken to have.
    pub open spec fn of(lines: Seq<Seq<TokenView>>, width: int) -> FileView {
        FileView {
            lines,
            starts: Seq::new(
                lines.len() + 1,
                |i: int| line_start(lines, width, i) as usize,
            ),
            width,
        }
    }

    /// Each line has a row, and none is taken to have more than it has.
    pub open spec fn valid(self) -> bool {
        &&& self.starts.len() == self.lines.len() + 1
        &&& self.starts[0] == 0
        &&& self.lines.len() <= usize::MAX
        &&& forall|i: int|
            0 <= i < self.lines.len() ==> capped(self.starts[i] + 1) <= #[trigger] self.starts[i
                + 1] <= capped(self.starts[i] + line_ranges(self.lines[i], self.width).len())
        &&& forall|i: int|
            0 <= i < self.lines.len() ==> 1 <= (#[trigger] line_ranges(
                self.lines[i],
                self.width,
            )).len() <= usize::MAX
    }

    /// Every line is taken to have the rows that it has.
    pub open spec fn exact(self) -> bool {
        forall|i: int|
            0 <= i < self.lines.len() ==> #[trigger] self.starts[i + 1] == self.starts[i]
                + line_ranges(self.lines[i], self.width).len()
    }

    /// How many rows the file is taken to have.
    pub open spec fn len(self) -> int {
        self.starts.last() as int
    }

    /// All rows of the file.
    pub open spec fn all(self) -> Seq<RowPart> {
        parts_from(self.lines, self.width, 0)
    }

    /// The rows from a row on.
    pub open spec fn tail(self, row: int) -> Seq<RowPart> {
        let line = line_at(self.starts, row, self.lines.len() as int);
        let parts = line_parts(self.lines, self.width, line);
        parts.skip(min(row - self.starts[line], parts.len() as int)) + parts_from(
            self.lines,
            self.width,
            line + 1,
        )
    }

    /// At most `capacity` rows from a row on.
    pub open spec fn window(self, row: int, capacity: int) -> Seq<RowPart> {
        if capacity <= 0 || row >= self.len() {
            Seq::empty()
        } else {
            let tail = self.tail(row);
            tail.take(min(capacity, tail.len() as int))
        }
    }
}

proof fn lemma_line_at(starts: Seq<usize>, row: int, count: int, line: int)
    requires
        0 <= line < count <= starts.len(),
        starts[line] <= row || line == 0,
        forall|i: int| line < i < count ==> #[trigger] starts[i] > row,
    ensures
        line_at(starts, row, count) == line,
    decreases count,
{
    if count - 1 > line {
        lemma_line_at(starts, row, count - 1, line);
    }
}

proof fn lemma_starts_grow(file: FileView, low: int, high: int)
    requires
        file.valid(),
        0 <= low <= high <= file.lines.len(),
    ensures
        file.starts[low] <= file.starts[high],
        low < high && file.starts[low] < usize::MAX ==> file.starts[low] < file.starts[high],
    decreases high - low,
{
    if low < high {
        lemma_starts_grow(file, low, high - 1);
        assert(capped(file.starts[high - 1] + 1) <= file.starts[high - 1 + 1]);
    }
}

proof fn lemma_line_found(file: FileView, row: int)
    requires
        file.valid(),
        0 <= row < file.len(),
    ensures
        ({
            let line = line_at(file.starts, row, file.lines.len() as int);
            &&& 0 <= line < file.lines.len()
            &&& file.starts[line] <= row < file.starts[line + 1]
        }),
{
    lemma_line_search(file, row, file.lines.len() as int);
}

proof fn lemma_line_search(file: FileView, row: int, count: int)
    requires
        file.valid(),
        0 <= row < file.starts[count],
        1 <= count <= file.lines.len(),
    ensures
        ({
            let line = line_at(file.starts, row, count);
            &&& 0 <= line < count
            &&& file.starts[line] <= row < file.starts[line + 1]
        }),
    decreases count,
{
    if count > 1 && file.starts[count - 1] > row {
        lemma_line_search(file, row, count - 1);
    }
}

/// The rows of the lines from `line` on are at least as many as they are taken to
/// be.
proof fn lemma_enough_rows(file: FileView, line: int)
    requires
        file.valid(),
        0 <= line <= file.lines.len(),
    ensures
        parts_from(file.lines, file.width, line).len() >= file.len() - file.starts[line],
    decreases file.lines.len() - line,
{
    if line < file.lines.len() {
        lemma_enough_rows(file, line + 1);
        assert(file.starts[line + 1] <= capped(
            file.starts[line] + line_ranges(file.lines[line], file.width).len(),
        ));
    }
}

/// A window never has fewer rows than are there: from any row on it is filled, as
/// far as the file is taken to reach.
pub proof fn law_windows_are_filled(file: FileView, row: int, capacity: int)
    requires
        file.valid(),
        0 <= row,
        0 <= capacity,
    ensures
        file.window(row, capacity).len() <= capacity,
        file.window(row, capacity).len() >= min(capacity, file.len() - row),
{
    if capacity > 0 && row < file.len() {
        lemma_line_found(file, row);
        let line = line_at(file.starts, row, file.lines.len() as int);
        lemma_enough_rows(file, line + 1);
        assert(file.starts[line + 1] <= capped(
            file.starts[line] + line_ranges(file.lines[line], file.width).len(),
        ));
    }
}

proof fn lemma_rows_before(file: FileView, line: int)
    requires
        file.valid(),
        file.exact(),
        0 <= line <= file.lines.len(),
    ensures
        file.starts[line] <= file.all().len(),
        file.all().skip(file.starts[line] as int) == parts_from(file.lines, file.width, line),
        file.all().len() == file.starts[line] + parts_from(file.lines, file.width, line).len(),
    decreases line,
{
    if line == 0 {
        assert(file.all().skip(0) =~= file.all());
    } else {
        lemma_rows_before(file, line - 1);
        let rest = parts_from(file.lines, file.width, line - 1);
        let parts = line_parts(file.lines, file.width, line - 1);
        assert(file.starts[line - 1 + 1] == file.starts[line - 1] + parts.len());
        assert(file.all().skip(file.starts[line] as int) =~= rest.skip(parts.len() as int));
        assert(rest.skip(parts.len() as int) =~= parts_from(file.lines, file.width, line));
    }
}

/// Where every line is taken to have the rows that it has, a window is the part of
/// the whole file that starts at its first row, and the file has as many rows as it
/// is taken to have.
pub proof fn law_windows_show_the_file(file: FileView, row: int, capacity: int)
    requires
        file.valid(),
        file.exact(),
        0 <= row <= file.len(),
        0 <= capacity,
    ensures
        file.all().len() == file.len(),
        file.window(row, capacity) == file.all().subrange(row, min(row + capacity, file.len())),
{
    lemma_rows_before(file, file.lines.len() as int);
    if capacity > 0 && row < file.len() {
        lemma_line_found(file, row);
        let line = line_at(file.starts, row, file.lines.len() as int);
        lemma_rows_before(file, line);
        let parts = line_parts(file.lines, file.width, line);
        assert(file.starts[line + 1] == file.starts[line] + parts.len());
        let rest = parts_from(file.lines, file.width, line);
        assert(rest == parts + parts_from(file.lines, file.width, line + 1));
        let first = row - file.starts[line];
        assert(rest.skip(first) =~= parts.skip(first) + parts_from(
            file.lines,
            file.width,
            line + 1,
        ));
        assert(file.tail(row) =~= file.all().skip(row));
        assert(file.window(row, capacity) =~= file.all().subrange(
            row,
            min(row + capacity, file.len()),
        ));
    } else {
        assert(file.window(row, capacity) =~= file.all().subrange(
            row,
            min(row + capacity, file.len()),
        ));
    }
}

/// The rows from a row on are at least as many as they are taken to be, and exactly as
/// many where every line has the rows that it is taken to have.
pub proof fn law_rows_are_counted(file: FileView, row: int)
    requires
        file.valid(),
        0 <= row < file.len(),
    ensures
        file.tail(row).len() >= file.len() - row,
        file.exact() ==> file.tail(row).len() == file.len() - row,
{
    lemma_line_found(file, row);
    let line = line_at(file.starts, row, file.lines.len() as int);
    lemma_enough_rows(file, line + 1);
    assert(file.starts[line + 1] <= capped(
        file.starts[line] + line_ranges(file.lines[line], file.width).len(),
    ));
    if file.exact() {
        lemma_rows_before(file, line + 1);
        lemma_rows_before(file, file.lines.len() as int);
        assert(file.starts[line + 1] == file.starts[line] + line_ranges(
            file.lines[line],
            file.width,
        ).len());
    }
}

/// A line has the rows that it is taken to have, unless its tokens take fewer columns apart
/// than the line that they make up.
pub proof fn law_lines_are_counted(tokens: Seq<TokenView>, width: int)
    requires
        display_width(source_of(prepared(tokens))) <= token_columns(tokens, tokens.len() as int),
    ensures
        wrap_count(tokens, width) == line_ranges(tokens, width).len(),
{
}

/// A file has the rows that it is taken to have where each of its lines does.
pub proof fn law_counted_files_are_exact(lines: Seq<Seq<TokenView>>, width: int)
    requires
        forall|i: int|
            0 <= i < lines.len() ==> wrap_count(#[trigger] lines[i], width) == line_ranges(
                lines[i],
                width,
            ).len(),
        parts_from(lines, width, 0).len() <= usize::MAX,
    ensures
        FileView::of(lines, width).exact(),
{
    let file = FileView::of(lines, width);
    assert forall|i: int| 0 <= i < lines.len() implies #[trigger] file.starts[i + 1]
        == file.starts[i] + line_ranges(file.lines[i], file.width).len() by {
        lemma_starts_counted(lines, width, i);
        lemma_starts_counted(lines, width, i + 1);
        assert(wrap_count(lines[i], width) == line_ranges(lines[i], width).len());
    }
}

/// The rows of the lines before a line, where each has the rows that it is taken to have.
proof fn lemma_starts_counted(lines: Seq<Seq<TokenView>>, width: int, count: int)
    requires
        forall|i: int|
            0 <= i < lines.len() ==> wrap_count(#[trigger] lines[i], width) == line_ranges(
                lines[i],
                width,
            ).len(),
        parts_from(lines, width, 0).len() <= usize::MAX,
        0 <= count <= lines.len(),
    ensures
        line_start(lines, width, count) + parts_from(lines, width, count).len() == parts_from(
            lines,
            width,
            0,
        ).len(),
        0 <= line_start(lines, width, count),
        count > 0 ==> line_start(lines, width, count) == line_start(lines, width, count - 1)
            + wrap_count(lines[count - 1], width),
    decreases count,
{
    if count > 0 {
        lemma_starts_counted(lines, width, count - 1);
        assert(wrap_count(lines[count - 1], width) == line_ranges(lines[count - 1], width).len());
    }
}

pub open spec fn all_token_views(lines: Seq<HighlightedLine>) -> Seq<Seq<TokenView>> {
    lines.map_values(|line: HighlightedLine| token_views(line.tokens@))
}

/// The lines of a file, wrapped to some columns.
#[derive(Debug)]
pub struct FileRows {
    lines: Vec<HighlightedLine>,
    row_starts: Vec<usize>,
    content_width: u16,
}

impl View for FileRows {
    type V = FileView;

    closed spec fn view(&self) -> FileView {
        FileView {
            lines: all_token_views(self.lines@),
            starts: self.row_starts@,
            width: self.content_width as int,
        }
    }
}

impl FileRows {
    #[verifier::type_invariant]
    spec fn starts_fit(&self) -> bool {
        self@.valid()
    }

    /// Wraps the lines of a file.
    pub fn new(lines: Vec<HighlightedLine>, content_width: u16) -> (rows: Self)
        ensures
            rows@ == FileView::of(all_token_views(lines@), content_width as int),
            rows@.valid(),
    {
        let ghost all = all_token_views(lines@);
        let ghost file = FileView::of(all, content_width as int);
        let mut row_starts: Vec<usize> = Vec::new();
        row_starts.push(0);
        let mut last: usize = 0;
        let mut i: usize = 0;
        proof {
            assert(row_starts@ =~= file.starts.take(1));
        }
        while i < lines.len()
            invariant
                i <= lines@.len(),
                all == all_token_views(lines@),
                file == FileView::of(all, content_width as int),
                last == line_start(all, content_width as int, i as int),
                row_starts@ == file.starts.take(i + 1),
                forall|k: int|
                    0 <= k < i ==> capped(file.starts[k] + 1) <= #[trigger] file.starts[k + 1]
                        <= capped(
                        file.starts[k] + line_ranges(all[k], content_width as int).len(),
                    ),
                forall|k: int|
                    0 <= k < i ==> 1 <= (#[trigger] line_ranges(
                        all[k],
                        content_width as int,
                    )).len() <= usize::MAX,
            decreases lines@.len() - i,
        {
            let count: usize = file_line_wrap_count(&lines[i], content_width);
            let ranges = file_wrap_ranges(file_line_source(&lines[i]).as_str(), content_width);
            let total: usize = ranges.len();
            proof {
                assert(all[i as int] == token_views(lines@[i as int].tokens@));
                assert(ranges@ == line_ranges(all[i as int], content_width as int));
                assert(file.starts[i as int] == last);
            }
            last = last.saturating_add(count);
            row_starts.push(last);
            i += 1;
            proof {
                assert(file.starts[i as int] == last);
                assert(row_starts@ =~= file.starts.take(i + 1));
                assert(file.starts[i - 1 + 1] == last);
            }
        }
        proof {
            assert(row_starts@ =~= file.starts);
            assert(FileView {
                lines: all,
                starts: row_starts@,
                width: content_width as int,
            }.valid());
        }
        FileRows { lines, row_starts, content_width }
    }

    /// How many rows the file is taken to have.
    pub fn len(&self) -> (len: usize)
        ensures
            len == self@.len(),
            self@.valid(),
    {
        proof {
            use_type_invariant(self);
        }
        self.row_starts[self.row_starts.len() - 1]
    }

    /// How many lines the file has.
    pub fn line_count(&self) -> (count: usize)
        ensures
            count == self@.lines.len(),
    {
        self.lines.len()
    }

    /// The tokens of a line, and the text that they make up, as they are shown.
    pub fn prepared_line(&self, line: usize) -> (result: (Vec<CodeToken>, String))
        requires
            line < self@.lines.len(),
        ensures
            token_views(result.0@) == prepared(self@.lines[line as int]),
            result.1@ == source_of(prepared(self@.lines[line as int])),
            tokens_end(token_views(result.0@), result.0@.len() as int) == result.1@.len(),
            result.1@.len() <= usize::MAX,
    {
        prepared_file_line(&self.lines[line])
    }

    /// The row at which a line starts.
    pub fn row_start(&self, line: usize) -> (row: usize)
        ensures
            row == if line < self@.starts.len() { self@.starts[line as int] } else { 0 },
    {
        if line < self.row_starts.len() {
            self.row_starts[line]
        } else {
            0
        }
    }

    /// Gives a line other tokens, unless they make up another text.
    pub fn rehighlight(self, line: usize, tokens: Vec<CodeToken>) -> (rows: Self)
        ensures
            rows@ == if line < self@.lines.len() && source_of(prepared(token_views(tokens@)))
                == source_of(prepared(self@.lines[line as int])) {
                FileView {
                    lines: self@.lines.update(line as int, token_views(tokens@)),
                    ..self@
                }
            } else {
                self@
            },
            rows@.valid(),
    {
        proof {
            use_type_invariant(&self);
        }
        if line >= self.lines.len() {
            return self;
        }
        let replacement = HighlightedLine { tokens };
        let source: String = file_line_source(&replacement);
        let before: String = file_line_source(&self.lines[line]);
        if !same_text(source.as_str(), before.as_str()) {
            return self;
        }
        let ghost old_view = self@;
        let ghost old_lines = self.lines@;
        let ghost new_view = FileView {
            lines: old_view.lines.update(line as int, token_views(tokens@)),
            ..old_view
        };
        proof {
            assert(all_token_views(old_lines.update(line as int, replacement))
                =~= new_view.lines);
            assert forall|i: int| 0 <= i < new_view.lines.len() implies #[trigger] line_ranges(
                new_view.lines[i],
                new_view.width,
            ) == line_ranges(old_view.lines[i], old_view.width) by {}
            assert(new_view.valid()) by {
                assert forall|i: int| 0 <= i < new_view.lines.len() implies capped(
                    new_view.starts[i] + 1,
                ) <= #[trigger] new_view.starts[i + 1] <= capped(
                    new_view.starts[i] + line_ranges(new_view.lines[i], new_view.width).len(),
                ) by {
                    assert(capped(old_view.starts[i] + 1) <= old_view.starts[i + 1]);
                }
                assert forall|i: int| 0 <= i < new_view.lines.len() implies 1 <= (
                #[trigger] line_ranges(new_view.lines[i], new_view.width)).len() <= usize::MAX by {
                    assert(line_ranges(old_view.lines[i], old_view.width).len() >= 1);
                }
            }
        }
        let mut lines = self.lines;
        lines.set(line, replacement);
        FileRows { lines, row_starts: self.row_starts, content_width: self.content_width }
    }

    /// The line that a row belongs to.
    fn find_line(&self, row: usize) -> (line: usize)
        requires
            row < self@.len(),
        ensures
            line == line_at(self@.starts, row as int, self@.lines.len() as int),
            line < self@.lines.len(),
            self@.starts[line as int] <= row < self@.starts[line + 1],
    {
        proof {
            use_type_invariant(self);
            lemma_line_found(self@, row as int);
        }
        let mut low: usize = 0;
        let mut high: usize = self.lines.len();
        while high - low > 1
            invariant
                self@.valid(),
                self.row_starts@ == self@.starts,
                self@.lines.len() == self.lines@.len(),
                low < high <= self.lines@.len(),
                self@.starts[low as int] <= row,
                high < self.lines@.len() ==> self@.starts[high as int] > row,
            decreases high - low,
        {
            let middle: usize = low + (high - low) / 2;
            if self.row_starts[middle] <= row {
                low = middle;
            } else {
                high = middle;
            }
        }
        proof {
            assert forall|i: int| low < i < self@.lines.len() implies #[trigger] self@.starts[i]
                > row by {
                lemma_starts_grow(self@, high as int, i);
            }
            lemma_line_at(self@.starts, row as int, self@.lines.len() as int, low as int);
        }
        low
    }

    /// The rows of a line.
    fn parts_of(&self, line: usize) -> (parts: Vec<RowPart>)
        requires
            line < self@.lines.len(),
        ensures
            parts@ == line_parts(self@.lines, self@.width, line as int),
    {
        let source: String = file_line_source(&self.lines[line]);
        let ranges = file_wrap_ranges(source.as_str(), self.content_width);
        let ghost all = line_parts(self@.lines, self@.width, line as int);
        let mut parts: Vec<RowPart> = Vec::new();
        let mut i: usize = 0;
        while i < ranges.len()
            invariant
                i <= ranges@.len(),
                ranges@ == line_ranges(self@.lines[line as int], self@.width),
                all == line_parts(self@.lines, self@.width, line as int),
                parts@ == all.take(i as int),
            decreases ranges@.len() - i,
        {
            parts.push(
                RowPart { line, wrapped: i, start: ranges[i].0, end: ranges[i].1 },
            );
            i += 1;
            proof {
                assert(parts@ =~= all.take(i as int));
            }
        }
        proof {
            assert(all.take(i as int) =~= all);
        }
        parts
    }

    /// At most `capacity` rows from a row on. Only the lines of these rows are
    /// wrapped.
    pub fn window(&self, row: usize, capacity: usize) -> (parts: Vec<RowPart>)
        ensures
            parts@ == self@.window(row as int, capacity as int),
            self@.valid(),
            parts@.len() <= capacity,
            row <= self@.len() ==> parts@.len() >= min(capacity as int, self@.len() - row),
            forall|i: int|
                0 <= i < parts@.len() ==> (#[trigger] parts@[i]).line < self@.lines.len(),
    {
        proof {
            use_type_invariant(self);
            law_windows_are_filled(self@, row as int, capacity as int);
        }
        let mut parts: Vec<RowPart> = Vec::new();
        if capacity == 0 || row >= self.len() {
            proof {
                assert(parts@ =~= self@.window(row as int, capacity as int));
            }
            return parts;
        }
        let first_line: usize = self.find_line(row);
        let ghost tail = self@.tail(row as int);
        let first = self.parts_of(first_line);
        let mut skip: usize = row - self.row_starts[first_line];
        if skip > first.len() {
            skip = first.len();
        }
        let mut current: Vec<RowPart> = first;
        let mut at: usize = skip;
        let mut line: usize = first_line;
        proof {
            assert(parts@ + (current@.skip(at as int) + parts_from(
                self@.lines,
                self@.width,
                line + 1,
            )) =~= tail);
        }
        loop
            invariant_except_break
                parts@.len() < capacity,
                at <= current@.len(),
                line < self@.lines.len(),
                current@ == line_parts(self@.lines, self@.width, line as int),
                parts@ + (current@.skip(at as int) + parts_from(
                    self@.lines,
                    self@.width,
                    line + 1,
                )) == tail,
                forall|i: int|
                    0 <= i < parts@.len() ==> (#[trigger] parts@[i]).line < self@.lines.len(),
            invariant
                self.lines@.len() == self@.lines.len(),
            ensures
                parts@ == tail.take(min(capacity as int, tail.len() as int)),
                forall|i: int|
                    0 <= i < parts@.len() ==> (#[trigger] parts@[i]).line < self@.lines.len(),
            decreases self@.lines.len() - line, current@.len() - at,
        {
            if at < current.len() {
                let part: RowPart = current[at];
                let ghost before = parts@;
                parts.push(part);
                proof {
                    let rest = current@.skip(at as int);
                    assert(rest =~= seq![part] + current@.skip(at + 1));
                    assert(before + (rest + parts_from(self@.lines, self@.width, line + 1))
                        =~= parts@ + (current@.skip(at + 1) + parts_from(
                        self@.lines,
                        self@.width,
                        line + 1,
                    )));
                    assert(part.line == line);
                }
                at += 1;
                if parts.len() == capacity {
                    proof {
                        assert(parts@ =~= tail.take(capacity as int));
                    }
                    break;
                }
            } else if self.lines.len() - line > 1 {
                let ghost before = current@.skip(at as int) + parts_from(
                    self@.lines,
                    self@.width,
                    line + 1,
                );
                line += 1;
                current = self.parts_of(line);
                at = 0;
                proof {
                    assert(before =~= current@.skip(0) + parts_from(
                        self@.lines,
                        self@.width,
                        line + 1,
                    ));
                }
            } else {
                proof {
                    assert(parts@ =~= tail);
                    assert(tail.take(tail.len() as int) =~= tail);
                }
                break;
            }
        }
        parts
    }
}

} // verus!
