//! A source file, and the changes to one, as rows.

use vstd::prelude::*;
use vstd::string::*;
use crate::code_lines::{
    number_columns, number_head, push_code, render_number_head, token_spans, token_views, TokenView,
};
use crate::file_rows::{
    all_token_views, prepared, source_of, FileRows, FileView, HighlightedLine, RowPart,
};
use crate::input_syntax::CodeToken;
use crate::list::{max, min};
use crate::menu::less;
use crate::render::{blanks, concat3, count_text, decimal, decimal_text, spaces};
use crate::render_mcp::copy_rows;
use crate::render_pickers::{lemma_spans_width_push, pad_left, right_aligned};
use crate::style::{
    capped, line, line_views, push_line, span, spans_width, Line, LineView, Role, SpanView, Style,
};
use crate::unicode::{display_width, is_plain, text_width};

verus! {

/// What the tokens of a line have between two characters.
pub open spec fn shown_spans(tokens: Seq<TokenView>, start: int, end: int) -> Seq<SpanView> {
    token_spans(prepared(tokens), tokens.len() as int, start, end, true)
}

/// A row of a file.
pub open spec fn file_row(file: FileView, part: RowPart, number_width: int) -> LineView {
    line(
        seq![
            span(
                number_head(
                    if part.wrapped == 0 { Some((part.line + 1) as nat) } else { None },
                    number_width,
                ),
                Style::of(Role::Dim),
            ),
        ] + shown_spans(file.lines[part.line as int], part.start as int, part.end as int),
    )
}

/// The rows of some parts of a file.
pub open spec fn file_lines(
    file: FileView,
    parts: Seq<RowPart>,
    number_width: int,
) -> Seq<LineView> {
    parts.map_values(|part: RowPart| file_row(file, part, number_width))
}

/// Rows of a file that are kept.
#[derive(Debug)]
pub struct HighlightedFileWindow {
    pub start: usize,
    pub rows: Vec<Line>,
}

/// A source file of which the rows around the visible ones are kept.
#[derive(Debug)]
pub struct HighlightedFileRows {
    pub rows: FileRows,
    pub number_width: usize,
    pub cache: Option<HighlightedFileWindow>,
}

/// The columns that are left beside the numbers of the lines.
pub open spec fn file_content_width(lines: int, width: int) -> int {
    less(width, display_width(number_head(Some(1), number_columns(lines))) as int)
}

/// Whether the rows that are kept are those of the file.
pub open spec fn keeps(
    file: FileView,
    number_width: int,
    cache: Option<HighlightedFileWindow>,
) -> bool {
    match cache {
        None => true,
        Some(window) => {
            &&& window.start + window.rows@.len() <= file.all().len()
            &&& line_views(window.rows@) == file_lines(file, file.all(), number_width).subrange(
                window.start as int,
                window.start + window.rows@.len(),
            )
        },
    }
}

/// Whether the rows that are kept hold those from `row` to `end`.
pub open spec fn holds(cache: Option<HighlightedFileWindow>, row: int, end: int) -> bool {
    match cache {
        None => false,
        Some(window) => row >= window.start && end <= window.start + window.rows@.len(),
    }
}

/// The row behind the last that is shown.
pub open spec fn shown_end(len: int, row: int, capacity: int) -> int {
    min(row + capacity, len)
}

/// The rows that are rendered around those that are shown.
pub open spec fn margin(capacity: int) -> int {
    max(capacity, 32)
}

/// What showing rows of a file does: they are taken from the rows that are kept
/// afterwards, and these are rendered anew only where they did not hold the rows.
pub open spec fn file_shows(
    before: HighlightedFileRows,
    after: HighlightedFileRows,
    row: int,
    capacity: int,
    rows: Seq<LineView>,
) -> bool {
    let file = before.rows@;
    let end = shown_end(file.len(), row, capacity);
    &&& after.rows@ == before.rows@
    &&& after.number_width == before.number_width
    &&& if capacity == 0 || row >= file.len() {
        &&& rows.len() == 0
        &&& after.cache == before.cache
    } else {
        let window = after.cache->0;
        &&& after.cache is Some
        &&& holds(after.cache, row, end)
        &&& rows == line_views(window.rows@).subrange(row - window.start, end - window.start)
        &&& rows.len() == end - row
        &&& if holds(before.cache, row, end) {
            after.cache == before.cache
        } else {
            let start = less(row, margin(capacity));
            let last = min(end + margin(capacity), file.len());
            &&& window.start == start
            &&& line_views(window.rows@) == file_lines(
                file,
                file.window(start, last - start),
                before.number_width as int,
            )
            &&& window.rows@.len() <= capacity + 2 * margin(capacity)
        }
    }
}

/// Where every line is taken to have the rows that it has, the rows that are shown
/// are those of the file.
pub open spec fn shows_file(
    before: HighlightedFileRows,
    after: HighlightedFileRows,
    row: int,
    capacity: int,
    rows: Seq<LineView>,
) -> bool {
    let file = before.rows@;
    let numbers = before.number_width as int;
    file.exact() && keeps(file, numbers, before.cache) ==> {
        &&& keeps(file, numbers, after.cache)
        &&& row <= file.len() ==> rows == file_lines(file, file.all(), numbers).subrange(
            row,
            shown_end(file.len(), row, capacity),
        )
    }
}

fn highlighted_file_row(rows: &FileRows, part: &RowPart, number_width: usize) -> (row: Line)
    requires
        part.line < rows@.lines.len(),
    ensures
        row@ == file_row(rows@, *part, number_width as int),
{
    let (tokens, source) = rows.prepared_line(part.line);
    let total: usize = rows.line_count();
    let number: Option<usize> = if part.wrapped == 0 {
        Some(part.line + 1)
    } else {
        None
    };
    let mut row = Line::new();
    row.push(render_number_head(number, number_width), Style::of(Role::Dim));
    let ghost head = row@.spans;
    push_code(&mut row, tokens.as_slice(), part.start, part.end, true);
    proof {
        assert(token_views(tokens@).len() == tokens@.len());
        assert(head =~= seq![
            span(
                number_head(
                    if part.wrapped == 0 { Some((part.line + 1) as nat) } else { None },
                    number_width as int,
                ),
                Style::of(Role::Dim),
            ),
        ]);
    }
    row
}

impl HighlightedFileRows {
    /// Lays out a file.
    pub fn new(lines: Vec<HighlightedLine>, width: u16) -> (file: Self)
        ensures
            file.rows@ == FileView::of(
                all_token_views(lines@),
                file_content_width(lines@.len() as int, width as int),
            ),
            file.rows@.valid(),
            file.number_width == number_columns(lines@.len() as int),
            file.cache is None,
    {
        let count: usize = lines.len();
        let number_width: usize = count_text(
            if count >= 1 {
                count
            } else {
                1
            },
        ).as_str().unicode_len();
        let head: String = render_number_head(Some(1), number_width);
        let taken: usize = text_width(head.as_str());
        let content_width: u16 = if taken < width as usize {
            width - taken as u16
        } else {
            0
        };
        HighlightedFileRows {
            rows: FileRows::new(lines, content_width),
            number_width,
            cache: None,
        }
    }

    /// How many rows the file is taken to have.
    pub fn len(&self) -> (len: usize)
        ensures
            len == self.rows@.len(),
    {
        self.rows.len()
    }

    /// Gives a line other tokens, unless they make up another text. Nothing is kept
    /// of the rows.
    pub fn rehighlight(self, line: usize, tokens: Vec<CodeToken>) -> (file: Self)
        ensures
            file.rows@ == if line < self.rows@.lines.len() && source_of(
                prepared(token_views(tokens@)),
            ) == source_of(prepared(self.rows@.lines[line as int])) {
                FileView {
                    lines: self.rows@.lines.update(line as int, token_views(tokens@)),
                    ..self.rows@
                }
            } else {
                self.rows@
            },
            file.number_width == self.number_width,
            file.cache is None,
    {
        HighlightedFileRows {
            rows: self.rows.rehighlight(line, tokens),
            number_width: self.number_width,
            cache: None,
        }
    }

    /// Renders at most `capacity` rows from a row on.
    pub fn render_rows(&self, row: usize, capacity: usize) -> (rows: Vec<Line>)
        ensures
            line_views(rows@) == file_lines(
                self.rows@,
                self.rows@.window(row as int, capacity as int),
                self.number_width as int,
            ),
            rows@.len() <= capacity,
            row <= self.rows@.len() ==> rows@.len() >= min(
                capacity as int,
                self.rows@.len() - row,
            ),
            self.rows@.valid(),
    {
        let parts = self.rows.window(row, capacity);
        let ghost all = file_lines(self.rows@, parts@, self.number_width as int);
        let mut rows: Vec<Line> = Vec::new();
        let mut i: usize = 0;
        while i < parts.len()
            invariant
                i <= parts@.len(),
                forall|k: int|
                    0 <= k < parts@.len() ==> (#[trigger] parts@[k]).line < self.rows@.lines.len(),
                all == file_lines(self.rows@, parts@, self.number_width as int),
                rows@.len() == i,
                line_views(rows@) == all.take(i as int),
            decreases parts@.len() - i,
        {
            push_line(&mut rows, highlighted_file_row(&self.rows, &parts[i], self.number_width));
            i += 1;
            proof {
                assert(line_views(rows@) =~= all.take(i as int));
            }
        }
        proof {
            assert(all.take(i as int) =~= all);
        }
        rows
    }

    /// The rows that are shown. Rows that are kept are not rendered again; where
    /// some are missing, the visible ones and those around them are rendered and
    /// kept.
    pub fn visible_rows(&mut self, row: usize, capacity: usize) -> (rows: Vec<Line>)
        ensures
            file_shows(*old(self), *final(self), row as int, capacity as int, line_views(rows@)),
            shows_file(*old(self), *final(self), row as int, capacity as int, line_views(rows@)),
    {
        let len: usize = self.rows.len();
        let ghost before = *self;
        if capacity == 0 || row >= len {
            let rows: Vec<Line> = Vec::new();
            proof {
                assert(line_views(rows@).len() == 0);
                lemma_shown_rows_are_the_files(before, *self, row as int, capacity as int, line_views(rows@));
            }
            return rows;
        }
        let end: usize = if len - row >= capacity {
            row + capacity
        } else {
            len
        };
        let kept: bool = match &self.cache {
            Some(window) => row >= window.start && end - window.start <= window.rows.len(),
            None => false,
        };
        if !kept {
            let window = self.render_around(row, end, capacity);
            self.cache = Some(window);
        }
        let mut rows: Vec<Line> = Vec::new();
        if let Some(window) = &self.cache {
            rows = copy_rows(window.rows.as_slice(), row - window.start, end - window.start);
        }
        proof {
            assert(line_views(rows@).len() == rows@.len());
            lemma_shown_rows_are_the_files(before, *self, row as int, capacity as int, line_views(rows@));
        }
        rows
    }

    /// Renders the rows from `row` to `end` and those around them.
    fn render_around(&self, row: usize, end: usize, capacity: usize) -> (window: HighlightedFileWindow)
        requires
            capacity > 0,
            row < self.rows@.len(),
            end == shown_end(self.rows@.len(), row as int, capacity as int),
        ensures
            ({
                let file = self.rows@;
                let start = less(row as int, margin(capacity as int));
                let last = min(end + margin(capacity as int), file.len());
                &&& window.start == start
                &&& line_views(window.rows@) == file_lines(
                    file,
                    file.window(start, last - start),
                    self.number_width as int,
                )
                &&& window.rows@.len() == last - start
                &&& start <= row < end <= last
            }),
    {
        let len: usize = self.rows.len();
        let around: usize = if capacity >= 32 {
            capacity
        } else {
            32
        };
        let start: usize = row.saturating_sub(around);
        let last: usize = if len - end >= around {
            end + around
        } else {
            len
        };
        let rows = self.render_rows(start, last - start);
        HighlightedFileWindow { start, rows }
    }
}

/// Rows that are shown are those of the file, where every line is taken to have the
/// rows that it has.
pub proof fn lemma_shown_rows_are_the_files(
    before: HighlightedFileRows,
    after: HighlightedFileRows,
    row: int,
    capacity: int,
    rows: Seq<LineView>,
)
    requires
        file_shows(before, after, row, capacity, rows),
        before.rows@.valid(),
        0 <= row,
        0 <= capacity,
    ensures
        shows_file(before, after, row, capacity, rows),
{
    let file = before.rows@;
    let numbers = before.number_width as int;
    if file.exact() && keeps(file, numbers, before.cache) {
        let all = file_lines(file, file.all(), numbers);
        let end = shown_end(file.len(), row, capacity);
        crate::file_rows::law_windows_show_the_file(file, 0, 0);
        if capacity == 0 || row >= file.len() {
            if row <= file.len() {
                assert(rows =~= all.subrange(row, end));
            }
        } else {
            let window = after.cache->0;
            if !holds(before.cache, row, end) {
                let start = less(row, margin(capacity));
                let last = min(end + margin(capacity), file.len());
                crate::file_rows::law_windows_show_the_file(file, start, last - start);
                assert(file_lines(file, file.window(start, last - start), numbers)
                    =~= all.subrange(start, last));
                assert(line_views(window.rows@).len() == window.rows@.len());
            }
            assert(rows =~= all.subrange(row, end));
        }
    }
}

/// The row at which a line of a file starts; lines are counted from one, and the
/// last line stands for those behind it.
pub fn file_logical_line_offset(file: &HighlightedFileRows, line: usize) -> (row: usize)
    ensures
        ({
            let count = file.rows@.lines.len() as int;
            row == file.rows@.starts[min(less(line as int, 1), less(count, 1))]
        }),
{
    let count: usize = file.rows.line_count();
    let len: usize = file.rows.len();
    let wanted: usize = line.saturating_sub(1);
    let last: usize = count.saturating_sub(1);
    file.rows.row_start(
        if wanted <= last {
            wanted
        } else {
            last
        },
    )
}

/// What became of a line.
#[derive(Clone, Copy, Debug, PartialEq, Eq, Structural)]
pub enum DiffLineKind {
    Addition,
    Deletion,
    Context,
}

/// A line of a file that was changed, with its numbers before and after.
#[derive(Clone, Copy, Debug, PartialEq, Eq, Structural)]
pub struct DiffLine {
    pub kind: DiffLineKind,
    pub old_line: Option<u64>,
    pub new_line: Option<u64>,
}

/// A changed file, laid out.
#[derive(Debug)]
pub struct FullFileDiffRows {
    pub rows: FileRows,
    pub lines: Vec<DiffLine>,
    pub number_width: usize,
    pub width: u16,
}

/// A number, or else nought.
pub open spec fn number_or(number: Option<u64>, otherwise: u64) -> u64 {
    match number {
        Some(number) => number,
        None => otherwise,
    }
}

/// The largest number of the first `count` lines, if there is one.
pub open spec fn largest_number(lines: Seq<DiffLine>, count: int) -> Option<u64>
    decreases count,
{
    if count <= 0 {
        None
    } else {
        larger(
            larger(largest_number(lines, count - 1), lines[count - 1].old_line),
            lines[count - 1].new_line,
        )
    }
}

/// The larger of two numbers, as far as they are there.
pub open spec fn larger(left: Option<u64>, right: Option<u64>) -> Option<u64> {
    match left {
        None => right,
        Some(a) => match right {
            None => left,
            Some(b) => if b >= a { right } else { left },
        },
    }
}

fn larger_of(left: Option<u64>, right: Option<u64>) -> (number: Option<u64>)
    ensures
        number == larger(left, right),
{
    match left {
        None => right,
        Some(a) => match right {
            None => left,
            Some(b) => if b >= a {
                right
            } else {
                left
            },
        },
    }
}

/// The columns of the numbers of a changed file.
pub open spec fn diff_number_width(lines: Seq<DiffLine>) -> int {
    decimal(number_or(largest_number(lines, lines.len() as int), 1) as nat).len() as int
}

/// What stands before the first row of a line of a changed file.
pub open spec fn diff_head(number: u64, marker: Seq<char>, number_width: int) -> Seq<char> {
    "  "@ + right_aligned(decimal(number as nat), number_width) + " "@ + marker + " "@
}

/// The columns that are left beside the numbers of a changed file.
pub open spec fn diff_content_width(lines: Seq<DiffLine>, width: int) -> int {
    less(
        width,
        display_width(
            diff_head(
                number_or(largest_number(lines, lines.len() as int), 1),
                "+"@,
                diff_number_width(lines),
            ),
        ) as int,
    )
}

/// The number that is shown for a line.
pub open spec fn shown_number(line: DiffLine) -> Option<u64> {
    match line.kind {
        DiffLineKind::Addition => line.new_line,
        DiffLineKind::Deletion => line.old_line,
        DiffLineKind::Context => match line.new_line {
            Some(number) => Some(number),
            None => line.old_line,
        },
    }
}

pub open spec fn diff_marker(kind: DiffLineKind) -> Seq<char> {
    match kind {
        DiffLineKind::Addition => "+"@,
        DiffLineKind::Deletion => "-"@,
        DiffLineKind::Context => " "@,
    }
}

pub open spec fn diff_style(kind: DiffLineKind) -> Style {
    match kind {
        DiffLineKind::Addition => Style::of(Role::DiffAddition),
        DiffLineKind::Deletion => Style::of(Role::DiffDeletion),
        DiffLineKind::Context => Style::plain(),
    }
}

fn style_of_diff(kind: DiffLineKind) -> (style: Style)
    ensures
        style == diff_style(kind),
{
    match kind {
        DiffLineKind::Addition => Style::of(Role::DiffAddition),
        DiffLineKind::Deletion => Style::of(Role::DiffDeletion),
        DiffLineKind::Context => Style::plain(),
    }
}

/// What stands on a row of a changed file, before it is filled up.
pub open spec fn diff_spans(
    file: FileView,
    line: DiffLine,
    part: RowPart,
    number_width: int,
) -> Seq<SpanView> {
    seq![
        if part.wrapped == 0 {
            span(
                diff_head(number_or(shown_number(line), 0), diff_marker(line.kind), number_width),
                diff_style(line.kind),
            )
        } else {
            span(
                "  "@ + right_aligned(Seq::empty(), number_width) + "   "@,
                Style::of(Role::Dim),
            )
        },
    ] + shown_spans(file.lines[part.line as int], part.start as int, part.end as int)
}

/// A row of a changed file: its background reaches to the last column.
pub open spec fn diff_row(
    file: FileView,
    line: DiffLine,
    part: RowPart,
    number_width: int,
    width: int,
) -> LineView {
    let spans = diff_spans(file, line, part, number_width);
    let missing = less(width, capped(spans_width(spans) as int));
    LineView {
        spans: if missing > 0 {
            spans.push(span(spaces(missing), diff_style(line.kind)))
        } else {
            spans
        },
        base: diff_style(line.kind),
    }
}

/// The rows of some parts of a changed file.
pub open spec fn diff_lines(diff: FullFileDiffRows, parts: Seq<RowPart>) -> Seq<LineView> {
    parts.map_values(
        |part: RowPart|
            diff_row(
                diff.rows@,
                diff.lines@[part.line as int],
                part,
                diff.number_width as int,
                diff.width as int,
            ),
    )
}

/// Renders a row of a changed file. It takes the whole width, unless it took more
/// before it was filled up.
fn full_file_diff_row(
    rows: &FileRows,
    line: DiffLine,
    part: &RowPart,
    number_width: usize,
    width: u16,
) -> (row: Line)
    requires
        part.line < rows@.lines.len(),
    ensures
        row@ == diff_row(rows@, line, *part, number_width as int, width as int),
        spans_width(row@.spans) == max(
            spans_width(diff_spans(rows@, line, *part, number_width as int)) as int,
            width as int,
        ),
{
    let style: Style = style_of_diff(line.kind);
    let (tokens, source) = rows.prepared_line(part.line);
    let mut row = Line::new();
    if part.wrapped == 0 {
        let number: Option<u64> = match line.kind {
            DiffLineKind::Addition => line.new_line,
            DiffLineKind::Deletion => line.old_line,
            DiffLineKind::Context => match line.new_line {
                Some(number) => Some(number),
                None => line.old_line,
            },
        };
        let shown: u64 = match number {
            Some(number) => number,
            None => 0,
        };
        let marker: &str = match line.kind {
            DiffLineKind::Addition => "+",
            DiffLineKind::Deletion => "-",
            DiffLineKind::Context => " ",
        };
        row.push(render_diff_head(shown, marker, number_width), style);
    } else {
        row.push(concat3("  ", pad_left("", number_width).as_str(), "   "), Style::of(Role::Dim));
    }
    proof {
        reveal_strlit("");
        assert(""@ =~= Seq::empty());
        assert(token_views(tokens@).len() == tokens@.len());
    }
    let ghost head = row@.spans;
    push_code(&mut row, tokens.as_slice(), part.start, part.end, true);
    row.base = style;
    let ghost spans = row@.spans;
    proof {
        assert(head =~= seq![head[0]]);
        assert(spans =~= diff_spans(rows@, line, *part, number_width as int));
    }
    let used: usize = row.width();
    let missing: usize = (width as usize).saturating_sub(used);
    if missing > 0 {
        let padding: String = blanks(missing);
        let columns: usize = text_width(padding.as_str());
        proof {
            assert(is_plain(padding@));
            lemma_spans_width_push(spans, span(padding@, style));
        }
        row.push(padding, style);
    }
    row
}

fn render_diff_head(number: u64, marker: &str, number_width: usize) -> (text: String)
    ensures
        text@ == diff_head(number, marker@, number_width as int),
{
    let head: String = concat3(
        "  ",
        pad_left(decimal_text(number).as_str(), number_width).as_str(),
        " ",
    );
    concat3(head.as_str(), marker, " ")
}

impl FullFileDiffRows {
    pub open spec fn valid(self) -> bool {
        self.rows@.lines.len() == self.lines@.len()
    }

    /// Lays out a changed file: its lines, and their tokens.
    pub fn new(lines: Vec<DiffLine>, tokens: Vec<HighlightedLine>, width: u16) -> (diff: Self)
        requires
            lines@.len() == tokens@.len(),
        ensures
            diff.valid(),
            diff.rows@ == FileView::of(
                all_token_views(tokens@),
                diff_content_width(lines@, width as int),
            ),
            diff.rows@.valid(),
            diff.lines == lines,
            diff.number_width == diff_number_width(lines@),
            diff.width == width,
    {
        let mut largest: Option<u64> = None;
        let mut i: usize = 0;
        while i < lines.len()
            invariant
                i <= lines@.len(),
                largest == largest_number(lines@, i as int),
            decreases lines@.len() - i,
        {
            largest = larger_of(larger_of(largest, lines[i].old_line), lines[i].new_line);
            i += 1;
        }
        let number: u64 = match largest {
            Some(number) => number,
            None => 1,
        };
        let number_width: usize = decimal_text(number).as_str().unicode_len();
        let taken: usize = text_width(render_diff_head(number, "+", number_width).as_str());
        let content_width: u16 = if taken < width as usize {
            width - taken as u16
        } else {
            0
        };
        FullFileDiffRows { rows: FileRows::new(tokens, content_width), lines, number_width, width }
    }

    /// How many rows the file is taken to have.
    pub fn len(&self) -> (len: usize)
        ensures
            len == self.rows@.len(),
    {
        self.rows.len()
    }

    /// At most `capacity` rows from a row on.
    pub fn visible_rows(&self, row: usize, capacity: usize) -> (rows: Vec<Line>)
        requires
            self.valid(),
        ensures
            line_views(rows@) == diff_lines(
                *self,
                self.rows@.window(row as int, capacity as int),
            ),
            rows@.len() <= capacity,
            row <= self.rows@.len() ==> rows@.len() >= min(
                capacity as int,
                self.rows@.len() - row,
            ),
            forall|i: int|
                0 <= i < rows@.len() ==> spans_width((#[trigger] rows@[i])@.spans) >= self.width,
    {
        let parts = self.rows.window(row, capacity);
        let ghost all = diff_lines(*self, parts@);
        let mut rows: Vec<Line> = Vec::new();
        let mut i: usize = 0;
        while i < parts.len()
            invariant
                self.valid(),
                i <= parts@.len(),
                forall|k: int|
                    0 <= k < parts@.len() ==> (#[trigger] parts@[k]).line < self.rows@.lines.len(),
                all == diff_lines(*self, parts@),
                rows@.len() == i,
                line_views(rows@) == all.take(i as int),
                forall|k: int|
                    0 <= k < rows@.len() ==> spans_width((#[trigger] rows@[k])@.spans)
                        >= self.width,
            decreases parts@.len() - i,
        {
            let row = full_file_diff_row(
                &self.rows,
                self.lines[parts[i].line],
                &parts[i],
                self.number_width,
                self.width,
            );
            let ghost before = rows@;
            push_line(&mut rows, row);
            i += 1;
            proof {
                assert(line_views(rows@) =~= all.take(i as int));
                assert forall|k: int| 0 <= k < rows@.len() implies spans_width(
                    (#[trigger] rows@[k])@.spans,
                ) >= self.width by {
                    assert(line_views(rows@)[k] == rows@[k]@);
                    if k < before.len() {
                        assert(line_views(before)[k] == before[k]@);
                        assert(rows@[k]@ == before[k]@);
                    } else {
                        assert(rows@[k]@ == row@);
                    }
                }
            }
        }
        proof {
            assert(all.take(i as int) =~= all);
        }
        rows
    }
}

/// The first of some lines that has a number: the number afterwards, or, where
/// none is given, the number before.
pub open spec fn diff_line_index(
    lines: Seq<DiffLine>,
    old_line: Option<u64>,
    new_line: Option<u64>,
    from: int,
) -> int
    decreases lines.len() - from,
{
    if from < 0 || from >= lines.len() {
        0
    } else if is_line(lines[from], old_line, new_line) {
        from
    } else {
        diff_line_index(lines, old_line, new_line, from + 1)
    }
}

pub open spec fn is_line(line: DiffLine, old_line: Option<u64>, new_line: Option<u64>) -> bool {
    (new_line is Some && line.new_line == new_line) || (new_line is None && old_line is Some
        && line.old_line == old_line)
}

/// The row at which a line of a changed file starts, or the first row.
pub fn full_file_diff_line_offset(
    diff: &FullFileDiffRows,
    old_line: Option<u64>,
    new_line: Option<u64>,
) -> (row: usize)
    requires
        diff.valid(),
    ensures
        row == diff.rows@.starts[diff_line_index(diff.lines@, old_line, new_line, 0)],
{
    let len: usize = diff.rows.len();
    let mut i: usize = 0;
    while i < diff.lines.len()
        invariant
            i <= diff.lines@.len(),
            diff.rows@.valid(),
            diff.valid(),
            diff_line_index(diff.lines@, old_line, new_line, 0) == diff_line_index(
                diff.lines@,
                old_line,
                new_line,
                i as int,
            ),
        decreases diff.lines@.len() - i,
    {
        let line: DiffLine = diff.lines[i];
        let found: bool = match new_line {
            Some(number) => match line.new_line {
                Some(other) => other == number,
                None => false,
            },
            None => match old_line {
                Some(number) => match line.old_line {
                    Some(other) => other == number,
                    None => false,
                },
                None => false,
            },
        };
        if found {
            return diff.rows.row_start(i);
        }
        i += 1;
    }
    diff.rows.row_start(0)
}

} // verus!
