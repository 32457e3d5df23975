//! The expanded views: their titles, contents, scrolling and what is kept of
//! them.

use vstd::prelude::*;
use vstd::string::*;
use crate::agent_log_layout::AgentLogLayout;
use crate::expanded_content::ExpandedView;
use crate::file_rows::{law_rows_are_counted, law_windows_are_filled};
use crate::file_views::{diff_lines, file_shows, shows_file, FullFileDiffRows, HighlightedFileRows};
use crate::list::{indicator_line, min, scroll_indicator};
use crate::menu::{less, text_part};
use crate::number::{parse_signed, signed_in};
use crate::permission::{padded_rows, render_permission_preview_window, window_of};
use crate::render::{concat3, cut_line, safe, terminal_safe, truncate_line};
use crate::render_mcp::copy_rows;
use crate::scroll::{
    maximum_offset, scroll_window_metrics, ScrollViewAction, ScrollViewHit, ScrollViewState,
    ScrollViewWidget,
};
use crate::style::{
    append_lines, capped, line, line_views, push_line, raw_line, span, spans_width, Line, LineView,
    Role, SpanView, Style,
};
use crate::text::chars_of;
use crate::unicode::views;

verus! {

/// A text with a space for each line ending and each tab.
pub open spec fn flattened(text: Seq<char>) -> Seq<char> {
    text.map_values(|c: char| if c == '\n' || c == '\r' || c == '\t' { ' ' } else { c })
}

fn flatten(text: &str) -> (flat: String)
    ensures
        flat@ == flattened(text@),
{
    let chars: Vec<char> = chars_of(text);
    let mut flat: String = String::new();
    let mut i: usize = 0;
    while i < chars.len()
        invariant
            i <= chars@.len(),
            chars@ == text@,
            flat@ == flattened(text@).take(i as int),
        decreases chars@.len() - i,
    {
        let c: char = chars[i];
        if c == '\n' || c == '\r' || c == '\t' {
            flat.push(' ');
        } else {
            flat.push(c);
        }
        i += 1;
        proof {
            assert(flat@ =~= flattened(text@).take(i as int));
        }
    }
    proof {
        assert(flattened(text@).take(i as int) =~= flattened(text@));
    }
    flat
}

/// A span of a title: what has no style of its own takes the one of its place.
pub open spec fn title_span(part: SpanView, base: Style, style: Style) -> SpanView {
    let own = base.patch_spec(part.style);
    span(flattened(safe(part.text)), if own == Style::plain() { style } else { own })
}

/// The spans of a part of a title.
pub open spec fn title_spans(part: LineView, style: Style) -> Seq<SpanView> {
    part.spans.map_values(|piece: SpanView| title_span(piece, part.base, style))
}

/// A title with one more part, unless the part is empty. The first part is set off
/// by spaces, the others by a dot.
pub open spec fn title_with(title: (Seq<SpanView>, bool), part: LineView, style: Style) -> (
    Seq<SpanView>,
    bool,
) {
    if capped(spans_width(part.spans) as int) == 0 {
        title
    } else {
        (
            title.0.push(
                span(if title.1 { " \u{b7} "@ } else { "  "@ }, Style::of(Role::Dim)),
            ) + title_spans(part, style),
            true,
        )
    }
}

/// A title with the first `count` details.
pub open spec fn title_with_details(
    title: (Seq<SpanView>, bool),
    details: Seq<LineView>,
    count: int,
) -> (Seq<SpanView>, bool)
    decreases count,
{
    if count <= 0 {
        title
    } else {
        title_with(
            title_with_details(title, details, count - 1),
            details[count - 1],
            Style::of(Role::Dim),
        )
    }
}

/// The title of an expanded view: the title, its subject, and muted details.
pub open spec fn expanded_title_line(
    title: Seq<char>,
    subject: Option<LineView>,
    details: Seq<LineView>,
    width: int,
) -> LineView {
    let start = (
        seq![span("  "@, Style::plain()), span(title, Style::of(Role::MenuTitle))],
        false,
    );
    let named = match subject {
        None => start,
        Some(subject) => title_with(start, subject, Style::plain()),
    };
    cut_line(line(title_with_details(named, details, details.len() as int).0), width)
}

fn push_title_part(row: &mut Line, has_detail: &mut bool, part: &Line, style: Style)
    ensures
        (final(row)@.spans, *final(has_detail)) == title_with(
            (old(row)@.spans, *old(has_detail)),
            part@,
            style,
        ),
        final(row)@.base == old(row)@.base,
{
    if part.width() == 0 {
        return;
    }
    row.push_str(
        if *has_detail {
            " \u{b7} "
        } else {
            "  "
        },
        Style::of(Role::Dim),
    );
    let ghost head = row@.spans;
    let ghost all = title_spans(part@, style);
    let mut i: usize = 0;
    proof {
        assert(head + all.take(0) =~= head);
    }
    while i < part.spans.len()
        invariant
            i <= part.spans@.len(),
            all == title_spans(part@, style),
            row@.spans == head + all.take(i as int),
            row@.base == old(row)@.base,
        decreases part.spans@.len() - i,
    {
        let own: Style = part.base.patch(part.spans[i].style);
        proof {
            assert(part@.spans[i as int] == part.spans@[i as int]@);
        }
        row.push(
            flatten(terminal_safe(part.spans[i].text.as_str()).as_str()),
            if own == Style::plain() {
                style
            } else {
                own
            },
        );
        i += 1;
        proof {
            assert(row@.spans =~= head + all.take(i as int));
        }
    }
    proof {
        assert(all.take(i as int) =~= all);
    }
    *has_detail = true;
}

/// The title of an expanded view. Styles of the parts are kept.
pub fn expanded_title(title: &str, subject: Option<&Line>, details: &[Line], width: u16) -> (row: Line)
    ensures
        row@ == expanded_title_line(
            title@,
            match subject {
                None => None,
                Some(subject) => Some(subject@),
            },
            line_views(details@),
            width as int,
        ),
{
    let mut row = Line::new();
    let mut has_detail: bool = false;
    row.push_str("  ", Style::plain());
    row.push_str(title, Style::of(Role::MenuTitle));
    proof {
        assert(row@.spans =~= seq![
            span("  "@, Style::plain()),
            span(title@, Style::of(Role::MenuTitle)),
        ]);
    }
    if let Some(subject) = subject {
        push_title_part(&mut row, &mut has_detail, subject, Style::plain());
    }
    let ghost named = (row@.spans, has_detail);
    let ghost all = line_views(details@);
    let mut i: usize = 0;
    while i < details.len()
        invariant
            i <= details@.len(),
            all == line_views(details@),
            (row@.spans, has_detail) == title_with_details(named, all, i as int),
            row@.base == Style::plain(),
        decreases details@.len() - i,
    {
        push_title_part(&mut row, &mut has_detail, &details[i], Style::of(Role::Dim));
        i += 1;
    }
    truncate_line(row, width as usize)
}

/// A status with the time it took.
pub open spec fn status_text(status: Seq<char>, elapsed: Option<Seq<char>>) -> Seq<char> {
    match elapsed {
        Some(elapsed) => status + " "@ + elapsed,
        None => status,
    }
}

pub fn expanded_status_detail(status: &str, elapsed: Option<&str>) -> (row: Line)
    ensures
        row@ == raw_line(
            status_text(
                status@,
                match elapsed {
                    Some(elapsed) => Some(elapsed@),
                    None => None,
                },
            ),
        ),
{
    match elapsed {
        Some(elapsed) => Line::raw(concat3(status, " ", elapsed).as_str()),
        None => Line::raw(status),
    }
}

/// The number of the status with which a command ended, where a text says so.
pub open spec fn exit_status(completion: Seq<char>) -> Option<i64> {
    let head = "[exited with status "@;
    if completion.len() > head.len() && completion.take(head.len() as int) == head
        && completion.last() == ']' {
        signed_in(completion.subrange(head.len() as int, completion.len() - 1))
    } else {
        None
    }
}

/// How a terminal is doing.
pub open spec fn terminal_status(completion: Option<Seq<char>>) -> Seq<char> {
    match completion {
        None => "running"@,
        Some(completion) => match exit_status(completion) {
            Some(status) => if status != 0 && i32::MIN <= status <= i32::MAX {
                "failed"@
            } else {
                "completed"@
            },
            None => "completed"@,
        },
    }
}

fn exit_status_in(completion: &str) -> (status: Option<i64>)
    ensures
        status == exit_status(completion@),
{
    let head: Vec<char> = chars_of("[exited with status ");
    let chars: Vec<char> = chars_of(completion);
    if chars.len() <= head.len() || chars[chars.len() - 1] != ']' {
        return None;
    }
    let mut i: usize = 0;
    while i < head.len()
        invariant
            i <= head@.len() < chars@.len(),
            head@ == "[exited with status "@,
            chars@ == completion@,
            forall|k: int| 0 <= k < i ==> #[trigger] chars@[k] == head@[k],
        decreases head@.len() - i,
    {
        if chars[i] != head[i] {
            proof {
                assert(completion@.take(head@.len() as int)[i as int] != head@[i as int]);
            }
            return None;
        }
        i += 1;
    }
    proof {
        assert(completion@.take(head@.len() as int) =~= head@);
    }
    parse_signed(text_part(chars.as_slice(), head.len(), chars.len() - 1).as_str())
}

/// How a terminal is doing: `completion` is what was said when it ended.
pub fn expanded_terminal_status(completion: &Option<String>) -> (status: &'static str)
    ensures
        status@ == terminal_status(crate::interaction::text_view(*completion)),
{
    match completion {
        None => "running",
        Some(completion) => match exit_status_in(completion.as_str()) {
            Some(status) => if status != 0 && -0x8000_0000i64 <= status && status <= 0x7fff_ffffi64 {
                "failed"
            } else {
                "completed"
            },
            None => "completed",
        },
    }
}

/// The rows that a body of `body_rows` rows has below its header, and how far it
/// can be scrolled. Two rows are kept for the indicators; the upper one takes the
/// place of the last row of the header.
pub open spec fn text_metrics(
    header_rows: int,
    body_rows: int,
    viewport_rows: int,
    panel_rows: int,
) -> (
    int,
    int,
) {
    let capacity = min(viewport_rows, less(less(panel_rows, less(header_rows, 1)), 2));
    (capacity, maximum_offset(body_rows, capacity))
}

pub fn expanded_text_scroll_metrics(
    header_rows: usize,
    body_rows: usize,
    viewport_rows: usize,
    panel_rows: usize,
) -> (metrics: (usize, usize))
    ensures
        (metrics.0 as int, metrics.1 as int) == text_metrics(
            header_rows as int,
            body_rows as int,
            viewport_rows as int,
            panel_rows as int,
        ),
{
    let room: usize = panel_rows.saturating_sub(header_rows.saturating_sub(1)).saturating_sub(2);
    let capacity: usize = if viewport_rows <= room {
        viewport_rows
    } else {
        room
    };
    scroll_window_metrics(body_rows, capacity)
}

/// The rows that an expanded view shows of its body, and how far it can be scrolled. The
/// log of a sub-agent remembers how far that is.
pub fn expanded_scroll_metrics(
    view: &mut ExpandedView,
    header_rows: usize,
    body_rows: usize,
    viewport_rows: usize,
    panel_rows: usize,
) -> (metrics: (usize, usize))
    ensures
        (metrics.0 as int, metrics.1 as int) == text_metrics(
            header_rows as int,
            body_rows as int,
            viewport_rows as int,
            panel_rows as int,
        ),
        remembers(*old(view), *final(view), metrics.1),
{
    let metrics: (usize, usize) = expanded_text_scroll_metrics(
        header_rows,
        body_rows,
        viewport_rows,
        panel_rows,
    );
    remember(view, metrics.1);
    metrics
}

/// The rows that an expanded terminal shows of its output, and how far it can be
/// scrolled, which the terminal says itself.
pub fn terminal_scroll_metrics(maximum: usize, viewport_rows: usize) -> (metrics: (usize, usize))
    ensures
        metrics == (viewport_rows, maximum),
{
    (viewport_rows, maximum)
}

/// Whether the log of a sub-agent remembers how far it can be scrolled, and nothing else
/// differs.
pub open spec fn remembers(before: ExpandedView, after: ExpandedView, maximum: usize) -> bool {
    match before {
        ExpandedView::AgentLog { agent, task, log, error, streaming, max_scroll } => after == (
        ExpandedView::AgentLog {
            agent,
            task,
            log,
            error,
            streaming,
            max_scroll: Some(maximum),
        }),
        _ => after == before,
    }
}

fn remember(view: &mut ExpandedView, maximum: usize)
    ensures
        remembers(*old(view), *final(view), maximum),
{
    if let ExpandedView::AgentLog { max_scroll, .. } = view {
        *max_scroll = Some(maximum);
    }
}

/// The rows of an expanded view. The log of a sub-agent remembers how far it can be
/// scrolled.
pub fn expanded_surface_lines(
    view: &mut ExpandedView,
    content: &mut ExpandedTextContent,
    scroll: usize,
    viewport_rows: usize,
    panel_rows: usize,
) -> (lines: Vec<Line>)
    requires
        old(content).body.valid(),
    ensures
        final(content).header == old(content).header,
        final(content).inset == old(content).inset,
        final(content).body.valid(),
        final(content).body.rows() == old(content).body.rows(),
        content_shows(
            *old(content),
            *final(content),
            scroll as int,
            viewport_rows as int,
            panel_rows as int,
            line_views(lines@),
        ),
        remembers(
            *old(view),
            *final(view),
            text_metrics(
                old(content).header@.len() as int,
                old(content).body.rows(),
                viewport_rows as int,
                panel_rows as int,
            ).1 as usize,
        ),
{
    let metrics: (usize, usize) = expanded_text_scroll_metrics(
        content.header.len(),
        content.body.len(),
        viewport_rows,
        panel_rows,
    );
    remember(view, metrics.1);
    expanded_text_surface_lines(content, scroll, viewport_rows, panel_rows)
}

/// How far a changed file can be scrolled, and how many of its rows are shown.
pub fn full_file_diff_scroll_metrics(diff: &FullFileDiffRows, viewport_rows: usize) -> (metrics: (
    usize,
    usize,
))
    ensures
        (metrics.0 as int, metrics.1 as int) == text_metrics(
            2,
            diff.rows@.len(),
            viewport_rows as int,
            viewport_rows as int,
        ),
{
    expanded_text_scroll_metrics(2, diff.len(), viewport_rows, viewport_rows)
}

/// The body of an expanded view.
#[derive(Debug)]
pub enum ExpandedTextBody {
    Materialized(Vec<Line>),
    /// The first `prefix_len` rows of what is kept, and the rows behind them.
    AgentLog { prefix: Vec<Line>, prefix_len: usize, tail: Vec<Line> },
    HighlightedFile(HighlightedFileRows),
    FullFileDiff(FullFileDiffRows),
}

impl ExpandedTextBody {
    pub open spec fn valid(self) -> bool {
        match self {
            ExpandedTextBody::Materialized(_) => true,
            ExpandedTextBody::AgentLog { prefix, prefix_len, tail } => prefix_len <= prefix@.len(),
            ExpandedTextBody::HighlightedFile(_) => true,
            ExpandedTextBody::FullFileDiff(diff) => diff.valid(),
        }
    }

    /// How many rows the body has.
    pub open spec fn rows(self) -> int {
        match self {
            ExpandedTextBody::Materialized(rows) => rows@.len() as int,
            ExpandedTextBody::AgentLog { prefix, prefix_len, tail } => capped(
                prefix_len + tail@.len(),
            ),
            ExpandedTextBody::HighlightedFile(file) => file.rows@.len(),
            ExpandedTextBody::FullFileDiff(diff) => diff.rows@.len(),
        }
    }

    /// How many rows the body has.
    pub fn len(&self) -> (len: usize)
        requires
            self.valid(),
        ensures
            len == self.rows(),
    {
        match self {
            ExpandedTextBody::Materialized(rows) => rows.len(),
            ExpandedTextBody::AgentLog { prefix, prefix_len, tail } => prefix_len.saturating_add(
                tail.len(),
            ),
            ExpandedTextBody::HighlightedFile(file) => file.len(),
            ExpandedTextBody::FullFileDiff(diff) => diff.len(),
        }
    }

    /// The rows from a row on, at most `capacity` of them.
    pub fn visible_rows(&mut self, row: usize, capacity: usize) -> (rows: Vec<Line>)
        requires
            old(self).valid(),
        ensures
            body_shows(*old(self), *final(self), row as int, capacity as int, line_views(rows@)),
            final(self).valid(),
            final(self).rows() == old(self).rows(),
    {
        match self {
            ExpandedTextBody::Materialized(rows) => render_permission_preview_window(
                rows.as_slice(),
                row,
                capacity,
            ),
            ExpandedTextBody::AgentLog { prefix, prefix_len, tail } => {
                let mut all = copy_rows(prefix.as_slice(), 0, *prefix_len);
                append_lines(&mut all, copy_rows(tail.as_slice(), 0, tail.len()));
                proof {
                    assert(line_views(all@) =~= line_views(prefix@).take(*prefix_len as int)
                        + line_views(tail@));
                }
                render_permission_preview_window(all.as_slice(), row, capacity)
            },
            ExpandedTextBody::HighlightedFile(file) => file.visible_rows(row, capacity),
            ExpandedTextBody::FullFileDiff(diff) => diff.visible_rows(row, capacity),
        }
    }
}

/// What showing rows of a body does.
pub open spec fn body_shows(
    before: ExpandedTextBody,
    after: ExpandedTextBody,
    row: int,
    capacity: int,
    rows: Seq<LineView>,
) -> bool {
    match before {
        ExpandedTextBody::Materialized(all) => after == before && rows == window_of(
            line_views(all@),
            row,
            capacity,
        ),
        ExpandedTextBody::AgentLog { prefix, prefix_len, tail } => after == before && rows
            == window_of(
            line_views(prefix@).take(prefix_len as int) + line_views(tail@),
            row,
            capacity,
        ),
        ExpandedTextBody::HighlightedFile(file) => match after {
            ExpandedTextBody::HighlightedFile(kept) => file_shows(file, kept, row, capacity, rows)
                && shows_file(file, kept, row, capacity, rows),
            _ => false,
        },
        ExpandedTextBody::FullFileDiff(diff) => after == before && rows == diff_lines(
            diff,
            diff.rows@.window(row, capacity),
        ),
    }
}

/// What an expanded view shows.
#[derive(Debug)]
pub struct ExpandedTextContent {
    pub header: Vec<Line>,
    pub body: ExpandedTextBody,
    pub inset: bool,
}

/// A row set in by two columns.
pub open spec fn inset_line(row: LineView) -> LineView {
    LineView { spans: seq![span("  "@, Style::plain())] + row.spans, ..row }
}

pub fn inset_expanded_output_line(row: Line) -> (inset: Line)
    ensures
        inset@ == inset_line(row@),
{
    let mut inset = Line::new();
    inset.base = row.base;
    inset.push_str("  ", Style::plain());
    let ghost head = inset@.spans;
    inset.append(row);
    proof {
        assert(head =~= seq![span("  "@, Style::plain())]);
    }
    inset
}

/// The rows of the header without the last one, whose place the upper indicator
/// takes.
pub open spec fn header_kept(header: Seq<LineView>) -> Seq<LineView> {
    if header.len() == 0 { header } else { header.drop_last() }
}

/// Where the view of a body stands.
pub open spec fn body_state(rows: int, scroll: int, maximum: int) -> ScrollViewState {
    ScrollViewState { offset: min(scroll, maximum) as usize, content_rows: rows as usize }
}

/// The view of a body: its indicators lead to its ends.
pub open spec fn body_widget(capacity: int) -> ScrollViewWidget {
    ScrollViewWidget {
        up: ScrollViewAction::Home,
        down: ScrollViewAction::End,
        ..ScrollViewWidget::of(capacity)
    }
}

/// The rows of an expanded view, of whose body `visible` is shown.
pub open spec fn expanded_rows(
    header: Seq<LineView>,
    rows: int,
    visible: Seq<LineView>,
    inset: bool,
    scroll: int,
    viewport_rows: int,
    panel_rows: int,
) -> Seq<LineView> {
    let metrics = text_metrics(header.len() as int, rows, viewport_rows, panel_rows);
    let state = body_state(rows, scroll, metrics.1);
    let count = state.visible_end_spec(metrics.0) - state.offset;
    let shown = padded_rows(visible, count);
    header_kept(header) + body_widget(metrics.0).lines_spec(
        state,
        if inset { shown.map_values(|row: LineView| inset_line(row)) } else { shown },
    )
}

/// What showing an expanded view does: `lines` are its rows.
pub open spec fn content_shows(
    before: ExpandedTextContent,
    after: ExpandedTextContent,
    scroll: int,
    viewport_rows: int,
    panel_rows: int,
    lines: Seq<LineView>,
) -> bool {
    let rows = before.body.rows();
    let metrics = text_metrics(before.header@.len() as int, rows, viewport_rows, panel_rows);
    exists|visible: Seq<LineView>|
        #[trigger] body_shows(
            before.body,
            after.body,
            min(scroll, metrics.1),
            metrics.0,
            visible,
        ) && lines == expanded_rows(
            line_views(before.header@),
            rows,
            visible,
            before.inset,
            scroll,
            viewport_rows,
            panel_rows,
        )
}

/// The rows of an expanded view.
pub fn expanded_text_surface_lines(
    content: &mut ExpandedTextContent,
    scroll: usize,
    viewport_rows: usize,
    panel_rows: usize,
) -> (lines: Vec<Line>)
    requires
        old(content).body.valid(),
    ensures
        final(content).header == old(content).header,
        final(content).inset == old(content).inset,
        final(content).body.valid(),
        final(content).body.rows() == old(content).body.rows(),
        content_shows(
            *old(content),
            *final(content),
            scroll as int,
            viewport_rows as int,
            panel_rows as int,
            line_views(lines@),
        ),
{
    let rows: usize = content.body.len();
    let (capacity, maximum) = expanded_text_scroll_metrics(
        content.header.len(),
        rows,
        viewport_rows,
        panel_rows,
    );
    let offset: usize = if scroll <= maximum {
        scroll
    } else {
        maximum
    };
    let state = ScrollViewState { offset, content_rows: rows };
    let ghost header = line_views(content.header@);
    proof {
        assert(header.len() == content.header@.len());
        assert(state == body_state(rows as int, scroll as int, maximum as int));
    }
    let kept: usize = content.header.len().saturating_sub(1);
    let mut lines = copy_rows(content.header.as_slice(), 0, kept);
    proof {
        assert(line_views(lines@) =~= header_kept(header));
    }
    let visible = content.body.visible_rows(offset, capacity);
    let range = state.visible_range(capacity);
    let ghost padded = padded_rows(line_views(visible@), range.1 - range.0);
    let ghost all = if content.inset {
        padded.map_values(|row: LineView| inset_line(row))
    } else {
        padded
    };
    let mut shown: Vec<Line> = Vec::new();
    let mut i: usize = 0;
    while i < range.1 - range.0
        invariant
            range.0 <= range.1,
            i <= range.1 - range.0,
            padded == padded_rows(line_views(visible@), range.1 - range.0),
            all == if content.inset {
                padded.map_values(|row: LineView| inset_line(row))
            } else {
                padded
            },
            line_views(shown@) == all.take(i as int),
        decreases range.1 - range.0 - i,
    {
        let row: Line = if i < visible.len() {
            visible[i].copy()
        } else {
            Line::new()
        };
        proof {
            assert(row@ == padded[i as int]);
        }
        if content.inset {
            push_line(&mut shown, inset_expanded_output_line(row));
        } else {
            push_line(&mut shown, row);
        }
        i += 1;
        proof {
            assert(line_views(shown@) =~= all.take(i as int));
        }
    }
    proof {
        assert(all.take(i as int) =~= all);
    }
    let widget = ScrollViewWidget::new(capacity).indicators(
        ScrollViewAction::Home,
        ScrollViewAction::End,
    );
    append_lines(&mut lines, widget.render(&state, shown).lines);
    proof {
        assert(body_shows(
            old(content).body,
            content.body,
            offset as int,
            capacity as int,
            line_views(visible@),
        ));
    }
    lines
}

/// The rows of a terminal that is expanded, above what it shows.
pub open spec fn terminal_header(
    command: LineView,
    completion: Option<Seq<char>>,
    elapsed: Option<Seq<char>>,
    scroll: int,
    width: int,
) -> Seq<LineView> {
    seq![
        expanded_title_line(
            "Bash output"@,
            Some(command),
            seq![raw_line(status_text(terminal_status(completion), elapsed))],
            width,
        ),
        indicator_line(true, scroll > 0),
    ]
}

pub fn expanded_terminal_lines(
    command: &Line,
    completion: &Option<String>,
    elapsed: Option<&str>,
    scroll: usize,
    width: u16,
) -> (lines: Vec<Line>)
    ensures
        line_views(lines@) == terminal_header(
            command@,
            crate::interaction::text_view(*completion),
            match elapsed {
                Some(elapsed) => Some(elapsed@),
                None => None,
            },
            scroll as int,
            width as int,
        ),
{
    let mut details: Vec<Line> = Vec::new();
    push_line(
        &mut details,
        expanded_status_detail(expanded_terminal_status(completion), elapsed),
    );
    let mut lines: Vec<Line> = Vec::new();
    let ghost shown = details@[0]@;
    proof {
        assert(line_views(details@) =~= seq![shown]);
        assert(line_views(details@)[0] == shown);
    }
    push_line(
        &mut lines,
        expanded_title("Bash output", Some(command), details.as_slice(), width),
    );
    push_line(&mut lines, scroll_indicator(true, scroll > 0));
    proof {
        assert(line_views(lines@) =~= terminal_header(
            command@,
            crate::interaction::text_view(*completion),
            match elapsed {
                Some(elapsed) => Some(elapsed@),
                None => None,
            },
            scroll as int,
            width as int,
        ));
    }
    lines
}

/// What an indicator of an expanded view leads to, if there is one on a row, with
/// the rows that are shown and how far the view can be scrolled.
pub open spec fn indicator_at(
    header_rows: int,
    rows: int,
    scroll: int,
    viewport_rows: int,
    panel_rows: int,
    row: int,
) -> Option<(ScrollViewAction, int, int)> {
    let metrics = text_metrics(header_rows, rows, viewport_rows, panel_rows);
    let state = body_state(rows, scroll, metrics.1);
    let hits = body_widget(metrics.0).hits_spec(state);
    let at = row - less(header_rows, 1);
    if 0 <= at < hits.len() {
        match hits[at] {
            ScrollViewHit::Indicator(action) => Some((action, metrics.0, metrics.1)),
            _ => None,
        }
    } else {
        None
    }
}

pub fn expanded_indicator_action(
    header_rows: usize,
    rows: usize,
    scroll: usize,
    viewport_rows: usize,
    panel_rows: usize,
    row: usize,
) -> (action: Option<(ScrollViewAction, usize, usize)>)
    ensures
        match indicator_at(
            header_rows as int,
            rows as int,
            scroll as int,
            viewport_rows as int,
            panel_rows as int,
            row as int,
        ) {
            None => action is None,
            Some(found) => action == Some((found.0, found.1 as usize, found.2 as usize)),
        },
{
    let (capacity, maximum) = expanded_text_scroll_metrics(
        header_rows,
        rows,
        viewport_rows,
        panel_rows,
    );
    let above: usize = header_rows.saturating_sub(1);
    if row < above {
        return None;
    }
    let state = ScrollViewState {
        offset: if scroll <= maximum {
            scroll
        } else {
            maximum
        },
        content_rows: rows,
    };
    let hits = ScrollViewWidget::new(capacity).indicators(
        ScrollViewAction::Home,
        ScrollViewAction::End,
    ).hits(&state);
    if row - above < hits.len() {
        match hits[row - above] {
            ScrollViewHit::Indicator(action) => Some((action, capacity, maximum)),
            _ => None,
        }
    } else {
        None
    }
}

/// What showing rows of a body does: each comes with the row of the surface on which
/// it stands.
pub open spec fn rows_shown(
    before: ExpandedTextContent,
    after: ExpandedTextContent,
    scroll: int,
    viewport_rows: int,
    panel_rows: int,
    rows: Seq<(usize, Line)>,
) -> bool {
    let metrics = text_metrics(
        before.header@.len() as int,
        before.body.rows(),
        viewport_rows,
        panel_rows,
    );
    exists|visible: Seq<LineView>|
        #[trigger] body_shows(
            before.body,
            after.body,
            min(scroll, metrics.1),
            metrics.0,
            visible,
        ) && rows.len() == visible.len() && forall|i: int|
            0 <= i < visible.len() ==> (#[trigger] rows[i]).1@ == visible[i] && rows[i].0
                == capped(before.header@.len() + i)
}

/// The rows of a body that are shown, with the rows of the surface on which they
/// stand.
pub fn expanded_visible_rows(
    content: &mut ExpandedTextContent,
    scroll: usize,
    viewport_rows: usize,
    panel_rows: usize,
) -> (rows: Vec<(usize, Line)>)
    requires
        old(content).body.valid(),
    ensures
        final(content).header == old(content).header,
        final(content).inset == old(content).inset,
        final(content).body.valid(),
        rows_shown(
            *old(content),
            *final(content),
            scroll as int,
            viewport_rows as int,
            panel_rows as int,
            rows@,
        ),
{
    let total: usize = content.body.len();
    let above: usize = content.header.len();
    let (capacity, maximum) = expanded_text_scroll_metrics(above, total, viewport_rows, panel_rows);
    let offset: usize = if scroll <= maximum {
        scroll
    } else {
        maximum
    };
    let visible = content.body.visible_rows(offset, capacity);
    let ghost all = line_views(visible@);
    let mut rows: Vec<(usize, Line)> = Vec::new();
    let mut i: usize = 0;
    while i < visible.len()
        invariant
            i <= visible@.len(),
            all == line_views(visible@),
            above == content.header@.len(),
            rows@.len() == i,
            forall|k: int|
                0 <= k < i ==> (#[trigger] rows@[k]).1@ == all[k] && rows@[k].0 == capped(
                    above + k,
                ),
        decreases visible@.len() - i,
    {
        rows.push((above.saturating_add(i), visible[i].copy()));
        i += 1;
    }
    proof {
        assert(all.len() == visible@.len());
        let metrics = text_metrics(
            old(content).header@.len() as int,
            old(content).body.rows(),
            viewport_rows as int,
            panel_rows as int,
        );
        assert(metrics.0 == capacity && min(scroll as int, metrics.1) == offset);
        assert(body_shows(
            old(content).body,
            content.body,
            min(scroll as int, metrics.1),
            metrics.0,
            all,
        ));
        assert forall|i: int| 0 <= i < all.len() implies (#[trigger] rows@[i]).1@ == all[i]
            && rows@[i].0 == capped(old(content).header@.len() + i) by {}
    }
    rows
}

/// What an expanded view was laid out for: which one it is, in which state, and how
/// wide.
#[derive(Clone, Copy, Debug, PartialEq, Eq, Structural)]
pub struct ExpandedTextCacheKey {
    pub source: ExpandedSource,
    pub width: u16,
}

/// Which view, and in which state.
#[derive(Clone, Copy, Debug, PartialEq, Eq, Structural)]
pub enum ExpandedSource {
    Invalid,
    /// A view whose contents stay as they are.
    Fixed(usize),
    /// A text with its length.
    Text(usize, usize),
    /// A page that was fetched, with its length and format.
    Page(usize, usize, u8),
    /// The log of a run, what is being written, and its terminals, with their
    /// lengths.
    Log(usize, usize, usize, usize, usize),
    File(usize),
    /// The changes to a file.
    Changes(usize),
    /// A directory, how often it changed, and its selected entry.
    Directory(usize, u64, usize),
}

/// An expanded view that is laid out, with what is kept of the log of a sub-agent.
#[derive(Debug)]
pub struct ExpandedTextRenderCache {
    pub key: ExpandedTextCacheKey,
    pub content: ExpandedTextContent,
    pub agent: AgentLogLayout,
}

/// Whether what is laid out can be used. While a file is resized, its layout for
/// another width is good enough.
pub open spec fn reusable(
    kept: Option<ExpandedTextCacheKey>,
    wanted: ExpandedTextCacheKey,
    keep_file: bool,
) -> bool {
    match kept {
        None => false,
        Some(key) => key == wanted || (keep_file && key.source is File && key.source
            == wanted.source),
    }
}

pub open spec fn kept_key(cache: Option<ExpandedTextRenderCache>) -> Option<ExpandedTextCacheKey> {
    match cache {
        None => None,
        Some(cache) => Some(cache.key),
    }
}

/// Whether a layout is what is kept of the log of a sub-agent; of a log that is not kept
/// nothing is laid out.
pub open spec fn is_kept_log(cache: Option<ExpandedTextRenderCache>, agent: AgentLogLayout) -> bool {
    match cache {
        Some(cache) => agent == cache.agent,
        None => agent.identity is None && agent.valid(),
    }
}

/// Lays out a view, unless what is laid out can be used. The layout is given what is kept
/// of the log of a sub-agent, and hands back what is to be kept of it.
pub fn refresh_expanded_text<F: FnOnce(AgentLogLayout) -> (ExpandedTextContent, AgentLogLayout)>(
    cache: &mut Option<ExpandedTextRenderCache>,
    key: ExpandedTextCacheKey,
    keep_file: bool,
    layout: F,
)
    requires
        layouts_valid(*old(cache), layout),
    ensures
        *final(cache) is Some,
        final(cache)->0.content.body.valid(),
        final(cache)->0.agent.valid(),
        reusable(kept_key(*old(cache)), key, keep_file) ==> *final(cache) == *old(cache),
        !reusable(kept_key(*old(cache)), key, keep_file) ==> final(cache)->0.key == key,
        is_used(
            *old(cache),
            key,
            keep_file,
            layout,
            final(cache)->0.content,
            final(cache)->0.agent,
        ),
{
    let reuse: bool = match &*cache {
        None => false,
        Some(kept) => {
            let same_file: bool = match kept.key.source {
                ExpandedSource::File(_) => kept.key.source == key.source,
                _ => false,
            };
            kept.key == key || (keep_file && same_file)
        },
    };
    if !reuse {
        let agent: AgentLogLayout = match cache.take() {
            Some(kept) => kept.agent,
            None => AgentLogLayout::new(),
        };
        let ghost before = agent;
        let (content, agent) = layout(agent);
        proof {
            assert(is_kept_log(*old(cache), before));
            assert(layout.ensures((before,), (content, agent)));
        }
        *cache = Some(ExpandedTextRenderCache { key, content, agent });
    }
}

/// Whether the layouts that can be made, and the one that is kept, can be shown.
pub open spec fn layouts_valid<
    F: FnOnce(AgentLogLayout) -> (ExpandedTextContent, AgentLogLayout),
>(cache: Option<ExpandedTextRenderCache>, layout: F) -> bool {
    &&& forall|agent: AgentLogLayout| #[trigger] agent.valid() ==> layout.requires((agent,))
    &&& forall|agent: AgentLogLayout, made: (ExpandedTextContent, AgentLogLayout)| #[trigger]
        layout.ensures((agent,), made) ==> made.0.body.valid() && made.1.valid()
    &&& cache is Some ==> cache->0.content.body.valid() && cache->0.agent.valid()
}

/// Whether a content is the one that is used, and a layout of a log the one that is then
/// kept: those that are kept, or new ones.
pub open spec fn is_used<F: FnOnce(AgentLogLayout) -> (ExpandedTextContent, AgentLogLayout)>(
    cache: Option<ExpandedTextRenderCache>,
    key: ExpandedTextCacheKey,
    keep_file: bool,
    layout: F,
    content: ExpandedTextContent,
    agent: AgentLogLayout,
) -> bool {
    if reusable(kept_key(cache), key, keep_file) {
        cache is Some && content == cache->0.content && agent == cache->0.agent
    } else {
        exists|before: AgentLogLayout|
            #[trigger] is_kept_log(cache, before) && layout.ensures((before,), (content, agent))
    }
}

/// A header whose first row is another one, where one is given.
pub open spec fn retitled(header: Seq<LineView>, title: Option<LineView>) -> Seq<LineView> {
    match title {
        Some(title) => if header.len() > 0 { header.update(0, title) } else { header },
        None => header,
    }
}

/// What showing an expanded view does: it is laid out only where that is needed, `title`
/// takes the place of its title, where one is given, and `lines` are its rows.
pub open spec fn view_shown<F: FnOnce(AgentLogLayout) -> (ExpandedTextContent, AgentLogLayout)>(
    before: Option<ExpandedTextRenderCache>,
    after: Option<ExpandedTextRenderCache>,
    key: ExpandedTextCacheKey,
    keep_file: bool,
    layout: F,
    title: Option<LineView>,
    scroll: int,
    viewport_rows: int,
    panel_rows: int,
    lines: Seq<LineView>,
) -> bool {
    &&& after is Some
    &&& after->0.key == if reusable(kept_key(before), key, keep_file) {
        before->0.key
    } else {
        key
    }
    &&& after->0.content.body.valid()
    &&& after->0.agent.valid()
    &&& exists|used: ExpandedTextContent, shown: ExpandedTextContent|
        {
            &&& #[trigger] is_used(before, key, keep_file, layout, used, after->0.agent)
            &&& #[trigger] content_shows(
                shown,
                after->0.content,
                scroll,
                viewport_rows,
                panel_rows,
                lines,
            )
            &&& shown.body == used.body
            &&& shown.inset == used.inset
            &&& line_views(shown.header@) == retitled(line_views(used.header@), title)
            &&& after->0.content.header == shown.header
            &&& after->0.content.inset == shown.inset
        }
}

/// The rows of an expanded view, which is laid out only where that is needed.
/// `title` takes the place of a title that changes all the time.
pub fn cached_expanded_surface_lines<
    F: FnOnce(AgentLogLayout) -> (ExpandedTextContent, AgentLogLayout),
>(
    cache: &mut Option<ExpandedTextRenderCache>,
    key: ExpandedTextCacheKey,
    keep_file: bool,
    layout: F,
    title: Option<Line>,
    scroll: usize,
    viewport_rows: usize,
    panel_rows: usize,
) -> (lines: Vec<Line>)
    requires
        layouts_valid(*old(cache), layout),
    ensures
        view_shown(
            *old(cache),
            *final(cache),
            key,
            keep_file,
            layout,
            match title {
                Some(title) => Some(title@),
                None => None,
            },
            scroll as int,
            viewport_rows as int,
            panel_rows as int,
            line_views(lines@),
        ),
{
    refresh_expanded_text(cache, key, keep_file, layout);
    let mut lines: Vec<Line> = Vec::new();
    let ghost used = cache->0.content;
    proof {
        assert(is_used(*old(cache), key, keep_file, layout, used, cache->0.agent));
    }
    if let Some(kept) = cache {
        if let Some(title) = title {
            if kept.content.header.len() > 0 {
                let ghost before = line_views(kept.content.header@);
                kept.content.header.set(0, title);
                proof {
                    assert(line_views(kept.content.header@) =~= before.update(0, title@));
                }
            }
        }
        let ghost shown = kept.content;
        lines = expanded_text_surface_lines(
            &mut kept.content,
            scroll,
            viewport_rows,
            panel_rows,
        );
        proof {
            assert(content_shows(
                shown,
                kept.content,
                scroll as int,
                viewport_rows as int,
                panel_rows as int,
                line_views(lines@),
            ));
        }
    }
    lines
}

/// How far an expanded view can be scrolled, and how many of its rows are shown. It is
/// laid out only where that is needed.
pub fn cached_expanded_scroll_metrics<
    F: FnOnce(AgentLogLayout) -> (ExpandedTextContent, AgentLogLayout),
>(
    cache: &mut Option<ExpandedTextRenderCache>,
    key: ExpandedTextCacheKey,
    layout: F,
    viewport_rows: usize,
    panel_rows: usize,
) -> (metrics: (usize, usize))
    requires
        layouts_valid(*old(cache), layout),
    ensures
        *final(cache) is Some,
        final(cache)->0.content.body.valid(),
        final(cache)->0.agent.valid(),
        is_used(
            *old(cache),
            key,
            false,
            layout,
            final(cache)->0.content,
            final(cache)->0.agent,
        ),
        (metrics.0 as int, metrics.1 as int) == text_metrics(
            final(cache)->0.content.header@.len() as int,
            final(cache)->0.content.body.rows(),
            viewport_rows as int,
            panel_rows as int,
        ),
{
    refresh_expanded_text(cache, key, false, layout);
    match &*cache {
        Some(kept) => expanded_text_scroll_metrics(
            kept.content.header.len(),
            kept.content.body.len(),
            viewport_rows,
            panel_rows,
        ),
        None => (0, 0),
    }
}

/// The rows of the body of an expanded view that are shown, with the rows of the
/// surface on which they stand. It is laid out only where that is needed.
pub fn cached_expanded_visible_path_rows<
    F: FnOnce(AgentLogLayout) -> (ExpandedTextContent, AgentLogLayout),
>(
    cache: &mut Option<ExpandedTextRenderCache>,
    key: ExpandedTextCacheKey,
    layout: F,
    scroll: usize,
    viewport_rows: usize,
    panel_rows: usize,
) -> (rows: Vec<(usize, Line)>)
    requires
        layouts_valid(*old(cache), layout),
    ensures
        *final(cache) is Some,
        final(cache)->0.content.body.valid(),
        final(cache)->0.agent.valid(),
        exists|used: ExpandedTextContent|
            #[trigger] is_used(
                *old(cache),
                key,
                false,
                layout,
                used,
                final(cache)->0.agent,
            ) && rows_shown(
                used,
                final(cache)->0.content,
                scroll as int,
                viewport_rows as int,
                panel_rows as int,
                rows@,
            ),
{
    refresh_expanded_text(cache, key, false, layout);
    let ghost used = cache->0.content;
    proof {
        assert(is_used(*old(cache), key, false, layout, used, cache->0.agent));
    }
    let mut rows: Vec<(usize, Line)> = Vec::new();
    if let Some(kept) = cache {
        rows = expanded_visible_rows(&mut kept.content, scroll, viewport_rows, panel_rows);
    }
    rows
}

/// What the indicator on a row of an expanded view leads to, if there is one. The view
/// is laid out only where that is needed.
pub fn cached_expanded_indicator_action<
    F: FnOnce(AgentLogLayout) -> (ExpandedTextContent, AgentLogLayout),
>(
    cache: &mut Option<ExpandedTextRenderCache>,
    key: ExpandedTextCacheKey,
    layout: F,
    scroll: usize,
    viewport_rows: usize,
    panel_rows: usize,
    row: usize,
) -> (action: Option<(ScrollViewAction, usize, usize)>)
    requires
        layouts_valid(*old(cache), layout),
    ensures
        *final(cache) is Some,
        final(cache)->0.content.body.valid(),
        final(cache)->0.agent.valid(),
        is_used(
            *old(cache),
            key,
            false,
            layout,
            final(cache)->0.content,
            final(cache)->0.agent,
        ),
        match indicator_at(
            final(cache)->0.content.header@.len() as int,
            final(cache)->0.content.body.rows(),
            scroll as int,
            viewport_rows as int,
            panel_rows as int,
            row as int,
        ) {
            None => action is None,
            Some(found) => action == Some((found.0, found.1 as usize, found.2 as usize)),
        },
{
    refresh_expanded_text(cache, key, false, layout);
    match &*cache {
        Some(kept) => expanded_indicator_action(
            kept.content.header.len(),
            kept.content.body.len(),
            scroll,
            viewport_rows,
            panel_rows,
            row,
        ),
        None => None,
    }
}

/// Has a view laid out anew the next time.
pub fn invalidate_expanded_text(cache: &mut Option<ExpandedTextRenderCache>)
    ensures
        *old(cache) is None ==> *final(cache) is None,
        *old(cache) is Some ==> *final(cache) is Some && final(cache)->0.content == old(
            cache,
        )->0.content && final(cache)->0.agent == old(cache)->0.agent && final(cache)->0.key == (
        ExpandedTextCacheKey {
            source: ExpandedSource::Invalid,
            ..old(cache)->0.key
        }),
{
    if let Some(kept) = cache {
        kept.key = ExpandedTextCacheKey { source: ExpandedSource::Invalid, ..kept.key };
    }
}

/// What was made invalid is laid out anew, whatever is asked for.
pub proof fn law_invalid_layouts_are_not_used(
    kept: ExpandedTextCacheKey,
    wanted: ExpandedTextCacheKey,
    keep_file: bool,
)
    requires
        kept.source is Invalid,
        !(wanted.source is Invalid),
    ensures
        !reusable(Some(kept), wanted, keep_file),
{
}

/// A click meets an indicator where one is drawn: the first stands in the place of
/// the header's last row and is there when the view is scrolled, the second stands
/// below the body. The view fits its panel wherever the header leaves it room.
pub proof fn law_indicators_are_met(
    header: Seq<LineView>,
    rows: int,
    visible: Seq<LineView>,
    inset: bool,
    scroll: int,
    viewport_rows: int,
    panel_rows: int,
    row: int,
)
    requires
        0 <= rows <= usize::MAX,
        0 <= scroll,
        0 <= viewport_rows <= usize::MAX,
        0 <= panel_rows <= usize::MAX,
    ensures
        ({
            let shown = expanded_rows(
                header,
                rows,
                visible,
                inset,
                scroll,
                viewport_rows,
                panel_rows,
            );
            let found = indicator_at(
                header.len() as int,
                rows,
                scroll,
                viewport_rows,
                panel_rows,
                row,
            );
            let metrics = text_metrics(header.len() as int, rows, viewport_rows, panel_rows);
            let first = less(header.len() as int, 1);
            let last = shown.len() - 1;
            &&& found is Some <==> {
                ||| row == first && min(scroll, metrics.1) > 0
                ||| row == last && min(scroll, metrics.1) + metrics.0 < rows
            }
            &&& found == Some((ScrollViewAction::Home, metrics.0, metrics.1)) ==> row == first
                && shown[row] == indicator_line(true, true)
            &&& found == Some((ScrollViewAction::End, metrics.0, metrics.1)) ==> row == last
                && shown[row] == indicator_line(false, true)
            &&& first + 2 <= panel_rows ==> shown.len() <= panel_rows
        }),
{
}

/// Showing the same rows of a body again shows the same.
proof fn lemma_shown_again(
    before: ExpandedTextBody,
    during: ExpandedTextBody,
    after: ExpandedTextBody,
    row: int,
    capacity: int,
    rows: Seq<LineView>,
    again: Seq<LineView>,
)
    requires
        body_shows(before, during, row, capacity, rows),
        body_shows(during, after, row, capacity, again),
    ensures
        again == rows,
        during.rows() == before.rows(),
{
    match before {
        ExpandedTextBody::HighlightedFile(file) => {
            if capacity == 0 || row >= file.rows@.len() {
                assert(again =~= rows);
            }
        },
        _ => {},
    }
}

/// While a file is resized its layout is used again, whatever its width: the same rows
/// are shown. Once that is over, it is laid out anew.
pub proof fn law_resized_files_keep_their_layout<
    F: FnOnce(AgentLogLayout) -> (ExpandedTextContent, AgentLogLayout),
    G: FnOnce(AgentLogLayout) -> (ExpandedTextContent, AgentLogLayout),
    H: FnOnce(AgentLogLayout) -> (ExpandedTextContent, AgentLogLayout),
>(
    empty: Option<ExpandedTextRenderCache>,
    first: Option<ExpandedTextRenderCache>,
    second: Option<ExpandedTextRenderCache>,
    third: Option<ExpandedTextRenderCache>,
    narrow: ExpandedTextCacheKey,
    wide: ExpandedTextCacheKey,
    layout: F,
    other: G,
    last: H,
    scroll: int,
    viewport_rows: int,
    panel_rows: int,
    initial: Seq<LineView>,
    dragging: Seq<LineView>,
    released: Seq<LineView>,
)
    requires
        empty is None,
        narrow.source is File,
        wide.source == narrow.source,
        wide.width != narrow.width,
        view_shown(
            empty,
            first,
            narrow,
            false,
            layout,
            None,
            scroll,
            viewport_rows,
            panel_rows,
            initial,
        ),
        view_shown(
            first,
            second,
            wide,
            true,
            other,
            None,
            scroll,
            viewport_rows,
            panel_rows,
            dragging,
        ),
        view_shown(
            second,
            third,
            wide,
            false,
            last,
            None,
            scroll,
            viewport_rows,
            panel_rows,
            released,
        ),
    ensures
        dragging == initial,
        third->0.key == wide,
        exists|kept: AgentLogLayout, made: ExpandedTextContent, shown: ExpandedTextContent|
            {
                &&& #[trigger] last.ensures((kept,), (made, third->0.agent))
                &&& #[trigger] content_shows(
                    shown,
                    third->0.content,
                    scroll,
                    viewport_rows,
                    panel_rows,
                    released,
                )
                &&& shown.body == made.body
                &&& shown.inset == made.inset
                &&& line_views(shown.header@) == line_views(made.header@)
            },
{
    let (used1, shown1) = choose|used: ExpandedTextContent, shown: ExpandedTextContent|
        {
            &&& #[trigger] is_used(empty, narrow, false, layout, used, first->0.agent)
            &&& #[trigger] content_shows(
                shown,
                first->0.content,
                scroll,
                viewport_rows,
                panel_rows,
                initial,
            )
            &&& shown.body == used.body
            &&& shown.inset == used.inset
            &&& line_views(shown.header@) == retitled(line_views(used.header@), None)
            &&& first->0.content.header == shown.header
            &&& first->0.content.inset == shown.inset
        };
    let (used2, shown2) = choose|used: ExpandedTextContent, shown: ExpandedTextContent|
        {
            &&& #[trigger] is_used(first, wide, true, other, used, second->0.agent)
            &&& #[trigger] content_shows(
                shown,
                second->0.content,
                scroll,
                viewport_rows,
                panel_rows,
                dragging,
            )
            &&& shown.body == used.body
            &&& shown.inset == used.inset
            &&& line_views(shown.header@) == retitled(line_views(used.header@), None)
            &&& second->0.content.header == shown.header
            &&& second->0.content.inset == shown.inset
        };
    assert(reusable(kept_key(first), wide, true));
    assert(used2 == first->0.content);
    assert(line_views(shown2.header@).len() == shown2.header@.len());
    assert(line_views(shown1.header@).len() == shown1.header@.len());
    let rows = shown1.body.rows();
    let metrics = text_metrics(shown1.header@.len() as int, rows, viewport_rows, panel_rows);
    let row = min(scroll, metrics.1);
    let visible1 = choose|visible: Seq<LineView>|
        #[trigger] body_shows(shown1.body, first->0.content.body, row, metrics.0, visible)
            && initial == expanded_rows(
            line_views(shown1.header@),
            rows,
            visible,
            shown1.inset,
            scroll,
            viewport_rows,
            panel_rows,
        );
    lemma_rows_kept(shown1.body, first->0.content.body, row, metrics.0, visible1);
    let visible2 = choose|visible: Seq<LineView>|
        #[trigger] body_shows(shown2.body, second->0.content.body, row, metrics.0, visible)
            && dragging == expanded_rows(
            line_views(shown2.header@),
            rows,
            visible,
            shown2.inset,
            scroll,
            viewport_rows,
            panel_rows,
        );
    lemma_shown_again(
        shown1.body,
        first->0.content.body,
        second->0.content.body,
        row,
        metrics.0,
        visible1,
        visible2,
    );
    assert(!reusable(kept_key(second), wide, false));
    let (used3, shown3) = choose|used: ExpandedTextContent, shown: ExpandedTextContent|
        {
            &&& #[trigger] is_used(second, wide, false, last, used, third->0.agent)
            &&& #[trigger] content_shows(
                shown,
                third->0.content,
                scroll,
                viewport_rows,
                panel_rows,
                released,
            )
            &&& shown.body == used.body
            &&& shown.inset == used.inset
            &&& line_views(shown.header@) == retitled(line_views(used.header@), None)
            &&& third->0.content.header == shown.header
            &&& third->0.content.inset == shown.inset
        };
    let kept = choose|kept: AgentLogLayout|
        #[trigger] is_kept_log(second, kept) && last.ensures((kept,), (used3, third->0.agent));
    assert(last.ensures((kept,), (used3, third->0.agent)));
}

/// Showing rows of a body leaves its rows.
pub proof fn lemma_rows_kept(
    before: ExpandedTextBody,
    after: ExpandedTextBody,
    row: int,
    capacity: int,
    rows: Seq<LineView>,
)
    requires
        body_shows(before, after, row, capacity, rows),
    ensures
        after.rows() == before.rows(),
{
}

/// Whether the rows that a body shows from a row on are all counted. Of a changed file that
/// is so where the rows that are asked for do not reach its end, or where the lines up to
/// its end have the rows that they are taken to have.
pub open spec fn counts_rows(body: ExpandedTextBody, row: int, capacity: int) -> bool {
    match body {
        ExpandedTextBody::FullFileDiff(diff) => row + capacity <= body.rows() || row >= body.rows()
            || diff.rows@.tail(row).len() == body.rows() - row,
        _ => true,
    }
}

/// A body counts the rows that it shows: from any row on, at least as many are shown as are
/// asked for and are left, and exactly as many wherever the rows are all counted. Rows of a
/// log are counted where there is a number for them.
pub proof fn law_bodies_count_their_rows(
    before: ExpandedTextBody,
    after: ExpandedTextBody,
    row: int,
    capacity: int,
    rows: Seq<LineView>,
)
    requires
        0 <= row,
        0 <= capacity,
        body_shows(before, after, row, capacity, rows),
        before matches ExpandedTextBody::AgentLog { prefix, prefix_len, tail } ==> prefix_len
            <= prefix@.len() && prefix_len + tail@.len() <= usize::MAX,
        before matches ExpandedTextBody::FullFileDiff(diff) ==> diff.rows@.valid(),
    ensures
        min(capacity, less(before.rows(), row)) <= rows.len() <= capacity,
        rows.len() == min(capacity, less(before.rows(), row)) <==> counts_rows(
            before,
            row,
            capacity,
        ),
        before matches ExpandedTextBody::FullFileDiff(diff) ==> (diff.rows@.exact()
            ==> counts_rows(before, row, capacity)),
{
    match before {
        ExpandedTextBody::FullFileDiff(diff) => {
            let file = diff.rows@;
            law_windows_are_filled(file, row, capacity);
            if row < file.len() {
                law_rows_are_counted(file, row);
            }
        },
        ExpandedTextBody::Materialized(all) => {
            assert(line_views(all@).len() == all@.len());
        },
        ExpandedTextBody::AgentLog { prefix, prefix_len, tail } => {
            assert(line_views(prefix@).len() == prefix@.len());
            assert(line_views(tail@).len() == tail@.len());
        },
        _ => {},
    }
}

} // verus!
