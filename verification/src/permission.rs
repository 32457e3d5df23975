//! The prompt that asks for a permission: what is asked, a preview that scrolls,
//! the choices, and the note that goes with a denial.

use vstd::prelude::*;
use vstd::string::*;
use crate::code_lines::{
    code_spans, json_preview_lines, json_rows, line_tokens, push_highlighted, tokens_fit,
};
use crate::dialogs::{note_input_layout, note_rows};
use crate::input_syntax::CodeToken;
use crate::interaction::Permission;
use crate::json::entry_views;
use crate::lines::{lines_of, split_lines};
use crate::list::{max, settled, ListState, ListWidget};
use crate::mcp_package::{separate, separated};
use crate::menu::{choices_of, less, list_rows, menu_title, render_list, same_text, title_line};
use crate::render::{concat, concat3, safe, terminal_safe, wrap_log_line, wrapped_line};
use crate::render_mcp::{copy_rows, text_choice_lines};
use crate::render_setup::{dim_line, dimmed_line};
use crate::scroll::{ScrollViewLayout, ScrollViewMetrics, ScrollViewState, ScrollViewWidget};
use crate::single_line_input::InputView;
use crate::style::{
    append_lines, blank_line, capped, line, line_views, push_line, span, Line, LineView, Role,
    SpanView, Style,
};
use crate::text::chars_of;
use crate::unicode::views;

verus! {

/// What a permission is asked for.
#[derive(Debug)]
pub struct PermissionRequest {
    pub id: u128,
    pub tool: String,
    pub tool_label: String,
    /// The sub-agent that asks: its profile and its id.
    pub origin: Option<(String, String)>,
    pub command: Vec<String>,
    pub raw_command: Option<String>,
    /// The tokens of the lines of the command.
    pub command_tokens: Vec<Vec<CodeToken>>,
    pub message: String,
    /// The path that a command only reads from, if that is all it does.
    pub read_path: Option<String>,
    /// The format in which a page is fetched.
    pub format: Option<String>,
    pub redirected_from: Vec<String>,
    pub auto_review: Option<String>,
    /// The arguments of the tool, as JSON.
    pub arguments: Option<String>,
    /// The tokens of the lines of the arguments.
    pub argument_tokens: Vec<Vec<CodeToken>>,
}

impl PermissionRequest {
    pub open spec fn valid(self) -> bool {
        tokens_fit(self.command_tokens@) && tokens_fit(self.argument_tokens@)
    }
}

/// The first of some texts, or nothing.
pub open spec fn first_text(texts: Seq<String>) -> Seq<char> {
    if texts.len() > 0 { texts[0]@ } else { ""@ }
}

fn first_of(texts: &Vec<String>) -> (text: &str)
    ensures
        text@ == first_text(texts@),
{
    if texts.len() > 0 {
        texts[0].as_str()
    } else {
        ""
    }
}

/// What comes behind the title.
pub open spec fn request_detail(request: PermissionRequest) -> Seq<char> {
    match request.origin {
        Some((profile, id)) => profile@ + " sub-agent \u{b7} "@ + request.tool_label@,
        None => request.tool_label@,
    }
}

/// Who asks, where it is a sub-agent.
pub open spec fn origin_rows(request: PermissionRequest) -> Seq<LineView> {
    match request.origin {
        Some((profile, id)) => seq![
            line(
                seq![
                    span("  Requested by  "@, Style::of(Role::Dim)),
                    span(profile@ + " sub-agent \u{b7} "@ + id@, Style::plain()),
                ],
            ),
            blank_line(),
        ],
        None => Seq::empty(),
    }
}

/// A question about a subject.
pub open spec fn subject_spans(question: Seq<char>, subject: Seq<char>) -> Seq<SpanView> {
    seq![
        span(question, Style::plain()),
        span(safe(subject), Style::of(Role::Chip)),
        span("?"@, Style::plain()),
    ]
}

fn ask_about(question: &str, subject: &str) -> (row: Line)
    ensures
        row@ == line(subject_spans(question@, subject@)),
{
    let mut row = Line::new();
    row.push_str(question, Style::plain());
    row.push(terminal_safe(subject), Style::of(Role::Chip));
    row.push_str("?", Style::plain());
    proof {
        assert(row@.spans =~= subject_spans(question@, subject@));
    }
    row
}

/// Texts that are safe to show.
pub open spec fn safe_texts(texts: Seq<String>) -> Seq<Seq<char>> {
    texts.map_values(|text: String| safe(text@))
}

/// The question about a page that is to be fetched.
pub open spec fn fetch_line(request: PermissionRequest) -> LineView {
    let asked = subject_spans("  Allow web fetch of "@, first_text(request.command@));
    let redirected = if request.redirected_from@.len() == 0 {
        asked
    } else {
        asked.push(
            span(
                " (redirected from "@ + separated(
                    safe_texts(request.redirected_from@),
                    " \u{2192} "@,
                ) + ")"@,
                Style::of(Role::Dim),
            ),
        )
    };
    line(
        match request.format {
            Some(format) => if format@ == "markdown"@ {
                redirected
            } else {
                redirected.push(span(" ("@ + format@ + ")"@, Style::of(Role::Dim)))
            },
            None => redirected,
        },
    )
}

fn render_fetch(request: &PermissionRequest) -> (row: Line)
    ensures
        row@ == fetch_line(*request),
{
    let mut row = ask_about("  Allow web fetch of ", first_of(&request.command));
    if request.redirected_from.len() > 0 {
        let mut shown: Vec<String> = Vec::new();
        let ghost all = safe_texts(request.redirected_from@);
        let mut i: usize = 0;
        while i < request.redirected_from.len()
            invariant
                i <= request.redirected_from@.len(),
                all == safe_texts(request.redirected_from@),
                views(shown@) == all.take(i as int),
            decreases request.redirected_from@.len() - i,
        {
            let ghost before = views(shown@);
            let text: String = terminal_safe(request.redirected_from[i].as_str());
            shown.push(text);
            i += 1;
            proof {
                assert(views(shown@) =~= before.push(text@));
                assert(views(shown@) =~= all.take(i as int));
            }
        }
        proof {
            assert(all.take(i as int) =~= all);
        }
        row.push(
            concat3(
                " (redirected from ",
                separate(shown.as_slice(), " \u{2192} ").as_str(),
                ")",
            ),
            Style::of(Role::Dim),
        );
    }
    if let Some(format) = &request.format {
        if !same_text(format.as_str(), "markdown") {
            row.push(concat3(" (", format.as_str(), ")"), Style::of(Role::Dim));
        }
    }
    proof {
        assert(row@.spans =~= fetch_line(*request).spans);
    }
    row
}

/// The question that is asked.
pub open spec fn prompt_line(request: PermissionRequest) -> LineView {
    if request.tool@ == "web_fetch"@ {
        fetch_line(request)
    } else if request.tool@ == "web_search"@ {
        line(subject_spans("  Allow web search of "@, first_text(request.command@)))
    } else if request.read_path is Some {
        line(subject_spans("  Allow reading from "@, request.read_path->0@))
    } else if request.tool@ == "enter_worktree"@ {
        line(subject_spans("  Allow changing worktree to "@, first_text(request.command@)))
    } else if request.tool@ == "bash"@ && request.raw_command is Some {
        line(seq![span("  Allow running the following?"@, Style::plain())])
    } else {
        line(seq![span("  "@ + safe(request.message@), Style::plain())])
    }
}

fn render_prompt(request: &PermissionRequest) -> (row: Line)
    ensures
        row@ == prompt_line(*request),
{
    if same_text(request.tool.as_str(), "web_fetch") {
        return render_fetch(request);
    }
    if same_text(request.tool.as_str(), "web_search") {
        return ask_about("  Allow web search of ", first_of(&request.command));
    }
    if let Some(path) = &request.read_path {
        return ask_about("  Allow reading from ", path.as_str());
    }
    if same_text(request.tool.as_str(), "enter_worktree") {
        return ask_about("  Allow changing worktree to ", first_of(&request.command));
    }
    if same_text(request.tool.as_str(), "bash") && request.raw_command.is_some() {
        Line::styled("  Allow running the following?".to_owned(), Style::plain())
    } else {
        Line::styled(
            concat("  ", terminal_safe(request.message.as_str()).as_str()),
            Style::plain(),
        )
    }
}

/// A line of the command that is to be run.
pub open spec fn command_line(
    texts: Seq<Seq<char>>,
    tokens: Seq<Vec<CodeToken>>,
    index: int,
) -> LineView {
    line(
        seq![span("  \u{2502} "@, Style::of(Role::MenuDetail))] + code_spans(
            line_tokens(tokens, index, texts[index]),
            0,
            texts[index].len() as int,
        ),
    )
}

/// The rows of the first `count` lines of the command that is to be run.
pub open spec fn command_rows(
    texts: Seq<Seq<char>>,
    tokens: Seq<Vec<CodeToken>>,
    count: int,
    width: int,
) -> Seq<LineView>
    decreases count,
{
    if count <= 0 {
        Seq::empty()
    } else {
        command_rows(texts, tokens, count - 1, width) + wrapped_line(
            command_line(texts, tokens, count - 1),
            width,
        )
    }
}

/// The rows that show the command that is to be run.
pub open spec fn shown_command(request: PermissionRequest, width: int) -> Seq<LineView> {
    if request.tool@ == "bash"@ && request.read_path is None && request.raw_command is Some {
        let texts = lines_of(request.raw_command->0@);
        seq![blank_line()] + command_rows(
            texts,
            request.command_tokens@,
            texts.len() as int,
            width,
        )
    } else {
        Seq::empty()
    }
}

fn render_command(request: &PermissionRequest, width: u16) -> (lines: Vec<Line>)
    requires
        request.valid(),
    ensures
        line_views(lines@) == shown_command(*request, width as int),
{
    let mut lines: Vec<Line> = Vec::new();
    proof {
        assert(line_views(lines@) =~= Seq::empty());
    }
    if !same_text(request.tool.as_str(), "bash") || request.read_path.is_some() {
        return lines;
    }
    match &request.raw_command {
        None => lines,
        Some(command) => {
            let texts = split_lines(command.as_str());
            let ghost all = views(texts@);
            push_line(&mut lines, Line::new());
            let mut i: usize = 0;
            proof {
                assert(line_views(lines@) =~= seq![blank_line()] + command_rows(
                    all,
                    request.command_tokens@,
                    0,
                    width as int,
                ));
            }
            while i < texts.len()
                invariant
                    i <= texts@.len(),
                    request.valid(),
                    all == views(texts@),
                    line_views(lines@) == seq![blank_line()] + command_rows(
                        all,
                        request.command_tokens@,
                        i as int,
                        width as int,
                    ),
                decreases texts@.len() - i,
            {
                let count: usize = chars_of(texts[i].as_str()).len();
                let mut row = Line::new();
                row.push_str("  \u{2502} ", Style::of(Role::MenuDetail));
                let ghost first = row@.spans;
                push_highlighted(
                    &mut row,
                    request.command_tokens.as_slice(),
                    i,
                    texts[i].as_str(),
                    0,
                    count,
                );
                let ghost before = line_views(lines@);
                proof {
                    assert(all[i as int] == texts@[i as int]@);
                    assert(first =~= seq![span("  \u{2502} "@, Style::of(Role::MenuDetail))]);
                    assert(row@ == command_line(all, request.command_tokens@, i as int));
                }
                append_lines(&mut lines, wrap_log_line(&row, width as usize));
                i += 1;
                proof {
                    assert(line_views(lines@) =~= seq![blank_line()] + command_rows(
                        all,
                        request.command_tokens@,
                        i as int,
                        width as int,
                    ));
                }
            }
            lines
        },
    }
}

/// The rows that show the verdict of the automatic review.
pub open spec fn review_rows(request: PermissionRequest, width: int) -> Seq<LineView> {
    match request.auto_review {
        Some(reason) => wrapped_line(dim_line("  Auto review  "@ + safe(reason@)), width),
        None => Seq::empty(),
    }
}

/// The rows above the preview.
pub open spec fn permission_prefix(request: PermissionRequest, preview: bool, width: int) -> Seq<
    LineView,
> {
    seq![title_line("Permission"@, Some(request_detail(request))), blank_line()] + origin_rows(
        request,
    ) + seq![prompt_line(request)] + shown_command(request, width) + review_rows(request, width)
        + (if preview { seq![blank_line()] } else { Seq::empty() })
}

/// Renders what is asked.
fn permission_prefix_lines(request: &PermissionRequest, preview: bool, width: u16) -> (lines: Vec<
    Line,
>)
    requires
        request.valid(),
    ensures
        line_views(lines@) == permission_prefix(*request, preview, width as int),
{
    let detail: String = match &request.origin {
        Some((profile, _)) => concat3(
            profile.as_str(),
            " sub-agent \u{b7} ",
            request.tool_label.as_str(),
        ),
        None => request.tool_label.as_str().to_owned(),
    };
    let mut lines: Vec<Line> = Vec::new();
    push_line(&mut lines, menu_title("Permission", Some(detail.as_str())));
    push_line(&mut lines, Line::new());
    if let Some((profile, id)) = &request.origin {
        let mut row = Line::new();
        row.push_str("  Requested by  ", Style::of(Role::Dim));
        row.push(
            concat3(profile.as_str(), " sub-agent \u{b7} ", id.as_str()),
            Style::plain(),
        );
        proof {
            assert(row@.spans =~= origin_rows(*request)[0].spans);
        }
        push_line(&mut lines, row);
        push_line(&mut lines, Line::new());
    }
    push_line(&mut lines, render_prompt(request));
    append_lines(&mut lines, render_command(request, width));
    if let Some(reason) = &request.auto_review {
        let row = dimmed_line(
            concat("  Auto review  ", terminal_safe(reason.as_str()).as_str()),
        );
        append_lines(&mut lines, wrap_log_line(&row, width as usize));
    }
    if preview {
        push_line(&mut lines, Line::new());
    }
    proof {
        assert(line_views(lines@) =~= permission_prefix(*request, preview, width as int));
    }
    lines
}

/// How the choices are laid out: only the row above them is kept free.
pub open spec fn choices_widget(count: int) -> ListWidget {
    ListWidget { bottom: false, ..ListWidget::of(max(count, 1)) }
}

/// The rows of the choices.
pub open spec fn choice_rows(choices: Seq<(String, String)>, selected: int, width: int) -> Seq<
    LineView,
> {
    let count = choices.len() as int;
    let state = settled(count, selected, 0, max(count, 1));
    list_rows(
        choices_of(entry_views(choices), state.selected),
        Seq::empty(),
        state,
        choices_widget(count),
        width,
        false,
    )
}

/// The rows of the note that goes with a denial.
pub open spec fn denial_rows(permission: Permission, width: int) -> Seq<LineView> {
    if permission.editing_note {
        note_rows(
            InputView::of(permission.denial_note@, permission.note_cursor as int),
            width,
        )
    } else {
        Seq::empty()
    }
}

/// The rows below the preview.
pub open spec fn permission_suffix(
    permission: Permission,
    choices: Seq<(String, String)>,
    selected: int,
    width: int,
) -> Seq<LineView> {
    choice_rows(choices, selected, width) + denial_rows(permission, width)
}

/// The note, where one is written.
pub fn append_permission_note(suffix: &mut Vec<Line>, permission: &Permission, width: u16)
    ensures
        line_views(final(suffix)@) == line_views(old(suffix)@) + denial_rows(
            *permission,
            width as int,
        ),
{
    let ghost before = line_views(suffix@);
    if permission.editing_note {
        append_lines(
            suffix,
            note_input_layout(
                permission.denial_note.as_str(),
                permission.note_cursor,
                width,
            ).lines,
        );
    }
    proof {
        assert(line_views(suffix@) =~= before + denial_rows(*permission, width as int));
    }
}

/// Renders the choices and the note.
pub fn permission_suffix_lines(
    permission: &Permission,
    choices: &[(String, String)],
    selected: usize,
    width: u16,
) -> (lines: Vec<Line>)
    ensures
        line_views(lines@) == permission_suffix(
            *permission,
            choices@,
            selected as int,
            width as int,
        ),
{
    let count: usize = choices.len();
    let capacity: usize = if count >= 1 {
        count
    } else {
        1
    };
    let state = ListState::selectable_at(count, selected, capacity);
    let items = text_choice_lines(choices, state.selected);
    let mut widget: ListWidget = ListWidget::new(capacity);
    widget.bottom = false;
    let empty: Vec<Line> = Vec::new();
    proof {
        assert(line_views(empty@) =~= Seq::empty());
    }
    let mut lines = render_list(&items, empty, &state, widget, width, false);
    append_permission_note(&mut lines, permission, width);
    lines
}

/// The rows of the preview: the arguments, unless a page is fetched, or else the
/// changes to files.
pub open spec fn preview_rows(request: PermissionRequest, diff: Option<Seq<LineView>>, width: int) -> Option<
    Seq<LineView>,
> {
    if request.tool@ != "web_fetch"@ && request.arguments is Some {
        Some(json_rows(request.arguments->0@, request.argument_tokens@, width))
    } else {
        diff
    }
}

/// Renders the preview. `diff` are the rows of the changes to files, if there are
/// any.
fn permission_preview_lines(request: &PermissionRequest, diff: Option<&Vec<Line>>, width: u16) -> (preview:
    Option<Vec<Line>>)
    requires
        request.valid(),
    ensures
        optional_rows(preview) == preview_rows(*request, referenced_rows(diff), width as int),
{
    if !same_text(request.tool.as_str(), "web_fetch") {
        if let Some(arguments) = &request.arguments {
            return Some(
                json_preview_lines(
                    arguments.as_str(),
                    request.argument_tokens.as_slice(),
                    width,
                ),
            );
        }
    }
    match diff {
        None => None,
        Some(rows) => {
            let copy = copy_rows(rows.as_slice(), 0, rows.len());
            proof {
                assert(line_views(rows@).subrange(0, rows@.len() as int) =~= line_views(rows@));
            }
            Some(copy)
        },
    }
}

pub open spec fn optional_rows(rows: Option<Vec<Line>>) -> Option<Seq<LineView>> {
    match rows {
        None => None,
        Some(rows) => Some(line_views(rows@)),
    }
}

pub open spec fn referenced_rows(rows: Option<&Vec<Line>>) -> Option<Seq<LineView>> {
    match rows {
        None => None,
        Some(rows) => Some(line_views(rows@)),
    }
}

/// The parts of the prompt for a request: what is asked, the preview if there is
/// one, and the choices with the note.
pub fn permission_surface_parts(
    permission: &Permission,
    request: &PermissionRequest,
    choices: &[(String, String)],
    selected: usize,
    diff: Option<&Vec<Line>>,
    width: u16,
) -> (parts: (Vec<Line>, Option<Vec<Line>>, Vec<Line>))
    requires
        request.valid(),
    ensures
        ({
            let preview = preview_rows(*request, referenced_rows(diff), width as int);
            &&& line_views(parts.0@) == permission_prefix(
                *request,
                preview is Some,
                width as int,
            )
            &&& parts.0@.len() == line_views(parts.0@).len()
            &&& optional_rows(parts.1) == preview
            &&& line_views(parts.2@) == permission_suffix(
                *permission,
                choices@,
                selected as int,
                width as int,
            )
            &&& parts.2@.len() == line_views(parts.2@).len()
        }),
{
    let preview = permission_preview_lines(request, diff, width);
    let prefix = permission_prefix_lines(request, preview.is_some(), width);
    let suffix = permission_suffix_lines(permission, choices, selected, width);
    (prefix, preview, suffix)
}

/// Some rows made `count` rows, with blank ones where rows are missing.
pub open spec fn padded_rows(rows: Seq<LineView>, count: int) -> Seq<LineView> {
    Seq::new(count as nat, |i: int| if i < rows.len() { rows[i] } else { blank_line() })
}

/// Some rows of a preview, as many as are there.
pub open spec fn window_of(rows: Seq<LineView>, start: int, count: int) -> Seq<LineView> {
    if start >= rows.len() {
        Seq::empty()
    } else if start + count >= rows.len() {
        rows.skip(start)
    } else {
        rows.subrange(start, start + count)
    }
}

/// Some rows of a preview, as many as are there.
pub fn render_permission_preview_window(preview: &[Line], scroll: usize, rows: usize) -> (window: Vec<
    Line,
>)
    ensures
        line_views(window@) == window_of(line_views(preview@), scroll as int, rows as int),
{
    let total: usize = preview.len();
    if scroll >= total {
        let window: Vec<Line> = Vec::new();
        proof {
            assert(line_views(window@) =~= Seq::empty());
        }
        window
    } else if total - scroll <= rows {
        let window = copy_rows(preview, scroll, total);
        proof {
            assert(line_views(window@) =~= line_views(preview@).skip(scroll as int));
        }
        window
    } else {
        copy_rows(preview, scroll, scroll + rows)
    }
}

/// The rows of a preview that are shown.
pub open spec fn rows_shown(state: ScrollViewState, capacity: usize) -> usize {
    (state.visible_end_spec(capacity as int) - state.offset) as usize
}

/// Puts a window of a preview between its indicator rows. The window is rendered
/// once, from the first row that is shown and with no more rows than are shown.
pub fn render_permission_scroll_window<F: FnOnce(usize, usize) -> Vec<Line>>(
    state: &ScrollViewState,
    capacity: usize,
    render_window: F,
) -> (layout: ScrollViewLayout)
    requires
        state.valid(capacity as int),
        render_window.requires((state.offset, rows_shown(*state, capacity))),
    ensures
        exists|rows: Vec<Line>|
            #[trigger] render_window.ensures((state.offset, rows_shown(*state, capacity)), rows)
                && line_views(layout.lines@) == ScrollViewWidget::of(capacity as int).lines_spec(
                *state,
                padded_rows(line_views(rows@), rows_shown(*state, capacity) as int),
            ),
        layout.hits@ == ScrollViewWidget::of(capacity as int).hits_spec(*state),
        layout.metrics == ScrollViewMetrics::of(state.content_rows as int, capacity as int),
{
    let range = state.visible_range(capacity);
    let count: usize = range.1 - range.0;
    let rows: Vec<Line> = render_window(state.offset, count);
    let ghost all = padded_rows(line_views(rows@), count as int);
    let mut shown: Vec<Line> = Vec::new();
    let mut i: usize = 0;
    while i < count
        invariant
            i <= count,
            all == padded_rows(line_views(rows@), count as int),
            line_views(shown@) == all.take(i as int),
        decreases count - i,
    {
        if i < rows.len() {
            push_line(&mut shown, rows[i].copy());
        } else {
            push_line(&mut shown, Line::new());
        }
        i += 1;
        proof {
            assert(line_views(shown@) =~= all.take(i as int));
        }
    }
    proof {
        assert(all.take(i as int) =~= all);
    }
    ScrollViewWidget::new(capacity).render(state, shown)
}

/// What is left of the rows around the preview where they do not all fit: the
/// choices come first, and a mark shows that something is missing.
pub open spec fn clipped(prefix: Seq<LineView>, suffix: Seq<LineView>, viewport_rows: int) -> Seq<
    LineView,
> {
    let kept = less(viewport_rows, suffix.len() as int);
    let head = if prefix.len() > kept {
        if kept > 0 {
            prefix.take(kept - 1).push(dim_line("  \u{2026}"@))
        } else {
            Seq::empty()
        }
    } else {
        prefix
    };
    let room = less(viewport_rows, head.len() as int);
    head + if suffix.len() <= room { suffix } else { suffix.take(room) }
}

pub fn clipped_permission_chrome(prefix: Vec<Line>, suffix: Vec<Line>, viewport_rows: usize) -> (lines:
    Vec<Line>)
    ensures
        line_views(lines@) == clipped(
            line_views(prefix@),
            line_views(suffix@),
            viewport_rows as int,
        ),
{
    let kept: usize = viewport_rows.saturating_sub(suffix.len());
    let was_clipped: bool = prefix.len() > kept;
    let ghost before = line_views(prefix@);
    let mut lines = prefix;
    if was_clipped {
        lines.truncate(kept);
        if kept > 0 {
            lines.set(kept - 1, dimmed_line("  \u{2026}".to_owned()));
        }
    }
    proof {
        assert(line_views(lines@) =~= if was_clipped {
            if kept > 0 {
                before.take(kept - 1).push(dim_line("  \u{2026}"@))
            } else {
                Seq::empty()
            }
        } else {
            before
        });
        assert(line_views(lines@).len() == lines@.len());
    }
    let room: usize = viewport_rows.saturating_sub(lines.len());
    let ghost below = line_views(suffix@);
    let mut rest = suffix;
    if rest.len() > room {
        rest.truncate(room);
    }
    proof {
        assert(line_views(rest@) =~= if below.len() <= room { below } else { below.take(room as int) });
    }
    append_lines(&mut lines, rest);
    lines
}

/// The rows that are left for the preview between the others, or none where even
/// those do not fit.
pub open spec fn preview_room(prefix: int, suffix: int, viewport_rows: int) -> int {
    less(viewport_rows, prefix + suffix)
}

/// The rows of the prompt. The preview takes what the other rows leave, and uses
/// the blank row above and below it for its indicators.
pub open spec fn permission_rows(
    prefix: Seq<LineView>,
    preview: Option<Seq<LineView>>,
    suffix: Seq<LineView>,
    scroll: int,
    viewport_rows: int,
) -> Seq<LineView> {
    let room = preview_room(prefix.len() as int, suffix.len() as int, viewport_rows);
    if capped((prefix.len() + suffix.len()) as int) > viewport_rows {
        clipped(prefix, suffix, viewport_rows)
    } else if preview is Some && room > 0 {
        let rows = preview->0;
        let state = (ScrollViewState {
            offset: scroll as usize,
            content_rows: rows.len() as usize,
        }).reconciled(rows.len() as int, room);
        prefix.drop_last() + ScrollViewWidget::of(room).lines_spec(
            state,
            rows.subrange(state.offset as int, state.visible_end_spec(room)),
        ) + suffix.skip(1)
    } else {
        prefix + suffix
    }
}

fn compose(
    prefix: Vec<Line>,
    preview: Option<Vec<Line>>,
    suffix: Vec<Line>,
    scroll: usize,
    viewport_rows: usize,
) -> (lines: Vec<Line>)
    requires
        prefix@.len() > 0,
        suffix@.len() > 0,
    ensures
        line_views(lines@) == permission_rows(
            line_views(prefix@),
            optional_rows(preview),
            line_views(suffix@),
            scroll as int,
            viewport_rows as int,
        ),
{
    let taken: usize = prefix.len().saturating_add(suffix.len());
    proof {
        assert(line_views(prefix@).len() == prefix@.len());
        assert(line_views(suffix@).len() == suffix@.len());
    }
    if taken > viewport_rows {
        return clipped_permission_chrome(prefix, suffix, viewport_rows);
    }
    let room: usize = viewport_rows - taken;
    let ghost above = line_views(prefix@);
    let ghost below = line_views(suffix@);
    let mut lines = prefix;
    let mut rest = suffix;
    if let Some(rows) = preview {
        if room > 0 {
            let _ = lines.pop();
            let _ = rest.remove(0);
            let total: usize = rows.len();
            let mut state = ScrollViewState { offset: scroll, content_rows: total };
            state.reconcile(total, room);
            let range = state.visible_range(room);
            let shown = copy_rows(rows.as_slice(), range.0, range.1);
            append_lines(&mut lines, ScrollViewWidget::new(room).render(&state, shown).lines);
            append_lines(&mut lines, rest);
            proof {
                assert(line_views(rest@) =~= below.skip(1));
                assert(line_views(lines@) =~= permission_rows(
                    above,
                    Some(line_views(rows@)),
                    below,
                    scroll as int,
                    viewport_rows as int,
                ));
            }
            return lines;
        }
    }
    append_lines(&mut lines, rest);
    lines
}

/// The rows of the prompt for a request.
pub open spec fn permission_surface(
    permission: Permission,
    request: PermissionRequest,
    choices: Seq<(String, String)>,
    diff: Option<Seq<LineView>>,
    width: int,
    viewport_rows: int,
) -> Seq<LineView> {
    let preview = preview_rows(request, diff, width);
    permission_rows(
        permission_prefix(request, preview is Some, width),
        preview,
        permission_suffix(permission, choices, permission.selected as int, width),
        permission.diff_scroll as int,
        viewport_rows,
    )
}

/// Renders the prompt for a request. `choices` are the answers that can be given.
pub fn permission_surface_lines(
    permission: &Permission,
    request: &PermissionRequest,
    choices: &[(String, String)],
    diff: Option<&Vec<Line>>,
    width: u16,
    viewport_rows: usize,
) -> (lines: Vec<Line>)
    requires
        request.valid(),
    ensures
        line_views(lines@) == permission_surface(
            *permission,
            *request,
            choices@,
            referenced_rows(diff),
            width as int,
            viewport_rows as int,
        ),
{
    let (prefix, preview, suffix) = permission_surface_parts(
        permission,
        request,
        choices,
        permission.selected,
        diff,
        width,
    );
    compose(prefix, preview, suffix, permission.diff_scroll, viewport_rows)
}

/// How many rows a preview has.
pub open spec fn preview_len(preview: Option<Seq<LineView>>) -> int {
    match preview {
        Some(rows) => rows.len() as int,
        None => 0,
    }
}

/// The rows that the prompt takes where there is room for all of it.
pub fn permission_surface_line_count(
    permission: &Permission,
    request: &PermissionRequest,
    choices: &[(String, String)],
    diff: Option<&Vec<Line>>,
    width: u16,
) -> (count: usize)
    requires
        request.valid(),
    ensures
        ({
            let preview = preview_rows(*request, referenced_rows(diff), width as int);
            count == capped(
                capped(
                    permission_prefix(*request, preview is Some, width as int).len()
                        + preview_len(preview),
                ) + permission_suffix(
                    *permission,
                    choices@,
                    permission.selected as int,
                    width as int,
                ).len(),
            )
        }),
{
    let (prefix, preview, suffix) = permission_surface_parts(
        permission,
        request,
        choices,
        permission.selected,
        diff,
        width,
    );
    let rows: usize = match &preview {
        Some(rows) => rows.len(),
        None => 0,
    };
    proof {
        assert(rows == preview_len(optional_rows(preview)));
    }
    prefix.len().saturating_add(rows).saturating_add(suffix.len())
}

/// The rows that the preview has, and how far it can be scrolled.
pub open spec fn scroll_metrics(prefix: int, preview: int, suffix: int, viewport_rows: int) -> (
    int,
    int,
) {
    if capped(prefix + suffix) > viewport_rows {
        (0, 0)
    } else {
        let room = preview_room(prefix, suffix, viewport_rows);
        (room, less(preview, room))
    }
}

/// The rows that the preview has, and how far it can be scrolled.
pub fn permission_diff_scroll_metrics(
    permission: &Permission,
    request: &PermissionRequest,
    choices: &[(String, String)],
    diff: Option<&Vec<Line>>,
    width: u16,
    viewport_rows: usize,
) -> (metrics: (usize, usize))
    requires
        request.valid(),
    ensures
        ({
            let preview = preview_rows(*request, referenced_rows(diff), width as int);
            (metrics.0 as int, metrics.1 as int) == scroll_metrics(
                permission_prefix(*request, preview is Some, width as int).len() as int,
                preview_len(preview),
                permission_suffix(*permission, choices@, 0, width as int).len() as int,
                viewport_rows as int,
            )
        }),
{
    let (prefix, preview, suffix) = permission_surface_parts(
        permission,
        request,
        choices,
        0,
        diff,
        width,
    );
    let rows: usize = match &preview {
        Some(rows) => rows.len(),
        None => 0,
    };
    proof {
        assert(rows == preview_len(optional_rows(preview)));
    }
    let taken: usize = prefix.len().saturating_add(suffix.len());
    if taken > viewport_rows {
        return (0, 0);
    }
    let room: usize = viewport_rows - taken;
    (room, rows.saturating_sub(room))
}

/// The prompt never takes more rows than there are, whatever the preview.
pub proof fn law_prompts_fit_the_viewport(
    prefix: Seq<LineView>,
    preview: Option<Seq<LineView>>,
    suffix: Seq<LineView>,
    scroll: int,
    viewport_rows: int,
)
    requires
        prefix.len() > 0,
        suffix.len() > 0,
        prefix.len() + suffix.len() <= usize::MAX,
        0 <= viewport_rows <= usize::MAX,
        0 <= scroll <= usize::MAX,
        preview is Some ==> preview->0.len() <= usize::MAX,
    ensures
        permission_rows(prefix, preview, suffix, scroll, viewport_rows).len() <= viewport_rows,
{
}

/// Scrolling the preview moves no other row: the choices stay where they are.
pub proof fn law_choices_stay_put(
    prefix: Seq<LineView>,
    preview: Seq<LineView>,
    suffix: Seq<LineView>,
    scroll: int,
    other: int,
    viewport_rows: int,
    below: int,
)
    requires
        prefix.len() > 0,
        suffix.len() > 0,
        0 <= viewport_rows <= usize::MAX,
        0 <= scroll <= usize::MAX,
        0 <= other <= usize::MAX,
        preview.len() <= usize::MAX,
        0 < below < suffix.len(),
        prefix.len() + suffix.len() < viewport_rows,
    ensures
        ({
            let rows = permission_rows(prefix, Some(preview), suffix, scroll, viewport_rows);
            let moved = permission_rows(prefix, Some(preview), suffix, other, viewport_rows);
            &&& rows.len() == moved.len()
            &&& rows[rows.len() - below] == suffix[suffix.len() - below]
            &&& moved[moved.len() - below] == suffix[suffix.len() - below]
        }),
{
}

/// The changes to files of a request, laid out for a width.
#[derive(Debug)]
pub struct PermissionDiffRenderCache {
    pub request: u128,
    pub width: u16,
    pub rows: Vec<Line>,
}

/// Whether what is kept is what is asked for.
pub open spec fn is_current(
    cache: Option<PermissionDiffRenderCache>,
    request: u128,
    width: u16,
) -> bool {
    match cache {
        Some(kept) => kept.request == request && kept.width == width,
        None => false,
    }
}

/// The changes to files of a request, laid out for a width. They are laid out
/// anew only for another request or another width.
pub fn with_cached_permission_diff_layout<F: FnOnce(u16) -> Vec<Line>>(
    cache: &mut Option<PermissionDiffRenderCache>,
    request: u128,
    width: u16,
    layout: F,
)
    requires
        layout.requires((width,)),
    ensures
        is_current(*final(cache), request, width),
        is_current(*old(cache), request, width) ==> *final(cache) == *old(cache),
        !is_current(*old(cache), request, width) ==> layout.ensures((width,), final(cache)->0.rows),
{
    let current: bool = match &*cache {
        Some(kept) => kept.request == request && kept.width == width,
        None => false,
    };
    if !current {
        let rows: Vec<Line> = layout(width);
        *cache = Some(PermissionDiffRenderCache { request, width, rows });
    }
}

} // verus!
