//! What the expanded views show.

use vstd::prelude::*;
use vstd::string::*;
use crate::agent_log::{
    agent_log_items, append_agent_log_tail, content_end, flow_views, group_total, is_blank_row,
    kept_prefix, last_role, log_items, log_tail, task_lines, task_rows, FlowItem, FlowRole,
    FlowView, LogEntry, LogIdentity,
};
use crate::agent_log_layout::{log_refreshed, refresh_agent_log, AgentLogLayout, LogChoices};
use crate::agent_log_rows::{flow_rows, lemma_content_end, log_rows, spaced, CardRows, RowKey};
use crate::code_lines::{
    code_spans, json_preview_lines, json_rows, line_tokens, push_highlighted, tokens_fit,
};
use crate::expanded::{
    expanded_status_detail, expanded_title, expanded_title_line, status_text, ExpandedTextBody,
    ExpandedTextContent,
};
use crate::file_laws::{is_file, lays_out_file};
use crate::file_rows::HighlightedLine;
use crate::file_views::{DiffLine, FullFileDiffRows, HighlightedFileRows};
use crate::input_syntax::CodeToken;
use crate::lines::{lines_of, split_lines};
use crate::list::max;
use crate::menu::{less, text_part};
use crate::render::{
    check_clusters, concat, concat3, count_text, cut_line, decimal, decimal_text,
    lemma_wrap_rows_bounds, safe, terminal_safe, truncate_line, wrap_log_line, wrap_ranges,
    wrap_rows, wrapped_line,
};
use crate::render_mcp::{copy_rows, toned, toned_line};
use crate::style::{
    append_lines, blank_line, line, line_views, push_line, raw_line, span, Line, LineView, Role,
    Style,
};
use crate::text::chars_of;
use crate::unicode::{grapheme_clusters, joined, views};

verus! {

/// How a call of a tool is doing.
#[derive(Clone, Copy, Debug, PartialEq, Eq, Structural)]
pub enum ToolActivityStatus {
    Pending,
    Succeeded,
    Failed,
}

/// A call of a tool of a server. The parameters and the output are JSON;
/// `long_duration` says how long it took where that was a second or more.
#[derive(Debug)]
pub struct McpCall {
    pub server: String,
    pub tool: String,
    pub status: ToolActivityStatus,
    pub duration_millis: Option<u64>,
    pub long_duration: String,
    pub parameters: String,
    pub parameter_tokens: Vec<Vec<CodeToken>>,
    pub output: Option<String>,
    pub output_tokens: Vec<Vec<CodeToken>>,
}

pub open spec fn activity_status(status: ToolActivityStatus) -> Seq<char> {
    match status {
        ToolActivityStatus::Pending => "running"@,
        ToolActivityStatus::Succeeded => "completed"@,
        ToolActivityStatus::Failed => "failed"@,
    }
}

/// How long a call took, in words.
pub open spec fn call_duration(call: McpCall) -> Option<Seq<char>> {
    match call.duration_millis {
        None => None,
        Some(millis) => Some(
            if millis < 1000 { decimal(millis as nat) + "ms"@ } else { call.long_duration@ },
        ),
    }
}

/// A title above a blank row.
pub open spec fn titled(
    title: Seq<char>,
    subject: Option<LineView>,
    details: Seq<LineView>,
    width: int,
) -> Seq<LineView> {
    seq![expanded_title_line(title, subject, details, width), blank_line()]
}

fn render_titled(title: &str, subject: Option<&Line>, details: &[Line], width: u16) -> (header: Vec<
    Line,
>)
    ensures
        line_views(header@) == titled(
            title@,
            match subject {
                None => None,
                Some(subject) => Some(subject@),
            },
            line_views(details@),
            width as int,
        ),
        header@.len() == 2,
{
    let mut header: Vec<Line> = Vec::new();
    push_line(&mut header, expanded_title(title, subject, details, width));
    push_line(&mut header, Line::new());
    proof {
        assert(line_views(header@).len() == header@.len());
        assert(line_views(header@) =~= titled(
            title@,
            match subject {
                None => None,
                Some(subject) => Some(subject@),
            },
            line_views(details@),
            width as int,
        ));
    }
    header
}

/// The rows of the body of a call.
pub open spec fn call_rows(call: McpCall, width: int) -> Seq<LineView> {
    let room = max(less(width, 4), 1);
    seq![toned_line("Parameters:"@, Role::MenuTitle)] + json_rows(
        call.parameters@,
        call.parameter_tokens@,
        room,
    ) + seq![blank_line(), toned_line("Output:"@, Role::MenuTitle)] + match call.output {
        Some(output) => json_rows(output@, call.output_tokens@, room),
        None => seq![
            toned_line(
                if call.status == ToolActivityStatus::Pending {
                    "Waiting for output\u{2026}"@
                } else {
                    "No output available."@
                },
                Role::Dim,
            ),
        ],
    }
}

/// What is shown of a call of a tool.
pub fn mcp_content(call: &McpCall, width: u16) -> (content: ExpandedTextContent)
    requires
        tokens_fit(call.parameter_tokens@),
        tokens_fit(call.output_tokens@),
    ensures
        line_views(content.header@) == titled(
            "MCP"@,
            Some(raw_line(call.server@ + "/"@ + call.tool@)),
            seq![raw_line(status_text(activity_status(call.status), call_duration(*call)))],
            width as int,
        ),
        content.body matches ExpandedTextBody::Materialized(rows) && line_views(rows@)
            == call_rows(*call, width as int),
        content.inset,
{
    let status: &str = match call.status {
        ToolActivityStatus::Pending => "running",
        ToolActivityStatus::Succeeded => "completed",
        ToolActivityStatus::Failed => "failed",
    };
    let duration: Option<String> = match call.duration_millis {
        None => None,
        Some(millis) => Some(
            if millis < 1000 {
                concat(decimal_text(millis).as_str(), "ms")
            } else {
                call.long_duration.as_str().to_owned()
            },
        ),
    };
    let detail = match &duration {
        Some(duration) => expanded_status_detail(status, Some(duration.as_str())),
        None => expanded_status_detail(status, None),
    };
    let mut details: Vec<Line> = Vec::new();
    push_line(&mut details, detail);
    let subject = Line::raw(
        concat3(call.server.as_str(), "/", call.tool.as_str()).as_str(),
    );
    proof {
        assert(line_views(details@) =~= seq![detail@]);
    }
    let header = render_titled("MCP", Some(&subject), details.as_slice(), width);
    let room: u16 = if width > 4 {
        width - 4
    } else {
        1
    };
    let mut rows: Vec<Line> = Vec::new();
    push_line(&mut rows, toned("Parameters:".to_owned(), Role::MenuTitle));
    append_lines(
        &mut rows,
        json_preview_lines(call.parameters.as_str(), call.parameter_tokens.as_slice(), room),
    );
    push_line(&mut rows, Line::new());
    push_line(&mut rows, toned("Output:".to_owned(), Role::MenuTitle));
    match &call.output {
        Some(output) => {
            append_lines(
                &mut rows,
                json_preview_lines(output.as_str(), call.output_tokens.as_slice(), room),
            );
        },
        None => {
            let text: &str = if call.status == ToolActivityStatus::Pending {
                "Waiting for output\u{2026}"
            } else {
                "No output available."
            };
            push_line(&mut rows, toned(text.to_owned(), Role::Dim));
        },
    }
    proof {
        assert(line_views(rows@) =~= call_rows(*call, width as int));
    }
    ExpandedTextContent { header, body: ExpandedTextBody::Materialized(rows), inset: true }
}

/// What is shown of a context that was compacted; `rows` is the summary.
pub fn compaction_content(rows: Vec<Line>, width: u16) -> (content: ExpandedTextContent)
    ensures
        line_views(content.header@) == titled(
            "Compacted context"@,
            None,
            Seq::empty(),
            width as int,
        ),
        content.body == ExpandedTextBody::Materialized(rows),
        content.inset,
{
    let details: Vec<Line> = Vec::new();
    proof {
        assert(line_views(details@) =~= Seq::empty());
    }
    ExpandedTextContent {
        header: render_titled("Compacted context", None, details.as_slice(), width),
        body: ExpandedTextBody::Materialized(rows),
        inset: true,
    }
}

/// What is shown of the changes to a repository; `rows` are the changes.
pub fn repository_diff_content(title: &str, files: usize, rows: Vec<Line>, width: u16) -> (content:
    ExpandedTextContent)
    ensures
        line_views(content.header@) == titled(
            title@,
            None,
            seq![raw_line(decimal(files as nat) + " files"@)],
            width as int,
        ),
        content.body == ExpandedTextBody::Materialized(rows),
        !content.inset,
{
    let detail = Line::raw(concat(count_text(files).as_str(), " files").as_str());
    let mut details: Vec<Line> = Vec::new();
    push_line(&mut details, detail);
    proof {
        assert(line_views(details@) =~= seq![detail@]);
    }
    ExpandedTextContent {
        header: render_titled(title, None, details.as_slice(), width),
        body: ExpandedTextBody::Materialized(rows),
        inset: false,
    }
}

/// What a page was fetched as. `Markdown` has the rows that it is laid out in;
/// `Html` has the tokens of its lines.
#[derive(Debug)]
pub enum WebFetchFormat {
    Markdown(Vec<Line>),
    Text,
    Html(Vec<Vec<CodeToken>>),
}

/// The rows of the first `count` lines of a text.
pub open spec fn text_rows(texts: Seq<Seq<char>>, count: int, width: int) -> Seq<LineView>
    decreases count,
{
    if count <= 0 {
        Seq::empty()
    } else {
        text_rows(texts, count - 1, width) + wrapped_line(
            raw_line(safe(texts[count - 1])),
            width,
        )
    }
}

/// The rows of the first `count` lines of source code.
pub open spec fn source_rows(
    texts: Seq<Seq<char>>,
    tokens: Seq<Vec<CodeToken>>,
    count: int,
    width: int,
) -> Seq<LineView>
    decreases count,
{
    if count <= 0 {
        Seq::empty()
    } else {
        source_rows(texts, tokens, count - 1, width) + wrapped_line(
            line(
                code_spans(
                    line_tokens(tokens, count - 1, texts[count - 1]),
                    0,
                    texts[count - 1].len() as int,
                ),
            ),
            width,
        )
    }
}

/// The rows of a page.
pub open spec fn page_rows(format: WebFetchFormat, output: Seq<char>, width: int) -> Seq<LineView> {
    let texts = lines_of(output);
    match format {
        WebFetchFormat::Markdown(rows) => line_views(rows@),
        WebFetchFormat::Text => text_rows(texts, texts.len() as int, less(width, 4)),
        WebFetchFormat::Html(tokens) => source_rows(
            texts,
            tokens@,
            texts.len() as int,
            less(width, 4),
        ),
    }
}

pub fn web_fetch_content_lines(format: &WebFetchFormat, output: &str, width: u16) -> (lines: Vec<Line>)
    requires
        format matches WebFetchFormat::Html(tokens) ==> tokens_fit(tokens@),
    ensures
        line_views(lines@) == page_rows(*format, output@, width as int),
{
    let room: usize = (width as usize).saturating_sub(4);
    match format {
        WebFetchFormat::Markdown(rows) => {
            let lines = copy_rows(rows.as_slice(), 0, rows.len());
            proof {
                assert(line_views(lines@) =~= line_views(rows@));
            }
            lines
        },
        WebFetchFormat::Text => {
            let texts = split_lines(output);
            let ghost all = views(texts@);
            let mut lines: Vec<Line> = Vec::new();
            let mut i: usize = 0;
            proof {
                assert(line_views(lines@) =~= text_rows(all, 0, room as int));
            }
            while i < texts.len()
                invariant
                    i <= texts@.len(),
                    all == views(texts@),
                    line_views(lines@) == text_rows(all, i as int, room as int),
                decreases texts@.len() - i,
            {
                proof {
                    assert(all[i as int] == texts@[i as int]@);
                }
                let row = Line::raw(terminal_safe(texts[i].as_str()).as_str());
                append_lines(&mut lines, wrap_log_line(&row, room));
                i += 1;
            }
            lines
        },
        WebFetchFormat::Html(tokens) => {
            let texts = split_lines(output);
            let ghost all = views(texts@);
            let mut lines: Vec<Line> = Vec::new();
            let mut i: usize = 0;
            proof {
                assert(line_views(lines@) =~= source_rows(all, tokens@, 0, room as int));
            }
            while i < texts.len()
                invariant
                    i <= texts@.len(),
                    tokens_fit(tokens@),
                    all == views(texts@),
                    line_views(lines@) == source_rows(all, tokens@, i as int, room as int),
                decreases texts@.len() - i,
            {
                proof {
                    assert(all[i as int] == texts@[i as int]@);
                }
                let count: usize = chars_of(texts[i].as_str()).len();
                let mut row = Line::new();
                let ghost none = row@.spans;
                push_highlighted(&mut row, tokens.as_slice(), i, texts[i].as_str(), 0, count);
                proof {
                    assert(none =~= Seq::empty());
                    assert(row@.spans =~= code_spans(
                        line_tokens(tokens@, i as int, all[i as int]),
                        0,
                        count as int,
                    ));
                }
                append_lines(&mut lines, wrap_log_line(&row, room));
                i += 1;
            }
            lines
        },
    }
}

/// The address of a page, with the one it led to.
pub open spec fn page_address(url: Seq<char>, redirected: Option<Seq<char>>) -> LineView {
    match redirected {
        None => raw_line(url),
        Some(destination) => line(
            seq![
                span(url, Style::plain()),
                span(" \u{2192} "@, Style::of(Role::Dim)),
                span(destination, Style::plain()),
            ],
        ),
    }
}

/// What is shown of a page that was fetched.
pub fn web_fetch_content(
    url: &str,
    redirected: Option<&str>,
    format: &WebFetchFormat,
    output: &str,
    width: u16,
) -> (content: ExpandedTextContent)
    requires
        format matches WebFetchFormat::Html(tokens) ==> tokens_fit(tokens@),
    ensures
        line_views(content.header@) == titled(
            "Web Fetch"@,
            Some(
                page_address(
                    url@,
                    match redirected {
                        None => None,
                        Some(destination) => Some(destination@),
                    },
                ),
            ),
            Seq::empty(),
            width as int,
        ),
        content.body matches ExpandedTextBody::Materialized(rows) && line_views(rows@)
            == page_rows(*format, output@, width as int),
        content.inset,
{
    let mut subject = Line::raw(url);
    if let Some(destination) = redirected {
        subject.push_str(" \u{2192} ", Style::of(Role::Dim));
        subject.push_str(destination, Style::plain());
        proof {
            assert(subject@.spans =~= page_address(url@, Some(destination@)).spans);
        }
    }
    let details: Vec<Line> = Vec::new();
    proof {
        assert(line_views(details@) =~= Seq::empty());
    }
    ExpandedTextContent {
        header: render_titled("Web Fetch", Some(&subject), details.as_slice(), width),
        body: ExpandedTextBody::Materialized(web_fetch_content_lines(format, output, width)),
        inset: true,
    }
}

/// A result of a search.
#[derive(Debug)]
pub struct WebSearchResult {
    pub title: String,
    pub url: String,
    pub published_at: Option<String>,
    pub snippet: String,
}

/// The rows of the title of a result.
pub open spec fn result_title(title: Seq<char>, width: int) -> Seq<LineView> {
    let rows = wrap_rows(title, width);
    Seq::new(
        rows.len(),
        |i: int|
            result_title_row(title.subrange(rows[i].0 as int, rows[i].1 as int), i == 0),
    )
}

pub open spec fn result_title_row(text: Seq<char>, first: bool) -> LineView {
    line(
        seq![
            span(if first { "\u{2022} "@ } else { "  "@ }, Style::of(Role::Accent)),
            span(text, Style::plain().bold_spec()),
        ],
    )
}

/// A row below the title of a result.
pub open spec fn result_row(text: Seq<char>, role: Role) -> LineView {
    line(seq![span("  "@ + text, Style::of(role))])
}

/// The rows of the text of a result.
pub open spec fn result_snippet(snippet: Seq<char>, width: int) -> Seq<LineView> {
    let rows = wrap_rows(snippet, width);
    Seq::new(
        rows.len(),
        |i: int| result_row(snippet.subrange(rows[i].0 as int, rows[i].1 as int), Role::Dim),
    )
}

/// The rows of a result.
pub open spec fn result_rows(result: WebSearchResult, width: int) -> Seq<LineView> {
    let snippet = safe(result.snippet@);
    result_title(safe(result.title@), width).push(result_row(safe(result.url@), Role::Accent)) + (
    if result.published_at is Some || snippet.len() > 0 {
        seq![blank_line()]
    } else {
        Seq::empty()
    }) + (match result.published_at {
        Some(published_at) => seq![result_row(safe(published_at@), Role::Dim)],
        None => Seq::empty(),
    }) + (if snippet.len() > 0 {
        result_snippet(snippet, less(width, 2))
    } else {
        Seq::empty()
    })
}

/// The rows of the first `count` results, a blank row between them.
pub open spec fn results_rows(
    results: Seq<WebSearchResult>,
    count: int,
    width: int,
) -> Seq<LineView>
    decreases count,
{
    if count <= 0 {
        Seq::empty()
    } else {
        results_rows(results, count - 1, width) + (if count > 1 {
            seq![blank_line()]
        } else {
            Seq::empty()
        }) + result_rows(results[count - 1], width)
    }
}

fn append_result_title(lines: &mut Vec<Line>, title: &str, width: usize)
    ensures
        line_views(final(lines)@) == line_views(old(lines)@) + result_title(
            title@,
            width as int,
        ),
{
    let ranges = wrap_ranges(title, width);
    let chars: Vec<char> = chars_of(title);
    let total: usize = chars.len();
    check_clusters(title);
    let ghost before = line_views(lines@);
    let ghost all = result_title(title@, width as int);
    let mut i: usize = 0;
    proof {
        assert(before + all.take(0) =~= before);
    }
    while i < ranges.len()
        invariant
            i <= ranges@.len(),
            total == chars@.len(),
            chars@ == title@,
            joined(grapheme_clusters(title@)) == title@,
            ranges@ == wrap_rows(title@, width as int),
            all == result_title(title@, width as int),
            line_views(lines@) == before + all.take(i as int),
        decreases ranges@.len() - i,
    {
        proof {
            lemma_wrap_rows_bounds(title@, width as int, i as int);
        }
        let part: String = text_part(chars.as_slice(), ranges[i].0, ranges[i].1);
        let mut row = Line::new();
        row.push_str(
            if i == 0 {
                "\u{2022} "
            } else {
                "  "
            },
            Style::of(Role::Accent),
        );
        row.push(part, Style::plain().bold());
        proof {
            assert(row@.spans =~= result_title_row(part@, i == 0).spans);
            assert(all[i as int] == row@);
        }
        push_line(lines, row);
        i += 1;
        proof {
            assert(line_views(lines@) =~= before + all.take(i as int));
        }
    }
    proof {
        assert(all.take(i as int) =~= all);
    }
}

fn append_snippet(lines: &mut Vec<Line>, snippet: &str, width: usize)
    ensures
        line_views(final(lines)@) == line_views(old(lines)@) + result_snippet(
            snippet@,
            width as int,
        ),
{
    let ranges = wrap_ranges(snippet, width);
    let chars: Vec<char> = chars_of(snippet);
    let total: usize = chars.len();
    check_clusters(snippet);
    let ghost before = line_views(lines@);
    let ghost all = result_snippet(snippet@, width as int);
    let mut i: usize = 0;
    proof {
        assert(before + all.take(0) =~= before);
    }
    while i < ranges.len()
        invariant
            i <= ranges@.len(),
            total == chars@.len(),
            chars@ == snippet@,
            joined(grapheme_clusters(snippet@)) == snippet@,
            ranges@ == wrap_rows(snippet@, width as int),
            all == result_snippet(snippet@, width as int),
            line_views(lines@) == before + all.take(i as int),
        decreases ranges@.len() - i,
    {
        proof {
            lemma_wrap_rows_bounds(snippet@, width as int, i as int);
        }
        let part: String = text_part(chars.as_slice(), ranges[i].0, ranges[i].1);
        let row = Line::styled(concat("  ", part.as_str()), Style::of(Role::Dim));
        proof {
            assert(all[i as int] == row@);
        }
        push_line(lines, row);
        i += 1;
        proof {
            assert(line_views(lines@) =~= before + all.take(i as int));
        }
    }
    proof {
        assert(all.take(i as int) =~= all);
    }
}

fn append_result(lines: &mut Vec<Line>, result: &WebSearchResult, width: usize)
    ensures
        line_views(final(lines)@) == line_views(old(lines)@) + result_rows(*result, width as int),
{
    let ghost before = line_views(lines@);
    append_result_title(lines, terminal_safe(result.title.as_str()).as_str(), width);
    push_line(
        lines,
        Line::styled(
            concat("  ", terminal_safe(result.url.as_str()).as_str()),
            Style::of(Role::Accent),
        ),
    );
    let snippet: String = terminal_safe(result.snippet.as_str());
    if result.published_at.is_some() || !snippet.as_str().is_empty() {
        push_line(lines, Line::new());
    }
    if let Some(published_at) = &result.published_at {
        push_line(
            lines,
            Line::styled(
                concat("  ", terminal_safe(published_at.as_str()).as_str()),
                Style::of(Role::Dim),
            ),
        );
    }
    if !snippet.as_str().is_empty() {
        append_snippet(lines, snippet.as_str(), width.saturating_sub(2));
    }
    proof {
        assert(line_views(lines@) =~= before + result_rows(*result, width as int));
    }
}

/// The rows of the results of a search, or that there are none.
pub open spec fn search_rows(results: Seq<WebSearchResult>, width: int) -> Seq<LineView> {
    if results.len() == 0 {
        seq![line(seq![span("No results."@, Style::of(Role::Dim))])]
    } else {
        results_rows(results, results.len() as int, less(width, 4))
    }
}

pub fn web_search_result_lines(results: &[WebSearchResult], width: u16) -> (lines: Vec<Line>)
    ensures
        line_views(lines@) == search_rows(results@, width as int),
{
    let room: usize = (width as usize).saturating_sub(4);
    let mut lines: Vec<Line> = Vec::new();
    let mut i: usize = 0;
    proof {
        assert(line_views(lines@) =~= results_rows(results@, 0, room as int));
    }
    while i < results.len()
        invariant
            i <= results@.len(),
            line_views(lines@) == results_rows(results@, i as int, room as int),
        decreases results@.len() - i,
    {
        let ghost before = line_views(lines@);
        if i > 0 {
            push_line(&mut lines, Line::new());
        }
        append_result(&mut lines, &results[i], room);
        i += 1;
        proof {
            assert(line_views(lines@) =~= results_rows(results@, i as int, room as int));
        }
    }
    if results.len() == 0 {
        push_line(&mut lines, Line::styled("No results.".to_owned(), Style::of(Role::Dim)));
        proof {
            assert(line_views(lines@) =~= search_rows(results@, width as int));
        }
    }
    lines
}

/// What is shown of a search.
pub fn web_search_content(provider: &str, query: &str, results: &[WebSearchResult], width: u16) -> (content:
    ExpandedTextContent)
    ensures
        line_views(content.header@) == titled(
            "Web Search"@,
            Some(raw_line(query@)),
            seq![raw_line(provider@), raw_line(decimal(results@.len()) + " results"@)],
            width as int,
        ),
        content.body matches ExpandedTextBody::Materialized(rows) && line_views(rows@)
            == search_rows(results@, width as int),
        content.inset,
{
    let subject = Line::raw(query);
    let count = Line::raw(concat(count_text(results.len()).as_str(), " results").as_str());
    let mut details: Vec<Line> = Vec::new();
    push_line(&mut details, Line::raw(provider));
    push_line(&mut details, count);
    proof {
        assert(line_views(details@) =~= seq![raw_line(provider@), count@]);
    }
    ExpandedTextContent {
        header: render_titled("Web Search", Some(&subject), details.as_slice(), width),
        body: ExpandedTextBody::Materialized(web_search_result_lines(results, width)),
        inset: true,
    }
}

/// A sub-agent as its log names it.
#[derive(Debug)]
pub struct AgentLogSubject {
    pub profile: String,
    pub model: String,
    pub effort: Option<String>,
    pub status: String,
    pub elapsed: Option<String>,
    pub usage: Option<String>,
}

/// The title of the log of a sub-agent.
pub open spec fn agent_title(agent: AgentLogSubject, width: int) -> LineView {
    expanded_title_line(
        "Sub-agent log"@,
        Some(raw_line(agent.profile@)),
        seq![
            raw_line(
                match agent.effort {
                    Some(effort) => agent.model@ + " "@ + effort@,
                    None => agent.model@,
                },
            ),
            raw_line(status_text(agent.status@, crate::interaction::text_view(agent.elapsed))),
        ],
        width,
    )
}

pub fn agent_log_title(agent: &AgentLogSubject, width: u16) -> (row: Line)
    ensures
        row@ == agent_title(*agent, width as int),
{
    let subject = Line::raw(agent.profile.as_str());
    let model = match &agent.effort {
        Some(effort) => Line::raw(
            concat3(agent.model.as_str(), " ", effort.as_str()).as_str(),
        ),
        None => Line::raw(agent.model.as_str()),
    };
    let status = match &agent.elapsed {
        Some(elapsed) => expanded_status_detail(agent.status.as_str(), Some(elapsed.as_str())),
        None => expanded_status_detail(agent.status.as_str(), None),
    };
    let mut details: Vec<Line> = Vec::new();
    push_line(&mut details, model);
    push_line(&mut details, status);
    proof {
        assert(status@ == raw_line(
            status_text(agent.status@, crate::interaction::text_view(agent.elapsed)),
        ));
        assert(line_views(details@) =~= seq![
            raw_line(
                match agent.effort {
                    Some(effort) => agent.model@ + " "@ + effort@,
                    None => agent.model@,
                },
            ),
            raw_line(status_text(agent.status@, crate::interaction::text_view(agent.elapsed))),
        ]);
    }
    expanded_title("Sub-agent log", Some(&subject), details.as_slice(), width)
}

/// The header of the log of a sub-agent.
pub open spec fn agent_header(agent: AgentLogSubject, width: int) -> Seq<LineView> {
    seq![agent_title(agent, width)] + (match agent.usage {
        Some(usage) => seq![
            cut_line(line(seq![span("  "@ + usage@, Style::of(Role::Dim))]), width),
        ],
        None => Seq::empty(),
    }) + seq![blank_line()]
}

pub fn agent_log_header(agent: &AgentLogSubject, width: u16) -> (header: Vec<Line>)
    ensures
        line_views(header@) == agent_header(*agent, width as int),
{
    let mut header: Vec<Line> = Vec::new();
    push_line(&mut header, agent_log_title(agent, width));
    if let Some(usage) = &agent.usage {
        push_line(
            &mut header,
            truncate_line(
                Line::styled(concat("  ", usage.as_str()), Style::of(Role::Dim)),
                width as usize,
            ),
        );
    }
    push_line(&mut header, Line::new());
    proof {
        assert(line_views(header@) =~= agent_header(*agent, width as int));
    }
    header
}

/// The log of a sub-agent: its entries, what the user chose to see of them, and the rows
/// that its parts are put together from.
#[derive(Debug)]
pub struct LogSource {
    pub entries: Vec<LogEntry>,
    pub choices: LogChoices,
    /// The rows of its messages and cards.
    pub cards: CardRows,
    /// The rows of its summaries, and of the message that is being written.
    pub extras: CardRows,
}

impl LogSource {
    /// The groups of the log can be counted.
    pub open spec fn valid(self) -> bool {
        group_total(self.entries@, self.entries@.len() as int) <= usize::MAX
    }

    /// The parts of the log that are shown.
    pub open spec fn items(self, streaming: bool, failed: bool) -> Seq<FlowView> {
        log_items(self.entries@, self.choices.settings(), streaming, failed)
    }
}

/// The rows of the body of a log.
pub open spec fn log_body(
    task: Seq<char>,
    log: LogSource,
    error: Option<Seq<char>>,
    streaming: bool,
    width: int,
) -> Seq<LineView> {
    let items = log.items(streaming, error is Some);
    task_rows(task, width) + flow_rows(items, log.cards, log.extras) + log_tail(
        error,
        items.len() == 0,
        streaming,
        width,
    )
}

/// What is shown of the log of a sub-agent: its task, its entries, and its end.
pub fn agent_log_content(
    agent: &AgentLogSubject,
    task: &str,
    log: &LogSource,
    error: Option<&str>,
    streaming: bool,
    width: u16,
) -> (content: ExpandedTextContent)
    requires
        log.valid(),
    ensures
        line_views(content.header@) == agent_header(*agent, width as int),
        !content.inset,
        content.body matches ExpandedTextBody::Materialized(rows) && line_views(rows@) == log_body(
            task@,
            *log,
            match error {
                Some(error) => Some(error@),
                None => None,
            },
            streaming,
            width as int,
        ),
{
    let items: Vec<FlowItem> = agent_log_items(
        log.entries.as_slice(),
        &log.choices.explorations,
        &log.choices.runs,
        log.choices.collapse,
        streaming,
        error.is_some(),
    );
    proof {
        assert(flow_views(items@).len() == items@.len());
    }
    let mut rows = task_lines(task, width);
    append_lines(&mut rows, log_rows(items.as_slice(), &log.cards, &log.extras));
    append_agent_log_tail(&mut rows, error, items.len() == 0, streaming, width);
    ExpandedTextContent {
        header: agent_log_header(agent, width),
        body: ExpandedTextBody::Materialized(rows),
        inset: false,
    }
}

/// The rows behind the first rows of a log: the message that is being written, with one
/// blank row above it, and the end of the log.
pub open spec fn rows_behind(
    role: Option<FlowRole>,
    streaming: Option<Seq<LineView>>,
    error: Option<Seq<char>>,
    width: int,
) -> Seq<LineView> {
    (match (error, streaming) {
        (None, Some(rows)) => (if role is Some { seq![blank_line()] } else { Seq::empty() }) + rows,
        _ => Seq::empty(),
    }) + log_tail(error, role is None, streaming is Some, width)
}

/// Whether a body is that of a log whose first rows are kept. They lose their blank end to
/// a message that is being written.
pub open spec fn is_log_body(
    body: ExpandedTextBody,
    prefix: Seq<LineView>,
    role: Option<FlowRole>,
    streaming: Option<Seq<LineView>>,
    error: Option<Seq<char>>,
    width: int,
) -> bool {
    body matches ExpandedTextBody::AgentLog { prefix: kept, prefix_len, tail } && {
        &&& line_views(kept@) == prefix
        &&& prefix_len == if error is None && streaming is Some && role is Some {
            content_end(prefix)
        } else {
            prefix.len() as int
        }
        &&& line_views(tail@) == rows_behind(role, streaming, error, width)
    }
}

/// Some rows, where there are any.
pub open spec fn rows_view(rows: Option<Vec<Line>>) -> Option<Seq<LineView>> {
    match rows {
        Some(rows) => Some(line_views(rows@)),
        None => None,
    }
}

/// What is shown of the log of a sub-agent whose first rows are kept. `streaming` are
/// the rows of the message that is being written.
pub fn agent_log_update(
    agent: &AgentLogSubject,
    prefix: Vec<Line>,
    role: Option<FlowRole>,
    streaming: Option<Vec<Line>>,
    error: Option<&str>,
    width: u16,
) -> (content: ExpandedTextContent)
    ensures
        line_views(content.header@) == agent_header(*agent, width as int),
        !content.inset,
        content.body.valid(),
        is_log_body(
            content.body,
            line_views(prefix@),
            role,
            rows_view(streaming),
            match error {
                Some(error) => Some(error@),
                None => None,
            },
            width as int,
        ),
{
    let mut tail: Vec<Line> = Vec::new();
    let mut prefix_len: usize = prefix.len();
    let writing: bool = streaming.is_some();
    proof {
        assert(line_views(tail@) =~= Seq::empty());
    }
    if error.is_none() {
        if let Some(rows) = streaming {
            prefix_len = kept_prefix(prefix.as_slice(), role);
            if role.is_some() {
                push_line(&mut tail, Line::new());
            }
            append_lines(&mut tail, rows);
            proof {
                assert(line_views(tail@) =~= (if role is Some {
                    seq![blank_line()]
                } else {
                    Seq::empty()
                }) + line_views(rows@));
            }
        }
    }
    append_agent_log_tail(&mut tail, error, role.is_none(), writing, width);
    ExpandedTextContent {
        header: agent_log_header(agent, width),
        body: ExpandedTextBody::AgentLog { prefix, prefix_len, tail },
        inset: false,
    }
}

/// Lays out the log of a sub-agent, with as much as possible of what is kept of it; what
/// is then to be kept comes with it. `project` reads the entries of the log, `render`
/// lays out a message or a card, and `summarize` the summary of a run.
pub fn agent_log_text<
    P: FnOnce() -> Vec<LogEntry>,
    R: Fn(RowKey) -> Vec<Line>,
    S: Fn(RowKey) -> Vec<Line>,
>(
    kept: AgentLogLayout,
    wanted: LogIdentity,
    agent: &AgentLogSubject,
    task: &str,
    choices: &LogChoices,
    project: P,
    render: &R,
    summarize: &S,
    streaming: Option<Vec<Line>>,
    error: Option<&str>,
) -> (made: (ExpandedTextContent, AgentLogLayout))
    requires
        kept.valid(),
        project.requires(()),
        forall|entries: Vec<LogEntry>|
            project.ensures((), entries) ==> #[trigger] group_total(
                entries@,
                entries@.len() as int,
            ) <= usize::MAX,
        forall|key: RowKey| #[trigger] render.requires((key,)),
        forall|key: RowKey| #[trigger] summarize.requires((key,)),
    ensures
        made.0.body.valid(),
        made.1.valid(),
        log_refreshed(
            kept,
            made.1,
            wanted,
            task@,
            choices.settings(),
            project,
            *render,
            *summarize,
        ),
        line_views(made.0.header@) == agent_header(*agent, wanted.width as int),
        !made.0.inset,
        is_log_body(
            made.0.body,
            line_views(made.1.prefix@),
            made.1.role,
            rows_view(streaming),
            match error {
                Some(error) => Some(error@),
                None => None,
            },
            wanted.width as int,
        ),
{
    let mut layout: AgentLogLayout = kept;
    refresh_agent_log(&mut layout, wanted, task, choices, project, render, summarize);
    let prefix: Vec<Line> = copy_rows(layout.prefix.as_slice(), 0, layout.prefix.len());
    proof {
        assert(line_views(prefix@) =~= line_views(layout.prefix@));
    }
    let content: ExpandedTextContent = agent_log_update(
        agent,
        prefix,
        layout.role,
        streaming,
        error,
        wanted.width,
    );
    (content, layout)
}

/// What a file holds.
#[derive(Debug)]
pub enum FileViewContent {
    Text(Vec<HighlightedLine>),
    Image { format: String },
    Binary,
    /// A file over a limit, which is given in words.
    TooLarge { limit: String },
    Unavailable { message: String },
}

/// What a file holds, in words.
pub open spec fn file_detail(content: FileViewContent) -> Seq<char> {
    match content {
        FileViewContent::Text(lines) => decimal(lines@.len()) + " lines"@,
        FileViewContent::Image { format } => format@ + " image"@,
        FileViewContent::Binary => "binary"@,
        FileViewContent::TooLarge { limit } => "too large"@,
        FileViewContent::Unavailable { message } => "unavailable"@,
    }
}

/// What is shown where the text of a file cannot be.
pub open spec fn file_notice(content: FileViewContent) -> Seq<LineView> {
    match content {
        FileViewContent::Text(_) => Seq::empty(),
        FileViewContent::Image { format } => Seq::empty(),
        FileViewContent::Binary => seq![
            line(seq![span("  Binary files cannot be displayed."@, Style::of(Role::Dim))]),
        ],
        FileViewContent::TooLarge { limit } => seq![
            line(
                seq![
                    span(
                        "  File is too large to display (limit "@ + limit@ + ")."@,
                        Style::of(Role::Dim),
                    ),
                ],
            ),
        ],
        FileViewContent::Unavailable { message } => seq![
            line(
                seq![
                    span("  File is unavailable: "@ + safe(message@), Style::of(Role::Error)),
                ],
            ),
        ],
    }
}

/// What is shown of a file; `size` is its size in words.
pub fn file_content(path: &str, size: &str, view: FileViewContent, width: u16) -> (content:
    ExpandedTextContent)
    ensures
        line_views(content.header@) == titled(
            "File"@,
            Some(raw_line(path@)),
            seq![raw_line(file_detail(view)), raw_line(size@)],
            width as int,
        ),
        !content.inset,
        content.body.valid(),
        match view {
            FileViewContent::Text(lines) => lays_out_file(
                content,
                path@,
                size@,
                lines@,
                width as int,
            ),
            _ => content.body matches ExpandedTextBody::Materialized(rows) && line_views(rows@)
                == file_notice(view),
        },
{
    let detail: String = match &view {
        FileViewContent::Text(lines) => concat(count_text(lines.len()).as_str(), " lines"),
        FileViewContent::Image { format } => concat(format.as_str(), " image"),
        FileViewContent::Binary => "binary".to_owned(),
        FileViewContent::TooLarge { .. } => "too large".to_owned(),
        FileViewContent::Unavailable { .. } => "unavailable".to_owned(),
    };
    let subject = Line::raw(path);
    let kind = Line::raw(detail.as_str());
    let mut details: Vec<Line> = Vec::new();
    push_line(&mut details, kind);
    push_line(&mut details, Line::raw(size));
    proof {
        assert(line_views(details@) =~= seq![kind@, raw_line(size@)]);
    }
    let header = render_titled("File", Some(&subject), details.as_slice(), width);
    let ghost notice = file_notice(view);
    let mut rows: Vec<Line> = Vec::new();
    match view {
        FileViewContent::Text(lines) => {
            return ExpandedTextContent {
                header,
                body: ExpandedTextBody::HighlightedFile(HighlightedFileRows::new(lines, width)),
                inset: false,
            };
        },
        FileViewContent::Image { .. } => {},
        FileViewContent::Binary => {
            push_line(
                &mut rows,
                Line::styled(
                    "  Binary files cannot be displayed.".to_owned(),
                    Style::of(Role::Dim),
                ),
            );
        },
        FileViewContent::TooLarge { limit } => {
            push_line(
                &mut rows,
                Line::styled(
                    concat3("  File is too large to display (limit ", limit.as_str(), ")."),
                    Style::of(Role::Dim),
                ),
            );
        },
        FileViewContent::Unavailable { message } => {
            push_line(
                &mut rows,
                Line::styled(
                    concat("  File is unavailable: ", terminal_safe(message.as_str()).as_str()),
                    Style::of(Role::Error),
                ),
            );
        },
    }
    proof {
        assert(line_views(rows@) =~= notice);
    }
    ExpandedTextContent { header, body: ExpandedTextBody::Materialized(rows), inset: false }
}

/// How many lines a change added and removed.
pub open spec fn change_counts(added: usize, removed: usize) -> LineView {
    line(
        seq![
            span("+"@ + decimal(added as nat), Style::of(Role::DiffAddition)),
            span(" "@, Style::plain()),
            span("-"@ + decimal(removed as nat), Style::of(Role::DiffDeletion)),
        ],
    )
}

/// What is shown of a changed file.
pub fn full_file_diff_content(
    path: &str,
    added: usize,
    removed: usize,
    lines: Vec<DiffLine>,
    tokens: Vec<HighlightedLine>,
    width: u16,
) -> (content: ExpandedTextContent)
    requires
        lines@.len() == tokens@.len(),
    ensures
        line_views(content.header@) == titled(
            "Diff"@,
            Some(raw_line(path@)),
            seq![change_counts(added, removed)],
            width as int,
        ),
        !content.inset,
        content.body.valid(),
        content.body matches ExpandedTextBody::FullFileDiff(diff) && diff.lines == lines
            && diff.width == width && diff.rows@ == crate::file_rows::FileView::of(
            crate::file_rows::all_token_views(tokens@),
            crate::file_views::diff_content_width(lines@, width as int),
        ) && diff.number_width == crate::file_views::diff_number_width(lines@),
{
    let subject = Line::raw(path);
    let mut counts = Line::new();
    counts.push(concat("+", count_text(added).as_str()), Style::of(Role::DiffAddition));
    counts.push_str(" ", Style::plain());
    counts.push(concat("-", count_text(removed).as_str()), Style::of(Role::DiffDeletion));
    proof {
        assert(counts@.spans =~= change_counts(added, removed).spans);
    }
    let mut details: Vec<Line> = Vec::new();
    push_line(&mut details, counts);
    proof {
        assert(line_views(details@) =~= seq![counts@]);
    }
    ExpandedTextContent {
        header: render_titled("Diff", Some(&subject), details.as_slice(), width),
        body: ExpandedTextBody::FullFileDiff(FullFileDiffRows::new(lines, tokens, width)),
        inset: false,
    }
}

/// What is shown of an image; `size` is its size in words.
pub fn image_content(number: usize, image_width: u32, image_height: u32, size: &str, width: u16) -> (content:
    ExpandedTextContent)
    ensures
        line_views(content.header@) == titled(
            "Image"@,
            Some(raw_line("#"@ + decimal(number as nat))),
            seq![
                raw_line("PNG"@),
                raw_line(decimal(image_width as nat) + "\u{d7}"@ + decimal(image_height as nat)),
                raw_line(size@),
            ],
            width as int,
        ),
        content.body matches ExpandedTextBody::Materialized(rows) && rows@.len() == 0,
        content.inset,
{
    let subject = Line::raw(concat("#", count_text(number).as_str()).as_str());
    let extent = Line::raw(
        concat3(
            decimal_text(image_width as u64).as_str(),
            "\u{d7}",
            decimal_text(image_height as u64).as_str(),
        ).as_str(),
    );
    let mut details: Vec<Line> = Vec::new();
    push_line(&mut details, Line::raw("PNG"));
    push_line(&mut details, extent);
    push_line(&mut details, Line::raw(size));
    proof {
        assert(line_views(details@) =~= seq![raw_line("PNG"@), extent@, raw_line(size@)]);
    }
    ExpandedTextContent {
        header: render_titled("Image", Some(&subject), details.as_slice(), width),
        body: ExpandedTextBody::Materialized(Vec::new()),
        inset: true,
    }
}

/// A directory: its root, which of its rows can be selected, and the rows
/// themselves. `limit` is the number of entries that are shown where there are
/// more.
#[derive(Debug)]
pub struct DirectoryView {
    pub root: String,
    pub selectable: Vec<bool>,
    pub limit: Option<usize>,
    pub unavailable: Option<String>,
    pub rows: Vec<Line>,
}

/// How many of the first `count` rows can be selected.
pub open spec fn selectable_count(selectable: Seq<bool>, count: int) -> nat
    decreases count,
{
    if count <= 0 {
        0
    } else {
        selectable_count(selectable, count - 1) + if selectable[count - 1] { 1nat } else { 0 }
    }
}

/// The header of a directory.
pub open spec fn directory_header(directory: DirectoryView, width: int) -> Seq<LineView> {
    seq![
        expanded_title_line(
            "Directory"@,
            Some(raw_line(directory.root@)),
            seq![
                raw_line(
                    decimal(
                        selectable_count(
                            directory.selectable@,
                            directory.selectable@.len() as int,
                        ),
                    ) + " entries"@,
                ),
            ],
            width,
        ),
    ] + (match directory.limit {
        Some(limit) => seq![
            cut_line(
                line(
                    seq![
                        span(
                            "  Showing the first "@ + decimal(limit as nat) + " entries."@,
                            Style::of(Role::Dim),
                        ),
                    ],
                ),
                width,
            ),
        ],
        None => Seq::empty(),
    }) + seq![blank_line()]
}

/// The rows of a directory, or why there are none.
pub open spec fn directory_rows(directory: DirectoryView) -> Seq<LineView> {
    match directory.unavailable {
        None => line_views(directory.rows@),
        Some(message) => seq![
            line(
                seq![
                    span("  Directory is unavailable: "@ + safe(message@), Style::of(Role::Error)),
                ],
            ),
        ],
    }
}

/// What is shown of a directory.
pub fn directory_content(directory: &DirectoryView, width: u16) -> (content: ExpandedTextContent)
    ensures
        line_views(content.header@) == directory_header(*directory, width as int),
        content.body matches ExpandedTextBody::Materialized(rows) && line_views(rows@)
            == directory_rows(*directory),
        !content.inset,
{
    let mut entries: usize = 0;
    let mut i: usize = 0;
    while i < directory.selectable.len()
        invariant
            i <= directory.selectable@.len(),
            entries <= i,
            entries == selectable_count(directory.selectable@, i as int),
        decreases directory.selectable@.len() - i,
    {
        if directory.selectable[i] {
            entries += 1;
        }
        i += 1;
    }
    let subject = Line::raw(directory.root.as_str());
    let count = Line::raw(concat(count_text(entries).as_str(), " entries").as_str());
    let mut details: Vec<Line> = Vec::new();
    push_line(&mut details, count);
    proof {
        assert(line_views(details@) =~= seq![count@]);
    }
    let mut header: Vec<Line> = Vec::new();
    push_line(
        &mut header,
        expanded_title("Directory", Some(&subject), details.as_slice(), width),
    );
    if let Some(limit) = directory.limit {
        push_line(
            &mut header,
            truncate_line(
                Line::styled(
                    concat3("  Showing the first ", count_text(limit).as_str(), " entries."),
                    Style::of(Role::Dim),
                ),
                width as usize,
            ),
        );
    }
    push_line(&mut header, Line::new());
    proof {
        assert(line_views(header@) =~= directory_header(*directory, width as int));
    }
    let mut rows: Vec<Line> = Vec::new();
    match &directory.unavailable {
        None => {
            rows = copy_rows(directory.rows.as_slice(), 0, directory.rows.len());
        },
        Some(message) => {
            push_line(
                &mut rows,
                Line::styled(
                    concat(
                        "  Directory is unavailable: ",
                        terminal_safe(message.as_str()).as_str(),
                    ),
                    Style::of(Role::Error),
                ),
            );
        },
    }
    proof {
        assert(line_views(rows@) =~= directory_rows(*directory));
    }
    ExpandedTextContent { header, body: ExpandedTextBody::Materialized(rows), inset: false }
}

/// A view that can be expanded.
#[derive(Debug)]
pub enum ExpandedView {
    Mcp(McpCall),
    /// The rows of the summary of a context.
    Compaction(Vec<Line>),
    RepositoryDiff { title: String, files: usize, rows: Vec<Line> },
    WebFetch {
        url: String,
        redirected: Option<String>,
        format: WebFetchFormat,
        output: String,
    },
    WebSearch { provider: String, query: String, results: Vec<WebSearchResult> },
    AgentLog {
        agent: AgentLogSubject,
        task: String,
        log: LogSource,
        error: Option<String>,
        /// Whether a message is being written.
        streaming: bool,
        /// How far the log can be scrolled, once it was shown.
        max_scroll: Option<usize>,
    },
    File { path: String, size: String, content: FileViewContent },
    Diff {
        path: String,
        added: usize,
        removed: usize,
        lines: Vec<DiffLine>,
        tokens: Vec<HighlightedLine>,
    },
    Image { number: usize, width: u32, height: u32, size: String },
    Directory(DirectoryView),
}

/// Whether a view can be laid out.
pub open spec fn expandable(view: ExpandedView) -> bool {
    match view {
        ExpandedView::Mcp(call) => tokens_fit(call.parameter_tokens@) && tokens_fit(
            call.output_tokens@,
        ),
        ExpandedView::WebFetch { url, redirected, format, output } => {
            format matches WebFetchFormat::Html(tokens) ==> tokens_fit(tokens@)
        },
        ExpandedView::Diff { path, added, removed, lines, tokens } => lines@.len()
            == tokens@.len(),
        ExpandedView::AgentLog { agent, task, log, error, streaming, max_scroll } => log.valid(),
        _ => true,
    }
}

/// The header of a view.
pub open spec fn view_header(view: ExpandedView, width: int) -> Seq<LineView> {
    match view {
        ExpandedView::Mcp(call) => titled(
            "MCP"@,
            Some(raw_line(call.server@ + "/"@ + call.tool@)),
            seq![raw_line(status_text(activity_status(call.status), call_duration(call)))],
            width,
        ),
        ExpandedView::Compaction(rows) => titled(
            "Compacted context"@,
            None,
            Seq::empty(),
            width,
        ),
        ExpandedView::RepositoryDiff { title, files, rows } => titled(
            title@,
            None,
            seq![raw_line(decimal(files as nat) + " files"@)],
            width,
        ),
        ExpandedView::WebFetch { url, redirected, format, output } => titled(
            "Web Fetch"@,
            Some(page_address(url@, crate::interaction::text_view(redirected))),
            Seq::empty(),
            width,
        ),
        ExpandedView::WebSearch { provider, query, results } => titled(
            "Web Search"@,
            Some(raw_line(query@)),
            seq![raw_line(provider@), raw_line(decimal(results@.len()) + " results"@)],
            width,
        ),
        ExpandedView::AgentLog { agent, task, log, error, streaming, max_scroll } => {
            agent_header(agent, width)
        },
        ExpandedView::File { path, size, content } => titled(
            "File"@,
            Some(raw_line(path@)),
            seq![raw_line(file_detail(content)), raw_line(size@)],
            width,
        ),
        ExpandedView::Diff { path, added, removed, lines, tokens } => titled(
            "Diff"@,
            Some(raw_line(path@)),
            seq![change_counts(added, removed)],
            width,
        ),
        ExpandedView::Image { number, width: image_width, height, size } => titled(
            "Image"@,
            Some(raw_line("#"@ + decimal(number as nat))),
            seq![
                raw_line("PNG"@),
                raw_line(decimal(image_width as nat) + "\u{d7}"@ + decimal(height as nat)),
                raw_line(size@),
            ],
            width,
        ),
        ExpandedView::Directory(directory) => directory_header(directory, width),
    }
}

/// Whether the body of a view is set in.
pub open spec fn view_inset(view: ExpandedView) -> bool {
    view is Mcp || view is Compaction || view is WebFetch || view is WebSearch || view is Image
}

/// Whether a body is the one of a view.
pub open spec fn view_body(view: ExpandedView, width: int, body: ExpandedTextBody) -> bool {
    match view {
        ExpandedView::Mcp(call) => body matches ExpandedTextBody::Materialized(rows)
            && line_views(rows@) == call_rows(call, width),
        ExpandedView::Compaction(rows) => body == ExpandedTextBody::Materialized(rows),
        ExpandedView::RepositoryDiff { title, files, rows } => body
            == ExpandedTextBody::Materialized(rows),
        ExpandedView::WebFetch { url, redirected, format, output } => {
            body matches ExpandedTextBody::Materialized(rows) && line_views(rows@) == page_rows(
                format,
                output@,
                width,
            )
        },
        ExpandedView::WebSearch { provider, query, results } => {
            body matches ExpandedTextBody::Materialized(rows) && line_views(rows@) == search_rows(
                results@,
                width,
            )
        },
        ExpandedView::AgentLog { agent, task, log, error, streaming, max_scroll } => {
            body matches ExpandedTextBody::Materialized(rows) && line_views(rows@) == log_body(
                task@,
                log,
                crate::interaction::text_view(error),
                streaming,
                width,
            )
        },
        ExpandedView::File { path, size, content } => match content {
            FileViewContent::Text(lines) => body matches ExpandedTextBody::HighlightedFile(file)
                && is_file(file, lines@, width),
            _ => body matches ExpandedTextBody::Materialized(rows) && line_views(rows@)
                == file_notice(content),
        },
        ExpandedView::Diff { path, added, removed, lines, tokens } => {
            body matches ExpandedTextBody::FullFileDiff(diff) && diff.lines == lines && diff.width
                == width && diff.rows@ == crate::file_rows::FileView::of(
                crate::file_rows::all_token_views(tokens@),
                crate::file_views::diff_content_width(lines@, width),
            ) && diff.number_width == crate::file_views::diff_number_width(lines@)
        },
        ExpandedView::Image { number, width: image_width, height, size } => {
            body matches ExpandedTextBody::Materialized(rows) && rows@.len() == 0
        },
        ExpandedView::Directory(directory) => body matches ExpandedTextBody::Materialized(rows)
            && line_views(rows@) == directory_rows(directory),
    }
}

/// Lays out a view.
pub fn expanded_text_content(view: ExpandedView, width: u16) -> (content: ExpandedTextContent)
    requires
        expandable(view),
    ensures
        line_views(content.header@) == view_header(view, width as int),
        content.inset == view_inset(view),
        view_body(view, width as int, content.body),
        content.body.valid(),
{
    match view {
        ExpandedView::Mcp(call) => mcp_content(&call, width),
        ExpandedView::Compaction(rows) => compaction_content(rows, width),
        ExpandedView::RepositoryDiff { title, files, rows } => repository_diff_content(
            title.as_str(),
            files,
            rows,
            width,
        ),
        ExpandedView::WebFetch { url, redirected, format, output } => {
            let destination: Option<&str> = match &redirected {
                Some(destination) => Some(destination.as_str()),
                None => None,
            };
            web_fetch_content(url.as_str(), destination, &format, output.as_str(), width)
        },
        ExpandedView::WebSearch { provider, query, results } => web_search_content(
            provider.as_str(),
            query.as_str(),
            results.as_slice(),
            width,
        ),
        ExpandedView::AgentLog { agent, task, log, error, streaming, max_scroll } => {
            let failure: Option<&str> = match &error {
                Some(error) => Some(error.as_str()),
                None => None,
            };
            agent_log_content(&agent, task.as_str(), &log, failure, streaming, width)
        },
        ExpandedView::File { path, size, content } => file_content(
            path.as_str(),
            size.as_str(),
            content,
            width,
        ),
        ExpandedView::Diff { path, added, removed, lines, tokens } => full_file_diff_content(
            path.as_str(),
            added,
            removed,
            lines,
            tokens,
            width,
        ),
        ExpandedView::Image { number, width: image_width, height, size } => image_content(
            number,
            image_width,
            height,
            size.as_str(),
            width,
        ),
        ExpandedView::Directory(directory) => directory_content(&directory, width),
    }
}

proof fn lemma_content_end_behind(first: Seq<LineView>, rows: Seq<LineView>)
    requires
        content_end(rows) > 0,
    ensures
        content_end(first + rows) == first.len() + content_end(rows),
    decreases rows.len(),
{
    let all = first + rows;
    assert(all.last() == rows.last());
    if is_blank_row(rows.last()) {
        assert(all.drop_last() =~= first + rows.drop_last());
        lemma_content_end_behind(first, rows.drop_last());
    }
}

/// A log whose first rows are kept while a message is being written shows what a log that
/// is laid out anew shows, if no run of activity still went on: then its summary changes.
pub proof fn law_updates_show_the_whole_log(
    log: LogSource,
    task: Seq<char>,
    body: ExpandedTextBody,
    width: int,
)
    requires
        ({
            let items = log.items(false, false);
            let rows = flow_rows(items, log.cards, log.extras);
            let message = log.extras.rows_of(RowKey::Streaming);
            &&& log.items(true, false) == items.push(FlowView::Streaming)
            &&& items.len() > 0 ==> content_end(rows) > 0
            &&& message.len() > 0
            &&& is_log_body(
                body,
                task_rows(task, width) + rows,
                last_role(items),
                Some(message),
                None,
                width,
            )
        }),
    ensures
        body matches ExpandedTextBody::AgentLog { prefix, prefix_len, tail } && line_views(
            prefix@,
        ).take(prefix_len as int) + line_views(tail@) == log_body(task, log, None, true, width),
{
    let items = log.items(false, false);
    let rows = flow_rows(items, log.cards, log.extras);
    let message = log.extras.rows_of(RowKey::Streaming);
    let task = task_rows(task, width);
    let written = items.push(FlowView::Streaming);
    assert(written.drop_last() =~= items);
    assert(flow_rows(written, log.cards, log.extras) == spaced(rows, message));
    if let ExpandedTextBody::AgentLog { prefix, prefix_len, tail } = body {
        let shown = line_views(prefix@).take(prefix_len as int) + line_views(tail@);
        let end = log_tail(None, false, true, width);
        assert(log_tail(None, true, true, width) == end);
        if items.len() > 0 {
            lemma_content_end_behind(task, rows);
            lemma_content_end(rows);
            assert(shown =~= task + spaced(rows, message) + end);
        } else {
            assert(rows =~= Seq::empty());
            assert(shown =~= task + message + end);
        }
    }
}

} // verus!
