//! What holds of expanded views: which subject they name and which lines they show.

use vstd::prelude::*;
use vstd::string::*;
use crate::code_lines::{token_spans, tokens_end, TokenView};
use crate::expanded::{expanded_title_line, flattened, title_spans, title_with, title_with_details};
use crate::expanded_content::{
    directory_rows, file_notice, result_row, result_rows, result_title, results_rows, search_rows,
    view_header, DirectoryView, ExpandedView, FileViewContent, McpCall, ToolActivityStatus,
    WebSearchResult,
};
use crate::file_rows::{prepared, FileView, RowPart};
use crate::file_views::{diff_row, diff_spans, file_row, shown_spans, DiffLine, DiffLineKind};
use crate::menu::less;
use crate::render::{cut_line, decimal, safe, spaces};
use crate::shown::{
    lemma_one_row, lemma_one_span, lemma_pushed_span, lemma_row_said, lemma_rows_text_concat,
    lemma_said_within, lemma_span_said, lemma_spans_text_concat, row_text, rows_text, says,
    spans_text,
};
use crate::style::{capped, raw_line, spans_width, LineView, Role, SpanView, Style};
use crate::unicode::display_width;

verus! {

/// The text that tokens make up.
pub open spec fn tokens_text(tokens: Seq<TokenView>, count: int) -> Seq<char>
    decreases count,
{
    if count <= 0 {
        Seq::empty()
    } else {
        tokens_text(tokens, count - 1) + tokens[count - 1].text
    }
}

proof fn lemma_token_spans_say(tokens: Seq<TokenView>, count: int, start: int, end: int)
    requires
        0 <= count <= tokens.len(),
        0 <= start <= end,
    ensures
        tokens_text(tokens, count).len() == tokens_end(tokens, count),
        ({
            let text = tokens_text(tokens, count);
            let from = if start < text.len() { start } else { text.len() as int };
            let to = if end < text.len() { end } else { text.len() as int };
            spans_text(token_spans(tokens, count, start, end, true)) == text.subrange(from, to)
        }),
    decreases count,
{
    let text = tokens_text(tokens, count);
    let from = if start < text.len() { start } else { text.len() as int };
    let to = if end < text.len() { end } else { text.len() as int };
    if count > 0 {
        lemma_token_spans_say(tokens, count - 1, start, end);
        let before = tokens_text(tokens, count - 1);
        let token = tokens[count - 1];
        let spans = token_spans(tokens, count - 1, start, end, true);
        let first = if start > before.len() { start } else { before.len() as int };
        let last = if end < text.len() { end } else { text.len() as int };
        if first < last {
            let part = token.text.subrange(first - before.len(), last - before.len());
            let shown = token_spans(tokens, count, start, end, true);
            assert(shown.drop_last() =~= spans);
            assert(shown.last().text == part);
            lemma_pushed_span(spans, shown.last());
            assert(shown =~= spans.push(shown.last()));
            assert(spans_text(spans) + part =~= text.subrange(from, to));
        } else {
            assert(spans_text(spans) =~= text.subrange(from, to));
        }
    } else {
        assert(spans_text(token_spans(tokens, count, start, end, true)) =~= text.subrange(from, to));
    }
}

/// The part of a line that is shown is that part of the text of its tokens.
pub proof fn law_rows_show_their_part(tokens: Seq<TokenView>, start: int, end: int)
    requires
        0 <= start <= end <= tokens_text(prepared(tokens), tokens.len() as int).len(),
    ensures
        spans_text(shown_spans(tokens, start, end)) == tokens_text(
            prepared(tokens),
            tokens.len() as int,
        ).subrange(start, end),
{
    lemma_token_spans_say(prepared(tokens), tokens.len() as int, start, end);
}

/// A row of a file says the number of its line, counted from one, where the line starts, and
/// then its part of the line.
pub proof fn law_file_rows_are_numbered(file: FileView, part: RowPart, number_width: int)
    requires
        part.line < usize::MAX,
    ensures
        ({
            let text = row_text(file_row(file, part, number_width));
            let shown = spans_text(
                shown_spans(file.lines[part.line as int], part.start as int, part.end as int),
            );
            exists|pad: int|
                text == if part.wrapped == 0 {
                    "  "@ + #[trigger] spaces(pad) + decimal((part.line + 1) as nat)
                        + " \u{2502} "@ + shown
                } else {
                    "  "@ + spaces(pad) + " \u{2502} "@ + shown
                }
        }),
{
    let row = file_row(file, part, number_width);
    let rest = shown_spans(file.lines[part.line as int], part.start as int, part.end as int);
    let head = seq![row.spans[0]];
    assert(row.spans =~= head + rest);
    lemma_spans_text_concat(head, rest);
    lemma_one_span(row.spans[0]);
    let number = decimal((part.line + 1) as nat);
    if part.wrapped == 0 {
        let pad = less(number_width, number.len() as int);
        assert(row_text(row) =~= "  "@ + spaces(pad) + number + " \u{2502} "@ + spans_text(rest));
    } else {
        let pad = less(number_width, 0);
        assert(row_text(row) =~= "  "@ + spaces(pad) + " \u{2502} "@ + spans_text(rest));
    }
}

/// The first row of a line of a diff says the number of the line and its sign: a line that
/// is added has a plus and its new number, one that is removed a minus and its old number,
/// and any other neither. Then it says its part of the line.
pub proof fn law_diff_rows_are_signed(
    file: FileView,
    line: DiffLine,
    part: RowPart,
    number_width: int,
    width: int,
)
    requires
        part.wrapped == 0,
    ensures
        ({
            let text = row_text(diff_row(file, line, part, number_width, width));
            let shown = spans_text(
                shown_spans(file.lines[part.line as int], part.start as int, part.end as int),
            );
            &&& line.kind == DiffLineKind::Addition && line.new_line is Some ==> says(
                text,
                decimal(line.new_line->0 as nat) + " + "@ + shown,
            )
            &&& line.kind == DiffLineKind::Deletion && line.old_line is Some ==> says(
                text,
                decimal(line.old_line->0 as nat) + " - "@ + shown,
            )
            &&& line.kind == DiffLineKind::Context && line.new_line is Some ==> says(
                text,
                decimal(line.new_line->0 as nat) + "   "@ + shown,
            )
            &&& line.kind == DiffLineKind::Context && line.new_line is None && line.old_line is Some
                ==> says(text, decimal(line.old_line->0 as nat) + "   "@ + shown)
        }),
{
    reveal_strlit(" ");
    reveal_strlit("+");
    reveal_strlit("-");
    reveal_strlit(" + ");
    reveal_strlit(" - ");
    reveal_strlit("   ");
    let row = diff_row(file, line, part, number_width, width);
    let spans = diff_spans(file, line, part, number_width);
    let rest = shown_spans(file.lines[part.line as int], part.start as int, part.end as int);
    let head = seq![spans[0]];
    assert(spans =~= head + rest);
    lemma_spans_text_concat(head, rest);
    lemma_one_span(spans[0]);
    let shown = spans_text(rest);
    let tail = if row.spans.len() > spans.len() { row.spans.last().text } else { Seq::empty() };
    if row.spans.len() > spans.len() {
        lemma_pushed_span(spans, row.spans.last());
    }
    assert(row_text(row) =~= spans[0].text + shown + tail);
    let number = crate::file_views::number_or(crate::file_views::shown_number(line), 0);
    let digits = decimal(number as nat);
    let before = "  "@ + spaces(less(number_width, digits.len() as int));
    let sign = match line.kind {
        DiffLineKind::Addition => " + "@,
        DiffLineKind::Deletion => " - "@,
        DiffLineKind::Context => "   "@,
    };
    assert(row_text(row) =~= before + (digits + sign + shown) + tail);
}

/// Whether a row is a title that says `part`, as far as the row is wide enough; a part that
/// takes no columns is left out.
pub open spec fn heads(row: LineView, part: Seq<char>, width: int) -> bool {
    exists|whole: LineView|
        row == #[trigger] cut_line(whole, width) && (says(row_text(whole), flattened(safe(part)))
            || display_width(part) == 0)
}

proof fn lemma_title_part(title: (Seq<SpanView>, bool), text: Seq<char>, style: Style)
    ensures
        says(spans_text(title_with(title, raw_line(text), style).0), spans_text(title.0)),
        display_width(text) > 0 ==> says(
            spans_text(title_with(title, raw_line(text), style).0),
            flattened(safe(text)),
        ),
{
    let part = raw_line(text);
    let shown = title_with(title, part, style).0;
    assert(part.spans.drop_last() =~= Seq::empty());
    assert(spans_width(part.spans.drop_last()) == 0);
    assert(spans_width(part.spans) == display_width(text) as nat);
    if capped(spans_width(part.spans) as int) == 0 {
        assert(spans_text(shown) =~= Seq::<char>::empty() + spans_text(title.0)
            + Seq::<char>::empty());
    } else {
        let mark = shown[title.0.len() as int];
        let rest = title_spans(part, style);
        assert(shown =~= title.0.push(mark) + rest);
        lemma_spans_text_concat(title.0.push(mark), rest);
        lemma_pushed_span(title.0, mark);
        assert(rest =~= seq![rest[0]]);
        lemma_one_span(rest[0]);
        let said = flattened(safe(text));
        assert(spans_text(shown) =~= Seq::<char>::empty() + spans_text(title.0) + (mark.text
            + said));
        assert(spans_text(shown) =~= (spans_text(title.0) + mark.text) + said
            + Seq::<char>::empty());
    }
}

/// A title says the title, and its subject and each detail, as far as they take columns.
proof fn lemma_title_details(
    title: (Seq<SpanView>, bool),
    texts: Seq<Seq<char>>,
    details: Seq<LineView>,
    count: int,
    at: int,
)
    requires
        0 <= count <= details.len(),
        details == texts.map_values(|text: Seq<char>| raw_line(text)),
    ensures
        says(spans_text(title_with_details(title, details, count).0), spans_text(title.0)),
        0 <= at < count && display_width(texts[at]) > 0 ==> says(
            spans_text(title_with_details(title, details, count).0),
            flattened(safe(texts[at])),
        ),
    decreases count,
{
    if count > 0 {
        lemma_title_details(title, texts, details, count - 1, at);
        let before = title_with_details(title, details, count - 1);
        let after = title_with_details(title, details, count);
        lemma_title_part(before, texts[count - 1], Style::of(Role::Dim));
        lemma_said_within(spans_text(after.0), spans_text(before.0), spans_text(title.0));
        if 0 <= at < count - 1 && display_width(texts[at]) > 0 {
            lemma_said_within(spans_text(after.0), spans_text(before.0), flattened(safe(texts[at])));
        }
    } else {
        assert(spans_text(title.0) =~= Seq::<char>::empty() + spans_text(title.0)
            + Seq::<char>::empty());
    }
}

/// The title of an expanded view says its name, its subject and its details.
pub proof fn law_titles_name_their_subject(
    title: Seq<char>,
    subject: Option<Seq<char>>,
    details: Seq<Seq<char>>,
    width: int,
    at: int,
)
    ensures
        ({
            let row = expanded_title_line(
                title,
                match subject {
                    Some(subject) => Some(raw_line(subject)),
                    None => None,
                },
                details.map_values(|text: Seq<char>| raw_line(text)),
                width,
            );
            &&& exists|whole: LineView|
                row == #[trigger] cut_line(whole, width) && says(row_text(whole), title)
            &&& subject matches Some(subject) ==> heads(row, subject, width)
            &&& 0 <= at < details.len() ==> heads(row, details[at], width)
        }),
{
    let lines = details.map_values(|text: Seq<char>| raw_line(text));
    let start = (
        seq![
            crate::style::span("  "@, Style::plain()),
            crate::style::span(title, Style::of(Role::MenuTitle)),
        ],
        false,
    );
    lemma_span_said(start.0, 1);
    let named = match subject {
        None => start,
        Some(subject) => title_with(start, raw_line(subject), Style::plain()),
    };
    let full = title_with_details(named, lines, lines.len() as int).0;
    lemma_title_details(named, details, lines, lines.len() as int, at);
    if let Some(subject) = subject {
        lemma_title_part(start, subject, Style::plain());
        lemma_said_within(spans_text(full), spans_text(named.0), spans_text(start.0));
        lemma_said_within(spans_text(full), spans_text(start.0), title);
        if display_width(subject) > 0 {
            lemma_said_within(spans_text(full), spans_text(named.0), flattened(safe(subject)));
        }
    } else {
        lemma_said_within(spans_text(full), spans_text(start.0), title);
    }
    let whole = crate::style::line(full);
    assert(row_text(whole) == spans_text(full));
    assert(cut_line(whole, width) == expanded_title_line(
        title,
        match subject {
            Some(subject) => Some(raw_line(subject)),
            None => None,
        },
        lines,
        width,
    ));
}

/// An expanded call names its server and tool.
pub proof fn law_calls_are_named(call: McpCall, width: int)
    ensures
        heads(
            view_header(ExpandedView::Mcp(call), width)[0],
            call.server@ + "/"@ + call.tool@,
            width,
        ),
{
    let details = seq![
        crate::expanded::status_text(
            crate::expanded_content::activity_status(call.status),
            crate::expanded_content::call_duration(call),
        ),
    ];
    assert(
        seq![
            raw_line(
                crate::expanded::status_text(
                    crate::expanded_content::activity_status(call.status),
                    crate::expanded_content::call_duration(call),
                ),
            ),
        ] =~= details.map_values(|text: Seq<char>| raw_line(text))
    );
    law_titles_name_their_subject("MCP"@, Some(call.server@ + "/"@ + call.tool@), details, width, 0);
}

/// An expanded search names its query and its engine, and counts what it found.
pub proof fn law_searches_are_named(
    provider: String,
    query: String,
    results: Vec<WebSearchResult>,
    width: int,
)
    ensures
        heads(
            view_header((ExpandedView::WebSearch { provider, query, results }), width)[0],
            query@,
            width,
        ),
        heads(
            view_header((ExpandedView::WebSearch { provider, query, results }), width)[0],
            provider@,
            width,
        ),
        heads(
            view_header((ExpandedView::WebSearch { provider, query, results }), width)[0],
            decimal(results@.len()) + " results"@,
            width,
        ),
{
    let details = seq![provider@, decimal(results@.len()) + " results"@];
    assert(
        seq![
            raw_line(provider@),
            raw_line(decimal(results@.len()) + " results"@),
        ] =~= details.map_values(|text: Seq<char>| raw_line(text))
    );
    law_titles_name_their_subject("Web Search"@, Some(query@), details, width, 0);
    law_titles_name_their_subject("Web Search"@, Some(query@), details, width, 1);
}

/// An expanded file names its path and its size.
pub proof fn law_files_are_named(path: String, size: String, content: FileViewContent, width: int)
    ensures
        heads(view_header((ExpandedView::File { path, size, content }), width)[0], path@, width),
        heads(view_header((ExpandedView::File { path, size, content }), width)[0], size@, width),
{
    let details = seq![crate::expanded_content::file_detail(content), size@];
    assert(
        seq![
            raw_line(crate::expanded_content::file_detail(content)),
            raw_line(size@),
        ] =~= details.map_values(|text: Seq<char>| raw_line(text))
    );
    law_titles_name_their_subject("File"@, Some(path@), details, width, 0);
    law_titles_name_their_subject("File"@, Some(path@), details, width, 1);
}

/// An expanded image names its number, its measures and its size.
pub proof fn law_images_are_named(
    number: usize,
    columns: u32,
    height: u32,
    size: String,
    width: int,
)
    ensures
        heads(
            view_header((ExpandedView::Image { number, width: columns, height, size }), width)[0],
            "#"@ + decimal(number as nat),
            width,
        ),
        heads(
            view_header((ExpandedView::Image { number, width: columns, height, size }), width)[0],
            decimal(columns as nat) + "\u{d7}"@ + decimal(height as nat),
            width,
        ),
        heads(
            view_header((ExpandedView::Image { number, width: columns, height, size }), width)[0],
            size@,
            width,
        ),
{
    let details = seq!["PNG"@, decimal(columns as nat) + "\u{d7}"@ + decimal(height as nat), size@];
    assert(
        seq![
            raw_line("PNG"@),
            raw_line(decimal(columns as nat) + "\u{d7}"@ + decimal(height as nat)),
            raw_line(size@),
        ] =~= details.map_values(|text: Seq<char>| raw_line(text))
    );
    law_titles_name_their_subject("Image"@, Some("#"@ + decimal(number as nat)), details, width, 0);
    law_titles_name_their_subject("Image"@, Some("#"@ + decimal(number as nat)), details, width, 1);
    law_titles_name_their_subject("Image"@, Some("#"@ + decimal(number as nat)), details, width, 2);
}

/// The state of a call is told in words, and its time where it is known; a short time is
/// told in milliseconds.
pub proof fn law_states_of_calls_are_told(call: McpCall, width: int)
    requires
        call.duration_millis is Some ==> call.duration_millis->0 < 1000,
    ensures
        ({
            let state = match call.status {
                ToolActivityStatus::Pending => "running"@,
                ToolActivityStatus::Succeeded => "completed"@,
                ToolActivityStatus::Failed => "failed"@,
            };
            heads(
                view_header(ExpandedView::Mcp(call), width)[0],
                match call.duration_millis {
                    None => state,
                    Some(millis) => state + " "@ + (decimal(millis as nat) + "ms"@),
                },
                width,
            )
        }),
{
    let state = crate::expanded::status_text(
        crate::expanded_content::activity_status(call.status),
        crate::expanded_content::call_duration(call),
    );
    let details = seq![state];
    assert(seq![raw_line(state)] =~= details.map_values(|text: Seq<char>| raw_line(text)));
    law_titles_name_their_subject(
        "MCP"@,
        Some(call.server@ + "/"@ + call.tool@),
        details,
        width,
        0,
    );
}

/// What cannot be shown is said so, with the reason.
pub proof fn law_missing_contents_are_told(
    directory: DirectoryView,
    content: FileViewContent,
    width: int,
)
    ensures
        directory.unavailable matches Some(message) ==> says(
            rows_text(directory_rows(directory)),
            safe(message@),
        ),
        content matches FileViewContent::Unavailable { message } ==> says(
            rows_text(file_notice(content)),
            safe(message@),
        ),
        content matches FileViewContent::TooLarge { limit } ==> says(
            rows_text(file_notice(content)),
            limit@,
        ),
        content is Binary ==> says(
            rows_text(file_notice(content)),
            "Binary files cannot be displayed."@,
        ),
        rows_text(search_rows(Seq::empty(), width)) == "No results."@,
{
    reveal_strlit("  Binary files cannot be displayed.");
    reveal_strlit("Binary files cannot be displayed.");
    if let Some(message) = directory.unavailable {
        let rows = directory_rows(directory);
        lemma_one_row(rows[0]);
        assert(rows =~= seq![rows[0]]);
        lemma_one_span(rows[0].spans[0]);
        assert(rows[0].spans =~= seq![rows[0].spans[0]]);
        assert(rows_text(rows) =~= "  Directory is unavailable: "@ + safe(message@)
            + Seq::<char>::empty());
    }
    let rows = file_notice(content);
    if rows.len() > 0 {
        lemma_one_row(rows[0]);
        assert(rows =~= seq![rows[0]]);
        lemma_one_span(rows[0].spans[0]);
        assert(rows[0].spans =~= seq![rows[0].spans[0]]);
        match content {
            FileViewContent::Unavailable { message } => {
                assert(rows_text(rows) =~= "  File is unavailable: "@ + safe(message@)
                    + Seq::<char>::empty());
            },
            FileViewContent::TooLarge { limit } => {
                assert(rows_text(rows) =~= "  File is too large to display (limit "@ + limit@
                    + ")."@);
            },
            FileViewContent::Binary => {
                assert(rows_text(rows) =~= seq![' ', ' '] + "Binary files cannot be displayed."@
                    + Seq::<char>::empty());
            },
            _ => {},
        }
    }
    let none = search_rows(Seq::empty(), width);
    lemma_one_row(none[0]);
    assert(none =~= seq![none[0]]);
    lemma_one_span(none[0].spans[0]);
    assert(none[0].spans =~= seq![none[0].spans[0]]);
}

/// Every result of a search is shown: its address stands in a row, and so does the time at
/// which it was published, where it is known.
pub proof fn law_results_are_listed(results: Seq<WebSearchResult>, count: int, width: int, at: int)
    requires
        0 <= at < count <= results.len(),
    ensures
        says(rows_text(results_rows(results, count, width)), safe(results[at].url@)),
        results[at].published_at matches Some(published) ==> says(
            rows_text(results_rows(results, count, width)),
            safe(published@),
        ),
    decreases count,
{
    let rows = results_rows(results, count, width);
    if at < count - 1 {
        law_results_are_listed(results, count - 1, width, at);
        let before = results_rows(results, count - 1, width);
        let rest = rows.skip(before.len() as int);
        assert(rows =~= before + rest);
        lemma_rows_text_concat(before, rest);
        assert(rows_text(rows) =~= Seq::<char>::empty() + rows_text(before) + rows_text(rest));
        lemma_said_within(rows_text(rows), rows_text(before), safe(results[at].url@));
        if let Some(published) = results[at].published_at {
            lemma_said_within(rows_text(rows), rows_text(before), safe(published@));
        }
    } else {
        let result = results[at];
        let own = result_rows(result, width);
        let from = rows.len() - own.len();
        assert(rows.skip(from) =~= own);
        let title = result_title(safe(result.title@), width);
        let address = title.len() as int;
        assert(own[address] == result_row(safe(result.url@), Role::Accent));
        lemma_result_row_said(rows, from + address, safe(result.url@), Role::Accent);
        if let Some(published) = result.published_at {
            assert(own[address + 2] == result_row(safe(published@), Role::Dim));
            lemma_result_row_said(rows, from + address + 2, safe(published@), Role::Dim);
        }
    }
}

proof fn lemma_result_row_said(rows: Seq<LineView>, at: int, text: Seq<char>, role: Role)
    requires
        0 <= at < rows.len(),
        rows[at] == result_row(text, role),
    ensures
        says(rows_text(rows), text),
{
    let row = rows[at];
    lemma_row_said(rows, at);
    assert(row.spans =~= seq![row.spans[0]]);
    lemma_one_span(row.spans[0]);
    assert(row_text(row) =~= "  "@ + text + Seq::<char>::empty());
    lemma_said_within(rows_text(rows), row_text(row), text);
}

} // verus!
