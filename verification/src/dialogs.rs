//! The rows of the dialogs that ask the user: questions, plans, permission
//! rules, and the notes that go with the answers.

use vstd::prelude::*;
use vstd::string::*;
use crate::input_syntax::CodeToken;
use crate::interaction::{note_text, PatternEdit, PermissionScope, PlanCompletion, Question};
use crate::lines::{parts, split_parts};
use crate::list::{max, min, settled, ListState, ListWidget};
use crate::menu::{
    fit_lines, fitted_rows, input_line, label_columns, label_width, less, list_rows, menu_title,
    option_lines, plan_choices, plan_completion_choices, question_option_lines, render_input_line,
    render_list, title_line,
};
use crate::multiline_input::{
    following, row_at, text_columns, text_rows, INTERACTION_NOTE_MAX_VISUAL_ROWS, MultilineInput,
};
use crate::render::{
    concat, concat3, count_text, decimal, safe, terminal_safe, wrap_log_line, wrapped_line,
};
use crate::render_menus::scrolled_rows;
use crate::scroll::{
    ScrollViewHit, ScrollViewLayout, ScrollViewMetrics, ScrollViewState, ScrollViewWidget,
};
use crate::single_line_input::{InputView, SingleLineInput};
use crate::style::{
    append_lines, blank_line, line, line_views, push_line, span, Line, LineView, Role, Span,
    SpanView, StatusLineColor, Style,
};
use crate::unicode::views;

verus! {

/// The columns of a note.
pub open spec fn note_columns(width: int) -> int {
    max(width, 1)
}

pub fn note_input_width(width: u16) -> (columns: u16)
    ensures
        columns == note_columns(width as int),
{
    if width >= 1 {
        width
    } else {
        1
    }
}

/// The rows of a note that are shown at once.
pub open spec fn note_rows_shown(text: Seq<char>, width: int) -> int {
    min(
        text_rows(text, 0, text_columns(note_columns(width))).len() as int,
        INTERACTION_NOTE_MAX_VISUAL_ROWS as int,
    )
}

pub fn note_input_capacity(input: &MultilineInput, width: u16) -> (capacity: usize)
    ensures
        capacity == note_rows_shown(input@.text, width as int),
        1 <= capacity <= INTERACTION_NOTE_MAX_VISUAL_ROWS,
{
    let rows: usize = input.visual_row_count(note_input_width(width));
    if rows <= INTERACTION_NOTE_MAX_VISUAL_ROWS {
        rows
    } else {
        INTERACTION_NOTE_MAX_VISUAL_ROWS
    }
}

/// What stands in an empty note.
pub open spec fn note_placeholder() -> LineView {
    line(
        seq![span("A"@, Style::of(Role::SearchCursor)), span("dd note"@, Style::of(Role::Dim))],
    )
}

/// Spans without the indent that the first of them may be.
pub open spec fn without_indent(spans: Seq<SpanView>) -> Seq<SpanView> {
    if spans.len() > 0 && spans[0].text == "  "@ { spans.skip(1) } else { spans }
}

/// A row of an editor as it stands in a note.
pub open spec fn note_row(row: LineView, hit: ScrollViewHit, first: bool) -> LineView {
    match hit {
        ScrollViewHit::Content(_) => LineView {
            spans: seq![
                span(
                    if first { "\u{203a} "@ } else { "  "@ },
                    if first { Style::of(Role::Selected) } else { Style::plain() },
                ),
            ] + without_indent(row.spans),
            ..row
        },
        ScrollViewHit::Indicator(_) => if row.spans.len() > 0 && row.spans[0].text
            == "  \u{2191}"@ {
            LineView { spans: row.spans.update(0, span("\u{2191}"@, row.spans[0].style)), ..row }
        } else if row.spans.len() > 0 && row.spans[0].text == "  \u{2193}"@ {
            LineView { spans: row.spans.update(0, span("\u{2193}"@, row.spans[0].style)), ..row }
        } else {
            row
        },
        ScrollViewHit::Blank => row,
    }
}

/// Where the view of a note stands.
pub open spec fn note_state(input: InputView, width: int) -> ScrollViewState {
    let rows = text_rows(input.text, 0, text_columns(note_columns(width)));
    following(rows.len() as int, row_at(rows, input.at), note_rows_shown(input.text, width))
}

/// What the rows of a note are.
pub open spec fn note_hits(input: InputView, width: int) -> Seq<ScrollViewHit> {
    ScrollViewWidget::of(note_rows_shown(input.text, width)).hits_spec(note_state(input, width))
}

/// The rows of a note that is written. The first of them is marked.
pub open spec fn note_rows(input: InputView, width: int) -> Seq<LineView> {
    let rows = scrolled_rows(
        input,
        Seq::empty(),
        note_columns(width),
        note_rows_shown(input.text, width),
        Some(note_placeholder()),
    );
    let hits = note_hits(input, width);
    Seq::new(min(rows.len() as int, hits.len() as int) as nat, |i: int| note_row(rows[i], hits[i], i == 1))
}

fn render_note_row(row: Line, hit: ScrollViewHit, first: bool) -> (shown: Line)
    ensures
        shown@ == note_row(row@, hit, first),
{
    let mut row = row;
    let ghost before = row@;
    match hit {
        ScrollViewHit::Content(_) => {
            if row.spans.len() > 0 && crate::menu::same_text(row.spans[0].text.as_str(), "  ") {
                row.spans.remove(0);
                proof {
                    assert(row@.spans =~= before.spans.skip(1));
                }
            }
            let mut shown = Line::new();
            shown.base = row.base;
            if first {
                shown.push_str("\u{203a} ", Style::of(Role::Selected));
            } else {
                shown.push_str("  ", Style::plain());
            }
            shown.append(row);
            proof {
                assert(shown@.spans =~= note_row(before, hit, first).spans);
            }
            shown
        },
        ScrollViewHit::Indicator(_) => {
            if row.spans.len() > 0 && crate::menu::same_text(
                row.spans[0].text.as_str(),
                "  \u{2191}",
            ) {
                let style: Style = row.spans[0].style;
                row.spans.set(0, Span { text: "\u{2191}".to_owned(), style });
                proof {
                    assert(row@.spans =~= before.spans.update(0, span("\u{2191}"@, style)));
                }
            } else if row.spans.len() > 0 && crate::menu::same_text(
                row.spans[0].text.as_str(),
                "  \u{2193}",
            ) {
                let style: Style = row.spans[0].style;
                row.spans.set(0, Span { text: "\u{2193}".to_owned(), style });
                proof {
                    assert(row@.spans =~= before.spans.update(0, span("\u{2193}"@, style)));
                }
            }
            row
        },
        ScrollViewHit::Blank => row,
    }
}

/// Lays out a note that is written.
pub fn note_input_layout(value: &str, cursor: usize, width: u16) -> (layout: ScrollViewLayout)
    ensures
        line_views(layout.lines@) == note_rows(
            InputView::of(value@, cursor as int),
            width as int,
        ),
        layout.hits@ == note_hits(InputView::of(value@, cursor as int), width as int),
        layout.metrics == ScrollViewMetrics::of(
            text_rows(value@, 0, text_columns(note_columns(width as int))).len() as int,
            note_rows_shown(value@, width as int),
        ),
{
    let input = MultilineInput::new(value.to_owned(), cursor);
    let columns: u16 = note_input_width(width);
    let capacity: usize = note_input_capacity(&input, width);
    let mut placeholder = Line::new();
    placeholder.push_str("A", Style::of(Role::SearchCursor));
    placeholder.push_str("dd note", Style::of(Role::Dim));
    proof {
        assert(placeholder@.spans =~= note_placeholder().spans);
    }
    let tokens: Vec<CodeToken> = Vec::new();
    proof {
        assert(tokens@ =~= Seq::empty());
    }
    let layout = input.render_scrolled(tokens.as_slice(), columns, capacity, Some(placeholder));
    let ghost plain = line_views(layout.lines@);
    let ghost all = note_rows(input@, width as int);
    let mut lines: Vec<Line> = Vec::new();
    let mut i: usize = 0;
    while i < layout.lines.len() && i < layout.hits.len()
        invariant
            i <= layout.lines@.len(),
            i <= layout.hits@.len(),
            plain == line_views(layout.lines@),
            all.len() == min(layout.lines@.len() as int, layout.hits@.len() as int),
            forall|k: int|
                0 <= k < all.len() ==> #[trigger] all[k] == note_row(
                    plain[k],
                    layout.hits@[k],
                    k == 1,
                ),
            line_views(lines@) == all.take(i as int),
        decreases layout.lines@.len() - i,
    {
        proof {
            assert(all[i as int] == note_row(plain[i as int], layout.hits@[i as int], i == 1));
        }
        push_line(&mut lines, render_note_row(layout.lines[i].copy(), layout.hits[i], i == 1));
        i += 1;
        proof {
            assert(line_views(lines@) =~= all.take(i as int));
        }
    }
    proof {
        assert(all.take(i as int) =~= all);
    }
    ScrollViewLayout { lines, hits: layout.hits, metrics: layout.metrics }
}

/// One line of a note that was written.
pub open spec fn saved_line(text: Seq<char>, first: bool) -> LineView {
    line(
        seq![
            span(if first { "\u{203a} "@ } else { "  "@ }, Style::plain()),
            span(safe(text), Style::plain()),
        ],
    )
}

/// The rows of the lines of a note.
pub open spec fn saved_lines(rows: Seq<Seq<char>>, width: int) -> Seq<LineView>
    decreases rows.len(),
{
    if rows.len() == 0 {
        Seq::empty()
    } else {
        saved_lines(rows.drop_last(), width) + wrapped_line(
            saved_line(rows.last(), rows.len() == 1),
            width,
        )
    }
}

pub fn saved_note_lines(value: &str, width: u16) -> (lines: Vec<Line>)
    ensures
        line_views(lines@) == saved_lines(parts(value@), width as int),
{
    let rows: Vec<String> = split_parts(value);
    let ghost all = views(rows@);
    let mut lines: Vec<Line> = Vec::new();
    let mut i: usize = 0;
    proof {
        assert(all.take(0) =~= Seq::empty());
        assert(line_views(lines@) =~= saved_lines(all.take(0), width as int));
    }
    while i < rows.len()
        invariant
            i <= rows@.len(),
            all == views(rows@),
            line_views(lines@) == saved_lines(all.take(i as int), width as int),
        decreases rows@.len() - i,
    {
        let mut row = Line::new();
        row.push_str(
            if i == 0 {
                "\u{203a} "
            } else {
                "  "
            },
            Style::plain(),
        );
        row.push(terminal_safe(rows[i].as_str()), Style::plain());
        proof {
            assert(all[i as int] == rows@[i as int]@);
            assert(row@.spans =~= saved_line(all[i as int], i == 0).spans);
            assert(all.take(i + 1).drop_last() =~= all.take(i as int));
            assert(all.take(i + 1).last() == all[i as int]);
        }
        append_lines(&mut lines, wrap_log_line(&row, width as usize));
        i += 1;
    }
    proof {
        assert(all.take(i as int) =~= all);
    }
    lines
}

/// The headers of some questions, the current one marked.
pub open spec fn header_spans(question: Question, count: int) -> Seq<SpanView>
    decreases count,
{
    if count <= 0 {
        Seq::empty()
    } else {
        let at = count - 1;
        let head = span(
            safe(question.questions@[at].header@),
            if at == question.question_index {
                Style::of(Role::Selected)
            } else {
                Style::of(Role::Dim)
            },
        );
        header_spans(question, at) + if at > 0 {
            seq![span("  "@, Style::plain()), head]
        } else {
            seq![head]
        }
    }
}

/// The title of a question: its place among the questions, and their headers.
pub open spec fn question_title(question: Question) -> LineView {
    let title = title_line(
        "Questions"@,
        Some(
            decimal((question.question_index + 1) as nat) + "/"@ + decimal(
                question.questions@.len(),
            ),
        ),
    );
    LineView {
        spans: title.spans.push(span("  "@, Style::plain())) + header_spans(
            question,
            question.questions@.len() as int,
        ),
        ..title
    }
}

/// The rows of the first `count` options of a question; the option behind the
/// last one is none of them.
pub open spec fn option_rows(
    question: Question,
    none: Seq<char>,
    count: int,
    selected: Option<usize>,
    width: int,
) -> Seq<LineView>
    decreases count,
{
    if count <= 0 {
        Seq::empty()
    } else {
        let at = count - 1;
        let options = question.questions@[question.question_index as int].options@;
        let columns = label_columns(options, none, width);
        option_rows(question, none, at, selected, width) + option_lines(
            selected == Some(at as usize),
            if at < options.len() { options[at].label@ } else { none },
            if at < options.len() {
                options[at].description@
            } else {
                "Optionally add a note with Tab"@
            },
            columns,
            width,
        )
    }
}

/// How a list is laid out whose items all fit; the row below it gives way to a
/// note that is written.
pub open spec fn answer_widget(count: int, editing_note: bool) -> ListWidget {
    ListWidget { bottom: !editing_note, ..ListWidget::of(count) }
}

/// The rows of the options of a question.
pub open spec fn answer_rows(question: Question, none: Seq<char>, width: int) -> Seq<LineView> {
    let count = question.questions@[question.question_index as int].options@.len() as int + 1;
    let state = settled(count, question.option_index as int, 0, count);
    answer_widget(count, question.editing_note).lines_spec(
        state,
        fitted_rows(option_rows(question, none, count, state.selected, width), width, false),
    )
}

/// The rows of the note to an answer.
pub open spec fn answer_note_rows(question: Question, width: int) -> Seq<LineView> {
    let note = note_text(question.answers@[question.question_index as int].note);
    if question.editing_note {
        note_rows(InputView::of(note, question.note_cursor as int), width)
    } else if note.len() > 0 {
        seq![blank_line()] + saved_lines(parts(note), width) + seq![blank_line()]
    } else {
        Seq::empty()
    }
}

/// The rows of a question. `none` is what stands for none of its options.
pub open spec fn question_rows(question: Question, none: Seq<char>, width: int) -> Seq<LineView> {
    let prompt = question.questions@[question.question_index as int];
    seq![question_title(question)] + match question.origin {
        None => Seq::empty(),
        Some((profile, id)) => seq![
            line(
                seq![
                    span(
                        "  requested by "@ + profile@ + " ("@ + id@ + ")"@,
                        Style::of(Role::Dim),
                    ),
                ],
            ),
        ],
    } + seq![blank_line()] + wrapped_line(
        line(seq![span("  "@ + safe(prompt.question@), Style::plain().bold_spec())]),
        width,
    ) + answer_rows(question, none, width) + answer_note_rows(question, width)
}

fn render_question_title(question: &Question) -> (title: Line)
    requires
        question.question_index < question.questions@.len(),
    ensures
        title@ == question_title(*question),
{
    let total: usize = question.questions.len();
    let place: String = concat3(
        count_text(question.question_index + 1).as_str(),
        "/",
        count_text(total).as_str(),
    );
    let mut title = menu_title("Questions", Some(place.as_str()));
    title.push_str("  ", Style::plain());
    let ghost head = title@.spans;
    let mut i: usize = 0;
    proof {
        assert(title@.spans =~= head + header_spans(*question, 0));
    }
    while i < question.questions.len()
        invariant
            i <= question.questions@.len(),
            title@.base == title_line(""@, None).base,
            title@.spans == head + header_spans(*question, i as int),
        decreases question.questions@.len() - i,
    {
        let ghost before = title@.spans;
        if i > 0 {
            title.push_str("  ", Style::plain());
        }
        title.push(
            terminal_safe(question.questions[i].header.as_str()),
            if i == question.question_index {
                Style::of(Role::Selected)
            } else {
                Style::of(Role::Dim)
            },
        );
        i += 1;
        proof {
            assert(title@.spans =~= head + header_spans(*question, i as int));
        }
    }
    title
}

fn render_options(question: &Question, none: &str, width: u16) -> (lines: Vec<Line>)
    requires
        question.question_index < question.questions@.len(),
        question.option_count() < usize::MAX,
    ensures
        line_views(lines@) == answer_rows(*question, none@, width as int),
{
    let prompt = &question.questions[question.question_index];
    let columns: usize = label_width(prompt.options.as_slice(), none, width);
    let count: usize = prompt.options.len() + 1;
    let state = ListState::selectable_at(count, question.option_index, count);
    let mut options: Vec<Line> = Vec::new();
    let mut i: usize = 0;
    proof {
        assert(line_views(options@) =~= option_rows(
            *question,
            none@,
            0,
            state.selected,
            width as int,
        ));
    }
    while i < count
        invariant
            i <= count,
            question.question_index < question.questions@.len(),
            *prompt == question.questions@[question.question_index as int],
            count == prompt.options@.len() + 1,
            columns == label_columns(prompt.options@, none@, width as int),
            line_views(options@) == option_rows(
                *question,
                none@,
                i as int,
                state.selected,
                width as int,
            ),
        decreases count - i,
    {
        let selected: bool = crate::menu::is_at(state.selected, i);
        let rows: Vec<Line> = if i < prompt.options.len() {
            question_option_lines(
                selected,
                prompt.options[i].label.as_str(),
                prompt.options[i].description.as_str(),
                columns,
                width,
            )
        } else {
            question_option_lines(selected, none, "Optionally add a note with Tab", columns, width)
        };
        append_lines(&mut options, rows);
        i += 1;
    }
    let mut widget: ListWidget = ListWidget::new(count);
    widget.bottom = !question.editing_note;
    widget.lines(&state, fit_lines(options, width, false))
}

fn render_answer_note(question: &Question, width: u16) -> (lines: Vec<Line>)
    requires
        question.question_index < question.answers@.len(),
    ensures
        line_views(lines@) == answer_note_rows(*question, width as int),
{
    let mut lines: Vec<Line> = Vec::new();
    let note: &str = match &question.answers[question.question_index].note {
        Some(note) => note.as_str(),
        None => "",
    };
    proof {
        reveal_strlit("");
        assert(note@ =~= note_text(question.answers@[question.question_index as int].note));
    }
    if question.editing_note {
        append_lines(&mut lines, note_input_layout(note, question.note_cursor, width).lines);
    } else if !note.is_empty() {
        push_line(&mut lines, Line::new());
        append_lines(&mut lines, saved_note_lines(note, width));
        push_line(&mut lines, Line::new());
    }
    proof {
        assert(line_views(lines@) =~= answer_note_rows(*question, width as int));
    }
    lines
}

pub fn question_lines(question: &Question, none: &str, width: u16) -> (lines: Vec<Line>)
    requires
        question.valid(),
        question.option_count() < usize::MAX,
    ensures
        line_views(lines@) == question_rows(*question, none@, width as int),
{
    let mut lines: Vec<Line> = Vec::new();
    push_line(&mut lines, render_question_title(question));
    if let Some((profile, id)) = &question.origin {
        let head: String = concat3("  requested by ", profile.as_str(), " (");
        push_line(
            &mut lines,
            Line::styled(
                concat3(head.as_str(), id.as_str(), ")"),
                Style::of(Role::Dim),
            ),
        );
    }
    push_line(&mut lines, Line::new());
    let prompt = &question.questions[question.question_index];
    let row = Line::styled(
        concat("  ", terminal_safe(prompt.question.as_str()).as_str()),
        Style::plain().bold(),
    );
    append_lines(&mut lines, wrap_log_line(&row, width as usize));
    append_lines(&mut lines, render_options(question, none, width));
    append_lines(&mut lines, render_answer_note(question, width));
    proof {
        assert(line_views(lines@) =~= question_rows(*question, none@, width as int));
    }
    lines
}

/// The rows where a plan is to be accepted. `mode` and its colour are the ones in
/// which the plan would be carried out.
pub open spec fn plan_rows(
    plan: PlanCompletion,
    mode: Seq<char>,
    color: StatusLineColor,
    model: Seq<char>,
    context_percent: Option<u64>,
    width: int,
) -> Seq<LineView> {
    let choices = plan_choices(plan.selected as int, mode, model, color, context_percent);
    let count = choices.len() as int;
    seq![
        title_line("Plan"@, None),
        blank_line(),
        line(seq![span("  Implement this plan?"@, Style::plain().bold_spec())]),
    ] + list_rows(
        choices,
        Seq::empty(),
        settled(count, plan.selected as int, 0, count),
        answer_widget(count, plan.editing_note),
        width,
        false,
    ) + if plan.editing_note {
        note_rows(InputView::of(plan.note@, plan.note_cursor as int), width)
    } else {
        Seq::empty()
    }
}

/// The mode at an index, or that it is not known.
pub open spec fn mode_name(modes: Seq<String>, index: int) -> Seq<char> {
    if index < modes.len() { modes[index]@ } else { "unknown"@ }
}

/// The colour at an index, or another one.
pub open spec fn mode_color(
    colors: Seq<StatusLineColor>,
    index: int,
    otherwise: StatusLineColor,
) -> StatusLineColor {
    if index < colors.len() { colors[index] } else { otherwise }
}

pub fn plan_lines(
    plan: &PlanCompletion,
    modes: &[String],
    colors: &[StatusLineColor],
    otherwise: StatusLineColor,
    model: &str,
    context_percent: Option<u64>,
    width: u16,
) -> (lines: Vec<Line>)
    ensures
        line_views(lines@) == plan_rows(
            *plan,
            mode_name(modes@, plan.mode_index as int),
            mode_color(colors@, plan.mode_index as int, otherwise),
            model@,
            context_percent,
            width as int,
        ),
{
    let mode: &str = if plan.mode_index < modes.len() {
        modes[plan.mode_index].as_str()
    } else {
        "unknown"
    };
    let color: StatusLineColor = if plan.mode_index < colors.len() {
        colors[plan.mode_index]
    } else {
        otherwise
    };
    let mut lines: Vec<Line> = Vec::new();
    push_line(&mut lines, menu_title("Plan", None));
    push_line(&mut lines, Line::new());
    push_line(
        &mut lines,
        Line::styled("  Implement this plan?".to_owned(), Style::plain().bold()),
    );
    let choices = plan_completion_choices(plan.selected, mode, model, color, context_percent);
    let count: usize = choices.len();
    let state = ListState::selectable_at(count, plan.selected, count);
    let mut widget: ListWidget = ListWidget::new(count);
    widget.bottom = !plan.editing_note;
    let empty: Vec<Line> = Vec::new();
    proof {
        assert(line_views(empty@) =~= Seq::empty());
        assert(line_views(choices@).len() == count);
    }
    append_lines(&mut lines, render_list(&choices, empty, &state, widget, width, false));
    if plan.editing_note {
        append_lines(
            &mut lines,
            note_input_layout(plan.note.as_str(), plan.note_cursor, width).lines,
        );
    }
    proof {
        assert(line_views(lines@) =~= plan_rows(
            *plan,
            mode@,
            color,
            model@,
            context_percent,
            width as int,
        ));
    }
    lines
}

/// What is shown of the rule whose pattern is edited: what the pattern is, how it
/// is written, and whether it is a path. `tokens` are those of a command.
#[derive(Debug)]
pub struct RuleDisplay {
    pub label: Option<String>,
    pub hint: String,
    pub path: bool,
    pub tokens: Vec<CodeToken>,
}

/// The name of a scope where a rule is edited.
pub open spec fn rule_scope(scope: PermissionScope) -> Seq<char> {
    match scope {
        PermissionScope::Conversation => "conversation"@,
        PermissionScope::ConversationGlobal => "global"@,
        PermissionScope::Project => "project"@,
        PermissionScope::Global => "global"@,
    }
}

/// The rows where the pattern of a rule is edited.
pub open spec fn rule_edit_rows(
    edit: PatternEdit,
    scope: PermissionScope,
    rule: RuleDisplay,
    width: int,
) -> Seq<LineView> {
    let label = match rule.label {
        None => "pattern"@,
        Some(label) => label@,
    };
    seq![
        title_line(
            "Permission rule"@,
            Some(
                rule_scope(scope) + " \u{b7} edit "@ + label + " \u{b7} "@ + rule.hint@,
            ),
        ),
        blank_line(),
        input_line(
            "  "@,
            InputView::of(edit.pattern@, edit.cursor as int),
            rule.tokens@,
            less(width, 2),
            if rule.path { Style::of(Role::Chip) } else { Style::plain() },
        ),
        blank_line(),
    ]
}

pub fn rule_edit_lines(edit: &PatternEdit, scope: PermissionScope, rule: &RuleDisplay, width: u16)
    -> (lines: Vec<Line>)
    ensures
        line_views(lines@) == rule_edit_rows(*edit, scope, *rule, width as int),
{
    let label: &str = match &rule.label {
        None => "pattern",
        Some(label) => label.as_str(),
    };
    let place: &str = match scope {
        PermissionScope::Conversation => "conversation",
        PermissionScope::ConversationGlobal => "global",
        PermissionScope::Project => "project",
        PermissionScope::Global => "global",
    };
    let head: String = concat3(place, " \u{b7} edit ", label);
    let detail: String = concat3(head.as_str(), " \u{b7} ", rule.hint.as_str());
    let style: Style = if rule.path {
        Style::of(Role::Chip)
    } else {
        Style::plain()
    };
    let mut lines: Vec<Line> = Vec::new();
    push_line(&mut lines, menu_title("Permission rule", Some(detail.as_str())));
    push_line(&mut lines, Line::new());
    push_line(
        &mut lines,
        render_input_line(
            "  ",
            &SingleLineInput::new(edit.pattern.as_str().to_owned(), edit.cursor),
            rule.tokens.as_slice(),
            (width as usize).saturating_sub(2),
            style,
        ),
    );
    push_line(&mut lines, Line::new());
    proof {
        assert(line_views(lines@) =~= rule_edit_rows(*edit, scope, *rule, width as int));
    }
    lines
}

} // verus!
