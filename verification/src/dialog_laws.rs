//! What questions and plans do: what is answered is what was chosen.

use vstd::prelude::*;
use vstd::string::*;
use crate::control::SurfaceKey;
use crate::dialogs::{option_rows, question_rows, rule_scope};
use crate::interaction::{
    given, initial_option, option_with_label, text_view, ContextAction, PermissionScope,
    PlanCompletion, PlanStep, Question, QuestionAnswer, QuestionOption, QuestionPrompt,
    QuestionStep,
};
use crate::key::KeyCode;
use crate::menu::{label_columns, less, option_line, option_lines, plan_choices};
use crate::render::{ellipsized, lemma_wrap_rows_some, safe, wrapped_line};
use crate::row_laws::{law_options_are_told, marked};
use crate::shown::{
    law_wrapped_lines_say_the_same, lemma_one_span, lemma_row_said, lemma_rows_text_concat,
    lemma_said_within, lemma_span_said, row_text, rows_text, says, whole,
};
use crate::style::{line, span, StatusLineColor, Style};

verus! {

/// Whether a question was answered by the option under the cursor, or by none of the options
/// where the cursor stands behind them, and every other answer was left.
pub open spec fn answered_by_cursor(before: Question, after: Question) -> bool {
    let at = before.question_index as int;
    let options = before.questions@[at].options@;
    &&& after.answers@.len() == before.answers@.len()
    &&& before.option_index < options.len() ==> after.answers@[at].selection is Some
        && after.answers@[at].selection->0@ == options[before.option_index as int].label@
    &&& before.option_index >= options.len() ==> after.answers@[at].selection is None
    &&& after.answers@[at].note == before.answers@[at].note
    &&& after.answered@[at]
    &&& forall|i: int|
        0 <= i < before.answers@.len() && i != at ==> #[trigger] after.answers@[i]
            == before.answers@[i]
    &&& forall|i: int|
        0 <= i < before.answered@.len() && i != at ==> #[trigger] after.answered@[i]
            == before.answered@[i]
}

/// Enter answers the question that is shown by the option under the cursor and goes on to
/// the next; after the last one the answers are sent. No other key answers anything, and
/// the answers are sent by nothing else.
pub proof fn law_questions_are_answered_on_purpose(
    before: Question,
    after: Question,
    code: KeyCode,
    step: QuestionStep,
)
    requires
        before.valid(),
        !before.editing_note,
        Question::menu_key_effect(before, after, code, step),
    ensures
        code == KeyCode::Enter ==> answered_by_cursor(before, after),
        code != KeyCode::Enter ==> after.answers@ == before.answers@ && after.answered@
            == before.answered@ && step == QuestionStep::Stay,
        step == QuestionStep::Respond <==> code == KeyCode::Enter && before.question_index + 1
            == before.questions@.len(),
        code == KeyCode::Enter && before.question_index + 1 < before.questions@.len()
            ==> after.question_index == before.question_index + 1,
        code == KeyCode::Up ==> after.option_index <= before.option_index && (before.option_index
            > 0 && before.option_index <= before.questions@[before.question_index as
            int].options@.len() ==> after.option_index == before.option_index - 1),
        code == KeyCode::Down && before.option_index < before.questions@[before.question_index as
            int].options@.len() ==> after.option_index == before.option_index + 1,
        code == KeyCode::Right && before.question_index + 1 < before.questions@.len()
            ==> after.question_index == before.question_index + 1,
        code == KeyCode::Left && before.question_index > 0 ==> after.question_index
            == before.question_index - 1,
        code == KeyCode::Up || code == KeyCode::Down ==> after.question_index
            == before.question_index && after.option_index <= before.questions@[
        before.question_index as int].options@.len(),
        after.editing_note <==> code == KeyCode::Tab,
        after.questions == before.questions,
        after.request == before.request,
{
}

/// A note that is submitted answers like Enter does; Escape forgets it, and Tab keeps it and
/// answers nothing.
pub proof fn law_notes_answer_too(
    before: Question,
    after: Question,
    key: SurfaceKey,
    width: u16,
    step: QuestionStep,
)
    requires
        before.valid(),
        before.editing_note,
        Question::note_key_effect(before, after, key, width, step),
    ensures
        key.submit ==> answered_by_cursor(before, after),
        !key.submit ==> step == QuestionStep::Stay && after.answered@ == before.answered@,
        step == QuestionStep::Respond <==> key.submit && before.question_index + 1
            == before.questions@.len(),
        !key.submit && !key.insert_newline && key.key.code == KeyCode::Esc
            ==> after.answers@[before.question_index as int].note is None && !after.editing_note,
        !key.submit && !key.insert_newline && key.key.code == KeyCode::Tab ==> after.answers@
            == before.answers@ && !after.editing_note,
        after.questions == before.questions,
{
}

/// A question that was answered is shown with the cursor on its answer: on the option with
/// the label that was chosen, or behind the options where none was.
pub proof fn law_answers_are_shown_again(
    index: int,
    questions: Seq<QuestionPrompt>,
    answers: Seq<QuestionAnswer>,
    answered: Seq<bool>,
)
    requires
        0 <= index < questions.len(),
        questions.len() == answers.len() == answered.len(),
    ensures
        ({
            let at = initial_option(index, questions, answers, answered);
            let options = questions[index].options@;
            &&& !answered[index] ==> at == 0
            &&& answered[index] && answers[index].selection is None ==> at == options.len()
            &&& answered[index] && answers[index].selection is Some && at < options.len()
                ==> options[at].label@ == answers[index].selection->0@
            &&& answered[index] && answers[index].selection is Some && (exists|i: int|
                0 <= i < options.len() && (#[trigger] options[i]).label@
                    == answers[index].selection->0@) ==> 0 <= at < options.len()
        }),
{
    if answers[index].selection is Some {
        lemma_option_found(questions[index].options@, answers[index].selection->0@);
    }
}

proof fn lemma_option_found(options: Seq<QuestionOption>, label: Seq<char>)
    ensures
        0 <= option_with_label(options, label) <= options.len(),
        option_with_label(options, label) < options.len() ==> options[option_with_label(
            options,
            label,
        )].label@ == label,
        (exists|i: int| 0 <= i < options.len() && (#[trigger] options[i]).label@ == label)
            ==> option_with_label(options, label) < options.len(),
    decreases options.len(),
{
    if options.len() > 0 && options[0].label@ != label {
        let rest = options.drop_first();
        lemma_option_found(rest, label);
        if exists|i: int| 0 <= i < options.len() && (#[trigger] options[i]).label@ == label {
            let i = choose|i: int| 0 <= i < options.len() && (#[trigger] options[i]).label@
                == label;
            assert(rest[i - 1].label@ == label);
        }
    }
}

/// A plan is answered by Enter only, as the choice under the cursor says: the first three
/// carry it out, in the mode that is shown, and keep, clear or compact the context; the last
/// goes on planning, without a note.
pub proof fn law_plans_are_answered_as_they_say(
    before: PlanCompletion,
    after: PlanCompletion,
    key: SurfaceKey,
    modes: usize,
    step: PlanStep,
    mode: Seq<char>,
    model: Seq<char>,
    color: StatusLineColor,
    context_percent: Option<u64>,
)
    requires
        before.selected <= 3,
        PlanCompletion::menu_key_effect(before, after, key, modes, step),
    ensures
        ({
            let item = row_text(
                plan_choices(before.selected as int, mode, model, color, context_percent)[
                before.selected as int],
            );
            &&& step is Respond ==> key.code == KeyCode::Enter
            &&& step matches PlanStep::Respond { mode: sent, context, note } ==> {
                &&& before.selected < 3 ==> sent == Some(before.mode_index) && says(
                    item,
                    "Yes, with "@,
                ) && says(item, mode) && text_view(note) == given(before.note@)
                &&& before.selected == 0 ==> context == ContextAction::Keep
                &&& before.selected == 1 ==> context == ContextAction::Clear && says(
                    item,
                    " and clear context"@,
                )
                &&& before.selected == 2 ==> context == ContextAction::Compact && says(
                    item,
                    " and compact context"@,
                )
                &&& before.selected == 3 ==> sent is None && note is None && says(
                    item,
                    "No, keep planning"@,
                )
            }
            &&& key.code == KeyCode::Enter && key.key.code == KeyCode::Enter && !key.previous_mode
                && !key.next_mode && !key.model_picker ==> step is Respond
            &&& after.selected <= 3
            &&& after.note == before.note
            &&& after.mode_index != before.mode_index ==> key.previous_mode || key.next_mode
            &&& step is PickModel ==> key.model_picker || key.key.code == KeyCode::Char('p')
                || key.key.code == KeyCode::Char('m')
            &&& step matches PlanStep::ShowMode(shown) ==> shown == after.mode_index
        }),
{
    let spans = plan_choices(before.selected as int, mode, model, color, context_percent)[
    before.selected as int].spans;
    lemma_span_said(spans, 1);
    if before.selected < 3 {
        lemma_span_said(spans, 2);
        lemma_span_said(spans, 5);
    }
}

/// A note to a plan that is submitted carries the plan out with the note.
pub proof fn law_plans_are_answered_with_notes(
    before: PlanCompletion,
    after: PlanCompletion,
    key: SurfaceKey,
    width: u16,
    step: PlanStep,
)
    requires
        before.editing_note,
        PlanCompletion::note_key_effect(before, after, key, width, step),
    ensures
        step is Respond <==> key.submit,
        step matches PlanStep::Respond { mode, context, note } ==> mode == Some(before.mode_index)
            && text_view(note) == given(before.note@) && (before.selected == 1 ==> context
            == ContextAction::Clear) && (before.selected == 2 ==> context
            == ContextAction::Compact) && (before.selected == 0 ==> context
            == ContextAction::Keep),
        after.selected == before.selected,
        after.mode_index == before.mode_index,
        !key.submit && !key.insert_newline && key.key.code == KeyCode::Esc ==> after.note@.len()
            == 0,
        key.submit ==> after.note == before.note,
{
}

/// What becomes of the context is sent under names that tell the three apart.
pub proof fn law_context_actions_are_told_apart(action: ContextAction)
    ensures
        action == ContextAction::Keep <==> action.name_spec() == "keep"@,
        action == ContextAction::Clear <==> action.name_spec() == "clear"@,
        action == ContextAction::Compact <==> action.name_spec() == "compact"@,
{
    reveal_strlit("keep");
    reveal_strlit("clear");
    reveal_strlit("compact");
    assert("keep"@.len() == 4 && "clear"@.len() == 5 && "compact"@.len() == 7);
}

/// A question is shown as it was asked, with who asked it.
pub proof fn law_questions_are_shown(question: Question, none: Seq<char>, width: int)
    requires
        whole("  "@ + safe(question.questions@[question.question_index as int].question@)),
    ensures
        says(
            rows_text(question_rows(question, none, width)),
            safe(question.questions@[question.question_index as int].question@),
        ),
        question.origin matches Some((profile, id)) ==> says(
            rows_text(question_rows(question, none, width)),
            profile@,
        ) && says(rows_text(question_rows(question, none, width)), id@),
{
    let text = safe(question.questions@[question.question_index as int].question@);
    let asked = line(seq![span("  "@ + text, Style::plain().bold_spec())]);
    let rows = question_rows(question, none, width);
    let body = wrapped_line(asked, width);
    lemma_one_span(asked.spans[0]);
    assert(asked.spans =~= seq![asked.spans[0]]);
    law_wrapped_lines_say_the_same(asked, width);
    let from: int = if question.origin is Some { 3 } else { 2 };
    let head = rows.take(from);
    let tail = rows.skip(from + body.len());
    assert(rows =~= head + body + tail);
    lemma_rows_text_concat(head + body, tail);
    lemma_rows_text_concat(head, body);
    assert(rows_text(rows) =~= (rows_text(head) + "  "@) + text + rows_text(tail));
    if let Some((profile, id)) = question.origin {
        let row = rows[1];
        lemma_row_said(rows, 1);
        assert(row.spans =~= seq![row.spans[0]]);
        lemma_one_span(row.spans[0]);
        assert(row_text(row) =~= "  requested by "@ + profile@ + (" ("@ + id@ + ")"@));
        assert(row_text(row) =~= ("  requested by "@ + profile@ + " ("@) + id@ + ")"@);
        lemma_said_within(rows_text(rows), row_text(row), profile@);
        lemma_said_within(rows_text(rows), row_text(row), id@);
    }
}

/// Every option of a question is offered, in the order in which they stand, and the choice of
/// none behind them; only the one under the cursor is marked.
pub proof fn law_every_option_is_offered(
    question: Question,
    none: Seq<char>,
    count: int,
    selected: Option<usize>,
    width: int,
    at: int,
)
    requires
        question.questions@[question.question_index as int].options@.len() < usize::MAX,
        0 <= at < count <= question.questions@[question.question_index as int].options@.len() + 1,
    ensures
        ({
            let options = question.questions@[question.question_index as int].options@;
            let rows = option_rows(question, none, count, selected, width);
            let columns = label_columns(options, none, width);
            let label = if at < options.len() { options[at].label@ } else { none };
            exists|i: int|
                0 <= i < rows.len() && says(
                    row_text(#[trigger] rows[i]),
                    ellipsized(safe(label), columns),
                ) && marked(rows[i]) == (selected == Some(at as usize))
        }),
    decreases count,
{
    let options = question.questions@[question.question_index as int].options@;
    let rows = option_rows(question, none, count, selected, width);
    let columns = label_columns(options, none, width);
    let before = option_rows(question, none, count - 1, selected, width);
    if at < count - 1 {
        law_every_option_is_offered(question, none, count - 1, selected, width, at);
        let label = if at < options.len() { options[at].label@ } else { none };
        let i = choose|i: int|
            0 <= i < before.len() && says(
                row_text(#[trigger] before[i]),
                ellipsized(safe(label), columns),
            ) && marked(before[i]) == (selected == Some(at as usize));
        assert(rows[i] == before[i]);
    } else {
        let label = if at < options.len() { options[at].label@ } else { none };
        let description = if at < options.len() {
            options[at].description@
        } else {
            "Optionally add a note with Tab"@
        };
        let own = option_lines(selected == Some(at as usize), label, description, columns, width);
        let room = less(width, columns + 4);
        lemma_wrap_rows_some(safe(description), if room >= 1 { room } else { 1 });
        assert(rows[before.len() as int] == own[0]);
        let first = rows[before.len() as int];
        law_options_are_told(
            selected == Some(at as usize),
            ellipsized(safe(label), columns),
            first.spans[3].text,
            columns,
        );
        assert(first == option_line(
            selected == Some(at as usize),
            true,
            ellipsized(safe(label), columns),
            first.spans[3].text,
            columns,
        ));
    }
}

/// A rule that is edited says where it holds: in the conversation, in the project or
/// everywhere.
pub proof fn law_scopes_of_rules_are_told(scope: PermissionScope)
    ensures
        rule_scope(scope) == "global"@ <==> scope == PermissionScope::Global || scope
            == PermissionScope::ConversationGlobal,
        rule_scope(scope) == "project"@ <==> scope == PermissionScope::Project,
        rule_scope(scope) == "conversation"@ <==> scope == PermissionScope::Conversation,
{
    reveal_strlit("global");
    reveal_strlit("project");
    reveal_strlit("conversation");
    assert("global"@.len() == 6 && "project"@.len() == 7 && "conversation"@.len() == 12);
}

} // verus!
