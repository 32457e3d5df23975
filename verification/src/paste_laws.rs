//! Where a text goes that is pasted into a surface.

use vstd::prelude::*;
use crate::agents::AgentWizardStep;
use crate::interaction::note_text;
use crate::number::is_digit;
use crate::settings::is_integer;
use crate::single_line_input::{on_one_line, InputView};
use crate::status_line::StatusLineEditorMode;
use crate::surface::Surface;
use crate::surface_paste::{digits_of, pastes, PasteOutcome};
use crate::text::{floor_boundary, lemma_boundary, lemma_floor_boundary, utf8_len};

verus! {

/// Whether `after` is `before` with `value` put in somewhere.
pub open spec fn pasted(before: Seq<char>, value: Seq<char>, after: Seq<char>) -> bool {
    exists|head: Seq<char>, tail: Seq<char>|
        before == #[trigger] (head + tail) && after == head + value + tail
}

proof fn lemma_inserted(before: Seq<char>, cursor: int, value: Seq<char>, after: Seq<char>)
    requires
        0 <= cursor,
        after == InputView::of(before, cursor).insert(value).text,
    ensures
        pasted(before, value, after),
{
    let input = InputView::of(before, cursor);
    let within = if cursor < utf8_len(before) { cursor } else { utf8_len(before) as int };
    lemma_floor_boundary(before, within);
    lemma_boundary(before, floor_boundary(before, within));
    let head = before.take(input.at);
    let tail = before.skip(input.at);
    assert(before =~= head + tail);
    assert(after =~= head + value + tail);
}

/// A number takes only the digits of a text, all of them and in their order.
pub proof fn law_numbers_take_digits(text: Seq<char>)
    ensures
        forall|i: int| 0 <= i < digits_of(text).len() ==> is_digit(#[trigger] digits_of(text)[i]),
        (forall|i: int| 0 <= i < text.len() ==> is_digit(#[trigger] text[i])) ==> digits_of(text)
            == text,
        forall|c: char| is_digit(c)
            ==> (text.contains(c) <==> #[trigger] digits_of(text).contains(c)),
    decreases text.len(),
{
    if text.len() > 0 {
        let rest = text.drop_last();
        law_numbers_take_digits(rest);
        assert(text =~= rest.push(text.last()));
        assert forall|c: char| is_digit(c) implies (text.contains(c)
            <==> #[trigger] digits_of(text).contains(c)) by {
            if text.contains(c) {
                let at = choose|at: int| 0 <= at < text.len() && text[at] == c;
                if at < rest.len() {
                    assert(rest[at] == c);
                    assert(rest.contains(c));
                    assert(digits_of(rest).contains(c));
                    let found = choose|found: int|
                        0 <= found < digits_of(rest).len() && digits_of(rest)[found] == c;
                    assert(digits_of(text)[found] == c);
                } else {
                    assert(digits_of(text).last() == c);
                }
            }
            if digits_of(text).contains(c) {
                let at = choose|at: int| 0 <= at < digits_of(text).len() && digits_of(text)[at] == c;
                if at < digits_of(rest).len() {
                    assert(digits_of(rest)[at] == c);
                    assert(digits_of(rest).contains(c));
                    let found = choose|found: int| 0 <= found < rest.len() && rest[found] == c;
                    assert(text[found] == c);
                } else {
                    assert(text.last() == c);
                }
            }
        }
        if forall|i: int| 0 <= i < text.len() ==> is_digit(#[trigger] text[i]) {
            assert forall|i: int| 0 <= i < rest.len() implies is_digit(#[trigger] rest[i]) by {
                assert(is_digit(text[i]));
            }
            assert(is_digit(text[text.len() - 1]));
            assert(digits_of(text) =~= text);
        }
    } else {
        assert(digits_of(text) =~= text);
    }
}

/// A text that is pasted goes on one line into the input of the surface.
pub proof fn law_pastes_go_into_the_input(
    before: Surface,
    after: Surface,
    value: Seq<char>,
    outcome: PasteOutcome,
)
    requires
        pastes(before, after, value, outcome),
    ensures
        before matches Surface::Rename(field)
            ==> outcome == PasteOutcome::Taken && (
                after matches Surface::Rename(a)
                    && pasted(field.value@, on_one_line(value), a.value@)
            ),
        before matches Surface::WebSearchPicker(p)
            ==> outcome == PasteOutcome::Taken && (
                after matches Surface::WebSearchPicker(a)
                    && pasted(p.query@, on_one_line(value), a.query@)
            ),
        before matches Surface::WebSearchSetup { provider, label, field }
            ==> outcome == PasteOutcome::Taken && (
                after matches Surface::WebSearchSetup {
                    provider: new_provider,
                    label: new_label,
                    field: a,
                }
                    && pasted(field.value@, on_one_line(value), a.value@)
            ),
        before matches Surface::McpFieldEdit { draft, field, input, tokens }
            ==> outcome == PasteOutcome::Taken && (
                after matches Surface::McpFieldEdit {
                    draft: new_draft,
                    field: new_field,
                    input: a,
                    tokens: new_tokens,
                }
                    && pasted(input.value@, on_one_line(value), a.value@)
            ),
        before matches Surface::McpPackageValueEdit { draft, field, input }
            ==> outcome == PasteOutcome::Taken && (
                after matches Surface::McpPackageValueEdit {
                    draft: new_draft,
                    field: new_field,
                    input: a,
                }
                    && pasted(input.value@, on_one_line(value), a.value@)
            ),
        before matches Surface::Providers(p)
            ==> outcome == PasteOutcome::Taken && (
                after matches Surface::Providers(a)
                    && pasted(p.query@, on_one_line(value), a.query@)
            ),
        before matches Surface::Models { models: p, setting }
            ==> outcome == PasteOutcome::Taken && (
                after matches Surface::Models { models: a, setting: new_setting }
                    && pasted(p.query@, on_one_line(value), a.query@)
            ),
        before matches Surface::HistoryTree(p)
            ==> outcome == PasteOutcome::Taken && (
                after matches Surface::HistoryTree(a)
                    && pasted(p.query@, on_one_line(value), a.query@)
            ),
        before matches Surface::Conversations(p)
            ==> outcome == PasteOutcome::Taken && (
                after matches Surface::Conversations(a)
                    && pasted(p.query@, on_one_line(value), a.query@)
            ),
        before matches Surface::PermissionRuleEdit { edit, scope, rule }
            ==> outcome == PasteOutcome::Taken && (
                after matches Surface::PermissionRuleEdit {
                    edit: a,
                    scope: new_scope,
                    rule: new_rule,
                }
                    && pasted(edit.pattern@, on_one_line(value), a.pattern@)
            ),
{
    match (before, after) {
        (Surface::Rename(field), Surface::Rename(a)) => {
            lemma_inserted(field.value@, field.cursor as int, on_one_line(value), a.value@);
        },
        (Surface::WebSearchPicker(p), Surface::WebSearchPicker(a)) => {
            lemma_inserted(p.query@, p.query_cursor as int, on_one_line(value), a.query@);
        },
        (
            Surface::WebSearchSetup { provider, label, field },
            Surface::WebSearchSetup { provider: new_provider, label: new_label, field: a },
        ) => {
            lemma_inserted(field.value@, field.cursor as int, on_one_line(value), a.value@);
        },
        (
            Surface::McpFieldEdit { draft, field, input, tokens },
            Surface::McpFieldEdit {
                draft: new_draft,
                field: new_field,
                input: a,
                tokens: new_tokens,
            },
        ) => {
            lemma_inserted(input.value@, input.cursor as int, on_one_line(value), a.value@);
        },
        (
            Surface::McpPackageValueEdit { draft, field, input },
            Surface::McpPackageValueEdit { draft: new_draft, field: new_field, input: a },
        ) => {
            lemma_inserted(input.value@, input.cursor as int, on_one_line(value), a.value@);
        },
        (Surface::Providers(p), Surface::Providers(a)) => {
            lemma_inserted(p.query@, p.query_cursor as int, on_one_line(value), a.query@);
        },
        (
            Surface::Models { models: p, setting },
            Surface::Models { models: a, setting: new_setting },
        ) => {
            lemma_inserted(p.query@, p.query_cursor as int, on_one_line(value), a.query@);
        },
        (Surface::HistoryTree(p), Surface::HistoryTree(a)) => {
            lemma_inserted(p.query@, p.query_cursor as int, on_one_line(value), a.query@);
        },
        (Surface::Conversations(p), Surface::Conversations(a)) => {
            lemma_inserted(p.query@, p.query_cursor as int, on_one_line(value), a.query@);
        },
        (
            Surface::PermissionRuleEdit { edit, scope, rule },
            Surface::PermissionRuleEdit { edit: a, scope: new_scope, rule: new_rule },
        ) => {
            lemma_inserted(edit.pattern@, edit.cursor as int, on_one_line(value), a.pattern@);
        },
        _ => {},
    }
}

/// A search of the settings that a text is pasted into is made again; the fields of a
/// setting, of a worktree, of a key, of an agent and of a color take the text too. A number
/// takes its digits.
pub proof fn law_pastes_go_into_the_open_field(
    before: Surface,
    after: Surface,
    value: Seq<char>,
    outcome: PasteOutcome,
)
    requires
        pastes(before, after, value, outcome),
    ensures
        outcome == PasteOutcome::Searched <==> before is Settings,
        before matches Surface::Settings(p) ==> (after matches Surface::Settings(a) && pasted(
            p.query@,
            on_one_line(value),
            a.query@,
        )),
        before matches Surface::SettingInput { setting, input, tokens } ==> (
        after matches Surface::SettingInput { setting: new_setting, input: a, tokens: new_tokens }
            && setting == new_setting && pasted(
            input.value@,
            on_one_line(
                if setting.kind is PositiveInteger
                    || setting.kind is NonNegativeInteger { digits_of(value) } else { value },
            ),
            a.value@,
        )),
        before matches Surface::WorktreeNew(p) ==> (after matches Surface::WorktreeNew(a) && (
        if p.editing_base {
            a.name == p.name && pasted(p.base@, on_one_line(value), a.base@)
        } else {
            a.base == p.base && pasted(p.name@, on_one_line(value), a.name@)
        })),
        before matches Surface::ProviderSetup(p) ==> if p.api_key_auth {
            after matches Surface::ProviderSetup(a) && pasted(
                p.api_key@,
                on_one_line(value),
                a.api_key@,
            )
        } else {
            after == before && outcome == PasteOutcome::Ignored
        },
        before matches Surface::AgentWizard(p) ==> match p.step {
            AgentWizardStep::Name => after matches Surface::AgentWizard(a) && pasted(
                p.name@,
                on_one_line(value),
                a.name@,
            ) && a.description == p.description && a.prompt == p.prompt,
            AgentWizardStep::Description => after matches Surface::AgentWizard(a) && pasted(
                p.description@,
                on_one_line(value),
                a.description@,
            ) && a.name == p.name && a.prompt == p.prompt,
            AgentWizardStep::Prompt => after matches Surface::AgentWizard(a) && a.name == p.name
                && a.description == p.description && a.prompt@.text == p.prompt@.text.take(
                p.prompt@.at,
            ) + value + p.prompt@.text.skip(p.prompt@.at),
            _ => after == before && outcome == PasteOutcome::Ignored,
        },
        before matches Surface::StatusLine(p) ==> match p.mode {
            StatusLineEditorMode::Hex { module, input, cursor } => {
                after matches Surface::StatusLine(a) && a.config == p.config
                    && (a.mode matches StatusLineEditorMode::Hex {
                    module: new_module,
                    input: new_input,
                    cursor: new_cursor,
                } && module == new_module && pasted(input@, on_one_line(value), new_input@))
            },
            _ => after == before && outcome == PasteOutcome::Ignored,
        },
        before matches Surface::McpJsonEdit { location, separate_name, editor, tokens } ==> (
        after matches Surface::McpJsonEdit {
            location: new_location,
            separate_name: new_name,
            editor: a,
            tokens: new_tokens,
        } && a@.text == editor@.text.take(editor@.at) + value + editor@.text.skip(editor@.at)),
{
    match (before, after) {
        (Surface::Settings(p), Surface::Settings(a)) => {
            lemma_inserted(p.query@, p.query_cursor as int, on_one_line(value), a.query@);
        },
        (
            Surface::SettingInput { setting, input, tokens },
            Surface::SettingInput { setting: new_setting, input: a, tokens: new_tokens },
        ) => {
            let text = if is_integer(setting.kind) { digits_of(value) } else { value };
            lemma_inserted(input.value@, input.cursor as int, on_one_line(text), a.value@);
        },
        (Surface::WorktreeNew(p), Surface::WorktreeNew(a)) => {
            if p.editing_base {
                lemma_inserted(p.base@, p.cursor as int, on_one_line(value), a.base@);
            } else {
                lemma_inserted(p.name@, p.cursor as int, on_one_line(value), a.name@);
            }
        },
        (Surface::ProviderSetup(p), Surface::ProviderSetup(a)) => {
            if p.api_key_auth {
                lemma_inserted(p.api_key@, p.api_key_cursor as int, on_one_line(value), a.api_key@);
            }
        },
        (Surface::AgentWizard(p), Surface::AgentWizard(a)) => {
            if p.step == AgentWizardStep::Name {
                lemma_inserted(p.name@, p.cursor as int, on_one_line(value), a.name@);
            }
            if p.step == AgentWizardStep::Description {
                lemma_inserted(
                    p.description@,
                    p.cursor as int,
                    on_one_line(value),
                    a.description@,
                );
            }
        },
        (Surface::StatusLine(p), Surface::StatusLine(a)) => {
            if let StatusLineEditorMode::Hex { module, input, cursor } = p.mode {
                if let StatusLineEditorMode::Hex {
                    module: new_module,
                    input: new_input,
                    cursor: new_cursor,
                } = a.mode {
                    lemma_inserted(input@, cursor as int, on_one_line(value), new_input@);
                }
            }
        },
        _ => {},
    }
}

/// A note that is written takes the pasted text as it is, with its lines; a surface that
/// nothing is written on stays as it is.
pub proof fn law_pastes_go_into_the_open_note(
    before: Surface,
    after: Surface,
    value: Seq<char>,
    outcome: PasteOutcome,
)
    requires
        pastes(before, after, value, outcome),
    ensures
        outcome == PasteOutcome::Ignored ==> after == before,
        before matches Surface::Question(p) ==> if p.editing_note {
            after matches Surface::Question(a) && a.question_index == p.question_index && pasted(
                note_text(p.answers@[p.question_index as int].note),
                value,
                note_text(a.answers@[p.question_index as int].note),
            )
        } else {
            after == before
        },
        before matches Surface::PlanCompletion { plan: p, modes, colors, model, context_percent }
            ==> if p.editing_note {
            after matches Surface::PlanCompletion {
                plan: a,
                modes: new_modes,
                colors: new_colors,
                model: new_model,
                context_percent: new_percent,
            } && pasted(p.note@, value, a.note@) && a.selected == p.selected
        } else {
            after == before
        },
        before matches Surface::Permission { prompt: p, request, choices, answers } ==> if
            p.editing_note {
            after matches Surface::Permission {
                prompt: a,
                request: new_request,
                choices: new_choices,
                answers: new_answers,
            } && pasted(p.denial_note@, value, a.denial_note@) && a.selected == p.selected
                && new_request == request
        } else {
            after == before
        },
        before is Effort || before is Help || before is SupervisedWork || before is Skills
            || before is McpForm || before is KillSupervisedWork ==> after == before,
{
    match (before, after) {
        (Surface::Question(p), Surface::Question(a)) => {
            if p.editing_note {
                let at = p.question_index as int;
                lemma_inserted(
                    note_text(p.answers@[at].note),
                    p.note_cursor as int,
                    value,
                    note_text(a.answers@[at].note),
                );
            }
        },
        (
            Surface::PlanCompletion { plan: p, modes, colors, model, context_percent },
            Surface::PlanCompletion {
                plan: a,
                modes: new_modes,
                colors: new_colors,
                model: new_model,
                context_percent: new_percent,
            },
        ) => {
            if p.editing_note {
                lemma_inserted(p.note@, p.note_cursor as int, value, a.note@);
            }
        },
        (
            Surface::Permission { prompt: p, request, choices, answers },
            Surface::Permission {
                prompt: a,
                request: new_request,
                choices: new_choices,
                answers: new_answers,
            },
        ) => {
            if p.editing_note {
                lemma_inserted(p.denial_note@, p.note_cursor as int, value, a.denial_note@);
            }
        },
        _ => {},
    }
}

} // verus!
