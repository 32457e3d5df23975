//! Text that is pasted into a surface.

use vstd::prelude::*;
use vstd::string::*;
use crate::agents::AgentWizardStep;
use crate::control::{copy_text, field_is, paste_single_line};
use crate::interaction::{note_text, QuestionAnswer};
use crate::number::is_digit;
use crate::settings::is_integer;
use crate::settings::SettingKind;
use crate::single_line_input::{on_one_line, InputView, SingleLineInput};
use crate::status_line::StatusLineEditorMode;
use crate::surface::Surface;
use crate::surface_layout::active_note;
use crate::text::chars_of;

verus! {

/// What became of a text that was pasted.
#[derive(Clone, Copy, Debug, PartialEq, Eq, Structural)]
pub enum PasteOutcome {
    /// The surface takes no text.
    Ignored,
    Taken,
    /// The text went into the search of the settings, whose rows are now others.
    Searched,
}

/// A text with nothing but its digits.
pub open spec fn digits_of(text: Seq<char>) -> Seq<char>
    decreases text.len(),
{
    if text.len() == 0 {
        Seq::empty()
    } else if is_digit(text.last()) {
        digits_of(text.drop_last()).push(text.last())
    } else {
        digits_of(text.drop_last())
    }
}

fn keep_digits(text: &str) -> (digits: String)
    ensures
        digits@ == digits_of(text@),
{
    let chars: Vec<char> = chars_of(text);
    let mut digits: String = String::new();
    let mut i: usize = 0;
    while i < chars.len()
        invariant
            i <= chars@.len(),
            chars@ == text@,
            digits@ == digits_of(text@.take(i as int)),
        decreases chars@.len() - i,
    {
        let c: char = chars[i];
        proof {
            assert(text@.take(i + 1).drop_last() =~= text@.take(i as int));
        }
        let u: u32 = c as u32;
        if 48 <= u && u <= 57 {
            digits.push(c);
        }
        i += 1;
    }
    proof {
        assert(text@.take(i as int) =~= text@);
    }
    digits
}

/// The single-line input of a surface that takes pasted text.
pub open spec fn paste_field(surface: Surface) -> Option<(Seq<char>, int)> {
    match surface {
        Surface::PermissionRuleEdit { edit, scope, rule } => Some(
            (edit.pattern@, edit.cursor as int),
        ),
        Surface::Rename(field) => Some((field.value@, field.cursor as int)),
        Surface::WebSearchPicker(picker) => Some((picker.query@, picker.query_cursor as int)),
        Surface::WebSearchSetup { provider, label, field } => Some(
            (field.value@, field.cursor as int),
        ),
        Surface::McpFieldEdit { draft, field, input, tokens } => Some(
            (input.value@, input.cursor as int),
        ),
        Surface::McpPackageValueEdit { draft, field, input } => Some(
            (input.value@, input.cursor as int),
        ),
        Surface::Providers(providers) => Some((providers.query@, providers.query_cursor as int)),
        Surface::Models { models, setting } => Some((models.query@, models.query_cursor as int)),
        Surface::HistoryTree(tree) => Some((tree.query@, tree.query_cursor as int)),
        Surface::Conversations(picker) => Some((picker.query@, picker.query_cursor as int)),
        Surface::Settings(settings) => Some((settings.query@, settings.query_cursor as int)),
        Surface::WorktreeNew(worktree) => Some(
            (
                if worktree.editing_base { worktree.base@ } else { worktree.name@ },
                worktree.cursor as int,
            ),
        ),
        Surface::ProviderSetup(setup) => if setup.api_key_auth {
            Some((setup.api_key@, setup.api_key_cursor as int))
        } else {
            None
        },
        Surface::AgentWizard(wizard) => match wizard.step {
            AgentWizardStep::Name => Some((wizard.name@, wizard.cursor as int)),
            AgentWizardStep::Description => Some((wizard.description@, wizard.cursor as int)),
            _ => None,
        },
        Surface::SettingInput { setting, input, tokens } => Some(
            (input.value@, input.cursor as int),
        ),
        Surface::StatusLine(editor) => match editor.mode {
            StatusLineEditorMode::Hex { module, input, cursor } => Some((input@, cursor as int)),
            _ => None,
        },
        _ => None,
    }
}

/// The editor of several lines of a surface that takes pasted text.
pub open spec fn paste_editor(surface: Surface) -> Option<InputView> {
    match surface {
        Surface::McpJsonEdit { location, separate_name, editor, tokens } => Some(editor@),
        Surface::AgentWizard(wizard) => if wizard.step == AgentWizardStep::Prompt {
            Some(wizard.prompt@)
        } else {
            None
        },
        _ => None,
    }
}

/// What is inserted for a text: a number takes only digits.
pub open spec fn inserted(surface: Surface, value: Seq<char>) -> Seq<char> {
    on_one_line(
        match surface {
            Surface::SettingInput { setting, input, tokens } => if is_integer(setting.kind) {
                digits_of(value)
            } else {
                value
            },
            _ => value,
        },
    )
}

/// Two surfaces differ in nothing but what is written in them.
pub open spec fn same_but_text(left: Surface, right: Surface) -> bool {
    match (left, right) {
        (
            Surface::PermissionRuleEdit { edit, scope, rule },
            Surface::PermissionRuleEdit { edit: edit_after, scope: scope_after, rule: rule_after },
        ) => scope == scope_after && rule == rule_after,
        (Surface::Rename(field), Surface::Rename(field_after)) => true,
        (Surface::WebSearchPicker(picker), Surface::WebSearchPicker(after)) => picker.rows
            == after.rows && picker.list == after.list,
        (
            Surface::WebSearchSetup { provider, label, field },
            Surface::WebSearchSetup { provider: provider_after, label: label_after, field: after },
        ) => provider == provider_after && label == label_after,
        (
            Surface::McpFieldEdit { draft, field, input, tokens },
            Surface::McpFieldEdit {
                draft: draft_after,
                field: field_after,
                input: after,
                tokens: tokens_after,
            },
        ) => draft == draft_after && field == field_after && tokens == tokens_after,
        (
            Surface::McpPackageValueEdit { draft, field, input },
            Surface::McpPackageValueEdit { draft: draft_after, field: field_after, input: after },
        ) => draft == draft_after && field == field_after,
        (Surface::Providers(providers), Surface::Providers(after)) => providers.rows == after.rows
            && providers.list == after.list && providers.model_configuration_follows
            == after.model_configuration_follows,
        (
            Surface::Models { models, setting },
            Surface::Models { models: after, setting: setting_after },
        ) => models.rows == after.rows && models.list == after.list && models.for_setting
            == after.for_setting && setting == setting_after,
        (Surface::HistoryTree(tree), Surface::HistoryTree(after)) => tree.rows == after.rows
            && tree.list == after.list && tree.purpose == after.purpose && tree.loading
            == after.loading && tree.revision == after.revision && tree.opened_at_millis
            == after.opened_at_millis,
        (Surface::Conversations(picker), Surface::Conversations(after)) => picker.rows
            == after.rows && picker.list == after.list && picker.opened_at_millis
            == after.opened_at_millis && picker.include_archived == after.include_archived,
        (Surface::Settings(settings), Surface::Settings(after)) => settings.rows == after.rows
            && settings.section == after.section && settings.list == after.list,
        (Surface::WorktreeNew(worktree), Surface::WorktreeNew(after)) => worktree.editing_base
            == after.editing_base && (if worktree.editing_base {
            worktree.name == after.name
        } else {
            worktree.base == after.base
        }),
        (Surface::ProviderSetup(setup), Surface::ProviderSetup(after)) => setup.provider_id
            == after.provider_id && setup.provider == after.provider && setup.instructions
            == after.instructions && setup.credential_environment_variable
            == after.credential_environment_variable && setup.auth_challenge
            == after.auth_challenge && setup.managed_auth == after.managed_auth
            && setup.api_key_auth == after.api_key_auth && setup.auth_flows == after.auth_flows
            && setup.authenticated == after.authenticated,
        (Surface::AgentWizard(wizard), Surface::AgentWizard(after)) => {
            &&& wizard.parent == after.parent
            &&& wizard.parents == after.parents
            &&& wizard.parent_list == after.parent_list
            &&& wizard.availability == after.availability
            &&& wizard.step == after.step
            &&& wizard.editing == after.editing
            &&& wizard.original_name == after.original_name
            &&& wizard.step != AgentWizardStep::Name ==> wizard.name == after.name
            &&& wizard.step != AgentWizardStep::Description ==> wizard.description
                == after.description
            &&& wizard.step != AgentWizardStep::Prompt ==> wizard.prompt == after.prompt
        },
        (
            Surface::SettingInput { setting, input, tokens },
            Surface::SettingInput { setting: setting_after, input: after, tokens: tokens_after },
        ) => setting == setting_after && tokens == tokens_after,
        (Surface::StatusLine(editor), Surface::StatusLine(after)) => {
            &&& editor.config == after.config
            &&& editor.rows == after.rows
            &&& editor.list == after.list
            &&& match (editor.mode, after.mode) {
                (
                    StatusLineEditorMode::Hex { module, input, cursor },
                    StatusLineEditorMode::Hex {
                        module: module_after,
                        input: input_after,
                        cursor: cursor_after,
                    },
                ) => module == module_after,
                _ => false,
            }
        },
        (
            Surface::McpJsonEdit { location, separate_name, editor, tokens },
            Surface::McpJsonEdit {
                location: location_after,
                separate_name: name_after,
                editor: editor_after,
                tokens: tokens_after,
            },
        ) => location == location_after && separate_name == name_after && tokens == tokens_after,
        (Surface::Question(question), Surface::Question(after)) => {
            &&& question.questions == after.questions
            &&& question.origin == after.origin
            &&& question.question_index == after.question_index
            &&& question.option_index == after.option_index
            &&& question.answered == after.answered
            &&& question.editing_note == after.editing_note
            &&& question.answers@.len() == after.answers@.len()
            &&& forall|i: int|
                0 <= i < question.answers@.len() ==> (#[trigger] after.answers@[i]).selection
                    == question.answers@[i].selection && (i != question.question_index
                    ==> after.answers@[i] == question.answers@[i])
        },
        (
            Surface::PlanCompletion { plan, modes, colors, model, context_percent },
            Surface::PlanCompletion {
                plan: after,
                modes: modes_after,
                colors: colors_after,
                model: model_after,
                context_percent: percent_after,
            },
        ) => plan.selected == after.selected && plan.editing_note == after.editing_note
            && plan.mode_index == after.mode_index && modes == modes_after && colors
            == colors_after && model == model_after && context_percent == percent_after,
        (
            Surface::Permission { prompt, request, choices, answers },
            Surface::Permission {
                prompt: after,
                request: request_after,
                choices: choices_after,
                answers: answers_after,
            },
        ) => prompt.selected == after.selected && prompt.scope == after.scope
            && prompt.diff_scroll == after.diff_scroll && prompt.editing_note
            == after.editing_note && request == request_after && choices == choices_after
            && answers == answers_after,
        _ => false,
    }
}

/// What pasting a text into a surface does: a note that is written comes first,
/// then the input of the surface; a surface without one takes nothing.
pub open spec fn pastes(
    before: Surface,
    after: Surface,
    value: Seq<char>,
    outcome: PasteOutcome,
) -> bool {
    match active_note(before) {
        Some(note) => {
            &&& outcome == PasteOutcome::Taken
            &&& same_but_text(before, after)
            &&& active_note(after) matches Some(written) && field_is(
                written.0,
                written.1,
                InputView::of(note.0, note.1).insert(value),
            )
        },
        None => match paste_field(before) {
            Some(field) => {
                &&& outcome == if before is Settings {
                    PasteOutcome::Searched
                } else {
                    PasteOutcome::Taken
                }
                &&& same_but_text(before, after)
                &&& paste_field(after) matches Some(written) && field_is(
                    written.0,
                    written.1,
                    InputView::of(field.0, field.1).insert(inserted(before, value)),
                )
            },
            None => match paste_editor(before) {
                Some(editor) => {
                    &&& outcome == PasteOutcome::Taken
                    &&& same_but_text(before, after)
                    &&& paste_editor(after) == Some(editor.insert(value))
                },
                None => outcome == PasteOutcome::Ignored && after == before,
            },
        },
    }
}

/// Inserts pasted text into a note.
fn paste_note(note: &mut String, cursor: &mut usize, value: &str)
    ensures
        field_is(
            final(note)@,
            *final(cursor) as int,
            InputView::of(old(note)@, *old(cursor) as int).insert(value@),
        ),
{
    let mut input = SingleLineInput::new(note.clone(), *cursor);
    input.insert_verbatim(value);
    let parts = input.into_parts();
    *note = parts.0;
    *cursor = parts.1;
}

fn is_number(kind: &SettingKind) -> (yes: bool)
    ensures
        yes == is_integer(*kind),
{
    match kind {
        SettingKind::PositiveInteger => true,
        SettingKind::NonNegativeInteger => true,
        _ => false,
    }
}

/// Inserts pasted text into a surface.
#[verifier::rlimit(50)]
pub fn insert_surface_paste(surface: &mut Surface, value: &str) -> (outcome: PasteOutcome)
    requires
        *old(surface) matches Surface::Question(question) ==> question.valid(),
    ensures
        pastes(*old(surface), *final(surface), value@, outcome),
{
    match surface {
        Surface::Question(question) => {
            if !question.editing_note {
                return PasteOutcome::Ignored;
            }
            let at: usize = question.question_index;
            let mut note: String = match &question.answers[at].note {
                Some(note) => note.clone(),
                None => String::new(),
            };
            proof {
                assert(note@ =~= note_text(question.answers@[at as int].note));
            }
            let mut cursor: usize = question.note_cursor;
            paste_note(&mut note, &mut cursor, value);
            let selection: Option<String> = copy_text(&question.answers[at].selection);
            question.answers.set(at, QuestionAnswer { selection, note: Some(note) });
            question.note_cursor = cursor;
            PasteOutcome::Taken
        },
        Surface::PlanCompletion { plan, .. } => {
            if !plan.editing_note {
                return PasteOutcome::Ignored;
            }
            paste_note(&mut plan.note, &mut plan.note_cursor, value);
            PasteOutcome::Taken
        },
        Surface::Permission { prompt, .. } => {
            if !prompt.editing_note {
                return PasteOutcome::Ignored;
            }
            paste_note(&mut prompt.denial_note, &mut prompt.note_cursor, value);
            PasteOutcome::Taken
        },
        Surface::PermissionRuleEdit { edit, .. } => {
            paste_single_line(&mut edit.pattern, &mut edit.cursor, value);
            PasteOutcome::Taken
        },
        Surface::Rename(field) => {
            paste_single_line(&mut field.value, &mut field.cursor, value);
            PasteOutcome::Taken
        },
        Surface::WebSearchPicker(picker) => {
            paste_single_line(&mut picker.query, &mut picker.query_cursor, value);
            PasteOutcome::Taken
        },
        Surface::WebSearchSetup { field, .. } => {
            paste_single_line(&mut field.value, &mut field.cursor, value);
            PasteOutcome::Taken
        },
        Surface::McpFieldEdit { input, .. } => {
            paste_single_line(&mut input.value, &mut input.cursor, value);
            PasteOutcome::Taken
        },
        Surface::McpPackageValueEdit { input, .. } => {
            paste_single_line(&mut input.value, &mut input.cursor, value);
            PasteOutcome::Taken
        },
        Surface::Providers(providers) => {
            paste_single_line(&mut providers.query, &mut providers.query_cursor, value);
            PasteOutcome::Taken
        },
        Surface::Models { models, .. } => {
            paste_single_line(&mut models.query, &mut models.query_cursor, value);
            PasteOutcome::Taken
        },
        Surface::HistoryTree(tree) => {
            paste_single_line(&mut tree.query, &mut tree.query_cursor, value);
            PasteOutcome::Taken
        },
        Surface::Conversations(picker) => {
            paste_single_line(&mut picker.query, &mut picker.query_cursor, value);
            PasteOutcome::Taken
        },
        Surface::Settings(settings) => {
            paste_single_line(&mut settings.query, &mut settings.query_cursor, value);
            PasteOutcome::Searched
        },
        Surface::WorktreeNew(worktree) => {
            if worktree.editing_base {
                paste_single_line(&mut worktree.base, &mut worktree.cursor, value);
            } else {
                paste_single_line(&mut worktree.name, &mut worktree.cursor, value);
            }
            PasteOutcome::Taken
        },
        Surface::McpJsonEdit { editor, .. } => {
            editor.insert_text(value);
            PasteOutcome::Taken
        },
        Surface::ProviderSetup(setup) => {
            if !setup.api_key_auth {
                return PasteOutcome::Ignored;
            }
            paste_single_line(&mut setup.api_key, &mut setup.api_key_cursor, value);
            PasteOutcome::Taken
        },
        Surface::AgentWizard(wizard) => match wizard.step {
            AgentWizardStep::Name => {
                paste_single_line(&mut wizard.name, &mut wizard.cursor, value);
                PasteOutcome::Taken
            },
            AgentWizardStep::Description => {
                paste_single_line(&mut wizard.description, &mut wizard.cursor, value);
                PasteOutcome::Taken
            },
            AgentWizardStep::Prompt => {
                wizard.prompt.insert_text(value);
                PasteOutcome::Taken
            },
            _ => PasteOutcome::Ignored,
        },
        Surface::SettingInput { setting, input, .. } => {
            if is_number(&setting.kind) {
                let digits: String = keep_digits(value);
                paste_single_line(&mut input.value, &mut input.cursor, digits.as_str());
            } else {
                paste_single_line(&mut input.value, &mut input.cursor, value);
            }
            PasteOutcome::Taken
        },
        Surface::StatusLine(editor) => match &mut editor.mode {
            StatusLineEditorMode::Hex { input, cursor, .. } => {
                paste_single_line(input, cursor, value);
                PasteOutcome::Taken
            },
            _ => PasteOutcome::Ignored,
        },
        _ => PasteOutcome::Ignored,
    }
}

} // verus!
