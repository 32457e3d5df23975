//! What a key does on a surface.

use vstd::prelude::*;
use vstd::string::*;
use crate::agents::{
    control_enter, profiles_key, profiles_key_effect, skills_key, skills_key_effect, switch_key,
    switch_key_effect, AgentWizard, AgentWizardOutcome, AgentWizardStep, ProfilesStep, SkillWizard,
    SkillsStep,
};
use crate::app::{closes, same_but_surfaces, App, CloseStep};
use crate::control::{list_after, move_list, SurfaceKey};
use crate::interaction::{
    ApprovalChoice, PatternEdit, Permission, PermissionStep, PlanCompletion, PlanStep, Question,
    QuestionStep,
};
use crate::key::KeyCode;
use crate::list::VISIBLE_MENU_ITEMS;
use crate::mcp_control::{
    confirm_key, confirm_key_effect, mcp_add_scope_key, mcp_add_scope_key_effect, mcp_catalog_key,
    mcp_catalog_key_effect, mcp_field_key, mcp_field_key_effect, mcp_form_key, mcp_form_key_effect,
    mcp_mutation_key, mcp_mutation_key_effect, mcp_oauth_key, mcp_oauth_key_effect, mcp_server_key,
    mcp_server_key_effect, mcp_servers_key, mcp_servers_key_effect, mcp_tools_key,
    mcp_tools_key_effect, mcp_transport_key, mcp_transport_key_effect, package_setup_key,
    package_setup_key_effect, package_value_key, package_value_key_effect, AddScopeStep,
    ConfirmStep, FieldStep, ListStep, McpFormStep, McpOAuthStep, McpServerStep, McpServersStep,
    PackageSetupStep, TransportStep,
};
use crate::mcp_package::has_field;
use crate::multiline_input::editor_after;
use crate::pickers::{
    expanded_key, expanded_key_effect, indices_valid, paths_key, paths_key_effect, permissions_key,
    permissions_key_effect, usage_key, usage_key_effect, worktrees_key, worktrees_key_effect,
    Conversations, ConversationsStep, Help, HistoryStep, HistoryTree, PathsStep, PermissionsStep,
    UsageStep, WorktreeNew, WorktreeNewStep, WorktreesStep,
};
use crate::providers::{
    pick_key, pick_key_effect, AuthFlow, Models, ModelsStep, ProviderSetup, ProviderSetupStep,
    Providers, ProvidersStep, TextField, WebSearchPicker, WebSearchStep,
};
use crate::render_mcp::{
    mcp_mutation_detail_lines, mutation_details, McpOAuthCompletion, McpOAuthPrompt,
};
use crate::render_menus::{editor_capacity, multiline_content_capacity};
use crate::settings::{
    setting_choices_key, setting_choices_key_effect, setting_input_key, setting_input_key_effect,
    SettingStep, Settings, SettingsStep,
};
use crate::status_line::{StatusLineCatalog, StatusLineEditor, StatusLineEditorMode};
use crate::style::line_views;
use crate::supervised_work::{kill_key, kill_key_effect, BackgroundStep, BackgroundSurface};
use crate::surface::{ExpandedKind, Surface};
use crate::surface_layout::active_note;

verus! {

/// What a key depends on besides the surface.
#[derive(Debug)]
pub struct KeyContext {
    /// The user only looks on.
    pub observer: bool,
    /// The rows that a search leaves of the surface's rows.
    pub visible: Vec<usize>,
    /// How the user prefers to log in.
    pub preferred: Option<AuthFlow>,
    /// The names of the agents.
    pub names: Vec<String>,
    /// The number of sections of the settings.
    pub sections: usize,
    pub status_catalog: StatusLineCatalog,
    /// The columns and rows that are there for a surface.
    pub width: u16,
    pub viewport_rows: usize,
    /// The messages that fit in their picker.
    pub history_rows: usize,
    /// The rows of a preview or a body that are shown, and how far it can be
    /// scrolled.
    pub scroll_rows: usize,
    pub scroll_last: usize,
    /// The answer that a permission would be given.
    pub submission: ApprovalChoice,
    /// Whether the rule that a permission would set can be edited.
    pub rule_editable: bool,
    /// Which of the permission rules can be edited.
    pub editable: Vec<bool>,
    /// Whether the key scrolls the transcript to a message.
    pub scroll_to_message: bool,
}

/// What a key on a surface asks for.
#[derive(Debug)]
pub enum SurfaceStep {
    Stay,
    /// Open the list of providers; a model is chosen next, either in any case or where
    /// none is in use.
    OpenProviders { model_follows: bool },
    OpenModels,
    /// Whether what was written is complete.
    Written(bool),
    /// Whether what was written is refused.
    Refused(bool),
    /// The item that was chosen, if one was.
    Picked(Option<usize>),
    /// Whether the surface is done with.
    Done(bool),
    /// A key for the directory that is open.
    Directory,
    Question(QuestionStep),
    Permission(PermissionStep),
    Plan(PlanStep),
    Permissions(PermissionsStep),
    Usage(UsageStep),
    Confirm(ConfirmStep),
    Worktrees(WorktreesStep),
    WorktreeNew(WorktreeNewStep),
    WebSearch(WebSearchStep),
    Providers(ProvidersStep),
    ProviderSetup(ProviderSetupStep),
    Models(ModelsStep),
    Profiles(ProfilesStep),
    Skills(SkillsStep),
    AgentWizard(AgentWizardOutcome),
    McpServers(McpServersStep),
    McpCatalog(ListStep),
    McpServer(McpServerStep),
    McpOAuth(McpOAuthStep),
    PackageSetup(PackageSetupStep),
    Field(FieldStep),
    AddScope(AddScopeStep),
    Transport(TransportStep),
    McpForm(McpFormStep),
    Settings(SettingsStep),
    Setting(SettingStep),
    Background(BackgroundStep),
    Paths(PathsStep),
    History(HistoryStep),
    Conversations(ConversationsStep),
}

/// Whether a key can be handed to a surface: what the surface refers to is there, and
/// its items can be counted.
pub open spec fn takes_keys(surface: Surface, context: KeyContext) -> bool {
    match surface {
        Surface::Question(question) => question.valid(),
        Surface::Permissions { rows, list } => context.editable@.len() < usize::MAX,
        Surface::Worktrees { rows, list } => rows@.len() < usize::MAX,
        Surface::WebSearchPicker(picker) => picker.rows@.len() < usize::MAX,
        Surface::Providers(providers) => context.visible@.len() < usize::MAX && forall|i: int|
            0 <= i < context.visible@.len() ==> #[trigger] context.visible@[i]
                < providers.rows@.len(),
        Surface::Skills { rows, list } => rows@.len() <= usize::MAX - 2,
        Surface::McpServers { rows, list } => rows@.len() <= usize::MAX - 3,
        Surface::McpCatalog { rows, list } => rows@.len() < usize::MAX,
        Surface::McpPackageSetup { draft, selected } => draft.valid(),
        Surface::McpPackageValueEdit { draft, field, input } => draft.valid() && has_field(
            draft,
            field,
        ),
        Surface::StatusLine(editor) => editor.valid(context.status_catalog),
        Surface::Settings(settings) => settings.section < context.sections,
        Surface::Expanded { kind, header_rows, body_rows, scroll, viewport_rows } => {
            context.scroll_last + context.scroll_rows <= usize::MAX
        },
        Surface::HistoryTree(tree) => indices_valid(tree.rows@, context.visible@),
        _ => true,
    }
}

/// Whether a surface sets something up.
pub open spec fn sets_up(surface: Surface) -> bool {
    ||| surface is Worktrees
    ||| surface is WorktreeNew
    ||| surface is WebSearchPicker
    ||| surface is WebSearchSetup
    ||| surface is Providers
    ||| surface is ProviderSetup
    ||| surface is Models
    ||| surface is Effort
    ||| surface is Profiles
    ||| surface is Skills
    ||| surface is SkillDeleteConfirm
    ||| surface is SkillWizard
    ||| surface is AgentWizard
    ||| surface is AgentEdit
}

/// Whether a surface is about servers.
pub open spec fn is_of_servers(surface: Surface) -> bool {
    ||| surface is McpServers
    ||| surface is McpCatalog
    ||| surface is McpServer
    ||| surface is McpOAuth
    ||| surface is McpPackageSetup
    ||| surface is McpPackageValueEdit
    ||| surface is McpTools
    ||| surface is McpRemoveConfirm
    ||| surface is McpAddScope
    ||| surface is McpTransport
    ||| surface is McpForm
    ||| surface is McpFieldEdit
    ||| surface is McpJsonEdit
    ||| surface is McpMutationPreview
}

/// Whether a surface shows settings, work, a view or a picker.
pub open spec fn is_view(surface: Surface) -> bool {
    ||| surface is StatusLine
    ||| surface is Settings
    ||| surface is SettingChoices
    ||| surface is SettingInput
    ||| surface is SupervisedWork
    ||| surface is KillSupervisedWork
    ||| surface is Expanded
    ||| surface is Paths
    ||| surface is HistoryTree
    ||| surface is Conversations
    ||| surface is Help
}

/// What a key does to a notice or a dialog, and what it asks for.
pub open spec fn dialog_keyed(
    before: Surface,
    after: Surface,
    key: SurfaceKey,
    context: KeyContext,
    step: SurfaceStep,
) -> bool {
    match (before, after) {
        (Surface::Onboarding, Surface::Onboarding) => if key.submit {
            step == (SurfaceStep::OpenProviders { model_follows: true })
        } else {
            step is Stay
        },
        (Surface::ProvidersRequired, Surface::ProvidersRequired) => if key.submit {
            step == (SurfaceStep::OpenProviders { model_follows: false })
        } else {
            step is Stay
        },
        (Surface::ModelsUnavailable, Surface::ModelsUnavailable) => if key.submit {
            step == (SurfaceStep::OpenProviders { model_follows: false })
        } else {
            step is Stay
        },
        (Surface::ModelRequired, Surface::ModelRequired) => if key.submit {
            step is OpenModels
        } else {
            step is Stay
        },
        (Surface::Question(question), Surface::Question(answered)) => step matches SurfaceStep::Question(
            outcome,
        ) && if question.editing_note {
            Question::note_key_effect(question, answered, key, context.width, outcome)
        } else {
            Question::menu_key_effect(question, answered, key.code, outcome)
        },
        (
            Surface::Permission { prompt, request, choices, answers },
            Surface::Permission {
                prompt: new_prompt,
                request: new_request,
                choices: new_choices,
                answers: new_answers,
            },
        ) => step matches SurfaceStep::Permission(outcome) && new_request == request && new_choices
            == choices && new_answers == answers && if prompt.editing_note {
            Permission::note_key_effect(prompt, new_prompt, key, context.width, outcome)
        } else {
            Permission::menu_key_effect(
                prompt,
                new_prompt,
                key,
                context.scroll_rows,
                context.scroll_last,
                answers@,
                context.submission,
                context.rule_editable,
                outcome,
            )
        },
        (
            Surface::PlanCompletion { plan, modes, colors, model, context_percent },
            Surface::PlanCompletion {
                plan: new_plan,
                modes: new_modes,
                colors: new_colors,
                model: new_model,
                context_percent: new_percent,
            },
        ) => step matches SurfaceStep::Plan(outcome) && new_modes == modes && new_colors == colors
            && new_model == model && new_percent == context_percent && if plan.editing_note {
            PlanCompletion::note_key_effect(plan, new_plan, key, context.width, outcome)
        } else {
            PlanCompletion::menu_key_effect(plan, new_plan, key, modes.len(), outcome)
        },
        (
            Surface::PermissionRuleEdit { edit, scope, rule },
            Surface::PermissionRuleEdit { edit: new_edit, scope: new_scope, rule: new_rule },
        ) => step matches SurfaceStep::Written(done) && new_scope == scope && new_rule == rule
            && PatternEdit::key_effect(edit, new_edit, key, done),
        (
            Surface::PersistentPermissionEdit { edit, scope, rule },
            Surface::PersistentPermissionEdit { edit: new_edit, scope: new_scope, rule: new_rule },
        ) => step matches SurfaceStep::Written(done) && new_scope == scope && new_rule == rule
            && PatternEdit::key_effect(edit, new_edit, key, done),
        (
            Surface::Permissions { rows, list },
            Surface::Permissions { rows: new_rows, list: new_list },
        ) => step matches SurfaceStep::Permissions(outcome) && new_rows == rows
            && permissions_key_effect(list, new_list, context.editable@, key, outcome),
        (
            Surface::Usage { overview, list },
            Surface::Usage { overview: new_overview, list: new_list },
        ) => step matches SurfaceStep::Usage(outcome) && new_overview == overview
            && usage_key_effect(list, new_list, key, outcome),
        (
            Surface::UsageBreakdown { kind, rows, list },
            Surface::UsageBreakdown { kind: new_kind, rows: new_rows, list: new_list },
        ) => step is Stay && new_kind == kind && new_rows == rows && new_list == list_after(
            list,
            rows@.len() as int,
            VISIBLE_MENU_ITEMS as int,
            key.code,
        ),
        (
            Surface::UsageResetConfirm { selected },
            Surface::UsageResetConfirm { selected: new_selected },
        ) => step matches SurfaceStep::Confirm(outcome) && switch_key_effect(
            selected,
            new_selected,
            key.code,
            outcome,
        ),
        (Surface::Rename(field), Surface::Rename(new_field)) => step matches SurfaceStep::Written(
            done,
        ) && TextField::key_effect(field, new_field, key, done),
        _ => false,
    }
}

/// What a key does to a surface that sets something up, and what it asks for.
pub open spec fn setup_keyed(
    before: Surface,
    after: Surface,
    key: SurfaceKey,
    context: KeyContext,
    any_enabled: bool,
    step: SurfaceStep,
) -> bool {
    match (before, after) {
        (
            Surface::Worktrees { rows, list },
            Surface::Worktrees { rows: new_rows, list: new_list },
        ) => step matches SurfaceStep::Worktrees(outcome) && new_rows == rows
            && worktrees_key_effect(list, new_list, rows.len(), key.code, outcome),
        (Surface::WorktreeNew(worktree), Surface::WorktreeNew(new_worktree)) => {
            step matches SurfaceStep::WorktreeNew(outcome) && WorktreeNew::key_effect(
                worktree,
                new_worktree,
                key,
                outcome,
            )
        },
        (Surface::WebSearchPicker(picker), Surface::WebSearchPicker(new_picker)) => {
            step matches SurfaceStep::WebSearch(outcome) && WebSearchPicker::key_effect(
                picker,
                new_picker,
                key,
                outcome,
            )
        },
        (
            Surface::WebSearchSetup { provider, label, field },
            Surface::WebSearchSetup { provider: new_provider, label: new_label, field: new_field },
        ) => step matches SurfaceStep::Written(done) && new_provider == provider && new_label
            == label && TextField::key_effect(field, new_field, key, done),
        (Surface::Providers(providers), Surface::Providers(new_providers)) => {
            step matches SurfaceStep::Providers(outcome) && Providers::key_effect(
                providers,
                new_providers,
                key,
                context.visible@,
                any_enabled,
                outcome,
            )
        },
        (Surface::ProviderSetup(setup), Surface::ProviderSetup(new_setup)) => {
            step matches SurfaceStep::ProviderSetup(outcome) && ProviderSetup::key_effect(
                setup,
                new_setup,
                key,
                context.preferred,
                outcome,
            )
        },
        (
            Surface::Models { models, setting },
            Surface::Models { models: new_models, setting: new_setting },
        ) => step matches SurfaceStep::Models(outcome) && new_setting == setting
            && Models::key_effect(models, new_models, key, context.visible@, outcome),
        (
            Surface::Effort { model, rows, toggle, list },
            Surface::Effort {
                model: new_model,
                rows: new_rows,
                toggle: new_toggle,
                list: new_list,
            },
        ) => step matches SurfaceStep::Picked(picked) && new_model == model && new_rows == rows
            && new_toggle == toggle && pick_key_effect(
            list,
            new_list,
            rows.len(),
            key.code,
            picked,
        ),
        (
            Surface::Profiles { kind, rows, list },
            Surface::Profiles { kind: new_kind, rows: new_rows, list: new_list },
        ) => step matches SurfaceStep::Profiles(outcome) && new_kind == kind && new_rows == rows
            && profiles_key_effect(kind, rows@, list, new_list, key, outcome),
        (Surface::Skills { rows, list }, Surface::Skills { rows: new_rows, list: new_list }) => {
            step matches SurfaceStep::Skills(outcome) && new_rows == rows && skills_key_effect(
                list,
                new_list,
                rows@,
                key,
                outcome,
            )
        },
        (
            Surface::SkillDeleteConfirm { name, selected },
            Surface::SkillDeleteConfirm { name: new_name, selected: new_selected },
        ) => step matches SurfaceStep::Confirm(outcome) && new_name == name && switch_key_effect(
            selected,
            new_selected,
            key.code,
            outcome,
        ),
        (Surface::SkillWizard(wizard), Surface::SkillWizard(new_wizard)) => {
            step matches SurfaceStep::Done(done) && SkillWizard::key_effect(
                wizard,
                new_wizard,
                key.key,
                context.width,
                editor_capacity(context.viewport_rows as int) as usize,
                done,
            )
        },
        (Surface::AgentWizard(wizard), Surface::AgentWizard(new_wizard)) => {
            step matches SurfaceStep::AgentWizard(outcome) && match wizard.step {
                AgentWizardStep::Parent => AgentWizard::parent_key_effect(
                    wizard,
                    new_wizard,
                    key.code,
                    outcome,
                ),
                AgentWizardStep::Prompt => AgentWizard::prompt_key_effect(
                    wizard,
                    new_wizard,
                    key,
                    context.width,
                    editor_capacity(context.viewport_rows as int) as usize,
                    outcome,
                ),
                AgentWizardStep::Availability => AgentWizard::availability_key_effect(
                    wizard,
                    new_wizard,
                    key.code,
                    outcome,
                ),
                _ => AgentWizard::text_key_effect(
                    wizard,
                    new_wizard,
                    key,
                    context.names@,
                    outcome,
                ),
            }
        },
        (
            Surface::AgentEdit { name, list },
            Surface::AgentEdit { name: new_name, list: new_list },
        ) => step matches SurfaceStep::Picked(picked) && new_name == name && pick_key_effect(
            list,
            new_list,
            5,
            key.code,
            picked,
        ),
        _ => false,
    }
}

/// What a key does to a surface of servers, and what it asks for.
pub open spec fn server_keyed(
    before: Surface,
    after: Surface,
    key: SurfaceKey,
    context: KeyContext,
    step: SurfaceStep,
) -> bool {
    match (before, after) {
        (
            Surface::McpServers { rows, list },
            Surface::McpServers { rows: new_rows, list: new_list },
        ) => step matches SurfaceStep::McpServers(outcome) && new_rows == rows
            && mcp_servers_key_effect(list, new_list, rows.len(), key.code, outcome),
        (
            Surface::McpCatalog { rows, list },
            Surface::McpCatalog { rows: new_rows, list: new_list },
        ) => step matches SurfaceStep::McpCatalog(outcome) && new_rows == rows
            && mcp_catalog_key_effect(list, new_list, rows.len(), key.code, outcome),
        (
            Surface::McpServer { server, selected, oauth_connected },
            Surface::McpServer {
                server: new_server,
                selected: new_selected,
                oauth_connected: new_connected,
            },
        ) => step matches SurfaceStep::McpServer(outcome) && new_server == server && new_connected
            == oauth_connected && mcp_server_key_effect(
            selected,
            new_selected,
            server.over_http,
            server.packaged,
            oauth_connected,
            key.code,
            outcome,
        ),
        (
            Surface::McpOAuth { server, label, prompt, completion },
            Surface::McpOAuth {
                server: new_server,
                label: new_label,
                prompt: new_prompt,
                completion: new_completion,
            },
        ) => step matches SurfaceStep::McpOAuth(outcome) && after == before
            && mcp_oauth_key_effect(
            key,
            completion is Connected,
            prompt is Device,
            outcome,
        ),
        (
            Surface::McpPackageSetup { draft, selected },
            Surface::McpPackageSetup { draft: new_draft, selected: new_selected },
        ) => step matches SurfaceStep::PackageSetup(outcome) && package_setup_key_effect(
            draft,
            new_draft,
            selected,
            new_selected,
            key.code,
            outcome,
        ),
        (
            Surface::McpPackageValueEdit { draft, field, input },
            Surface::McpPackageValueEdit { draft: new_draft, field: new_field, input: new_input },
        ) => step matches SurfaceStep::Field(outcome) && new_field == field
            && package_value_key_effect(
            draft,
            new_draft,
            field,
            input.value,
            new_input.value,
            input.cursor,
            new_input.cursor,
            key,
            outcome,
        ),
        (Surface::McpTools(tools), Surface::McpTools(new_tools)) => {
            step matches SurfaceStep::Done(done) && new_tools.server == tools.server
                && new_tools.tools == tools.tools && new_tools.loading == tools.loading
                && new_tools.failure == tools.failure && mcp_tools_key_effect(
                tools.list,
                new_tools.list,
                tools.tools.len(),
                key.code,
                done,
            )
        },
        (
            Surface::McpRemoveConfirm { server, selected },
            Surface::McpRemoveConfirm { server: new_server, selected: new_selected },
        ) => step matches SurfaceStep::Confirm(outcome) && new_server == server
            && confirm_key_effect(selected, new_selected, key.code, outcome),
        (
            Surface::McpAddScope { selected },
            Surface::McpAddScope { selected: new_selected },
        ) => step matches SurfaceStep::AddScope(outcome) && mcp_add_scope_key_effect(
            selected,
            new_selected,
            key.code,
            outcome,
        ),
        (
            Surface::McpTransport { scope, selected },
            Surface::McpTransport { scope: new_scope, selected: new_selected },
        ) => step matches SurfaceStep::Transport(outcome) && new_scope == scope
            && mcp_transport_key_effect(selected, new_selected, key.code, outcome),
        (
            Surface::McpForm { draft, list },
            Surface::McpForm { draft: new_draft, list: new_list },
        ) => step matches SurfaceStep::McpForm(outcome) && mcp_form_key_effect(
            draft,
            new_draft,
            list,
            new_list,
            key.code,
            outcome,
        ),
        (
            Surface::McpFieldEdit { draft, field, input, tokens },
            Surface::McpFieldEdit {
                draft: new_draft,
                field: new_field,
                input: new_input,
                tokens: new_tokens,
            },
        ) => step matches SurfaceStep::Field(outcome) && new_field == field && new_tokens == tokens
            && mcp_field_key_effect(
            draft,
            new_draft,
            field,
            input.value,
            new_input.value,
            input.cursor,
            new_input.cursor,
            key,
            outcome,
        ),
        (
            Surface::McpJsonEdit { location, separate_name, editor, tokens },
            Surface::McpJsonEdit {
                location: new_location,
                separate_name: new_name,
                editor: new_editor,
                tokens: new_tokens,
            },
        ) => new_location == location && new_name == separate_name && new_tokens == tokens && step
            == SurfaceStep::Written(control_enter(key.key)) && new_editor@ == if control_enter(
            key.key,
        ) {
            editor@
        } else {
            editor_after(
                editor@,
                key.key,
                context.width as int,
                editor_capacity(context.viewport_rows as int),
            )
        },
        (
            Surface::McpMutationPreview { preview, list, details },
            Surface::McpMutationPreview {
                preview: new_preview,
                list: new_list,
                details: new_details,
            },
        ) => step matches SurfaceStep::Confirm(outcome) && new_preview == preview
            && mcp_mutation_key_effect(
            list,
            new_list,
            details,
            new_details,
            mutation_details(preview).len() as usize,
            key.code,
            outcome,
        ),
        _ => false,
    }
}

/// What a key does to settings, work, a view or a picker, and what it asks for.
pub open spec fn view_keyed(
    before: Surface,
    after: Surface,
    key: SurfaceKey,
    context: KeyContext,
    step: SurfaceStep,
) -> bool {
    match (before, after) {
        (Surface::StatusLine(editor), Surface::StatusLine(new_editor)) => match editor.mode {
            StatusLineEditorMode::Modules => step is Stay && StatusLineEditor::modules_key_effect(
                editor,
                new_editor,
                key,
                context.status_catalog,
            ),
            StatusLineEditorMode::Colors { module, list } => step is Stay
                && StatusLineEditor::colors_key_effect(
                editor,
                new_editor,
                key,
                context.status_catalog,
            ),
            StatusLineEditorMode::Hex { module, input, cursor } => {
                step matches SurfaceStep::Refused(refused) && StatusLineEditor::hex_key_effect(
                    editor,
                    new_editor,
                    key,
                    refused,
                )
            },
        },
        (Surface::Settings(settings), Surface::Settings(new_settings)) => {
            step matches SurfaceStep::Settings(outcome) && Settings::key_effect(
                settings,
                new_settings,
                key,
                context.visible@,
                context.sections,
                outcome,
            )
        },
        (
            Surface::SettingChoices { setting, choices, list, custom },
            Surface::SettingChoices {
                setting: new_setting,
                choices: new_choices,
                list: new_list,
                custom: new_custom,
            },
        ) => step matches SurfaceStep::Setting(outcome) && new_setting == setting && new_choices
            == choices && new_custom == custom && setting_choices_key_effect(
            setting.kind,
            choices@,
            list,
            new_list,
            custom,
            key.code,
            outcome,
        ),
        (
            Surface::SettingInput { setting, input, tokens },
            Surface::SettingInput { setting: new_setting, input: new_input, tokens: new_tokens },
        ) => step matches SurfaceStep::Setting(outcome) && new_setting == setting && new_tokens
            == tokens && setting_input_key_effect(
            setting.kind,
            input.value,
            new_input.value,
            input.cursor,
            new_input.cursor,
            key,
            outcome,
        ),
        (Surface::SupervisedWork(work), Surface::SupervisedWork(new_work)) => {
            step matches SurfaceStep::Background(outcome) && BackgroundSurface::key_effect(
                work,
                new_work,
                key,
                context.observer,
                outcome,
            )
        },
        (
            Surface::KillSupervisedWork { target, selected },
            Surface::KillSupervisedWork { target: new_target, selected: new_selected },
        ) => step matches SurfaceStep::Confirm(outcome) && new_target == target
            && kill_key_effect(selected, new_selected, key.code, outcome),
        (
            Surface::Expanded { kind, header_rows, body_rows, scroll, viewport_rows },
            Surface::Expanded {
                kind: new_kind,
                header_rows: new_header,
                body_rows: new_body,
                scroll: new_scroll,
                viewport_rows: new_viewport,
            },
        ) => {
            &&& new_kind == kind
            &&& new_header == header_rows
            &&& new_body == body_rows
            &&& new_viewport == viewport_rows
            &&& if kind is Directory {
                new_scroll == scroll && step is Directory
            } else {
                step is Stay && expanded_key_effect(
                    scroll,
                    context.scroll_last,
                    context.scroll_rows,
                    key.code,
                    new_scroll,
                )
            }
        },
        (
            Surface::Paths { rows, list, token_start },
            Surface::Paths { rows: new_rows, list: new_list, token_start: new_start },
        ) => step matches SurfaceStep::Paths(outcome) && new_rows == rows && new_start
            == token_start && paths_key_effect(list, new_list, rows.len(), key.code, outcome),
        (Surface::HistoryTree(tree), Surface::HistoryTree(new_tree)) => {
            step matches SurfaceStep::History(outcome) && HistoryTree::key_effect(
                tree,
                new_tree,
                key,
                context.scroll_to_message,
                context.visible@,
                context.history_rows,
                outcome,
            )
        },
        (Surface::Conversations(picker), Surface::Conversations(new_picker)) => {
            step matches SurfaceStep::Conversations(outcome) && Conversations::key_effect(
                picker,
                new_picker,
                key,
                context.viewport_rows,
                outcome,
            )
        },
        (Surface::Help(help), Surface::Help(new_help)) => step is Stay && Help::key_effect(
            help,
            new_help,
            key.code,
        ),
        _ => false,
    }
}

/// What a key does to a surface, and what it asks for. `any_enabled` says whether any
/// provider is enabled.
pub open spec fn keyed(
    before: Surface,
    after: Surface,
    key: SurfaceKey,
    context: KeyContext,
    any_enabled: bool,
    step: SurfaceStep,
) -> bool {
    if sets_up(before) {
        setup_keyed(before, after, key, context, any_enabled, step)
    } else if is_of_servers(before) {
        server_keyed(before, after, key, context, step)
    } else if is_view(before) {
        view_keyed(before, after, key, context, step)
    } else {
        dialog_keyed(before, after, key, context, step)
    }
}

/// Hands a key to a notice or a dialog.
#[verifier::rlimit(40)]
fn dialog_key(surface: &mut Surface, key: SurfaceKey, context: &KeyContext) -> (step: SurfaceStep)
    requires
        takes_keys(*old(surface), *context),
        !sets_up(*old(surface)),
        !is_of_servers(*old(surface)),
        !is_view(*old(surface)),
    ensures
        dialog_keyed(*old(surface), *final(surface), key, *context, step),
{
    match surface {
        Surface::Onboarding => if key.submit {
            SurfaceStep::OpenProviders { model_follows: true }
        } else {
            SurfaceStep::Stay
        },
        Surface::ProvidersRequired => if key.submit {
            SurfaceStep::OpenProviders { model_follows: false }
        } else {
            SurfaceStep::Stay
        },
        Surface::ModelsUnavailable => if key.submit {
            SurfaceStep::OpenProviders { model_follows: false }
        } else {
            SurfaceStep::Stay
        },
        Surface::ModelRequired => if key.submit {
            SurfaceStep::OpenModels
        } else {
            SurfaceStep::Stay
        },
        Surface::Question(question) => if question.editing_note {
            SurfaceStep::Question(question.note_key(key, context.width))
        } else {
            SurfaceStep::Question(question.menu_key(key.code))
        },
        Surface::Permission { prompt, answers, .. } => if prompt.editing_note {
            SurfaceStep::Permission(prompt.note_key(key, context.width))
        } else {
            SurfaceStep::Permission(
                prompt.menu_key(
                    key,
                    context.scroll_rows,
                    context.scroll_last,
                    answers.as_slice(),
                    context.submission,
                    context.rule_editable,
                ),
            )
        },
        Surface::PlanCompletion { plan, modes, .. } => if plan.editing_note {
            SurfaceStep::Plan(plan.note_key(key, context.width))
        } else {
            SurfaceStep::Plan(plan.menu_key(key, modes.len()))
        },
        Surface::PermissionRuleEdit { edit, .. } => SurfaceStep::Written(edit.key(key)),
        Surface::PersistentPermissionEdit { edit, .. } => SurfaceStep::Written(edit.key(key)),
        Surface::Permissions { list, .. } => SurfaceStep::Permissions(
            permissions_key(list, context.editable.as_slice(), key),
        ),
        Surface::Usage { list, .. } => SurfaceStep::Usage(usage_key(list, key)),
        Surface::UsageBreakdown { rows, list, .. } => {
            move_list(list, rows.len(), VISIBLE_MENU_ITEMS, key.code);
            SurfaceStep::Stay
        },
        Surface::UsageResetConfirm { selected } => SurfaceStep::Confirm(
            switch_key(selected, key.code),
        ),
        Surface::Rename(field) => SurfaceStep::Written(field.key(key)),
        _ => SurfaceStep::Stay,
    }
}

/// Hands a key to a surface that sets something up.
#[verifier::rlimit(40)]
fn setup_key(
    surface: &mut Surface,
    key: SurfaceKey,
    context: &KeyContext,
    any_enabled: bool,
) -> (step: SurfaceStep)
    requires
        takes_keys(*old(surface), *context),
        sets_up(*old(surface)),
    ensures
        setup_keyed(*old(surface), *final(surface), key, *context, any_enabled, step),
{
    match surface {
        Surface::Worktrees { rows, list } => SurfaceStep::Worktrees(
            worktrees_key(list, rows.len(), key.code),
        ),
        Surface::WorktreeNew(worktree) => SurfaceStep::WorktreeNew(worktree.key(key)),
        Surface::WebSearchPicker(picker) => SurfaceStep::WebSearch(picker.key(key)),
        Surface::WebSearchSetup { field, .. } => SurfaceStep::Written(field.key(key)),
        Surface::Providers(providers) => SurfaceStep::Providers(
            providers.key(key, context.visible.as_slice(), any_enabled),
        ),
        Surface::ProviderSetup(setup) => SurfaceStep::ProviderSetup(
            setup.key(key, context.preferred),
        ),
        Surface::Models { models, .. } => SurfaceStep::Models(
            models.key(key, context.visible.as_slice()),
        ),
        Surface::Effort { rows, list, .. } => SurfaceStep::Picked(
            pick_key(list, rows.len(), key.code),
        ),
        Surface::Profiles { kind, rows, list } => SurfaceStep::Profiles(
            profiles_key(*kind, rows.as_slice(), list, key),
        ),
        Surface::Skills { rows, list } => SurfaceStep::Skills(
            skills_key(list, rows.as_slice(), key),
        ),
        Surface::SkillDeleteConfirm { selected, .. } => SurfaceStep::Confirm(
            switch_key(selected, key.code),
        ),
        Surface::SkillWizard(wizard) => SurfaceStep::Done(
            wizard.key(
                key.key,
                context.width,
                multiline_content_capacity(context.viewport_rows),
            ),
        ),
        Surface::AgentWizard(wizard) => SurfaceStep::AgentWizard(
            match wizard.step {
                AgentWizardStep::Parent => wizard.parent_key(key.code),
                AgentWizardStep::Prompt => wizard.prompt_key(
                    key,
                    context.width,
                    multiline_content_capacity(context.viewport_rows),
                ),
                AgentWizardStep::Availability => wizard.availability_key(key.code),
                _ => wizard.text_key(key, context.names.as_slice()),
            },
        ),
        Surface::AgentEdit { list, .. } => SurfaceStep::Picked(pick_key(list, 5, key.code)),
        _ => SurfaceStep::Stay,
    }
}

/// Hands a key to a surface of servers.
#[verifier::rlimit(40)]
fn server_key(surface: &mut Surface, key: SurfaceKey, context: &KeyContext) -> (step: SurfaceStep)
    requires
        takes_keys(*old(surface), *context),
        is_of_servers(*old(surface)),
    ensures
        server_keyed(*old(surface), *final(surface), key, *context, step),
{
    match surface {
        Surface::McpServers { rows, list } => SurfaceStep::McpServers(
            mcp_servers_key(list, rows.len(), key.code),
        ),
        Surface::McpCatalog { rows, list } => SurfaceStep::McpCatalog(
            mcp_catalog_key(list, rows.len(), key.code),
        ),
        Surface::McpServer { server, selected, oauth_connected } => SurfaceStep::McpServer(
            mcp_server_key(
                selected,
                server.over_http,
                server.packaged,
                *oauth_connected,
                key.code,
            ),
        ),
        Surface::McpOAuth { prompt, completion, .. } => {
            let connected: bool = match completion {
                McpOAuthCompletion::Connected => true,
                _ => false,
            };
            let device: bool = match prompt {
                McpOAuthPrompt::Device { .. } => true,
                McpOAuthPrompt::Browser { .. } => false,
            };
            SurfaceStep::McpOAuth(mcp_oauth_key(key, connected, device))
        },
        Surface::McpPackageSetup { draft, selected } => SurfaceStep::PackageSetup(
            package_setup_key(draft, selected, key.code),
        ),
        Surface::McpPackageValueEdit { draft, field, input } => SurfaceStep::Field(
            package_value_key(draft, *field, &mut input.value, &mut input.cursor, key),
        ),
        Surface::McpTools(tools) => {
            let count: usize = tools.tools.len();
            SurfaceStep::Done(mcp_tools_key(&mut tools.list, count, key.code))
        },
        Surface::McpRemoveConfirm { selected, .. } => SurfaceStep::Confirm(
            confirm_key(selected, key.code),
        ),
        Surface::McpAddScope { selected } => SurfaceStep::AddScope(
            mcp_add_scope_key(selected, key.code),
        ),
        Surface::McpTransport { selected, .. } => SurfaceStep::Transport(
            mcp_transport_key(selected, key.code),
        ),
        Surface::McpForm { draft, list } => SurfaceStep::McpForm(
            mcp_form_key(draft, list, key.code),
        ),
        Surface::McpFieldEdit { draft, field, input, .. } => SurfaceStep::Field(
            mcp_field_key(draft, *field, &mut input.value, &mut input.cursor, key),
        ),
        Surface::McpJsonEdit { editor, .. } => {
            if key.key.code == KeyCode::Enter && key.key.modifiers.control {
                SurfaceStep::Written(true)
            } else {
                editor.handle_key_in_view(
                    key.key,
                    context.width,
                    multiline_content_capacity(context.viewport_rows),
                );
                SurfaceStep::Written(false)
            }
        },
        Surface::McpMutationPreview { preview, list, details } => {
            let lines = mcp_mutation_detail_lines(preview);
            let rows: usize = lines.len();
            proof {
                assert(line_views(lines@).len() == rows);
            }
            SurfaceStep::Confirm(mcp_mutation_key(list, details, rows, key.code))
        },
        _ => SurfaceStep::Stay,
    }
}

/// Hands a key to settings, work, a view or a picker.
#[verifier::rlimit(40)]
fn view_key(surface: &mut Surface, key: SurfaceKey, context: &KeyContext) -> (step: SurfaceStep)
    requires
        takes_keys(*old(surface), *context),
        is_view(*old(surface)),
    ensures
        view_keyed(*old(surface), *final(surface), key, *context, step),
{
    match surface {
        Surface::StatusLine(editor) => {
            let mode: usize = match &editor.mode {
                StatusLineEditorMode::Modules => 0,
                StatusLineEditorMode::Colors { .. } => 1,
                StatusLineEditorMode::Hex { .. } => 2,
            };
            if mode == 0 {
                editor.modules_key(key, &context.status_catalog);
                SurfaceStep::Stay
            } else if mode == 1 {
                editor.colors_key(key, &context.status_catalog);
                SurfaceStep::Stay
            } else {
                SurfaceStep::Refused(editor.hex_key(key))
            }
        },
        Surface::Settings(settings) => SurfaceStep::Settings(
            settings.key(key, context.visible.as_slice(), context.sections),
        ),
        Surface::SettingChoices { setting, choices, list, custom } => SurfaceStep::Setting(
            setting_choices_key(&setting.kind, choices, list, custom, key.code),
        ),
        Surface::SettingInput { setting, input, .. } => SurfaceStep::Setting(
            setting_input_key(&setting.kind, &mut input.value, &mut input.cursor, key),
        ),
        Surface::SupervisedWork(work) => SurfaceStep::Background(work.key(key, context.observer)),
        Surface::KillSupervisedWork { selected, .. } => SurfaceStep::Confirm(
            kill_key(selected, key.code),
        ),
        Surface::Expanded { kind, scroll, .. } => {
            let directory: bool = match kind {
                ExpandedKind::Directory { .. } => true,
                _ => false,
            };
            if directory {
                SurfaceStep::Directory
            } else {
                *scroll = expanded_key(
                    *scroll,
                    context.scroll_last,
                    context.scroll_rows,
                    key.code,
                );
                SurfaceStep::Stay
            }
        },
        Surface::Paths { rows, list, .. } => SurfaceStep::Paths(
            paths_key(list, rows.len(), key.code),
        ),
        Surface::HistoryTree(tree) => SurfaceStep::History(
            tree.key(
                key,
                context.scroll_to_message,
                context.visible.as_slice(),
                context.history_rows,
            ),
        ),
        Surface::Conversations(picker) => SurfaceStep::Conversations(
            picker.key(key, context.viewport_rows),
        ),
        Surface::Help(help) => {
            help.key(key.code);
            SurfaceStep::Stay
        },
        _ => SurfaceStep::Stay,
    }
}

/// Hands a key to a surface. `any_enabled` says whether any provider is enabled.
pub fn surface_key(
    surface: &mut Surface,
    key: SurfaceKey,
    context: &KeyContext,
    any_enabled: bool,
) -> (step: SurfaceStep)
    requires
        takes_keys(*old(surface), *context),
    ensures
        keyed(*old(surface), *final(surface), key, *context, any_enabled, step),
{
    match surface {
        Surface::Worktrees { .. }
        | Surface::WorktreeNew(_)
        | Surface::WebSearchPicker(_)
        | Surface::WebSearchSetup { .. }
        | Surface::Providers(_)
        | Surface::ProviderSetup(_)
        | Surface::Models { .. }
        | Surface::Effort { .. }
        | Surface::Profiles { .. }
        | Surface::Skills { .. }
        | Surface::SkillDeleteConfirm { .. }
        | Surface::SkillWizard(_)
        | Surface::AgentWizard(_)
        | Surface::AgentEdit { .. } => setup_key(surface, key, context, any_enabled),
        Surface::McpServers { .. }
        | Surface::McpCatalog { .. }
        | Surface::McpServer { .. }
        | Surface::McpOAuth { .. }
        | Surface::McpPackageSetup { .. }
        | Surface::McpPackageValueEdit { .. }
        | Surface::McpTools(_)
        | Surface::McpRemoveConfirm { .. }
        | Surface::McpAddScope { .. }
        | Surface::McpTransport { .. }
        | Surface::McpForm { .. }
        | Surface::McpFieldEdit { .. }
        | Surface::McpJsonEdit { .. }
        | Surface::McpMutationPreview { .. } => server_key(surface, key, context),
        Surface::StatusLine(_)
        | Surface::Settings(_)
        | Surface::SettingChoices { .. }
        | Surface::SettingInput { .. }
        | Surface::SupervisedWork(_)
        | Surface::KillSupervisedWork { .. }
        | Surface::Expanded { .. }
        | Surface::Paths { .. }
        | Surface::HistoryTree(_)
        | Surface::Conversations(_)
        | Surface::Help(_) => view_key(surface, key, context),
        _ => dialog_key(surface, key, context),
    }
}

/// What a key asks for.
#[derive(Debug)]
pub enum KeyStep {
    /// No surface is open, or the one on top was closed without further ado.
    Nothing,
    Close(CloseStep),
    Surface(SurfaceStep),
}

/// Whether a surface is an expanded view that `Enter` closes.
pub open spec fn submit_closes(surface: Surface) -> bool {
    match surface {
        Surface::Expanded { kind, header_rows, body_rows, scroll, viewport_rows } => !(kind is Directory),
        _ => false,
    }
}

/// The request that waits once a key was handled: the one whose question was answered or
/// cancelled comes again should the answer not get through.
pub open spec fn pending_after(app: App, step: KeyStep) -> Option<u128> {
    match step {
        KeyStep::Close(CloseStep::CancelQuestion(question)) => Some(question.request),
        KeyStep::Surface(SurfaceStep::Question(QuestionStep::Respond)) => match app.surfaces@.last() {
            Surface::Question(question) => Some(question.request),
            _ => app.pending_interaction,
        },
        _ => app.pending_interaction,
    }
}

/// What a key does to the open surfaces. The surface on top takes it, unless the key
/// closes the surface; an observer loses a surface that is not `allowed`. What was
/// clicked last is forgotten.
pub open spec fn key_handled(
    app: App,
    after: App,
    key: SurfaceKey,
    context: KeyContext,
    allowed: bool,
    step: KeyStep,
) -> bool {
    let before = app.surfaces@;
    let surfaces = after.surfaces@;
    &&& after.last_picker_click is None
    &&& after.pending_interaction == pending_after(app, step)
    &&& same_but_surfaces(
        after,
        App {
            last_picker_click: None,
            pending_interaction: after.pending_interaction,
            ..app
        },
    )
    &&& if before.len() == 0 {
        step is Nothing && surfaces == before
    } else if app.observer && !allowed {
        step is Nothing && surfaces == before.drop_last()
    } else if key.close_surface && active_note(before.last()) is None {
        step matches KeyStep::Close(closing) && closes(
            before.last(),
            before.drop_last(),
            surfaces,
            closing,
            app.onboarding,
        )
    } else if key.submit && submit_closes(before.last()) {
        step is Nothing && surfaces == before.drop_last()
    } else {
        step matches KeyStep::Surface(outcome) && surfaces.len() == before.len()
            && surfaces.drop_last() == before.drop_last() && keyed(
            before.last(),
            surfaces.last(),
            key,
            context,
            app.enabled_providers@ != Set::<Seq<char>>::empty(),
            outcome,
        )
    }
}

/// Hands a key to the surface on top. One that closes surfaces closes it, unless a
/// note is written; an observer loses a surface that is not `allowed`.
pub fn handle_surface_key(app: &mut App, key: SurfaceKey, context: &KeyContext, allowed: bool) -> (step:
    KeyStep)
    requires
        old(app).surfaces@.len() > 0 ==> takes_keys(old(app).surfaces@.last(), *context),
    ensures
        key_handled(*old(app), *final(app), key, *context, allowed, step),
{
    app.last_picker_click = None;
    let count: usize = app.surfaces.len();
    if count == 0 {
        return KeyStep::Nothing;
    }
    let ghost before = app.surfaces@;
    if app.observer && !allowed {
        let _ = app.surfaces.pop();
        proof {
            assert(app.surfaces@ =~= before.drop_last());
        }
        return KeyStep::Nothing;
    }
    let noting: bool = crate::surface_layout::interaction_note(
        &app.surfaces[count - 1],
    ).is_some();
    if key.close_surface && !noting {
        let step: CloseStep = app.close_surface();
        if let CloseStep::CancelQuestion(question) = &step {
            app.pending_interaction = Some(question.request);
        }
        return KeyStep::Close(step);
    }
    let closes_on_submit: bool = match &app.surfaces[count - 1] {
        Surface::Expanded { kind, .. } => match kind {
            ExpandedKind::Directory { .. } => false,
            _ => true,
        },
        _ => false,
    };
    if key.submit && closes_on_submit {
        let _ = app.surfaces.pop();
        proof {
            assert(app.surfaces@ =~= before.drop_last());
        }
        return KeyStep::Nothing;
    }
    let any_enabled: bool = !app.enabled_providers.is_empty();
    let asked: Option<u128> = match &app.surfaces[count - 1] {
        Surface::Question(question) => Some(question.request),
        _ => None,
    };
    let step: SurfaceStep = surface_key(&mut app.surfaces[count - 1], key, context, any_enabled);
    if let SurfaceStep::Question(QuestionStep::Respond) = &step {
        if asked.is_some() {
            app.pending_interaction = asked;
        }
    }
    proof {
        assert(app.surfaces@.drop_last() =~= before.drop_last());
    }
    KeyStep::Surface(step)
}

} // verus!
