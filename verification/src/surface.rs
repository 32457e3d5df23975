//! The surfaces, and the rows of each.

use vstd::prelude::*;
use vstd::string::*;
use crate::agents::{AgentWizard, ProfileKind, ProfileRow, SkillRow, SkillWizard};
use crate::dialogs::{
    mode_color, mode_name, plan_lines, plan_rows, question_lines, question_rows, rule_edit_lines,
    rule_edit_rows, RuleDisplay,
};
use crate::input_syntax::CodeToken;
use crate::interaction::{
    ApprovalChoice, PatternEdit, Permission, PermissionScope, PlanCompletion, Question,
};
use crate::list::ListState;
use crate::mcp::{McpFormDraft, McpFormField, McpLocation, McpScope};
use crate::mcp_package::{has_field, McpPackageDraft, McpPackageField};
use crate::multiline_input::MultilineInput;
use crate::permission::{permission_surface, permission_surface_lines, PermissionRequest};
use crate::pickers::{Conversations, Help, HistoryTree, WorktreeNew};
use crate::providers::{
    Models, ProviderSetup, Providers, TextField, WebSearchPicker, WebSearchProvider,
};
use crate::render_mcp::{
    add_scope_rows, catalog_rows, copy_rows, mcp_add_scope_lines, mcp_catalog_lines,
    mcp_field_lines, mcp_field_rows, mcp_form_lines, mcp_form_surface, mcp_json_lines,
    mcp_json_rows, mcp_mutation_lines, mcp_oauth_lines, mcp_package_setup_lines,
    mcp_package_value_lines, mcp_remove_lines, mcp_server_lines, mcp_servers_lines, mcp_tools_lines,
    mcp_transport_lines, mutation_rows, oauth_rows, package_value_rows, remove_rows, server_rows,
    servers_rows, setup_rows, tools_rows, transport_rows, McpCatalogRow, McpMutationPreview,
    McpOAuthCompletion, McpOAuthPrompt, McpServerRow, McpTools,
};
use crate::render_menus::{
    agent_edit_lines, agent_edit_rows, agent_wizard_lines, agent_wizard_rows, background_lines,
    background_rows, kill_lines, kill_rows, paths_lines, paths_rows, permission_menu_lines,
    permissions_rows, profiles_lines, profiles_rows, rename_lines, rename_rows, skill_delete_lines,
    skill_delete_rows, skill_wizard_lines, skill_wizard_rows, skills_lines, skills_rows,
    usage_menu_lines, usage_reset_lines, usage_reset_rows, usage_rows, worktree_new_lines,
    worktree_new_rows, worktrees_lines, worktrees_rows, PathRow, PermissionMenuRow, UsageOverview,
    WorktreeRow,
};
use crate::render_pickers::{
    breakdown_rows, conversation_picker_lines, conversations_rows, help_lines, help_rows,
    history_rows, history_tree_picker_lines, usage_breakdown_lines, UsageBreakdown,
    UsageBreakdownKind,
};
use crate::render_settings::{
    setting_choices_lines, setting_choices_rows, setting_input_lines, setting_input_rows,
    settings_lines, settings_rows, status_line_lines, status_line_surface, StatusLineTexts,
};
use crate::render_setup::{
    effort_lines, effort_rows, models_lines, models_rows, onboarding_lines, onboarding_rows,
    provider_setup_lines, provider_setup_rows, providers_lines, providers_rows, required_rows,
    required_surface, web_search_picker_lines, web_search_rows, web_search_setup_lines,
    web_setup_rows,
};
use crate::scroll::ScrollViewState;
use crate::settings::{SettingDefinition, Settings};
use crate::status_line::{StatusLineCatalog, StatusLineEditor};
use crate::style::{line_views, Line, LineView, StatusLineColor};
use crate::supervised_work::{BackgroundSurface, SupervisedWorkTarget};
use crate::unicode::views;

verus! {

/// What kind of view is expanded.
#[derive(Debug)]
pub enum ExpandedKind {
    Terminal,
    Text,
    /// A directory, with which of its rows can be selected.
    Directory { selectable: Vec<bool> },
}

/// A surface that is open.
#[derive(Debug)]
#[allow(inconsistent_fields)]
pub enum Surface {
    Onboarding,
    Question(Question),
    Permission {
        prompt: Permission,
        request: PermissionRequest,
        choices: Vec<(String, String)>,
        answers: Vec<ApprovalChoice>,
    },
    PlanCompletion {
        plan: PlanCompletion,
        modes: Vec<String>,
        colors: Vec<StatusLineColor>,
        model: String,
        context_percent: Option<u64>,
    },
    PermissionRuleEdit { edit: PatternEdit, scope: PermissionScope, rule: RuleDisplay },
    PersistentPermissionEdit { edit: PatternEdit, scope: PermissionScope, rule: RuleDisplay },
    Permissions { rows: Vec<PermissionMenuRow>, list: ListState },
    Usage { overview: UsageOverview, list: ListState },
    UsageBreakdown { kind: UsageBreakdownKind, rows: Vec<UsageBreakdown>, list: ListState },
    UsageResetConfirm { selected: usize },
    Rename(TextField),
    Worktrees { rows: Vec<WorktreeRow>, list: ListState },
    WorktreeNew(WorktreeNew),
    WebSearchPicker(WebSearchPicker),
    WebSearchSetup { provider: WebSearchProvider, label: String, field: TextField },
    Providers(Providers),
    ProviderSetup(ProviderSetup),
    ProvidersRequired,
    ModelRequired,
    ModelsUnavailable,
    /// Models to choose from, with the title and description of the setting that
    /// they are chosen for, if any.
    Models { models: Models, setting: Option<(String, String)> },
    Effort { model: String, rows: Vec<String>, toggle: bool, list: ListState },
    Profiles { kind: ProfileKind, rows: Vec<ProfileRow>, list: ListState },
    Skills { rows: Vec<SkillRow>, list: ListState },
    SkillDeleteConfirm { name: String, selected: usize },
    SkillWizard(SkillWizard),
    AgentWizard(AgentWizard),
    AgentEdit { name: String, list: ListState },
    McpServers { rows: Vec<McpServerRow>, list: ListState },
    McpCatalog { rows: Vec<McpCatalogRow>, list: ListState },
    McpServer { server: McpServerRow, selected: usize, oauth_connected: bool },
    McpOAuth {
        server: String,
        label: String,
        prompt: McpOAuthPrompt,
        completion: McpOAuthCompletion,
    },
    McpPackageSetup { draft: McpPackageDraft, selected: usize },
    McpPackageValueEdit { draft: McpPackageDraft, field: McpPackageField, input: TextField },
    McpTools(McpTools),
    McpRemoveConfirm { server: McpServerRow, selected: usize },
    McpAddScope { selected: usize },
    McpTransport { scope: McpScope, selected: usize },
    McpForm { draft: McpFormDraft, list: ListState },
    McpFieldEdit {
        draft: McpFormDraft,
        field: McpFormField,
        input: TextField,
        tokens: Vec<CodeToken>,
    },
    McpJsonEdit {
        location: McpLocation,
        separate_name: Option<String>,
        editor: MultilineInput,
        tokens: Vec<CodeToken>,
    },
    McpMutationPreview {
        preview: McpMutationPreview,
        list: ListState,
        details: ScrollViewState,
    },
    StatusLine(StatusLineEditor),
    Settings(Settings),
    SettingChoices {
        setting: SettingDefinition,
        choices: Vec<(String, String)>,
        list: ListState,
        custom: Option<String>,
    },
    SettingInput { setting: SettingDefinition, input: TextField, tokens: Vec<CodeToken> },
    SupervisedWork(BackgroundSurface),
    KillSupervisedWork { target: SupervisedWorkTarget, selected: usize },
    /// A view with its rows: `header_rows` of them stand above a body of
    /// `body_rows`, of which `viewport_rows` fit.
    Expanded {
        kind: ExpandedKind,
        header_rows: usize,
        body_rows: usize,
        scroll: usize,
        viewport_rows: usize,
    },
    Paths { rows: Vec<PathRow>, list: ListState, token_start: usize },
    HistoryTree(HistoryTree),
    Conversations(Conversations),
    Help(Help),
}

/// What the surfaces show of things that others know better.
#[derive(Debug)]
pub struct SurfaceContext {
    /// What stands for none of the options of a question.
    pub none_of_the_above: String,
    /// The colour of a mode that has none.
    pub mode_color: StatusLineColor,
    pub status_texts: StatusLineTexts,
    pub status_catalog: StatusLineCatalog,
    pub status_preview: Line,
    /// The names of the sections of the settings.
    pub sections: Vec<String>,
    /// The rows that a search leaves of the surface's rows.
    pub visible: Vec<usize>,
    /// The messages that a search leaves, as they are shown.
    pub messages: Vec<Line>,
    /// The changes to files that a permission is asked for.
    pub diff: Option<Vec<Line>>,
    /// The rows of the view that is expanded.
    pub expanded: Vec<Line>,
}

pub open spec fn optional_texts(texts: Option<(String, String)>) -> Option<(Seq<char>, Seq<char>)> {
    match texts {
        None => None,
        Some((title, description)) => Some((title@, description@)),
    }
}

pub open spec fn diff_rows(context: SurfaceContext) -> Option<Seq<LineView>> {
    match context.diff {
        None => None,
        Some(rows) => Some(line_views(rows@)),
    }
}

/// Whether some indices are those of `count` rows.
pub open spec fn all_below(visible: Seq<usize>, count: int) -> bool {
    forall|k: int| 0 <= k < visible.len() ==> #[trigger] visible[k] < count
}

/// Whether a surface can be shown in a context: what it refers to is there, and
/// its items can be counted.
pub open spec fn showable(surface: Surface, context: SurfaceContext) -> bool {
    match surface {
        Surface::Question(question) => question.valid() && question.option_count() < usize::MAX,
        Surface::Permission { prompt, request, choices, answers } => request.valid(),
        Surface::Permissions { rows, list } => rows@.len() < usize::MAX,
        Surface::Usage { overview, list } => list.item_count == 4 && list.offset <= 4,
        Surface::UsageBreakdown { kind, rows, list } => list.offset <= list.item_count
            == rows@.len(),
        Surface::Worktrees { rows, list } => rows@.len() < usize::MAX,
        Surface::WebSearchPicker(picker) => picker.rows@.len() < usize::MAX,
        Surface::WebSearchSetup { provider, label, field } => 3 * field.value@.len() <= usize::MAX,
        Surface::Providers(providers) => context.visible@.len() < usize::MAX && all_below(
            context.visible@,
            providers.rows@.len() as int,
        ),
        Surface::ProviderSetup(setup) => 3 * setup.api_key@.len() <= usize::MAX,
        Surface::Models { models, setting } => all_below(
            context.visible@,
            models.rows@.len() as int,
        ),
        Surface::Skills { rows, list } => rows@.len() <= usize::MAX - 2,
        Surface::McpServers { rows, list } => rows@.len() <= usize::MAX - 3,
        Surface::McpCatalog { rows, list } => rows@.len() < usize::MAX,
        Surface::McpPackageSetup { draft, selected } => draft.valid() && 1 + draft.secrets@.len()
            + draft.parameters@.len() <= usize::MAX,
        Surface::McpPackageValueEdit { draft, field, input } => has_field(draft, field) && 3
            * input.value@.len() <= usize::MAX,
        Surface::StatusLine(editor) => editor.valid(context.status_catalog)
            && context.status_texts.cover(context.status_catalog),
        Surface::Settings(settings) => all_below(context.visible@, settings.rows@.len() as int),
        Surface::HistoryTree(tree) => context.visible@.len() == context.messages@.len()
            && all_below(context.visible@, tree.rows@.len() as int),
        _ => true,
    }
}

/// The rows of a surface.
pub open spec fn surface_rows(
    surface: Surface,
    context: SurfaceContext,
    width: int,
    viewport_rows: int,
) -> Seq<LineView> {
    match surface {
        Surface::Onboarding => onboarding_rows(),
        Surface::Question(question) => question_rows(
            question,
            context.none_of_the_above@,
            width,
        ),
        Surface::Permission { prompt, request, choices, answers } => permission_surface(
            prompt,
            request,
            choices@,
            diff_rows(context),
            width,
            viewport_rows,
        ),
        Surface::PlanCompletion { plan, modes, colors, model, context_percent } => plan_rows(
            plan,
            mode_name(modes@, plan.mode_index as int),
            mode_color(colors@, plan.mode_index as int, context.mode_color),
            model@,
            context_percent,
            width,
        ),
        Surface::PermissionRuleEdit { edit, scope, rule } => rule_edit_rows(
            edit,
            scope,
            rule,
            width,
        ),
        Surface::PersistentPermissionEdit { edit, scope, rule } => rule_edit_rows(
            edit,
            scope,
            rule,
            width,
        ),
        Surface::Permissions { rows, list } => permissions_rows(rows@, list, width),
        Surface::Usage { overview, list } => usage_rows(overview, list, width),
        Surface::UsageBreakdown { kind, rows, list } => breakdown_rows(kind, rows@, list, width),
        Surface::UsageResetConfirm { selected } => usage_reset_rows(selected as int, width),
        Surface::Rename(field) => rename_rows(field, width),
        Surface::Worktrees { rows, list } => worktrees_rows(rows@, list, width),
        Surface::WorktreeNew(worktree) => worktree_new_rows(worktree, width),
        Surface::WebSearchPicker(picker) => web_search_rows(picker, width),
        Surface::WebSearchSetup { provider, label, field } => web_setup_rows(
            provider,
            label@,
            field.value@,
            field.cursor as int,
            width,
        ),
        Surface::Providers(providers) => providers_rows(providers, context.visible@, width),
        Surface::ProviderSetup(setup) => provider_setup_rows(setup, width),
        Surface::ProvidersRequired => required_rows(
            "Providers"@,
            "No providers configured. Press Enter to configure."@,
        ),
        Surface::ModelRequired => required_rows("Models"@, "no model configured"@),
        Surface::ModelsUnavailable => required_rows(
            "Models"@,
            "No models available from enabled providers."@,
        ),
        Surface::Models { models, setting } => models_rows(
            models,
            context.visible@,
            optional_texts(setting),
            width,
        ),
        Surface::Effort { model, rows, toggle, list } => effort_rows(
            model@,
            rows@,
            toggle,
            list,
            width,
        ),
        Surface::Profiles { kind, rows, list } => profiles_rows(kind, rows@, list, width),
        Surface::Skills { rows, list } => skills_rows(rows@, list, width),
        Surface::SkillDeleteConfirm { name, selected } => skill_delete_rows(
            name@,
            selected as int,
            width,
        ),
        Surface::SkillWizard(wizard) => skill_wizard_rows(wizard, width),
        Surface::AgentWizard(wizard) => agent_wizard_rows(wizard, width, viewport_rows),
        Surface::AgentEdit { name, list } => agent_edit_rows(name@, list, width),
        Surface::McpServers { rows, list } => servers_rows(rows@, list, width),
        Surface::McpCatalog { rows, list } => catalog_rows(rows@, list, width),
        Surface::McpServer { server, selected, oauth_connected } => server_rows(
            server,
            selected as int,
            oauth_connected,
            width,
        ),
        Surface::McpOAuth { server, label, prompt, completion } => oauth_rows(
            label@,
            prompt,
            completion,
        ),
        Surface::McpPackageSetup { draft, selected } => setup_rows(draft, selected as int, width),
        Surface::McpPackageValueEdit { draft, field, input } => package_value_rows(
            draft,
            field,
            input.value@,
            input.cursor as int,
            width,
        ),
        Surface::McpTools(tools) => tools_rows(tools, width),
        Surface::McpRemoveConfirm { server, selected } => remove_rows(
            server,
            selected as int,
            width,
        ),
        Surface::McpAddScope { selected } => add_scope_rows(selected as int, width),
        Surface::McpTransport { scope, selected } => transport_rows(selected as int, width),
        Surface::McpForm { draft, list } => mcp_form_surface(draft, list, width),
        Surface::McpFieldEdit { draft, field, input, tokens } => mcp_field_rows(
            field,
            input.value@,
            input.cursor as int,
            tokens@,
            width,
        ),
        Surface::McpJsonEdit { location, separate_name, editor, tokens } => mcp_json_rows(
            editor@,
            tokens@,
            width,
            viewport_rows,
        ),
        Surface::McpMutationPreview { preview, list, details } => mutation_rows(
            preview,
            list,
            details,
            width,
            viewport_rows,
        ),
        Surface::StatusLine(editor) => status_line_surface(
            editor,
            context.status_texts,
            context.status_catalog,
            context.status_preview@,
            width,
        ),
        Surface::Settings(settings) => settings_rows(
            settings,
            views(context.sections@),
            context.visible@,
            width,
        ),
        Surface::SettingChoices { setting, choices, list, custom } => setting_choices_rows(
            setting,
            choices@,
            list,
            width,
        ),
        Surface::SettingInput { setting, input, tokens } => setting_input_rows(
            setting,
            input.value@,
            input.cursor as int,
            tokens@,
            width,
        ),
        Surface::SupervisedWork(work) => background_rows(work, width),
        Surface::KillSupervisedWork { target, selected } => kill_rows(
            target,
            selected as int,
            width,
        ),
        Surface::Expanded { kind, header_rows, body_rows, scroll, viewport_rows } => line_views(
            context.expanded@,
        ),
        Surface::Paths { rows, list, token_start } => paths_rows(rows@, list, width),
        Surface::HistoryTree(tree) => history_rows(
            tree,
            context.visible@,
            line_views(context.messages@),
            width,
            viewport_rows,
        ),
        Surface::Conversations(picker) => conversations_rows(picker, width, viewport_rows),
        Surface::Help(help) => help_rows(help, width),
    }
}

/// The rows of a surface, at most as many of some of them as fit.
#[verifier::rlimit(50)]
pub fn render_surface_lines(
    surface: &Surface,
    context: &SurfaceContext,
    width: u16,
    viewport_rows: usize,
) -> (lines: Vec<Line>)
    requires
        showable(*surface, *context),
    ensures
        line_views(lines@) == surface_rows(
            *surface,
            *context,
            width as int,
            viewport_rows as int,
        ),
{
    match surface {
        Surface::Onboarding => onboarding_lines(),
        Surface::Question(question) => question_lines(
            question,
            context.none_of_the_above.as_str(),
            width,
        ),
        Surface::Permission { prompt, request, choices, answers } => {
            let diff: Option<&Vec<Line>> = match &context.diff {
                None => None,
                Some(rows) => Some(rows),
            };
            permission_surface_lines(
                prompt,
                request,
                choices.as_slice(),
                diff,
                width,
                viewport_rows,
            )
        },
        Surface::PlanCompletion { plan, modes, colors, model, context_percent } => plan_lines(
            plan,
            modes.as_slice(),
            colors.as_slice(),
            context.mode_color,
            model.as_str(),
            *context_percent,
            width,
        ),
        Surface::PermissionRuleEdit { edit, scope, rule } => rule_edit_lines(
            edit,
            *scope,
            rule,
            width,
        ),
        Surface::PersistentPermissionEdit { edit, scope, rule } => rule_edit_lines(
            edit,
            *scope,
            rule,
            width,
        ),
        Surface::Permissions { rows, list } => permission_menu_lines(rows.as_slice(), list, width),
        Surface::Usage { overview, list } => usage_menu_lines(overview, list, width),
        Surface::UsageBreakdown { kind, rows, list } => usage_breakdown_lines(
            *kind,
            rows.as_slice(),
            list,
            width,
        ),
        Surface::UsageResetConfirm { selected } => usage_reset_lines(*selected, width),
        Surface::Rename(field) => rename_lines(field, width),
        Surface::Worktrees { rows, list } => worktrees_lines(rows.as_slice(), list, width),
        Surface::WorktreeNew(worktree) => worktree_new_lines(worktree, width),
        Surface::WebSearchPicker(picker) => web_search_picker_lines(picker, width),
        Surface::WebSearchSetup { provider, label, field } => web_search_setup_lines(
            *provider,
            label.as_str(),
            field,
            width,
        ),
        Surface::Providers(providers) => providers_lines(
            providers,
            context.visible.as_slice(),
            width,
        ),
        Surface::ProviderSetup(setup) => provider_setup_lines(setup, width),
        Surface::ProvidersRequired => required_surface(
            "Providers",
            "No providers configured. Press Enter to configure.",
        ),
        Surface::ModelRequired => required_surface("Models", "no model configured"),
        Surface::ModelsUnavailable => required_surface(
            "Models",
            "No models available from enabled providers.",
        ),
        Surface::Models { models, setting } => {
            let texts: Option<(&str, &str)> = match setting {
                None => None,
                Some((title, description)) => Some((title.as_str(), description.as_str())),
            };
            models_lines(models, context.visible.as_slice(), texts, width)
        },
        Surface::Effort { model, rows, toggle, list } => effort_lines(
            model.as_str(),
            rows.as_slice(),
            *toggle,
            list,
            width,
        ),
        Surface::Profiles { kind, rows, list } => profiles_lines(
            *kind,
            rows.as_slice(),
            list,
            width,
        ),
        Surface::Skills { rows, list } => skills_lines(rows.as_slice(), list, width),
        Surface::SkillDeleteConfirm { name, selected } => skill_delete_lines(
            name.as_str(),
            *selected,
            width,
        ),
        Surface::SkillWizard(wizard) => skill_wizard_lines(wizard, width),
        Surface::AgentWizard(wizard) => agent_wizard_lines(wizard, width, viewport_rows),
        Surface::AgentEdit { name, list } => agent_edit_lines(name.as_str(), list, width),
        Surface::McpServers { rows, list } => mcp_servers_lines(rows.as_slice(), list, width),
        Surface::McpCatalog { rows, list } => mcp_catalog_lines(rows.as_slice(), list, width),
        Surface::McpServer { server, selected, oauth_connected } => mcp_server_lines(
            server,
            *selected,
            *oauth_connected,
            width,
        ),
        Surface::McpOAuth { server, label, prompt, completion } => mcp_oauth_lines(
            label.as_str(),
            prompt,
            completion,
        ),
        Surface::McpPackageSetup { draft, selected } => mcp_package_setup_lines(
            draft,
            *selected,
            width,
        ),
        Surface::McpPackageValueEdit { draft, field, input } => mcp_package_value_lines(
            draft,
            *field,
            input.value.as_str(),
            input.cursor,
            width,
        ),
        Surface::McpTools(tools) => mcp_tools_lines(tools, width),
        Surface::McpRemoveConfirm { server, selected } => mcp_remove_lines(
            server,
            *selected,
            width,
        ),
        Surface::McpAddScope { selected } => mcp_add_scope_lines(*selected, width),
        Surface::McpTransport { scope, selected } => mcp_transport_lines(*selected, width),
        Surface::McpForm { draft, list } => mcp_form_lines(draft, list, width),
        Surface::McpFieldEdit { draft, field, input, tokens } => mcp_field_lines(
            *field,
            input.value.as_str(),
            input.cursor,
            tokens.as_slice(),
            width,
        ),
        Surface::McpJsonEdit { location, separate_name, editor, tokens } => mcp_json_lines(
            editor,
            tokens.as_slice(),
            width,
            viewport_rows,
        ),
        Surface::McpMutationPreview { preview, list, details } => mcp_mutation_lines(
            preview,
            list,
            details,
            width,
            viewport_rows,
        ),
        Surface::StatusLine(editor) => status_line_lines(
            editor,
            &context.status_texts,
            &context.status_catalog,
            &context.status_preview,
            width,
        ),
        Surface::Settings(settings) => settings_lines(
            settings,
            context.sections.as_slice(),
            context.visible.as_slice(),
            width,
        ),
        Surface::SettingChoices { setting, choices, list, custom } => setting_choices_lines(
            setting,
            choices.as_slice(),
            list,
            width,
        ),
        Surface::SettingInput { setting, input, tokens } => setting_input_lines(
            setting,
            input.value.as_str(),
            input.cursor,
            tokens.as_slice(),
            width,
        ),
        Surface::SupervisedWork(work) => background_lines(work, width),
        Surface::KillSupervisedWork { target, selected } => kill_lines(*target, *selected, width),
        Surface::Expanded { .. } => {
            let lines = copy_rows(context.expanded.as_slice(), 0, context.expanded.len());
            proof {
                assert(line_views(lines@) =~= line_views(context.expanded@));
            }
            lines
        },
        Surface::Paths { rows, list, token_start } => paths_lines(rows.as_slice(), list, width),
        Surface::HistoryTree(tree) => history_tree_picker_lines(
            tree,
            context.visible.as_slice(),
            context.messages.as_slice(),
            width,
            viewport_rows,
        ),
        Surface::Conversations(picker) => conversation_picker_lines(picker, width, viewport_rows),
        Surface::Help(help) => help_lines(help, width),
    }
}

} // verus!
