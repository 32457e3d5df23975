//! What can be done on a surface, in words.

use vstd::prelude::*;
use vstd::string::*;
use crate::agents::{AgentWizardStep, ProfileKind, SkillWizardStep};
use crate::interaction::{ApprovalChoice, Decision, Permission, PermissionScope};
use crate::mcp_package::McpPackageField;
use crate::pickers::TreePurpose;
use crate::providers::{
    visible_web_rows, web_rows, AuthChallenge, AuthFlow, ProviderRow, ProviderSetup, Providers,
    WebSearchPicker,
};
use crate::render_mcp::{McpOAuthCompletion, McpOAuthPrompt};
use crate::render_setup::any_enabled;
use crate::status_line::StatusLineEditorMode;
use crate::surface::{ExpandedKind, Surface};

verus! {

fn is_secret(field: McpPackageField) -> (yes: bool)
    ensures
        yes == (field is Secret),
{
    match field {
        McpPackageField::Secret(_) => true,
        McpPackageField::Parameter(_) => false,
    }
}

fn modules_shown(mode: &StatusLineEditorMode) -> (yes: bool)
    ensures
        yes == (mode is Modules),
{
    match mode {
        StatusLineEditorMode::Modules => true,
        _ => false,
    }
}

fn colors_shown(mode: &StatusLineEditorMode) -> (yes: bool)
    ensures
        yes == (mode is Colors),
{
    match mode {
        StatusLineEditorMode::Colors { .. } => true,
        _ => false,
    }
}

fn is_directory(kind: &ExpandedKind) -> (yes: bool)
    ensures
        yes == (kind is Directory),
{
    match kind {
        ExpandedKind::Directory { .. } => true,
        _ => false,
    }
}

fn is_connected(completion: &McpOAuthCompletion) -> (yes: bool)
    ensures
        yes == (completion is Connected),
{
    match completion {
        McpOAuthCompletion::Connected => true,
        _ => false,
    }
}

fn is_device(prompt: &McpOAuthPrompt) -> (yes: bool)
    ensures
        yes == (prompt is Device),
{
    match prompt {
        McpOAuthPrompt::Device { .. } => true,
        McpOAuthPrompt::Browser { .. } => false,
    }
}

/// What can be done where a permission is asked.
pub open spec fn permission_status(prompt: Permission, answers: Seq<ApprovalChoice>) -> Seq<char> {
    if prompt.editing_note {
        "Enter deny \u{b7} Shift/Alt+Enter newline \u{b7} Tab/Ctrl+C close \u{b7} Esc discard note"@
    } else if prompt.selected >= answers.len() {
        "\u{2191}/\u{2193} navigate \u{b7} PgUp/PgDn scroll preview \u{b7} Enter select \u{b7} Esc deny"@
    } else if answers[prompt.selected as int].decision == Decision::Deny {
        "\u{2191}/\u{2193} navigate \u{b7} PgUp/PgDn scroll preview \u{b7} Enter/Esc deny \u{b7} Tab add denial note"@
    } else if answers[prompt.selected as int].persistent {
        "\u{2191}/\u{2193} navigate \u{b7} PgUp/PgDn scroll preview \u{b7} Enter select \u{b7} Tab scope \u{b7} e edit \u{b7} Shift+Enter apply globally \u{b7} Esc deny"@
    } else if answers[prompt.selected as int].supports_session {
        "\u{2191}/\u{2193} navigate \u{b7} PgUp/PgDn scroll preview \u{b7} Enter select \u{b7} Tab scope \u{b7} e edit \u{b7} Shift+Enter apply for conversation \u{b7} Esc deny"@
    } else {
        "\u{2191}/\u{2193} navigate \u{b7} PgUp/PgDn scroll preview \u{b7} Enter select \u{b7} Esc deny"@
    }
}

fn permission_status_text(prompt: &Permission, answers: &[ApprovalChoice]) -> (text: &'static str)
    ensures
        text@ == permission_status(*prompt, answers@),
{
    if prompt.editing_note {
        "Enter deny \u{b7} Shift/Alt+Enter newline \u{b7} Tab/Ctrl+C close \u{b7} Esc discard note"
    } else if prompt.selected >= answers.len() {
        "\u{2191}/\u{2193} navigate \u{b7} PgUp/PgDn scroll preview \u{b7} Enter select \u{b7} Esc deny"
    } else if answers[prompt.selected].decision == Decision::Deny {
        "\u{2191}/\u{2193} navigate \u{b7} PgUp/PgDn scroll preview \u{b7} Enter/Esc deny \u{b7} Tab add denial note"
    } else if answers[prompt.selected].persistent {
        "\u{2191}/\u{2193} navigate \u{b7} PgUp/PgDn scroll preview \u{b7} Enter select \u{b7} Tab scope \u{b7} e edit \u{b7} Shift+Enter apply globally \u{b7} Esc deny"
    } else if answers[prompt.selected].supports_session {
        "\u{2191}/\u{2193} navigate \u{b7} PgUp/PgDn scroll preview \u{b7} Enter select \u{b7} Tab scope \u{b7} e edit \u{b7} Shift+Enter apply for conversation \u{b7} Esc deny"
    } else {
        "\u{2191}/\u{2193} navigate \u{b7} PgUp/PgDn scroll preview \u{b7} Enter select \u{b7} Esc deny"
    }
}

/// What can be done where a search provider is chosen.
pub open spec fn web_search_status(picker: WebSearchPicker) -> Seq<char> {
    let at = picker.list.at_spec();
    let visible = web_rows(picker.rows@, picker.query@);
    if at == 0 {
        "\u{2191}/\u{2193} navigate \u{b7} Enter close \u{b7} Esc close"@
    } else if at - 1 < visible.len() && picker.rows@[visible[at - 1] as int].ready {
        "\u{2191}/\u{2193} navigate \u{b7} Enter select \u{b7} r reconfigure \u{b7} d disconnect \u{b7} Esc close"@
    } else {
        "\u{2191}/\u{2193} navigate \u{b7} Enter configure \u{b7} Esc close"@
    }
}

fn web_search_status_text(picker: &WebSearchPicker) -> (text: &'static str)
    ensures
        text@ == web_search_status(*picker),
{
    let at: usize = picker.list.at();
    let visible = visible_web_rows(picker.rows.as_slice(), picker.query.as_str());
    if at == 0 {
        "\u{2191}/\u{2193} navigate \u{b7} Enter close \u{b7} Esc close"
    } else if at - 1 < visible.len() && picker.rows[visible[at - 1]].ready {
        "\u{2191}/\u{2193} navigate \u{b7} Enter select \u{b7} r reconfigure \u{b7} d disconnect \u{b7} Esc close"
    } else {
        "\u{2191}/\u{2193} navigate \u{b7} Enter configure \u{b7} Esc close"
    }
}

/// What can be done with a provider.
pub open spec fn provider_status(row: ProviderRow) -> Seq<char> {
    if row.setup_instructions is Some {
        "\u{2191}/\u{2193} navigate \u{b7} Enter configure \u{b7} Esc back"@
    } else if row.managed_auth {
        "\u{2191}/\u{2193} navigate \u{b7} Enter toggle \u{b7} r reconnect \u{b7} d disconnect \u{b7} Esc back"@
    } else if row.api_key_auth && row.has_managed_api_key {
        "\u{2191}/\u{2193} navigate \u{b7} Enter toggle \u{b7} r replace key \u{b7} d remove key \u{b7} Esc back"@
    } else {
        "\u{2191}/\u{2193} navigate \u{b7} Enter toggle \u{b7} r reconfigure \u{b7} Esc back"@
    }
}

fn provider_status_text(row: &ProviderRow) -> (text: &'static str)
    ensures
        text@ == provider_status(*row),
{
    if row.setup_instructions.is_some() {
        "\u{2191}/\u{2193} navigate \u{b7} Enter configure \u{b7} Esc back"
    } else if row.managed_auth {
        "\u{2191}/\u{2193} navigate \u{b7} Enter toggle \u{b7} r reconnect \u{b7} d disconnect \u{b7} Esc back"
    } else if row.api_key_auth && row.has_managed_api_key {
        "\u{2191}/\u{2193} navigate \u{b7} Enter toggle \u{b7} r replace key \u{b7} d remove key \u{b7} Esc back"
    } else {
        "\u{2191}/\u{2193} navigate \u{b7} Enter toggle \u{b7} r reconfigure \u{b7} Esc back"
    }
}

/// What can be done where providers are listed; `visible` are those that the search
/// leaves.
pub open spec fn providers_status(providers: Providers, visible: Seq<usize>) -> Seq<char> {
    let at = providers.list.at_spec();
    if at == 0 {
        if providers.model_configuration_follows && !any_enabled(providers.rows@) {
            "\u{2191}/\u{2193} navigate \u{b7} Esc back"@
        } else if providers.model_configuration_follows {
            "\u{2191}/\u{2193} navigate \u{b7} Enter continue \u{b7} Esc back"@
        } else {
            "\u{2191}/\u{2193} navigate \u{b7} Enter close \u{b7} Esc back"@
        }
    } else if at - 1 < visible.len() {
        provider_status(providers.rows@[visible[at - 1] as int])
    } else {
        "\u{2191}/\u{2193} navigate \u{b7} Enter toggle \u{b7} Esc back"@
    }
}

fn some_enabled(rows: &[ProviderRow]) -> (yes: bool)
    ensures
        yes == any_enabled(rows@),
{
    let mut i: usize = 0;
    while i < rows.len()
        invariant
            i <= rows@.len(),
            forall|k: int| 0 <= k < i ==> !(#[trigger] rows@[k]).enabled,
        decreases rows@.len() - i,
    {
        if rows[i].enabled {
            return true;
        }
        i += 1;
    }
    false
}

fn providers_status_text(providers: &Providers, visible: &[usize]) -> (text: &'static str)
    requires
        forall|k: int| 0 <= k < visible@.len() ==> #[trigger] visible@[k] < providers.rows@.len(),
    ensures
        text@ == providers_status(*providers, visible@),
{
    let at: usize = providers.list.at();
    if at == 0 {
        if providers.model_configuration_follows && !some_enabled(providers.rows.as_slice()) {
            "\u{2191}/\u{2193} navigate \u{b7} Esc back"
        } else if providers.model_configuration_follows {
            "\u{2191}/\u{2193} navigate \u{b7} Enter continue \u{b7} Esc back"
        } else {
            "\u{2191}/\u{2193} navigate \u{b7} Enter close \u{b7} Esc back"
        }
    } else if at - 1 < visible.len() {
        provider_status_text(&providers.rows[visible[at - 1]])
    } else {
        "\u{2191}/\u{2193} navigate \u{b7} Enter toggle \u{b7} Esc back"
    }
}

/// Whether there is just one way to log in.
pub open spec fn only_flow(flows: Seq<AuthFlow>, flow: AuthFlow) -> bool {
    flows.len() == 1 && flows[0] == flow
}

fn is_only_flow(flows: &[AuthFlow], flow: AuthFlow) -> (yes: bool)
    ensures
        yes == only_flow(flows@, flow),
{
    flows.len() == 1 && flows[0] == flow
}

fn asks_for_device(challenge: &Option<AuthChallenge>) -> (yes: bool)
    ensures
        yes == (*challenge matches Some(AuthChallenge::Device { .. })),
{
    match challenge {
        Some(AuthChallenge::Device { .. }) => true,
        _ => false,
    }
}

/// What can be done where a provider is set up.
pub open spec fn setup_status(setup: ProviderSetup) -> Seq<char> {
    if setup.api_key_auth {
        "Enter save API key \u{b7} Esc discard"@
    } else if setup.authenticated {
        "Enter/Esc continue"@
    } else if !setup.managed_auth {
        "Enter/Esc back"@
    } else if setup.auth_challenge matches Some(AuthChallenge::Device { .. }) && only_flow(setup.auth_flows@, AuthFlow::DeviceCode) {
        "Enter reopen device login \u{b7} c copy URL \u{b7} C copy code \u{b7} Esc back"@
    } else if setup.auth_challenge matches Some(AuthChallenge::Device { .. }) {
        "Enter browser login \u{b7} c copy URL \u{b7} C copy code \u{b7} d device login \u{b7} Esc back"@
    } else if only_flow(setup.auth_flows@, AuthFlow::DeviceCode) {
        "Enter device login \u{b7} Esc back"@
    } else if only_flow(setup.auth_flows@, AuthFlow::Browser) {
        "Enter browser login \u{b7} c copy URL \u{b7} Esc back"@
    } else {
        "Enter browser login \u{b7} c copy URL \u{b7} d device login \u{b7} Esc back"@
    }
}

fn setup_status_text(setup: &ProviderSetup) -> (text: &'static str)
    ensures
        text@ == setup_status(*setup),
{
    if setup.api_key_auth {
        "Enter save API key \u{b7} Esc discard"
    } else if setup.authenticated {
        "Enter/Esc continue"
    } else if !setup.managed_auth {
        "Enter/Esc back"
    } else if asks_for_device(&setup.auth_challenge) && is_only_flow(setup.auth_flows.as_slice(), AuthFlow::DeviceCode) {
        "Enter reopen device login \u{b7} c copy URL \u{b7} C copy code \u{b7} Esc back"
    } else if asks_for_device(&setup.auth_challenge) {
        "Enter browser login \u{b7} c copy URL \u{b7} C copy code \u{b7} d device login \u{b7} Esc back"
    } else if is_only_flow(setup.auth_flows.as_slice(), AuthFlow::DeviceCode) {
        "Enter device login \u{b7} Esc back"
    } else if is_only_flow(setup.auth_flows.as_slice(), AuthFlow::Browser) {
        "Enter browser login \u{b7} c copy URL \u{b7} Esc back"
    } else {
        "Enter browser login \u{b7} c copy URL \u{b7} d device login \u{b7} Esc back"
    }
}

/// What can be done on a surface; `visible` are the rows that a search leaves.
pub open spec fn status_of(surface: Surface, visible: Seq<usize>) -> Seq<char> {
    match surface {
        Surface::Onboarding => "Enter setup \u{b7} Esc dismiss"@,
        Surface::Permissions { .. } => "\u{2191}/\u{2193} navigate \u{b7} Enter close \u{b7} e edit \u{b7} d delete \u{b7} Esc close"@,
        Surface::Usage { .. } => "\u{2191}/\u{2193} navigate \u{b7} Enter select \u{b7} Esc close"@,
        Surface::UsageBreakdown { .. } => "\u{2191}/\u{2193} scroll \u{b7} Esc back"@,
        Surface::UsageResetConfirm { .. } => "\u{2191}/\u{2193} choose \u{b7} Enter select \u{b7} Esc cancel"@,
        Surface::Rename(_) => "Enter save \u{b7} Esc cancel"@,
        Surface::WebSearchSetup { .. } => "Enter save \u{b7} Esc cancel"@,
        Surface::Worktrees { .. } => "\u{2191}/\u{2193} navigate \u{b7} Enter select \u{b7} Esc close"@,
        Surface::McpServers { .. } => "\u{2191}/\u{2193} navigate \u{b7} Enter select \u{b7} Esc back"@,
        Surface::McpCatalog { .. } => "\u{2191}/\u{2193} navigate \u{b7} Enter select \u{b7} Esc back"@,
        Surface::McpServer { .. } => "\u{2191}/\u{2193} navigate \u{b7} Enter select \u{b7} Esc back"@,
        Surface::McpRemoveConfirm { .. } => "\u{2191}/\u{2193} navigate \u{b7} Enter select \u{b7} Esc back"@,
        Surface::McpAddScope { .. } => "\u{2191}/\u{2193} navigate \u{b7} Enter select \u{b7} Esc back"@,
        Surface::McpTransport { .. } => "\u{2191}/\u{2193} navigate \u{b7} Enter select \u{b7} Esc back"@,
        Surface::McpForm { .. } => "\u{2191}/\u{2193} navigate \u{b7} Enter select \u{b7} Esc back"@,
        Surface::McpMutationPreview { .. } => "\u{2191}/\u{2193} navigate \u{b7} PgUp/PgDn scroll details \u{b7} Enter select \u{b7} Esc back"@,
        Surface::McpTools(_) => "\u{2191}/\u{2193} navigate \u{b7} Enter/Esc back"@,
        Surface::McpPackageSetup { .. } => "\u{2191}/\u{2193} navigate \u{b7} Enter edit/save \u{b7} Esc back"@,
        Surface::McpFieldEdit { .. } => "Enter save field \u{b7} Esc restore draft"@,
        Surface::McpJsonEdit { .. } => "Ctrl+Enter submit \u{b7} Esc back"@,
        Surface::ProvidersRequired => "Enter continue \u{b7} Esc close"@,
        Surface::ModelRequired => "Enter continue \u{b7} Esc close"@,
        Surface::ModelsUnavailable => "Enter continue \u{b7} Esc close"@,
        Surface::Effort { .. } => "\u{2191}/\u{2193} navigate \u{b7} Enter select \u{b7} Esc back"@,
        Surface::Paths { .. } => "\u{2191}/\u{2193} navigate \u{b7} Enter select \u{b7} Esc back"@,
        Surface::Skills { .. } => "\u{2191}/\u{2193} navigate \u{b7} Enter toggle \u{b7} e edit \u{b7} d delete \u{b7} Esc close"@,
        Surface::SkillDeleteConfirm { .. } => "\u{2191}/\u{2193} navigate \u{b7} Enter select \u{b7} Esc back"@,
        Surface::AgentEdit { .. } => "\u{2191}/\u{2193} navigate \u{b7} Enter edit \u{b7} Esc back"@,
        Surface::SettingChoices { .. } => "\u{2191}/\u{2193} navigate \u{b7} Enter save \u{b7} Esc back"@,
        Surface::SettingInput { .. } => "Enter save \u{b7} Esc back"@,
        Surface::KillSupervisedWork { .. } => "\u{2191}/\u{2193} navigate \u{b7} Enter select \u{b7} Esc close"@,
        Surface::Conversations(_) => "type to search \u{b7} \u{2191}/\u{2193} conversations \u{b7} Enter resume \u{b7} f favourite \u{b7} a archived \u{b7} Shift+A archive \u{b7} Shift+D delete \u{b7} Esc close"@,
        Surface::Help(_) => "\u{2191}/\u{2193} scroll \u{b7} \u{2190}/\u{2192} tabs \u{b7} Esc close"@,
        Surface::PlanCompletion { plan, .. } => if plan.editing_note {
            "Enter accept \u{b7} Shift/Alt+Enter newline \u{b7} Tab/Ctrl+C close \u{b7} Esc discard note"@
        } else if plan.selected < 3 {
            "\u{2191}/\u{2193} choices \u{b7} Shift+Left/Right/Tab mode \u{b7} Alt-p/m change model \u{b7} Tab add note \u{b7} Enter select \u{b7} Esc keep planning"@
        } else {
            "\u{2191}/\u{2193} choices \u{b7} Shift+Left/Right/Tab mode \u{b7} Alt-p/m change model \u{b7} Enter select \u{b7} Esc keep planning"@
        },
        Surface::Question(question) => if question.editing_note {
            "Enter select \u{b7} Shift/Alt+Enter newline \u{b7} Tab return \u{b7} Esc discard note"@
        } else {
            "\u{2191}/\u{2193} choose \u{b7} \u{2190}/\u{2192} tabs \u{b7} Tab add note \u{b7} Enter select \u{b7} Esc cancel"@
        },
        Surface::WorktreeNew(worktree) => if worktree.editing_base {
            "Enter create \u{b7} Tab edit name \u{b7} Esc cancel"@
        } else {
            "Enter/Tab edit base \u{b7} Esc cancel"@
        },
        Surface::McpPackageValueEdit { field, .. } => if field is Secret {
            "Enter save secret \u{b7} empty removes \u{b7} Esc discard"@
        } else {
            "Enter save value \u{b7} Esc discard"@
        },
        Surface::Models { models, .. } => if models.for_setting {
            "\u{2191}/\u{2193} navigate \u{b7} Enter save \u{b7} Esc back"@
        } else {
            "\u{2191}/\u{2193} navigate \u{b7} Enter select \u{b7} f favourite \u{b7} Ctrl+D agent default \u{b7} Esc back"@
        },
        Surface::Profiles { kind, .. } => if kind == ProfileKind::Agent {
            "\u{2191}/\u{2193} navigate \u{b7} Enter select \u{b7} e edit \u{b7} Esc back"@
        } else {
            "\u{2191}/\u{2193} navigate \u{b7} Enter select \u{b7} Esc back"@
        },
        Surface::SkillWizard(wizard) => if wizard.step == SkillWizardStep::Content {
            "Enter save \u{b7} Ctrl+Enter newline \u{b7} Esc back"@
        } else if wizard.step == SkillWizardStep::Scope {
            "\u{2191}/\u{2193} scope \u{b7} Enter next \u{b7} Esc back"@
        } else {
            "Enter next \u{b7} Esc back"@
        },
        Surface::AgentWizard(wizard) => if wizard.step == AgentWizardStep::Prompt {
            "Enter save \u{b7} Ctrl+Enter newline \u{b7} Esc back"@
        } else {
            "Enter save \u{b7} Esc back"@
        },
        Surface::StatusLine(editor) => if editor.mode is Modules {
            "\u{2191}/\u{2193} navigate \u{b7} Enter toggle \u{b7} \u{2190}/\u{2192} reorder \u{b7} c color \u{b7} r reset \u{b7} Esc save"@
        } else if editor.mode is Colors {
            "\u{2191}/\u{2193} colors \u{b7} Enter select \u{b7} Esc back"@
        } else {
            "Enter apply #RRGGBB \u{b7} Esc back"@
        },
        Surface::Settings(settings) => if settings.query@.len() == 0 {
            "type to search \u{b7} \u{2191}/\u{2193} navigate \u{b7} \u{2190}/\u{2192} tabs \u{b7} Enter edit \u{b7} Ctrl+R reset \u{b7} Esc close"@
        } else {
            "type to search \u{b7} \u{2191}/\u{2193} navigate \u{b7} Enter edit \u{b7} Ctrl+R reset \u{b7} Esc close"@
        },
        Surface::SupervisedWork(work) => if work.show_past {
            "\u{2191}/\u{2193} navigate \u{b7} Enter expand \u{b7} p show active \u{b7} Esc close"@
        } else {
            "\u{2191}/\u{2193} navigate \u{b7} Enter expand \u{b7} k kill \u{b7} p show past \u{b7} Esc close"@
        },
        Surface::Expanded { kind, .. } => if kind is Directory {
            "\u{2191}/\u{2193} navigate \u{b7} \u{2190}/\u{2192} collapse/expand \u{b7} Enter open \u{b7} PgUp/PgDn page \u{b7} Esc close"@
        } else {
            "\u{2191}/\u{2193} scroll \u{b7} PgUp/PgDn page \u{b7} Home/End jump \u{b7} Enter/Esc close"@
        },
        Surface::HistoryTree(tree) => if tree.purpose == TreePurpose::Fork {
            "type to search \u{b7} \u{2191}/\u{2193} messages \u{b7} p preview \u{b7} ScrollToMessage scroll to \u{b7} Enter fork \u{b7} Shift+F hard fork \u{b7} Esc cancel"@
        } else {
            "type to search \u{b7} \u{2191}/\u{2193} messages \u{b7} p preview \u{b7} ScrollToMessage scroll to \u{b7} Enter switch to \u{b7} Shift+F hard fork \u{b7} Esc close"@
        },
        Surface::McpOAuth { prompt, completion, .. } => if completion is Connected {
            "Enter/Esc continue"@
        } else if prompt is Device {
            "Enter reopen device login \u{b7} c copy URL \u{b7} C copy code \u{b7} Esc back"@
        } else {
            "Enter reopen browser login \u{b7} c copy URL \u{b7} Esc back"@
        },
        Surface::PermissionRuleEdit { scope, .. } => if scope == PermissionScope::Conversation {
            "Enter submit for conversation \u{b7} Esc cancel"@
        } else if scope == PermissionScope::Project {
            "Enter submit for project \u{b7} Esc cancel"@
        } else {
            "Enter submit globally \u{b7} Esc cancel"@
        },
        Surface::PersistentPermissionEdit { scope, .. } => if scope == PermissionScope::Conversation {
            "Enter save for conversation \u{b7} Esc cancel"@
        } else if scope == PermissionScope::Project {
            "Enter save for project \u{b7} Esc cancel"@
        } else {
            "Enter save globally \u{b7} Esc cancel"@
        },
        Surface::Permission { prompt, answers, .. } => permission_status(prompt, answers@),
        Surface::WebSearchPicker(picker) => web_search_status(picker),
        Surface::Providers(providers) => providers_status(providers, visible),
        Surface::ProviderSetup(setup) => setup_status(setup),
    }
}

/// What can be done on a surface.
pub fn surface_status(surface: &Surface, visible: &[usize]) -> (text: &'static str)
    requires
        surface matches Surface::Providers(providers) ==> forall|k: int|
            0 <= k < visible@.len() ==> #[trigger] visible@[k] < providers.rows@.len(),
    ensures
        text@ == status_of(*surface, visible@),
{
    match surface {
        Surface::Onboarding => "Enter setup \u{b7} Esc dismiss",
        Surface::Permissions { .. } => "\u{2191}/\u{2193} navigate \u{b7} Enter close \u{b7} e edit \u{b7} d delete \u{b7} Esc close",
        Surface::Usage { .. } => "\u{2191}/\u{2193} navigate \u{b7} Enter select \u{b7} Esc close",
        Surface::UsageBreakdown { .. } => "\u{2191}/\u{2193} scroll \u{b7} Esc back",
        Surface::UsageResetConfirm { .. } => "\u{2191}/\u{2193} choose \u{b7} Enter select \u{b7} Esc cancel",
        Surface::Rename(_) => "Enter save \u{b7} Esc cancel",
        Surface::WebSearchSetup { .. } => "Enter save \u{b7} Esc cancel",
        Surface::Worktrees { .. } => "\u{2191}/\u{2193} navigate \u{b7} Enter select \u{b7} Esc close",
        Surface::McpServers { .. } => "\u{2191}/\u{2193} navigate \u{b7} Enter select \u{b7} Esc back",
        Surface::McpCatalog { .. } => "\u{2191}/\u{2193} navigate \u{b7} Enter select \u{b7} Esc back",
        Surface::McpServer { .. } => "\u{2191}/\u{2193} navigate \u{b7} Enter select \u{b7} Esc back",
        Surface::McpRemoveConfirm { .. } => "\u{2191}/\u{2193} navigate \u{b7} Enter select \u{b7} Esc back",
        Surface::McpAddScope { .. } => "\u{2191}/\u{2193} navigate \u{b7} Enter select \u{b7} Esc back",
        Surface::McpTransport { .. } => "\u{2191}/\u{2193} navigate \u{b7} Enter select \u{b7} Esc back",
        Surface::McpForm { .. } => "\u{2191}/\u{2193} navigate \u{b7} Enter select \u{b7} Esc back",
        Surface::McpMutationPreview { .. } => "\u{2191}/\u{2193} navigate \u{b7} PgUp/PgDn scroll details \u{b7} Enter select \u{b7} Esc back",
        Surface::McpTools(_) => "\u{2191}/\u{2193} navigate \u{b7} Enter/Esc back",
        Surface::McpPackageSetup { .. } => "\u{2191}/\u{2193} navigate \u{b7} Enter edit/save \u{b7} Esc back",
        Surface::McpFieldEdit { .. } => "Enter save field \u{b7} Esc restore draft",
        Surface::McpJsonEdit { .. } => "Ctrl+Enter submit \u{b7} Esc back",
        Surface::ProvidersRequired => "Enter continue \u{b7} Esc close",
        Surface::ModelRequired => "Enter continue \u{b7} Esc close",
        Surface::ModelsUnavailable => "Enter continue \u{b7} Esc close",
        Surface::Effort { .. } => "\u{2191}/\u{2193} navigate \u{b7} Enter select \u{b7} Esc back",
        Surface::Paths { .. } => "\u{2191}/\u{2193} navigate \u{b7} Enter select \u{b7} Esc back",
        Surface::Skills { .. } => "\u{2191}/\u{2193} navigate \u{b7} Enter toggle \u{b7} e edit \u{b7} d delete \u{b7} Esc close",
        Surface::SkillDeleteConfirm { .. } => "\u{2191}/\u{2193} navigate \u{b7} Enter select \u{b7} Esc back",
        Surface::AgentEdit { .. } => "\u{2191}/\u{2193} navigate \u{b7} Enter edit \u{b7} Esc back",
        Surface::SettingChoices { .. } => "\u{2191}/\u{2193} navigate \u{b7} Enter save \u{b7} Esc back",
        Surface::SettingInput { .. } => "Enter save \u{b7} Esc back",
        Surface::KillSupervisedWork { .. } => "\u{2191}/\u{2193} navigate \u{b7} Enter select \u{b7} Esc close",
        Surface::Conversations(_) => "type to search \u{b7} \u{2191}/\u{2193} conversations \u{b7} Enter resume \u{b7} f favourite \u{b7} a archived \u{b7} Shift+A archive \u{b7} Shift+D delete \u{b7} Esc close",
        Surface::Help(_) => "\u{2191}/\u{2193} scroll \u{b7} \u{2190}/\u{2192} tabs \u{b7} Esc close",
        Surface::PlanCompletion { plan, .. } => if plan.editing_note {
            "Enter accept \u{b7} Shift/Alt+Enter newline \u{b7} Tab/Ctrl+C close \u{b7} Esc discard note"
        } else if plan.selected < 3 {
            "\u{2191}/\u{2193} choices \u{b7} Shift+Left/Right/Tab mode \u{b7} Alt-p/m change model \u{b7} Tab add note \u{b7} Enter select \u{b7} Esc keep planning"
        } else {
            "\u{2191}/\u{2193} choices \u{b7} Shift+Left/Right/Tab mode \u{b7} Alt-p/m change model \u{b7} Enter select \u{b7} Esc keep planning"
        },
        Surface::Question(question) => if question.editing_note {
            "Enter select \u{b7} Shift/Alt+Enter newline \u{b7} Tab return \u{b7} Esc discard note"
        } else {
            "\u{2191}/\u{2193} choose \u{b7} \u{2190}/\u{2192} tabs \u{b7} Tab add note \u{b7} Enter select \u{b7} Esc cancel"
        },
        Surface::WorktreeNew(worktree) => if worktree.editing_base {
            "Enter create \u{b7} Tab edit name \u{b7} Esc cancel"
        } else {
            "Enter/Tab edit base \u{b7} Esc cancel"
        },
        Surface::McpPackageValueEdit { field, .. } => if is_secret(*field) {
            "Enter save secret \u{b7} empty removes \u{b7} Esc discard"
        } else {
            "Enter save value \u{b7} Esc discard"
        },
        Surface::Models { models, .. } => if models.for_setting {
            "\u{2191}/\u{2193} navigate \u{b7} Enter save \u{b7} Esc back"
        } else {
            "\u{2191}/\u{2193} navigate \u{b7} Enter select \u{b7} f favourite \u{b7} Ctrl+D agent default \u{b7} Esc back"
        },
        Surface::Profiles { kind, .. } => if *kind == ProfileKind::Agent {
            "\u{2191}/\u{2193} navigate \u{b7} Enter select \u{b7} e edit \u{b7} Esc back"
        } else {
            "\u{2191}/\u{2193} navigate \u{b7} Enter select \u{b7} Esc back"
        },
        Surface::SkillWizard(wizard) => if wizard.step == SkillWizardStep::Content {
            "Enter save \u{b7} Ctrl+Enter newline \u{b7} Esc back"
        } else if wizard.step == SkillWizardStep::Scope {
            "\u{2191}/\u{2193} scope \u{b7} Enter next \u{b7} Esc back"
        } else {
            "Enter next \u{b7} Esc back"
        },
        Surface::AgentWizard(wizard) => if wizard.step == AgentWizardStep::Prompt {
            "Enter save \u{b7} Ctrl+Enter newline \u{b7} Esc back"
        } else {
            "Enter save \u{b7} Esc back"
        },
        Surface::StatusLine(editor) => if modules_shown(&editor.mode) {
            "\u{2191}/\u{2193} navigate \u{b7} Enter toggle \u{b7} \u{2190}/\u{2192} reorder \u{b7} c color \u{b7} r reset \u{b7} Esc save"
        } else if colors_shown(&editor.mode) {
            "\u{2191}/\u{2193} colors \u{b7} Enter select \u{b7} Esc back"
        } else {
            "Enter apply #RRGGBB \u{b7} Esc back"
        },
        Surface::Settings(settings) => if settings.query.as_str().is_empty() {
            "type to search \u{b7} \u{2191}/\u{2193} navigate \u{b7} \u{2190}/\u{2192} tabs \u{b7} Enter edit \u{b7} Ctrl+R reset \u{b7} Esc close"
        } else {
            "type to search \u{b7} \u{2191}/\u{2193} navigate \u{b7} Enter edit \u{b7} Ctrl+R reset \u{b7} Esc close"
        },
        Surface::SupervisedWork(work) => if work.show_past {
            "\u{2191}/\u{2193} navigate \u{b7} Enter expand \u{b7} p show active \u{b7} Esc close"
        } else {
            "\u{2191}/\u{2193} navigate \u{b7} Enter expand \u{b7} k kill \u{b7} p show past \u{b7} Esc close"
        },
        Surface::Expanded { kind, .. } => if is_directory(kind) {
            "\u{2191}/\u{2193} navigate \u{b7} \u{2190}/\u{2192} collapse/expand \u{b7} Enter open \u{b7} PgUp/PgDn page \u{b7} Esc close"
        } else {
            "\u{2191}/\u{2193} scroll \u{b7} PgUp/PgDn page \u{b7} Home/End jump \u{b7} Enter/Esc close"
        },
        Surface::HistoryTree(tree) => if tree.purpose == TreePurpose::Fork {
            "type to search \u{b7} \u{2191}/\u{2193} messages \u{b7} p preview \u{b7} ScrollToMessage scroll to \u{b7} Enter fork \u{b7} Shift+F hard fork \u{b7} Esc cancel"
        } else {
            "type to search \u{b7} \u{2191}/\u{2193} messages \u{b7} p preview \u{b7} ScrollToMessage scroll to \u{b7} Enter switch to \u{b7} Shift+F hard fork \u{b7} Esc close"
        },
        Surface::McpOAuth { prompt, completion, .. } => if is_connected(completion) {
            "Enter/Esc continue"
        } else if is_device(prompt) {
            "Enter reopen device login \u{b7} c copy URL \u{b7} C copy code \u{b7} Esc back"
        } else {
            "Enter reopen browser login \u{b7} c copy URL \u{b7} Esc back"
        },
        Surface::PermissionRuleEdit { scope, .. } => if *scope == PermissionScope::Conversation {
            "Enter submit for conversation \u{b7} Esc cancel"
        } else if *scope == PermissionScope::Project {
            "Enter submit for project \u{b7} Esc cancel"
        } else {
            "Enter submit globally \u{b7} Esc cancel"
        },
        Surface::PersistentPermissionEdit { scope, .. } => if *scope == PermissionScope::Conversation {
            "Enter save for conversation \u{b7} Esc cancel"
        } else if *scope == PermissionScope::Project {
            "Enter save for project \u{b7} Esc cancel"
        } else {
            "Enter save globally \u{b7} Esc cancel"
        },
        Surface::Permission { prompt, answers, .. } => permission_status_text(prompt, answers.as_slice()),
        Surface::WebSearchPicker(picker) => web_search_status_text(picker),
        Surface::Providers(providers) => providers_status_text(providers, visible),
        Surface::ProviderSetup(setup) => setup_status_text(setup),
    }
}

} // verus!
