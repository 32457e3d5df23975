use cagent_surfaces::agent_drafts::{
    draft_name, edit_agent_wizard, new_agent_wizard, save_agent_draft, surface_after_saving,
    AgentDraft,
};
use cagent_surfaces::agents::{
    AgentAvailability, AgentWizardOutcome, AgentWizardStep, ProfileKind, ProfileRow, ProfilesStep,
    SkillRow, SkillWizardStep, SkillsStep,
};
use cagent_surfaces::choices::TextSet;
use cagent_surfaces::app::{App, CloseStep};
use cagent_surfaces::dialogs::RuleDisplay;
use cagent_surfaces::follow::{consequence_of, Change, Said};
use cagent_surfaces::interaction::{PatternEdit, PermissionScope, QuestionStep};
use cagent_surfaces::key::{KeyCode, KeyEvent, KeyModifiers};
use cagent_surfaces::list::ListState;
use cagent_surfaces::mcp::{
    mcp_definition_template, McpFormDraft, McpFormField, McpLocation, McpScope,
    McpTransportConfig,
};
use cagent_surfaces::mcp_control::{
    AddScopeStep, ConfirmStep, FieldStep, McpFormStep, McpServerStep, McpServersStep,
    PackageSetupStep, TransportStep,
};
use cagent_surfaces::mcp_package::{
    package_draft, McpPackageField, McpPackageParameter, McpPackageParameterType, McpPackageSecret,
    McpParameterValue,
};
use cagent_surfaces::pickers::{
    ConversationRow, Conversations, HistoryRow, HistoryStep, HistoryTree, PathsStep,
    PermissionsStep, TreePurpose, UsageStep, WorktreeNewStep, WorktreesStep,
};
use cagent_surfaces::providers::{
    AuthFlow, EffortFlow, ModelRow, ModelStep, Models, ProviderRow, ProviderSetupStep, Providers,
    ProvidersStep, TextField, WebSearchPicker, WebSearchProvider, WebSearchRow, WebSearchStep,
};
use cagent_surfaces::render_mcp::{
    McpCatalogRow, McpMutationPreview, McpOAuthPrompt, McpRuntimeStatus, McpServerRow,
};
use cagent_surfaces::render_menus::{UsageOverview, UsageSummary};
use cagent_surfaces::render_pickers::UsageBreakdownKind;
use cagent_surfaces::reports::Inquiry;
use cagent_surfaces::reports_mcp::ServerChange;
use cagent_surfaces::settings::{
    SettingDefinition, SettingKind, SettingRow, SettingStep, Settings, SettingsStep,
};
use cagent_surfaces::supervised_work::{
    BackgroundStep, BackgroundSurface, SupervisedWork, SupervisedWorkState, SupervisedWorkTarget,
    Terminal,
};
use cagent_surfaces::surface::Surface;
use cagent_surfaces::surface_key::SurfaceStep;

fn app(surfaces: Vec<Surface>) -> App {
    App {
        surfaces,
        observer: false,
        onboarding: true,
        supervised_work: SupervisedWorkState::new(),
        history_preview: None,
        observer_command: "typed".into(),
        pending_action: None,
        provider_model: String::new(),
        effort: Some("high".into()),
        notice: None,
        enabled_providers: TextSet::new(),
        pending_interaction: None,
        last_picker_click: None,
    }
}

fn follow(surface: Surface, step: SurfaceStep) -> (App, bool) {
    let mut app = app(vec![Surface::Onboarding, surface]);
    let perform = app.follow(&step, &["one".to_owned(), "two".to_owned()]);
    (app, perform)
}

fn worktrees() -> Surface {
    Surface::Worktrees { rows: vec![], list: ListState::selectable(1) }
}

#[test]
fn steps_that_stay_change_nothing() {
    let (app, perform) = follow(worktrees(), SurfaceStep::Stay);
    assert!(!perform);
    assert_eq!(app.surfaces.len(), 2);
    assert!(matches!(app.surfaces[1], Surface::Worktrees { .. }));
    assert_eq!(app.notice, None);
}

#[test]
fn worktrees_are_described_in_place_of_their_list() {
    let (app, perform) = follow(worktrees(), SurfaceStep::Worktrees(WorktreesStep::New));
    assert!(!perform);
    assert_eq!(app.surfaces.len(), 2);
    assert!(
        matches!(&app.surfaces[1], Surface::WorktreeNew(new) if new.name.is_empty() && !new.editing_base)
    );
    let (app, perform) = follow(worktrees(), SurfaceStep::Worktrees(WorktreesStep::Switch(0)));
    assert!(perform);
    assert!(app.surfaces.is_empty());
    let (app, perform) =
        follow(worktrees(), SurfaceStep::WorktreeNew(WorktreeNewStep::NameRequired));
    assert!(!perform);
    assert_eq!(app.notice.as_deref(), Some("worktree name is required"));

    let (mut app, _) = follow(worktrees(), SurfaceStep::Stay);
    app.worktree_created(Err("taken".into()));
    assert_eq!(app.notice.as_deref(), Some("worktree failed · taken"));
    assert_eq!(app.surfaces.len(), 2);
    app.worktree_created(Ok(()));
    assert!(app.surfaces.is_empty());
}

fn usage() -> UsageOverview {
    let summary = || UsageSummary {
        calls: 0,
        input: None,
        cache_read: None,
        cache_write: None,
        output: None,
        cost: None,
    };
    UsageOverview {
        current_conversation: summary(),
        rolling_24_hours: summary(),
        rolling_7_days: summary(),
        rolling_30_days: summary(),
        total: summary(),
    }
}

#[test]
fn usage_is_reset_once_confirmed() {
    let shown = Surface::Usage { overview: usage(), list: ListState::selectable(4) };
    let (mut app, perform) = follow(shown, SurfaceStep::Usage(UsageStep::Reset));
    assert!(!perform);
    assert!(matches!(app.surfaces[2], Surface::UsageResetConfirm { selected: 0 }));
    assert!(!app.follow(&SurfaceStep::Confirm(ConfirmStep::Stay), &[]));
    assert!(app.follow(&SurfaceStep::Confirm(ConfirmStep::Confirm), &[]));
    assert_eq!(app.surfaces.len(), 3);
    app.usage_reset(usage());
    assert_eq!(app.surfaces.len(), 2);
    assert!(matches!(app.surfaces[1], Surface::Usage { .. }));
    assert_eq!(app.notice.as_deref(), Some("global usage reset"));
    app.usage_broken_down(UsageBreakdownKind::Model, Err("offline".into()));
    assert_eq!(app.notice.as_deref(), Some("usage breakdown unavailable · offline"));
    app.usage_broken_down(UsageBreakdownKind::Model, Ok(vec![]));
    assert!(matches!(app.surfaces[2], Surface::UsageBreakdown { .. }));
}

#[test]
fn confirmations_close_when_declined() {
    let (app, perform) = follow(
        Surface::UsageResetConfirm { selected: 0 },
        SurfaceStep::Confirm(ConfirmStep::Cancel),
    );
    assert!(!perform);
    assert_eq!(app.surfaces.len(), 1);
}

#[test]
fn permissions_are_edited_and_listed_again() {
    let rule = || RuleDisplay { label: None, hint: String::new(), path: false, tokens: vec![] };
    let edit = || PatternEdit { pattern: "ls *".into(), cursor: 4 };
    let list = || Surface::Permissions { rows: vec![], list: ListState::selectable(3) };
    let (mut app, _) = follow(list(), SurfaceStep::Permissions(PermissionsStep::NotEditable));
    assert_eq!(
        app.notice.as_deref(),
        Some("this permission has no editable path or command matcher")
    );
    app.open_rule_edit(true, edit(), PermissionScope::Project, rule());
    assert!(matches!(app.surfaces[2], Surface::PersistentPermissionEdit { .. }));
    app.permissions_changed(true, 2, Err("locked".into()));
    assert_eq!(app.notice.as_deref(), Some("permission update failed · locked"));
    app.permissions_changed(true, 2, Ok(vec![]));
    assert_eq!(app.surfaces.len(), 2);
    assert!(
        matches!(&app.surfaces[1], Surface::Permissions { list, .. } if list.selected == Some(0))
    );
    assert_eq!(app.notice.as_deref(), Some("permission updated"));
    app.permissions_changed(false, 0, Ok(vec![]));
    assert_eq!(app.surfaces.len(), 2);
    assert_eq!(app.notice.as_deref(), Some("permission deleted"));

    app.open_rule_edit(false, edit(), PermissionScope::Project, rule());
    assert!(matches!(app.surfaces[2], Surface::PermissionRuleEdit { .. }));
    app.rule_sent(PermissionScope::Project, Err("gone".into()));
    assert_eq!(app.notice.as_deref(), Some("approval response failed · gone"));
    app.rule_sent(PermissionScope::Project, Ok(()));
    assert_eq!(app.surfaces.len(), 1);
    assert_eq!(app.notice.as_deref(), Some("edited permission saved for this project"));
}

#[test]
fn answers_close_their_surfaces_once_sent() {
    let (mut app, perform) = follow(Surface::Onboarding, SurfaceStep::Question(QuestionStep::Respond));
    assert!(perform);
    app.answered(Inquiry::Question, Err("offline".into()));
    assert_eq!(app.notice.as_deref(), Some("question response failed · offline"));
    assert_eq!(app.surfaces.len(), 2);
    app.answered(Inquiry::Plan, Err("offline".into()));
    assert_eq!(app.notice.as_deref(), Some("plan response failed · offline"));
    app.pending_interaction = Some(7);
    app.answered(Inquiry::Question, Ok(()));
    assert_eq!(app.surfaces.len(), 1);
    assert_eq!(app.pending_interaction, Some(7));
    app.answered(Inquiry::Plan, Ok(()));
    assert_eq!(app.pending_interaction, None);
}

fn search_row(provider: WebSearchProvider, ready: bool) -> WebSearchRow {
    WebSearchRow {
        provider,
        label: "exa".into(),
        display_name: "Exa".into(),
        active: false,
        ready,
    }
}

fn search() -> Surface {
    Surface::WebSearchPicker(WebSearchPicker {
        rows: vec![search_row(WebSearchProvider::Exa, false)],
        list: ListState::selectable(2),
        query: String::new(),
        query_cursor: 0,
    })
}

#[test]
fn search_providers_are_set_up() {
    let (mut app, _) = follow(search(), SurfaceStep::WebSearch(WebSearchStep::SetUp(0)));
    assert!(
        matches!(&app.surfaces[2], Surface::WebSearchSetup { provider: WebSearchProvider::Exa, label, .. } if label == "exa")
    );
    app.web_search_saved(Err("bad key".into()));
    assert_eq!(app.notice.as_deref(), Some("bad key"));
    assert_eq!(app.surfaces.len(), 3);
    app.web_search_saved(Ok(vec![search_row(WebSearchProvider::Exa, true)]));
    assert_eq!(app.surfaces.len(), 2);
    assert!(matches!(&app.surfaces[1], Surface::WebSearchPicker(picker) if picker.rows[0].ready));
    app.web_search_removed(vec![], Ok(()));
    assert!(
        matches!(&app.surfaces[1], Surface::WebSearchPicker(picker) if picker.list.item_count == 1)
    );
    let (app, _) = follow(search(), SurfaceStep::WebSearch(WebSearchStep::AskToConnect));
    assert_eq!(app.notice.as_deref(), Some("connect a ChatGPT subscription in /providers"));
}

#[test]
fn search_providers_that_fail_are_set_up_again() {
    let (mut app, perform) = follow(search(), SurfaceStep::WebSearch(WebSearchStep::Use(0)));
    assert!(perform);
    app.web_search_used(0, Err("not ready".into()));
    assert_eq!(app.notice.as_deref(), Some("not ready"));
    assert!(matches!(app.surfaces[2], Surface::WebSearchSetup { .. }));
    let (mut app, _) = follow(search(), SurfaceStep::WebSearch(WebSearchStep::Use(0)));
    app.web_search_used(0, Ok(()));
    assert_eq!(app.surfaces.len(), 1);
}

#[test]
fn chatgpt_is_not_set_up_for_search() {
    let setup = |provider| Surface::WebSearchSetup {
        provider,
        label: String::new(),
        field: TextField { value: String::new(), cursor: 0 },
    };
    let (app, perform) = follow(setup(WebSearchProvider::Chatgpt), SurfaceStep::Written(true));
    assert!(!perform);
    assert_eq!(app.surfaces.len(), 1);
    assert_eq!(app.notice.as_deref(), Some("connect ChatGPT from /providers"));
    let (app, perform) = follow(setup(WebSearchProvider::Exa), SurfaceStep::Written(true));
    assert!(perform);
    assert_eq!(app.surfaces.len(), 2);
}

fn provider(setup: Option<&str>) -> ProviderRow {
    ProviderRow {
        id: "p".into(),
        label: "Provider".into(),
        status: "connected".into(),
        enabled: true,
        managed_auth: true,
        api_key_auth: false,
        has_managed_api_key: false,
        setup_instructions: setup.map(str::to_owned),
        configuration_instructions: "log in".into(),
        credential_environment_variable: Some("KEY".into()),
        auth_flows: vec![AuthFlow::Browser],
    }
}

fn providers(row: ProviderRow) -> Surface {
    Surface::Providers(Providers {
        rows: vec![row],
        list: ListState::selectable(2),
        query: String::new(),
        query_cursor: 0,
        model_configuration_follows: false,
    })
}

#[test]
fn providers_are_set_up_from_their_rows() {
    let (app, _) = follow(
        providers(provider(Some("connect first"))),
        SurfaceStep::Providers(ProvidersStep::SetUp(0)),
    );
    let Surface::ProviderSetup(setup) = &app.surfaces[2] else {
        panic!("expected a setup");
    };
    assert_eq!(setup.instructions, "connect first");
    assert_eq!(setup.credential_environment_variable.as_deref(), Some("KEY"));
    assert!(setup.managed_auth);
    let (app, _) =
        follow(providers(provider(None)), SurfaceStep::Providers(ProvidersStep::Reconfigure(0)));
    let Surface::ProviderSetup(setup) = &app.surfaces[2] else {
        panic!("expected a setup");
    };
    assert_eq!(setup.instructions, "log in");
    assert_eq!(setup.credential_environment_variable, None);
    assert!(setup.managed_auth && !setup.api_key_auth);
    let (app, perform) =
        follow(providers(provider(None)), SurfaceStep::Providers(ProvidersStep::Close));
    assert!(perform);
    assert_eq!(app.surfaces.len(), 1);
}

#[test]
fn providers_are_removed_and_switched() {
    let (mut app, perform) =
        follow(providers(provider(None)), SurfaceStep::Providers(ProvidersStep::Remove(0)));
    assert!(perform);
    app.provider_toggled(0, Ok((true, "connected".into())));
    assert!(app.enabled_providers.contains("p"));
    app.provider_toggled(0, Ok((false, "disabled".into())));
    assert!(app.enabled_providers.is_empty());
    assert!(
        matches!(&app.surfaces[1], Surface::Providers(list) if list.rows[0].status == "disabled" && !list.rows[0].enabled)
    );
    app.enabled_providers.insert("p".into());
    app.provider_removed(0, Err("busy".into()));
    assert!(!app.enabled_providers.is_empty());
    assert_eq!(app.notice.as_deref(), Some("busy"));
    app.provider_removed(0, Ok(()));
    assert_eq!(app.notice.as_deref(), Some("Provider disconnected"));
    assert!(app.enabled_providers.is_empty());
    let Surface::Providers(list) = &app.surfaces[1] else {
        panic!("expected providers");
    };
    assert_eq!(list.rows[0].status, "not setup");
    assert_eq!(list.rows[0].setup_instructions.as_deref(), Some("Connect your Provider account."));
}

#[test]
fn api_keys_close_their_setup() {
    let (mut app, _) = follow(
        providers(provider(Some("key"))),
        SurfaceStep::Providers(ProvidersStep::SetUp(0)),
    );
    if let Surface::ProviderSetup(setup) = &mut app.surfaces[2] {
        setup.api_key = "SECRET".into();
    }
    app.api_key_saved(Err("refused".into()));
    assert_eq!(app.notice.as_deref(), Some("refused"));
    app.api_key_saved(Ok(vec![]));
    assert_eq!(app.notice.as_deref(), Some("Provider API key saved"));
    assert!(matches!(&app.surfaces[1], Surface::Providers(list) if list.rows.is_empty()));
    assert_eq!(app.surfaces.len(), 2);
}

#[test]
fn device_logins_clear_the_notice() {
    let step = |clear| {
        SurfaceStep::ProviderSetup(ProviderSetupStep::Begin {
            flow: AuthFlow::DeviceCode,
            launch: true,
            clear,
        })
    };
    let consequence = consequence_of(&Surface::Onboarding, &step(true), &[]);
    assert!(matches!(consequence.said, Said::Cleared) && consequence.perform);
    let consequence = consequence_of(&Surface::Onboarding, &step(false), &[]);
    assert!(matches!(consequence.said, Said::Nothing) && consequence.perform);
    assert!(matches!(consequence.change, Change::Keep));
}

fn models(for_setting: bool) -> Surface {
    Surface::Models {
        models: Models {
            rows: vec![ModelRow {
                provider: "p".into(),
                id: "m".into(),
                label: "M".into(),
                detail: String::new(),
                efforts: vec!["low".into(), "high".into()],
                current: false,
                favourite: false,
            }],
            list: ListState::selectable(1),
            query: String::new(),
            query_cursor: 0,
            for_setting,
        },
        setting: None,
    }
}

#[test]
fn efforts_are_chosen_above_the_models() {
    let mut app = app(vec![models(false)]);
    assert_eq!(app.model_selected(0, EffortFlow::Choose, false), Some(ModelStep::ChooseEffort(1)));
    assert!(
        matches!(&app.surfaces[1], Surface::Effort { rows, list, .. } if rows.len() == 2 && list.selected == Some(1))
    );
    assert!(app.follow(&SurfaceStep::Picked(Some(0)), &[]));
    assert_eq!(app.surfaces.len(), 1);
    assert_eq!(app.model_selected(0, EffortFlow::Automatic, false), Some(ModelStep::ApplyAutomatic));
    assert!(app.surfaces.is_empty());
    app.push(models(true));
    assert_eq!(app.model_selected(3, EffortFlow::Choose, false), None);
    assert_eq!(app.model_selected(0, EffortFlow::Choose, false), Some(ModelStep::Apply));
    app.push(models(false));
    app.agent_default_used();
    assert!(app.surfaces.is_empty() && !app.onboarding);
    assert_eq!(app.notice.as_deref(), Some("using agent model default"));
}

#[test]
fn favourite_models_stay_selected() {
    let row = |id: &str, favourite| ModelRow {
        provider: "p".into(),
        id: id.into(),
        label: String::new(),
        detail: String::new(),
        efforts: vec![],
        current: false,
        favourite,
    };
    let mut app = app(vec![Surface::Models {
        models: Models {
            rows: vec![row("a", false), row("b", false)],
            list: ListState::selectable(2),
            query: String::new(),
            query_cursor: 0,
            for_setting: false,
        },
        setting: None,
    }]);
    app.model_favoured(vec![row("b", true), row("a", false)], &[0, 1], "p", "a");
    let Surface::Models { models, .. } = &app.surfaces[0] else {
        panic!("expected models");
    };
    assert!(models.rows[0].favourite);
    assert_eq!(models.list.selected, Some(1));
}

#[test]
fn searches_start_over() {
    let mut app = app(vec![settings(SettingKind::Text)]);
    app.list_searched(5);
    assert!(
        matches!(&app.surfaces[0], Surface::Settings(settings) if settings.list.item_count == 5)
    );
    app.push(models(false));
    app.list_searched(0);
    assert!(
        matches!(&app.surfaces[1], Surface::Models { models, .. } if models.list.selected.is_none())
    );
}

fn profiles() -> Surface {
    Surface::Profiles {
        kind: ProfileKind::Agent,
        rows: vec![
            ProfileRow { name: "one".into(), detail: String::new(), selectable: true },
            ProfileRow { name: "Add".into(), detail: String::new(), selectable: true },
        ],
        list: ListState::selectable(2),
    }
}

#[test]
fn agents_are_added_and_edited_in_place_of_their_list() {
    let (app, _) = follow(profiles(), SurfaceStep::Profiles(ProfilesStep::Add));
    let Surface::AgentWizard(wizard) = &app.surfaces[1] else {
        panic!("expected a wizard");
    };
    assert_eq!(wizard.parents, ["None", "one", "two"]);
    assert_eq!(wizard.step, AgentWizardStep::Name);
    assert!(!wizard.editing);
    let (mut app, _) = follow(profiles(), SurfaceStep::Profiles(ProfilesStep::Edit(0)));
    assert!(
        matches!(&app.surfaces[1], Surface::AgentEdit { name, list } if name == "one" && list.item_count == 5)
    );
    let draft = AgentDraft {
        extends: Some("two".into()),
        description: Some("helps".into()),
        prompt: None,
        appends_prompt: false,
        availability: None,
    };
    app.agent_draft_read(
        "one".into(),
        &draft,
        AgentAvailability::Both,
        &["one".into(), "two".into()],
        2,
    );
    let Surface::AgentWizard(wizard) = &app.surfaces[1] else {
        panic!("expected a wizard");
    };
    assert_eq!(wizard.parents, ["None", "two"]);
    assert_eq!(wizard.parent_list.selected, Some(1));
    assert_eq!(wizard.step, AgentWizardStep::Parent);
    assert_eq!(wizard.availability, 2);
    app.agent_saved(AgentWizardOutcome::SaveParent, Err("locked".into()));
    assert_eq!(app.notice.as_deref(), Some("Agent update failed · locked"));
    app.agent_saved(AgentWizardOutcome::SaveParent, Ok(()));
    assert!(
        matches!(&app.surfaces[1], Surface::AgentEdit { list, .. } if list.selected == Some(2))
    );
    let (mut app, _) = follow(profiles(), SurfaceStep::Profiles(ProfilesStep::Add));
    app.agent_saved(AgentWizardOutcome::SaveAll, Ok(()));
    assert!(app.surfaces.is_empty());
}

#[test]
fn names_are_asked_for() {
    let (app, perform) =
        follow(profiles(), SurfaceStep::AgentWizard(AgentWizardOutcome::NameRequired));
    assert!(!perform);
    assert_eq!(app.notice.as_deref(), Some("agent name required"));
    let (app, _) = follow(profiles(), SurfaceStep::AgentWizard(AgentWizardOutcome::NameTaken));
    assert_eq!(app.notice.as_deref(), Some("agent name taken"));
    let (mut app, perform) = follow(profiles(), SurfaceStep::Profiles(ProfilesStep::Change(0)));
    assert!(perform);
    app.profile_changed();
    assert!(app.surfaces.is_empty());
}

#[test]
fn unchanged_agents_keep_their_drafts() {
    let draft = || AgentDraft {
        extends: Some("two".into()),
        description: Some("helps".into()),
        prompt: Some("Be brief.".into()),
        appends_prompt: true,
        availability: Some(AgentAvailability::Subagent),
    };
    let wizard =
        edit_agent_wizard("one".into(), &draft(), AgentAvailability::User, &["two".into()], 4);
    assert_eq!(wizard.prompt.cursor(), 9);
    let mut saved = draft();
    save_agent_draft(&mut saved, &wizard, AgentWizardOutcome::SaveAll);
    assert_eq!(saved.extends.as_deref(), Some("two"));
    assert_eq!(saved.description.as_deref(), Some("helps"));
    assert_eq!(saved.prompt.as_deref(), Some("Be brief."));
    assert_eq!(saved.availability, Some(AgentAvailability::Subagent));
    assert_eq!(draft_name(&wizard, AgentWizardOutcome::SaveParent), "one");
}

#[test]
fn empty_texts_are_left_out_of_drafts() {
    let mut wizard = new_agent_wizard(&[]);
    wizard.name = "new".into();
    wizard.parent = "  base ".into();
    wizard.availability = 2;
    let mut draft = AgentDraft {
        extends: None,
        description: Some("old".into()),
        prompt: Some("old".into()),
        appends_prompt: false,
        availability: None,
    };
    save_agent_draft(&mut draft, &wizard, AgentWizardOutcome::SaveParent);
    assert_eq!(draft.extends.as_deref(), Some("base"));
    assert_eq!(draft.prompt.as_deref(), Some("old"));
    assert!(!draft.appends_prompt);
    save_agent_draft(&mut draft, &wizard, AgentWizardOutcome::SaveAll);
    assert_eq!(draft.description, None);
    assert_eq!(draft.prompt, None);
    assert!(draft.appends_prompt);
    assert_eq!(draft.availability, Some(AgentAvailability::Both));
    assert_eq!(draft_name(&wizard, AgentWizardOutcome::SaveAll), "new");
    assert!(surface_after_saving(wizard, AgentWizardOutcome::SaveAll).is_none());
}

#[test]
fn parents_lead_on_to_the_end_of_the_prompt() {
    let mut wizard = new_agent_wizard(&["base".to_owned()]);
    wizard.prompt = cagent_surfaces::multiline_input::MultilineInput::new("abc".into(), 0);
    wizard.step = AgentWizardStep::Parent;
    assert_eq!(wizard.parent_key(KeyCode::Down), AgentWizardOutcome::Stay);
    assert_eq!(wizard.parent_key(KeyCode::Enter), AgentWizardOutcome::Stay);
    assert_eq!(wizard.parent, "base");
    assert_eq!(wizard.step, AgentWizardStep::Prompt);
    assert_eq!(wizard.prompt.cursor(), 3);
}

fn skill(name: &str, enabled: bool) -> SkillRow {
    SkillRow {
        name: name.into(),
        description: String::new(),
        source: "project".into(),
        enabled,
        system: false,
    }
}

#[test]
fn skills_are_described_deleted_and_switched() {
    let list = || Surface::Skills {
        rows: vec![skill("a", true), skill("b", true)],
        list: ListState::selectable(4),
    };
    let (mut app, _) = follow(list(), SurfaceStep::Skills(SkillsStep::New));
    assert!(
        matches!(&app.surfaces[1], Surface::SkillWizard(wizard) if wizard.project && wizard.step == SkillWizardStep::Scope)
    );
    app.skill_created(vec![skill("c", true)]);
    assert_eq!(app.surfaces.len(), 2);
    assert!(matches!(&app.surfaces[1], Surface::Skills { list, .. } if list.item_count == 3));
    let (mut app, _) = follow(list(), SurfaceStep::Skills(SkillsStep::Delete(1)));
    assert!(
        matches!(&app.surfaces[2], Surface::SkillDeleteConfirm { name, selected: 0 } if name == "b")
    );
    app.skill_deleted(vec![skill("a", true)]);
    assert_eq!(app.surfaces.len(), 1);
    app.skill_toggled("a", false);
    assert!(matches!(&app.surfaces[0], Surface::Skills { rows, .. } if !rows[0].enabled));
}

fn server() -> McpServerRow {
    McpServerRow {
        name: "docs".into(),
        agents: vec!["main".into()],
        scope: McpScope::Global,
        status: McpRuntimeStatus::Connected,
        status_text: "connected".into(),
        overridden: vec![],
        enabled: true,
        over_http: true,
        packaged: false,
    }
}

fn open_server() -> Surface {
    Surface::McpServer { server: server(), selected: 0, oauth_connected: true }
}

fn location(scope: McpScope) -> McpLocation {
    McpLocation { scope, agent: None }
}

#[test]
fn servers_are_added_step_by_step() {
    let list = Surface::McpServers { rows: vec![], list: ListState::selectable(3) };
    let (mut app, _) = follow(list, SurfaceStep::McpServers(McpServersStep::Add));
    assert!(matches!(app.surfaces[2], Surface::McpAddScope { selected: 0 }));
    assert!(!app.follow(&SurfaceStep::AddScope(AddScopeStep::Project), &[]));
    assert!(matches!(app.surfaces[3], Surface::McpTransport { scope: McpScope::Project, .. }));
    assert!(!app.follow(&SurfaceStep::Transport(TransportStep::Json), &[]));
    let Some(Surface::McpJsonEdit { location, editor, separate_name: None, .. }) =
        app.surfaces.pop()
    else {
        panic!("expected an editor");
    };
    assert_eq!(location.scope, McpScope::Project);
    assert_eq!(editor.text(), "{\n  \n}");
    assert_eq!(editor.cursor(), 6);
    app.surfaces[3] = Surface::McpTransport { scope: McpScope::Project, selected: 1 };
    assert!(!app.follow(&SurfaceStep::Transport(TransportStep::Form(ListState::selectable(9))), &[]));
    let Surface::McpForm { draft, list } = &app.surfaces[4] else {
        panic!("expected a form");
    };
    assert!(matches!(draft.definition.transport, McpTransportConfig::Stdio { .. }));
    assert_eq!(draft.name, "");
    assert_eq!(list.item_count, 9);
}

#[test]
fn fields_are_edited_in_a_copy() {
    let mut draft = McpFormDraft {
        original: Some((location(McpScope::Global), "docs".into())),
        location: location(McpScope::Global),
        name: "docs".into(),
        definition: mcp_definition_template(1),
    };
    draft.definition.agents = vec!["main".into()];
    let form = Surface::McpForm { draft, list: ListState::selectable(14) };
    let (mut app, _) = follow(
        form,
        SurfaceStep::McpForm(McpFormStep::Edit {
            field: McpFormField::Name,
            value: "docs".into(),
            cursor: 4,
        }),
    );
    let Surface::McpFieldEdit { draft, input, .. } = &mut app.surfaces[2] else {
        panic!("expected a field");
    };
    assert_eq!(draft.definition.agents, ["main"]);
    assert_eq!(input.value, "docs");
    draft.name = "renamed".into();
    assert!(!app.follow(&SurfaceStep::Field(FieldStep::Refused("no".into())), &[]));
    assert_eq!(app.notice.as_deref(), Some("Invalid MCP field · no"));
    assert!(matches!(&app.surfaces[1], Surface::McpForm { draft, .. } if draft.name == "docs"));
    assert!(!app.follow(&SurfaceStep::Field(FieldStep::Saved(2)), &[]));
    assert_eq!(app.surfaces.len(), 2);
    assert!(
        matches!(&app.surfaces[1], Surface::McpForm { draft, list } if draft.name == "renamed" && list.selected == Some(2))
    );
    app.form_moved("main".into());
    assert!(
        matches!(&app.surfaces[1], Surface::McpForm { draft, .. } if draft.location.scope == McpScope::Project)
    );
}

#[test]
fn package_values_are_edited_in_a_copy() {
    let secret = McpPackageSecret {
        id: "token".into(),
        label: "Token".into(),
        description: None,
        configured: false,
    };
    let parameter = McpPackageParameter {
        id: "roots".into(),
        label: "Roots".into(),
        kind: McpPackageParameterType::TextList,
        description: None,
    };
    let draft = package_draft(
        "files".into(),
        "Files".into(),
        vec![secret],
        vec![parameter],
        vec![Some(McpParameterValue::Texts(vec!["/a".into()]))],
    );
    let (mut app, _) = follow(
        Surface::McpPackageSetup { draft, selected: 2 },
        SurfaceStep::PackageSetup(PackageSetupStep::Edit {
            field: McpPackageField::Parameter(0),
            value: "/a".into(),
            cursor: 2,
        }),
    );
    let Surface::McpPackageValueEdit { draft, .. } = &app.surfaces[2] else {
        panic!("expected a value");
    };
    assert!(
        matches!(&draft.values[0], Some(McpParameterValue::Texts(texts)) if texts == &["/a"])
    );
    assert!(!app.follow(&SurfaceStep::Field(FieldStep::Refused("no".into())), &[]));
    assert_eq!(app.notice.as_deref(), Some("Invalid package value · no"));
    assert!(!app.follow(&SurfaceStep::Field(FieldStep::Saved(2)), &[]));
    assert_eq!(app.surfaces.len(), 2);
    assert!(matches!(app.surfaces[1], Surface::McpPackageSetup { selected: 2, .. }));
}

#[test]
fn tools_are_loaded_and_removals_confirmed() {
    let (app, perform) = follow(open_server(), SurfaceStep::McpServer(McpServerStep::Tools));
    assert!(perform);
    assert!(
        matches!(&app.surfaces[2], Surface::McpTools(tools) if tools.loading && tools.server == "docs")
    );
    let (mut app, perform) = follow(open_server(), SurfaceStep::McpServer(McpServerStep::Remove));
    assert!(!perform);
    assert!(
        matches!(&app.surfaces[2], Surface::McpRemoveConfirm { server, selected: 0 } if server.agents == ["main"])
    );
    app.servers_changed(ServerChange::Removed, Err("busy".into()));
    assert_eq!(app.notice.as_deref(), Some("MCP removal failed · busy"));
    app.servers_changed(ServerChange::Removed, Ok(vec![server()]));
    assert_eq!(app.surfaces.len(), 1);
    assert!(matches!(&app.surfaces[0], Surface::McpServers { list, .. } if list.item_count == 3));
    app.servers_changed(ServerChange::SetUp, Ok(vec![server()]));
    assert!(matches!(&app.surfaces[0], Surface::McpServers { list, .. } if list.item_count == 4));
    for (change, what) in [
        (ServerChange::Enabled, "MCP update failed · x"),
        (ServerChange::Saved, "MCP update failed · x"),
        (ServerChange::Imported, "MCP import failed · x"),
        (ServerChange::SetUp, "MCP package setup failed · x"),
    ] {
        app.servers_changed(change, Err("x".into()));
        assert_eq!(app.notice.as_deref(), Some(what));
    }
    app.import_refused("line 1");
    assert_eq!(app.notice.as_deref(), Some("Invalid MCP JSON · line 1"));
}

#[test]
fn servers_are_opened_for_editing() {
    let mut app = app(vec![]);
    app.open_catalog(vec![McpCatalogRow {
        name: "Files".into(),
        version: "1".into(),
        description: String::new(),
    }]);
    assert!(matches!(&app.surfaces[0], Surface::McpCatalog { list, .. } if list.item_count == 2));
    app.open_server(server(), false);
    app.open_form(location(McpScope::Global), "docs".into(), mcp_definition_template(2));
    let Surface::McpForm { draft, .. } = &app.surfaces[2] else {
        panic!("expected a form");
    };
    assert!(matches!(&draft.original, Some((_, name)) if name == "docs"));
    app.open_json(location(McpScope::Global), "docs".into(), "{}".into());
    assert!(
        matches!(&app.surfaces[3], Surface::McpJsonEdit { separate_name: Some(name), editor, .. } if name == "docs" && editor.cursor() == 2)
    );
    app.mutation_previewed(Err("no name".into()));
    assert_eq!(app.notice.as_deref(), Some("MCP draft is invalid · no name"));
    app.mutation_previewed(Ok(McpMutationPreview {
        requires_confirmation: false,
        affected: vec![],
        revealed: vec![],
        touched_agent_policies: vec![],
        touched_permission_rules: vec![],
    }));
    assert!(matches!(app.surfaces[4], Surface::McpMutationPreview { .. }));
    app.package_read(Ok(None));
    assert_eq!(app.notice.as_deref(), Some("package setup is unavailable"));
    app.package_read(Err("x".into()));
    assert_eq!(app.notice.as_deref(), Some("MCP package setup failed · x"));
}

#[test]
fn logins_to_servers_are_reported() {
    let mut app = app(vec![open_server()]);
    let prompt = || McpOAuthPrompt::Device {
        verification_url: "https://x".into(),
        user_code: "AB".into(),
    };
    app.logged_in("docs".into(), "Docs".into(), Ok(prompt()), true, false);
    assert_eq!(
        app.notice.as_deref(),
        Some("opened MCP authentication · could not copy device code")
    );
    assert!(matches!(&app.surfaces[1], Surface::McpOAuth { label, .. } if label == "Docs"));
    app.login_copied(true, true);
    assert_eq!(app.notice.as_deref(), Some("MCP OAuth device code copied"));
    app.login_copied(false, true);
    assert_eq!(app.notice.as_deref(), Some("MCP OAuth URL copied"));
    app.login_copied(false, false);
    assert_eq!(app.notice.as_deref(), Some("clipboard unavailable"));
    app.browser_opened(false);
    assert_eq!(app.notice.as_deref(), Some("browser unavailable"));
    app.surfaces.pop();
    app.logged_in("docs".into(), "Docs".into(), Err("denied".into()), true, true);
    assert_eq!(app.notice.as_deref(), Some("MCP login failed · denied"));
    app.logged_out(Err("busy".into()), server());
    assert_eq!(app.notice.as_deref(), Some("MCP logout failed · busy"));
    assert!(matches!(app.surfaces[0], Surface::McpServer { oauth_connected: true, .. }));
    app.logged_out(Ok(()), server());
    assert_eq!(app.notice.as_deref(), Some("MCP OAuth credentials removed"));
    assert!(matches!(app.surfaces[0], Surface::McpServer { oauth_connected: false, .. }));
}

fn setting(kind: SettingKind) -> SettingRow {
    SettingRow {
        definition: SettingDefinition {
            key: "ui.x".into(),
            label: "X".into(),
            description: "do x".into(),
            kind,
            section: 0,
            default_value: "true".into(),
        },
        effective_value: "true".into(),
        explicit_value: None,
        display_value: "true".into(),
    }
}

fn settings(kind: SettingKind) -> Surface {
    Surface::Settings(Settings {
        rows: vec![setting(kind)],
        section: 0,
        list: ListState::selectable(1),
        query: String::new(),
        query_cursor: 0,
    })
}

#[test]
fn settings_open_their_editors() {
    let open = |kind| follow(settings(kind), SurfaceStep::Settings(SettingsStep::Open(0)));
    let (app, _) = open(SettingKind::Boolean);
    assert!(
        matches!(&app.surfaces[2], Surface::SettingChoices { choices, .. } if choices[1].1 == "do not do x")
    );
    let (_, perform) = open(SettingKind::ModelPicker);
    assert!(perform);
    let (mut app, _) = open(SettingKind::Text);
    assert!(
        matches!(&app.surfaces[2], Surface::SettingInput { input, .. } if input.value == "true" && input.cursor == 4)
    );
    app.setting_saved(false, Err(" bad value \nat line 1".into()), 1);
    assert_eq!(app.notice.as_deref(), Some("invalid setting · bad value"));
    app.setting_saved(true, Err("bad".into()), 1);
    assert_eq!(app.notice.as_deref(), Some("setting could not be reset · bad"));
    app.setting_saved(false, Ok(vec![]), 0);
    assert_eq!(app.surfaces.len(), 2);
    assert!(
        matches!(&app.surfaces[1], Surface::Settings(settings) if settings.rows.is_empty() && settings.list.selected.is_none())
    );
    app.setting_reset(Ok(vec![setting(SettingKind::Text)]), 1);
    assert!(
        matches!(&app.surfaces[1], Surface::Settings(settings) if settings.list.selected == Some(0))
    );
}

#[test]
fn custom_values_are_written_in_place_of_choices() {
    let choices = vec![("custom".to_owned(), String::new())];
    let editor = Surface::SettingChoices {
        setting: setting(SettingKind::TomlChoices(choices.clone())).definition,
        choices,
        list: ListState::selectable(1),
        custom: None,
    };
    let (app, _) = follow(
        editor,
        SurfaceStep::Setting(SettingStep::Custom { value: "[]".into(), cursor: 2 }),
    );
    assert_eq!(app.surfaces.len(), 2);
    assert!(
        matches!(&app.surfaces[1], Surface::SettingInput { setting, input, .. } if setting.key == "ui.x" && input.value == "[]")
    );
}

#[test]
fn colors_are_asked_for_in_hex() {
    let (app, _) = follow(Surface::Onboarding, SurfaceStep::Refused(true));
    assert_eq!(app.notice.as_deref(), Some("enter a color as #RRGGBB"));
}

fn terminal(id: u128) -> SupervisedWork {
    SupervisedWork::Terminal {
        terminal: Terminal {
            id,
            owner: None,
            agent: None,
            active: true,
            output_cursor: 0,
            created_at: 0,
            visible_as_task: true,
            read_safe: true,
            status: "Running".into(),
            command: "sleep 1".into(),
        },
    }
}

#[test]
fn stopped_work_closes_its_list_when_nothing_is_left() {
    let list = |rows: Vec<SupervisedWork>| {
        let list = ListState::selectable(rows.len());
        Surface::SupervisedWork(BackgroundSurface { rows, list, show_past: false })
    };
    let (mut app, perform) = follow(
        list(vec![terminal(7), terminal(8)]),
        SurfaceStep::Background(BackgroundStep::Kill(1)),
    );
    assert!(!perform);
    assert!(matches!(
        app.surfaces[2],
        Surface::KillSupervisedWork { target: SupervisedWorkTarget::Terminal(8), selected: 0 }
    ));
    app.work_killed(SupervisedWorkTarget::Terminal(8), Err("busy".into()));
    assert_eq!(app.notice.as_deref(), Some("could not kill background work · busy"));
    app.work_killed(SupervisedWorkTarget::Terminal(8), Ok(()));
    assert_eq!(app.surfaces.len(), 2);
    let (mut app, _) =
        follow(list(vec![terminal(7)]), SurfaceStep::Background(BackgroundStep::Kill(0)));
    app.work_killed(SupervisedWorkTarget::Terminal(7), Ok(()));
    assert_eq!(app.surfaces.len(), 1);
}

#[test]
fn pickers_close_when_something_is_picked() {
    let (app, perform) = follow(
        Surface::Paths { rows: vec![], list: ListState::selectable(0), token_start: 0 },
        SurfaceStep::Paths(PathsStep::Complete(None)),
    );
    assert!(perform);
    assert_eq!(app.surfaces.len(), 1);
    let consequence =
        consequence_of(&Surface::Onboarding, &SurfaceStep::History(HistoryStep::HardFork(0)), &[]);
    assert!(matches!(consequence.change, Change::Close) && consequence.perform);
    let consequence =
        consequence_of(&Surface::Onboarding, &SurfaceStep::History(HistoryStep::Fork(0)), &[]);
    assert!(matches!(consequence.change, Change::Keep) && consequence.perform);
}

#[test]
fn trees_are_searched_and_left() {
    let row = |id, selectable| HistoryRow {
        id,
        selectable,
        has_target: false,
        timestamp: String::new(),
    };
    let mut app = app(vec![Surface::HistoryTree(HistoryTree {
        rows: vec![row(1, true), row(2, false), row(3, true)],
        list: ListState::selectable(3),
        purpose: TreePurpose::Browse,
        loading: false,
        revision: None,
        query: "x".into(),
        query_cursor: 1,
        opened_at_millis: 0,
    })]);
    app.history_searched(&[1, 2], Some(1), 10);
    assert!(
        matches!(&app.surfaces[0], Surface::HistoryTree(tree) if tree.list.selected == Some(1))
    );
    app.history_previewed(42);
    assert_eq!(app.observer_command, "");
    assert_eq!(app.close_history_preview(), Some(42));
    app.forked();
    assert!(app.surfaces.is_empty());
}

fn conversation(id: u128) -> ConversationRow {
    ConversationRow {
        id,
        title: "talk".into(),
        favourite: false,
        timestamp: String::new(),
        archived: false,
        model: None,
        message_count: 1,
    }
}

#[test]
fn conversations_are_listed_again() {
    let mut app = app(vec![Surface::Conversations(Conversations {
        rows: vec![conversation(1), conversation(2)],
        list: ListState::selectable(2),
        query: String::new(),
        query_cursor: 0,
        opened_at_millis: 0,
        include_archived: false,
    })]);
    let selected = |app: &App| match app.surfaces.last() {
        Some(Surface::Conversations(picker)) => (picker.rows.len(), picker.list.selected),
        _ => panic!("expected conversations"),
    };
    app.conversation_favoured(vec![conversation(2), conversation(1)], 1, 20);
    assert_eq!(selected(&app), (2, Some(1)));
    app.conversation_archived(vec![conversation(2)], 20);
    assert_eq!(selected(&app), (1, Some(0)));
    app.conversations_found(vec![conversation(3), conversation(4)]);
    assert_eq!(selected(&app), (2, Some(0)));
    assert!(!app.conversation_deleted(false, vec![conversation(4)], 20));
    assert_eq!(selected(&app), (1, Some(0)));
    assert!(app.conversation_deleted(true, vec![], 20));
    assert!(app.surfaces.is_empty());
}

#[test]
fn surfaces_come_back_when_closing_fails() {
    let mut app = app(vec![]);
    app.close_failed(CloseStep::KeepPlanning(worktrees()), "offline");
    assert!(matches!(app.surfaces[0], Surface::Worktrees { .. }));
    assert_eq!(app.notice.as_deref(), Some("plan response failed · offline"));
    app.pending_interaction = Some(7);
    app.close_performed(&CloseStep::OpenAgents);
    assert_eq!(app.pending_interaction, Some(7));
    app.close_performed(&CloseStep::KeepPlanning(worktrees()));
    assert_eq!(app.pending_interaction, None);
    app.close_failed(CloseStep::OpenAgents, "offline");
    assert_eq!(app.surfaces.len(), 1);
    app.renamed(Err("too long".into()));
    assert_eq!(app.notice.as_deref(), Some("too long"));
    app.renamed(Ok(()));
    assert!(app.surfaces.is_empty());
}

#[test]
fn typed_keys_reach_the_fields_of_new_worktrees() {
    let (mut app, _) = follow(worktrees(), SurfaceStep::Worktrees(WorktreesStep::New));
    let Surface::WorktreeNew(new) = &mut app.surfaces[1] else {
        panic!("expected a worktree");
    };
    let key = |code| cagent_surfaces::control::SurfaceKey {
        key: KeyEvent::new(code, KeyModifiers::none()),
        code,
        submit: code == KeyCode::Enter,
        insert_newline: false,
        cancel: false,
        close_surface: false,
        previous_mode: false,
        next_mode: false,
        model_picker: false,
        exit: false,
    };
    assert!(matches!(new.key(key(KeyCode::Char('w'))), WorktreeNewStep::Stay));
    assert!(matches!(new.key(key(KeyCode::Enter)), WorktreeNewStep::Stay));
    assert!(new.editing_base);
    let step = new.key(key(KeyCode::Enter));
    assert!(matches!(step, WorktreeNewStep::Create { name, base: None } if name == "w"));
}
