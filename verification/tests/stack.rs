use cagent_surfaces::agents::{SkillWizard, SkillWizardStep};
use cagent_surfaces::choices::TextSet;
use cagent_surfaces::app::{
    question_again, refresh_settings_surface, App, AppAction, AuthState, CloseStep,
    HistoryPreviewState, InputCompletion, ModelSelectionStep, ModelSelectionTarget,
    ProviderAvailability, ProviderCloseStep,
};
use cagent_surfaces::completion::CompletionStep;
use cagent_surfaces::interaction::{
    Permission, PermissionScope, PlanCompletion, Question, QuestionAnswer, QuestionOption,
    QuestionPrompt,
};
use cagent_surfaces::list::ListState;
use cagent_surfaces::mcp::McpScope;
use cagent_surfaces::multiline_input::MultilineInput;
use cagent_surfaces::permission::PermissionRequest;
use cagent_surfaces::pickers::{ConversationRow, Conversations, HistoryRow, TreePurpose};
use cagent_surfaces::providers::{AuthFlow, ModelRow, ProviderRow, ProviderSetup, Providers, TextField};
use cagent_surfaces::render_mcp::{
    McpOAuthCompletion, McpOAuthPrompt, McpRuntimeStatus, McpServerRow, McpToolRow, McpTools,
};
use cagent_surfaces::render_menus::{ListEntryKind, PathRow};
use cagent_surfaces::settings::{SettingDefinition, SettingKind, SettingRow, Settings};
use cagent_surfaces::single_line_input::SingleLineInput;
use cagent_surfaces::supervised_work::SupervisedWorkState;
use cagent_surfaces::surface::Surface;
use cagent_surfaces::surface_paste::{insert_surface_paste, PasteOutcome};

fn app(surfaces: Vec<Surface>) -> App {
    App {
        surfaces,
        observer: false,
        onboarding: false,
        supervised_work: SupervisedWorkState::new(),
        history_preview: None,
        observer_command: "typed".into(),
        pending_action: None,
        provider_model: String::new(),
        effort: None,
        notice: None,
        enabled_providers: TextSet::new(),
        pending_interaction: None,
        last_picker_click: None,
    }
}

fn message(id: u128) -> HistoryRow {
    HistoryRow { id, selectable: true, has_target: true, timestamp: "1m".into() }
}

#[test]
fn trees_open_load_and_close() {
    let mut app = app(vec![]);
    assert_eq!(app.open_history_purpose(), None);
    app.open_history_surface(TreePurpose::Fork, 5);
    assert_eq!(app.pending_action, Some(AppAction::LoadHistory(TreePurpose::Fork)));
    assert_eq!(app.open_history_purpose(), Some(TreePurpose::Fork));

    let rows = || vec![message(1), message(2), message(3)];
    app.apply_history_snapshot(TreePurpose::Browse, rows(), Some(1), &[], &[0, 1, 2], 2);
    assert!(matches!(&app.surfaces[0], Surface::HistoryTree(tree) if tree.loading));
    app.apply_history_snapshot(TreePurpose::Fork, rows(), Some(1), &[], &[0, 1, 2], 2);
    let Surface::HistoryTree(tree) = &app.surfaces[0] else {
        panic!("expected a tree");
    };
    assert!(!tree.loading);
    assert_eq!(tree.list.selected, Some(2));
    let later = vec![message(9), message(3), message(2)];
    app.apply_history_snapshot(TreePurpose::Fork, later, Some(2), &[0, 1, 2], &[0, 1, 2], 0);
    let Surface::HistoryTree(tree) = &app.surfaces[0] else {
        panic!("expected a tree");
    };
    assert_eq!(tree.list.selected, Some(1));
    assert_eq!(tree.revision, Some(2));

    app.push(Surface::Onboarding);
    app.close_history_surface();
    assert_eq!(app.surfaces.len(), 1);
    assert!(matches!(app.surfaces[0], Surface::Onboarding));
}

#[test]
fn observers_open_nothing() {
    let mut app = app(vec![]);
    app.observer = true;
    app.open_history_surface(TreePurpose::Browse, 0);
    app.open_mode_surface(vec![]);
    app.open_agent_surface(vec![]);
    app.open_model_surface_for_target(vec![], ModelSelectionTarget::Conversation, None, 0);
    assert!(app.surfaces.is_empty());
    assert!(matches!(app.complete_input("@x", 2, false, false), InputCompletion::Ignored));
    app.observer = false;
    app.open_background_surface();
    assert!(matches!(&app.surfaces[0], Surface::SupervisedWork(work) if !work.show_past));
}

#[test]
fn previews_end_with_the_live_conversation() {
    let mut app = app(vec![]);
    assert_eq!(app.close_history_preview(), None);
    assert_eq!(app.observer_command, "typed");
    app.history_preview = Some(HistoryPreviewState { latest_live: 42 });
    assert_eq!(app.close_history_preview(), Some(42));
    assert_eq!(app.observer_command, "");
    assert_eq!(app.close_history_preview(), None);
}

fn setup(managed: bool) -> ProviderSetup {
    ProviderSetup {
        provider_id: "p".into(),
        provider: "Provider".into(),
        instructions: "log in".into(),
        credential_environment_variable: None,
        auth_challenge: None,
        managed_auth: managed,
        api_key_auth: false,
        api_key: String::new(),
        api_key_cursor: 0,
        auth_flows: vec![AuthFlow::Browser],
        authenticated: false,
    }
}

fn provider() -> ProviderRow {
    ProviderRow {
        id: "p".into(),
        label: "Provider".into(),
        status: "connected".into(),
        enabled: true,
        managed_auth: true,
        api_key_auth: false,
        has_managed_api_key: false,
        setup_instructions: None,
        configuration_instructions: String::new(),
        credential_environment_variable: None,
        auth_flows: vec![AuthFlow::Browser],
    }
}

#[test]
fn logins_are_shown_where_they_are_waited_for() {
    let update = |auth: AuthState, managed: bool| {
        let mut app = app(vec![
            Surface::Providers(Providers {
                rows: vec![],
                list: ListState::selectable(1),
                query: String::new(),
                query_cursor: 0,
                model_configuration_follows: false,
            }),
            Surface::ProviderSetup(setup(managed)),
        ]);
        app.apply_provider_auth_update(
            &[ProviderAvailability { id: "p".into(), auth }],
            &[provider()],
        );
        let Surface::ProviderSetup(setup) = app.surfaces.pop().unwrap() else {
            panic!("expected a setup");
        };
        let Surface::Providers(providers) = app.surfaces.pop().unwrap() else {
            panic!("expected providers");
        };
        assert_eq!(providers.rows.len(), 1);
        assert_eq!(providers.rows[0].status, "connected");
        (setup.authenticated, setup.instructions, app.notice)
    };
    assert_eq!(
        update(AuthState::Connected, true),
        (true, "Provider connected.".to_owned(), Some("Provider connected".to_owned()))
    );
    assert_eq!(
        update(AuthState::Error { message: "denied".into() }, true),
        (false, "log in".to_owned(), Some("denied".to_owned()))
    );
    assert_eq!(
        update(AuthState::Expired { detail: "yesterday".into() }, true),
        (
            false,
            "log in".to_owned(),
            Some("Provider authentication expired · yesterday".to_owned())
        )
    );
    assert_eq!(update(AuthState::Missing, true), (false, "log in".to_owned(), None));
    assert_eq!(update(AuthState::Available, false), (false, "log in".to_owned(), None));
}

fn question() -> Question {
    Question {
        request: 7,
        questions: vec![QuestionPrompt {
            header: "One".into(),
            question: "Which?".into(),
            options: vec![QuestionOption { label: "A".into(), description: "first".into() }],
        }],
        origin: None,
        question_index: 0,
        option_index: 0,
        answers: vec![QuestionAnswer { selection: None, note: None }],
        answered: vec![false],
        editing_note: false,
        note_cursor: 0,
    }
}

fn request() -> PermissionRequest {
    PermissionRequest {
        id: 1,
        tool: "bash".into(),
        tool_label: "Bash".into(),
        origin: None,
        command: vec![],
        raw_command: None,
        command_tokens: vec![],
        message: "Allow?".into(),
        read_path: None,
        format: None,
        redirected_from: vec![],
        auto_review: None,
        arguments: None,
        argument_tokens: vec![],
    }
}

fn permission(note: &str) -> Surface {
    Surface::Permission {
        prompt: Permission {
            selected: 0,
            scope: PermissionScope::Conversation,
            diff_scroll: 0,
            denial_note: note.into(),
            editing_note: false,
            note_cursor: 0,
        },
        request: request(),
        choices: vec![],
        answers: vec![],
    }
}

fn skill(step: SkillWizardStep) -> Surface {
    Surface::SkillWizard(SkillWizard {
        project: false,
        scope_list: ListState::selectable(2),
        name: SingleLineInput::new(String::new(), 0),
        description: SingleLineInput::new(String::new(), 0),
        content: MultilineInput::new(String::new(), 0),
        step,
    })
}

#[test]
fn closing_leads_back() {
    let close = |surface: Surface| {
        let mut app = app(vec![Surface::ModelRequired, surface]);
        let step = app.close_surface();
        assert!(matches!(app.surfaces[0], Surface::ModelRequired));
        (step, app.surfaces.len())
    };
    assert!(matches!(close(Surface::Question(question())), (CloseStep::CancelQuestion(_), 1)));
    assert!(matches!(
        close(permission("  too risky ")),
        (CloseStep::DenyPermission { reason: Some(reason), .. }, 1) if reason == "too risky"
    ));
    assert!(matches!(
        close(permission("  ")),
        (CloseStep::DenyPermission { reason: None, .. }, 1)
    ));
    assert!(matches!(close(Surface::Onboarding), (CloseStep::DismissOnboarding, 1)));
    assert!(matches!(close(skill(SkillWizardStep::Content)), (CloseStep::Nothing, 2)));
    assert!(matches!(close(skill(SkillWizardStep::Scope)), (CloseStep::OpenSkills, 1)));
    assert!(matches!(
        close(Surface::ProviderSetup(setup(true))),
        (CloseStep::CancelProviderAuth(id), 1) if id == "p"
    ));
    assert!(matches!(close(Surface::ProviderSetup(setup(false))), (CloseStep::Nothing, 1)));
    assert!(matches!(
        close(Surface::AgentEdit { name: "a".into(), list: ListState::selectable(5) }),
        (CloseStep::OpenAgents, 1)
    ));
    assert!(matches!(app(vec![]).close_surface(), CloseStep::Nothing));
}

#[test]
fn cancelled_questions_start_again() {
    let again = question_again(Question {
        option_index: 1,
        editing_note: true,
        note_cursor: 3,
        ..question()
    });
    assert_eq!((again.option_index, again.editing_note, again.note_cursor), (0, false, 0));
}

fn server(name: &str, enabled: bool) -> McpServerRow {
    McpServerRow {
        name: name.into(),
        agents: vec![],
        scope: McpScope::Global,
        status: McpRuntimeStatus::Connected,
        status_text: "connected".into(),
        overridden: vec![],
        enabled,
        over_http: false,
        packaged: false,
    }
}

#[test]
fn servers_are_refreshed_wherever_they_are_shown() {
    let mut app = app(vec![
        Surface::McpServers {
            rows: vec![server("a", false), server("b", false)],
            list: ListState::selectable(5),
        },
        Surface::McpServer { server: server("b", false), selected: 0, oauth_connected: false },
        Surface::McpOAuth {
            server: "b".into(),
            label: "B".into(),
            prompt: McpOAuthPrompt::Browser { authorization_url: "https://x".into() },
            completion: McpOAuthCompletion::Waiting,
        },
    ]);
    assert_eq!(app.open_mcp_server().as_deref(), Some("b"));
    app.refresh_open_mcp_server("b", &server("b", true), true);
    let Surface::McpServers { rows, .. } = &app.surfaces[0] else {
        panic!("expected servers");
    };
    assert_eq!((rows[0].enabled, rows[1].enabled), (false, true));
    assert!(matches!(
        &app.surfaces[1],
        Surface::McpServer { server, oauth_connected: true, .. } if server.enabled
    ));
}

#[test]
fn tools_are_shown_once_a_server_runs() {
    let tools = || McpToolRow { name: "t".into(), description: String::new(), read_only: true };
    let refresh = |status| {
        let mut app = app(vec![Surface::McpTools(McpTools {
            server: "b".into(),
            tools: vec![],
            list: ListState::selectable(0),
            loading: true,
            failure: None,
        })]);
        app.refresh_loading_mcp_tools(status, "broken".into(), vec![tools()]);
        let Some(Surface::McpTools(shown)) = app.surfaces.pop() else {
            panic!("expected tools");
        };
        (shown.loading, shown.tools.len(), shown.failure)
    };
    assert_eq!(refresh(McpRuntimeStatus::Starting), (true, 0, None));
    assert_eq!(refresh(McpRuntimeStatus::Connected), (false, 1, None));
    assert_eq!(refresh(McpRuntimeStatus::Failed), (false, 1, Some("broken".to_owned())));
    assert_eq!(
        refresh(McpRuntimeStatus::AuthenticationRequired).2.as_deref(),
        Some("Login required · choose Login with OAuth in the server menu")
    );
}

fn conversation(id: u128, title: &str) -> ConversationRow {
    ConversationRow {
        id,
        title: title.into(),
        timestamp: "0".into(),
        model: None,
        message_count: 0,
        archived: false,
        favourite: false,
    }
}

#[test]
fn conversations_keep_their_selection() {
    let mut app = app(vec![Surface::Conversations(Conversations {
        rows: vec![conversation(1, "one"), conversation(2, "two")],
        list: ListState::selectable_at(2, 1, 8),
        query: String::new(),
        query_cursor: 0,
        opened_at_millis: 0,
        include_archived: false,
    })]);
    app.refresh_conversation_surface(vec![conversation(2, "two"), conversation(3, "three")], 1);
    let Surface::Conversations(picker) = &app.surfaces[0] else {
        panic!("expected conversations");
    };
    assert_eq!(picker.list.selected, Some(0));
    app.refresh_conversation_surface(vec![conversation(5, "five"), conversation(6, "six")], 1);
    let Surface::Conversations(picker) = &app.surfaces[0] else {
        panic!("expected conversations");
    };
    assert_eq!(picker.list.selected, Some(1));
}

fn model() -> ModelRow {
    ModelRow {
        provider: "p".into(),
        id: "m".into(),
        label: "M".into(),
        detail: String::new(),
        efforts: vec![],
        current: false,
        favourite: false,
    }
}

#[test]
fn models_are_chosen_for_what_they_were_opened_for() {
    let mut app = app(vec![]);
    app.open_model_surface_for_target(vec![], ModelSelectionTarget::Setting, None, 0);
    assert_eq!(app.notice.as_deref(), Some("no enabled provider models available"));
    assert!(app.surfaces.is_empty());
    app.open_model_surface_for_target(vec![], ModelSelectionTarget::Mode, None, 0);
    assert!(matches!(app.surfaces[0], Surface::ModelsUnavailable));
    app.surfaces[0] = Surface::PlanCompletion {
        plan: PlanCompletion {
            selected: 0,
            note: String::new(),
            editing_note: false,
            note_cursor: 0,
            mode_index: 0,
        },
        modes: vec![],
        colors: vec![],
        model: "old/model".into(),
        context_percent: None,
    };
    app.open_model_surface_for_target(vec![model()], ModelSelectionTarget::Mode, None, 3);
    assert!(matches!(
        app.apply_model_selection(ModelSelectionTarget::Setting, "p", "m"),
        ModelSelectionStep::SaveSetting(value) if value == "p/m"
    ));
    assert!(matches!(
        app.apply_model_selection(ModelSelectionTarget::Mode, "p", "m"),
        ModelSelectionStep::ModeSaved
    ));
    assert_eq!(app.provider_model, "p/m");
    assert_eq!(app.surfaces.len(), 1);
    assert!(matches!(&app.surfaces[0], Surface::PlanCompletion { model, .. } if model == "p/m"));
    app.onboarding = true;
    assert!(matches!(
        app.apply_model_selection(ModelSelectionTarget::Conversation, "p", "m"),
        ModelSelectionStep::ChangeModel
    ));
    app.model_changed();
    assert!(app.surfaces.is_empty() && !app.onboarding);
    app.forget_model();
    assert_eq!(app.provider_model, "");
}

#[test]
fn closed_providers_may_cost_the_model() {
    let mut app = app(vec![]);
    assert_eq!(app.reconcile_after_provider_close(None), ProviderCloseStep::Nothing);
    app.enabled_providers.insert("p".into());
    assert_eq!(app.reconcile_after_provider_close(Some("p")), ProviderCloseStep::Nothing);
    assert_eq!(app.reconcile_after_provider_close(Some("q")), ProviderCloseStep::ReplaceModel);
    assert_eq!(app.reconcile_after_provider_close(None), ProviderCloseStep::ChooseModel);
    app.observer = true;
    assert_eq!(app.reconcile_after_provider_close(None), ProviderCloseStep::Nothing);
    assert_eq!(app.reconcile_after_provider_close(Some("q")), ProviderCloseStep::Nothing);
}

#[test]
fn paths_are_completed_behind_an_at_sign() {
    let mut app = app(vec![]);
    let draft = "see @src/a";
    assert!(matches!(
        app.complete_input(draft, draft.len(), false, false),
        InputCompletion::Path { token_start: 4, prefix } if prefix == "src/a"
    ));
    for other in ["see src", "see @@x", "see @{x", "see @x "] {
        assert!(matches!(
            app.complete_input(other, other.len(), false, false),
            InputCompletion::Nothing
        ));
    }
    assert!(matches!(app.complete_input("@", 1, true, true), InputCompletion::AcceptAttachment));
    assert!(matches!(app.complete_input("@", 1, false, true), InputCompletion::AcceptCommand));
    let path = || PathRow { path: "src".into(), kind: ListEntryKind::Directory };
    assert_eq!(app.offer_paths(vec![], 4), CompletionStep::Nothing);
    assert_eq!(app.offer_paths(vec![path()], 4), CompletionStep::Apply);
    assert!(app.surfaces.is_empty());
    assert_eq!(app.offer_paths(vec![path(), path()], 4), CompletionStep::Choose);
    assert!(matches!(&app.surfaces[0], Surface::Paths { token_start: 4, .. }));
}

fn setting(kind: SettingKind) -> SettingDefinition {
    SettingDefinition {
        key: "k".into(),
        label: "Label".into(),
        description: "text".into(),
        kind,
        section: 0,
        default_value: "1".into(),
    }
}

#[test]
fn settings_are_refreshed_on_top_only() {
    let rows = || {
        vec![SettingRow {
            definition: setting(SettingKind::Text),
            effective_value: "v".into(),
            explicit_value: None,
            display_value: "v".into(),
        }]
    };
    let mut surfaces = vec![Surface::Settings(Settings {
        rows: vec![],
        section: 0,
        list: ListState::selectable(0),
        query: String::new(),
        query_cursor: 0,
    })];
    refresh_settings_surface(&mut surfaces, rows(), 1);
    assert!(matches!(
        &surfaces[0],
        Surface::Settings(settings) if settings.rows.len() == 1 && settings.list.selected == Some(0)
    ));
    surfaces.push(Surface::Onboarding);
    refresh_settings_surface(&mut surfaces, vec![], 0);
    assert!(matches!(&surfaces[0], Surface::Settings(settings) if settings.rows.len() == 1));
}

#[test]
fn pasted_text_goes_where_it_is_written() {
    let mut rename = Surface::Rename(TextField { value: "ab".into(), cursor: 1 });
    assert_eq!(insert_surface_paste(&mut rename, "x\r\ny"), PasteOutcome::Taken);
    assert!(matches!(&rename, Surface::Rename(field) if field.value == "ax yb" && field.cursor == 4));

    let mut number = Surface::SettingInput {
        setting: setting(SettingKind::PositiveInteger),
        input: TextField { value: String::new(), cursor: 0 },
        tokens: vec![],
    };
    assert_eq!(insert_surface_paste(&mut number, "1a2 3"), PasteOutcome::Taken);
    assert!(matches!(&number, Surface::SettingInput { input, .. } if input.value == "123"));

    let mut asked = Surface::Question(Question { editing_note: true, ..question() });
    assert_eq!(insert_surface_paste(&mut asked, "a\nb"), PasteOutcome::Taken);
    assert!(matches!(
        &asked,
        Surface::Question(question) if question.answers[0].note.as_deref() == Some("a\nb")
    ));
    let mut closed = Surface::Question(question());
    assert_eq!(insert_surface_paste(&mut closed, "a"), PasteOutcome::Ignored);
    let mut settings = Surface::Settings(Settings {
        rows: vec![],
        section: 0,
        list: ListState::selectable(0),
        query: String::new(),
        query_cursor: 0,
    });
    assert_eq!(insert_surface_paste(&mut settings, "q"), PasteOutcome::Searched);
}
