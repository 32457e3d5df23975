use cagent_surfaces::app::{App, CloseStep};
use cagent_surfaces::choices::TextSet;
use cagent_surfaces::control::{list_action, SurfaceKey};
use cagent_surfaces::interaction::{
    ApprovalChoice, Decision, Question, QuestionAnswer, QuestionOption, QuestionPrompt, QuestionStep,
};
use cagent_surfaces::key::{KeyCode, KeyEvent, KeyModifiers};
use cagent_surfaces::list::{ListAction, ListState};
use cagent_surfaces::mcp_control::{ConfirmStep, McpServersStep};
use cagent_surfaces::multiline_input::MultilineInput;
use cagent_surfaces::mcp::{McpLocation, McpScope};
use cagent_surfaces::pickers::{change_help_tab, Help, HelpTab};
use cagent_surfaces::providers::{
    AuthFlow, ModelRow, Models, ModelsStep, ProviderSetup, ProviderSetupStep, Providers,
    ProvidersStep, TextField,
    WebSearchPicker, WebSearchProvider, WebSearchRow, WebSearchStep,
};
use cagent_surfaces::routing::{route_key, KeyRequest};
use cagent_surfaces::scroll::ScrollViewState;
use cagent_surfaces::settings::{SettingDefinition, SettingKind, SettingStep};
use cagent_surfaces::status_line::{
    parse_hex_color, status_line_rows, StatusLineCatalog, StatusLineConfig, StatusLineEditor,
    StatusLineEditorMode, StatusLineModule,
};
use cagent_surfaces::style::StatusLineColor;
use cagent_surfaces::supervised_work::{
    background_work_remains_after_kill, AgentRun, SupervisedWork, SupervisedWorkState,
    SupervisedWorkTarget, Terminal,
};
use cagent_surfaces::surface::{ExpandedKind, Surface};
use cagent_surfaces::surface_key::{
    handle_surface_key, surface_key, KeyContext, KeyStep, SurfaceStep,
};

fn event(code: KeyCode, modifiers: KeyModifiers) -> SurfaceKey {
    SurfaceKey {
        key: KeyEvent::new(code, modifiers),
        code,
        submit: code == KeyCode::Enter,
        insert_newline: false,
        cancel: false,
        close_surface: code == KeyCode::Esc,
        previous_mode: false,
        next_mode: false,
        model_picker: false,
        exit: false,
    }
}

fn key(code: KeyCode) -> SurfaceKey {
    event(code, KeyModifiers::none())
}

fn context() -> KeyContext {
    KeyContext {
        observer: false,
        visible: vec![0],
        preferred: None,
        names: vec![],
        sections: 2,
        status_catalog: catalog(),
        width: 80,
        viewport_rows: 20,
        history_rows: 10,
        scroll_rows: 10,
        scroll_last: 25,
        submission: ApprovalChoice {
            decision: Decision::Allow,
            persistent: false,
            supports_session: false,
            session_rule: false,
            prepared_rule: false,
        },
        rule_editable: false,
        editable: vec![],
        scroll_to_message: false,
    }
}

fn module(index: u8) -> StatusLineModule {
    StatusLineModule { index }
}

fn catalog() -> StatusLineCatalog {
    StatusLineCatalog {
        modules: 4,
        hint: module(0),
        mode: module(1),
        default_colors: vec![StatusLineColor::Named(0); 4],
        named_colors: 3,
    }
}

fn app(surfaces: Vec<Surface>) -> App {
    App {
        surfaces,
        observer: false,
        onboarding: false,
        supervised_work: SupervisedWorkState::new(),
        history_preview: None,
        observer_command: String::new(),
        pending_action: None,
        provider_model: String::new(),
        effort: None,
        notice: None,
        enabled_providers: TextSet::new(),
        pending_interaction: None,
        last_picker_click: None,
    }
}

fn expanded(kind: ExpandedKind) -> Surface {
    Surface::Expanded { kind, header_rows: 2, body_rows: 30, scroll: 0, viewport_rows: 10 }
}

#[test]
fn keys_go_to_the_surface_on_top() {
    let mut app = app(vec![Surface::Onboarding, Surface::McpAddScope { selected: 0 }]);
    assert!(matches!(
        handle_surface_key(&mut app, key(KeyCode::Down), &context(), true),
        KeyStep::Surface(SurfaceStep::AddScope(_))
    ));
    assert!(matches!(app.surfaces[1], Surface::McpAddScope { selected: 1 }));
    assert!(matches!(
        handle_surface_key(&mut app, key(KeyCode::Esc), &context(), true),
        KeyStep::Close(CloseStep::Nothing)
    ));
    assert!(matches!(
        handle_surface_key(&mut app, key(KeyCode::Enter), &context(), true),
        KeyStep::Surface(SurfaceStep::OpenProviders { model_follows: true })
    ));
    app.push(expanded(ExpandedKind::Text));
    handle_surface_key(&mut app, key(KeyCode::End), &context(), true);
    assert!(matches!(app.surfaces[1], Surface::Expanded { scroll: 25, .. }));
    assert!(matches!(
        handle_surface_key(&mut app, key(KeyCode::Enter), &context(), true),
        KeyStep::Nothing
    ));
    assert_eq!(app.surfaces.len(), 1);
    app.push(expanded(ExpandedKind::Directory { selectable: vec![] }));
    assert!(matches!(
        handle_surface_key(&mut app, key(KeyCode::Enter), &context(), true),
        KeyStep::Surface(SurfaceStep::Directory)
    ));
    app.observer = true;
    assert!(matches!(
        handle_surface_key(&mut app, key(KeyCode::Enter), &context(), false),
        KeyStep::Nothing
    ));
    assert_eq!(app.surfaces.len(), 1);
}

#[test]
fn movements_are_keys() {
    assert_eq!(list_action(KeyCode::PageUp), Some(ListAction::PagePrevious));
    assert_eq!(list_action(KeyCode::Char('x')), None);
}

#[test]
fn confirmations_start_with_the_safe_choice() {
    let mut surface = Surface::UsageResetConfirm { selected: 0 };
    let mut press = |code| surface_key(&mut surface, key(code), &context(), false);
    assert!(matches!(press(KeyCode::Enter), SurfaceStep::Confirm(ConfirmStep::Cancel)));
    assert!(matches!(press(KeyCode::Down), SurfaceStep::Confirm(ConfirmStep::Stay)));
    assert!(matches!(press(KeyCode::Enter), SurfaceStep::Confirm(ConfirmStep::Confirm)));
}

#[test]
fn servers_are_opened_behind_the_fixed_items() {
    let mut list = ListState::selectable(3);
    list.select(1, 8);
    let mut surface = Surface::McpServers { rows: vec![], list };
    assert!(matches!(
        surface_key(&mut surface, key(KeyCode::Enter), &context(), false),
        SurfaceStep::McpServers(McpServersStep::Add)
    ));
}

#[test]
fn editors_submit_with_control() {
    let mut surface = Surface::McpJsonEdit {
        location: McpLocation { scope: McpScope::Global, agent: None },
        separate_name: None,
        editor: MultilineInput::new("ab".into(), 2),
        tokens: vec![],
    };
    surface_key(&mut surface, key(KeyCode::Char('c')), &context(), false);
    assert!(matches!(&surface, Surface::McpJsonEdit { editor, .. } if editor.text() == "abc"));
    assert!(matches!(
        surface_key(&mut surface, event(KeyCode::Enter, KeyModifiers::control()), &context(), false),
        SurfaceStep::Written(true)
    ));
}

#[test]
fn models_are_selected_and_searched() {
    let models = || Models {
        rows: vec![ModelRow {
            provider: "p".into(),
            id: "m".into(),
            label: "M".into(),
            detail: String::new(),
            efforts: vec![],
            current: false,
            favourite: false,
        }],
        list: ListState::selectable(1),
        query: String::new(),
        query_cursor: 0,
        for_setting: false,
    };
    let press = |code, exit: bool| {
        let mut surface = Surface::Models { models: models(), setting: None };
        match surface_key(&mut surface, SurfaceKey { exit, ..key(code) }, &context(), false) {
            SurfaceStep::Models(step) => step,
            _ => panic!("expected a step of the models"),
        }
    };
    assert_eq!(press(KeyCode::Enter, false), ModelsStep::Select(0));
    assert_eq!(press(KeyCode::Char('z'), false), ModelsStep::Filter);
    assert_eq!(press(KeyCode::Char('d'), true), ModelsStep::UseAgentDefault);
}

#[test]
fn api_keys_are_saved() {
    let mut surface = Surface::ProviderSetup(ProviderSetup {
        provider_id: "p".into(),
        provider: "P".into(),
        instructions: String::new(),
        credential_environment_variable: None,
        auth_challenge: None,
        managed_auth: false,
        api_key_auth: true,
        api_key: "ke".into(),
        api_key_cursor: 2,
        auth_flows: vec![AuthFlow::Browser],
        authenticated: false,
    });
    surface_key(&mut surface, key(KeyCode::Char('y')), &context(), false);
    assert!(matches!(&surface, Surface::ProviderSetup(setup) if setup.api_key == "key"));
    assert!(matches!(
        surface_key(&mut surface, key(KeyCode::Enter), &context(), false),
        SurfaceStep::ProviderSetup(ProviderSetupStep::SaveApiKey)
    ));
}

#[test]
fn search_providers_are_found_by_their_label() {
    let row = |label: &str, ready| WebSearchRow {
        provider: WebSearchProvider::Exa,
        label: label.into(),
        display_name: label.to_uppercase(),
        active: false,
        ready,
    };
    let mut picker = WebSearchPicker {
        rows: vec![row("searxng", false), row("exa", true)],
        list: ListState::selectable(3),
        query: "EX".into(),
        query_cursor: 2,
    };
    picker.key(key(KeyCode::Down));
    assert_eq!(picker.list.item_count, 2);
    assert_eq!(picker.key(key(KeyCode::Enter)), WebSearchStep::Use(1));
}

#[test]
fn settings_are_written_out() {
    let setting = |kind| SettingDefinition {
        key: "k".into(),
        label: "L".into(),
        description: String::new(),
        kind,
        section: 0,
        default_value: String::new(),
    };
    let submit = |value: &str| {
        let mut surface = Surface::SettingInput {
            setting: setting(SettingKind::Text),
            input: TextField { value: value.into(), cursor: 0 },
            tokens: vec![],
        };
        match surface_key(&mut surface, key(KeyCode::Enter), &context(), false) {
            SurfaceStep::Setting(step) => step,
            _ => panic!("expected a step of the setting"),
        }
    };
    assert!(matches!(submit("a\"b"), SettingStep::Save(value) if value == "\"a\\\"b\""));
    assert!(matches!(submit(""), SettingStep::Reset));
}

#[test]
fn help_changes_its_tab() {
    let mut help = Help {
        tab: HelpTab::Commands,
        command_rows: vec![],
        key_rows: vec![("k".into(), "d".into())],
        list: ScrollViewState::new(0),
    };
    help.key(KeyCode::Right);
    assert_eq!(help.tab, HelpTab::Keybindings);
    assert_eq!(help.list.content_rows, 1);
    let Help { mut tab, command_rows, key_rows, mut list } = help;
    assert!(!change_help_tab(&mut tab, &command_rows, &key_rows, &mut list, HelpTab::Keybindings));
}

#[test]
fn status_lines_are_edited() {
    let config = StatusLineConfig { modules: vec![module(2), module(1)], colors: vec![] };
    let rows = status_line_rows(&config, 4);
    let order: Vec<u8> = rows.iter().map(|row| row.index).collect();
    assert_eq!(order, [2, 1, 0, 3]);
    let mut editor = StatusLineEditor {
        list: ListState::selectable(rows.len()),
        config,
        rows,
        mode: StatusLineEditorMode::Modules,
    };
    editor.modules_key(key(KeyCode::Right), &catalog());
    let order: Vec<u8> = editor.config.modules.iter().map(|row| row.index).collect();
    assert_eq!(order, [1, 2]);
    editor.modules_key(key(KeyCode::Enter), &catalog());
    assert_eq!(editor.config.modules.len(), 1);
    editor.modules_key(key(KeyCode::Char('c')), &catalog());
    assert!(matches!(editor.mode, StatusLineEditorMode::Colors { .. }));
    assert_eq!(parse_hex_color("#0aF01b"), Some(StatusLineColor::Rgb(10, 240, 27)));
    assert_eq!(parse_hex_color("#0aF01"), None);
    assert_eq!(parse_hex_color("0aF01b"), None);
}

fn terminal(id: u128, cursor: u64, agent: Option<u128>) -> Terminal {
    Terminal {
        id,
        owner: None,
        agent,
        active: true,
        output_cursor: cursor,
        created_at: id as u64,
        visible_as_task: true,
        read_safe: true,
        status: "Running".into(),
        command: "sleep 1".into(),
    }
}

#[test]
fn work_is_listed_newest_first() {
    let mut state = SupervisedWorkState::new();
    state.upsert_terminal(terminal(1, 5, None));
    state.upsert_agent(AgentRun {
        id: 9,
        active: true,
        created_at: 7,
        profile: "explore".into(),
        status: "Running".into(),
        task: "look".into(),
    });
    state.upsert_terminal(terminal(2, 5, None));
    let rows = state.rows();
    assert_eq!(rows.len(), 3);
    assert!(matches!(&rows[0], SupervisedWork::Agent { run } if run.id == 9));
    assert!(matches!(&rows[1], SupervisedWork::Terminal { terminal } if terminal.id == 2));
    assert_eq!(state.running_agent_count(), 1);
    assert_eq!(state.running_terminal_count(), 2);
    assert!(background_work_remains_after_kill(&rows, SupervisedWorkTarget::Terminal(1)));
    state.clear();
    assert!(!state.has_work());
}

#[test]
fn snapshots_never_go_back() {
    let mut state = SupervisedWorkState::new();
    state.upsert_terminal(terminal(1, 5, None));
    let stale = || Terminal { command: "older".into(), ..terminal(1, 3, None) };
    state.hydrate(vec![], vec![stale()]);
    assert!(matches!(
        &state.rows()[0],
        SupervisedWork::Terminal { terminal } if terminal.command == "sleep 1"
    ));
    state.upsert_terminal(stale());
    assert!(matches!(
        &state.rows()[0],
        SupervisedWork::Terminal { terminal } if terminal.command == "older"
    ));
}

fn question() -> Question {
    Question {
        request: 7,
        questions: vec![QuestionPrompt {
            header: "One".into(),
            question: "Which?".into(),
            options: vec![],
        }],
        origin: None,
        question_index: 0,
        option_index: 0,
        answers: vec![QuestionAnswer { selection: None, note: None }],
        answered: vec![false],
        editing_note: false,
        note_cursor: 0,
    }
}

#[test]
fn questions_wait_until_their_answer_got_through() {
    let mut app = app(vec![Surface::Question(question())]);
    app.last_picker_click = Some(3);
    let routed = route_key(&mut app, key(KeyCode::Enter), &context(), true);
    assert!(matches!(
        routed.request,
        KeyRequest::Perform(SurfaceStep::Question(QuestionStep::Respond))
    ));
    assert_eq!(app.pending_interaction, Some(7));
    assert_eq!(app.last_picker_click, None);
    assert_eq!(routed.deferred, None);
    app.pending_interaction = None;
    let routed = route_key(&mut app, key(KeyCode::Esc), &context(), true);
    assert!(matches!(routed.request, KeyRequest::Close(CloseStep::CancelQuestion(_))));
    assert_eq!(app.pending_interaction, Some(7));
    assert_eq!(routed.deferred, Some(7));
}

#[test]
fn waiting_requests_are_shown_once_no_surface_is_open() {
    let mut app = app(vec![Surface::Onboarding, Surface::McpAddScope { selected: 0 }]);
    app.pending_interaction = Some(9);
    let routed = route_key(&mut app, key(KeyCode::Down), &context(), true);
    assert!(matches!(routed.request, KeyRequest::Nothing));
    assert_eq!(routed.deferred, None);
    route_key(&mut app, key(KeyCode::Esc), &context(), true);
    let routed = route_key(&mut app, key(KeyCode::Esc), &context(), true);
    assert_eq!(routed.deferred, Some(9));
}

#[test]
fn providers_are_paged_before_they_see_the_key() {
    let mut app = app(vec![Surface::Providers(Providers {
        rows: vec![],
        list: ListState::selectable(31),
        query: String::new(),
        query_cursor: 0,
        model_configuration_follows: false,
    })]);
    let mut context = context();
    context.visible = (0..30).collect();
    let selected = |app: &App| match &app.surfaces[0] {
        Surface::Providers(providers) => providers.list.selected,
        _ => panic!("expected providers"),
    };
    app.last_picker_click = Some(1);
    route_paging(&mut app, KeyCode::PageDown, &context);
    assert_eq!(selected(&app), Some(8));
    assert_eq!(app.last_picker_click, None);
    route_paging(&mut app, KeyCode::End, &context);
    assert_eq!(selected(&app), Some(30));
    route_paging(&mut app, KeyCode::Home, &context);
    assert_eq!(selected(&app), Some(0));
}

fn route_paging(app: &mut App, code: KeyCode, context: &KeyContext) {
    let routed = route_key(app, key(code), context, true);
    assert!(matches!(routed.request, KeyRequest::Nothing));
}

#[test]
fn providers_close_once_one_is_enabled() {
    let providers = || {
        Surface::Providers(Providers {
            rows: vec![],
            list: ListState::selectable(1),
            query: String::new(),
            query_cursor: 0,
            model_configuration_follows: true,
        })
    };
    let mut context = context();
    context.visible = vec![];
    let mut app = app(vec![providers()]);
    let routed = route_key(&mut app, key(KeyCode::Enter), &context, true);
    assert!(matches!(routed.request, KeyRequest::Nothing));
    assert_eq!(app.surfaces.len(), 1);
    app.enabled_providers.insert("p".into());
    let routed = route_key(&mut app, key(KeyCode::Enter), &context, true);
    assert!(matches!(
        routed.request,
        KeyRequest::Perform(SurfaceStep::Providers(ProvidersStep::Close))
    ));
    assert!(app.surfaces.is_empty());
}

#[test]
fn surfaces_are_paged_before_an_observer_loses_them() {
    let mut app = app(vec![
        Surface::Onboarding,
        Surface::Effort {
            model: "m".into(),
            rows: vec!["low".into(), "medium".into(), "high".into()],
            toggle: false,
            list: ListState::selectable(3),
        },
    ]);
    app.observer = true;
    let routed = route_key(&mut app, key(KeyCode::End), &context(), false);
    assert!(matches!(routed.request, KeyRequest::Nothing));
    let Some(Surface::Effort { list, .. }) = app.surfaces.last() else {
        panic!("expected the efforts");
    };
    assert_eq!(list.selected, Some(2));
    route_key(&mut app, key(KeyCode::Down), &context(), false);
    assert_eq!(app.surfaces.len(), 1);
}

fn paged(surface: Surface, code: KeyCode, context: &KeyContext) -> Surface {
    let mut app = app(vec![surface]);
    route_paging(&mut app, code, context);
    app.surfaces.pop().unwrap()
}

#[test]
fn dialogs_and_views_are_paged() {
    let mut asked = question();
    asked.questions[0].options = ["A", "B"]
        .into_iter()
        .map(|label| QuestionOption { label: label.into(), description: String::new() })
        .collect();
    let Surface::Question(asked) = paged(Surface::Question(asked), KeyCode::PageDown, &context())
    else {
        panic!("expected a question");
    };
    assert_eq!(asked.option_index, 2);
    let Surface::Question(mut asked) = paged(Surface::Question(asked), KeyCode::Home, &context())
    else {
        panic!("expected a question");
    };
    assert_eq!(asked.option_index, 0);
    asked.editing_note = true;
    let Surface::Question(asked) = paged(Surface::Question(asked), KeyCode::End, &context())
    else {
        panic!("expected a question");
    };
    assert_eq!(asked.option_index, 0);

    let shown = paged(expanded(ExpandedKind::Text), KeyCode::PageDown, &context());
    assert!(matches!(shown, Surface::Expanded { scroll: 10, .. }));
    let shown = paged(shown, KeyCode::End, &context());
    assert!(matches!(shown, Surface::Expanded { scroll: 25, .. }));
    let directory = ExpandedKind::Directory { selectable: vec![true; 30] };
    let mut opened = app(vec![expanded(directory)]);
    let routed = route_key(&mut opened, key(KeyCode::PageDown), &context(), true);
    assert!(matches!(routed.request, KeyRequest::Perform(SurfaceStep::Directory)));

    let transport = Surface::McpTransport { scope: McpScope::Global, selected: 1 };
    let shown = paged(transport, KeyCode::End, &context());
    assert!(matches!(shown, Surface::McpTransport { selected: 3, .. }));
}

#[test]
fn notes_are_moved_through_by_rows() {
    let mut asked = question();
    asked.editing_note = true;
    asked.answers[0].note = Some("one\ntwo".into());
    asked.note_cursor = 1;
    let mut app = app(vec![Surface::Question(asked)]);
    route_key(&mut app, key(KeyCode::Down), &context(), true);
    let Some(Surface::Question(asked)) = app.surfaces.last() else {
        panic!("expected a question");
    };
    assert_eq!(asked.note_cursor, 5);
    assert_eq!(asked.answers[0].note.as_deref(), Some("one\ntwo"));
}
