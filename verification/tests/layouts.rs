use cagent_surfaces::agents::SkillRow;
use cagent_surfaces::app::App;
use cagent_surfaces::choices::TextSet;
use cagent_surfaces::control::paging_action;
use cagent_surfaces::expanded::{
    expanded_indicator_action, expanded_terminal_lines, expanded_text_surface_lines,
    ExpandedTextBody, ExpandedTextContent,
};
use cagent_surfaces::interaction::PlanCompletion;
use cagent_surfaces::key::{KeyCode, KeyEvent, KeyModifiers};
use cagent_surfaces::list::{ListAction, ListHit, ListState, ListWidget};
use cagent_surfaces::menu::render_list;
use cagent_surfaces::pickers::{
    ConversationRow, Conversations, HistoryRow, HistoryTree, TreePurpose,
};
use cagent_surfaces::providers::{
    start_managed_provider_auth, AuthChallenge, AuthFlow, ProviderRow, ProviderSetup,
    ProviderSetupStep,
};
use cagent_surfaces::render_pickers::{conversation_picker_lines, history_tree_picker_lines};
use cagent_surfaces::render_settings::settings_lines;
use cagent_surfaces::scroll::ScrollViewAction;
use cagent_surfaces::settings::{
    setting_syntax_language, SettingDefinition, SettingKind, SettingRow, Settings,
};
use cagent_surfaces::style::Line;
use cagent_surfaces::supervised_work::{
    AgentLive, AgentRun, SupervisedWork, SupervisedWorkState, Terminal,
};
use cagent_surfaces::surface::Surface;

fn app(surfaces: Vec<Surface>) -> App {
    App {
        surfaces,
        observer: false,
        onboarding: false,
        supervised_work: SupervisedWorkState::new(),
        history_preview: None,
        observer_command: String::new(),
        pending_action: None,
        provider_model: String::new(),
        effort: None,
        notice: None,
        enabled_providers: TextSet::new(),
        pending_interaction: None,
        last_picker_click: None,
    }
}

fn conversations(count: u128, query: &str, include_archived: bool) -> Conversations {
    Conversations {
        rows: (0..count)
            .map(|id| ConversationRow {
                id,
                title: "talk".into(),
                favourite: false,
                timestamp: "1m".into(),
                archived: false,
                model: None,
                message_count: 2,
            })
            .collect(),
        list: ListState::selectable(count as usize),
        query: query.into(),
        query_cursor: query.len(),
        opened_at_millis: 0,
        include_archived,
    }
}

#[test]
fn conversations_take_the_whole_screen() {
    for count in [0, 3, 40] {
        for query in ["", "talk", "absent"] {
            for archived in [false, true] {
                let picker = conversations(count, query, archived);
                assert_eq!(conversation_picker_lines(&picker, 80, 20).len(), 20);
            }
        }
    }
}

#[test]
fn trees_have_their_height_while_they_are_loaded() {
    let tree = |loading| HistoryTree {
        rows: (0..30)
            .map(|id| HistoryRow {
                id,
                selectable: true,
                has_target: false,
                timestamp: "1m".into(),
            })
            .collect(),
        list: ListState::selectable(30),
        purpose: TreePurpose::Browse,
        loading,
        revision: None,
        query: String::new(),
        query_cursor: 0,
        opened_at_millis: 0,
    };
    assert_eq!(history_tree_picker_lines(&tree(true), &[], &[], 80, 24).len(), 24);
    let visible: Vec<usize> = (0..30).collect();
    let contents: Vec<Line> = (0..30).map(|_| Line::raw("hello")).collect();
    assert_eq!(history_tree_picker_lines(&tree(false), &visible, &contents, 80, 24).len(), 24);
}

fn setting(kind: SettingKind) -> SettingRow {
    SettingRow {
        definition: SettingDefinition {
            key: "ui.x".into(),
            label: "X".into(),
            description: "do x".into(),
            kind,
            section: 0,
            default_value: "true".into(),
        },
        effective_value: "true".into(),
        explicit_value: None,
        display_value: "true".into(),
    }
}

#[test]
fn settings_keep_their_height_when_searched() {
    let settings = |query: &str| Settings {
        rows: (0..9).map(|_| setting(SettingKind::Text)).collect(),
        section: 0,
        list: ListState::selectable(9),
        query: query.into(),
        query_cursor: query.len(),
    };
    let sections = ["General".to_owned()];
    let all: Vec<usize> = (0..9).collect();
    assert_eq!(settings_lines(&settings(""), &sections, &all, 60).len(), 13);
    for shown in 0..9 {
        assert_eq!(settings_lines(&settings("x"), &sections, &all[..shown], 60).len(), 13);
    }
}

#[test]
fn values_are_highlighted_by_their_kind() {
    assert_eq!(setting_syntax_language(&setting(SettingKind::Text).definition), None);
    assert_eq!(setting_syntax_language(&setting(SettingKind::KeyBindings).definition), Some("json"));
    let mut editor = setting(SettingKind::TomlArray);
    editor.definition.key = "ui.editor".into();
    assert_eq!(setting_syntax_language(&editor.definition), Some("toml"));
}

#[test]
fn clicks_meet_the_items_that_are_drawn() {
    let items: Vec<Line> = ["one", "two words", "three"].into_iter().map(Line::raw).collect();
    let state = ListState::selectable(3);
    let widget = ListWidget::new(2);
    let heights = [1, 2, 1];
    let hits = widget.hits(&state, &heights);
    let rows = render_list(&items, vec![], &state, widget, 5, false);
    assert_eq!(rows.len(), hits.len());
    assert_eq!(
        hits,
        [ListHit::Blank, ListHit::Item(0), ListHit::Item(1), ListHit::Item(1), ListHit::Down]
    );
    assert_eq!(rows[1].to_text(), "one");
    assert_eq!(rows[2].to_text(), "two w");
    assert_eq!(rows[3].to_text(), "ords");
}

#[test]
fn indicators_are_met_where_they_are_drawn() {
    let rows: Vec<Line> = (0..20).map(|row| Line::raw(&format!("row {row}"))).collect();
    let mut content = ExpandedTextContent {
        header: vec![Line::raw("title"), Line::new()],
        body: ExpandedTextBody::Materialized(rows),
        inset: false,
    };
    let lines = expanded_text_surface_lines(&mut content, 4, 10, 8);
    assert_eq!(lines.len(), 8);
    assert_eq!(lines[2].to_text(), "row 4");
    assert_eq!(
        expanded_indicator_action(2, 20, 4, 10, 8, 1),
        Some((ScrollViewAction::Home, 5, 15))
    );
    assert_eq!(expanded_indicator_action(2, 20, 4, 10, 8, 2), None);
    assert_eq!(
        expanded_indicator_action(2, 20, 4, 10, 8, 7),
        Some((ScrollViewAction::End, 5, 15))
    );
    assert_eq!(expanded_indicator_action(2, 20, 0, 10, 8, 1), None);
}

#[test]
fn terminals_show_their_state() {
    let shown = |completion: Option<&str>| {
        let completion = completion.map(str::to_owned);
        expanded_terminal_lines(&Line::raw("ls"), &completion, None, 0, 80)[0].to_text()
    };
    assert!(shown(None).contains("running"));
    assert!(shown(Some("[exited with status 0]")).contains("completed"));
    assert!(shown(Some("[exited with status 2]")).contains("failed"));
}

#[test]
fn pages_are_offered_before_other_keys() {
    let key = |code| KeyEvent::new(code, KeyModifiers::none());
    assert_eq!(paging_action(key(KeyCode::PageDown)), Some(ListAction::PageNext));
    assert_eq!(paging_action(key(KeyCode::Home)), Some(ListAction::Home));
    assert_eq!(paging_action(key(KeyCode::Down)), None);
    let held = KeyModifiers { shift: true, control: false, alt: false, other: false };
    assert_eq!(paging_action(KeyEvent::new(KeyCode::End, held)), None);
}

fn setup() -> ProviderSetup {
    ProviderSetup {
        provider_id: "p".into(),
        provider: "Provider".into(),
        instructions: String::new(),
        credential_environment_variable: None,
        auth_challenge: None,
        managed_auth: true,
        api_key_auth: false,
        api_key: String::new(),
        api_key_cursor: 0,
        auth_flows: vec![AuthFlow::DeviceCode],
        authenticated: false,
    }
}

fn device() -> AuthChallenge {
    AuthChallenge::Device { verification_url: "https://x".into(), user_code: "AB".into() }
}

#[test]
fn logins_tell_what_was_done_for_them() {
    let notice = |opened, copied| {
        start_managed_provider_auth(&device(), "Provider", true, opened, copied).unwrap()
    };
    assert_eq!(notice(true, true), "opened Provider device login · copied code AB");
    assert_eq!(notice(true, false), "opened Provider device login · copy code AB");
    assert_eq!(notice(false, true), "copied code AB · open https://x");
    assert_eq!(notice(false, false), "open https://x and enter code AB");
    assert_eq!(start_managed_provider_auth(&device(), "Provider", false, false, false), None);

    let mut app = app(vec![Surface::ProviderSetup(setup())]);
    app.provider_login_begun(Err("refused".into()), true, false, false);
    assert_eq!(app.notice.as_deref(), Some("refused"));
    app.provider_login_begun(Ok(device()), true, true, true);
    assert_eq!(
        app.notice.as_deref(),
        Some("opened Provider device login · copied code AB")
    );
    assert!(
        matches!(&app.surfaces[0], Surface::ProviderSetup(setup) if setup.auth_challenge.is_some())
    );
    app.provider_login_copied(ProviderSetupStep::CopyCode, true);
    assert_eq!(app.notice.as_deref(), Some("copied Provider device code"));
    app.provider_login_copied(ProviderSetupStep::CopyUrl { device: true }, true);
    assert_eq!(app.notice.as_deref(), Some("copied Provider device login URL"));
    app.provider_login_copied(ProviderSetupStep::CopyUrl { device: false }, true);
    assert_eq!(app.notice.as_deref(), Some("copied Provider authentication URL"));
    app.provider_login_copied(ProviderSetupStep::CopyUrl { device: false }, false);
    assert_eq!(app.notice.as_deref(), Some("clipboard unavailable"));
    app.provider_browser_opened(false);
    assert_eq!(app.notice.as_deref(), Some("clipboard unavailable"));
    app.provider_browser_opened(true);
    assert_eq!(
        app.notice.as_deref(),
        Some("complete Provider authentication in your browser")
    );
}

#[test]
fn lists_are_opened_from_their_start() {
    let mut app = app(vec![]);
    app.open_skills_surface(vec![SkillRow {
        name: "s".into(),
        description: String::new(),
        source: "project".into(),
        enabled: true,
        system: false,
    }]);
    assert!(matches!(&app.surfaces[0], Surface::Skills { list, .. } if list.item_count == 3));
    let providers = || -> Vec<ProviderRow> { vec![] };
    app.open_provider_surface(providers());
    assert!(
        matches!(&app.surfaces[1], Surface::Providers(list) if list.model_configuration_follows)
    );
    app.provider_model = "p/m".into();
    app.open_provider_surface(providers());
    assert!(
        matches!(&app.surfaces[2], Surface::Providers(list) if !list.model_configuration_follows)
    );
    app.open_provider_surface_with_model_configuration_follows(providers(), true);
    assert!(
        matches!(&app.surfaces[3], Surface::Providers(list) if list.model_configuration_follows)
    );
}

#[test]
fn plans_show_the_model_of_a_mode() {
    let mut app = app(vec![Surface::PlanCompletion {
        plan: PlanCompletion {
            selected: 0,
            note: String::new(),
            editing_note: false,
            note_cursor: 0,
            mode_index: 0,
        },
        modes: vec!["build".into()],
        colors: vec![],
        model: "a/b".into(),
        context_percent: None,
    }]);
    app.mode_shown(None);
    assert!(matches!(&app.surfaces[0], Surface::PlanCompletion { model, .. } if model == "a/b"));
    app.mode_shown(Some(("p".into(), "m".into())));
    assert!(matches!(&app.surfaces[0], Surface::PlanCompletion { model, .. } if model == "p/m"));
}

fn terminal(id: u128, agent: Option<u128>, listed: bool) -> Terminal {
    Terminal {
        id,
        owner: None,
        agent,
        active: true,
        output_cursor: 0,
        created_at: id as u64,
        visible_as_task: listed,
        read_safe: true,
        status: "Running".into(),
        command: "sleep 1".into(),
    }
}

#[test]
fn agents_own_their_terminals() {
    let mut state = SupervisedWorkState::new();
    state.upsert_agent(AgentRun {
        id: 9,
        active: true,
        created_at: 0,
        profile: "helper".into(),
        status: "Running".into(),
        task: "look".into(),
    });
    state.upsert_terminal(terminal(2, Some(9), true));
    state.upsert_terminal(terminal(1, Some(9), true));
    state.upsert_terminal(terminal(3, None, true));
    assert!(state.is_delegated_terminal(&terminal(2, Some(9), true)));
    assert!(!state.is_delegated_terminal(&terminal(3, None, true)));
    let ids: Vec<u128> = state.terminals_for_agent(9).iter().map(|terminal| terminal.id).collect();
    assert_eq!(ids, [1, 2]);
    assert!(!state.has_delayed_read());
    state.hydrate(
        vec![SupervisedWork::Terminal { terminal: terminal(4, None, false) }],
        vec![],
    );
    assert!(state.has_delayed_read());
}

#[test]
fn live_texts_are_replaced() {
    let live = |id, text: &str| AgentLive { id, text: text.into() };
    let mut state = SupervisedWorkState::new();
    state.hydrate_live(vec![live(1, "a"), live(2, "b")]);
    state.upsert_live(live(1, "c"));
    let texts: Vec<&str> = state.agent_run_live.iter().map(|live| live.text.as_str()).collect();
    assert_eq!(texts, ["b", "c"]);
    state.remove_live(2);
    assert_eq!(state.agent_run_live.len(), 1);
}
