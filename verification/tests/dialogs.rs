use cagent_surfaces::agents::{
    agent_rows, skills_key, AgentAvailability, AgentProfile, AgentWizard, AgentWizardOutcome,
    AgentWizardStep, SkillRow, SkillsStep,
};
use cagent_surfaces::control::SurfaceKey;
use cagent_surfaces::dialogs::{
    note_input_capacity, note_input_layout, note_input_width, question_lines, saved_note_lines,
};
use cagent_surfaces::interaction::{
    question_option_index, ApprovalChoice, Decision, Permission, PermissionScope, PermissionStep,
    PlanCompletion, PlanStep, Question, QuestionAnswer, QuestionOption, QuestionPrompt,
    QuestionStep,
};
use cagent_surfaces::key::{KeyCode, KeyEvent, KeyModifiers};
use cagent_surfaces::list::{ListAction, ListHit, ListState, ListWidget};
use cagent_surfaces::masked::{external_url_in_text, masked_input_parts};
use cagent_surfaces::multiline_input::MultilineInput;
use cagent_surfaces::number::{parse_signed, parse_unsigned};
use cagent_surfaces::permission::{
    clipped_permission_chrome, permission_diff_scroll_metrics, permission_surface_line_count,
    permission_surface_lines, with_cached_permission_diff_layout, PermissionRequest,
};
use cagent_surfaces::pickers::{
    apply_history_list_action, conversation_picker_indexes, conversation_picker_item_capacity,
    history_picker_item_capacity, ConversationRow, Conversations, ConversationsStep, HelpTab,
    HistoryRow,
};
use cagent_surfaces::render::{terminal_safe, truncate_with_ellipsis, wrap_ranges};
use cagent_surfaces::scroll::{ScrollViewAction, ScrollViewHit, ScrollViewState};
use cagent_surfaces::settings::{
    adjacent_setting_section, concise_setting_error, setting_input_description, SettingDefinition,
    SettingKind,
};
use cagent_surfaces::style::Line;
use cagent_surfaces::unicode::trim;

fn key(code: KeyCode) -> SurfaceKey {
    SurfaceKey {
        key: KeyEvent::new(code, KeyModifiers::none()),
        code,
        submit: code == KeyCode::Enter,
        insert_newline: false,
        cancel: false,
        close_surface: false,
        previous_mode: false,
        next_mode: false,
        model_picker: false,
        exit: false,
    }
}

fn texts(rows: &[Line]) -> Vec<String> {
    rows.iter().map(Line::to_text).collect()
}

fn question() -> Question {
    let prompt = |header: &str| QuestionPrompt {
        header: header.into(),
        question: format!("Which {header}?"),
        options: vec![
            QuestionOption { label: "A".into(), description: "first".into() },
            QuestionOption { label: "B".into(), description: "second".into() },
        ],
    };
    let answer = || QuestionAnswer { selection: None, note: None };
    Question {
        request: 7,
        questions: vec![prompt("one"), prompt("two")],
        origin: Some(("explore".into(), "7".into())),
        question_index: 0,
        option_index: 0,
        answers: vec![answer(), answer()],
        answered: vec![false, false],
        editing_note: false,
        note_cursor: 0,
    }
}

#[test]
fn questions_are_answered_one_after_the_other() {
    let mut question = question();
    question.menu_key(KeyCode::Down);
    assert_eq!(question.option_index, 1);
    assert_eq!(question.menu_key(KeyCode::Enter), QuestionStep::Stay);
    assert_eq!(question.question_index, 1);
    assert_eq!(question.answers[0].selection.as_deref(), Some("B"));
    question.menu_key(KeyCode::Left);
    assert_eq!((question.question_index, question.option_index), (0, 1));
    assert_eq!(
        question_option_index(0, &question.questions, &question.answers, &question.answered),
        1
    );
    question.menu_key(KeyCode::Right);
    question.menu_key(KeyCode::Tab);
    assert!(question.editing_note);
    question.note_key(key(KeyCode::Char('x')), 80);
    assert_eq!(question.note_key(key(KeyCode::Enter), 80), QuestionStep::Respond);
    assert_eq!(question.answers[1].note.as_deref(), Some("x"));
}

#[test]
fn questions_show_their_options_and_notes() {
    let mut question = question();
    let rows = texts(&question_lines(&question, "None", 60));
    assert_eq!(rows[0], "  Questions  1/2  one  two");
    assert_eq!(rows[1], "  requested by explore (7)");
    assert_eq!(rows[3], "  Which one?");
    assert_eq!(rows[5], "› A     first");
    assert_eq!(rows[7], "  None  Optionally add a note with Tab");
    question.answers[0].note = Some("because\nyes".into());
    let rows = texts(&question_lines(&question, "None", 60));
    assert_eq!(rows[10], "› because");
    assert_eq!(rows[11], "  yes");
    question.editing_note = true;
    let rows = texts(&question_lines(&question, "None", 60));
    assert_eq!(rows[9], "› because");
    assert_eq!(texts(&saved_note_lines("abcd", 3)), ["› a", "bcd"]);
}

#[test]
fn notes_grow_up_to_their_limit() {
    assert_eq!(note_input_width(0), 1);
    let input = MultilineInput::new("a\nb\nc".into(), 0);
    assert_eq!(note_input_capacity(&input, 20), 3);
    let long = MultilineInput::new("x\n".repeat(20), 0);
    assert_eq!(note_input_capacity(&long, 20), 6);
    let layout = note_input_layout(&"x\n".repeat(20), 0, 20);
    assert_eq!(layout.lines.len(), 8);
    assert_eq!(layout.lines[7].to_text(), "↓");
    assert_eq!(layout.hits[7], ScrollViewHit::Indicator(ScrollViewAction::PageNext));
    let empty = note_input_layout("", 0, 20);
    assert_eq!(empty.lines[1].to_text(), "› Add note");
}

fn request() -> PermissionRequest {
    PermissionRequest {
        id: 1,
        tool: "bash".into(),
        tool_label: "Bash".into(),
        origin: None,
        command: vec![],
        raw_command: Some("echo a\necho b".into()),
        command_tokens: vec![],
        message: "Allow?".into(),
        read_path: None,
        format: None,
        redirected_from: vec![],
        auto_review: Some("looks fine".into()),
        arguments: None,
        argument_tokens: vec![],
    }
}

fn prompt() -> Permission {
    Permission {
        selected: 0,
        scope: PermissionScope::Conversation,
        diff_scroll: 0,
        denial_note: String::new(),
        editing_note: false,
        note_cursor: 0,
    }
}

fn choices() -> Vec<(String, String)> {
    vec![("Allow".into(), "once".into()), ("Deny".into(), String::new())]
}

#[test]
fn permissions_show_what_is_asked() {
    let rows =
        texts(&permission_surface_lines(&prompt(), &request(), &choices(), None, 60, usize::MAX));
    assert_eq!(
        rows,
        [
            "  Permission  Bash",
            "",
            "  Allow running the following?",
            "",
            "  │ echo a",
            "  │ echo b",
            "  Auto review  looks fine",
            "",
            "› Allow  once",
            "  Deny",
        ]
    );
    assert_eq!(permission_surface_line_count(&prompt(), &request(), &choices(), None, 60), 10);
}

#[test]
fn permissions_ask_by_their_tool() {
    let asked = |change: &dyn Fn(&mut PermissionRequest)| {
        let mut request = request();
        request.auto_review = None;
        request.raw_command = None;
        change(&mut request);
        permission_surface_lines(&prompt(), &request, &choices(), None, 90, usize::MAX)[2].to_text()
    };
    assert_eq!(asked(&|_| {}), "  Allow?");
    assert_eq!(
        asked(&|request| {
            request.tool = "web_fetch".into();
            request.command = vec!["https://a".into()];
            request.redirected_from = vec!["https://b".into(), "https://c".into()];
            request.format = Some("html".into());
        }),
        "  Allow web fetch of https://a? (redirected from https://b → https://c) (html)"
    );
    assert_eq!(
        asked(&|request| {
            request.tool = "web_fetch".into();
            request.format = Some("markdown".into());
        }),
        "  Allow web fetch of ?"
    );
    assert_eq!(
        asked(&|request| {
            request.tool = "web_search".into();
            request.command = vec!["rust".into()];
        }),
        "  Allow web search of rust?"
    );
    assert_eq!(
        asked(&|request| request.read_path = Some("/etc".into())),
        "  Allow reading from /etc?"
    );
    assert_eq!(
        asked(&|request| {
            request.tool = "enter_worktree".into();
            request.command = vec!["tree".into()];
        }),
        "  Allow changing worktree to tree?"
    );
}

#[test]
fn previews_scroll_between_the_prompt_and_the_choices() {
    let mut request = request();
    request.raw_command = None;
    request.auto_review = None;
    request.arguments = Some("{\"a\":[1,2]}".into());
    let mut prompt = prompt();
    let shown = |prompt: &Permission, request: &PermissionRequest, rows: usize| {
        texts(&permission_surface_lines(prompt, request, &choices(), None, 60, rows))
    };
    let rows = shown(&prompt, &request, 9);
    assert_eq!(rows.len(), 9);
    assert_eq!(rows[4], "  1 │ {");
    assert_eq!(rows[6], "  ↓");
    prompt.diff_scroll = 2;
    let moved = shown(&prompt, &request, 9);
    assert_eq!(moved[3], "  ↑");
    assert_eq!(moved[4], "  3 │     1,");
    assert_eq!(rows[7..], moved[7..]);
    assert_eq!(permission_diff_scroll_metrics(&prompt, &request, &choices(), None, 60, 9), (2, 4));
    assert_eq!(permission_diff_scroll_metrics(&prompt, &request, &choices(), None, 60, 3), (0, 0));
    let tight = shown(&prompt, &request, 5);
    assert_eq!(tight, ["  Permission  Bash", "  …", "", "› Allow  once", "  Deny"]);
    assert_eq!(
        texts(&clipped_permission_chrome(vec![Line::raw("a")], vec![Line::raw("b")], 1)),
        ["b"]
    );
    let diff = vec![Line::raw("+ new")];
    request.arguments = None;
    let changed =
        texts(&permission_surface_lines(&prompt, &request, &choices(), Some(&diff), 60, 20));
    assert_eq!(changed[4], "+ new");
}

#[test]
fn layouts_of_changes_are_kept() {
    let mut cache = None;
    let mut made = 0;
    for width in [80, 80, 40] {
        with_cached_permission_diff_layout(&mut cache, 7, width, |_| {
            made += 1;
            vec![Line::raw("x")]
        });
    }
    with_cached_permission_diff_layout(&mut cache, 8, 40, |_| {
        made += 1;
        vec![]
    });
    assert_eq!(made, 3);
    assert!(cache.unwrap().rows.is_empty());
}

#[test]
fn permissions_are_given_and_denied() {
    let choice = |decision| ApprovalChoice {
        decision,
        persistent: false,
        supports_session: false,
        session_rule: false,
        prepared_rule: false,
    };
    let choices = [choice(Decision::Allow), choice(Decision::Deny)];
    let mut prompt = prompt();
    let press = |prompt: &mut Permission, code| {
        let submission = choices[prompt.selected];
        prompt.menu_key(key(code), 5, 10, &choices, submission, false)
    };
    assert!(matches!(press(&mut prompt, KeyCode::Enter), PermissionStep::Send(None)));
    press(&mut prompt, KeyCode::Down);
    press(&mut prompt, KeyCode::Tab);
    assert!(prompt.editing_note);
    prompt.note_key(key(KeyCode::Char('n')), 80);
    assert!(matches!(
        prompt.note_key(key(KeyCode::Enter), 80),
        PermissionStep::Deny(Some(reason)) if reason == "n"
    ));
    assert_eq!(PermissionScope::Conversation.label(), "conversation");
}

#[test]
fn plans_are_accepted_with_a_note() {
    let mut plan = PlanCompletion {
        selected: 0,
        note: String::new(),
        editing_note: false,
        note_cursor: 0,
        mode_index: 1,
    };
    plan.menu_key(key(KeyCode::Tab), 2);
    plan.note_key(key(KeyCode::Char('g')), 80);
    assert!(matches!(
        plan.note_key(key(KeyCode::Enter), 80),
        PlanStep::Respond { mode: Some(1), note: Some(note), .. } if note == "g"
    ));
    let mut last = PlanCompletion { selected: 3, editing_note: false, ..plan };
    assert!(matches!(
        last.menu_key(key(KeyCode::Enter), 2),
        PlanStep::Respond { mode: None, note: None, .. }
    ));
}

#[test]
fn lists_move_and_show_their_hits() {
    let mut list = ListState::selectable(20);
    list.apply(ListAction::End, 8);
    assert_eq!((list.selected, list.offset), (Some(19), 12));
    list.apply(ListAction::Previous, 8);
    list.apply(ListAction::Next, 8);
    assert_eq!(list.selected, Some(19));
    let hits = ListWidget::new(8).hits(&list, &[1; 20]);
    assert_eq!(hits.len(), 10);
    assert_eq!(hits[0], ListHit::Up);
    assert_eq!(hits[8], ListHit::Item(19));
    list.reconcile(3, 8);
    assert_eq!((list.selected, list.offset), (Some(2), 0));
    let mut scroll = ScrollViewState::new(30);
    scroll.apply(ScrollViewAction::End, 12);
    assert_eq!(scroll.offset, 18);
    scroll.apply(ScrollViewAction::Home, 12);
    assert_eq!(scroll.offset, 0);
}

#[test]
fn history_skips_what_cannot_be_selected() {
    let row = |selectable| HistoryRow {
        id: 0,
        selectable,
        has_target: true,
        timestamp: String::new(),
    };
    let rows = [row(true), row(false), row(true)];
    let mut list = ListState::selectable(3);
    apply_history_list_action(&mut list, ListAction::Next, &rows, &[0, 1, 2], 8);
    assert_eq!(list.selected, Some(2));
    apply_history_list_action(&mut list, ListAction::Previous, &rows, &[0, 1, 2], 8);
    assert_eq!(list.selected, Some(0));
}

fn conversation(title: &str) -> ConversationRow {
    ConversationRow {
        id: 0,
        title: title.into(),
        timestamp: "0".into(),
        model: None,
        message_count: 0,
        archived: false,
        favourite: false,
    }
}

#[test]
fn resume_picker_excludes_untitled_conversations() {
    let rows = vec![conversation(""), conversation("Useful title")];
    assert_eq!(conversation_picker_indexes(&rows, ""), vec![1]);
    assert_eq!(conversation_picker_indexes(&rows, "useful"), vec![1]);
    let visible = conversation_picker_indexes(&rows, "");
    let list = ListState::selectable(visible.len());
    let selected_source = list.selected.and_then(|position| visible.get(position));
    assert_eq!(
        selected_source
            .and_then(|source| rows.get(*source))
            .unwrap()
            .title,
        "Useful title"
    );
}

#[test]
fn searches_ignore_case() {
    let rows = vec![conversation("ÄPFEL und Birnen")];
    assert_eq!(conversation_picker_indexes(&rows, "äpfel"), vec![0]);
    assert_eq!(conversation_picker_indexes(&rows, "kirschen"), Vec::<usize>::new());
    let mut picker = Conversations {
        rows,
        list: ListState::selectable(1),
        query: String::new(),
        query_cursor: 0,
        opened_at_millis: 0,
        include_archived: false,
    };
    assert_eq!(picker.key(key(KeyCode::Enter), 20), ConversationsStep::Resume(0));
    assert_eq!(history_picker_item_capacity(20), 15);
    assert_eq!(history_picker_item_capacity(2), 1);
    assert_eq!(conversation_picker_item_capacity(20, true, true), 13);
}

fn setting(setting_key: &str, description: &str, kind: SettingKind, default: &str) -> SettingDefinition {
    SettingDefinition {
        key: setting_key.into(),
        label: String::new(),
        description: description.into(),
        kind,
        section: 0,
        default_value: default.into(),
    }
}

fn descriptions_explain_type_and_default() {
    assert_eq!(
        setting_input_description(&setting(
            "ui.title.requested_input",
            "",
            SettingKind::Text,
            "warning"
        )),
        "JSON-compatible array of strings to show before the title, e.g. [\"!\", \" \"] (default: warning)"
    );
    assert_eq!(
        setting_input_description(&setting("ui.title.progress", "", SettingKind::Text, "false")),
        "JSON-compatible array of strings to cycle in the title, e.g. [\".\", \"..\", \"...\"] (default: false)"
    );
    assert_eq!(
        setting_input_description(&setting(
            "subagents.max_concurrent",
            "maximum active sub-agents",
            SettingKind::NonNegativeInteger,
            "10"
        )),
        "maximum active sub-agents (int, default: 10)"
    );
    assert_eq!(
        setting_input_description(&setting(
            "ui.editor",
            "",
            SettingKind::TomlChoices(vec![("custom".into(), "custom command".into())]),
            "false"
        )),
        "TOML command array (foreground) or { command = [...], mode = \"foreground\" | \"background\" } (default: false)"
    );
}

#[test]
fn surface_control_setting_input_descriptions_explain_type_and_default() {
    descriptions_explain_type_and_default();
}

#[test]
fn surface_control_settings_setting_input_descriptions_explain_type_and_default() {
    descriptions_explain_type_and_default();
}

#[test]
fn sections_go_round() {
    assert_eq!(adjacent_setting_section(0, 3, true), 1);
    assert_eq!(adjacent_setting_section(2, 3, true), 0);
    assert_eq!(adjacent_setting_section(0, 3, false), 2);
    assert_eq!(concise_setting_error("  first line \nsecond"), "first line");
    assert_eq!(HelpTab::Commands.other(), HelpTab::Keybindings);
}

#[test]
fn agents_that_can_be_chosen_come_first() {
    let agent = |name: &str, enabled, availability| AgentProfile {
        name: name.into(),
        description: String::new(),
        enabled,
        availability,
    };
    let rows = agent_rows(&[
        agent("helper", true, AgentAvailability::Subagent),
        agent("main", true, AgentAvailability::Both),
        agent("old", false, AgentAvailability::User),
    ]);
    let names: Vec<&str> = rows.iter().map(|row| row.name.as_str()).collect();
    assert_eq!(names, ["main", "helper", "old", "Add"]);
    assert_eq!(rows[2].detail, "disabled · user");
}

#[test]
fn agents_need_a_name_of_their_own() {
    let wizard = |name: &str| AgentWizard {
        name: name.into(),
        description: String::new(),
        parent: String::new(),
        parents: vec!["None".into()],
        parent_list: ListState::selectable(1),
        prompt: MultilineInput::new(String::new(), 0),
        availability: 0,
        step: AgentWizardStep::Name,
        cursor: 0,
        editing: false,
        original_name: None,
    };
    let names = ["taken".to_owned()];
    let submit = |name: &str| wizard(name).text_key(key(KeyCode::Enter), &names);
    assert_eq!(submit("  "), AgentWizardOutcome::NameRequired);
    assert_eq!(submit("taken"), AgentWizardOutcome::NameTaken);
    assert_eq!(submit("fresh"), AgentWizardOutcome::Stay);
}

#[test]
fn skills_are_switched_and_added() {
    let rows = [SkillRow {
        name: "s".into(),
        description: String::new(),
        source: "project".into(),
        enabled: true,
        system: false,
    }];
    let mut list = ListState::selectable(3);
    assert_eq!(skills_key(&mut list, &rows, key(KeyCode::Enter)), SkillsStep::Close);
    list.select(1, 8);
    assert_eq!(skills_key(&mut list, &rows, key(KeyCode::Enter)), SkillsStep::New);
    list.select(2, 8);
    assert_eq!(skills_key(&mut list, &rows, key(KeyCode::Enter)), SkillsStep::Toggle(0));
}

#[test]
fn texts_are_cut_and_wrapped_by_columns() {
    assert_eq!(truncate_with_ellipsis("abcdef", 4), "abc…");
    assert_eq!(truncate_with_ellipsis("abc", 4), "abc");
    assert_eq!(truncate_with_ellipsis("界界界", 4), "界…");
    assert_eq!(wrap_ranges("界界界", 4), vec![(0, 2), (2, 3)]);
    assert_eq!(terminal_safe("a\x1b[b"), "a\\u{1b}[b");
    assert_eq!(trim("\u{a0} x y\t"), "x y");
    let (dots, cursor, bounds) = masked_input_parts("e\u{301}x", 3);
    assert_eq!((dots.as_str(), cursor), ("••", 3));
    assert_eq!(bounds, vec![0, 3, 4]);
    assert_eq!(
        external_url_in_text("see https://a.b/c). or not"),
        Some((4, "https://a.b/c".to_owned()))
    );
    assert_eq!(external_url_in_text("no link"), None);
    assert_eq!(external_url_in_text("(http://.)"), Some((1, "http://".into())));
    assert_eq!(parse_unsigned("+17"), Some(17));
    assert_eq!(parse_unsigned("18446744073709551616"), None);
    assert_eq!(parse_signed("-9223372036854775808"), Some(i64::MIN));
    assert_eq!(parse_signed(""), None);
}
