use cagent_surfaces::agent_log::{
    agent_log_items, last_flow_role, log_refresh, Card, FlowItem, FlowRole, LogEntry, LogIdentity,
    LogRefresh, ToolGroup,
};
use cagent_surfaces::agent_log_layout::{AgentLogLayout, LogChoices};
use cagent_surfaces::agent_log_rows::{card_rows, log_rows, CardRows, RowKey};
use cagent_surfaces::choices::Choices;
use cagent_surfaces::expanded::{
    cached_expanded_indicator_action, cached_expanded_scroll_metrics,
    cached_expanded_surface_lines, cached_expanded_visible_path_rows, expanded_scroll_metrics,
    expanded_status_detail, expanded_surface_lines, expanded_terminal_status, expanded_text_scroll_metrics,
    expanded_title, full_file_diff_scroll_metrics, invalidate_expanded_text,
    terminal_scroll_metrics, ExpandedSource, ExpandedTextBody, ExpandedTextCacheKey,
    ExpandedTextRenderCache,
};
use cagent_surfaces::expanded_content::{
    agent_log_text, agent_log_update, expanded_text_content, AgentLogSubject, DirectoryView,
    ExpandedView, FileViewContent, LogSource, McpCall, ToolActivityStatus, WebFetchFormat, WebSearchResult,
};
use cagent_surfaces::file_rows::{
    file_line_wrap_count, file_token_needs_sanitizing, file_wrap_ranges, raw_file_line_source,
    HighlightedLine,
};
use cagent_surfaces::file_views::{
    file_logical_line_offset, full_file_diff_line_offset, DiffLine, DiffLineKind,
    FullFileDiffRows, HighlightedFileRows,
};
use cagent_surfaces::input_syntax::CodeToken;
use cagent_surfaces::scroll::ScrollViewAction;
use cagent_surfaces::style::{Background, CodeTokenKind, Line, Role, Style};
use std::cell::Cell;

fn token(kind: CodeTokenKind, text: &str) -> CodeToken {
    CodeToken { kind, text: text.into() }
}

fn plain(text: &str) -> HighlightedLine {
    HighlightedLine { tokens: vec![token(CodeTokenKind::Plain, text)] }
}

#[test]
fn expanded_title_keeps_styles_and_sanitizes_single_line_fields() {
    let subject = Line::styled("echo\n\t界\x1b".to_owned(), Style::of(Role::Accent));
    let title = expanded_title(
        "Bash output",
        Some(&subject),
        &[Line::new(), expanded_status_detail("running", Some("2s"))],
        80,
    );
    assert_eq!(title.to_text(), "  Bash output  echo  界\\u{1b} · running 2s");
    assert_eq!(title.spans[1].style, Style::of(Role::MenuTitle));
    assert_eq!(title.spans[3].style, Style::of(Role::Accent));
    assert_eq!(title.spans.last().unwrap().style, Style::of(Role::Dim));
    assert_eq!(
        expanded_title("Diff", None, &[Line::raw("0 files")], 80).to_text(),
        "  Diff  0 files"
    );
}

fn addition(text: &str) -> (DiffLine, HighlightedLine) {
    (
        DiffLine { kind: DiffLineKind::Addition, old_line: None, new_line: Some(1) },
        plain(text),
    )
}

#[test]
fn full_file_diff_rows_fill_the_expanded_width_with_their_background() {
    let (line, tokens) = addition("x");
    let rows = FullFileDiffRows::new(vec![line], vec![tokens], 40).visible_rows(0, 1);
    assert_eq!(rows[0].width(), 40);
    assert_eq!(
        rows[0].spans.last().unwrap().style,
        Style::of(Role::DiffAddition)
    );
    assert_eq!(
        rows[0].spans.last().unwrap().style.background,
        Background::Rgb(33, 58, 43)
    );
    assert_eq!(rows[0].spans[0].text, "  1 + ");
}

#[test]
fn large_highlighted_files_materialize_only_the_visible_rows() {
    let lines = (1..=10_000)
        .map(|line| plain(&format!("let value_{line} = {line};")))
        .collect::<Vec<_>>();
    let body = ExpandedTextBody::HighlightedFile(HighlightedFileRows::new(lines, 80));
    assert_eq!(body.len(), 10_000);
    let ExpandedTextBody::HighlightedFile(layout) = body else {
        unreachable!();
    };
    let mut layout = layout.rehighlight(
        8_999,
        vec![
            token(CodeTokenKind::Keyword, "let"),
            token(CodeTokenKind::Plain, " value_9000 = 9000;"),
        ],
    );
    let visible = layout.visible_rows(8_999, 20);
    assert_eq!(visible.len(), 20);
    assert!(visible[0].to_text().contains("value_9000"));
    assert!(visible[19].to_text().contains("value_9019"));
    assert!(visible[0]
        .spans
        .iter()
        .any(|span| span.style == Style::of(Role::Code(CodeTokenKind::Keyword))));
    assert_eq!(layout.visible_rows(9_000, 20).len(), 20);
    let kept = layout.cache.as_ref().unwrap();
    assert_eq!(kept.start, 8_967);
    assert_eq!(kept.rows.len(), 84);
}

#[test]
fn tokens_that_change_the_text_are_not_taken() {
    let mut layout = HighlightedFileRows::new(vec![plain("let x")], 40)
        .rehighlight(0, vec![token(CodeTokenKind::Keyword, "var")]);
    assert_eq!(layout.visible_rows(0, 1)[0].to_text(), "  1 │ let x");
    assert_eq!(layout.visible_rows(1, 5).len(), 0);
    assert_eq!(layout.visible_rows(0, 0).len(), 0);
}

fn file(text: &str) -> ExpandedView {
    ExpandedView::File {
        path: "large.rs".into(),
        size: "80 B".into(),
        content: FileViewContent::Text(vec![plain(text)]),
    }
}

fn file_key(width: u16) -> ExpandedTextCacheKey {
    ExpandedTextCacheKey { source: ExpandedSource::File(7), width }
}

#[test]
fn file_layout_is_reused_while_the_files_divider_is_dragged() {
    let text = "a very long source line that wraps at narrow widths";
    let mut cache = None;
    let mut show = |width: u16, keep: bool| {
        cached_expanded_surface_lines(
            &mut cache,
            file_key(width),
            keep,
            |kept| (expanded_text_content(file(text), width), kept),
            None,
            0,
            8,
            8,
        )
        .iter()
        .map(Line::to_text)
        .collect::<Vec<_>>()
    };
    let initial = show(20, false);
    let dragging = show(80, true);
    let released = show(80, false);

    assert_eq!(initial, dragging);
    assert_ne!(dragging, released);
}

#[test]
fn layouts_are_made_only_where_they_are_needed() {
    let mut cache = None;
    let mut made = 0;
    for _ in 0..3 {
        let (capacity, maximum) = cached_expanded_scroll_metrics(
            &mut cache,
            file_key(40),
            |kept| {
                made += 1;
                (expanded_text_content(file("one line"), 40), kept)
            },
            10,
            10,
        );
        assert_eq!((capacity, maximum), (7, 0));
    }
    assert_eq!(made, 1);
    invalidate_expanded_text(&mut cache);
    let rows = cached_expanded_visible_path_rows(
        &mut cache,
        file_key(40),
        |kept| (expanded_text_content(file("another line"), 40), kept),
        0,
        10,
        10,
    );
    assert_eq!(rows.len(), 1);
    assert_eq!(rows[0].0, 2);
    assert_eq!(rows[0].1.to_text(), "  1 │ another line");
}

#[test]
fn indicators_lead_to_the_ends_of_a_view() {
    let lines = || {
        ExpandedView::File {
            path: "a".into(),
            size: "1 B".into(),
            content: FileViewContent::Text((0..30).map(|i| plain(&format!("{i}"))).collect()),
        }
    };
    let mut cache = None;
    let mut at = |scroll: usize, row: usize| {
        cached_expanded_indicator_action(
            &mut cache,
            file_key(40),
            |kept| (expanded_text_content(lines(), 40), kept),
            scroll,
            10,
            12,
            row,
        )
    };
    assert_eq!(at(0, 1), None);
    assert_eq!(at(0, 11), Some((ScrollViewAction::End, 9, 21)));
    assert_eq!(at(5, 1), Some((ScrollViewAction::Home, 9, 21)));
    assert_eq!(at(99, 11), None);
    assert_eq!(at(5, 0), None);
    assert_eq!(at(5, 40), None);
}

#[test]
fn scroll_metrics_leave_room_for_the_header_and_the_indicators() {
    assert_eq!(expanded_text_scroll_metrics(2, 30, 10, 12), (9, 21));
    assert_eq!(expanded_text_scroll_metrics(2, 3, 10, 12), (9, 0));
    assert_eq!(expanded_text_scroll_metrics(2, 30, 10, 1), (0, 30));
    assert_eq!(terminal_scroll_metrics(4, 10), (10, 4));
    assert_eq!(expanded_scroll_metrics(&mut file("x"), 2, 30, 10, 12), (9, 21));
    let (line, tokens) = addition("x");
    let diff = FullFileDiffRows::new(vec![line], vec![tokens], 40);
    assert_eq!(diff.len(), 1);
    assert_eq!(full_file_diff_scroll_metrics(&diff, 10), (7, 0));
}

#[test]
fn terminals_fail_by_their_exit_status() {
    let status = |text: &str| expanded_terminal_status(&Some(text.to_owned()));
    assert_eq!(expanded_terminal_status(&None), "running");
    assert_eq!(status("[exited with status 0]"), "completed");
    assert_eq!(status("[exited with status 2]"), "failed");
    assert_eq!(status("[exited with status -1]"), "failed");
    assert_eq!(status("[exited with status 9999999999]"), "completed");
    assert_eq!(status("[exited with status 2"), "completed");
    assert_eq!(status("[terminated]"), "completed");
}

#[test]
fn lines_with_control_characters_are_spelled_out() {
    assert!(file_token_needs_sanitizing("a\tb"));
    assert!(!file_token_needs_sanitizing("ab"));
    assert_eq!(raw_file_line_source(&plain("a\tb")), "a\tb");
    assert_eq!(file_wrap_ranges("abcdef", 4), vec![(0, 4), (4, 6)]);
    assert_eq!(file_wrap_ranges("abcd", 4), vec![(0, 4)]);
    assert_eq!(file_line_wrap_count(&plain("a\tb"), 4), 2);
    assert_eq!(file_line_wrap_count(&plain("abc"), 4), 1);
    let mut layout = HighlightedFileRows::new(vec![plain("a\tb\x07")], 40);
    assert_eq!(layout.visible_rows(0, 1)[0].to_text(), "  1 │ a    b\\u{7}");
}

#[test]
fn wrapped_files_find_their_lines() {
    let lines = vec![plain("abcdefgh"), plain("xy"), plain("z")];
    let mut layout = HighlightedFileRows::new(lines, 10);
    assert_eq!(layout.len(), 4);
    let rows: Vec<String> = layout.visible_rows(0, 9).iter().map(Line::to_text).collect();
    assert_eq!(rows, ["  1 │ abcd", "    │ efgh", "  2 │ xy", "  3 │ z"]);
    let tail: Vec<String> = layout.visible_rows(1, 2).iter().map(Line::to_text).collect();
    assert_eq!(tail, ["    │ efgh", "  2 │ xy"]);
    assert_eq!(file_logical_line_offset(&layout, 1), 0);
    assert_eq!(file_logical_line_offset(&layout, 2), 2);
    assert_eq!(file_logical_line_offset(&layout, 99), 3);
}

#[test]
fn changed_files_find_their_lines() {
    let lines = vec![
        DiffLine { kind: DiffLineKind::Context, old_line: Some(9), new_line: Some(9) },
        DiffLine { kind: DiffLineKind::Deletion, old_line: Some(10), new_line: None },
        DiffLine { kind: DiffLineKind::Addition, old_line: None, new_line: Some(10) },
    ];
    let diff = FullFileDiffRows::new(lines, vec![plain("a"), plain("b"), plain("c")], 20);
    let rows: Vec<String> = diff.visible_rows(0, 9).iter().map(Line::to_text).collect();
    assert_eq!(rows[0], "   9   a            ");
    assert_eq!(rows[1], "  10 - b            ");
    assert_eq!(rows[2], "  10 + c            ");
    assert_eq!(full_file_diff_line_offset(&diff, None, Some(10)), 2);
    assert_eq!(full_file_diff_line_offset(&diff, Some(10), None), 1);
    assert_eq!(full_file_diff_line_offset(&diff, Some(77), None), 0);
}

fn exploration(activities: usize) -> ToolGroup {
    ToolGroup { exploration: true, activities, collapsible: true, summarized: true, active: false }
}

fn command() -> ToolGroup {
    ToolGroup {
        exploration: false,
        activities: 1,
        collapsible: true,
        summarized: true,
        active: true,
    }
}

fn entries() -> Vec<LogEntry> {
    vec![LogEntry::Assistant, LogEntry::Tools(vec![exploration(5), command()])]
}

fn chosen(number: usize) -> Choices {
    let mut choices = Choices::new();
    choices.insert(number);
    choices
}

fn log_choices(explorations: Choices, runs: Choices) -> LogChoices {
    LogChoices { explorations, runs, collapse: true }
}

fn card(key: RowKey) -> Vec<Line> {
    match key {
        RowKey::Message(_) => vec![Line::raw("Inspecting the code."), Line::new()],
        RowKey::Card(0, expanded) => {
            let shown = if expanded { 5 } else { 4 };
            let mut rows = vec![Line::raw("Explored src")];
            rows.extend((0..shown).map(|row| Line::raw(&format!("  needle{row}"))));
            rows.push(Line::new());
            rows.push(Line::new());
            rows
        }
        RowKey::Card(..) => vec![Line::raw("Ran cargo check"), Line::raw("  Finished")],
        RowKey::Summary { .. } => vec![Line::raw("Explored src and ran a command")],
        RowKey::Streaming => vec![],
    }
}

/// The log of a completed run, as it is shown and kept.
struct Log {
    cache: Option<ExpandedTextRenderCache>,
    projected: Cell<usize>,
    rendered: Cell<usize>,
}

impl Log {
    fn render(&mut self, choices: &LogChoices, streaming: Option<&str>, width: u16) -> Vec<String> {
        let written = streaming.map_or(0, str::len);
        let key =
            ExpandedTextCacheKey { source: ExpandedSource::Log(1, 7, 0, written, 0), width };
        let wanted = LogIdentity { run: 1, width, timeline: 7, activity: 0, terminals: 0 };
        let (projected, rendered) = (&self.projected, &self.rendered);
        let layout = |kept: AgentLogLayout| {
            agent_log_text(
                kept,
                wanted,
                &subject(),
                "Inspect the project",
                choices,
                || {
                    projected.set(projected.get() + 1);
                    entries()
                },
                &|key| {
                    rendered.set(rendered.get() + 1);
                    card(key)
                },
                &card,
                streaming.map(|text| vec![Line::raw(text)]),
                None,
            )
        };
        // Metrics populate the same cache that is used for the rows.
        cached_expanded_scroll_metrics(&mut self.cache, key, layout, 100, 100);
        let lines = cached_expanded_surface_lines(
            &mut self.cache,
            key,
            false,
            layout,
            None,
            0,
            100,
            100,
        );
        texts(&lines)
    }

    fn kept(&self) -> &AgentLogLayout {
        &self.cache.as_ref().unwrap().agent
    }
}

#[test]
fn subagent_expansion_reuses_cards_and_separates_them() {
    let mut log = Log { cache: None, projected: Cell::new(0), rendered: Cell::new(0) };
    let mut choices = log_choices(Choices::new(), Choices::new());
    let initial = log.render(&choices, None, 80);
    assert!(!initial.iter().any(|line| line.contains("Ran cargo check")));
    let cards: Vec<(RowKey, Vec<String>)> =
        log.kept().cards.entries.iter().map(|(key, rows)| (*key, texts(rows))).collect();
    assert_eq!(cards.len(), 3, "assistant, exploration and Bash are cached");
    assert_eq!(log.rendered.get(), 3);

    for expanded in [true, false, true] {
        if expanded {
            choices.runs.insert(0);
        } else {
            choices.runs.clear();
        }
        invalidate_expanded_text(&mut log.cache);
        let lines = log.render(&choices, None, 80);
        let ran = lines.iter().position(|line| line.contains("Ran cargo check"));
        assert_eq!(ran.is_some(), expanded);
        if let Some(ran) = ran {
            assert!(lines[ran - 1].trim().is_empty());
            assert!(!lines[ran - 2].trim().is_empty(), "exactly one spacer");
        }
        assert_eq!(log.projected.get(), 1);
        assert_eq!(log.rendered.get(), 3);
        for (index, (key, rows)) in cards.iter().enumerate() {
            let (kept_key, kept_rows) = &log.kept().cards.entries[index];
            assert_eq!(kept_key, key);
            assert_eq!(&texts(kept_rows), rows);
        }
    }

    choices.explorations.insert(0);
    invalidate_expanded_text(&mut log.cache);
    log.render(&choices, None, 80);
    assert_eq!(log.kept().cards.entries[3].0, RowKey::Card(0, true));
    assert_eq!(log.projected.get(), 1);
    assert_eq!(log.rendered.get(), 4);
    for (index, (key, rows)) in cards.iter().enumerate() {
        let (kept_key, kept_rows) = &log.kept().cards.entries[index];
        assert_eq!(kept_key, key);
        assert_eq!(&texts(kept_rows), rows);
    }

    let prefix = texts(&log.kept().prefix);
    invalidate_expanded_text(&mut log.cache);
    let lines = log.render(&choices, Some("A streaming update"), 80);
    assert_eq!(texts(&log.kept().prefix), prefix);
    assert_eq!(log.rendered.get(), 4);
    let update = lines.iter().position(|line| line == "A streaming update").unwrap();
    assert!(lines[update - 1].trim().is_empty());
    assert_eq!(lines[update - 2], "  Finished");

    log.render(&choices, Some("A streaming update"), 40);
    assert_eq!(log.projected.get(), 2);
    // The collapsed exploration is no longer needed at this width.
    assert_eq!(log.kept().cards.entries.len(), 3);
    assert_eq!(log.rendered.get(), 7);
}

#[test]
fn cards_that_are_kept_are_not_laid_out_again() {
    let mut kept = CardRows::new();
    card_rows(&mut kept, RowKey::Card(0, false), || vec![Line::raw("first")]);
    card_rows(&mut kept, RowKey::Card(0, false), || vec![Line::raw("second")]);
    card_rows(&mut kept, RowKey::Card(0, true), || vec![Line::raw("third")]);
    assert_eq!(kept.entries.len(), 2);
    assert_eq!(texts(&kept.rows(RowKey::Card(0, false))), ["first"]);
    assert_eq!(texts(&kept.rows(RowKey::Card(0, true))), ["third"]);
    assert!(kept.rows(RowKey::Streaming).is_empty());
    let items = [FlowItem::Card(Card { group: 0, ordinal: 0, expanded: true, expandable: true })];
    assert_eq!(texts(&log_rows(&items, &kept, &CardRows::new())), ["third"]);
}

#[test]
fn expansion_decides_what_is_shown_of_a_run() {
    let none = Choices::new();
    let first = chosen(0);

    let collapsed = agent_log_items(&entries(), &none, &none, true, false, false);
    assert_eq!(collapsed.len(), 2);
    assert!(matches!(collapsed[0], FlowItem::Assistant(0)));
    assert!(matches!(
        &collapsed[1],
        FlowItem::Collapsed { first: 0, count: 2, expanded: false, active: true, details }
            if details.is_empty()
    ));

    let expanded = agent_log_items(&entries(), &none, &first, true, false, false);
    let FlowItem::Collapsed { details, expanded: true, .. } = &expanded[1] else {
        panic!("expected an expanded run");
    };
    assert_eq!(
        *details,
        vec![
            Card { group: 0, ordinal: 0, expanded: false, expandable: true },
            Card { group: 1, ordinal: 1, expanded: false, expandable: false },
        ]
    );

    let explored = agent_log_items(&entries(), &first, &first, true, false, false);
    let FlowItem::Collapsed { details, .. } = &explored[1] else {
        panic!("expected an expanded run");
    };
    assert!(details[0].expanded);

    // Expansion lays out the entries anew from their cards, an update only the tail, and
    // another width everything.
    let identity = LogIdentity { run: 1, width: 80, timeline: 7, activity: 0, terminals: 0 };
    assert_eq!(log_refresh(Some(identity), identity, true), LogRefresh::Entries);
    assert_eq!(log_refresh(Some(identity), identity, false), LogRefresh::Tail);
    let narrow = LogIdentity { width: 40, ..identity };
    assert_eq!(log_refresh(Some(identity), narrow, false), LogRefresh::Everything);
    assert_eq!(log_refresh(None, identity, false), LogRefresh::Everything);
}

#[test]
fn logs_show_every_group_of_activity() {
    let none = Choices::new();
    let plain = agent_log_items(&entries(), &none, &none, false, false, false);
    assert_eq!(plain.len(), 3);
    assert!(matches!(plain[1], FlowItem::Card(Card { group: 0, .. })));
    assert!(matches!(plain[2], FlowItem::Card(Card { group: 1, .. })));
    assert_eq!(last_flow_role(&plain), Some(FlowRole::NonMessage));

    let streaming = agent_log_items(&entries(), &none, &none, true, true, false);
    assert!(matches!(streaming.last(), Some(FlowItem::Streaming)));
    assert!(matches!(streaming[1], FlowItem::Collapsed { active: false, .. }));
    assert_eq!(last_flow_role(&streaming), Some(FlowRole::Assistant));
    assert_eq!(last_flow_role(&[]), None);

    let quiet = ToolGroup { summarized: false, ..command() };
    let silent =
        agent_log_items(&[LogEntry::Tools(vec![quiet])], &none, &none, true, false, false);
    assert!(matches!(&silent[0], FlowItem::Plain { first: 0, count: 1, details } if details.len() == 1));
}

fn subject() -> AgentLogSubject {
    AgentLogSubject {
        profile: "explore".into(),
        model: "mock/echo".into(),
        effort: Some("high".into()),
        status: "completed".into(),
        elapsed: Some("6s".into()),
        usage: Some("1 call".into()),
    }
}

fn texts(rows: &[Line]) -> Vec<String> {
    rows.iter().map(Line::to_text).collect()
}

fn agent_log_view(entries: Vec<LogEntry>) -> ExpandedView {
    let mut cards = CardRows::new();
    for key in [RowKey::Message(0), RowKey::Card(0, false), RowKey::Card(1, false)] {
        card_rows(&mut cards, key, || card(key));
    }
    let mut extras = CardRows::new();
    let key = RowKey::Summary { first: 0, count: 2, expanded: false, active: true };
    card_rows(&mut extras, key, || card(key));
    ExpandedView::AgentLog {
        agent: subject(),
        task: "Inspect the project".into(),
        log: LogSource {
            entries,
            choices: log_choices(Choices::new(), Choices::new()),
            cards,
            extras,
        },
        error: None,
        streaming: false,
        max_scroll: None,
    }
}

#[test]
fn logs_remember_how_far_they_can_be_scrolled() {
    let mut view = agent_log_view(entries());
    let mut content = expanded_text_content(agent_log_view(entries()), 80);
    let ExpandedTextBody::Materialized(rows) = &content.body else {
        panic!("expected rows");
    };
    assert_eq!(
        texts(rows),
        [
            "  Task  Inspect the project",
            "",
            "Inspecting the code.",
            "",
            "Explored src and ran a command",
            "",
        ]
    );
    assert_eq!(expanded_scroll_metrics(&mut view, 3, 6, 100, 8), (4, 2));
    assert!(matches!(view, ExpandedView::AgentLog { max_scroll: Some(2), .. }));
    let lines = expanded_surface_lines(&mut view, &mut content, 9, 100, 7);
    assert_eq!(lines.len(), 7);
    assert!(matches!(view, ExpandedView::AgentLog { max_scroll: Some(3), .. }));
}

#[test]
fn logs_end_with_their_error_or_their_message() {
    let view = agent_log_view(vec![]);
    let content = expanded_text_content(view, 80);
    assert_eq!(
        texts(&content.header),
        ["  Sub-agent log  explore · mock/echo high · completed 6s", "  1 call", ""]
    );
    let ExpandedTextBody::Materialized(rows) = &content.body else {
        panic!("expected rows");
    };
    assert_eq!(texts(rows), ["  Task  Inspect the project", "", "  No activity yet.", ""]);

    let prefix = vec![Line::raw("kept"), Line::raw("  "), Line::new()];
    let mut content = agent_log_update(
        &subject(),
        prefix,
        Some(FlowRole::NonMessage),
        Some(vec![Line::raw("A streaming update")]),
        None,
        80,
    );
    assert_eq!(content.body.len(), 4);
    assert_eq!(texts(&content.body.visible_rows(0, 9)), ["kept", "", "A streaming update", ""]);

    let failed = agent_log_update(
        &subject(),
        vec![Line::raw("kept")],
        Some(FlowRole::Assistant),
        None,
        Some("out of tokens"),
        80,
    );
    let ExpandedTextBody::AgentLog { tail, .. } = &failed.body else {
        panic!("expected a log");
    };
    assert_eq!(texts(tail), ["", "  Error  out of tokens", ""]);
}

#[test]
fn calls_show_their_parameters_and_output() {
    let call = |output: Option<&str>, status| McpCall {
        server: "docs".into(),
        tool: "search".into(),
        status,
        duration_millis: Some(250),
        long_duration: String::new(),
        parameters: "{\"q\":\"x\"}".into(),
        parameter_tokens: vec![],
        output: output.map(str::to_owned),
        output_tokens: vec![],
    };
    let shown = |call| {
        let content = expanded_text_content(ExpandedView::Mcp(call), 60);
        let ExpandedTextBody::Materialized(rows) = content.body else {
            panic!("expected rows");
        };
        (content.header[0].to_text(), texts(&rows))
    };
    let (title, rows) = shown(call(Some("not json"), ToolActivityStatus::Failed));
    assert_eq!(title, "  MCP  docs/search · failed 250ms");
    assert_eq!(
        rows,
        [
            "Parameters:",
            "  1 │ {",
            "  2 │   \"q\": \"x\"",
            "  3 │ }",
            "",
            "Output:",
            "  1 │ null",
        ]
    );
    let (_, rows) = shown(call(None, ToolActivityStatus::Pending));
    assert_eq!(rows.last().unwrap(), "Waiting for output…");
    let (_, rows) = shown(call(None, ToolActivityStatus::Succeeded));
    assert_eq!(rows.last().unwrap(), "No output available.");
}

#[test]
fn pages_are_shown_by_their_format() {
    let shown = |format, output: &str| {
        let content = expanded_text_content(
            ExpandedView::WebFetch {
                url: "https://a".into(),
                redirected: Some("https://b".into()),
                format,
                output: output.into(),
            },
            14,
        );
        let ExpandedTextBody::Materialized(rows) = content.body else {
            panic!("expected rows");
        };
        texts(&rows)
    };
    assert_eq!(shown(WebFetchFormat::Text, "one two three\r\nx\n"), ["one two th", "ree", "x"]);
    assert_eq!(shown(WebFetchFormat::Markdown(vec![Line::raw("laid out")]), "# x"), ["laid out"]);
    let tokens = vec![vec![token(CodeTokenKind::Keyword, "<b>"), token(CodeTokenKind::Plain, "x")]];
    assert_eq!(shown(WebFetchFormat::Html(tokens), "<b>x\n</b>"), ["<b>x", "</b>"]);
}

#[test]
fn search_results_are_listed() {
    let result = |published: Option<&str>, snippet: &str| WebSearchResult {
        title: "Title".into(),
        url: "https://a".into(),
        published_at: published.map(str::to_owned),
        snippet: snippet.into(),
    };
    let shown = |results| {
        let content = expanded_text_content(
            ExpandedView::WebSearch { provider: "Exa".into(), query: "q".into(), results },
            30,
        );
        let ExpandedTextBody::Materialized(rows) = content.body else {
            panic!("expected rows");
        };
        (content.header[0].to_text(), texts(&rows))
    };
    assert_eq!(shown(vec![]).1, ["No results."]);
    let (title, rows) = shown(vec![result(Some("today"), "text"), result(None, "")]);
    assert_eq!(title, "  Web Search  q · Exa · 2 res…");
    assert_eq!(
        rows,
        [
            "• Title",
            "  https://a",
            "",
            "  today",
            "  text",
            "",
            "• Title",
            "  https://a",
        ]
    );
}

#[test]
fn files_that_hold_no_text_say_so() {
    let shown = |content| {
        let content = expanded_text_content(
            ExpandedView::File { path: "a".into(), size: "1 B".into(), content },
            60,
        );
        let ExpandedTextBody::Materialized(rows) = content.body else {
            panic!("expected rows");
        };
        (content.header[0].to_text(), texts(&rows))
    };
    let (title, rows) = shown(FileViewContent::Binary);
    assert_eq!(title, "  File  a · binary · 1 B");
    assert_eq!(rows, ["  Binary files cannot be displayed."]);
    let (title, rows) = shown(FileViewContent::Image { format: "PNG".into() });
    assert_eq!(title, "  File  a · PNG image · 1 B");
    assert!(rows.is_empty());
    let (_, rows) = shown(FileViewContent::TooLarge { limit: "2 MB".into() });
    assert_eq!(rows, ["  File is too large to display (limit 2 MB)."]);
    let (_, rows) = shown(FileViewContent::Unavailable { message: "gone".into() });
    assert_eq!(rows, ["  File is unavailable: gone"]);
}

#[test]
fn directories_count_their_entries() {
    let directory = |unavailable: Option<&str>| DirectoryView {
        root: "/work".into(),
        selectable: vec![true, false, true],
        limit: Some(500),
        unavailable: unavailable.map(str::to_owned),
        rows: vec![Line::raw("a"), Line::raw("b"), Line::raw("c")],
    };
    let content = expanded_text_content(ExpandedView::Directory(directory(None)), 60);
    assert_eq!(
        texts(&content.header),
        ["  Directory  /work · 2 entries", "  Showing the first 500 entries.", ""]
    );
    assert_eq!(content.body.len(), 3);
    let content = expanded_text_content(ExpandedView::Directory(directory(Some("denied"))), 60);
    let ExpandedTextBody::Materialized(rows) = content.body else {
        panic!("expected rows");
    };
    assert_eq!(texts(&rows), ["  Directory is unavailable: denied"]);
}

#[test]
fn other_views_have_their_titles() {
    let title = |view| expanded_text_content(view, 60).header[0].to_text();
    assert_eq!(title(ExpandedView::Compaction(vec![])), "  Compacted context");
    assert_eq!(
        title(ExpandedView::RepositoryDiff { title: "Diff".into(), files: 3, rows: vec![] }),
        "  Diff  3 files"
    );
    assert_eq!(
        title(ExpandedView::Image { number: 2, width: 64, height: 48, size: "9 kB".into() }),
        "  Image  #2 · PNG · 64×48 · 9 kB"
    );
    assert_eq!(
        title(ExpandedView::Diff {
            path: "a.rs".into(),
            added: 2,
            removed: 1,
            lines: vec![],
            tokens: vec![],
        }),
        "  Diff  a.rs · +2 -1"
    );
}

#[test]
fn changed_files_count_the_rows_that_they_show() {
    let (line, tokens) = addition(&"x".repeat(100));
    let diff = FullFileDiffRows::new(vec![line], vec![tokens], 46);
    let mut body = ExpandedTextBody::FullFileDiff(diff);
    assert_eq!(body.len(), 3);
    assert_eq!(body.visible_rows(1, 3).len(), 2);
    assert_eq!(body.visible_rows(3, 3).len(), 0);

    let (line, _) = addition("");
    let apart = HighlightedLine {
        tokens: vec![
            token(CodeTokenKind::Plain, &"x".repeat(39)),
            token(CodeTokenKind::Plain, "\u{2639}"),
            token(CodeTokenKind::Plain, "\u{fe0f}"),
        ],
    };
    let mut body =
        ExpandedTextBody::FullFileDiff(FullFileDiffRows::new(vec![line], vec![apart], 46));
    assert_eq!(body.len(), 1);
    assert_eq!(body.visible_rows(0, 1).len(), 1);
    assert_eq!(body.visible_rows(0, 5).len(), 2);
}
