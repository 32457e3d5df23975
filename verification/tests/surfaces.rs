use cagent_surfaces::agents::{AgentWizard, AgentWizardStep, SkillWizard, SkillWizardStep};
use cagent_surfaces::layout::{SurfaceHit, SurfaceLayout};
use cagent_surfaces::list::{ListHit, ListState};
use cagent_surfaces::mcp::{McpLocation, McpScope};
use cagent_surfaces::menu::single_line_menu_choice;
use cagent_surfaces::multiline_input::MultilineInput;
use cagent_surfaces::permission::render_permission_scroll_window;
use cagent_surfaces::pickers::{Conversations, Help, HelpTab, ConversationRow};
use cagent_surfaces::providers::{TextField, WebSearchProvider};
use cagent_surfaces::render_mcp::{McpMutationPreview, McpTools};
use cagent_surfaces::render_pickers::picker_row;
use cagent_surfaces::render_settings::StatusLineTexts;
use cagent_surfaces::scroll::{ScrollViewAction, ScrollViewHit, ScrollViewState};
use cagent_surfaces::settings::Settings;
use cagent_surfaces::single_line_input::SingleLineInput;
use cagent_surfaces::status_line::{StatusLineCatalog, StatusLineModule};
use cagent_surfaces::style::{Line, Role, StatusLineColor, Style};
use cagent_surfaces::surface::{ExpandedKind, Surface, SurfaceContext};
use cagent_surfaces::surface_hits::surface_list_hits;
use cagent_surfaces::surface_layout::{
    surface_layout_with_viewport, surface_lines, surface_tab_at, SurfaceTab,
};
use cagent_surfaces::surface_status::surface_status;
use std::cell::Cell;

fn context() -> SurfaceContext {
    SurfaceContext {
        none_of_the_above: "None of the above".into(),
        mode_color: StatusLineColor::Named(0),
        status_texts: StatusLineTexts { names: vec![], descriptions: vec![], colors: vec![] },
        status_catalog: StatusLineCatalog {
            modules: 0,
            hint: StatusLineModule { index: 0 },
            mode: StatusLineModule { index: 0 },
            default_colors: vec![],
            named_colors: 0,
        },
        status_preview: Line::new(),
        sections: vec!["General".into(), "Interface".into()],
        visible: vec![],
        messages: vec![],
        diff: None,
        expanded: vec![],
    }
}

fn layout(surface: &Surface, width: u16, rows: usize) -> SurfaceLayout {
    surface_layout_with_viewport(surface, &context(), width, rows)
}

#[test]
fn permission_scroll_renders_the_visible_window_once() {
    let state = ScrollViewState { offset: 100, content_rows: 1_000 };
    let calls = Cell::new(0);

    let layout = render_permission_scroll_window(&state, 5, |start, rows| {
        calls.set(calls.get() + 1);
        assert_eq!((start, rows), (100, 5));
        (start..start + rows)
            .map(|row| Line::raw(&format!("row {row}")))
            .collect()
    });

    assert_eq!(calls.get(), 1);
    assert_eq!(layout.lines.len(), 7);
    assert_eq!(layout.lines[1].to_text(), "row 100");
    assert_eq!(layout.lines[5].to_text(), "row 104");
}

#[test]
fn picker_rows_fill_the_available_width() {
    assert_eq!(
        picker_row(0, false, "10s ago", "Title", 3, "model", false, 40).width(),
        40
    );
}

#[test]
fn picker_rows_show_message_count_before_model() {
    let row = picker_row(0, false, "10s ago", "Title", 3, "model", false, 40);
    assert_eq!(row.spans[2].text, "3 messages  ");
    assert_eq!(row.spans[3].text, "model");
    assert!(row.spans[2].style.dim);
}

#[test]
fn favourite_conversation_star_matches_model_favourite_style() {
    let row = picker_row(0, false, "10s ago", "Title", 3, "model", true, 40);
    let star = row.spans.iter().find(|span| span.text == " ★").unwrap();
    assert_eq!(star.style.role, Style::of(Role::Notice).role);
}

#[test]
fn picker_rows_cut_long_titles_and_count_one_message() {
    let row = picker_row(1, true, "3d", "a title that is far too long to fit", 1, "model", false, 40);
    assert_eq!(row.width(), 40);
    assert_eq!(row.spans[0].text, " ›      3d  ");
    assert_eq!(row.spans[2].text, "1 message  ");
    assert!(row.spans[1].text.contains('…'));
}

#[test]
fn background_rows_are_truncated_to_one_terminal_line() {
    let row = single_line_menu_choice(
        true,
        "general · running",
        "run a long command with enough details to overflow a narrow terminal",
        32,
    );
    assert!(row.width() <= 32);
    assert!(row.to_text().contains('…'));
}

#[test]
fn empty_mcp_tool_states_keep_rendered_lines_and_hits_aligned() {
    for (loading, failure) in [
        (true, None),
        (false, Some("inspection failed".to_owned())),
        (false, None),
    ] {
        let layout = layout(
            &Surface::McpTools(McpTools {
                server: "docs".into(),
                tools: Vec::new(),
                list: ListState::selectable(0),
                loading,
                failure,
            }),
            80,
            usize::MAX,
        );
        assert_eq!(layout.lines.len(), layout.hits.len());
        assert_eq!(layout.lines.len(), 4);
        assert!(layout.lines[1].to_text().is_empty());
        assert!(!layout.lines[2].to_text().is_empty());
        assert!(layout.lines[3].to_text().is_empty());
    }
}

fn help(rows: usize) -> Help {
    Help {
        tab: HelpTab::Commands,
        command_rows: (0..rows)
            .map(|index| (format!("command-{index}"), "details".to_owned()))
            .collect(),
        key_rows: Vec::new(),
        list: ScrollViewState::new(rows),
    }
}

#[test]
fn composed_help_layout_retains_the_scroll_geometry_that_rendered_it() {
    let layout = layout(&Surface::Help(help(20)), 80, 40);
    let region = layout.scroll_region.expect("help owns a scroll region");
    assert_eq!(region.start..region.end, 3..17);
    assert_eq!(region.metrics.content_rows, 20);
    assert_eq!(region.metrics.capacity, 12);
    assert_eq!(region.metrics.maximum_offset, 8);
}

#[test]
fn input_hits_map_single_line_and_masked_credentials() {
    let rename = Surface::Rename(TextField { value: "a界b".into(), cursor: 0 });
    let shown = layout(&rename, 80, 12);
    assert_eq!(shown.input_cursor_at(2, 3), Some(1));

    let masked = Surface::WebSearchSetup {
        provider: WebSearchProvider::Exa,
        label: "Exa".into(),
        field: TextField { value: "e\u{301}x".into(), cursor: 0 },
    };
    let shown = layout(&masked, 80, 12);
    // The second mask glyph is the source boundary after the first grapheme.
    assert_eq!(shown.input_cursor_at(2, 12), Some("e\u{301}".len()));
    assert!(shown.lines[2]
        .spans
        .iter()
        .any(|span| span.style == Style::of(Role::SearchCursor)));
}

#[test]
fn unbounded_layout_does_not_expand_multiline_input_hits() {
    let surface = Surface::AgentWizard(AgentWizard {
        name: String::new(),
        description: String::new(),
        parent: "None".into(),
        parents: vec!["None".into()],
        parent_list: ListState::selectable(1),
        prompt: MultilineInput::new("one\ntwo".into(), 0),
        availability: 0,
        step: AgentWizardStep::Prompt,
        cursor: 0,
        editing: false,
        original_name: None,
    });
    let lines = surface_lines(&surface, &context(), 80);
    assert_eq!(lines.len(), 5);
}

#[test]
fn multiline_surfaces_expose_the_scroll_widgets_rows_and_hits() {
    let source = (0..10)
        .map(|line| format!("line {line}"))
        .collect::<Vec<_>>()
        .join("\n");
    let surface = Surface::McpJsonEdit {
        location: McpLocation { scope: McpScope::Global, agent: None },
        separate_name: None,
        editor: MultilineInput::new(source, 0),
        tokens: vec![],
    };
    let layout = layout(&surface, 80, 8);

    assert_eq!(layout.lines.len(), 8);
    assert_eq!(layout.surface_hit(1), SurfaceHit::Blank);
    assert_eq!(
        layout.surface_hit(2),
        SurfaceHit::Scroll(ScrollViewHit::Content(0))
    );
    assert_eq!(
        layout.surface_hit(7),
        SurfaceHit::Scroll(ScrollViewHit::Indicator(ScrollViewAction::PageNext))
    );
    assert_eq!(layout.input_cursor_at(2, 4), Some(2));
    let region = layout.scroll_region.unwrap();
    assert_eq!(region.start..region.end, 1..8);
    assert_eq!(region.metrics.capacity, 5);
}

#[test]
fn help_rows_show_the_first_commands_and_their_tabs() {
    let surface = Surface::Help(help(20));
    let layout = layout(&surface, 80, 40);
    assert_eq!(layout.lines[0].to_text(), "  Help");
    assert_eq!(layout.lines[2].to_text(), "  [ Commands ]  [ Keybindings ]");
    assert_eq!(layout.lines[4].to_text(), "  command-0  details");
    assert_eq!(layout.lines[15].to_text(), "  command-11  details");
    assert_eq!(layout.lines[16].to_text(), "  ↓");
    assert_eq!(layout.hits[16], ListHit::Down);
    assert_eq!(layout.surface_hit(99), SurfaceHit::Blank);
}

#[test]
fn tabs_are_hit_by_their_columns() {
    let surface = Surface::Help(help(1));
    assert_eq!(surface_tab_at(&surface, &[], 2, 2), Some(SurfaceTab::Help(HelpTab::Commands)));
    assert_eq!(surface_tab_at(&surface, &[], 2, 13), Some(SurfaceTab::Help(HelpTab::Commands)));
    assert_eq!(surface_tab_at(&surface, &[], 2, 14), None);
    assert_eq!(
        surface_tab_at(&surface, &[], 2, 16),
        Some(SurfaceTab::Help(HelpTab::Keybindings))
    );
    assert_eq!(surface_tab_at(&surface, &[], 1, 2), None);

    let sections = vec!["General".to_owned(), "Interface".to_owned()];
    let mut settings = Settings {
        rows: vec![],
        section: 0,
        list: ListState::selectable(0),
        query: String::new(),
        query_cursor: 0,
    };
    assert_eq!(
        surface_tab_at(&Surface::Settings(settings), &sections, 2, 16),
        Some(SurfaceTab::Settings(1))
    );
    settings = Settings {
        rows: vec![],
        section: 0,
        list: ListState::selectable(0),
        query: "x".into(),
        query_cursor: 1,
    };
    assert_eq!(surface_tab_at(&Surface::Settings(settings), &sections, 2, 16), None);
}

#[test]
fn directories_mark_the_rows_that_can_be_selected() {
    let surface = Surface::Expanded {
        kind: ExpandedKind::Directory { selectable: vec![true, false] },
        header_rows: 2,
        body_rows: 2,
        scroll: 0,
        viewport_rows: 10,
    };
    let mut context = context();
    context.expanded = (0..6).map(|_| Line::new()).collect();
    let layout = surface_layout_with_viewport(&surface, &context, 80, 10);
    assert_eq!(layout.surface_hit(2), SurfaceHit::DirectoryItem(0));
    assert_eq!(layout.surface_hit(3), SurfaceHit::Scroll(ScrollViewHit::Content(1)));
}

#[test]
fn conversation_pickers_keep_their_height() {
    let picker = |query: &str| {
        Surface::Conversations(Conversations {
            rows: vec![ConversationRow {
                id: 1,
                title: "Useful title".into(),
                timestamp: "1m".into(),
                model: None,
                message_count: 2,
                archived: true,
                favourite: false,
            }],
            list: ListState::selectable(1),
            query: query.into(),
            query_cursor: 0,
            opened_at_millis: 0,
            include_archived: true,
        })
    };
    for query in ["", "useful", "nothing like it"] {
        assert_eq!(layout(&picker(query), 60, 14).lines.len(), 14);
    }
    let shown = layout(&picker(""), 60, 14);
    assert!(shown.lines[3].to_text().contains("Useful title (archived)"));
    assert!(shown.lines[3].to_text().contains("no model"));
    assert_eq!(shown.hits[3], ListHit::Item(0));
    let empty = layout(&picker("nothing like it"), 60, 14);
    assert_eq!(empty.lines[12].to_text(), "  No conversations match your search.");
}

#[test]
fn statuses_say_what_can_be_done() {
    assert_eq!(surface_status(&Surface::Onboarding, &[]), "Enter setup · Esc dismiss");
    assert_eq!(
        surface_status(&Surface::Help(help(1)), &[]),
        "↑/↓ scroll · ←/→ tabs · Esc close"
    );
    assert_eq!(
        surface_status(&Surface::ModelsUnavailable, &[]),
        "Enter continue · Esc close"
    );
}

#[test]
fn scroll_regions_are_the_rows_that_were_drawn() {
    let text = vec!["row"; 20].join("\n");
    let wizard = SkillWizard {
        project: true,
        scope_list: ListState::selectable(2),
        name: SingleLineInput::new(String::new(), 0),
        description: SingleLineInput::new(String::new(), 0),
        content: MultilineInput::new(text.clone(), text.len()),
        step: SkillWizardStep::Content,
    };
    let shown = layout(&Surface::SkillWizard(wizard), 40, 40);
    assert_eq!(shown.lines.len(), 11);
    let region = shown.scroll_region.as_ref().unwrap();
    assert_eq!((region.start, region.end), (1, 11));
    assert_eq!(region.metrics.capacity, 8);
    assert_eq!(region.metrics.maximum_offset, 12);
    assert_eq!(
        shown.surface_hit(1),
        SurfaceHit::Scroll(ScrollViewHit::Indicator(ScrollViewAction::PagePrevious))
    );
    assert_eq!(shown.surface_hit(2), SurfaceHit::Scroll(ScrollViewHit::Content(12)));
    assert_eq!(shown.surface_hit(10), SurfaceHit::Blank);
}

fn change(names: usize) -> Surface {
    Surface::McpMutationPreview {
        preview: McpMutationPreview {
            requires_confirmation: false,
            affected: (0..names).map(|i| format!("server {i}")).collect(),
            revealed: vec![],
            touched_agent_policies: vec![],
            touched_permission_rules: vec![],
        },
        list: ListState::selectable(2),
        details: ScrollViewState { offset: 0, content_rows: names },
    }
}

#[test]
fn details_scroll_below_a_menu_that_wraps() {
    for width in [80, 20, 9] {
        for rows in [40, 8, 3] {
            let shown = layout(&change(30), width, rows);
            let region = shown.scroll_region.as_ref().unwrap();
            assert_eq!(region.end, shown.lines.len());
            let texts: Vec<String> = shown.lines.iter().map(Line::to_text).collect();
            let capacity = region.metrics.capacity;
            assert_eq!(region.end - region.start, capacity + 2);
            assert_eq!(region.metrics.maximum_offset, 30 - capacity);
            for i in 0..capacity {
                assert_eq!(texts[region.start + 1 + i], format!("  affects server {i}"));
                assert_eq!(
                    shown.surface_hit(region.start + 1 + i),
                    SurfaceHit::Scroll(ScrollViewHit::Content(i))
                );
            }
        }
    }
    let wide = layout(&change(3), 80, 40);
    assert_eq!(wide.scroll_region.unwrap().start, 5);
    let narrow = layout(&change(3), 9, 40);
    assert!(narrow.scroll_region.unwrap().start > 5);
}

#[test]
fn list_hits_lie_on_the_rows_of_their_surface() {
    let surfaces = [
        change(3),
        Surface::Help(help(40)),
        Surface::McpAddScope { selected: 2 },
        Surface::Skills { rows: vec![], list: ListState::selectable(2) },
        Surface::AgentEdit { name: "planner".into(), list: ListState::selectable(5) },
    ];
    for surface in &surfaces {
        for width in [0, 1, 7, 80] {
            for rows in [0, 4, 30] {
                let (start, hits) =
                    surface_list_hits(surface, &context(), width, rows).unwrap();
                let lines = layout(surface, width, rows).lines;
                assert!(start + hits.len() <= lines.len());
            }
        }
    }
}
