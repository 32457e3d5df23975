//! The rows of the settings and of the editor of the status line.

use vstd::prelude::*;
use vstd::string::*;
use crate::input_syntax::CodeToken;
use crate::json::entry_views;
use crate::list::{VISIBLE_MENU_ITEMS, ListState, ListWidget};
use crate::menu::{
    choices_of, fit_lines, fitted_rows, indented, indented_syntax_input, input_line, is_at,
    lemma_single_rows, less, list_rows, marker, menu_title, render_list, role_when, style_when,
    title_line,
};
use crate::render::{concat3, safe, terminal_safe};
use crate::render_mcp::text_choice_lines;
use crate::render_pickers::{tab_line, tab_spans};
use crate::render_setup::{
    description_row, no_filter_matches, no_matches_line, plain_input_line, search_menu_title,
    search_title, setting_description_line,
};
use crate::settings::{
    input_description, input_placeholder, item_capacity, setting_input_description,
    setting_placeholder, settings_item_capacity, SettingDefinition, SettingRow, Settings,
};
use crate::single_line_input::InputView;
use crate::status_line::{
    color_choices, color_of, hex_input, hex_text, status_line_color_choices, StatusLineCatalog,
    StatusLineColorChoice, StatusLineConfig, StatusLineEditor, StatusLineEditorMode,
    StatusLineModule,
};
use crate::style::{
    append_lines, blank_line, line, line_views, push_line, span, Line, LineView, Role,
    StatusLineColor, Style,
};
use crate::unicode::views;

verus! {

/// The words for the parts of the status line and for its colours.
#[derive(Debug)]
pub struct StatusLineTexts {
    pub names: Vec<String>,
    pub descriptions: Vec<String>,
    pub colors: Vec<String>,
}

impl StatusLineTexts {
    /// Every module and every colour with a name has its words.
    pub open spec fn cover(self, catalog: StatusLineCatalog) -> bool {
        &&& self.names@.len() >= catalog.modules
        &&& self.descriptions@.len() >= catalog.modules
        &&& self.colors@.len() >= catalog.named_colors
    }
}

/// The name of a colour.
pub open spec fn color_name(texts: StatusLineTexts, color: StatusLineColor) -> Seq<char> {
    match color {
        StatusLineColor::Named(index) => if index < texts.colors@.len() {
            texts.colors@[index as int]@
        } else {
            Seq::empty()
        },
        StatusLineColor::Rgb(_, _, _) => hex_text(color),
    }
}

fn name_of_color(texts: &StatusLineTexts, color: StatusLineColor) -> (name: String)
    ensures
        name@ == color_name(*texts, color),
{
    match color {
        StatusLineColor::Named(index) => if (index as usize) < texts.colors.len() {
            texts.colors[index as usize].as_str().to_owned()
        } else {
            String::new()
        },
        StatusLineColor::Rgb(_, _, _) => hex_input(color),
    }
}

/// The marker of an item of the status line.
pub open spec fn pointer(selected: bool) -> Seq<char> {
    if selected { "\u{203a} "@ } else { "  "@ }
}

fn pointer_text(selected: bool) -> (text: &'static str)
    ensures
        text@ == pointer(selected),
{
    if selected {
        "\u{203a} "
    } else {
        "  "
    }
}

/// A module in its list.
pub open spec fn module_line(
    texts: StatusLineTexts,
    config: StatusLineConfig,
    catalog: StatusLineCatalog,
    module: StatusLineModule,
    selected: bool,
) -> LineView {
    let style = Style::of(Role::Colored(color_of(config.colors@, catalog, module)));
    line(
        seq![
            span(pointer(selected), Style::of(Role::Selected)),
            span(
                if config.modules@.contains(module) { "\u{25cf}"@ } else { "\u{25cb}"@ },
                style,
            ),
            span(" "@, Style::plain()),
            span(texts.names@[module.index as int]@, style),
            span("  "@, Style::plain()),
            span(texts.descriptions@[module.index as int]@, Style::of(Role::Dim)),
        ],
    )
}

fn has_module(modules: &[StatusLineModule], module: StatusLineModule) -> (found: bool)
    ensures
        found == modules@.contains(module),
{
    let mut i: usize = 0;
    while i < modules.len()
        invariant
            i <= modules@.len(),
            forall|k: int| 0 <= k < i ==> #[trigger] modules@[k] != module,
        decreases modules@.len() - i,
    {
        if modules[i] == module {
            return true;
        }
        i += 1;
    }
    false
}

fn render_module(
    texts: &StatusLineTexts,
    config: &StatusLineConfig,
    catalog: &StatusLineCatalog,
    module: StatusLineModule,
    selected: bool,
) -> (row: Line)
    requires
        texts.cover(*catalog),
        catalog.valid(),
        catalog.has(module),
    ensures
        row@ == module_line(*texts, *config, *catalog, module, selected),
{
    let style: Style = Style::of(Role::Colored(config.color(catalog, module)));
    let mut row = Line::new();
    row.push_str(pointer_text(selected), Style::of(Role::Selected));
    row.push_str(
        if has_module(config.modules.as_slice(), module) {
            "\u{25cf}"
        } else {
            "\u{25cb}"
        },
        style,
    );
    row.push_str(" ", Style::plain());
    row.push_str(texts.names[module.index as usize].as_str(), style);
    row.push_str("  ", Style::plain());
    row.push_str(texts.descriptions[module.index as usize].as_str(), Style::of(Role::Dim));
    proof {
        assert(row@.spans =~= module_line(*texts, *config, *catalog, module, selected).spans);
    }
    row
}

/// The items of the list of modules.
pub open spec fn module_items(
    editor: StatusLineEditor,
    texts: StatusLineTexts,
    catalog: StatusLineCatalog,
    selected: Option<usize>,
) -> Seq<LineView> {
    Seq::new(
        editor.rows@.len(),
        |i: int|
            module_line(
                texts,
                editor.config,
                catalog,
                editor.rows@[i],
                selected == Some(i as usize),
            ),
    )
}

/// A colour in its list.
pub open spec fn color_line(
    texts: StatusLineTexts,
    default: StatusLineColor,
    choice: StatusLineColorChoice,
    selected: bool,
) -> LineView {
    let (label, style) = match choice {
        StatusLineColorChoice::Default => (
            "Default ("@ + color_name(texts, default) + ")"@,
            Style::of(Role::Colored(default)),
        ),
        StatusLineColorChoice::Named(color) => (
            color_name(texts, color),
            Style::of(Role::Colored(color)),
        ),
        StatusLineColorChoice::Custom => ("Custom hex\u{2026}"@, Style::plain()),
    };
    line(
        seq![
            span(pointer(selected), Style::of(Role::Selected)),
            span("\u{25cf} "@, style),
            span(label, style),
        ],
    )
}

fn render_color(
    texts: &StatusLineTexts,
    default: StatusLineColor,
    choice: &StatusLineColorChoice,
    selected: bool,
) -> (row: Line)
    ensures
        row@ == color_line(*texts, default, *choice, selected),
{
    let (label, style): (String, Style) = match choice {
        StatusLineColorChoice::Default => (
            concat3("Default (", name_of_color(texts, default).as_str(), ")"),
            Style::of(Role::Colored(default)),
        ),
        StatusLineColorChoice::Named(color) => (
            name_of_color(texts, *color),
            Style::of(Role::Colored(*color)),
        ),
        StatusLineColorChoice::Custom => ("Custom hex\u{2026}".to_owned(), Style::plain()),
    };
    let mut row = Line::new();
    row.push_str(pointer_text(selected), Style::of(Role::Selected));
    row.push_str("\u{25cf} ", style);
    row.push(label, style);
    proof {
        assert(row@.spans =~= color_line(*texts, default, *choice, selected).spans);
    }
    row
}

/// The items of the list of colours.
pub open spec fn color_items(
    texts: StatusLineTexts,
    catalog: StatusLineCatalog,
    module: StatusLineModule,
    selected: Option<usize>,
) -> Seq<LineView> {
    let choices = color_choices(catalog.named_colors as int);
    Seq::new(
        choices.len(),
        |i: int|
            color_line(
                texts,
                catalog.default_colors@[module.index as int],
                choices[i],
                selected == Some(i as usize),
            ),
    )
}

/// The rows below the preview of the status line.
pub open spec fn editor_mode_rows(
    editor: StatusLineEditor,
    texts: StatusLineTexts,
    catalog: StatusLineCatalog,
    width: int,
) -> Seq<LineView> {
    let capacity = VISIBLE_MENU_ITEMS as int;
    match editor.mode {
        StatusLineEditorMode::Modules => {
            let state = editor.list.reconciled(editor.rows@.len() as int, capacity);
            list_rows(
                module_items(editor, texts, catalog, state.selected),
                Seq::empty(),
                state,
                ListWidget::of(capacity),
                width,
                true,
            )
        },
        StatusLineEditorMode::Colors { module, list } => {
            let state = list.reconciled(
                color_choices(catalog.named_colors as int).len() as int,
                capacity,
            );
            list_rows(
                color_items(texts, catalog, module, state.selected),
                Seq::empty(),
                state,
                ListWidget::of(capacity),
                width,
                false,
            )
        },
        StatusLineEditorMode::Hex { module, input, cursor } => seq![
            line(
                seq![
                    span("  Custom color for "@, Style::plain()),
                    span(texts.names@[module.index as int]@, Style::of(Role::Accent)),
                    span(" (#RRGGBB)"@, Style::of(Role::Dim)),
                ],
            ),
            blank_line(),
            input_line(
                "  "@,
                InputView::of(input@, cursor as int),
                Seq::empty(),
                less(width, 2),
                Style::plain(),
            ),
            blank_line(),
        ],
    }
}

/// The rows of the editor of the status line. `preview` is what the status line
/// would show.
pub open spec fn status_line_surface(
    editor: StatusLineEditor,
    texts: StatusLineTexts,
    catalog: StatusLineCatalog,
    preview: LineView,
    width: int,
) -> Seq<LineView> {
    seq![
        title_line("Statusline"@, None),
        blank_line(),
        line(
            seq![span("  "@, Style::plain()), span("Preview  "@, Style::of(Role::Dim))]
                + preview.spans,
        ),
    ] + editor_mode_rows(editor, texts, catalog, width)
}

fn render_editor_mode(
    editor: &StatusLineEditor,
    texts: &StatusLineTexts,
    catalog: &StatusLineCatalog,
    width: u16,
) -> (lines: Vec<Line>)
    requires
        editor.valid(*catalog),
        texts.cover(*catalog),
    ensures
        line_views(lines@) == editor_mode_rows(*editor, *texts, *catalog, width as int),
{
    let empty: Vec<Line> = Vec::new();
    proof {
        assert(line_views(empty@) =~= Seq::empty());
    }
    match &editor.mode {
        StatusLineEditorMode::Modules => {
            let mut state: ListState = editor.list;
            state.reconcile(editor.rows.len(), VISIBLE_MENU_ITEMS);
            let ghost all = module_items(*editor, *texts, *catalog, state.selected);
            let mut items: Vec<Line> = Vec::new();
            let mut i: usize = 0;
            while i < editor.rows.len()
                invariant
                    i <= editor.rows@.len(),
                    catalog.valid(),
                    texts.cover(*catalog),
                    forall|k: int|
                        0 <= k < editor.rows@.len() ==> catalog.has(#[trigger] editor.rows@[k]),
                    all == module_items(*editor, *texts, *catalog, state.selected),
                    items@.len() == i,
                    line_views(items@) == all.take(i as int),
                decreases editor.rows@.len() - i,
            {
                push_line(
                    &mut items,
                    render_module(
                        texts,
                        &editor.config,
                        catalog,
                        editor.rows[i],
                        is_at(state.selected, i),
                    ),
                );
                i += 1;
                proof {
                    assert(line_views(items@) =~= all.take(i as int));
                }
            }
            proof {
                assert(all.take(i as int) =~= all);
            }
            render_list(&items, empty, &state, ListWidget::new(VISIBLE_MENU_ITEMS), width, true)
        },
        StatusLineEditorMode::Colors { module, list } => {
            let choices = status_line_color_choices(catalog.named_colors);
            let default: StatusLineColor = catalog.default_colors[module.index as usize];
            let mut state: ListState = *list;
            state.reconcile(choices.len(), VISIBLE_MENU_ITEMS);
            let ghost all = color_items(*texts, *catalog, *module, state.selected);
            let mut items: Vec<Line> = Vec::new();
            let mut i: usize = 0;
            while i < choices.len()
                invariant
                    i <= choices@.len(),
                    choices@ == color_choices(catalog.named_colors as int),
                    default == catalog.default_colors@[module.index as int],
                    all == color_items(*texts, *catalog, *module, state.selected),
                    items@.len() == i,
                    line_views(items@) == all.take(i as int),
                decreases choices@.len() - i,
            {
                push_line(
                    &mut items,
                    render_color(texts, default, &choices[i], is_at(state.selected, i)),
                );
                i += 1;
                proof {
                    assert(line_views(items@) =~= all.take(i as int));
                }
            }
            proof {
                assert(all.take(i as int) =~= all);
            }
            render_list(&items, empty, &state, ListWidget::new(VISIBLE_MENU_ITEMS), width, false)
        },
        StatusLineEditorMode::Hex { module, input, cursor } => {
            let mut head = Line::new();
            head.push_str("  Custom color for ", Style::plain());
            head.push_str(texts.names[module.index as usize].as_str(), Style::of(Role::Accent));
            head.push_str(" (#RRGGBB)", Style::of(Role::Dim));
            let mut lines: Vec<Line> = Vec::new();
            proof {
                assert(head@.spans =~= seq![
                    span("  Custom color for "@, Style::plain()),
                    span(texts.names@[module.index as int]@, Style::of(Role::Accent)),
                    span(" (#RRGGBB)"@, Style::of(Role::Dim)),
                ]);
            }
            push_line(&mut lines, head);
            push_line(&mut lines, Line::new());
            push_line(
                &mut lines,
                plain_input_line(
                    "  ",
                    input.as_str(),
                    *cursor,
                    (width as usize).saturating_sub(2),
                ),
            );
            push_line(&mut lines, Line::new());
            proof {
                assert(line_views(lines@) =~= editor_mode_rows(
                    *editor,
                    *texts,
                    *catalog,
                    width as int,
                ));
            }
            lines
        },
    }
}

pub fn status_line_lines(
    editor: &StatusLineEditor,
    texts: &StatusLineTexts,
    catalog: &StatusLineCatalog,
    preview: &Line,
    width: u16,
) -> (lines: Vec<Line>)
    requires
        editor.valid(*catalog),
        texts.cover(*catalog),
    ensures
        line_views(lines@) == status_line_surface(
            *editor,
            *texts,
            *catalog,
            preview@,
            width as int,
        ),
{
    let mut shown = Line::new();
    shown.push_str("  ", Style::plain());
    shown.push_str("Preview  ", Style::of(Role::Dim));
    let ghost head = shown@.spans;
    shown.append(preview.copy());
    proof {
        assert(head =~= seq![span("  "@, Style::plain()), span("Preview  "@, Style::of(Role::Dim))]);
    }
    let mut lines: Vec<Line> = Vec::new();
    push_line(&mut lines, menu_title("Statusline", None));
    push_line(&mut lines, Line::new());
    push_line(&mut lines, shown);
    append_lines(&mut lines, render_editor_mode(editor, texts, catalog, width));
    proof {
        assert(line_views(lines@) =~= status_line_surface(
            *editor,
            *texts,
            *catalog,
            preview@,
            width as int,
        ));
    }
    lines
}

/// The two rows of a setting.
pub open spec fn setting_item(row: SettingRow, selected: bool) -> Seq<LineView> {
    let metadata = if row.explicit_value is Some {
        seq![
            span("    "@, Style::plain()),
            span("overridden"@, Style::of(Role::Notice)),
            span(" \u{b7} "@, Style::of(Role::Dim)),
        ]
    } else {
        seq![span("    "@, Style::plain())]
    };
    seq![
        line(
            seq![
                span("  "@, Style::plain()),
                span(
                    (if selected { "\u{25cf}"@ } else { "\u{25cb}"@ }) + " "@
                        + row.definition.label@,
                    role_when(selected, Role::Selected),
                ),
                span("  "@, Style::plain()),
                span(row.display_value@, Style::of(Role::Accent)),
            ],
        ),
        line(metadata.push(span(safe(row.definition.description@), Style::of(Role::Dim)))),
    ]
}

/// The rows of the settings from `start` to `end` of those that are shown.
pub open spec fn setting_window(
    rows: Seq<SettingRow>,
    visible: Seq<usize>,
    selected: Option<usize>,
    start: int,
    end: int,
) -> Seq<LineView>
    decreases end - start,
{
    if start >= end {
        Seq::empty()
    } else {
        setting_window(rows, visible, selected, start, end - 1) + setting_item(
            rows[visible[end - 1] as int],
            selected == Some((end - 1) as usize),
        )
    }
}

/// How the list of settings is laid out: two rows for each, and while a search
/// goes on as many rows as if the list were full.
pub open spec fn settings_widget(searching: bool, state: ListState, capacity: int) -> ListWidget {
    let shown = state.visible_end_spec(capacity) - state.offset;
    ListWidget {
        empty_rows: if searching && state.item_count == 0 { 2 } else { 0 },
        trailing: if searching {
            less(
                capacity * 2,
                if state.item_count == 0 { 2 } else { shown * 2 },
            ) as usize
        } else {
            0
        },
        ..ListWidget::of(capacity)
    }
}

/// How the list of settings is laid out.
pub fn settings_list(searching: bool, state: &ListState, capacity: usize) -> (widget: ListWidget)
    requires
        state.offset <= state.item_count,
        capacity * 2 <= usize::MAX,
    ensures
        widget == settings_widget(searching, *state, capacity as int),
{
    let range = state.visible_range(capacity);
    let mut widget: ListWidget = ListWidget::new(capacity);
    if searching {
        if state.item_count == 0 {
            widget.empty_rows = 2;
            widget.trailing = (capacity * 2).saturating_sub(2);
        } else {
            widget.trailing = (capacity * 2).saturating_sub((range.1 - range.0) * 2);
        }
    }
    widget
}

/// The rows of the settings.
pub open spec fn settings_rows(
    settings: Settings,
    sections: Seq<Seq<char>>,
    visible: Seq<usize>,
    width: int,
) -> Seq<LineView> {
    let searching = settings.query@.len() > 0;
    let capacity = item_capacity(searching);
    let state = settings.list.reconciled(visible.len() as int, capacity);
    seq![
        search_title(
            "Settings"@,
            InputView::of(settings.query@, settings.query_cursor as int),
            width,
        ),
    ] + (if searching {
        Seq::empty()
    } else {
        seq![
            blank_line(),
            line(tab_spans(sections, settings.section as int, sections.len() as int)),
        ]
    }) + settings_widget(searching, state, capacity).lines_spec(
        state,
        if visible.len() == 0 {
            if searching {
                seq![no_matches_line("settings"@), blank_line()]
            } else {
                Seq::empty()
            }
        } else {
            fitted_rows(
                setting_window(
                    settings.rows@,
                    visible,
                    state.selected,
                    state.offset as int,
                    state.visible_end_spec(capacity),
                ),
                width,
                true,
            )
        },
    )
}

fn push_setting(items: &mut Vec<Line>, row: &SettingRow, selected: bool)
    ensures
        line_views(final(items)@) == line_views(old(items)@) + setting_item(*row, selected),
{
    let ghost before = line_views(items@);
    let dot: &str = if selected {
        "\u{25cf}"
    } else {
        "\u{25cb}"
    };
    let mut title = Line::new();
    title.push_str("  ", Style::plain());
    title.push(
        concat3(dot, " ", row.definition.label.as_str()),
        style_when(selected, Role::Selected),
    );
    title.push_str("  ", Style::plain());
    title.push_str(row.display_value.as_str(), Style::of(Role::Accent));
    let mut metadata = Line::new();
    metadata.push_str("    ", Style::plain());
    if row.explicit_value.is_some() {
        metadata.push_str("overridden", Style::of(Role::Notice));
        metadata.push_str(" \u{b7} ", Style::of(Role::Dim));
    }
    metadata.push(terminal_safe(row.definition.description.as_str()), Style::of(Role::Dim));
    proof {
        assert(title@.spans =~= setting_item(*row, selected)[0].spans);
        assert(metadata@.spans =~= setting_item(*row, selected)[1].spans);
    }
    push_line(items, title);
    push_line(items, metadata);
    proof {
        assert(line_views(items@) =~= before + setting_item(*row, selected));
    }
}

/// The rows of the settings; `visible` are those that the search leaves.
pub fn settings_lines(settings: &Settings, sections: &[String], visible: &[usize], width: u16) -> (lines:
    Vec<Line>)
    requires
        forall|k: int| 0 <= k < visible@.len() ==> #[trigger] visible@[k] < settings.rows@.len(),
    ensures
        line_views(lines@) == settings_rows(
            *settings,
            views(sections@),
            visible@,
            width as int,
        ),
{
    let searching: bool = !settings.query.as_str().is_empty();
    let capacity: usize = settings_item_capacity(settings.query.as_str());
    let mut state: ListState = settings.list;
    state.reconcile(visible.len(), capacity);
    let mut lines: Vec<Line> = Vec::new();
    push_line(
        &mut lines,
        search_menu_title("Settings", settings.query.as_str(), settings.query_cursor, width),
    );
    if !searching {
        push_line(&mut lines, Line::new());
        push_line(&mut lines, tab_line(sections, settings.section).line);
    }
    let mut items: Vec<Line> = Vec::new();
    if visible.len() == 0 {
        if searching {
            push_line(&mut items, no_filter_matches("settings"));
            push_line(&mut items, Line::new());
        }
        proof {
            assert(line_views(items@) =~= if searching {
                seq![no_matches_line("settings"@), blank_line()]
            } else {
                Seq::empty()
            });
        }
    } else {
        let range = state.visible_range(capacity);
        let mut i: usize = range.0;
        proof {
            assert(line_views(items@) =~= setting_window(
                settings.rows@,
                visible@,
                state.selected,
                range.0 as int,
                i as int,
            ));
        }
        while i < range.1
            invariant
                range.0 <= i,
                i <= range.1 || i == range.0,
                range.1 <= visible@.len(),
                forall|k: int|
                    0 <= k < visible@.len() ==> #[trigger] visible@[k] < settings.rows@.len(),
                line_views(items@) == setting_window(
                    settings.rows@,
                    visible@,
                    state.selected,
                    range.0 as int,
                    i as int,
                ),
            decreases range.1 - i,
        {
            push_setting(&mut items, &settings.rows[visible[i]], is_at(state.selected, i));
            i += 1;
        }
        items = fit_lines(items, width, true);
    }
    append_lines(&mut lines, settings_list(searching, &state, capacity).lines(&state, items));
    proof {
        assert(line_views(lines@) =~= settings_rows(
            *settings,
            views(sections@),
            visible@,
            width as int,
        ));
    }
    lines
}

/// The rows where a setting is chosen.
pub open spec fn setting_choices_rows(
    setting: SettingDefinition,
    choices: Seq<(String, String)>,
    list: ListState,
    width: int,
) -> Seq<LineView> {
    let state = list.reconciled(choices.len() as int, VISIBLE_MENU_ITEMS as int);
    seq![
        title_line(setting.label@, Some(setting.key@)),
        description_row(setting.description@, width),
    ] + list_rows(
        choices_of(entry_views(choices), state.selected),
        Seq::empty(),
        state,
        ListWidget::of(VISIBLE_MENU_ITEMS as int),
        width,
        true,
    )
}

pub fn setting_choices_lines(
    setting: &SettingDefinition,
    choices: &[(String, String)],
    list: &ListState,
    width: u16,
) -> (lines: Vec<Line>)
    ensures
        line_views(lines@) == setting_choices_rows(*setting, choices@, *list, width as int),
{
    let mut state: ListState = *list;
    state.reconcile(choices.len(), VISIBLE_MENU_ITEMS);
    let items = text_choice_lines(choices, state.selected);
    let empty: Vec<Line> = Vec::new();
    proof {
        assert(line_views(empty@) =~= Seq::empty());
    }
    let mut lines: Vec<Line> = Vec::new();
    push_line(&mut lines, menu_title(setting.label.as_str(), Some(setting.key.as_str())));
    push_line(&mut lines, setting_description_line(setting.description.as_str(), width));
    append_lines(
        &mut lines,
        render_list(&items, empty, &state, ListWidget::new(VISIBLE_MENU_ITEMS), width, true),
    );
    proof {
        assert(line_views(lines@) =~= setting_choices_rows(
            *setting,
            choices@,
            *list,
            width as int,
        ));
    }
    lines
}

/// The rows where a setting is written. `tokens` are those of its value.
pub open spec fn setting_input_rows(
    setting: SettingDefinition,
    value: Seq<char>,
    cursor: int,
    tokens: Seq<CodeToken>,
    width: int,
) -> Seq<LineView> {
    seq![
        title_line(setting.label@, Some(setting.key@)),
        description_row(input_description(setting), width),
        blank_line(),
        indented(InputView::of(value, cursor), tokens, input_placeholder(setting), width),
        blank_line(),
    ]
}

pub fn setting_input_lines(
    setting: &SettingDefinition,
    value: &str,
    cursor: usize,
    tokens: &[CodeToken],
    width: u16,
) -> (lines: Vec<Line>)
    ensures
        line_views(lines@) == setting_input_rows(
            *setting,
            value@,
            cursor as int,
            tokens@,
            width as int,
        ),
{
    let mut lines: Vec<Line> = Vec::new();
    push_line(&mut lines, menu_title(setting.label.as_str(), Some(setting.key.as_str())));
    push_line(
        &mut lines,
        setting_description_line(setting_input_description(setting).as_str(), width),
    );
    push_line(&mut lines, Line::new());
    push_line(
        &mut lines,
        indented_syntax_input(value, cursor, setting_placeholder(setting), tokens, width),
    );
    push_line(&mut lines, Line::new());
    proof {
        assert(line_views(lines@) =~= setting_input_rows(
            *setting,
            value@,
            cursor as int,
            tokens@,
            width as int,
        ));
    }
    lines
}

pub proof fn lemma_setting_window(
    rows: Seq<SettingRow>,
    visible: Seq<usize>,
    selected: Option<usize>,
    start: int,
    end: int,
)
    requires
        start <= end,
    ensures
        setting_window(rows, visible, selected, start, end).len() == 2 * (end - start),
    decreases end - start,
{
    if start < end {
        lemma_setting_window(rows, visible, selected, start, end - 1);
    }
}

/// The settings keep their height: every search takes as many rows as every section
/// that has as many settings as there is room for.
pub proof fn law_settings_keep_their_height(
    settings: Settings,
    sections: Seq<Seq<char>>,
    visible: Seq<usize>,
    width: int,
)
    requires
        visible.len() <= usize::MAX,
        settings.query@.len() == 0 ==> item_capacity(false) <= visible.len(),
    ensures
        settings_rows(settings, sections, visible, width).len() == 13,
{
    let searching = settings.query@.len() > 0;
    let capacity = item_capacity(searching);
    let state = settings.list.reconciled(visible.len() as int, capacity);
    let end = state.visible_end_spec(capacity);
    let window = setting_window(
        settings.rows@,
        visible,
        state.selected,
        state.offset as int,
        end,
    );
    lemma_setting_window(settings.rows@, visible, state.selected, state.offset as int, end);
    lemma_single_rows(window, 0, window.len() as int, width, true);
}

} // verus!
