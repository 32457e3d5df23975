//! The layout of a surface: its rows, and the lists, scroll views, tabs and inputs
//! on them.

use vstd::prelude::*;
use vstd::string::*;
use crate::agents::{AgentWizardStep, SkillWizardStep};
use crate::dialogs::{
    note_columns, note_hits, note_input_layout, note_input_width, note_rows, note_rows_shown,
};
use crate::expanded::{body_state, body_widget, expanded_text_scroll_metrics, text_metrics};
use crate::interaction::{note_text, Permission};
use crate::layout::{InputHitView, LayoutView, SurfaceInputHit, SurfaceLayout};
use crate::list::{min, VISIBLE_HELP_ITEMS, VISIBLE_MENU_ITEMS};
use crate::masked::{cluster_bounds, dots, last_bound, masked_input_parts};
use crate::menu::{less, menu_title, title_line};
use crate::multiline_input::{following, row_at, text_columns, text_rows, MultilineInput};
use crate::permission::{
    permission_prefix, permission_suffix, permission_suffix_lines, permission_surface_parts,
    preview_rows, PermissionRequest,
};
use crate::pickers::{tab_rows, HelpTab, TreePurpose};
use crate::providers::WebSearchProvider;
use crate::render_mcp::{
    detail_capacity, mcp_mutation_detail_lines, mutation_details, mutation_menu,
    mutation_menu_lines,
};
use crate::render_menus::{editor_capacity, multiline_content_capacity};
use crate::render_pickers::{help_labels, help_tab_at, tab_at, tab_hits, tab_line};
use crate::scroll::{
    ScrollViewAction, ScrollViewHit, ScrollViewLayout, ScrollViewMetrics, ScrollViewState,
    ScrollViewWidget,
};
use crate::single_line_input::{InputView, SingleLineInput};
use crate::status_line::StatusLineEditorMode;
use crate::style::{capped, line_views, spans_width, Line};
use crate::surface::{
    diff_rows, render_surface_lines, showable, surface_rows, ExpandedKind, Surface, SurfaceContext,
};
use crate::surface_hits::{list_hits, surface_list_hits};
use crate::text::utf8_len;
use crate::unicode::{display_width, grapheme_clusters, text_width, views};

verus! {

/// A scroll view on a surface: the row on which it starts, what its rows are, and
/// its geometry.
pub struct ScrollPlace {
    pub prefix: int,
    pub hits: Seq<ScrollViewHit>,
    pub metrics: ScrollViewMetrics,
}

/// Where the view of an editor stands.
pub open spec fn editor_place(input: InputView, width: int, capacity: int) -> ScrollPlace {
    let rows = text_rows(input.text, 0, text_columns(width));
    let state = following(rows.len() as int, row_at(rows, input.at), capacity);
    ScrollPlace {
        prefix: 1,
        hits: ScrollViewWidget::of(capacity).hits_spec(state),
        metrics: ScrollViewMetrics::of(rows.len() as int, capacity),
    }
}

/// Where a note stands: at the end of the surface.
pub open spec fn note_place(
    note: Seq<char>,
    cursor: int,
    width: int,
    rendered: int,
) -> ScrollPlace {
    let input = InputView::of(note, cursor);
    ScrollPlace {
        prefix: less(rendered, note_rows(input, width).len() as int),
        hits: note_hits(input, width),
        metrics: ScrollViewMetrics::of(
            text_rows(note, 0, text_columns(note_columns(width))).len() as int,
            note_rows_shown(note, width),
        ),
    }
}

/// The editor of several lines on a surface.
pub open spec fn editor_hits(
    surface: Surface,
    context: SurfaceContext,
    width: int,
    viewport_rows: int,
) -> Option<ScrollPlace> {
    let rendered = surface_rows(surface, context, width, viewport_rows).len() as int;
    match surface {
        Surface::AgentWizard(wizard) => if wizard.step == AgentWizardStep::Prompt {
            Some(editor_place(wizard.prompt@, width, editor_capacity(viewport_rows)))
        } else {
            None
        },
        Surface::McpJsonEdit { location, separate_name, editor, tokens } => Some(
            editor_place(editor@, width, editor_capacity(viewport_rows)),
        ),
        Surface::Question(question) => if question.editing_note {
            Some(
                note_place(
                    note_text(question.answers@[question.question_index as int].note),
                    question.note_cursor as int,
                    width,
                    rendered,
                ),
            )
        } else {
            None
        },
        Surface::PlanCompletion { plan, modes, colors, model, context_percent } => if plan.editing_note {
            Some(note_place(plan.note@, plan.note_cursor as int, width, rendered))
        } else {
            None
        },
        Surface::Permission { prompt, request, choices, answers } => {
            if prompt.editing_note && permission_suffix(
                prompt,
                choices@,
                prompt.selected as int,
                width,
            ).len() <= viewport_rows {
                Some(
                    note_place(
                        prompt.denial_note@,
                        prompt.note_cursor as int,
                        width,
                        rendered,
                    ),
                )
            } else {
                None
            }
        },
        Surface::SkillWizard(wizard) => if wizard.step == SkillWizardStep::Content {
            Some(editor_place(wizard.content@, width, VISIBLE_MENU_ITEMS as int))
        } else {
            None
        },
        _ => None,
    }
}

/// A scroll view that was found is the one that is there.
pub open spec fn is_place(
    found: Option<(usize, ScrollViewLayout)>,
    place: Option<ScrollPlace>,
) -> bool {
    match place {
        None => found is None,
        Some(place) => found matches Some(pair) && pair.0 == place.prefix && pair.1.hits@
            == place.hits && pair.1.metrics == place.metrics,
    }
}

fn editor_layout(input: &MultilineInput, width: u16, capacity: usize) -> (found: (
    usize,
    ScrollViewLayout,
))
    ensures
        is_place(Some(found), Some(editor_place(input@, width as int, capacity as int))),
{
    let tokens: Vec<crate::input_syntax::CodeToken> = Vec::new();
    (1, input.render_scrolled(tokens.as_slice(), width, capacity, None))
}

fn note_layout(note: &str, cursor: usize, width: u16, rendered: usize) -> (found: (
    usize,
    ScrollViewLayout,
))
    ensures
        is_place(
            Some(found),
            Some(note_place(note@, cursor as int, width as int, rendered as int)),
        ),
{
    let layout = note_input_layout(note, cursor, width);
    let rows: usize = layout.lines.len();
    proof {
        assert(line_views(layout.lines@).len() == rows);
    }
    (rendered.saturating_sub(rows), layout)
}

/// The editor of several lines on a surface.
pub fn multiline_surface_scroll_hits(
    surface: &Surface,
    context: &SurfaceContext,
    width: u16,
    viewport_rows: usize,
) -> (found: Option<(usize, ScrollViewLayout)>)
    requires
        showable(*surface, *context),
    ensures
        is_place(
            found,
            editor_hits(*surface, *context, width as int, viewport_rows as int),
        ),
{
    match surface {
        Surface::AgentWizard(wizard) => if wizard.step == AgentWizardStep::Prompt {
            Some(editor_layout(&wizard.prompt, width, multiline_content_capacity(viewport_rows)))
        } else {
            None
        },
        Surface::McpJsonEdit { location, separate_name, editor, tokens } => Some(
            editor_layout(editor, width, multiline_content_capacity(viewport_rows)),
        ),
        Surface::Question(question) => {
            if question.editing_note {
                let lines = render_surface_lines(surface, context, width, viewport_rows);
                let rendered: usize = lines.len();
                proof {
                    assert(line_views(lines@).len() == rendered);
                }
                let note: &str = match &question.answers[question.question_index].note {
                    Some(note) => note.as_str(),
                    None => "",
                };
                proof {
                    reveal_strlit("");
                    assert(note@ =~= note_text(
                        question.answers@[question.question_index as int].note,
                    ));
                }
                Some(note_layout(note, question.note_cursor, width, rendered))
            } else {
                None
            }
        },
        Surface::PlanCompletion { plan, modes, colors, model, context_percent } => {
            if plan.editing_note {
                let lines = render_surface_lines(surface, context, width, viewport_rows);
                let rendered: usize = lines.len();
                proof {
                    assert(line_views(lines@).len() == rendered);
                }
                Some(note_layout(plan.note.as_str(), plan.note_cursor, width, rendered))
            } else {
                None
            }
        },
        Surface::Permission { prompt, request, choices, answers } => {
            if !prompt.editing_note {
                return None;
            }
            let lines = render_surface_lines(surface, context, width, viewport_rows);
            let rendered: usize = lines.len();
            proof {
                assert(line_views(lines@).len() == rendered);
            }
            let suffix = permission_suffix_lines(
                prompt,
                choices.as_slice(),
                prompt.selected,
                width,
            );
            proof {
                assert(line_views(suffix@).len() == suffix@.len());
            }
            if suffix.len() > viewport_rows {
                None
            } else {
                Some(
                    note_layout(
                        prompt.denial_note.as_str(),
                        prompt.note_cursor,
                        width,
                        rendered,
                    ),
                )
            }
        },
        Surface::SkillWizard(wizard) => if wizard.step == SkillWizardStep::Content {
            Some(editor_layout(&wizard.content, width, VISIBLE_MENU_ITEMS))
        } else {
            None
        },
        _ => None,
    }
}

/// The preview of a permission, where there is room for it.
pub open spec fn preview_place(
    prompt: Permission,
    request: PermissionRequest,
    choices: Seq<(String, String)>,
    context: SurfaceContext,
    width: int,
    viewport_rows: int,
) -> Option<ScrollPlace> {
    let preview = preview_rows(request, diff_rows(context), width);
    let prefix = permission_prefix(request, preview is Some, width).len() as int;
    let suffix = permission_suffix(prompt, choices, prompt.selected as int, width).len() as int;
    let capacity = less(viewport_rows, prefix + suffix);
    if preview is None || capped(prefix + suffix) > viewport_rows || capacity == 0 {
        None
    } else {
        let rows = preview->0.len() as int;
        let state = (ScrollViewState {
            offset: prompt.diff_scroll,
            content_rows: rows as usize,
        }).reconciled(rows, capacity);
        Some(
            ScrollPlace {
                prefix: less(prefix, 1),
                hits: ScrollViewWidget::of(capacity).hits_spec(state),
                metrics: ScrollViewMetrics::of(rows, capacity),
            },
        )
    }
}

/// The scroll view on a surface.
pub open spec fn scroll_hits(
    surface: Surface,
    context: SurfaceContext,
    width: int,
    viewport_rows: int,
) -> Option<ScrollPlace> {
    match editor_hits(surface, context, width, viewport_rows) {
        Some(place) => Some(place),
        None => match surface {
            Surface::Help(help) => {
                let rows = tab_rows(help, help.tab).len() as int;
                let capacity = VISIBLE_HELP_ITEMS as int;
                Some(
                    ScrollPlace {
                        prefix: 3,
                        hits: ScrollViewWidget::of(capacity).hits_spec(
                            help.list.reconciled(rows, capacity),
                        ),
                        metrics: ScrollViewMetrics::of(rows, capacity),
                    },
                )
            },
            Surface::Permission { prompt, request, choices, answers } => preview_place(
                prompt,
                request,
                choices@,
                context,
                width,
                viewport_rows,
            ),
            Surface::McpMutationPreview { preview, list, details } => {
                let rows = mutation_details(preview).len() as int;
                let above = mutation_menu(preview, list, width).len() as int;
                let capacity = detail_capacity(above, viewport_rows);
                Some(
                    ScrollPlace {
                        prefix: above,
                        hits: ScrollViewWidget::of(capacity).hits_spec(
                            details.reconciled(rows, capacity),
                        ),
                        metrics: ScrollViewMetrics::of(rows, capacity),
                    },
                )
            },
            Surface::Expanded {
                kind,
                header_rows,
                body_rows,
                scroll,
                viewport_rows: output_rows,
            } => if kind is Terminal {
                None
            } else {
                let metrics = text_metrics(
                    header_rows as int,
                    body_rows as int,
                    output_rows as int,
                    viewport_rows,
                );
                let state = body_state(body_rows as int, scroll as int, metrics.1);
                Some(
                    ScrollPlace {
                        prefix: less(header_rows as int, 1),
                        hits: body_widget(metrics.0).hits_spec(state),
                        metrics: ScrollViewMetrics::of(body_rows as int, metrics.0),
                    },
                )
            },
            _ => None,
        },
    }
}

fn window_layout(widget: &ScrollViewWidget, state: &ScrollViewState) -> (layout: ScrollViewLayout)
    ensures
        layout.hits@ == widget.hits_spec(*state),
        layout.metrics == ScrollViewMetrics::of(
            state.content_rows as int,
            widget.capacity as int,
        ),
{
    ScrollViewLayout {
        lines: Vec::new(),
        hits: widget.hits(state),
        metrics: ScrollViewMetrics::new(state.content_rows, widget.capacity),
    }
}

fn find_preview(
    prompt: &Permission,
    request: &PermissionRequest,
    choices: &[(String, String)],
    context: &SurfaceContext,
    width: u16,
    viewport_rows: usize,
) -> (found: Option<(usize, ScrollViewLayout)>)
    requires
        request.valid(),
    ensures
        is_place(
            found,
            preview_place(
                *prompt,
                *request,
                choices@,
                *context,
                width as int,
                viewport_rows as int,
            ),
        ),
{
    let diff: Option<&Vec<Line>> = match &context.diff {
        None => None,
        Some(rows) => Some(rows),
    };
    let (prefix_lines, preview, suffix_lines) = permission_surface_parts(
        prompt,
        request,
        choices,
        prompt.selected,
        diff,
        width,
    );
    let prefix: usize = prefix_lines.len();
    let suffix: usize = suffix_lines.len();
    match preview {
        None => None,
        Some(rows) => {
            let taken: usize = prefix.saturating_add(suffix);
            if taken >= viewport_rows {
                return None;
            }
            let capacity: usize = viewport_rows - taken;
            let total: usize = rows.len();
            proof {
                assert(line_views(rows@).len() == total);
            }
            let mut state = ScrollViewState { offset: prompt.diff_scroll, content_rows: total };
            state.reconcile(total, capacity);
            Some(
                (
                    prefix.saturating_sub(1),
                    window_layout(&ScrollViewWidget::new(capacity), &state),
                ),
            )
        },
    }
}

/// The scroll view on a surface.
pub fn surface_scroll_hits(
    surface: &Surface,
    context: &SurfaceContext,
    width: u16,
    viewport_rows: usize,
) -> (found: Option<(usize, ScrollViewLayout)>)
    requires
        showable(*surface, *context),
    ensures
        is_place(
            found,
            scroll_hits(*surface, *context, width as int, viewport_rows as int),
        ),
{
    let editor = multiline_surface_scroll_hits(surface, context, width, viewport_rows);
    if editor.is_some() {
        return editor;
    }
    match surface {
        Surface::Help(help) => {
            let rows: usize = match help.tab {
                HelpTab::Commands => help.command_rows.len(),
                HelpTab::Keybindings => help.key_rows.len(),
            };
            let mut state: ScrollViewState = help.list;
            state.reconcile(rows, VISIBLE_HELP_ITEMS);
            Some((3, window_layout(&ScrollViewWidget::new(VISIBLE_HELP_ITEMS), &state)))
        },
        Surface::Permission { prompt, request, choices, answers } => find_preview(
            prompt,
            request,
            choices.as_slice(),
            context,
            width,
            viewport_rows,
        ),
        Surface::McpMutationPreview { preview, list, details } => {
            let all = mcp_mutation_detail_lines(preview);
            let rows: usize = all.len();
            proof {
                assert(line_views(all@).len() == rows);
            }
            let menu = mutation_menu_lines(preview, list, width);
            let above: usize = menu.len();
            proof {
                assert(line_views(menu@).len() == above);
            }
            let room: usize = viewport_rows.saturating_sub(above.saturating_add(2));
            let capacity: usize = if room <= VISIBLE_HELP_ITEMS {
                room
            } else {
                VISIBLE_HELP_ITEMS
            };
            let mut state: ScrollViewState = *details;
            state.reconcile(rows, capacity);
            Some((above, window_layout(&ScrollViewWidget::new(capacity), &state)))
        },
        Surface::Expanded { kind, header_rows, body_rows, scroll, viewport_rows: output_rows } => {
            match kind {
                ExpandedKind::Terminal => {
                    return None;
                },
                _ => {},
            }
            let (capacity, maximum) = expanded_text_scroll_metrics(
                *header_rows,
                *body_rows,
                *output_rows,
                viewport_rows,
            );
            let state = ScrollViewState {
                offset: if *scroll <= maximum {
                    *scroll
                } else {
                    maximum
                },
                content_rows: *body_rows,
            };
            let widget = ScrollViewWidget::new(capacity).indicators(
                ScrollViewAction::Home,
                ScrollViewAction::End,
            );
            Some((header_rows.saturating_sub(1), window_layout(&widget, &state)))
        },
        _ => None,
    }
}

/// A note that is written on a surface: its text, and the cursor in it.
pub open spec fn active_note(surface: Surface) -> Option<(Seq<char>, int)> {
    match surface {
        Surface::Question(question) => if question.editing_note {
            Some(
                (
                    note_text(question.answers@[question.question_index as int].note),
                    question.note_cursor as int,
                ),
            )
        } else {
            None
        },
        Surface::PlanCompletion { plan, modes, colors, model, context_percent } => if plan.editing_note {
            Some((plan.note@, plan.note_cursor as int))
        } else {
            None
        },
        Surface::Permission { prompt, request, choices, answers } => if prompt.editing_note {
            Some((prompt.denial_note@, prompt.note_cursor as int))
        } else {
            None
        },
        _ => None,
    }
}

/// The note that is written on a surface.
pub fn interaction_note(surface: &Surface) -> (note: Option<(&str, usize)>)
    requires
        surface matches Surface::Question(question) ==> question.valid(),
    ensures
        match active_note(*surface) {
            None => note is None,
            Some(active) => note matches Some(pair) && pair.0@ == active.0 && pair.1 == active.1,
        },
{
    match surface {
        Surface::Question(question) => {
            if question.editing_note {
                let text: &str = match &question.answers[question.question_index].note {
                    Some(note) => note.as_str(),
                    None => "",
                };
                proof {
                    reveal_strlit("");
                    assert(text@ =~= note_text(
                        question.answers@[question.question_index as int].note,
                    ));
                }
                Some((text, question.note_cursor))
            } else {
                None
            }
        },
        Surface::PlanCompletion { plan, modes, colors, model, context_percent } => {
            if plan.editing_note {
                Some((plan.note.as_str(), plan.note_cursor))
            } else {
                None
            }
        },
        Surface::Permission { prompt, request, choices, answers } => {
            if prompt.editing_note {
                Some((prompt.denial_note.as_str(), prompt.note_cursor))
            } else {
                None
            }
        },
        _ => None,
    }
}

/// A single-line input on a surface.
pub struct FieldPlace {
    pub row: int,
    pub value: Seq<char>,
    pub cursor: int,
    pub column: int,
    pub masked: bool,
}

/// The column at which the search of a surface starts.
pub open spec fn search_column(title: Seq<char>) -> int {
    capped(
        capped(capped(spans_width(title_line(title, None).spans) as int) + 2) + display_width(
            "search: "@,
        ),
    )
}

fn column_of_search(title: &str) -> (column: usize)
    ensures
        column == search_column(title@),
{
    menu_title(title, None).width().saturating_add(2).saturating_add(text_width("search: "))
}

pub open spec fn search_field(title: Seq<char>, query: Seq<char>, cursor: int) -> FieldPlace {
    FieldPlace { row: 0, value: query, cursor, column: search_column(title), masked: false }
}

/// An input that is set in by two columns.
pub open spec fn indented_field(row: int, value: Seq<char>, cursor: int) -> FieldPlace {
    FieldPlace { row, value, cursor, column: 2, masked: false }
}

/// An input behind its label.
pub open spec fn labelled_field(
    label: Seq<char>,
    value: Seq<char>,
    cursor: int,
    masked: bool,
) -> FieldPlace {
    FieldPlace {
        row: 2,
        value,
        cursor,
        column: capped(display_width(label) + 4),
        masked,
    }
}

/// The single-line input on a surface.
pub open spec fn field_place(surface: Surface) -> Option<FieldPlace> {
    match surface {
        Surface::PermissionRuleEdit { edit, scope, rule } => Some(
            indented_field(2, edit.pattern@, edit.cursor as int),
        ),
        Surface::PersistentPermissionEdit { edit, scope, rule } => Some(
            indented_field(2, edit.pattern@, edit.cursor as int),
        ),
        Surface::Rename(field) => Some(indented_field(2, field.value@, field.cursor as int)),
        Surface::McpFieldEdit { draft, field, input, tokens } => Some(
            indented_field(2, input.value@, input.cursor as int),
        ),
        Surface::WebSearchPicker(picker) => Some(
            search_field("Web search"@, picker.query@, picker.query_cursor as int),
        ),
        Surface::WorktreeNew(worktree) => Some(
            labelled_field(
                if worktree.editing_base { "Base"@ } else { "Name"@ },
                if worktree.editing_base { worktree.base@ } else { worktree.name@ },
                worktree.cursor as int,
                false,
            ),
        ),
        Surface::Providers(providers) => Some(
            search_field("Providers"@, providers.query@, providers.query_cursor as int),
        ),
        Surface::Models { models, setting } => Some(
            search_field("Models"@, models.query@, models.query_cursor as int),
        ),
        Surface::HistoryTree(tree) => Some(
            search_field(
                if tree.purpose == TreePurpose::Fork { "Fork"@ } else { "Conversation tree"@ },
                tree.query@,
                tree.query_cursor as int,
            ),
        ),
        Surface::Conversations(picker) => Some(
            search_field("Resume"@, picker.query@, picker.query_cursor as int),
        ),
        Surface::WebSearchSetup { provider, label, field } => {
            let exa = provider == WebSearchProvider::Exa;
            Some(
                labelled_field(
                    if exa { "API key"@ } else { "Base URL"@ },
                    field.value@,
                    field.cursor as int,
                    exa,
                ),
            )
        },
        Surface::ProviderSetup(setup) => if setup.api_key_auth {
            Some(
                FieldPlace {
                    row: 2,
                    value: setup.api_key@,
                    cursor: setup.api_key_cursor as int,
                    column: display_width("  API key: "@) as int,
                    masked: true,
                },
            )
        } else {
            None
        },
        Surface::SkillWizard(wizard) => match wizard.step {
            SkillWizardStep::Name => Some(
                indented_field(3, wizard.name@.text, wizard.name@.cursor() as int),
            ),
            SkillWizardStep::Description => Some(
                indented_field(3, wizard.description@.text, wizard.description@.cursor() as int),
            ),
            _ => None,
        },
        Surface::AgentWizard(wizard) => match wizard.step {
            AgentWizardStep::Name => Some(
                indented_field(2, wizard.name@, wizard.cursor as int),
            ),
            AgentWizardStep::Description => Some(
                indented_field(2, wizard.description@, wizard.cursor as int),
            ),
            _ => None,
        },
        Surface::SettingInput { setting, input, tokens } => Some(
            indented_field(3, input.value@, input.cursor as int),
        ),
        Surface::Settings(settings) => Some(
            FieldPlace {
                row: 0,
                value: settings.query@,
                cursor: settings.query_cursor as int,
                column: capped(
                    capped(spans_width(title_line("Settings"@, None).spans) as int)
                        + display_width("  search: "@),
                ),
                masked: false,
            },
        ),
        Surface::StatusLine(editor) => match editor.mode {
            StatusLineEditorMode::Hex { module, input, cursor } => Some(
                indented_field(3, input@, cursor as int),
            ),
            _ => None,
        },
        _ => None,
    }
}

/// The editor on a surface that takes the whole surface.
pub open spec fn surface_editor(surface: Surface) -> Option<InputView> {
    match surface {
        Surface::SkillWizard(wizard) => if wizard.step == SkillWizardStep::Content {
            Some(wizard.content@)
        } else {
            None
        },
        Surface::AgentWizard(wizard) => if wizard.step == AgentWizardStep::Prompt {
            Some(wizard.prompt@)
        } else {
            None
        },
        Surface::McpJsonEdit { location, separate_name, editor, tokens } => Some(editor@),
        _ => None,
    }
}

/// What an input puts on its row.
pub open spec fn field_hit(field: FieldPlace, width: int) -> InputHitView {
    if field.masked {
        let bounds = cluster_bounds(field.value);
        InputHitView::Masked {
            display: InputView::of(
                dots(grapheme_clusters(field.value).len() as int),
                3 * last_bound(bounds, min(field.cursor, utf8_len(field.value) as int)),
            ),
            source_boundaries: bounds,
            content_column: field.column,
            bounded_width: less(width, field.column),
        }
    } else {
        InputHitView::Single {
            input: InputView::of(field.value, field.cursor),
            content_column: field.column,
            bounded_width: Some(less(width, field.column)),
        }
    }
}

/// A layout with the inputs of its surface.
pub open spec fn with_inputs(layout: LayoutView, surface: Surface, width: int) -> LayoutView {
    match active_note(surface) {
        Some(note) => layout.with_editor(InputView::of(note.0, note.1), 2, note_columns(width)),
        None => match surface_editor(surface) {
            Some(editor) => layout.with_editor(editor, 2, width),
            None => match field_place(surface) {
                Some(field) => layout.with_input(field.row, field_hit(field, width)),
                None => layout,
            },
        },
    }
}

fn put_field(
    layout: &mut SurfaceLayout,
    row: usize,
    value: &str,
    cursor: usize,
    column: usize,
    masked: bool,
    width: u16,
)
    requires
        old(layout).aligned(),
        masked ==> 3 * value@.len() <= usize::MAX,
    ensures
        final(layout)@ == old(layout)@.with_input(
            row as int,
            field_hit(
                FieldPlace {
                    row: row as int,
                    value: value@,
                    cursor: cursor as int,
                    column: column as int,
                    masked,
                },
                width as int,
            ),
        ),
        final(layout).aligned(),
{
    let room: usize = (width as usize).saturating_sub(column);
    if masked {
        let (display, display_cursor, source_boundaries) = masked_input_parts(value, cursor);
        layout.overlay_input_hit(
            row,
            SurfaceInputHit::Masked {
                display: SingleLineInput::new(display, display_cursor),
                source_boundaries,
                content_column: column,
                bounded_width: room,
            },
        );
    } else {
        layout.overlay_single(row, value, cursor, column, Some(room));
    }
}

fn overlay_field(layout: &mut SurfaceLayout, surface: &Surface, width: u16)
    requires
        old(layout).aligned(),
        surface matches Surface::WebSearchSetup { provider, label, field } ==> 3
            * field.value@.len() <= usize::MAX,
        surface matches Surface::ProviderSetup(setup) ==> 3 * setup.api_key@.len() <= usize::MAX,
    ensures
        final(layout)@ == match field_place(*surface) {
            Some(field) => old(layout)@.with_input(field.row, field_hit(field, width as int)),
            None => old(layout)@,
        },
        final(layout).aligned(),
{
    match surface {
        Surface::PermissionRuleEdit { edit, scope, rule } => {
            put_field(layout, 2, edit.pattern.as_str(), edit.cursor, 2, false, width);
        },
        Surface::PersistentPermissionEdit { edit, scope, rule } => {
            put_field(layout, 2, edit.pattern.as_str(), edit.cursor, 2, false, width);
        },
        Surface::Rename(field) => {
            put_field(layout, 2, field.value.as_str(), field.cursor, 2, false, width);
        },
        Surface::McpFieldEdit { draft, field, input, tokens } => {
            put_field(layout, 2, input.value.as_str(), input.cursor, 2, false, width);
        },
        Surface::WebSearchPicker(picker) => {
            put_field(
                layout,
                0,
                picker.query.as_str(),
                picker.query_cursor,
                column_of_search("Web search"),
                false,
                width,
            );
        },
        Surface::WorktreeNew(worktree) => {
            let label: &str = if worktree.editing_base {
                "Base"
            } else {
                "Name"
            };
            let value: &str = if worktree.editing_base {
                worktree.base.as_str()
            } else {
                worktree.name.as_str()
            };
            put_field(
                layout,
                2,
                value,
                worktree.cursor,
                text_width(label).saturating_add(4),
                false,
                width,
            );
        },
        Surface::Providers(providers) => {
            put_field(
                layout,
                0,
                providers.query.as_str(),
                providers.query_cursor,
                column_of_search("Providers"),
                false,
                width,
            );
        },
        Surface::Models { models, setting } => {
            put_field(
                layout,
                0,
                models.query.as_str(),
                models.query_cursor,
                column_of_search("Models"),
                false,
                width,
            );
        },
        Surface::HistoryTree(tree) => {
            let title: &str = if tree.purpose == TreePurpose::Fork {
                "Fork"
            } else {
                "Conversation tree"
            };
            put_field(
                layout,
                0,
                tree.query.as_str(),
                tree.query_cursor,
                column_of_search(title),
                false,
                width,
            );
        },
        Surface::Conversations(picker) => {
            put_field(
                layout,
                0,
                picker.query.as_str(),
                picker.query_cursor,
                column_of_search("Resume"),
                false,
                width,
            );
        },
        Surface::WebSearchSetup { provider, label, field } => {
            let exa: bool = *provider == WebSearchProvider::Exa;
            let name: &str = if exa {
                "API key"
            } else {
                "Base URL"
            };
            put_field(
                layout,
                2,
                field.value.as_str(),
                field.cursor,
                text_width(name).saturating_add(4),
                exa,
                width,
            );
        },
        Surface::ProviderSetup(setup) => {
            if setup.api_key_auth {
                put_field(
                    layout,
                    2,
                    setup.api_key.as_str(),
                    setup.api_key_cursor,
                    text_width("  API key: "),
                    true,
                    width,
                );
            }
        },
        Surface::SkillWizard(wizard) => match wizard.step {
            SkillWizardStep::Name => {
                put_field(layout, 3, wizard.name.text(), wizard.name.cursor(), 2, false, width);
            },
            SkillWizardStep::Description => {
                put_field(
                    layout,
                    3,
                    wizard.description.text(),
                    wizard.description.cursor(),
                    2,
                    false,
                    width,
                );
            },
            _ => {},
        },
        Surface::AgentWizard(wizard) => match wizard.step {
            AgentWizardStep::Name => {
                put_field(layout, 2, wizard.name.as_str(), wizard.cursor, 2, false, width);
            },
            AgentWizardStep::Description => {
                put_field(layout, 2, wizard.description.as_str(), wizard.cursor, 2, false, width);
            },
            _ => {},
        },
        Surface::SettingInput { setting, input, tokens } => {
            put_field(layout, 3, input.value.as_str(), input.cursor, 2, false, width);
        },
        Surface::Settings(settings) => {
            put_field(
                layout,
                0,
                settings.query.as_str(),
                settings.query_cursor,
                menu_title("Settings", None).width().saturating_add(text_width("  search: ")),
                false,
                width,
            );
        },
        Surface::StatusLine(editor) => match &editor.mode {
            StatusLineEditorMode::Hex { module, input, cursor } => {
                put_field(layout, 3, input.as_str(), *cursor, 2, false, width);
            },
            _ => {},
        },
        _ => {},
    }
}

fn overlay_surface_input_hits(layout: &mut SurfaceLayout, surface: &Surface, width: u16)
    requires
        old(layout).aligned(),
        surface matches Surface::Question(question) ==> question.valid(),
        surface matches Surface::WebSearchSetup { provider, label, field } ==> 3
            * field.value@.len() <= usize::MAX,
        surface matches Surface::ProviderSetup(setup) ==> 3 * setup.api_key@.len() <= usize::MAX,
    ensures
        final(layout)@ == with_inputs(old(layout)@, *surface, width as int),
        final(layout).aligned(),
{
    if let Some((text, cursor)) = interaction_note(surface) {
        let input = MultilineInput::new(text.to_owned(), cursor);
        layout.overlay_editor(&input, 2, note_input_width(width));
        return;
    }
    match surface {
        Surface::SkillWizard(wizard) => {
            if wizard.step == SkillWizardStep::Content {
                layout.overlay_editor(&wizard.content, 2, width);
                return;
            }
        },
        Surface::AgentWizard(wizard) => {
            if wizard.step == AgentWizardStep::Prompt {
                layout.overlay_editor(&wizard.prompt, 2, width);
                return;
            }
        },
        Surface::McpJsonEdit { location, separate_name, editor, tokens } => {
            layout.overlay_editor(editor, 2, width);
            return;
        },
        _ => {},
    }
    overlay_field(layout, surface, width);
}

/// The layout of a surface.
pub open spec fn layout_of(
    surface: Surface,
    context: SurfaceContext,
    width: int,
    viewport_rows: int,
) -> LayoutView {
    let rows = LayoutView::of(surface_rows(surface, context, width, viewport_rows));
    let listed = match list_hits(surface, context, width, viewport_rows) {
        None => rows,
        Some(place) => rows.with_list(capped(place.0), place.1),
    };
    let scrolled = match scroll_hits(surface, context, width, viewport_rows) {
        None => listed,
        Some(place) => listed.with_scroll(place.prefix, place.hits, place.metrics),
    };
    let browsed = match surface {
        Surface::Expanded { kind, header_rows, body_rows, scroll, viewport_rows } => match kind {
            ExpandedKind::Directory { selectable } => scrolled.with_directory(selectable@),
            _ => scrolled,
        },
        _ => scrolled,
    };
    with_inputs(browsed, surface, width)
}

/// Lays out a surface.
pub fn surface_layout_with_viewport(
    surface: &Surface,
    context: &SurfaceContext,
    width: u16,
    viewport_rows: usize,
) -> (layout: SurfaceLayout)
    requires
        showable(*surface, *context),
    ensures
        layout@ == layout_of(*surface, *context, width as int, viewport_rows as int),
        layout.aligned(),
{
    let mut layout = SurfaceLayout::new(
        render_surface_lines(surface, context, width, viewport_rows),
    );
    if let Some((prefix, hits)) = surface_list_hits(surface, context, width, viewport_rows) {
        layout.overlay_list_hits(prefix, hits.as_slice());
    }
    if let Some((prefix, scroll)) = surface_scroll_hits(surface, context, width, viewport_rows) {
        layout.overlay_scroll_layout(prefix, &scroll);
    }
    if let Surface::Expanded { kind, header_rows, body_rows, scroll, viewport_rows } = surface {
        if let ExpandedKind::Directory { selectable } = kind {
            layout.overlay_directory(selectable.as_slice());
        }
    }
    overlay_surface_input_hits(&mut layout, surface, width);
    layout
}

/// The rows of a surface, at most as many of some of them as fit.
pub fn surface_lines_with_viewport(
    surface: &Surface,
    context: &SurfaceContext,
    width: u16,
    viewport_rows: usize,
) -> (lines: Vec<Line>)
    requires
        showable(*surface, *context),
    ensures
        line_views(lines@) == surface_rows(
            *surface,
            *context,
            width as int,
            viewport_rows as int,
        ),
{
    surface_layout_with_viewport(surface, context, width, viewport_rows).lines
}

/// The rows of a surface where there is room for all of them.
pub fn surface_lines(surface: &Surface, context: &SurfaceContext, width: u16) -> (lines: Vec<Line>)
    requires
        showable(*surface, *context),
    ensures
        line_views(lines@) == surface_rows(
            *surface,
            *context,
            width as int,
            usize::MAX as int,
        ),
{
    surface_lines_with_viewport(surface, context, width, usize::MAX)
}

/// A tab on a surface.
#[derive(Clone, Copy, Debug, PartialEq, Eq, Structural)]
pub enum SurfaceTab {
    Help(HelpTab),
    /// The section with this index.
    Settings(usize),
}

/// The tab of a surface at a place.
pub open spec fn tab_on(surface: Surface, sections: Seq<Seq<char>>, row: int, column: int) -> Option<
    SurfaceTab,
> {
    if row != 2 {
        None
    } else {
        match surface {
            Surface::Help(help) => match tab_at(tab_hits(help_labels()), column) {
                None => None,
                Some(index) => Some(
                    SurfaceTab::Help(
                        if index == 0 { HelpTab::Commands } else { HelpTab::Keybindings },
                    ),
                ),
            },
            Surface::Settings(settings) => if settings.query@.len() == 0 {
                match tab_at(tab_hits(sections), column) {
                    None => None,
                    Some(index) => Some(SurfaceTab::Settings(index)),
                }
            } else {
                None
            },
            _ => None,
        }
    }
}

/// The tab of a surface at a place. The tabs stand on the third row.
pub fn surface_tab_at(surface: &Surface, sections: &[String], row: usize, column: usize) -> (tab: Option<
    SurfaceTab,
>)
    ensures
        tab == tab_on(*surface, views(sections@), row as int, column as int),
{
    if row != 2 {
        return None;
    }
    match surface {
        Surface::Help(help) => match help_tab_at(help.tab, column) {
            None => None,
            Some(tab) => Some(SurfaceTab::Help(tab)),
        },
        Surface::Settings(settings) => if settings.query.as_str().is_empty() {
            match tab_line(sections, settings.section).hit(column) {
                None => None,
                Some(index) => Some(SurfaceTab::Settings(index)),
            }
        } else {
            None
        },
        _ => None,
    }
}

} // verus!
