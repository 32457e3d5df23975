//! What a pointer meets on the rows of a surface.

use vstd::prelude::*;
use vstd::string::*;
use crate::agents::{AgentWizard, AgentWizardStep, SkillWizardStep};
use crate::dialogs::answer_widget;
use crate::interaction::{Permission, Question};
use crate::list::{
    equal_heights, push_hits, same_heights, settled, VISIBLE_HELP_ITEMS, VISIBLE_MENU_ITEMS,
    ListHit, ListState, ListWidget,
};
use crate::mcp::{form_maximum, mcp_form_item_count};
use crate::mcp_control::{mcp_server_menu_item_count, remove_index};
use crate::menu::{
    fit_lines, fitted, fitted_rows, is_at, label_columns, label_width, less, menu_choice_line,
    option_lines, question_option_lines, same_text,
};
use crate::permission::{
    choices_widget, permission_prefix, permission_suffix, permission_surface_parts, preview_rows,
    PermissionRequest,
};
use crate::pickers::{
    conversation_capacity, conversation_indices, conversation_picker_indexes,
    conversation_picker_item_capacity, history_picker_item_capacity, tab_rows, HelpTab,
};
use crate::providers::{visible_web_rows, web_rows};
use crate::render::{concat, safe, terminal_safe, wrap_log_line, wrapped_line};
use crate::render_menus::{parent_items, with_empty_row};
use crate::render_pickers::{finds_nothing, history_capacity};
use crate::render_settings::{settings_list, settings_widget};
use crate::scroll::{ScrollViewAction, ScrollViewHit, ScrollViewState, ScrollViewWidget};
use crate::settings::{item_capacity, settings_item_capacity};
use crate::status_line::{color_choices, status_line_color_choices, StatusLineEditorMode};
use crate::style::{capped, line, line_views, push_line, span, Line, Style};
use crate::supervised_work::{shown_work, visible_work};
use crate::surface::{
    diff_rows, render_surface_lines, showable, surface_rows, Surface, SurfaceContext,
};

verus! {

/// A list on a surface: the row on which it starts, where it stands, how it is laid
/// out, and how many rows each item takes.
pub struct ListPlace {
    pub prefix: usize,
    pub state: ListState,
    pub widget: ListWidget,
    pub height: usize,
}

/// A list with one row for each item.
pub open spec fn plain_place(prefix: int, state: ListState, capacity: int) -> ListPlace {
    ListPlace { prefix: prefix as usize, state, widget: ListWidget::of(capacity), height: 1 }
}

/// A list whose items are shown from the second row on.
pub open spec fn menu_place(list: ListState, count: int) -> ListPlace {
    plain_place(
        1,
        list.reconciled(count, VISIBLE_MENU_ITEMS as int),
        VISIBLE_MENU_ITEMS as int,
    )
}

/// A short menu of which one item is selected.
pub open spec fn short_place(count: int, selected: int) -> ListPlace {
    plain_place(
        1,
        settled(count, selected, 0, VISIBLE_MENU_ITEMS as int),
        VISIBLE_MENU_ITEMS as int,
    )
}

fn place(prefix: usize, state: ListState, capacity: usize) -> (found: ListPlace)
    ensures
        found == plain_place(prefix as int, state, capacity as int),
{
    ListPlace { prefix, state, widget: ListWidget::new(capacity), height: 1 }
}

fn menu(list: &ListState, count: usize) -> (found: ListPlace)
    ensures
        found == menu_place(*list, count as int),
        found.state.offset <= found.state.item_count == count,
{
    let mut state: ListState = *list;
    state.reconcile(count, VISIBLE_MENU_ITEMS);
    place(1, state, VISIBLE_MENU_ITEMS)
}

fn short(count: usize, selected: usize) -> (found: ListPlace)
    ensures
        found == short_place(count as int, selected as int),
        found.state.offset <= found.state.item_count == count,
{
    place(1, ListState::selectable_at(count, selected, VISIBLE_MENU_ITEMS), VISIBLE_MENU_ITEMS)
}

/// The list on a surface whose items all take as many rows.
pub open spec fn list_place(surface: Surface, context: SurfaceContext, viewport_rows: int) -> Option<
    ListPlace,
> {
    let capacity = VISIBLE_MENU_ITEMS as int;
    match surface {
        Surface::Providers(providers) => Some(
            menu_place(providers.list, context.visible@.len() as int + 1),
        ),
        Surface::Models { models, setting } => Some(
            ListPlace {
                prefix: if setting is Some { 2 } else { 1 },
                ..menu_place(models.list, context.visible@.len() as int)
            },
        ),
        Surface::Effort { model, rows, toggle, list } => Some(
            menu_place(list, rows@.len() as int),
        ),
        Surface::Profiles { kind, rows, list } => Some(menu_place(list, rows@.len() as int)),
        Surface::Skills { rows, list } => Some(menu_place(list, rows@.len() as int + 2)),
        Surface::SkillWizard(wizard) => if wizard.step == SkillWizardStep::Scope {
            Some(menu_place(wizard.scope_list, 2))
        } else {
            None
        },
        Surface::Worktrees { rows, list } => Some(menu_place(list, rows@.len() as int + 1)),
        Surface::AgentEdit { name, list } => Some(menu_place(list, 5)),
        Surface::AgentWizard(wizard) => if wizard.step == AgentWizardStep::Availability {
            Some(short_place(3, wizard.availability as int))
        } else {
            None
        },
        Surface::WebSearchPicker(picker) => Some(
            menu_place(picker.list, web_rows(picker.rows@, picker.query@).len() as int + 1),
        ),
        Surface::McpServers { rows, list } => Some(menu_place(list, rows@.len() as int + 3)),
        Surface::McpCatalog { rows, list } => Some(menu_place(list, rows@.len() as int + 1)),
        Surface::McpServer { server, selected, oauth_connected } => Some(
            short_place(
                remove_index(server.over_http, server.packaged) + 1,
                selected as int,
            ),
        ),
        Surface::McpPackageSetup { draft, selected } => Some(
            short_place(
                1 + draft.parameters@.len() as int + draft.secrets@.len(),
                selected as int,
            ),
        ),
        Surface::McpRemoveConfirm { server, selected } => Some(short_place(2, selected as int)),
        Surface::SkillDeleteConfirm { name, selected } => Some(short_place(2, selected as int)),
        Surface::KillSupervisedWork { target, selected } => Some(short_place(2, selected as int)),
        Surface::McpMutationPreview { preview, list, details } => Some(menu_place(list, 2)),
        Surface::McpAddScope { selected } => Some(short_place(3, selected as int)),
        Surface::McpTransport { scope, selected } => Some(short_place(4, selected as int)),
        Surface::McpForm { draft, list } => Some(
            menu_place(list, form_maximum(draft.definition) + 1),
        ),
        Surface::Settings(settings) => {
            let searching = settings.query@.len() > 0;
            let room = item_capacity(searching);
            let state = settings.list.reconciled(context.visible@.len() as int, room);
            Some(
                ListPlace {
                    prefix: if searching { 1 } else { 3 },
                    state,
                    widget: ListWidget {
                        empty_rows: 0,
                        ..settings_widget(searching, state, room)
                    },
                    height: 2,
                },
            )
        },
        Surface::SettingChoices { setting, choices, list, custom } => Some(
            ListPlace { prefix: 2, ..menu_place(list, choices@.len() as int) },
        ),
        Surface::SupervisedWork(work) => {
            let place = menu_place(
                work.list,
                shown_work(work.rows@, work.show_past).len() as int,
            );
            Some(
                if place.state.item_count == 0 {
                    ListPlace { widget: with_empty_row(capacity), ..place }
                } else {
                    place
                },
            )
        },
        Surface::McpTools(tools) => {
            let place = menu_place(tools.list, tools.tools@.len() as int);
            Some(
                if place.state.item_count == 0 {
                    ListPlace { widget: with_empty_row(capacity), ..place }
                } else {
                    place
                },
            )
        },
        Surface::Paths { rows, list, token_start } => Some(
            ListPlace { prefix: 2, ..menu_place(list, rows@.len() as int) },
        ),
        Surface::Conversations(picker) => {
            let visible = conversation_indices(picker.rows@, picker.query@);
            let room = conversation_capacity(
                viewport_rows,
                picker.include_archived,
                finds_nothing(picker.query@, visible),
            );
            Some(
                plain_place(2, picker.list.reconciled(visible.len() as int, room), room),
            )
        },
        Surface::HistoryTree(tree) => {
            let room = history_capacity(viewport_rows);
            Some(
                plain_place(2, tree.list.reconciled(context.visible@.len() as int, room), room),
            )
        },
        Surface::StatusLine(editor) => match editor.mode {
            StatusLineEditorMode::Colors { module, list } => Some(
                ListPlace {
                    prefix: 3,
                    ..menu_place(
                        list,
                        color_choices(context.status_catalog.named_colors as int).len() as int,
                    )
                },
            ),
            StatusLineEditorMode::Modules => Some(
                ListPlace { prefix: 3, ..menu_place(editor.list, editor.rows@.len() as int) },
            ),
            StatusLineEditorMode::Hex { module, input, cursor } => None,
        },
        _ => None,
    }
}

/// The list on a surface whose items all take as many rows.
#[verifier::rlimit(30)]
pub fn find_list(surface: &Surface, context: &SurfaceContext, viewport_rows: usize) -> (found: Option<
    ListPlace,
>)
    requires
        showable(*surface, *context),
    ensures
        found == list_place(*surface, *context, viewport_rows as int),
        found is Some ==> found->0.state.offset <= found->0.state.item_count,
{
    match surface {
        Surface::Providers(providers) => Some(menu(&providers.list, context.visible.len() + 1)),
        Surface::Models { models, setting } => {
            let mut found = menu(&models.list, context.visible.len());
            if setting.is_some() {
                found.prefix = 2;
            }
            Some(found)
        },
        Surface::Effort { model, rows, toggle, list } => Some(menu(list, rows.len())),
        Surface::Profiles { kind, rows, list } => Some(menu(list, rows.len())),
        Surface::Skills { rows, list } => Some(menu(list, rows.len() + 2)),
        Surface::SkillWizard(wizard) => if wizard.step == SkillWizardStep::Scope {
            Some(menu(&wizard.scope_list, 2))
        } else {
            None
        },
        Surface::Worktrees { rows, list } => Some(menu(list, rows.len() + 1)),
        Surface::AgentEdit { name, list } => Some(menu(list, 5)),
        Surface::AgentWizard(wizard) => if wizard.step == AgentWizardStep::Availability {
            Some(short(3, wizard.availability))
        } else {
            None
        },
        Surface::WebSearchPicker(picker) => {
            let visible = visible_web_rows(picker.rows.as_slice(), picker.query.as_str());
            Some(menu(&picker.list, visible.len() + 1))
        },
        Surface::McpServers { rows, list } => Some(menu(list, rows.len() + 3)),
        Surface::McpCatalog { rows, list } => Some(menu(list, rows.len() + 1)),
        Surface::McpServer { server, selected, oauth_connected } => Some(
            short(mcp_server_menu_item_count(server.over_http, server.packaged), *selected),
        ),
        Surface::McpPackageSetup { draft, selected } => Some(
            short(1 + (draft.parameters.len() + draft.secrets.len()), *selected),
        ),
        Surface::McpRemoveConfirm { server, selected } => Some(short(2, *selected)),
        Surface::SkillDeleteConfirm { name, selected } => Some(short(2, *selected)),
        Surface::KillSupervisedWork { target, selected } => Some(short(2, *selected)),
        Surface::McpMutationPreview { preview, list, details } => Some(menu(list, 2)),
        Surface::McpAddScope { selected } => Some(short(3, *selected)),
        Surface::McpTransport { scope, selected } => Some(short(4, *selected)),
        Surface::McpForm { draft, list } => Some(menu(list, mcp_form_item_count(draft))),
        Surface::Settings(settings) => {
            let searching: bool = !settings.query.as_str().is_empty();
            let room: usize = settings_item_capacity(settings.query.as_str());
            let mut state: ListState = settings.list;
            state.reconcile(context.visible.len(), room);
            let mut widget: ListWidget = settings_list(searching, &state, room);
            widget.empty_rows = 0;
            Some(
                ListPlace {
                    prefix: if searching {
                        1
                    } else {
                        3
                    },
                    state,
                    widget,
                    height: 2,
                },
            )
        },
        Surface::SettingChoices { setting, choices, list, custom } => {
            let mut found = menu(list, choices.len());
            found.prefix = 2;
            Some(found)
        },
        Surface::SupervisedWork(work) => {
            let visible = visible_work(work.rows.as_slice(), work.show_past);
            let mut found = menu(&work.list, visible.len());
            if found.state.item_count == 0 {
                found.widget.empty_rows = 1;
            }
            Some(found)
        },
        Surface::McpTools(tools) => {
            let mut found = menu(&tools.list, tools.tools.len());
            if found.state.item_count == 0 {
                found.widget.empty_rows = 1;
            }
            Some(found)
        },
        Surface::Paths { rows, list, token_start } => {
            let mut found = menu(list, rows.len());
            found.prefix = 2;
            Some(found)
        },
        Surface::Conversations(picker) => {
            let visible = conversation_picker_indexes(
                picker.rows.as_slice(),
                picker.query.as_str(),
            );
            let room: usize = conversation_picker_item_capacity(
                viewport_rows,
                picker.include_archived,
                !picker.query.as_str().is_empty() && visible.len() == 0,
            );
            let mut state: ListState = picker.list;
            state.reconcile(visible.len(), room);
            Some(place(2, state, room))
        },
        Surface::HistoryTree(tree) => {
            let room: usize = history_picker_item_capacity(viewport_rows);
            let mut state: ListState = tree.list;
            state.reconcile(context.visible.len(), room);
            Some(place(2, state, room))
        },
        Surface::StatusLine(editor) => match &editor.mode {
            StatusLineEditorMode::Colors { module, list } => {
                let choices = status_line_color_choices(context.status_catalog.named_colors);
                let mut found = menu(list, choices.len());
                found.prefix = 3;
                Some(found)
            },
            StatusLineEditorMode::Modules => {
                let mut found = menu(&editor.list, editor.rows.len());
                found.prefix = 3;
                Some(found)
            },
            StatusLineEditorMode::Hex { .. } => None,
        },
        _ => None,
    }
}

/// The rows of each parent that an agent can have.
pub open spec fn parent_heights(wizard: AgentWizard, state: ListState, width: int) -> Seq<usize> {
    let items = parent_items(wizard.parents@, state.selected);
    Seq::new(
        items.len(),
        |i: int| fitted(items[i], width, wizard.editing).len() as usize,
    )
}

fn heights_of_parents(wizard: &AgentWizard, state: &ListState, width: u16) -> (heights: Vec<usize>)
    ensures
        heights@ == parent_heights(*wizard, *state, width as int),
{
    let ghost all = parent_heights(*wizard, *state, width as int);
    let ghost parents = parent_items(wizard.parents@, state.selected);
    let mut heights: Vec<usize> = Vec::new();
    let mut i: usize = 0;
    while i < wizard.parents.len()
        invariant
            i <= wizard.parents@.len(),
            all == parent_heights(*wizard, *state, width as int),
            parents == parent_items(wizard.parents@, state.selected),
            heights@ == all.take(i as int),
        decreases wizard.parents@.len() - i,
    {
        let entry = wizard.parents[i].as_str();
        let detail: &str = if same_text(entry, "None") {
            "no parent"
        } else {
            ""
        };
        let mut items: Vec<Line> = Vec::new();
        push_line(&mut items, menu_choice_line(is_at(state.selected, i), entry, detail));
        proof {
            assert(line_views(items@) =~= seq![parents[i as int]]);
            reveal_with_fuel(crate::menu::window_rows, 2);
            assert(fitted_rows(line_views(items@), width as int, wizard.editing) =~= fitted(
                parents[i as int],
                width as int,
                wizard.editing,
            ));
        }
        let rows = fit_lines(items, width, wizard.editing);
        let count: usize = rows.len();
        proof {
            assert(line_views(rows@).len() == count);
        }
        heights.push(count);
        i += 1;
        proof {
            assert(heights@ =~= all.take(i as int));
        }
    }
    proof {
        assert(all.take(i as int) =~= all);
    }
    heights
}

/// The rows of each option of a question.
pub open spec fn option_heights(question: Question, none: Seq<char>, width: int) -> Seq<usize> {
    let options = question.questions@[question.question_index as int].options@;
    let columns = label_columns(options, none, width);
    Seq::new(
        options.len() + 1,
        |i: int|
            option_lines(
                false,
                if i < options.len() { options[i].label@ } else { none },
                if i < options.len() {
                    options[i].description@
                } else {
                    "Optionally add a note with Tab"@
                },
                columns,
                width,
            ).len() as usize,
    )
}

fn heights_of_options(question: &Question, none: &str, width: u16) -> (heights: Vec<usize>)
    requires
        question.question_index < question.questions@.len(),
        question.option_count() < usize::MAX,
    ensures
        heights@ == option_heights(*question, none@, width as int),
{
    let prompt = &question.questions[question.question_index];
    let columns: usize = label_width(prompt.options.as_slice(), none, width);
    let count: usize = prompt.options.len() + 1;
    let ghost all = option_heights(*question, none@, width as int);
    let mut heights: Vec<usize> = Vec::new();
    let mut i: usize = 0;
    while i < count
        invariant
            i <= count,
            question.question_index < question.questions@.len(),
            *prompt == question.questions@[question.question_index as int],
            count == prompt.options@.len() + 1,
            columns == label_columns(prompt.options@, none@, width as int),
            all == option_heights(*question, none@, width as int),
            heights@ == all.take(i as int),
        decreases count - i,
    {
        let rows: Vec<Line> = if i < prompt.options.len() {
            question_option_lines(
                false,
                prompt.options[i].label.as_str(),
                prompt.options[i].description.as_str(),
                columns,
                width,
            )
        } else {
            question_option_lines(false, none, "Optionally add a note with Tab", columns, width)
        };
        let height: usize = rows.len();
        proof {
            assert(line_views(rows@).len() == height);
        }
        heights.push(height);
        i += 1;
        proof {
            assert(heights@ =~= all.take(i as int));
        }
    }
    proof {
        assert(all.take(i as int) =~= all);
    }
    heights
}

/// What the rows of the help are to a list.
pub open spec fn as_list_hit(hit: ScrollViewHit) -> ListHit {
    match hit {
        ScrollViewHit::Indicator(ScrollViewAction::PagePrevious) => ListHit::Up,
        ScrollViewHit::Indicator(ScrollViewAction::PageNext) => ListHit::Down,
        _ => ListHit::Blank,
    }
}

fn to_list_hits(hits: &[ScrollViewHit]) -> (list: Vec<ListHit>)
    ensures
        list@ == hits@.map_values(|hit: ScrollViewHit| as_list_hit(hit)),
{
    let ghost all = hits@.map_values(|hit: ScrollViewHit| as_list_hit(hit));
    let mut list: Vec<ListHit> = Vec::new();
    let mut i: usize = 0;
    while i < hits.len()
        invariant
            i <= hits@.len(),
            all == hits@.map_values(|hit: ScrollViewHit| as_list_hit(hit)),
            list@ == all.take(i as int),
        decreases hits@.len() - i,
    {
        list.push(
            match hits[i] {
                ScrollViewHit::Indicator(ScrollViewAction::PagePrevious) => ListHit::Up,
                ScrollViewHit::Indicator(ScrollViewAction::PageNext) => ListHit::Down,
                _ => ListHit::Blank,
            },
        );
        i += 1;
        proof {
            assert(list@ =~= all.take(i as int));
        }
    }
    proof {
        assert(all.take(i as int) =~= all);
    }
    list
}

/// The rows above the options of a question.
pub open spec fn question_prefix(question: Question, width: int) -> int {
    2 + (if question.origin is Some { 1int } else { 0 }) + wrapped_line(
        line(
            seq![
                span(
                    "  "@ + safe(
                        question.questions@[question.question_index as int].question@,
                    ),
                    Style::plain().bold_spec(),
                ),
            ],
        ),
        width,
    ).len()
}

/// Hits with blank ones behind them, up to a number of rows.
pub open spec fn extended(hits: Seq<ListHit>, count: int) -> Seq<ListHit> {
    hits + Seq::new(less(count, hits.len() as int) as nat, |i: int| ListHit::Blank)
}

/// The first `count` hits.
pub open spec fn first_hits(hits: Seq<ListHit>, count: int) -> Seq<ListHit> {
    if hits.len() <= count { hits } else { hits.take(count) }
}

/// The choices of a permission: the row on which they start, and what their rows
/// are.
pub open spec fn permission_list(
    prompt: Permission,
    request: PermissionRequest,
    choices: Seq<(String, String)>,
    answers: int,
    context: SurfaceContext,
    rendered: int,
    width: int,
    viewport_rows: int,
) -> (int, Seq<ListHit>) {
    let preview = preview_rows(request, diff_rows(context), width);
    let prefix = permission_prefix(request, preview is Some, width).len() as int;
    let suffix = permission_suffix(prompt, choices, prompt.selected as int, width).len() as int;
    let capacity = if answers >= 1 { answers } else { 1 };
    let hits = extended(
        choices_widget(answers).hits_spec(
            settled(answers, prompt.selected as int, 0, capacity),
            equal_heights(1, answers),
        ),
        suffix,
    );
    let start = if capped(prefix + suffix) > viewport_rows {
        less(viewport_rows, suffix)
    } else {
        less(rendered, suffix)
    };
    (start, first_hits(hits, less(rendered, start)))
}

/// The list on a surface: the row on which it starts, and what its rows are.
pub open spec fn list_hits(
    surface: Surface,
    context: SurfaceContext,
    width: int,
    viewport_rows: int,
) -> Option<(int, Seq<ListHit>)> {
    match surface {
        Surface::AgentWizard(wizard) if wizard.step == AgentWizardStep::Parent => {
            let state = wizard.parent_list.reconciled(
                wizard.parents@.len() as int,
                VISIBLE_MENU_ITEMS as int,
            );
            Some(
                (
                    1,
                    ListWidget::of(VISIBLE_MENU_ITEMS as int).hits_spec(
                        state,
                        parent_heights(wizard, state, width),
                    ),
                ),
            )
        },
        Surface::Help(help) => {
            let rows = tab_rows(help, help.tab).len() as int;
            let state = help.list.reconciled(rows, VISIBLE_HELP_ITEMS as int);
            Some(
                (
                    3,
                    ScrollViewWidget::of(VISIBLE_HELP_ITEMS as int).hits_spec(state).map_values(
                        |hit: ScrollViewHit| as_list_hit(hit),
                    ),
                ),
            )
        },
        Surface::Question(question) => {
            let heights = option_heights(question, context.none_of_the_above@, width);
            let count = heights.len() as int;
            Some(
                (
                    question_prefix(question, width),
                    answer_widget(count, question.editing_note).hits_spec(
                        settled(count, question.option_index as int, 0, count),
                        heights,
                    ),
                ),
            )
        },
        Surface::PlanCompletion { plan, modes, colors, model, context_percent } => Some(
            (
                3,
                answer_widget(4, plan.editing_note).hits_spec(
                    settled(4, plan.selected as int, 0, 4),
                    equal_heights(1, 4),
                ),
            ),
        ),
        Surface::Permission { prompt, request, choices, answers } => Some(
            permission_list(
                prompt,
                request,
                choices@,
                answers@.len() as int,
                context,
                surface_rows(surface, context, width, viewport_rows).len() as int,
                width,
                viewport_rows,
            ),
        ),
        _ => match list_place(surface, context, viewport_rows) {
            None => None,
            Some(place) => Some(
                (
                    place.prefix as int,
                    place.widget.hits_spec(
                        place.state,
                        equal_heights(place.height, place.state.item_count as int),
                    ),
                ),
            ),
        },
    }
}

fn permission_list_hits(
    prompt: &Permission,
    request: &PermissionRequest,
    choices: &[(String, String)],
    answers: usize,
    context: &SurfaceContext,
    rendered: usize,
    width: u16,
    viewport_rows: usize,
) -> (found: (usize, Vec<ListHit>))
    requires
        request.valid(),
    ensures
        (found.0 as int, found.1@) == permission_list(
            *prompt,
            *request,
            choices@,
            answers as int,
            *context,
            rendered as int,
            width as int,
            viewport_rows as int,
        ),
{
    let diff: Option<&Vec<Line>> = match &context.diff {
        None => None,
        Some(rows) => Some(rows),
    };
    let (prefix_lines, preview, suffix_lines) = permission_surface_parts(
        prompt,
        request,
        choices,
        prompt.selected,
        diff,
        width,
    );
    let prefix: usize = prefix_lines.len();
    let suffix: usize = suffix_lines.len();
    let capacity: usize = if answers >= 1 {
        answers
    } else {
        1
    };
    let state = ListState::selectable_at(answers, prompt.selected, capacity);
    let mut widget: ListWidget = ListWidget::new(capacity);
    widget.bottom = false;
    let heights = same_heights(1, answers);
    let mut hits = widget.hits(&state, heights.as_slice());
    let ghost before = hits@;
    let missing: usize = suffix.saturating_sub(hits.len());
    push_hits(&mut hits, ListHit::Blank, missing);
    proof {
        assert(hits@ =~= extended(before, suffix as int));
    }
    let start: usize = if prefix.saturating_add(suffix) > viewport_rows {
        viewport_rows.saturating_sub(suffix)
    } else {
        rendered.saturating_sub(suffix)
    };
    let count: usize = rendered.saturating_sub(start);
    if hits.len() > count {
        hits.truncate(count);
    }
    (start, hits)
}

/// The list on a surface: the row on which it starts, and what its rows are.
pub fn surface_list_hits(
    surface: &Surface,
    context: &SurfaceContext,
    width: u16,
    viewport_rows: usize,
) -> (found: Option<(usize, Vec<ListHit>)>)
    requires
        showable(*surface, *context),
    ensures
        match list_hits(*surface, *context, width as int, viewport_rows as int) {
            None => found is None,
            Some(place) => found matches Some(pair) && pair.0 == capped(place.0) && pair.1@ == place.1,
        },
{
    match surface {
        Surface::AgentWizard(wizard) => {
            if wizard.step == AgentWizardStep::Parent {
                let mut state: ListState = wizard.parent_list;
                state.reconcile(wizard.parents.len(), VISIBLE_MENU_ITEMS);
                let heights = heights_of_parents(wizard, &state, width);
                return Some(
                    (1, ListWidget::new(VISIBLE_MENU_ITEMS).hits(&state, heights.as_slice())),
                );
            }
        },
        Surface::Help(help) => {
            let rows: usize = match help.tab {
                HelpTab::Commands => help.command_rows.len(),
                HelpTab::Keybindings => help.key_rows.len(),
            };
            let mut state: ScrollViewState = help.list;
            state.reconcile(rows, VISIBLE_HELP_ITEMS);
            let hits = ScrollViewWidget::new(VISIBLE_HELP_ITEMS).hits(&state);
            return Some((3, to_list_hits(hits.as_slice())));
        },
        Surface::Question(question) => {
            let prompt = &question.questions[question.question_index];
            let row = Line::styled(
                concat("  ", terminal_safe(prompt.question.as_str()).as_str()),
                Style::plain().bold(),
            );
            let wrapped = wrap_log_line(&row, width as usize);
            proof {
                assert(line_views(wrapped@).len() == wrapped@.len());
            }
            let above: usize = if question.origin.is_some() {
                3
            } else {
                2
            };
            let heights = heights_of_options(
                question,
                context.none_of_the_above.as_str(),
                width,
            );
            let count: usize = heights.len();
            let state = ListState::selectable_at(count, question.option_index, count);
            let mut widget: ListWidget = ListWidget::new(count);
            widget.bottom = !question.editing_note;
            return Some(
                (
                    wrapped.len().saturating_add(above),
                    widget.hits(&state, heights.as_slice()),
                ),
            );
        },
        Surface::PlanCompletion { plan, modes, colors, model, context_percent } => {
            let state = ListState::selectable_at(4, plan.selected, 4);
            let mut widget: ListWidget = ListWidget::new(4);
            widget.bottom = !plan.editing_note;
            let heights = same_heights(1, 4);
            return Some((3, widget.hits(&state, heights.as_slice())));
        },
        Surface::Permission { prompt, request, choices, answers } => {
            let lines = render_surface_lines(surface, context, width, viewport_rows);
            let rendered: usize = lines.len();
            proof {
                assert(line_views(lines@).len() == rendered);
            }
            return Some(
                permission_list_hits(
                    prompt,
                    request,
                    choices.as_slice(),
                    answers.len(),
                    context,
                    rendered,
                    width,
                    viewport_rows,
                ),
            );
        },
        _ => {},
    }
    match find_list(surface, context, viewport_rows) {
        None => None,
        Some(place) => {
            let heights = same_heights(place.height, place.state.item_count);
            Some((place.prefix, place.widget.hits(&place.state, heights.as_slice())))
        },
    }
}

} // verus!
