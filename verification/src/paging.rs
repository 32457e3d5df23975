//! Paging: PageUp, PageDown, Home and End move through the scroll view or the list of a
//! surface before the surface sees the key.

use vstd::prelude::*;
use crate::agents::{AgentWizard, AgentWizardStep, SkillWizard, SkillWizardStep};
use crate::control::{action_of, list_action, list_after, move_list};
use crate::interaction::{Permission, PlanCompletion, Question};
use crate::key::KeyCode;
use crate::list::{min, VISIBLE_HELP_ITEMS, VISIBLE_MENU_ITEMS, ListState};
use crate::mcp::{form_maximum, mcp_form_item_count};
use crate::mcp_control::{
    details_after, mcp_server_menu_item_count, remove_index, step_index, stepped,
};
use crate::menu::less;
use crate::pickers::{
    apply_history_list_action, conversation_indices, conversation_picker_indexes,
    conversation_picker_item_capacity, expanded_key, history_after, scroll_action, tab_rows,
    to_scroll_action, Conversations, Help, HelpTab, HistoryTree,
};
use crate::providers::{visible_web_rows, web_rows, Models, Providers, WebSearchPicker};
use crate::render_mcp::{mcp_mutation_detail_lines, mutation_details, McpTools};
use crate::scroll::{ScrollViewAction, ScrollViewState};
use crate::settings::{item_capacity, settings_item_capacity, Settings};
use crate::status_line::{StatusLineEditor, StatusLineEditorMode};
use crate::style::line_views;
use crate::supervised_work::{shown_work, visible_work, BackgroundSurface};
use crate::surface::{ExpandedKind, Surface};
use crate::surface_key::{takes_keys, KeyContext};

verus! {

/// A list of a menu after a key that pages.
pub open spec fn turned(list: ListState, count: int, code: KeyCode) -> ListState {
    list_after(list, count, VISIBLE_MENU_ITEMS as int, code)
}

/// The selection of a short menu after a key that pages.
pub open spec fn turned_to(selected: usize, last: int, code: KeyCode) -> usize {
    stepped(selected as int, last, code) as usize
}

/// What a key that pages makes of a dialog. While a note is written, the key is the
/// note's. A preview that does not fit comes before the choices.
pub open spec fn paged_dialog(surface: Surface, code: KeyCode, context: KeyContext) -> Option<
    Surface,
> {
    match surface {
        Surface::Question(question) => if question.editing_note {
            None
        } else {
            Some(
                Surface::Question(
                    Question {
                        option_index: turned_to(
                            question.option_index,
                            question.option_count(),
                            code,
                        ),
                        ..question
                    },
                ),
            )
        },
        Surface::Permission { prompt, request, choices, answers } => if prompt.editing_note {
            None
        } else {
            let scrolled = prompt.scrolled(
                code,
                context.scroll_rows as int,
                context.scroll_last as int,
            );
            Some(
                Surface::Permission {
                    prompt: if context.scroll_last > 0 {
                        match scrolled {
                            None => prompt,
                            Some(offset) => Permission { diff_scroll: offset as usize, ..prompt },
                        }
                    } else {
                        Permission {
                            selected: turned_to(
                                prompt.selected,
                                less(answers@.len() as int, 1),
                                code,
                            ),
                            ..prompt
                        }
                    },
                    request,
                    choices,
                    answers,
                },
            )
        },
        Surface::PlanCompletion { plan, modes, colors, model, context_percent } => {
            if plan.editing_note {
                None
            } else {
                Some(
                    Surface::PlanCompletion {
                        plan: PlanCompletion { selected: turned_to(plan.selected, 3, code), ..plan },
                        modes,
                        colors,
                        model,
                        context_percent,
                    },
                )
            }
        },
        Surface::Permissions { rows, list } => Some(
            Surface::Permissions {
                rows,
                list: turned(list, context.editable@.len() as int + 1, code),
            },
        ),
        Surface::Usage { overview, list } => Some(
            Surface::Usage { overview, list: turned(list, 4, code) },
        ),
        Surface::UsageBreakdown { kind, rows, list } => Some(
            Surface::UsageBreakdown { kind, rows, list: turned(list, rows@.len() as int, code) },
        ),
        Surface::UsageResetConfirm { selected } => Some(
            Surface::UsageResetConfirm { selected: turned_to(selected, 1, code) },
        ),
        _ => None,
    }
}

/// What a key that pages makes of a surface that sets something up.
pub open spec fn paged_setup(surface: Surface, code: KeyCode, context: KeyContext) -> Option<
    Surface,
> {
    let visible = context.visible@.len() as int;
    match surface {
        Surface::Worktrees { rows, list } => Some(
            Surface::Worktrees { rows, list: turned(list, rows@.len() as int + 1, code) },
        ),
        Surface::WebSearchPicker(picker) => Some(
            Surface::WebSearchPicker(
                WebSearchPicker {
                    list: turned(
                        picker.list,
                        web_rows(picker.rows@, picker.query@).len() as int + 1,
                        code,
                    ),
                    ..picker
                },
            ),
        ),
        Surface::Providers(providers) => Some(
            Surface::Providers(
                Providers { list: turned(providers.list, visible + 1, code), ..providers },
            ),
        ),
        Surface::Models { models, setting } => Some(
            Surface::Models {
                models: Models { list: turned(models.list, visible, code), ..models },
                setting,
            },
        ),
        Surface::Effort { model, rows, toggle, list } => Some(
            Surface::Effort {
                model,
                rows,
                toggle,
                list: turned(list, rows@.len() as int, code),
            },
        ),
        Surface::Profiles { kind, rows, list } => Some(
            Surface::Profiles { kind, rows, list: turned(list, rows@.len() as int, code) },
        ),
        Surface::Skills { rows, list } => Some(
            Surface::Skills { rows, list: turned(list, rows@.len() as int + 2, code) },
        ),
        Surface::SkillDeleteConfirm { name, selected } => Some(
            Surface::SkillDeleteConfirm { name, selected: turned_to(selected, 1, code) },
        ),
        Surface::SkillWizard(wizard) => if wizard.step == SkillWizardStep::Scope {
            let list = turned(wizard.scope_list, 2, code);
            Some(
                Surface::SkillWizard(
                    SkillWizard { scope_list: list, project: list.at_spec() == 0, ..wizard },
                ),
            )
        } else {
            None
        },
        Surface::AgentWizard(wizard) => match wizard.step {
            AgentWizardStep::Parent => Some(
                Surface::AgentWizard(
                    AgentWizard {
                        parent_list: turned(
                            wizard.parent_list,
                            wizard.parents@.len() as int,
                            code,
                        ),
                        ..wizard
                    },
                ),
            ),
            AgentWizardStep::Availability => Some(
                Surface::AgentWizard(
                    AgentWizard {
                        availability: turned_to(wizard.availability, 2, code),
                        ..wizard
                    },
                ),
            ),
            _ => None,
        },
        Surface::AgentEdit { name, list } => Some(
            Surface::AgentEdit { name, list: turned(list, 5, code) },
        ),
        _ => None,
    }
}

/// What a key that pages makes of a surface of servers.
pub open spec fn paged_server(surface: Surface, code: KeyCode) -> Option<Surface> {
    match surface {
        Surface::McpServers { rows, list } => Some(
            Surface::McpServers { rows, list: turned(list, rows@.len() as int + 3, code) },
        ),
        Surface::McpCatalog { rows, list } => Some(
            Surface::McpCatalog { rows, list: turned(list, rows@.len() as int + 1, code) },
        ),
        Surface::McpServer { server, selected, oauth_connected } => Some(
            Surface::McpServer {
                server,
                selected: turned_to(
                    selected,
                    remove_index(server.over_http, server.packaged),
                    code,
                ),
                oauth_connected,
            },
        ),
        Surface::McpPackageSetup { draft, selected } => Some(
            Surface::McpPackageSetup {
                draft,
                selected: turned_to(
                    selected,
                    (draft.parameters@.len() + draft.secrets@.len()) as int,
                    code,
                ),
            },
        ),
        Surface::McpTools(tools) => Some(
            Surface::McpTools(
                McpTools { list: turned(tools.list, tools.tools@.len() as int, code), ..tools },
            ),
        ),
        Surface::McpRemoveConfirm { server, selected } => Some(
            Surface::McpRemoveConfirm { server, selected: turned_to(selected, 1, code) },
        ),
        Surface::McpAddScope { selected } => Some(
            Surface::McpAddScope { selected: turned_to(selected, 2, code) },
        ),
        Surface::McpTransport { scope, selected } => Some(
            Surface::McpTransport { scope, selected: turned_to(selected, 3, code) },
        ),
        Surface::McpForm { draft, list } => Some(
            Surface::McpForm {
                draft,
                list: turned(list, form_maximum(draft.definition) + 1, code),
            },
        ),
        Surface::McpMutationPreview { preview, list, details } => Some(
            Surface::McpMutationPreview {
                preview,
                list: list.reconciled(2, VISIBLE_MENU_ITEMS as int),
                details: details_after(
                    details,
                    mutation_details(preview).len() as usize as int,
                    code,
                ),
            },
        ),
        _ => None,
    }
}

/// Where an expanded view stands after a key that pages.
pub open spec fn expanded_turned(scroll: usize, code: KeyCode, context: KeyContext) -> usize {
    let state = ScrollViewState {
        offset: min(scroll as int, context.scroll_last as int) as usize,
        content_rows: (context.scroll_last + context.scroll_rows) as usize,
    };
    match action_of(code) {
        None => state.offset,
        Some(action) => state.applied(scroll_action(action), context.scroll_rows as int).offset,
    }
}

/// What a key that pages makes of settings, work, a view or a picker. A directory takes
/// such keys itself.
pub open spec fn paged_view(surface: Surface, code: KeyCode, context: KeyContext) -> Option<
    Surface,
> {
    let visible = context.visible@.len() as int;
    match surface {
        Surface::StatusLine(editor) => match editor.mode {
            StatusLineEditorMode::Modules => Some(
                Surface::StatusLine(
                    StatusLineEditor {
                        list: turned(editor.list, editor.rows@.len() as int, code),
                        ..editor
                    },
                ),
            ),
            StatusLineEditorMode::Colors { module, list } => Some(
                Surface::StatusLine(
                    StatusLineEditor {
                        mode: StatusLineEditorMode::Colors {
                            module,
                            list: turned(list, context.status_catalog.named_colors + 2, code),
                        },
                        ..editor
                    },
                ),
            ),
            StatusLineEditorMode::Hex { module, input, cursor } => None,
        },
        Surface::Settings(settings) => Some(
            Surface::Settings(
                Settings {
                    list: list_after(
                        settings.list,
                        visible,
                        item_capacity(settings.query@.len() > 0),
                        code,
                    ),
                    ..settings
                },
            ),
        ),
        Surface::SettingChoices { setting, choices, list, custom } => Some(
            Surface::SettingChoices {
                setting,
                choices,
                list: turned(list, choices@.len() as int, code),
                custom,
            },
        ),
        Surface::SupervisedWork(work) => Some(
            Surface::SupervisedWork(
                BackgroundSurface {
                    list: turned(
                        work.list,
                        shown_work(work.rows@, work.show_past).len() as int,
                        code,
                    ),
                    ..work
                },
            ),
        ),
        Surface::KillSupervisedWork { target, selected } => Some(
            Surface::KillSupervisedWork { target, selected: turned_to(selected, 1, code) },
        ),
        Surface::Expanded { kind, header_rows, body_rows, scroll, viewport_rows } => {
            if kind is Directory {
                None
            } else {
                Some(
                    Surface::Expanded {
                        kind,
                        header_rows,
                        body_rows,
                        scroll: expanded_turned(scroll, code, context),
                        viewport_rows,
                    },
                )
            }
        },
        Surface::Paths { rows, list, token_start } => Some(
            Surface::Paths { rows, list: turned(list, rows@.len() as int, code), token_start },
        ),
        Surface::HistoryTree(tree) => {
            let capacity = context.history_rows as int;
            let settled = tree.settled_list(context.visible@, capacity);
            Some(
                Surface::HistoryTree(
                    HistoryTree {
                        list: match action_of(code) {
                            None => settled,
                            Some(action) => history_after(
                                settled,
                                action,
                                tree.rows@,
                                context.visible@,
                                capacity,
                            ),
                        },
                        ..tree
                    },
                ),
            )
        },
        Surface::Conversations(picker) => Some(
            Surface::Conversations(
                Conversations {
                    list: list_after(
                        picker.list,
                        conversation_indices(picker.rows@, picker.query@).len() as int,
                        picker.capacity(context.viewport_rows as int),
                        code,
                    ),
                    ..picker
                },
            ),
        ),
        Surface::Help(help) => {
            let settled = help.list.reconciled(
                tab_rows(help, help.tab).len() as int,
                VISIBLE_HELP_ITEMS as int,
            );
            Some(
                Surface::Help(
                    Help {
                        list: match action_of(code) {
                            None => settled,
                            Some(action) => settled.applied(
                                scroll_action(action),
                                VISIBLE_HELP_ITEMS as int,
                            ),
                        },
                        ..help
                    },
                ),
            )
        },
        _ => None,
    }
}

/// What a key that pages makes of a surface; a surface with neither a scroll view nor a
/// list leaves the key to its own handling.
pub open spec fn paged(surface: Surface, code: KeyCode, context: KeyContext) -> Option<Surface> {
    match paged_dialog(surface, code, context) {
        Some(after) => Some(after),
        None => match paged_setup(surface, code, context) {
            Some(after) => Some(after),
            None => match paged_server(surface, code) {
                Some(after) => Some(after),
                None => paged_view(surface, code, context),
            },
        },
    }
}

/// What was done to a surface that `wanted` is made of, if it can be paged through.
pub open spec fn pages(
    before: Surface,
    after: Surface,
    wanted: Option<Surface>,
    taken: bool,
) -> bool {
    match wanted {
        None => !taken && after == before,
        Some(wanted) => taken && after == wanted,
    }
}

fn turn(list: &mut ListState, count: usize, code: KeyCode)
    ensures
        *final(list) == turned(*old(list), count as int, code),
{
    let _ = move_list(list, count, VISIBLE_MENU_ITEMS, code);
}

fn turn_to(selected: &mut usize, last: usize, code: KeyCode)
    ensures
        *final(selected) == turned_to(*old(selected), last as int, code),
{
    let _ = step_index(selected, last, code);
}

fn page_preview(prompt: &mut Permission, code: KeyCode, rows: usize, last: usize)
    ensures
        *final(prompt) == (match old(prompt).scrolled(code, rows as int, last as int) {
            None => *old(prompt),
            Some(offset) => Permission { diff_scroll: offset as usize, ..*old(prompt) },
        }),
{
    let page: usize = if rows >= 1 {
        rows
    } else {
        1
    };
    match code {
        KeyCode::PageUp => {
            prompt.diff_scroll = prompt.diff_scroll.saturating_sub(page);
        },
        KeyCode::PageDown => {
            let next: usize = prompt.diff_scroll.saturating_add(page);
            prompt.diff_scroll = if next <= last {
                next
            } else {
                last
            };
        },
        KeyCode::Home => {
            prompt.diff_scroll = 0;
        },
        KeyCode::End => {
            prompt.diff_scroll = last;
        },
        _ => {},
    }
}

fn page_dialog(surface: &mut Surface, code: KeyCode, context: &KeyContext) -> (taken: bool)
    requires
        takes_keys(*old(surface), *context),
    ensures
        pages(*old(surface), *final(surface), paged_dialog(*old(surface), code, *context), taken),
{
    match surface {
        Surface::Question(question) => {
            if question.editing_note {
                return false;
            }
            let last: usize = question.questions[question.question_index].options.len();
            turn_to(&mut question.option_index, last, code);
            true
        },
        Surface::Permission { prompt, answers, .. } => {
            if prompt.editing_note {
                return false;
            }
            if context.scroll_last > 0 {
                page_preview(prompt, code, context.scroll_rows, context.scroll_last);
            } else {
                turn_to(&mut prompt.selected, answers.len().saturating_sub(1), code);
            }
            true
        },
        Surface::PlanCompletion { plan, .. } => {
            if plan.editing_note {
                return false;
            }
            turn_to(&mut plan.selected, 3, code);
            true
        },
        Surface::Permissions { list, .. } => {
            turn(list, context.editable.len() + 1, code);
            true
        },
        Surface::Usage { list, .. } => {
            turn(list, 4, code);
            true
        },
        Surface::UsageBreakdown { rows, list, .. } => {
            turn(list, rows.len(), code);
            true
        },
        Surface::UsageResetConfirm { selected } => {
            turn_to(selected, 1, code);
            true
        },
        _ => false,
    }
}

fn page_setup(surface: &mut Surface, code: KeyCode, context: &KeyContext) -> (taken: bool)
    requires
        takes_keys(*old(surface), *context),
    ensures
        pages(*old(surface), *final(surface), paged_setup(*old(surface), code, *context), taken),
{
    let visible: usize = context.visible.len();
    match surface {
        Surface::Worktrees { rows, list } => {
            turn(list, rows.len() + 1, code);
            true
        },
        Surface::WebSearchPicker(picker) => {
            let shown = visible_web_rows(picker.rows.as_slice(), picker.query.as_str());
            turn(&mut picker.list, shown.len() + 1, code);
            true
        },
        Surface::Providers(providers) => {
            turn(&mut providers.list, visible + 1, code);
            true
        },
        Surface::Models { models, .. } => {
            turn(&mut models.list, visible, code);
            true
        },
        Surface::Effort { rows, list, .. } => {
            turn(list, rows.len(), code);
            true
        },
        Surface::Profiles { rows, list, .. } => {
            turn(list, rows.len(), code);
            true
        },
        Surface::Skills { rows, list } => {
            turn(list, rows.len() + 2, code);
            true
        },
        Surface::SkillDeleteConfirm { selected, .. } => {
            turn_to(selected, 1, code);
            true
        },
        Surface::SkillWizard(wizard) => {
            if wizard.step != SkillWizardStep::Scope {
                return false;
            }
            turn(&mut wizard.scope_list, 2, code);
            wizard.project = wizard.scope_list.at() == 0;
            true
        },
        Surface::AgentWizard(wizard) => match wizard.step {
            AgentWizardStep::Parent => {
                let count: usize = wizard.parents.len();
                turn(&mut wizard.parent_list, count, code);
                true
            },
            AgentWizardStep::Availability => {
                turn_to(&mut wizard.availability, 2, code);
                true
            },
            _ => false,
        },
        Surface::AgentEdit { list, .. } => {
            turn(list, 5, code);
            true
        },
        _ => false,
    }
}

fn page_server(surface: &mut Surface, code: KeyCode, context: &KeyContext) -> (taken: bool)
    requires
        takes_keys(*old(surface), *context),
    ensures
        pages(*old(surface), *final(surface), paged_server(*old(surface), code), taken),
{
    match surface {
        Surface::McpServers { rows, list } => {
            turn(list, rows.len() + 3, code);
            true
        },
        Surface::McpCatalog { rows, list } => {
            turn(list, rows.len() + 1, code);
            true
        },
        Surface::McpServer { server, selected, .. } => {
            let count: usize = mcp_server_menu_item_count(server.over_http, server.packaged);
            turn_to(selected, count - 1, code);
            true
        },
        Surface::McpPackageSetup { draft, selected } => {
            let last: usize = draft.parameters.len() + draft.secrets.len();
            turn_to(selected, last, code);
            true
        },
        Surface::McpTools(tools) => {
            let count: usize = tools.tools.len();
            turn(&mut tools.list, count, code);
            true
        },
        Surface::McpRemoveConfirm { selected, .. } => {
            turn_to(selected, 1, code);
            true
        },
        Surface::McpAddScope { selected } => {
            turn_to(selected, 2, code);
            true
        },
        Surface::McpTransport { selected, .. } => {
            turn_to(selected, 3, code);
            true
        },
        Surface::McpForm { draft, list } => {
            turn(list, mcp_form_item_count(draft), code);
            true
        },
        Surface::McpMutationPreview { preview, list, details } => {
            let rows = mcp_mutation_detail_lines(preview);
            proof {
                assert(line_views(rows@).len() == rows@.len());
            }
            list.reconcile(2, VISIBLE_MENU_ITEMS);
            page_details(details, rows.len(), code);
            true
        },
        _ => false,
    }
}

fn page_details(details: &mut ScrollViewState, rows: usize, code: KeyCode)
    ensures
        *final(details) == details_after(*old(details), rows as int, code),
{
    details.reconcile(rows, VISIBLE_HELP_ITEMS);
    match code {
        KeyCode::PageUp => {
            details.apply(ScrollViewAction::PagePrevious, VISIBLE_HELP_ITEMS);
        },
        KeyCode::PageDown => {
            details.apply(ScrollViewAction::PageNext, VISIBLE_HELP_ITEMS);
        },
        KeyCode::Home => {
            details.apply(ScrollViewAction::Home, VISIBLE_HELP_ITEMS);
        },
        KeyCode::End => {
            details.apply(ScrollViewAction::End, VISIBLE_HELP_ITEMS);
        },
        _ => {},
    }
}

fn page_status_line(editor: &mut StatusLineEditor, code: KeyCode, named: usize) -> (taken: bool)
    requires
        named + 2 <= usize::MAX,
    ensures
        match old(editor).mode {
            StatusLineEditorMode::Modules => taken && *final(editor) == (StatusLineEditor {
                list: turned(old(editor).list, old(editor).rows@.len() as int, code),
                ..*old(editor)
            }),
            StatusLineEditorMode::Colors { module, list } => taken && *final(editor) == (
            StatusLineEditor {
                mode: StatusLineEditorMode::Colors { module, list: turned(list, named + 2, code) },
                ..*old(editor)
            }),
            StatusLineEditorMode::Hex { module, input, cursor } => !taken && *final(editor)
                == *old(editor),
        },
{
    match &mut editor.mode {
        StatusLineEditorMode::Modules => {},
        StatusLineEditorMode::Colors { list, .. } => {
            turn(list, named + 2, code);
            return true;
        },
        StatusLineEditorMode::Hex { .. } => {
            return false;
        },
    }
    let count: usize = editor.rows.len();
    turn(&mut editor.list, count, code);
    true
}

fn page_view(surface: &mut Surface, code: KeyCode, context: &KeyContext) -> (taken: bool)
    requires
        takes_keys(*old(surface), *context),
    ensures
        pages(*old(surface), *final(surface), paged_view(*old(surface), code, *context), taken),
{
    let visible: usize = context.visible.len();
    match surface {
        Surface::StatusLine(editor) => page_status_line(
            editor,
            code,
            context.status_catalog.named_colors as usize,
        ),
        Surface::Settings(settings) => {
            let capacity: usize = settings_item_capacity(settings.query.as_str());
            let _ = move_list(&mut settings.list, visible, capacity, code);
            true
        },
        Surface::SettingChoices { choices, list, .. } => {
            turn(list, choices.len(), code);
            true
        },
        Surface::SupervisedWork(work) => {
            let shown = visible_work(work.rows.as_slice(), work.show_past);
            turn(&mut work.list, shown.len(), code);
            true
        },
        Surface::KillSupervisedWork { selected, .. } => {
            turn_to(selected, 1, code);
            true
        },
        Surface::Expanded { kind, scroll, .. } => {
            if let ExpandedKind::Directory { .. } = kind {
                return false;
            }
            *scroll = expanded_key(*scroll, context.scroll_last, context.scroll_rows, code);
            true
        },
        Surface::Paths { rows, list, .. } => {
            turn(list, rows.len(), code);
            true
        },
        Surface::HistoryTree(tree) => {
            tree.list.reconcile(visible, context.history_rows);
            if let Some(action) = list_action(code) {
                apply_history_list_action(
                    &mut tree.list,
                    action,
                    tree.rows.as_slice(),
                    context.visible.as_slice(),
                    context.history_rows,
                );
            }
            true
        },
        Surface::Conversations(picker) => {
            let shown = conversation_picker_indexes(picker.rows.as_slice(), picker.query.as_str());
            let capacity: usize = conversation_picker_item_capacity(
                context.viewport_rows,
                picker.include_archived,
                !picker.query.as_str().is_empty() && shown.len() == 0,
            );
            let _ = move_list(&mut picker.list, shown.len(), capacity, code);
            true
        },
        Surface::Help(help) => {
            let count: usize = match help.tab {
                HelpTab::Commands => help.command_rows.len(),
                HelpTab::Keybindings => help.key_rows.len(),
            };
            help.list.reconcile(count, VISIBLE_HELP_ITEMS);
            if let Some(action) = list_action(code) {
                help.list.apply(to_scroll_action(action), VISIBLE_HELP_ITEMS);
            }
            true
        },
        _ => false,
    }
}

/// Pages through a surface; the result says whether it has anything to page through.
pub fn page_surface(surface: &mut Surface, code: KeyCode, context: &KeyContext) -> (taken: bool)
    requires
        takes_keys(*old(surface), *context),
    ensures
        pages(*old(surface), *final(surface), paged(*old(surface), code, *context), taken),
{
    page_dialog(surface, code, context) || page_setup(surface, code, context) || page_server(
        surface,
        code,
        context,
    ) || page_view(surface, code, context)
}

} // verus!
