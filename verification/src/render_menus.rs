//! The rows of menus and wizards: agents, skills, worktrees, usage, rules,
//! background work and paths.

use vstd::prelude::*;
use vstd::string::*;
use crate::agents::{
    AgentWizard, AgentWizardStep, ProfileKind, ProfileRow, SkillRow, SkillWizard, SkillWizardStep,
};
use crate::input_syntax::CodeToken;
use crate::interaction::PermissionScope;
use crate::list::{settled, VISIBLE_MENU_ITEMS, ListState, ListWidget};
use crate::menu::{
    choice, choice_lines, choices_of, full_menu, indented, indented_input, input_line, is_at,
    lemma_cut_rows, less, list_rows, marker, marker_text, menu_choice_line, menu_title, pair_views,
    render_list, render_menu, role_when, same_text, single_line_choice, single_line_menu_choice,
    style_when, title_line, window_rows,
};
use crate::multiline_input::{editor_rows, following, row_at, text_columns, text_rows};
use crate::pickers::WorktreeNew;
use crate::providers::TextField;
use crate::render::{
    blanks, concat, concat3, count_text, cut_line, decimal, decimal_text, safe, spaces,
    terminal_safe, truncate_line,
};
use crate::render_setup::{dim_line, dimmed_line, plain_input_line};
use crate::scroll::ScrollViewWidget;
use crate::single_line_input::{rendered, rendered_placeholder, InputView, SingleLineInput};
use crate::style::{
    append_lines, blank_line, line, line_views, push_line, span, Line, LineView, Role, Style,
};
use crate::supervised_work::{
    shown_work, visible_work, BackgroundSurface, SupervisedWork, SupervisedWorkTarget,
};
use crate::text::chars_of;
use crate::unicode::{display_width, text_width};

verus! {

/// A profile in its list.
pub open spec fn profile_line(row: ProfileRow, selected: bool) -> LineView {
    let head = seq![
        span(marker(selected), role_when(selected, Role::Accent)),
        span(
            safe(row.name@),
            if !row.selectable { Style::of(Role::Dim) } else { role_when(selected, Role::Selected) },
        ),
    ];
    line(
        if row.detail@.len() == 0 {
            head
        } else {
            head.push(span("  "@ + safe(row.detail@), Style::of(Role::Dim)))
        },
    )
}

/// The items of a list of profiles.
pub open spec fn profile_items(rows: Seq<ProfileRow>, selected: Option<usize>) -> Seq<LineView> {
    Seq::new(rows.len(), |i: int| profile_line(rows[i], selected == Some(i as usize)))
}

/// The rows of a list of profiles.
pub open spec fn profiles_rows(
    kind: ProfileKind,
    rows: Seq<ProfileRow>,
    list: ListState,
    width: int,
) -> Seq<LineView> {
    let state = list.reconciled(rows.len() as int, VISIBLE_MENU_ITEMS as int);
    full_menu(
        title_line(
            match kind {
                ProfileKind::Agent => "Agents"@,
                ProfileKind::Mode => "Modes"@,
            },
            None,
        ),
        profile_items(rows, state.selected),
        state,
        width,
        true,
    )
}

fn render_profile(row: &ProfileRow, selected: bool) -> (shown: Line)
    ensures
        shown@ == profile_line(*row, selected),
{
    let style: Style = if !row.selectable {
        Style::of(Role::Dim)
    } else {
        style_when(selected, Role::Selected)
    };
    let mut shown = Line::new();
    shown.push_str(marker_text(selected), style_when(selected, Role::Accent));
    shown.push(terminal_safe(row.name.as_str()), style);
    proof {
        assert(shown@.spans =~= seq![
            span(marker(selected), role_when(selected, Role::Accent)),
            span(safe(row.name@), style),
        ]);
    }
    if !row.detail.as_str().is_empty() {
        shown.push(
            concat("  ", terminal_safe(row.detail.as_str()).as_str()),
            Style::of(Role::Dim),
        );
    }
    shown
}

pub fn profiles_lines(kind: ProfileKind, rows: &[ProfileRow], list: &ListState, width: u16)
    -> (lines: Vec<Line>)
    ensures
        line_views(lines@) == profiles_rows(kind, rows@, *list, width as int),
{
    let mut state: ListState = *list;
    state.reconcile(rows.len(), VISIBLE_MENU_ITEMS);
    let ghost all = profile_items(rows@, state.selected);
    let mut items: Vec<Line> = Vec::new();
    let mut i: usize = 0;
    while i < rows.len()
        invariant
            i <= rows@.len(),
            all == profile_items(rows@, state.selected),
            items@.len() == i,
            line_views(items@) == all.take(i as int),
        decreases rows@.len() - i,
    {
        push_line(&mut items, render_profile(&rows[i], is_at(state.selected, i)));
        i += 1;
        proof {
            assert(line_views(items@) =~= all.take(i as int));
        }
    }
    proof {
        assert(all.take(i as int) =~= all);
    }
    let title: &str = match kind {
        ProfileKind::Agent => "Agents",
        ProfileKind::Mode => "Modes",
    };
    render_menu(menu_title(title, None), items, state, width, true)
}

/// A skill in its list.
pub open spec fn skill_line(row: SkillRow, selected: bool) -> LineView {
    line(
        seq![
            span(marker(selected), role_when(selected, Role::Accent)),
            span(
                safe(row.name@),
                if !row.enabled { Style::of(Role::Dim) } else { role_when(selected, Role::Selected) },
            ),
            span(
                "  "@ + row.source@ + " \u{b7} "@ + safe(row.description@),
                Style::of(Role::Dim),
            ),
        ],
    )
}

/// The items of the list of skills.
pub open spec fn skill_items(rows: Seq<SkillRow>, selected: Option<usize>) -> Seq<LineView> {
    Seq::new(
        rows.len() + 2,
        |i: int|
            if i == 0 {
                choice(selected == Some(0usize), "Close"@, ""@)
            } else if i == 1 {
                choice(selected == Some(1usize), "Add"@, ""@)
            } else {
                skill_line(rows[i - 2], selected == Some(i as usize))
            },
    )
}

/// The rows of the list of skills.
pub open spec fn skills_rows(rows: Seq<SkillRow>, list: ListState, width: int) -> Seq<LineView> {
    let state = list.reconciled(rows.len() as int + 2, VISIBLE_MENU_ITEMS as int);
    full_menu(title_line("Skills"@, None), skill_items(rows, state.selected), state, width, true)
}

pub fn skills_lines(rows: &[SkillRow], list: &ListState, width: u16) -> (lines: Vec<Line>)
    requires
        rows@.len() <= usize::MAX - 2,
    ensures
        line_views(lines@) == skills_rows(rows@, *list, width as int),
{
    let mut state: ListState = *list;
    state.reconcile(rows.len() + 2, VISIBLE_MENU_ITEMS);
    let ghost all = skill_items(rows@, state.selected);
    let mut items: Vec<Line> = Vec::new();
    push_line(&mut items, menu_choice_line(is_at(state.selected, 0), "Close", ""));
    push_line(&mut items, menu_choice_line(is_at(state.selected, 1), "Add", ""));
    let mut i: usize = 0;
    proof {
        assert(line_views(items@) =~= all.take(2));
    }
    while i < rows.len()
        invariant
            i <= rows@.len() <= usize::MAX - 2,
            all == skill_items(rows@, state.selected),
            all.len() == rows@.len() + 2,
            items@.len() == i + 2,
            line_views(items@) == all.take(i + 2),
        decreases rows@.len() - i,
    {
        let row = &rows[i];
        let selected: bool = is_at(state.selected, i + 2);
        let style: Style = if !row.enabled {
            Style::of(Role::Dim)
        } else {
            style_when(selected, Role::Selected)
        };
        let mut shown = Line::new();
        shown.push_str(marker_text(selected), style_when(selected, Role::Accent));
        shown.push(terminal_safe(row.name.as_str()), style);
        let head: String = concat3("  ", row.source.as_str(), " \u{b7} ");
        shown.push(
            concat(head.as_str(), terminal_safe(row.description.as_str()).as_str()),
            Style::of(Role::Dim),
        );
        proof {
            assert(shown@.spans =~= skill_line(*row, selected).spans);
        }
        push_line(&mut items, shown);
        i += 1;
        proof {
            assert(line_views(items@) =~= all.take(i + 2));
        }
    }
    proof {
        assert(all.take(i + 2) =~= all);
    }
    render_menu(menu_title("Skills", None), items, state, width, true)
}

/// The rows of a short menu of plain choices.
pub open spec fn short_menu_rows(
    title: LineView,
    choices: Seq<(Seq<char>, Seq<char>)>,
    state: ListState,
    width: int,
) -> Seq<LineView> {
    full_menu(title, choices_of(choices, state.selected), state, width, false)
}

fn render_short_menu(title: Line, choices: &[(&str, &str)], state: ListState, width: u16) -> (lines:
    Vec<Line>)
    requires
        state.offset <= state.item_count == choices@.len(),
    ensures
        line_views(lines@) == short_menu_rows(
            title@,
            pair_views(choices@),
            state,
            width as int,
        ),
{
    let items = choice_lines(choices, state.selected);
    render_menu(title, items, state, width, false)
}

/// The rows where it is asked whether to delete a skill.
pub open spec fn skill_delete_rows(name: Seq<char>, selected: int, width: int) -> Seq<LineView> {
    short_menu_rows(
        title_line("Delete skill"@, Some(name)),
        seq![("Cancel"@, ""@), ("Delete"@, ""@)],
        settled(2, selected, 0, VISIBLE_MENU_ITEMS as int),
        width,
    )
}

pub fn skill_delete_lines(name: &str, selected: usize, width: u16) -> (lines: Vec<Line>)
    ensures
        line_views(lines@) == skill_delete_rows(name@, selected as int, width as int),
{
    let choices = [("Cancel", ""), ("Delete", "")];
    proof {
        assert(pair_views(choices@) =~= seq![("Cancel"@, ""@), ("Delete"@, ""@)]);
    }
    render_short_menu(
        menu_title("Delete skill", Some(name)),
        &choices,
        ListState::selectable_at(2, selected, VISIBLE_MENU_ITEMS),
        width,
    )
}

/// The rows where it is asked whether to reset the usage.
pub open spec fn usage_reset_rows(selected: int, width: int) -> Seq<LineView> {
    short_menu_rows(
        title_line("Reset usage"@, Some("canonical conversation usage is retained"@)),
        seq![("Cancel"@, ""@), ("Reset all global usage"@, ""@)],
        settled(2, selected, 0, VISIBLE_MENU_ITEMS as int),
        width,
    )
}

pub fn usage_reset_lines(selected: usize, width: u16) -> (lines: Vec<Line>)
    ensures
        line_views(lines@) == usage_reset_rows(selected as int, width as int),
{
    let choices = [("Cancel", ""), ("Reset all global usage", "")];
    proof {
        assert(pair_views(choices@) =~= seq![("Cancel"@, ""@), ("Reset all global usage"@, ""@)]);
    }
    render_short_menu(
        menu_title("Reset usage", Some("canonical conversation usage is retained")),
        &choices,
        ListState::selectable_at(2, selected, VISIBLE_MENU_ITEMS),
        width,
    )
}

/// The rows where it is asked whether to stop work.
pub open spec fn kill_rows(target: SupervisedWorkTarget, selected: int, width: int) -> Seq<
    LineView,
> {
    short_menu_rows(
        title_line(
            "Kill background work"@,
            Some(
                match target {
                    SupervisedWorkTarget::Agent(_) => "sub-agent"@,
                    SupervisedWorkTarget::Terminal(_) => "terminal"@,
                },
            ),
        ),
        seq![("Kill"@, "gracefully terminate active work"@), ("Close"@, ""@)],
        settled(2, selected, 0, VISIBLE_MENU_ITEMS as int),
        width,
    )
}

pub fn kill_lines(target: SupervisedWorkTarget, selected: usize, width: u16) -> (lines: Vec<Line>)
    ensures
        line_views(lines@) == kill_rows(target, selected as int, width as int),
{
    let subject: &str = match target {
        SupervisedWorkTarget::Agent(_) => "sub-agent",
        SupervisedWorkTarget::Terminal(_) => "terminal",
    };
    let choices = [("Kill", "gracefully terminate active work"), ("Close", "")];
    proof {
        assert(pair_views(choices@) =~= seq![
            ("Kill"@, "gracefully terminate active work"@),
            ("Close"@, ""@),
        ]);
    }
    render_short_menu(
        menu_title("Kill background work", Some(subject)),
        &choices,
        ListState::selectable_at(2, selected, VISIBLE_MENU_ITEMS),
        width,
    )
}

/// The rows of the menu in which an agent is edited.
pub open spec fn agent_edit_rows(name: Seq<char>, list: ListState, width: int) -> Seq<LineView> {
    short_menu_rows(
        cut_line(title_line("Edit agent"@, Some(name)), width),
        seq![
            ("Name"@, ""@),
            ("Description"@, ""@),
            ("Parent"@, ""@),
            ("Prompt"@, ""@),
            ("Availability"@, ""@),
        ],
        list.reconciled(5, VISIBLE_MENU_ITEMS as int),
        width,
    )
}

pub fn agent_edit_lines(name: &str, list: &ListState, width: u16) -> (lines: Vec<Line>)
    ensures
        line_views(lines@) == agent_edit_rows(name@, *list, width as int),
{
    let choices = [
        ("Name", ""),
        ("Description", ""),
        ("Parent", ""),
        ("Prompt", ""),
        ("Availability", ""),
    ];
    let mut state: ListState = *list;
    state.reconcile(5, VISIBLE_MENU_ITEMS);
    proof {
        assert(pair_views(choices@) =~= seq![
            ("Name"@, ""@),
            ("Description"@, ""@),
            ("Parent"@, ""@),
            ("Prompt"@, ""@),
            ("Availability"@, ""@),
        ]);
    }
    render_short_menu(
        truncate_line(menu_title("Edit agent", Some(name)), width as usize),
        &choices,
        state,
        width,
    )
}

/// The rows of an editor that is shown in `capacity` rows.
pub open spec fn scrolled_rows(
    input: InputView,
    tokens: Seq<CodeToken>,
    width: int,
    capacity: int,
    placeholder: Option<LineView>,
) -> Seq<LineView> {
    let rows = text_rows(input.text, 0, text_columns(width));
    let state = following(rows.len() as int, row_at(rows, input.at), capacity);
    ScrollViewWidget::of(capacity).lines_spec(
        state,
        if input.text.len() == 0 && placeholder is Some && capacity > 0 {
            seq![placeholder->0]
        } else {
            editor_rows(
                input,
                tokens,
                rows,
                state.offset as int,
                state.visible_end_spec(capacity),
            )
        },
    )
}

/// The rows of the wizard that makes a skill.
pub open spec fn skill_wizard_rows(wizard: SkillWizard, width: int) -> Seq<LineView> {
    match wizard.step {
        SkillWizardStep::Scope => short_menu_rows(
            title_line("Add skill"@, Some("scope"@)),
            seq![("Project"@, ""@), ("Global"@, ""@)],
            wizard.scope_list.reconciled(2, VISIBLE_MENU_ITEMS as int),
            width,
        ),
        SkillWizardStep::Content => seq![title_line("Add skill"@, Some("content"@))]
            + scrolled_rows(
            wizard.content@,
            Seq::empty(),
            width,
            VISIBLE_MENU_ITEMS as int,
            None,
        ),
        SkillWizardStep::Name => seq![
            title_line("Add skill"@, Some("name"@)),
            blank_line(),
            prompted(wizard.name@, "skill-name"@, width),
            blank_line(),
        ],
        SkillWizardStep::Description => seq![
            title_line("Add skill"@, Some("description"@)),
            blank_line(),
            prompted(wizard.description@, "When should this skill be used?"@, width),
            blank_line(),
        ],
    }
}

/// An indented input, or its placeholder.
pub open spec fn prompted(input: InputView, placeholder: Seq<char>, width: int) -> LineView {
    let shown = if input.text.len() > 0 {
        rendered(
            input,
            Seq::empty(),
            less(width, 2),
            Style::plain(),
            Style::of(Role::SearchCursor),
        )
    } else {
        rendered_placeholder(
            placeholder,
            less(width, 2),
            Style::of(Role::Dim),
            Style::of(Role::SearchCursor),
        )
    };
    line(seq![span("  "@, Style::plain())] + shown.spans)
}

fn render_prompted(input: &SingleLineInput, placeholder: &str, width: u16) -> (row: Line)
    ensures
        row@ == prompted(input@, placeholder@, width as int),
{
    let tokens: Vec<CodeToken> = Vec::new();
    proof {
        assert(tokens@ =~= Seq::empty());
    }
    let mut row = Line::new();
    row.push_str("  ", Style::plain());
    let ghost head = row@.spans;
    row.append(
        input.render_bounded_with_placeholder(
            tokens.as_slice(),
            (width as usize).saturating_sub(2),
            placeholder,
            Style::plain(),
            Style::of(Role::Dim),
            Style::of(Role::SearchCursor),
        ),
    );
    proof {
        assert(head =~= seq![span("  "@, Style::plain())]);
    }
    row
}

pub fn skill_wizard_lines(wizard: &SkillWizard, width: u16) -> (lines: Vec<Line>)
    ensures
        line_views(lines@) == skill_wizard_rows(*wizard, width as int),
{
    match wizard.step {
        SkillWizardStep::Scope => {
            let choices = [("Project", ""), ("Global", "")];
            let mut state: ListState = wizard.scope_list;
            state.reconcile(2, VISIBLE_MENU_ITEMS);
            proof {
                assert(pair_views(choices@) =~= seq![("Project"@, ""@), ("Global"@, ""@)]);
            }
            render_short_menu(menu_title("Add skill", Some("scope")), &choices, state, width)
        },
        SkillWizardStep::Content => {
            let tokens: Vec<CodeToken> = Vec::new();
            proof {
                assert(tokens@ =~= Seq::empty());
            }
            let layout = wizard.content.render_scrolled(
                tokens.as_slice(),
                width,
                VISIBLE_MENU_ITEMS,
                None,
            );
            let mut lines: Vec<Line> = Vec::new();
            push_line(&mut lines, menu_title("Add skill", Some("content")));
            append_lines(&mut lines, layout.lines);
            proof {
                assert(line_views(lines@) =~= skill_wizard_rows(*wizard, width as int));
            }
            lines
        },
        SkillWizardStep::Name => {
            let mut lines: Vec<Line> = Vec::new();
            push_line(&mut lines, menu_title("Add skill", Some("name")));
            push_line(&mut lines, Line::new());
            push_line(&mut lines, render_prompted(&wizard.name, "skill-name", width));
            push_line(&mut lines, Line::new());
            proof {
                assert(line_views(lines@) =~= skill_wizard_rows(*wizard, width as int));
            }
            lines
        },
        SkillWizardStep::Description => {
            let mut lines: Vec<Line> = Vec::new();
            push_line(&mut lines, menu_title("Add skill", Some("description")));
            push_line(&mut lines, Line::new());
            push_line(
                &mut lines,
                render_prompted(&wizard.description, "When should this skill be used?", width),
            );
            push_line(&mut lines, Line::new());
            proof {
                assert(line_views(lines@) =~= skill_wizard_rows(*wizard, width as int));
            }
            lines
        },
    }
}

/// What stands in the empty prompt of an agent.
pub open spec fn prompt_placeholder() -> LineView {
    line(
        seq![
            span("  "@, Style::plain()),
            span("i"@, Style::of(Role::SearchCursor)),
            span("nstructions for this agent"@, Style::of(Role::Dim)),
        ],
    )
}

pub fn agent_prompt_placeholder() -> (row: Line)
    ensures
        row@ == prompt_placeholder(),
{
    let mut row = Line::new();
    row.push_str("  ", Style::plain());
    row.push_str("i", Style::of(Role::SearchCursor));
    row.push_str("nstructions for this agent", Style::of(Role::Dim));
    proof {
        assert(row@.spans =~= prompt_placeholder().spans);
    }
    row
}

/// The rows that are left for an editor of several lines.
pub open spec fn editor_capacity(viewport_rows: int) -> int {
    if less(viewport_rows, 3) >= 1 { less(viewport_rows, 3) } else { 1 }
}

pub fn multiline_content_capacity(viewport_rows: usize) -> (capacity: usize)
    ensures
        capacity == editor_capacity(viewport_rows as int),
{
    let rows: usize = viewport_rows.saturating_sub(3);
    if rows >= 1 {
        rows
    } else {
        1
    }
}

/// The items among which the parent of an agent is chosen.
pub open spec fn parent_items(parents: Seq<String>, selected: Option<usize>) -> Seq<LineView> {
    Seq::new(
        parents.len(),
        |i: int|
            choice(
                selected == Some(i as usize),
                parents[i]@,
                if parents[i]@ == "None"@ { "no parent"@ } else { ""@ },
            ),
    )
}

/// At most `count` rows.
pub open spec fn at_most(rows: Seq<LineView>, count: int) -> Seq<LineView> {
    if rows.len() <= count { rows } else { rows.take(count) }
}

/// The rows of the wizard of an agent.
pub open spec fn agent_wizard_rows(wizard: AgentWizard, width: int, viewport_rows: int) -> Seq<
    LineView,
> {
    let title = cut_line(
        title_line(
            (if wizard.editing { "Edit"@ } else { "Add"@ }) + " agent "@
                + wizard.step.title_spec(),
            None,
        ),
        width,
    );
    match wizard.step {
        AgentWizardStep::Name => seq![
            title,
            blank_line(),
            indented(
                InputView::of(wizard.name@, wizard.cursor as int),
                Seq::empty(),
                "e.g. planner"@,
                width,
            ),
            blank_line(),
        ],
        AgentWizardStep::Description => seq![
            title,
            blank_line(),
            indented(
                InputView::of(wizard.description@, wizard.cursor as int),
                Seq::empty(),
                "what this agent is for"@,
                width,
            ),
            blank_line(),
        ],
        AgentWizardStep::Parent => {
            let state = wizard.parent_list.reconciled(
                wizard.parents@.len() as int,
                VISIBLE_MENU_ITEMS as int,
            );
            full_menu(
                title,
                parent_items(wizard.parents@, state.selected),
                state,
                width,
                wizard.editing,
            )
        },
        AgentWizardStep::Prompt => at_most(
            seq![title] + scrolled_rows(
                wizard.prompt@,
                Seq::empty(),
                width,
                editor_capacity(viewport_rows),
                Some(prompt_placeholder()),
            ),
            viewport_rows,
        ),
        AgentWizardStep::Availability => short_menu_rows(
            title,
            seq![
                ("User"@, "selectable directly"@),
                ("Subagent"@, "delegation only"@),
                ("Both"@, "either context"@),
            ],
            settled(3, wizard.availability as int, 0, VISIBLE_MENU_ITEMS as int),
            width,
        ),
    }
}

pub fn agent_wizard_lines(wizard: &AgentWizard, width: u16, viewport_rows: usize) -> (lines: Vec<
    Line,
>)
    ensures
        line_views(lines@) == agent_wizard_rows(*wizard, width as int, viewport_rows as int),
{
    let verb: &str = if wizard.editing {
        "Edit"
    } else {
        "Add"
    };
    let text: String = concat3(verb, " agent ", wizard.step.title());
    let title = truncate_line(menu_title(text.as_str(), None), width as usize);
    match wizard.step {
        AgentWizardStep::Name => {
            let mut lines: Vec<Line> = Vec::new();
            push_line(&mut lines, title);
            push_line(&mut lines, Line::new());
            push_line(
                &mut lines,
                indented_input(wizard.name.as_str(), wizard.cursor, "e.g. planner", width),
            );
            push_line(&mut lines, Line::new());
            proof {
                assert(line_views(lines@) =~= agent_wizard_rows(
                    *wizard,
                    width as int,
                    viewport_rows as int,
                ));
            }
            lines
        },
        AgentWizardStep::Description => {
            let mut lines: Vec<Line> = Vec::new();
            push_line(&mut lines, title);
            push_line(&mut lines, Line::new());
            push_line(
                &mut lines,
                indented_input(
                    wizard.description.as_str(),
                    wizard.cursor,
                    "what this agent is for",
                    width,
                ),
            );
            push_line(&mut lines, Line::new());
            proof {
                assert(line_views(lines@) =~= agent_wizard_rows(
                    *wizard,
                    width as int,
                    viewport_rows as int,
                ));
            }
            lines
        },
        AgentWizardStep::Parent => {
            let mut state: ListState = wizard.parent_list;
            state.reconcile(wizard.parents.len(), VISIBLE_MENU_ITEMS);
            let ghost all = parent_items(wizard.parents@, state.selected);
            let mut items: Vec<Line> = Vec::new();
            let mut i: usize = 0;
            while i < wizard.parents.len()
                invariant
                    i <= wizard.parents@.len(),
                    all == parent_items(wizard.parents@, state.selected),
                    items@.len() == i,
                    line_views(items@) == all.take(i as int),
                decreases wizard.parents@.len() - i,
            {
                let entry = wizard.parents[i].as_str();
                let detail: &str = if same_text(entry, "None") {
                    "no parent"
                } else {
                    ""
                };
                push_line(&mut items, menu_choice_line(is_at(state.selected, i), entry, detail));
                i += 1;
                proof {
                    assert(line_views(items@) =~= all.take(i as int));
                }
            }
            proof {
                assert(all.take(i as int) =~= all);
            }
            render_menu(title, items, state, width, wizard.editing)
        },
        AgentWizardStep::Prompt => {
            let tokens: Vec<CodeToken> = Vec::new();
            proof {
                assert(tokens@ =~= Seq::empty());
            }
            let layout = wizard.prompt.render_scrolled(
                tokens.as_slice(),
                width,
                multiline_content_capacity(viewport_rows),
                Some(agent_prompt_placeholder()),
            );
            let mut lines: Vec<Line> = Vec::new();
            push_line(&mut lines, title);
            append_lines(&mut lines, layout.lines);
            let ghost all = line_views(lines@);
            proof {
                assert(all =~= seq![title@] + scrolled_rows(
                    wizard.prompt@,
                    Seq::empty(),
                    width as int,
                    editor_capacity(viewport_rows as int),
                    Some(prompt_placeholder()),
                ));
            }
            lines.truncate(viewport_rows);
            proof {
                assert(line_views(lines@) =~= at_most(all, viewport_rows as int));
            }
            lines
        },
        AgentWizardStep::Availability => {
            let choices = [
                ("User", "selectable directly"),
                ("Subagent", "delegation only"),
                ("Both", "either context"),
            ];
            proof {
                assert(pair_views(choices@) =~= seq![
                    ("User"@, "selectable directly"@),
                    ("Subagent"@, "delegation only"@),
                    ("Both"@, "either context"@),
                ]);
            }
            render_short_menu(
                title,
                &choices,
                ListState::selectable_at(3, wizard.availability, VISIBLE_MENU_ITEMS),
                width,
            )
        },
    }
}

/// The rows where a conversation is renamed.
pub open spec fn rename_rows(field: TextField, width: int) -> Seq<LineView> {
    seq![
        title_line("Rename conversation"@, None),
        blank_line(),
        input_line(
            "  "@,
            InputView::of(field.value@, field.cursor as int),
            Seq::empty(),
            less(width, 2),
            Style::plain(),
        ),
        blank_line(),
    ]
}

pub fn rename_lines(field: &TextField, width: u16) -> (lines: Vec<Line>)
    ensures
        line_views(lines@) == rename_rows(*field, width as int),
{
    let mut lines: Vec<Line> = Vec::new();
    push_line(&mut lines, menu_title("Rename conversation", None));
    push_line(&mut lines, Line::new());
    push_line(
        &mut lines,
        plain_input_line(
            "  ",
            field.value.as_str(),
            field.cursor,
            (width as usize).saturating_sub(2),
        ),
    );
    push_line(&mut lines, Line::new());
    proof {
        assert(line_views(lines@) =~= rename_rows(*field, width as int));
    }
    lines
}

/// A worktree.
#[derive(Debug)]
pub struct WorktreeRow {
    pub name: String,
    pub path: String,
    pub current: bool,
}

/// The items of the list of worktrees.
pub open spec fn worktree_items(rows: Seq<WorktreeRow>, selected: Option<usize>) -> Seq<LineView> {
    Seq::new(
        rows.len() + 1,
        |i: int|
            if i == 0 {
                choice(selected == Some(0usize), "New"@, "create and enter a worktree"@)
            } else {
                choice(
                    selected == Some(i as usize),
                    rows[i - 1].name@,
                    if rows[i - 1].current { "current"@ } else { rows[i - 1].path@ },
                )
            },
    )
}

/// The rows of the list of worktrees.
pub open spec fn worktrees_rows(rows: Seq<WorktreeRow>, list: ListState, width: int) -> Seq<
    LineView,
> {
    let state = list.reconciled(rows.len() as int + 1, VISIBLE_MENU_ITEMS as int);
    full_menu(
        title_line("Worktrees"@, None),
        worktree_items(rows, state.selected),
        state,
        width,
        true,
    )
}

pub fn worktrees_lines(rows: &[WorktreeRow], list: &ListState, width: u16) -> (lines: Vec<Line>)
    requires
        rows@.len() < usize::MAX,
    ensures
        line_views(lines@) == worktrees_rows(rows@, *list, width as int),
{
    let mut state: ListState = *list;
    state.reconcile(rows.len() + 1, VISIBLE_MENU_ITEMS);
    let ghost all = worktree_items(rows@, state.selected);
    let mut items: Vec<Line> = Vec::new();
    push_line(
        &mut items,
        menu_choice_line(is_at(state.selected, 0), "New", "create and enter a worktree"),
    );
    let mut i: usize = 0;
    proof {
        assert(line_views(items@) =~= all.take(1));
    }
    while i < rows.len()
        invariant
            i <= rows@.len() < usize::MAX,
            all == worktree_items(rows@, state.selected),
            all.len() == rows@.len() + 1,
            items@.len() == i + 1,
            line_views(items@) == all.take(i + 1),
        decreases rows@.len() - i,
    {
        let row = &rows[i];
        let detail: &str = if row.current {
            "current"
        } else {
            row.path.as_str()
        };
        push_line(
            &mut items,
            menu_choice_line(is_at(state.selected, i + 1), row.name.as_str(), detail),
        );
        i += 1;
        proof {
            assert(line_views(items@) =~= all.take(i + 1));
        }
    }
    proof {
        assert(all.take(i + 1) =~= all);
    }
    render_menu(menu_title("Worktrees", None), items, state, width, true)
}

/// The rows where a worktree is made.
pub open spec fn worktree_new_rows(worktree: WorktreeNew, width: int) -> Seq<LineView> {
    let label = if worktree.editing_base { "Base"@ } else { "Name"@ };
    let value = if worktree.editing_base { worktree.base@ } else { worktree.name@ };
    seq![
        title_line("New worktree"@, None),
        blank_line(),
        input_line(
            "  "@ + label + ": "@,
            InputView::of(value, worktree.cursor as int),
            Seq::empty(),
            less(width, display_width(label) + 4),
            Style::plain(),
        ),
        blank_line(),
    ]
}

pub fn worktree_new_lines(worktree: &WorktreeNew, width: u16) -> (lines: Vec<Line>)
    ensures
        line_views(lines@) == worktree_new_rows(*worktree, width as int),
{
    let label: &str = if worktree.editing_base {
        "Base"
    } else {
        "Name"
    };
    let value: &str = if worktree.editing_base {
        worktree.base.as_str()
    } else {
        worktree.name.as_str()
    };
    let mut lines: Vec<Line> = Vec::new();
    push_line(&mut lines, menu_title("New worktree", None));
    push_line(&mut lines, Line::new());
    push_line(
        &mut lines,
        plain_input_line(
            concat3("  ", label, ": ").as_str(),
            value,
            worktree.cursor,
            (width as usize).saturating_sub(text_width(label).saturating_add(4)),
        ),
    );
    push_line(&mut lines, Line::new());
    proof {
        assert(line_views(lines@) =~= worktree_new_rows(*worktree, width as int));
    }
    lines
}

/// What kind of path a completion is.
#[derive(Clone, Copy, Debug, PartialEq, Eq, Structural)]
pub enum ListEntryKind {
    Directory,
    File,
    Symlink,
}

pub open spec fn entry_kind(kind: ListEntryKind) -> Seq<char> {
    match kind {
        ListEntryKind::Directory => "directory"@,
        ListEntryKind::File => "file"@,
        ListEntryKind::Symlink => "symlink"@,
    }
}

pub fn list_entry_kind(kind: ListEntryKind) -> (text: &'static str)
    ensures
        text@ == entry_kind(kind),
{
    match kind {
        ListEntryKind::Directory => "directory",
        ListEntryKind::File => "file",
        ListEntryKind::Symlink => "symlink",
    }
}

/// A path that completes what was typed.
#[derive(Debug)]
pub struct PathRow {
    pub path: String,
    pub kind: ListEntryKind,
}

/// The items of the path completions.
pub open spec fn path_items(rows: Seq<PathRow>, selected: Option<usize>) -> Seq<LineView> {
    Seq::new(
        rows.len(),
        |i: int|
            choice(
                selected == Some(i as usize),
                decimal((i + 1) as nat) + ". "@ + rows[i].path@,
                entry_kind(rows[i].kind),
            ),
    )
}

/// The rows of the path completions.
pub open spec fn paths_rows(rows: Seq<PathRow>, list: ListState, width: int) -> Seq<LineView> {
    let state = list.reconciled(rows.len() as int, VISIBLE_MENU_ITEMS as int);
    seq![title_line("Path"@, None), blank_line()] + list_rows(
        path_items(rows, state.selected),
        Seq::empty(),
        state,
        ListWidget::of(VISIBLE_MENU_ITEMS as int),
        width,
        false,
    )
}

pub fn paths_lines(rows: &[PathRow], list: &ListState, width: u16) -> (lines: Vec<Line>)
    ensures
        line_views(lines@) == paths_rows(rows@, *list, width as int),
{
    let mut state: ListState = *list;
    state.reconcile(rows.len(), VISIBLE_MENU_ITEMS);
    let ghost all = path_items(rows@, state.selected);
    let mut items: Vec<Line> = Vec::new();
    let mut i: usize = 0;
    while i < rows.len()
        invariant
            i <= rows@.len(),
            all == path_items(rows@, state.selected),
            items@.len() == i,
            line_views(items@) == all.take(i as int),
        decreases rows@.len() - i,
    {
        let text: String = concat3(count_text(i + 1).as_str(), ". ", rows[i].path.as_str());
        push_line(
            &mut items,
            menu_choice_line(
                is_at(state.selected, i),
                text.as_str(),
                list_entry_kind(rows[i].kind),
            ),
        );
        i += 1;
        proof {
            assert(line_views(items@) =~= all.take(i as int));
        }
    }
    let empty: Vec<Line> = Vec::new();
    proof {
        assert(all.take(i as int) =~= all);
        assert(line_views(empty@) =~= Seq::empty());
    }
    let mut lines: Vec<Line> = Vec::new();
    push_line(&mut lines, menu_title("Path", None));
    push_line(&mut lines, Line::new());
    append_lines(
        &mut lines,
        render_list(&items, empty, &state, ListWidget::new(VISIBLE_MENU_ITEMS), width, false),
    );
    proof {
        assert(line_views(lines@) =~= paths_rows(rows@, *list, width as int));
    }
    lines
}

/// A text with its ASCII letters in lower case.
pub open spec fn ascii_lower(text: Seq<char>) -> Seq<char> {
    text.map_values(|c: char| ascii_lower_char(c))
}

pub open spec fn ascii_lower_char(c: char) -> char {
    if 65 <= c as u32 <= 90 { ((c as u32 + 32) as u32) as char } else { c }
}

fn to_ascii_lower(text: &str) -> (lower: String)
    ensures
        lower@ == ascii_lower(text@),
{
    let chars: Vec<char> = chars_of(text);
    let mut lower: String = String::new();
    let mut i: usize = 0;
    while i < chars.len()
        invariant
            i <= chars@.len(),
            chars@ == text@,
            lower@ == ascii_lower(text@).take(i as int),
        decreases chars@.len() - i,
    {
        let c: char = chars[i];
        let u: u32 = c as u32;
        if 65 <= u && u <= 90 {
            lower.push(((u + 32) as u8) as char);
        } else {
            lower.push(c);
        }
        i += 1;
        proof {
            assert(lower@ =~= ascii_lower(text@).take(i as int));
        }
    }
    proof {
        assert(ascii_lower(text@).take(i as int) =~= ascii_lower(text@));
    }
    lower
}

/// A piece of work in its list.
pub open spec fn work_line(work: SupervisedWork, selected: bool, width: int) -> LineView {
    match work {
        SupervisedWork::Agent { run } => single_line_choice(
            selected,
            ascii_lower(run.profile@ + " \u{b7} "@ + run.status@),
            run.task@,
            width,
        ),
        SupervisedWork::Terminal { terminal } => single_line_choice(
            selected,
            ascii_lower("terminal \u{b7} "@ + terminal.status@),
            terminal.command@,
            width,
        ),
    }
}

fn render_work(work: &SupervisedWork, selected: bool, width: u16) -> (row: Line)
    ensures
        row@ == work_line(*work, selected, width as int),
{
    match work {
        SupervisedWork::Agent { run } => single_line_menu_choice(
            selected,
            to_ascii_lower(
                concat3(run.profile.as_str(), " \u{b7} ", run.status.as_str()).as_str(),
            ).as_str(),
            run.task.as_str(),
            width,
        ),
        SupervisedWork::Terminal { terminal } => single_line_menu_choice(
            selected,
            to_ascii_lower(concat("terminal \u{b7} ", terminal.status.as_str()).as_str()).as_str(),
            terminal.command.as_str(),
            width,
        ),
    }
}

/// The items of the list of background work.
pub open spec fn work_items(
    rows: Seq<SupervisedWork>,
    visible: Seq<usize>,
    selected: Option<usize>,
    width: int,
) -> Seq<LineView> {
    Seq::new(
        visible.len(),
        |i: int| work_line(rows[visible[i] as int], selected == Some(i as usize), width),
    )
}

/// How a list with one row for an empty list is laid out.
pub open spec fn with_empty_row(capacity: int) -> ListWidget {
    ListWidget { empty_rows: 1, ..ListWidget::of(capacity) }
}

/// The rows of the list of background work.
pub open spec fn background_rows(surface: BackgroundSurface, width: int) -> Seq<LineView> {
    let visible = shown_work(surface.rows@, surface.show_past);
    let state = surface.settled_list();
    seq![
        title_line(
            "Background work"@,
            Some(if surface.show_past { "past"@ } else { "active"@ }),
        ),
    ] + list_rows(
        work_items(surface.rows@, visible, state.selected, width),
        seq![
            line(
                seq![
                    span(
                        if surface.show_past {
                            "  No past background work."@
                        } else {
                            "  No active background work."@
                        },
                        Style::of(Role::Dim),
                    ),
                ],
            ),
        ],
        state,
        with_empty_row(VISIBLE_MENU_ITEMS as int),
        width,
        true,
    )
}

pub fn background_lines(surface: &BackgroundSurface, width: u16) -> (lines: Vec<Line>)
    ensures
        line_views(lines@) == background_rows(*surface, width as int),
{
    let visible = visible_work(surface.rows.as_slice(), surface.show_past);
    let mut state: ListState = surface.list;
    state.reconcile(visible.len(), VISIBLE_MENU_ITEMS);
    let ghost all = work_items(surface.rows@, visible@, state.selected, width as int);
    let mut items: Vec<Line> = Vec::new();
    let mut i: usize = 0;
    while i < visible.len()
        invariant
            i <= visible@.len(),
            forall|k: int| 0 <= k < visible@.len() ==> #[trigger] visible@[k] < surface.rows@.len(),
            all == work_items(surface.rows@, visible@, state.selected, width as int),
            items@.len() == i,
            line_views(items@) == all.take(i as int),
        decreases visible@.len() - i,
    {
        push_line(
            &mut items,
            render_work(&surface.rows[visible[i]], is_at(state.selected, i), width),
        );
        i += 1;
        proof {
            assert(line_views(items@) =~= all.take(i as int));
        }
    }
    let text: &str = if surface.show_past {
        "  No past background work."
    } else {
        "  No active background work."
    };
    let mut empty: Vec<Line> = Vec::new();
    push_line(&mut empty, Line::styled(text.to_owned(), Style::of(Role::Dim)));
    proof {
        assert(all.take(i as int) =~= all);
        assert(line_views(empty@) =~= seq![line(seq![span(text@, Style::of(Role::Dim))])]);
    }
    let mut lines: Vec<Line> = Vec::new();
    push_line(
        &mut lines,
        menu_title(
            "Background work",
            Some(
                if surface.show_past {
                    "past"
                } else {
                    "active"
                },
            ),
        ),
    );
    let mut widget: ListWidget = ListWidget::new(VISIBLE_MENU_ITEMS);
    widget.empty_rows = 1;
    append_lines(&mut lines, render_list(&items, empty, &state, widget, width, true));
    proof {
        assert(line_views(lines@) =~= background_rows(*surface, width as int));
    }
    lines
}

/// What a permission rule does.
#[derive(Clone, Copy, Debug, PartialEq, Eq, Structural)]
pub enum PermissionEffect {
    Allow,
    Ask,
    Deny,
}

/// A permission rule that lasts.
#[derive(Debug)]
pub struct PermissionMenuRow {
    pub scope: PermissionScope,
    pub effect: PermissionEffect,
    pub external: bool,
    pub access: Option<String>,
    pub tool: Option<String>,
    pub server: Option<String>,
    pub pattern: Option<String>,
    pub operation: Option<String>,
}

pub open spec fn effect_label(effect: PermissionEffect) -> Seq<char> {
    match effect {
        PermissionEffect::Allow => "allow"@,
        PermissionEffect::Ask => "ask"@,
        PermissionEffect::Deny => "deny"@,
    }
}

/// The first of two texts that is there, or else a third.
pub open spec fn either(first: Option<String>, second: Option<String>, third: Seq<char>) -> Seq<
    char,
> {
    match first {
        Some(text) => text@,
        None => match second {
            Some(text) => text@,
            None => third,
        },
    }
}

fn pick<'a>(first: &'a Option<String>, second: &'a Option<String>, third: &'a str) -> (text: &'a str)
    ensures
        text@ == either(*first, *second, third@),
{
    match first {
        Some(text) => text.as_str(),
        None => match second {
            Some(text) => text.as_str(),
            None => third,
        },
    }
}

/// What a permission rule is about.
pub open spec fn rule_resource(row: PermissionMenuRow) -> Seq<char> {
    if row.external {
        match row.access {
            None => "external access"@,
            Some(access) => if access@ == "read"@ {
                "external read"@
            } else if access@ == "write"@ {
                "external write"@
            } else if access@ == "execute"@ {
                "external execute"@
            } else {
                "external access"@
            },
        }
    } else {
        either(row.tool, row.server, "all"@)
    }
}

/// A permission rule in its list.
pub open spec fn rule_line(row: PermissionMenuRow, selected: bool) -> LineView {
    let style = role_when(selected, Role::Selected);
    line(
        seq![
            span(marker(selected), style),
            span(
                row.scope.label_spec() + " \u{b7} "@ + effect_label(row.effect) + " \u{b7} "@
                    + rule_resource(row),
                style,
            ),
            span("  "@ + either(row.pattern, row.operation, "all resources"@), Style::of(Role::Dim)),
        ],
    )
}

fn render_rule(row: &PermissionMenuRow, selected: bool) -> (shown: Line)
    ensures
        shown@ == rule_line(*row, selected),
{
    let style: Style = style_when(selected, Role::Selected);
    let effect: &str = match row.effect {
        PermissionEffect::Allow => "allow",
        PermissionEffect::Ask => "ask",
        PermissionEffect::Deny => "deny",
    };
    let resource: &str = if row.external {
        match &row.access {
            None => "external access",
            Some(access) => if same_text(access.as_str(), "read") {
                "external read"
            } else if same_text(access.as_str(), "write") {
                "external write"
            } else if same_text(access.as_str(), "execute") {
                "external execute"
            } else {
                "external access"
            },
        }
    } else {
        pick(&row.tool, &row.server, "all")
    };
    let head: String = concat3(row.scope.label(), " \u{b7} ", effect);
    let mut shown = Line::new();
    shown.push_str(marker_text(selected), style);
    shown.push(concat3(head.as_str(), " \u{b7} ", resource), style);
    shown.push(
        concat("  ", pick(&row.pattern, &row.operation, "all resources")),
        Style::of(Role::Dim),
    );
    proof {
        assert(shown@.spans =~= rule_line(*row, selected).spans);
    }
    shown
}

/// The items of the list of permission rules.
pub open spec fn rule_items(
    rows: Seq<PermissionMenuRow>,
    selected: Option<usize>,
) -> Seq<LineView> {
    Seq::new(
        rows.len() + 1,
        |i: int|
            if i == 0 {
                let style = role_when(selected == Some(0usize), Role::Selected);
                line(
                    seq![
                        span(marker(selected == Some(0usize)), style),
                        span("Close"@, style),
                    ],
                )
            } else {
                rule_line(rows[i - 1], selected == Some(i as usize))
            },
    )
}

/// The rows of the list of permission rules.
pub open spec fn permissions_rows(rows: Seq<PermissionMenuRow>, list: ListState, width: int) -> Seq<
    LineView,
> {
    let state = list.reconciled(rows.len() as int + 1, VISIBLE_MENU_ITEMS as int);
    let shown = full_menu(
        title_line("Permissions"@, None),
        rule_items(rows, state.selected),
        state,
        width,
        false,
    );
    if rows.len() == 0 {
        shown.push(dim_line("  No persistent permissions set."@)).push(blank_line())
    } else {
        shown
    }
}

pub fn permission_menu_lines(rows: &[PermissionMenuRow], list: &ListState, width: u16) -> (lines:
    Vec<Line>)
    requires
        rows@.len() < usize::MAX,
    ensures
        line_views(lines@) == permissions_rows(rows@, *list, width as int),
{
    let mut state: ListState = *list;
    state.reconcile(rows.len() + 1, VISIBLE_MENU_ITEMS);
    let ghost all = rule_items(rows@, state.selected);
    let mut items: Vec<Line> = Vec::new();
    let first: bool = is_at(state.selected, 0);
    let style: Style = style_when(first, Role::Selected);
    let mut close = Line::new();
    close.push_str(marker_text(first), style);
    close.push_str("Close", style);
    proof {
        assert(close@.spans =~= seq![span(marker(first), style), span("Close"@, style)]);
    }
    push_line(&mut items, close);
    let mut i: usize = 0;
    proof {
        assert(line_views(items@) =~= all.take(1));
    }
    while i < rows.len()
        invariant
            i <= rows@.len() < usize::MAX,
            all == rule_items(rows@, state.selected),
            all.len() == rows@.len() + 1,
            items@.len() == i + 1,
            line_views(items@) == all.take(i + 1),
        decreases rows@.len() - i,
    {
        push_line(&mut items, render_rule(&rows[i], is_at(state.selected, i + 1)));
        i += 1;
        proof {
            assert(line_views(items@) =~= all.take(i + 1));
        }
    }
    proof {
        assert(all.take(i + 1) =~= all);
    }
    let mut lines = render_menu(menu_title("Permissions", None), items, state, width, false);
    if rows.len() == 0 {
        push_line(&mut lines, dimmed_line("  No persistent permissions set.".to_owned()));
        push_line(&mut lines, Line::new());
    }
    lines
}

/// How much was used: the numbers as they are shown.
#[derive(Debug)]
pub struct UsageSummary {
    pub calls: u64,
    pub input: Option<String>,
    pub cache_read: Option<String>,
    pub cache_write: Option<String>,
    pub output: Option<String>,
    /// The amount and its currency.
    pub cost: Option<(String, String)>,
}

/// A number, or a dash where it is not known.
pub open spec fn known_or_dash(value: Option<String>) -> Seq<char> {
    match value {
        None => "\u{2014}"@,
        Some(text) => text@,
    }
}

fn text_or_dash(value: &Option<String>) -> (text: &str)
    ensures
        text@ == known_or_dash(*value),
{
    match value {
        None => "\u{2014}",
        Some(text) => text.as_str(),
    }
}

/// How much was used, in words.
pub open spec fn usage_text(usage: UsageSummary) -> Seq<char> {
    let counts = decimal(usage.calls as nat) + " calls \u{b7} in "@ + known_or_dash(usage.input)
        + " \u{b7} cache r:"@ + known_or_dash(usage.cache_read) + " w:"@ + known_or_dash(
        usage.cache_write,
    ) + " \u{b7} out "@ + known_or_dash(usage.output);
    match usage.cost {
        None => counts,
        Some((amount, currency)) => if currency@ == "USD"@ {
            counts + " \u{b7} $"@ + amount@
        } else {
            counts + " \u{b7} "@ + amount@ + " "@ + currency@
        },
    }
}

pub fn usage_summary(usage: &UsageSummary) -> (text: String)
    ensures
        text@ == usage_text(*usage),
{
    let mut text: String = decimal_text(usage.calls);
    text.append(" calls \u{b7} in ");
    text.append(text_or_dash(&usage.input));
    text.append(" \u{b7} cache r:");
    text.append(text_or_dash(&usage.cache_read));
    text.append(" w:");
    text.append(text_or_dash(&usage.cache_write));
    text.append(" \u{b7} out ");
    text.append(text_or_dash(&usage.output));
    if let Some((amount, currency)) = &usage.cost {
        if same_text(currency.as_str(), "USD") {
            text.append(" \u{b7} $");
            text.append(amount.as_str());
        } else {
            text.append(" \u{b7} ");
            text.append(amount.as_str());
            text.append(" ");
            text.append(currency.as_str());
        }
    }
    text
}

/// How much was used, by time.
#[derive(Debug)]
pub struct UsageOverview {
    pub current_conversation: UsageSummary,
    pub rolling_24_hours: UsageSummary,
    pub rolling_7_days: UsageSummary,
    pub rolling_30_days: UsageSummary,
    pub total: UsageSummary,
}

/// A text filled up with spaces to a number of characters.
pub open spec fn padded(text: Seq<char>, count: int) -> Seq<char> {
    text + spaces(less(count, text.len() as int))
}

fn pad_right(text: &str, count: usize) -> (padded_text: String)
    ensures
        padded_text@ == padded(text@, count as int),
{
    let missing: usize = count.saturating_sub(text.unicode_len());
    concat(text, blanks(missing).as_str())
}

/// How much was used, with a label.
pub open spec fn usage_line(label: Seq<char>, usage: UsageSummary) -> LineView {
    line(
        seq![
            span("  "@ + padded(label, 20), Style::of(Role::MenuDetail)),
            span("  "@ + usage_text(usage), Style::plain()),
        ],
    )
}

fn render_usage(label: &str, usage: &UsageSummary) -> (row: Line)
    ensures
        row@ == usage_line(label@, *usage),
{
    let mut row = Line::new();
    row.push(concat("  ", pad_right(label, 20).as_str()), Style::of(Role::MenuDetail));
    row.push(concat("  ", usage_summary(usage).as_str()), Style::plain());
    proof {
        assert(row@.spans =~= usage_line(label@, *usage).spans);
    }
    row
}

/// The rows of the usage page.
pub open spec fn usage_rows(overview: UsageOverview, list: ListState, width: int) -> Seq<LineView> {
    seq![
        title_line("Usage"@, None),
        blank_line(),
        usage_line("Current conversation"@, overview.current_conversation),
        usage_line("Last 24 hours"@, overview.rolling_24_hours),
        usage_line("Last 7 days"@, overview.rolling_7_days),
        usage_line("Last 30 days"@, overview.rolling_30_days),
        usage_line("Total"@, overview.total),
    ] + list_rows(
        choices_of(
            seq![
                ("Close"@, ""@),
                ("Reset"@, ""@),
                ("View per project"@, ""@),
                ("View per model"@, ""@),
            ],
            list.selected,
        ),
        Seq::empty(),
        list,
        ListWidget::of(VISIBLE_MENU_ITEMS as int),
        width,
        false,
    )
}

pub fn usage_menu_lines(overview: &UsageOverview, list: &ListState, width: u16) -> (lines: Vec<Line>)
    requires
        list.item_count == 4,
        list.offset <= 4,
    ensures
        line_views(lines@) == usage_rows(*overview, *list, width as int),
{
    let mut lines: Vec<Line> = Vec::new();
    push_line(&mut lines, menu_title("Usage", None));
    push_line(&mut lines, Line::new());
    push_line(&mut lines, render_usage("Current conversation", &overview.current_conversation));
    push_line(&mut lines, render_usage("Last 24 hours", &overview.rolling_24_hours));
    push_line(&mut lines, render_usage("Last 7 days", &overview.rolling_7_days));
    push_line(&mut lines, render_usage("Last 30 days", &overview.rolling_30_days));
    push_line(&mut lines, render_usage("Total", &overview.total));
    let choices = [("Close", ""), ("Reset", ""), ("View per project", ""), ("View per model", "")];
    let items = choice_lines(&choices, list.selected);
    let empty: Vec<Line> = Vec::new();
    proof {
        assert(pair_views(choices@) =~= seq![
            ("Close"@, ""@),
            ("Reset"@, ""@),
            ("View per project"@, ""@),
            ("View per model"@, ""@),
        ]);
        assert(line_views(empty@) =~= Seq::empty());
    }
    append_lines(
        &mut lines,
        render_list(&items, empty, list, ListWidget::new(VISIBLE_MENU_ITEMS), width, false),
    );
    proof {
        assert(line_views(lines@) =~= usage_rows(*overview, *list, width as int));
    }
    lines
}

/// Each piece of background work stays on one row, so that what is visible is what the
/// list counts: behind the title and an indicator, the visible items follow one
/// another.
pub proof fn law_work_stays_on_one_row(surface: BackgroundSurface, width: int, item: int)
    requires
        ({
            let state = surface.settled_list();
            state.offset <= item < state.visible_end_spec(VISIBLE_MENU_ITEMS as int)
        }),
    ensures
        ({
            let state = surface.settled_list();
            let visible = shown_work(surface.rows@, surface.show_past);
            let items = work_items(surface.rows@, visible, state.selected, width);
            let end = state.visible_end_spec(VISIBLE_MENU_ITEMS as int);
            let rows = background_rows(surface, width);
            &&& rows.len() == 3 + (end - state.offset)
            &&& rows[2 + (item - state.offset)] == cut_line(items[item], width)
        }),
{
    let state = surface.settled_list();
    let visible = shown_work(surface.rows@, surface.show_past);
    let items = work_items(surface.rows@, visible, state.selected, width);
    let end = state.visible_end_spec(VISIBLE_MENU_ITEMS as int);
    lemma_cut_rows(items, state.offset as int, end, width);
    assert(cut_line(items[item], width) == window_rows(
        items,
        state.offset as int,
        end,
        width,
        true,
    )[item - state.offset]);
}

} // verus!
