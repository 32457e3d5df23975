//! What holds of the rows of every surface and of what a pointer meets on them.

use vstd::prelude::*;
use crate::agent_log_layout::AgentLogLayout;
use crate::agents::{AgentWizardStep, SkillWizardStep};
use crate::dialogs::{
    note_columns, note_placeholder, note_row, note_rows, note_rows_shown, note_state, option_rows,
};
use crate::expanded::{
    body_shows, body_state, body_widget, content_shows, expanded_rows, header_kept, inset_line,
    is_used, lemma_rows_kept, retitled, text_metrics, view_shown, ExpandedTextCacheKey,
    ExpandedTextContent, ExpandedTextRenderCache,
};
use crate::input_syntax::CodeToken;
use crate::interaction::{note_text, Question};
use crate::layout::SurfaceScrollRegion;
use crate::list::{
    equal_heights, lemma_hits_cover, lemma_item_hits_len, min, settled, total_height,
    VISIBLE_HELP_ITEMS, VISIBLE_MENU_ITEMS, ListHit, ListState, ListWidget,
};
use crate::menu::{
    fitted, lemma_lists_cover, lemma_single_rows, lemma_window_rows_some, less, list_rows,
    window_rows,
};
use crate::multiline_input::{editor_rows, following, row_at, text_columns, text_rows};
use crate::permission::{
    choice_rows, padded_rows, permission_prefix, permission_rows, permission_suffix, preview_rows,
};
use crate::pickers::{conversation_indices, tab_rows};
use crate::render_mcp::{detail_capacity, mutation_details, mutation_menu};
use crate::render_menus::{editor_capacity, parent_items, prompt_placeholder, scrolled_rows};
use crate::render_pickers::{conversation_items, help_line};
use crate::render_settings::{lemma_setting_window, setting_window};
use crate::scroll::{ScrollViewMetrics, ScrollViewState, ScrollViewWidget};
use crate::settings::item_capacity;
use crate::single_line_input::InputView;
use crate::style::{capped, line_views, LineView};
use crate::surface::{diff_rows, showable, surface_rows, Surface, SurfaceContext};
use crate::surface_hits::{list_hits, list_place, option_heights, parent_heights};
use crate::surface_layout::{editor_place, layout_of, note_place, scroll_hits, ScrollPlace};

verus! {

/// Whether what a pointer meets from some row on lies on `count` rows.
pub open spec fn lies_within(hits: Option<(int, Seq<ListHit>)>, count: int) -> bool {
    match hits {
        None => true,
        Some((start, hits)) => 0 <= start && start + hits.len() <= count,
    }
}

/// A list on a surface has the rows of its hits, as far as its rows show its items.
proof fn lemma_lists_have_their_hits()
    ensures
        forall|
            items: Seq<LineView>,
            empty: Seq<LineView>,
            state: ListState,
            widget: ListWidget,
            width: int,
            truncate: bool,
        |
            widget.empty_rows == empty.len() ==> (#[trigger] list_rows(
                items,
                empty,
                state,
                widget,
                width,
                truncate,
            )).len() >= widget.hits_spec(state, equal_heights(1, state.item_count as int)).len(),
{
    lemma_lists_cover();
    assert forall|
        items: Seq<LineView>,
        empty: Seq<LineView>,
        state: ListState,
        widget: ListWidget,
        width: int,
        truncate: bool,
    |
        widget.empty_rows == empty.len() implies (#[trigger] list_rows(
        items,
        empty,
        state,
        widget,
        width,
        truncate,
    )).len() >= widget.hits_spec(state, equal_heights(1, state.item_count as int)).len() by {
        lemma_hits_cover(state, widget);
    }
}

#[verifier::rlimit(30)]
proof fn lemma_provider_list_within(
    surface: Surface,
    context: SurfaceContext,
    width: int,
    viewport_rows: int,
)
    requires
        surface is Providers || surface is Models,
        0 <= viewport_rows <= usize::MAX,
        showable(surface, context),
    ensures
        lies_within(
            list_hits(surface, context, width, viewport_rows),
            surface_rows(surface, context, width, viewport_rows).len() as int,
        ),
{
    lemma_lists_have_their_hits();
}

#[verifier::rlimit(30)]
proof fn lemma_search_list_within(
    surface: Surface,
    context: SurfaceContext,
    width: int,
    viewport_rows: int,
)
    requires
        surface is Effort || surface is WebSearchPicker,
        0 <= viewport_rows <= usize::MAX,
        showable(surface, context),
    ensures
        lies_within(
            list_hits(surface, context, width, viewport_rows),
            surface_rows(surface, context, width, viewport_rows).len() as int,
        ),
{
    lemma_lists_have_their_hits();
}

#[verifier::rlimit(30)]
proof fn lemma_menu_list_within(
    surface: Surface,
    context: SurfaceContext,
    width: int,
    viewport_rows: int,
)
    requires
        surface is Profiles || surface is Skills || surface is SkillWizard || surface is Worktrees
            || surface is AgentEdit || surface is SkillDeleteConfirm
            || surface is KillSupervisedWork,
        0 <= viewport_rows <= usize::MAX,
        showable(surface, context),
    ensures
        lies_within(
            list_hits(surface, context, width, viewport_rows),
            surface_rows(surface, context, width, viewport_rows).len() as int,
        ),
{
    lemma_lists_have_their_hits();
}

#[verifier::rlimit(30)]
proof fn lemma_form_list_within(
    surface: Surface,
    context: SurfaceContext,
    width: int,
    viewport_rows: int,
)
    requires
        surface is McpMutationPreview || surface is McpAddScope || surface is McpTransport
            || surface is McpForm,
        0 <= viewport_rows <= usize::MAX,
        showable(surface, context),
    ensures
        lies_within(
            list_hits(surface, context, width, viewport_rows),
            surface_rows(surface, context, width, viewport_rows).len() as int,
        ),
{
    lemma_lists_have_their_hits();
}

#[verifier::rlimit(30)]
proof fn lemma_work_list_within(
    surface: Surface,
    context: SurfaceContext,
    width: int,
    viewport_rows: int,
)
    requires
        surface is Paths || surface is SupervisedWork || surface is McpTools,
        0 <= viewport_rows <= usize::MAX,
        showable(surface, context),
    ensures
        lies_within(
            list_hits(surface, context, width, viewport_rows),
            surface_rows(surface, context, width, viewport_rows).len() as int,
        ),
{
    lemma_lists_have_their_hits();
}

#[verifier::rlimit(30)]
proof fn lemma_setting_list_within(
    surface: Surface,
    context: SurfaceContext,
    width: int,
    viewport_rows: int,
)
    requires
        surface is SettingChoices || surface is StatusLine,
        0 <= viewport_rows <= usize::MAX,
        showable(surface, context),
    ensures
        lies_within(
            list_hits(surface, context, width, viewport_rows),
            surface_rows(surface, context, width, viewport_rows).len() as int,
        ),
{
    lemma_lists_have_their_hits();
}

#[verifier::rlimit(30)]
proof fn lemma_server_list_within(
    surface: Surface,
    context: SurfaceContext,
    width: int,
    viewport_rows: int,
)
    requires
        surface is McpServers || surface is McpCatalog,
        0 <= viewport_rows <= usize::MAX,
        showable(surface, context),
    ensures
        lies_within(
            list_hits(surface, context, width, viewport_rows),
            surface_rows(surface, context, width, viewport_rows).len() as int,
        ),
{
    lemma_lists_have_their_hits();
}

#[verifier::rlimit(30)]
proof fn lemma_package_list_within(
    surface: Surface,
    context: SurfaceContext,
    width: int,
    viewport_rows: int,
)
    requires
        surface is McpServer || surface is McpPackageSetup || surface is McpRemoveConfirm,
        0 <= viewport_rows <= usize::MAX,
        showable(surface, context),
    ensures
        lies_within(
            list_hits(surface, context, width, viewport_rows),
            surface_rows(surface, context, width, viewport_rows).len() as int,
        ),
{
    lemma_lists_have_their_hits();
}

#[verifier::rlimit(30)]
proof fn lemma_conversation_list_within(
    surface: Surface,
    context: SurfaceContext,
    width: int,
    viewport_rows: int,
)
    requires
        surface is Conversations,
        0 <= viewport_rows <= usize::MAX,
        showable(surface, context),
    ensures
        lies_within(
            list_hits(surface, context, width, viewport_rows),
            surface_rows(surface, context, width, viewport_rows).len() as int,
        ),
{
    if let Surface::Conversations(picker) = surface {
        let visible = conversation_indices(picker.rows@, picker.query@);
        let place = list_place(surface, context, viewport_rows)->0;
        let items = conversation_items(picker.rows@, visible, place.state.selected, width);
        lemma_window_rows_some(
            items,
            place.state.offset as int,
            place.state.visible_end_spec(place.widget.capacity as int),
            width,
            false,
        );
        lemma_hits_cover(place.state, place.widget);
    }
}

#[verifier::rlimit(30)]
proof fn lemma_history_list_within(
    surface: Surface,
    context: SurfaceContext,
    width: int,
    viewport_rows: int,
)
    requires
        surface is HistoryTree,
        0 <= viewport_rows <= usize::MAX,
        showable(surface, context),
    ensures
        lies_within(
            list_hits(surface, context, width, viewport_rows),
            surface_rows(surface, context, width, viewport_rows).len() as int,
        ),
{
    lemma_lists_have_their_hits();
    match list_place(surface, context, viewport_rows) {
        None => {},
        Some(place) => {
            lemma_hits_cover(place.state, place.widget);
        },
    }
}

proof fn lemma_heights_of_twos(count: int, start: int, end: int)
    requires
        0 <= start <= end <= count,
    ensures
        total_height(equal_heights(2, count), start, end) == 2 * (end - start),
    decreases end - start,
{
    if start < end {
        lemma_heights_of_twos(count, start, end - 1);
    }
}

proof fn lemma_settings_list_within(
    surface: Surface,
    context: SurfaceContext,
    width: int,
    viewport_rows: int,
)
    requires
        surface is Settings,
        0 <= viewport_rows <= usize::MAX,
        showable(surface, context),
    ensures
        lies_within(
            list_hits(surface, context, width, viewport_rows),
            surface_rows(surface, context, width, viewport_rows).len() as int,
        ),
{
    if let Surface::Settings(settings) = surface {
        let searching = settings.query@.len() > 0;
        let room = item_capacity(searching);
        assert(context.visible@.len() == context.visible.len());
        let count = context.visible@.len() as int;
        let state = settings.list.reconciled(count, room);
        let end = state.visible_end_spec(room);
        lemma_item_hits_len(equal_heights(2, count), state.offset as int, end);
        if count > 0 {
            let window = setting_window(
                settings.rows@,
                context.visible@,
                state.selected,
                state.offset as int,
                end,
            );
            lemma_heights_of_twos(count, state.offset as int, end);
            lemma_setting_window(
                settings.rows@,
                context.visible@,
                state.selected,
                state.offset as int,
                end,
            );
            lemma_single_rows(window, 0, window.len() as int, width, true);
        }
    }
}

/// The items of a list take the rows that are counted for each, if these can be counted.
proof fn lemma_counted_rows(
    items: Seq<LineView>,
    heights: Seq<usize>,
    start: int,
    end: int,
    width: int,
    truncate: bool,
)
    requires
        0 <= start,
        end <= items.len() == heights.len(),
        forall|i: int|
            0 <= i < items.len() ==> #[trigger] heights[i] == fitted(
                items[i],
                width,
                truncate,
            ).len() as usize,
        window_rows(items, start, end, width, truncate).len() <= usize::MAX,
    ensures
        total_height(heights, start, end) == window_rows(items, start, end, width, truncate).len(),
    decreases end - start,
{
    if start < end {
        lemma_counted_rows(items, heights, start, end - 1, width, truncate);
        assert(heights[end - 1] == fitted(items[end - 1], width, truncate).len() as usize);
    }
}

proof fn lemma_agent_list_within(
    surface: Surface,
    context: SurfaceContext,
    width: int,
    viewport_rows: int,
)
    requires
        surface is AgentWizard,
        0 <= viewport_rows <= usize::MAX,
        showable(surface, context),
        surface_rows(surface, context, width, viewport_rows).len() <= usize::MAX,
    ensures
        lies_within(
            list_hits(surface, context, width, viewport_rows),
            surface_rows(surface, context, width, viewport_rows).len() as int,
        ),
{
    lemma_lists_have_their_hits();
    if let Surface::AgentWizard(wizard) = surface {
        if wizard.step == AgentWizardStep::Parent {
            let state = wizard.parent_list.reconciled(
                wizard.parents@.len() as int,
                VISIBLE_MENU_ITEMS as int,
            );
            let heights = parent_heights(wizard, state, width);
            let end = state.visible_end_spec(VISIBLE_MENU_ITEMS as int);
            lemma_item_hits_len(heights, state.offset as int, end);
            if state.item_count > 0 {
                lemma_counted_rows(
                    parent_items(wizard.parents@, state.selected),
                    heights,
                    state.offset as int,
                    end,
                    width,
                    wizard.editing,
                );
            }
        }
    }
}

proof fn lemma_option_rows(
    question: Question,
    none: Seq<char>,
    count: int,
    selected: Option<usize>,
    width: int,
)
    requires
        0 <= count <= question.questions@[question.question_index as int].options@.len() + 1,
        option_rows(question, none, count, selected, width).len() <= usize::MAX,
    ensures
        option_rows(question, none, count, selected, width).len() == total_height(
            option_heights(question, none, width),
            0,
            count,
        ),
    decreases count,
{
    if count > 0 {
        lemma_option_rows(question, none, count - 1, selected, width);
    }
}

#[verifier::rlimit(30)]
proof fn lemma_question_list_within(
    surface: Surface,
    context: SurfaceContext,
    width: int,
    viewport_rows: int,
)
    requires
        surface is Question,
        0 <= viewport_rows <= usize::MAX,
        showable(surface, context),
        surface_rows(surface, context, width, viewport_rows).len() <= usize::MAX,
    ensures
        lies_within(
            list_hits(surface, context, width, viewport_rows),
            surface_rows(surface, context, width, viewport_rows).len() as int,
        ),
{
    if let Surface::Question(question) = surface {
        let none = context.none_of_the_above@;
        let heights = option_heights(question, none, width);
        let count = heights.len() as int;
        let state = settled(count, question.option_index as int, 0, count);
        let rows = option_rows(question, none, count, state.selected, width);
        lemma_window_rows_some(rows, 0, rows.len() as int, width, false);
        lemma_option_rows(question, none, count, state.selected, width);
        lemma_item_hits_len(heights, 0, count);
    }
}

proof fn lemma_plan_list_within(
    surface: Surface,
    context: SurfaceContext,
    width: int,
    viewport_rows: int,
)
    requires
        surface is PlanCompletion,
        0 <= viewport_rows <= usize::MAX,
        showable(surface, context),
    ensures
        lies_within(
            list_hits(surface, context, width, viewport_rows),
            surface_rows(surface, context, width, viewport_rows).len() as int,
        ),
{
    lemma_lists_have_their_hits();
}

#[verifier::rlimit(30)]
proof fn lemma_permission_list_within(
    surface: Surface,
    context: SurfaceContext,
    width: int,
    viewport_rows: int,
)
    requires
        surface is Permission,
        0 <= viewport_rows <= usize::MAX,
        showable(surface, context),
    ensures
        lies_within(
            list_hits(surface, context, width, viewport_rows),
            surface_rows(surface, context, width, viewport_rows).len() as int,
        ),
{
}

proof fn lemma_help_list_within(
    surface: Surface,
    context: SurfaceContext,
    width: int,
    viewport_rows: int,
)
    requires
        surface is Help,
        0 <= viewport_rows <= usize::MAX,
        showable(surface, context),
    ensures
        lies_within(
            list_hits(surface, context, width, viewport_rows),
            surface_rows(surface, context, width, viewport_rows).len() as int,
        ),
{
}

/// What a pointer meets of a list lies on the rows of its surface: no hit stands past the
/// last row that is shown.
pub proof fn law_lists_lie_within_their_surfaces(
    surface: Surface,
    context: SurfaceContext,
    width: int,
    viewport_rows: int,
)
    requires
        0 <= viewport_rows <= usize::MAX,
        showable(surface, context),
        surface_rows(surface, context, width, viewport_rows).len() <= usize::MAX,
    ensures
        lies_within(
            list_hits(surface, context, width, viewport_rows),
            surface_rows(surface, context, width, viewport_rows).len() as int,
        ),
{
    match surface {
        Surface::Providers(_)
        | Surface::Models { .. } => {
            lemma_provider_list_within(surface, context, width, viewport_rows);
        },
        Surface::Effort { .. }
        | Surface::WebSearchPicker(_) => {
            lemma_search_list_within(surface, context, width, viewport_rows);
        },
        Surface::Profiles { .. }
        | Surface::Skills { .. }
        | Surface::SkillWizard(_)
        | Surface::Worktrees { .. }
        | Surface::AgentEdit { .. }
        | Surface::SkillDeleteConfirm { .. }
        | Surface::KillSupervisedWork { .. } => {
            lemma_menu_list_within(surface, context, width, viewport_rows);
        },
        Surface::McpMutationPreview { .. }
        | Surface::McpAddScope { .. }
        | Surface::McpTransport { .. }
        | Surface::McpForm { .. } => {
            lemma_form_list_within(surface, context, width, viewport_rows);
        },
        Surface::Paths { .. }
        | Surface::SupervisedWork(_)
        | Surface::McpTools(_) => {
            lemma_work_list_within(surface, context, width, viewport_rows);
        },
        Surface::SettingChoices { .. }
        | Surface::StatusLine(_) => {
            lemma_setting_list_within(surface, context, width, viewport_rows);
        },
        Surface::McpServers { .. }
        | Surface::McpCatalog { .. } => {
            lemma_server_list_within(surface, context, width, viewport_rows);
        },
        Surface::McpServer { .. }
        | Surface::McpPackageSetup { .. }
        | Surface::McpRemoveConfirm { .. } => {
            lemma_package_list_within(surface, context, width, viewport_rows);
        },
        Surface::Conversations(_) => {
            lemma_conversation_list_within(surface, context, width, viewport_rows);
        },
        Surface::HistoryTree(_) => {
            lemma_history_list_within(surface, context, width, viewport_rows);
        },
        Surface::Settings(_) => {
            lemma_settings_list_within(surface, context, width, viewport_rows);
        },
        Surface::AgentWizard(_) => {
            lemma_agent_list_within(surface, context, width, viewport_rows);
        },
        Surface::Question(_) => {
            lemma_question_list_within(surface, context, width, viewport_rows);
        },
        Surface::PlanCompletion { .. } => {
            lemma_plan_list_within(surface, context, width, viewport_rows);
        },
        Surface::Permission { .. } => {
            lemma_permission_list_within(surface, context, width, viewport_rows);
        },
        Surface::Help(_) => {
            lemma_help_list_within(surface, context, width, viewport_rows);
        },
        _ => {},
    }
}

/// The row of a scroll view that shows `content`; the rows of a note are marked.
pub open spec fn view_row(
    widget: ScrollViewWidget,
    state: ScrollViewState,
    content: Seq<LineView>,
    note: bool,
    row: int,
) -> LineView {
    let drawn = widget.lines_spec(state, content)[row];
    if note { note_row(drawn, widget.hits_spec(state)[row], row == 1) } else { drawn }
}

/// Whether the rows at a place are those of a scroll view that shows `content`, a part of
/// `count` rows: what a pointer meets there, and the geometry, are those of the rows
/// that are drawn.
pub open spec fn draws(
    rows: Seq<LineView>,
    place: ScrollPlace,
    widget: ScrollViewWidget,
    state: ScrollViewState,
    content: Seq<LineView>,
    count: int,
    note: bool,
) -> bool {
    &&& 0 <= place.prefix
    &&& place.hits == widget.hits_spec(state)
    &&& place.hits.len() == widget.lines_spec(state, content).len()
    &&& place.metrics == ScrollViewMetrics::of(count, widget.capacity as int)
    &&& state.content_rows == count as usize
    &&& forall|row: int|
        0 <= row < place.hits.len() && place.prefix + row < rows.len()
            ==> #[trigger] rows[place.prefix + row] == view_row(widget, state, content, note, row)
}

/// Whether the rows of an editor that fills what is left are cut off below.
pub open spec fn is_cut(surface: Surface, viewport_rows: int) -> bool {
    (surface is AgentWizard || surface is McpJsonEdit) && viewport_rows < 4
}

/// Whether the scroll view of a surface is drawn where it is met.
pub open spec fn region_is_drawn(
    surface: Surface,
    context: SurfaceContext,
    width: int,
    viewport_rows: int,
) -> bool {
    let rows = surface_rows(surface, context, width, viewport_rows);
    match scroll_hits(surface, context, width, viewport_rows) {
        None => true,
        Some(place) => {
            &&& exists|
                widget: ScrollViewWidget,
                state: ScrollViewState,
                content: Seq<LineView>,
                count: int,
                note: bool,
            | #[trigger] draws(rows, place, widget, state, content, count, note)
            &&& !is_cut(surface, viewport_rows) ==> place.prefix + place.hits.len() <= rows.len()
        },
    }
}

/// Whether the rows of an expanded view are those of a view with as many rows above its
/// body as the surface counts.
pub open spec fn view_agrees(
    surface: Surface,
    context: SurfaceContext,
    panel_rows: int,
) -> bool {
    match surface {
        Surface::Expanded { kind, header_rows, body_rows, scroll, viewport_rows } => kind is Terminal
            || exists|header: Seq<LineView>, visible: Seq<LineView>, inset: bool|
            header.len() == header_rows && line_views(context.expanded@)
                == #[trigger] expanded_rows(
                header,
                body_rows as int,
                visible,
                inset,
                scroll as int,
                viewport_rows as int,
                panel_rows,
            ),
        _ => true,
    }
}

/// What an editor shows in its rows.
spec fn editor_content(
    input: InputView,
    tokens: Seq<CodeToken>,
    width: int,
    capacity: int,
    placeholder: Option<LineView>,
) -> Seq<LineView> {
    let rows = text_rows(input.text, 0, text_columns(width));
    let state = following(rows.len() as int, row_at(rows, input.at), capacity);
    if input.text.len() == 0 && placeholder is Some && capacity > 0 {
        seq![placeholder->0]
    } else {
        editor_rows(input, tokens, rows, state.offset as int, state.visible_end_spec(capacity))
    }
}

proof fn lemma_editor_is_drawn(
    rows: Seq<LineView>,
    input: InputView,
    tokens: Seq<CodeToken>,
    width: int,
    capacity: int,
    placeholder: Option<LineView>,
)
    requires
        0 <= capacity <= usize::MAX,
        forall|row: int|
            0 <= row < scrolled_rows(input, tokens, width, capacity, placeholder).len() && 1 + row
                < rows.len() ==> #[trigger] rows[1 + row] == scrolled_rows(
                input,
                tokens,
                width,
                capacity,
                placeholder,
            )[row],
    ensures
        exists|
            widget: ScrollViewWidget,
            state: ScrollViewState,
            content: Seq<LineView>,
            count: int,
            note: bool,
        |
            #[trigger] draws(
                rows,
                editor_place(input, width, capacity),
                widget,
                state,
                content,
                count,
                note,
            ),
        editor_place(input, width, capacity).hits.len() == scrolled_rows(
            input,
            tokens,
            width,
            capacity,
            placeholder,
        ).len(),
{
    let text = text_rows(input.text, 0, text_columns(width));
    let state = following(text.len() as int, row_at(text, input.at), capacity);
    let content = editor_content(input, tokens, width, capacity, placeholder);
    let widget = ScrollViewWidget::of(capacity);
    let place = editor_place(input, width, capacity);
    lemma_editor_height(input, tokens, width, capacity, placeholder);
    assert(scrolled_rows(input, tokens, width, capacity, placeholder) == widget.lines_spec(
        state,
        content,
    ));
    assert forall|row: int|
        0 <= row < place.hits.len() && place.prefix + row
            < rows.len() implies #[trigger] rows[place.prefix + row] == view_row(
        widget,
        state,
        content,
        false,
        row,
    ) by {
        assert(rows[1 + row] == widget.lines_spec(state, content)[row]);
    }
    assert(draws(rows, place, widget, state, content, text.len() as int, false));
}

/// An editor shows as many rows as a pointer meets.
proof fn lemma_editor_height(
    input: InputView,
    tokens: Seq<CodeToken>,
    width: int,
    capacity: int,
    placeholder: Option<LineView>,
)
    requires
        0 <= capacity <= usize::MAX,
    ensures
        ({
            let rows = text_rows(input.text, 0, text_columns(width));
            let state = following(rows.len() as int, row_at(rows, input.at), capacity);
            editor_content(input, tokens, width, capacity, placeholder).len()
                == state.visible_end_spec(capacity) - state.offset
        }),
{
    if input.text.len() == 0 {
        let rows = text_rows(input.text, 0, text_columns(width));
        assert(input.text.take(0) =~= input.text);
        assert(rows.len() == 1);
        assert(rows.drop_last() =~= Seq::empty());
        assert(row_at(rows.drop_last(), input.at) == 0);
        assert(row_at(rows, input.at) == 0);
    }
}

/// A note at the end of some rows is drawn where it is met.
proof fn lemma_note_is_drawn(rows: Seq<LineView>, note: Seq<char>, cursor: int, width: int)
    requires
        note_rows(InputView::of(note, cursor), width).is_suffix_of(rows),
    ensures
        exists|
            widget: ScrollViewWidget,
            state: ScrollViewState,
            content: Seq<LineView>,
            count: int,
            note_marked: bool,
        |
            #[trigger] draws(
                rows,
                note_place(note, cursor, width, rows.len() as int),
                widget,
                state,
                content,
                count,
                note_marked,
            ),
        ({
            let place = note_place(note, cursor, width, rows.len() as int);
            place.prefix + place.hits.len() <= rows.len()
        }),
{
    let input = InputView::of(note, cursor);
    let columns = note_columns(width);
    let capacity = note_rows_shown(note, width);
    let text = text_rows(note, 0, text_columns(columns));
    let state = note_state(input, width);
    let widget = ScrollViewWidget::of(capacity);
    let placeholder = Some(note_placeholder());
    let content = editor_content(input, Seq::empty(), columns, capacity, placeholder);
    let place = note_place(note, cursor, width, rows.len() as int);
    let drawn = note_rows(input, width);
    lemma_editor_height(input, Seq::empty(), columns, capacity, placeholder);
    assert(scrolled_rows(input, Seq::empty(), columns, capacity, placeholder)
        == widget.lines_spec(state, content));
    assert forall|row: int|
        0 <= row < place.hits.len() && place.prefix + row
            < rows.len() implies #[trigger] rows[place.prefix + row] == view_row(
        widget,
        state,
        content,
        true,
        row,
    ) by {
        assert(drawn[row] == rows[rows.len() - drawn.len() + row]);
    }
    assert(draws(rows, place, widget, state, content, text.len() as int, true));
}

proof fn lemma_editor_region_is_drawn(
    surface: Surface,
    context: SurfaceContext,
    width: int,
    viewport_rows: int,
)
    requires
        surface is AgentWizard || surface is McpJsonEdit || surface is SkillWizard,
        0 <= viewport_rows <= usize::MAX,
        showable(surface, context),
    ensures
        region_is_drawn(surface, context, width, viewport_rows),
{
    let rows = surface_rows(surface, context, width, viewport_rows);
    let capacity = editor_capacity(viewport_rows);
    match surface {
        Surface::AgentWizard(wizard) => {
            if wizard.step == AgentWizardStep::Prompt {
                lemma_editor_is_drawn(
                    rows,
                    wizard.prompt@,
                    Seq::empty(),
                    width,
                    capacity,
                    Some(prompt_placeholder()),
                );
            }
        },
        Surface::McpJsonEdit { location, separate_name, editor, tokens } => {
            lemma_editor_is_drawn(rows, editor@, tokens@, width, capacity, None);
        },
        Surface::SkillWizard(wizard) => {
            if wizard.step == SkillWizardStep::Content {
                lemma_editor_is_drawn(
                    rows,
                    wizard.content@,
                    Seq::empty(),
                    width,
                    VISIBLE_MENU_ITEMS as int,
                    None,
                );
            }
        },
        _ => {},
    }
}

proof fn lemma_question_region_is_drawn(
    surface: Surface,
    context: SurfaceContext,
    width: int,
    viewport_rows: int,
)
    requires
        surface is Question,
        0 <= viewport_rows <= usize::MAX,
        showable(surface, context),
    ensures
        region_is_drawn(surface, context, width, viewport_rows),
{
    if let Surface::Question(question) = surface {
        if question.editing_note {
            let rows = surface_rows(surface, context, width, viewport_rows);
            let note = note_text(question.answers@[question.question_index as int].note);
            lemma_note_is_drawn(rows, note, question.note_cursor as int, width);
        }
    }
}

proof fn lemma_plan_region_is_drawn(
    surface: Surface,
    context: SurfaceContext,
    width: int,
    viewport_rows: int,
)
    requires
        surface is PlanCompletion,
        0 <= viewport_rows <= usize::MAX,
        showable(surface, context),
    ensures
        region_is_drawn(surface, context, width, viewport_rows),
{
    if let Surface::PlanCompletion { plan, modes, colors, model, context_percent } = surface {
        if plan.editing_note {
            let rows = surface_rows(surface, context, width, viewport_rows);
            lemma_note_is_drawn(rows, plan.note@, plan.note_cursor as int, width);
        }
    }
}

/// What stands at the end of a prompt is shown whole where there is room for it and for
/// the choices above it.
proof fn lemma_end_of_prompt(
    prefix: Seq<LineView>,
    preview: Option<Seq<LineView>>,
    choices: Seq<LineView>,
    note: Seq<LineView>,
    scroll: int,
    viewport_rows: int,
)
    requires
        prefix.len() > 0,
        choices.len() > 0,
        choices.len() + note.len() <= viewport_rows <= usize::MAX,
    ensures
        note.is_suffix_of(
            permission_rows(prefix, preview, choices + note, scroll, viewport_rows),
        ),
{
    let suffix = choices + note;
    let rows = permission_rows(prefix, preview, suffix, scroll, viewport_rows);
    assert(rows.len() >= suffix.skip(1).len());
    assert(note =~= rows.skip(rows.len() - note.len()));
}

proof fn lemma_permission_note_is_drawn(
    surface: Surface,
    context: SurfaceContext,
    width: int,
    viewport_rows: int,
)
    requires
        surface is Permission,
        0 <= viewport_rows <= usize::MAX,
        showable(surface, context),
        surface->Permission_prompt.editing_note,
        permission_suffix(
            surface->Permission_prompt,
            surface->Permission_choices@,
            surface->Permission_prompt.selected as int,
            width,
        ).len() <= viewport_rows,
    ensures
        region_is_drawn(surface, context, width, viewport_rows),
{
    if let Surface::Permission { prompt, request, choices, answers } = surface {
        let rows = surface_rows(surface, context, width, viewport_rows);
        let note = note_rows(
            InputView::of(prompt.denial_note@, prompt.note_cursor as int),
            width,
        );
        let preview = preview_rows(request, diff_rows(context), width);
        let prefix = permission_prefix(request, preview is Some, width);
        lemma_end_of_prompt(
            prefix,
            preview,
            choice_rows(choices@, prompt.selected as int, width),
            note,
            prompt.diff_scroll as int,
            viewport_rows,
        );
        lemma_note_is_drawn(rows, prompt.denial_note@, prompt.note_cursor as int, width);
    }
}

/// A scroll view that stands behind some rows is drawn where it is met.
proof fn lemma_view_is_drawn(
    rows: Seq<LineView>,
    above: Seq<LineView>,
    below: Seq<LineView>,
    widget: ScrollViewWidget,
    state: ScrollViewState,
    content: Seq<LineView>,
    count: int,
    place: ScrollPlace,
)
    requires
        rows == above + widget.lines_spec(state, content) + below,
        content.len() == state.visible_end_spec(widget.capacity as int) - state.offset,
        state.content_rows == count as usize,
        place.prefix == above.len(),
        place.hits == widget.hits_spec(state),
        place.metrics == ScrollViewMetrics::of(count, widget.capacity as int),
    ensures
        draws(rows, place, widget, state, content, count, false),
        place.prefix + place.hits.len() <= rows.len(),
{
}

proof fn lemma_preview_region_is_drawn(
    surface: Surface,
    context: SurfaceContext,
    width: int,
    viewport_rows: int,
)
    requires
        surface is Permission,
        0 <= viewport_rows <= usize::MAX,
        showable(surface, context),
    ensures
        region_is_drawn(surface, context, width, viewport_rows),
{
    if let Surface::Permission { prompt, request, choices, answers } = surface {
        let rows = surface_rows(surface, context, width, viewport_rows);
        let suffix = permission_suffix(prompt, choices@, prompt.selected as int, width);
        let preview = preview_rows(request, diff_rows(context), width);
        let prefix = permission_prefix(request, preview is Some, width);
        let room = less(viewport_rows, (prefix.len() + suffix.len()) as int);
        if prompt.editing_note && suffix.len() <= viewport_rows {
            lemma_permission_note_is_drawn(surface, context, width, viewport_rows);
        } else if preview is Some && capped((prefix.len() + suffix.len()) as int) <= viewport_rows
            && room > 0 {
            let all = preview->0;
            let count = all.len() as int;
            let state = (ScrollViewState {
                offset: prompt.diff_scroll,
                content_rows: count as usize,
            }).reconciled(count, room);
            lemma_view_is_drawn(
                rows,
                prefix.drop_last(),
                suffix.skip(1),
                ScrollViewWidget::of(room),
                state,
                all.subrange(state.offset as int, state.visible_end_spec(room)),
                count,
                scroll_hits(surface, context, width, viewport_rows)->0,
            );
        }
    }
}

proof fn lemma_detail_region_is_drawn(
    surface: Surface,
    context: SurfaceContext,
    width: int,
    viewport_rows: int,
)
    requires
        surface is McpMutationPreview,
        0 <= viewport_rows <= usize::MAX,
        showable(surface, context),
    ensures
        region_is_drawn(surface, context, width, viewport_rows),
{
    if let Surface::McpMutationPreview { preview, list, details } = surface {
        let rows = surface_rows(surface, context, width, viewport_rows);
        let above = mutation_menu(preview, list, width);
        let all = mutation_details(preview);
        let capacity = detail_capacity(above.len() as int, viewport_rows);
        let state = details.reconciled(all.len() as int, capacity);
        let widget = ScrollViewWidget::of(capacity);
        let content = all.subrange(state.offset as int, state.visible_end_spec(capacity));
        assert(rows =~= above + widget.lines_spec(state, content) + Seq::empty());
        lemma_view_is_drawn(
            rows,
            above,
            Seq::empty(),
            widget,
            state,
            content,
            all.len() as int,
            scroll_hits(surface, context, width, viewport_rows)->0,
        );
    }
}

proof fn lemma_help_region_is_drawn(
    surface: Surface,
    context: SurfaceContext,
    width: int,
    viewport_rows: int,
)
    requires
        surface is Help,
        0 <= viewport_rows <= usize::MAX,
        showable(surface, context),
    ensures
        region_is_drawn(surface, context, width, viewport_rows),
{
    if let Surface::Help(help) = surface {
        let rows = surface_rows(surface, context, width, viewport_rows);
        let all = tab_rows(help, help.tab);
        let capacity = VISIBLE_HELP_ITEMS as int;
        let state = help.list.reconciled(all.len() as int, capacity);
        let widget = ScrollViewWidget::of(capacity);
        let content = Seq::new(
            less(state.visible_end_spec(capacity), state.offset as int) as nat,
            |i: int| help_line(all[state.offset + i], width),
        );
        assert(rows =~= rows.take(3) + widget.lines_spec(state, content) + Seq::empty());
        lemma_view_is_drawn(
            rows,
            rows.take(3),
            Seq::empty(),
            widget,
            state,
            content,
            all.len() as int,
            scroll_hits(surface, context, width, viewport_rows)->0,
        );
    }
}

proof fn lemma_expanded_region_is_drawn(
    surface: Surface,
    context: SurfaceContext,
    width: int,
    viewport_rows: int,
)
    requires
        surface is Expanded,
        0 <= viewport_rows <= usize::MAX,
        showable(surface, context),
        view_agrees(surface, context, viewport_rows),
    ensures
        region_is_drawn(surface, context, width, viewport_rows),
{
    if let Surface::Expanded {
        kind,
        header_rows,
        body_rows,
        scroll,
        viewport_rows: output_rows,
    } = surface {
        if !(kind is Terminal) {
            let rows = surface_rows(surface, context, width, viewport_rows);
            let (header, visible, inset) = choose|
                header: Seq<LineView>,
                visible: Seq<LineView>,
                inset: bool,
            |
                header.len() == header_rows && line_views(context.expanded@)
                    == #[trigger] expanded_rows(
                    header,
                    body_rows as int,
                    visible,
                    inset,
                    scroll as int,
                    output_rows as int,
                    viewport_rows,
                );
            let metrics = text_metrics(
                header_rows as int,
                body_rows as int,
                output_rows as int,
                viewport_rows,
            );
            let state = body_state(body_rows as int, scroll as int, metrics.1);
            let shown = padded_rows(
                visible,
                state.visible_end_spec(metrics.0) - state.offset,
            );
            let content = if inset {
                shown.map_values(|row: LineView| inset_line(row))
            } else {
                shown
            };
            let widget = body_widget(metrics.0);
            assert(rows =~= header_kept(header) + widget.lines_spec(state, content)
                + Seq::empty());
            lemma_view_is_drawn(
                rows,
                header_kept(header),
                Seq::empty(),
                widget,
                state,
                content,
                body_rows as int,
                scroll_hits(surface, context, width, viewport_rows)->0,
            );
        }
    }
}

/// The region in which a surface scrolls is where its scroll view is drawn: the rows of
/// the region are those of the view, its hits and its geometry are those of the rows that
/// are drawn, and no row of it is left out unless the surface itself is cut off.
pub proof fn law_scroll_regions_are_drawn(
    surface: Surface,
    context: SurfaceContext,
    width: int,
    viewport_rows: int,
)
    requires
        0 <= viewport_rows <= usize::MAX,
        showable(surface, context),
        view_agrees(surface, context, viewport_rows),
    ensures
        region_is_drawn(surface, context, width, viewport_rows),
{
    match surface {
        Surface::AgentWizard(_) | Surface::McpJsonEdit { .. } | Surface::SkillWizard(_) => {
            lemma_editor_region_is_drawn(surface, context, width, viewport_rows);
        },
        Surface::Question(_) => {
            lemma_question_region_is_drawn(surface, context, width, viewport_rows);
        },
        Surface::PlanCompletion { .. } => {
            lemma_plan_region_is_drawn(surface, context, width, viewport_rows);
        },
        Surface::Permission { .. } => {
            lemma_preview_region_is_drawn(surface, context, width, viewport_rows);
        },
        Surface::McpMutationPreview { .. } => {
            lemma_detail_region_is_drawn(surface, context, width, viewport_rows);
        },
        Surface::Help(_) => {
            lemma_help_region_is_drawn(surface, context, width, viewport_rows);
        },
        Surface::Expanded { .. } => {
            lemma_expanded_region_is_drawn(surface, context, width, viewport_rows);
        },
        _ => {},
    }
}

/// A layout scrolls in the rows of its surface's scroll view that are shown, and nowhere
/// where there is none.
pub proof fn law_layouts_scroll_where_views_are(
    surface: Surface,
    context: SurfaceContext,
    width: int,
    viewport_rows: int,
)
    ensures
        layout_of(surface, context, width, viewport_rows).scroll_region == (match scroll_hits(
            surface,
            context,
            width,
            viewport_rows,
        ) {
            None => None,
            Some(place) => Some(
                SurfaceScrollRegion {
                    start: place.prefix as usize,
                    end: min(
                        capped((place.prefix + place.hits.len()) as int),
                        surface_rows(surface, context, width, viewport_rows).len() as int,
                    ) as usize,
                    metrics: place.metrics,
                },
            ),
        }),
{
}

/// The rows of an expanded view, shown on a surface with the counts of the view, agree with
/// the surface: its scroll region is where the view's body is drawn.
pub proof fn law_shown_views_agree<
    F: FnOnce(AgentLogLayout) -> (ExpandedTextContent, AgentLogLayout),
>(
    before: Option<ExpandedTextRenderCache>,
    after: Option<ExpandedTextRenderCache>,
    key: ExpandedTextCacheKey,
    keep_file: bool,
    layout: F,
    title: Option<LineView>,
    surface: Surface,
    context: SurfaceContext,
    width: int,
    panel_rows: int,
)
    requires
        0 <= panel_rows <= usize::MAX,
        surface is Expanded,
        view_shown(
            before,
            after,
            key,
            keep_file,
            layout,
            title,
            surface->Expanded_scroll as int,
            surface->Expanded_viewport_rows as int,
            panel_rows,
            line_views(context.expanded@),
        ),
        surface->Expanded_header_rows == after->0.content.header@.len(),
        surface->Expanded_body_rows == after->0.content.body.rows(),
    ensures
        view_agrees(surface, context, panel_rows),
        region_is_drawn(surface, context, width, panel_rows),
{
    if let Surface::Expanded { kind, header_rows, body_rows, scroll, viewport_rows } = surface {
        let lines = line_views(context.expanded@);
        let (used, shown) = choose|used: ExpandedTextContent, shown: ExpandedTextContent|
            {
                &&& #[trigger] is_used(before, key, keep_file, layout, used, after->0.agent)
                &&& #[trigger] content_shows(
                    shown,
                    after->0.content,
                    scroll as int,
                    viewport_rows as int,
                    panel_rows,
                    lines,
                )
                &&& shown.body == used.body
                &&& shown.inset == used.inset
                &&& line_views(shown.header@) == retitled(line_views(used.header@), title)
                &&& after->0.content.header == shown.header
                &&& after->0.content.inset == shown.inset
            };
        let rows = shown.body.rows();
        let metrics = text_metrics(
            shown.header@.len() as int,
            rows,
            viewport_rows as int,
            panel_rows,
        );
        let visible = choose|visible: Seq<LineView>|
            #[trigger] body_shows(
                shown.body,
                after->0.content.body,
                min(scroll as int, metrics.1),
                metrics.0,
                visible,
            ) && lines == expanded_rows(
                line_views(shown.header@),
                rows,
                visible,
                shown.inset,
                scroll as int,
                viewport_rows as int,
                panel_rows,
            );
        lemma_rows_kept(
            shown.body,
            after->0.content.body,
            min(scroll as int, metrics.1),
            metrics.0,
            visible,
        );
        assert(line_views(shown.header@).len() == shown.header@.len());
        law_scroll_regions_are_drawn(surface, context, width, panel_rows);
    }
}

} // verus!
