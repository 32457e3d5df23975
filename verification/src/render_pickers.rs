//! The rows of the full-screen pickers, of the help and of the usage by project
//! or model.

use vstd::prelude::*;
use vstd::string::*;
use crate::list::{max, VISIBLE_HELP_ITEMS, VISIBLE_MENU_ITEMS, ListState, ListWidget};
use crate::menu::{
    fit_lines, fitted, fitted_rows, is_at, lemma_single_rows, less, list_rows, marker, marker_text,
    menu_title, render_list, role_when, style_when, title_line,
};
use crate::pickers::{
    conversation_capacity, conversation_indices, conversation_picker_indexes,
    conversation_picker_item_capacity, history_picker_item_capacity, lemma_conversations_shown,
    tab_rows, ConversationRow, Conversations, Help, HelpTab, HistoryTree, TreePurpose,
};
use crate::render::{
    blanks, concat, concat3, decimal, decimal_text, ellipsized, safe, spaces, terminal_safe,
    truncate_with_ellipsis,
};
use crate::render_menus::{usage_summary, usage_text, UsageSummary};
use crate::render_setup::{
    dim_line, dimmed_line, no_filter_matches, no_matches_line, search_menu_title, search_title,
};
use crate::scroll::{ScrollViewState, ScrollViewWidget};
use crate::single_line_input::InputView;
use crate::style::{
    append_lines, blank_line, capped, line, line_views, push_line, span, spans_width, Line,
    LineView, Role, SpanView, Style,
};
use crate::unicode::{display_width, is_plain, text_width, views};

verus! {

/// The style of a row of a picker: rows alternate between two backgrounds.
pub open spec fn stripe_style(stripe: int) -> Style {
    Style::plain().on_spec(if stripe % 2 == 0 { 235u8 } else { 236u8 })
}

fn stripe(index: usize) -> (style: Style)
    ensures
        style == stripe_style(index as int),
{
    if index % 2 == 0 {
        Style::plain().on(235)
    } else {
        Style::plain().on(236)
    }
}

/// A text with spaces before it that fill it up to a number of characters.
pub open spec fn right_aligned(text: Seq<char>, count: int) -> Seq<char> {
    spaces(less(count, text.len() as int)) + text
}

/// Fills a text up with spaces before it.
pub fn pad_left(text: &str, count: usize) -> (padded: String)
    ensures
        padded@ == right_aligned(text@, count as int),
{
    concat(blanks(count.saturating_sub(text.unicode_len())).as_str(), text)
}

/// The marker and the time at the start of a row of a picker.
pub open spec fn row_head(selected: bool, timestamp: Seq<char>) -> Seq<char> {
    " "@ + (if selected { "\u{203a}"@ } else { " "@ }) + " "@ + right_aligned(timestamp, 7) + "  "@
}

fn render_row_head(selected: bool, timestamp: &str) -> (text: String)
    ensures
        text@ == row_head(selected, timestamp@),
{
    let head: String = concat3(
        " ",
        if selected {
            "\u{203a}"
        } else {
            " "
        },
        " ",
    );
    concat3(head.as_str(), pad_left(timestamp, 7).as_str(), "  ")
}

/// A row with its background up to the last column.
pub open spec fn filled_row(spans: Seq<SpanView>, background: Style, width: int) -> LineView {
    LineView {
        spans: spans.push(span(spaces(less(width, capped(spans_width(spans) as int))), background)),
        base: background,
    }
}

pub proof fn lemma_spans_width_push(spans: Seq<SpanView>, last: SpanView)
    ensures
        spans_width(spans.push(last)) == spans_width(spans) + display_width(last.text),
{
    assert(spans.push(last).drop_last() =~= spans);
}

/// Fills a row up with its background. The row then takes the whole width, unless
/// it took more before.
pub fn fill_row(row: Line, background: Style, width: u16) -> (filled: Line)
    ensures
        filled@ == filled_row(row@.spans, background, width as int),
        spans_width(filled@.spans) == max(spans_width(row@.spans) as int, width as int),
{
    let used: usize = row.width();
    let missing: usize = (width as usize).saturating_sub(used);
    let padding: String = blanks(missing);
    let columns: usize = text_width(padding.as_str());
    proof {
        assert(is_plain(padding@));
        assert(columns == missing);
        lemma_spans_width_push(row@.spans, span(padding@, background));
    }
    let mut filled = row;
    filled.base = background;
    filled.push(padding, background);
    filled
}

/// How many messages a conversation has, in words.
pub open spec fn message_count_text(count: u64) -> Seq<char> {
    decimal(count as nat) + (if count == 1 { " message"@ } else { " messages"@ })
}

/// What stands on the row of a conversation.
pub open spec fn conversation_spans(
    background: Style,
    selected: bool,
    timestamp: Seq<char>,
    label: Seq<char>,
    message_count: u64,
    detail: Seq<char>,
    favourite: bool,
    width: int,
) -> Seq<SpanView> {
    let messages = message_count_text(message_count);
    let limit = less(
        less(
            less(less(width, 14), capped(display_width(messages) + 2)),
            display_width(detail) as int,
        ),
        if favourite { 2 } else { 0 },
    );
    let detail_style = background.patch_spec(Style::of(Role::MenuDetail));
    let row = seq![
        span(row_head(selected, timestamp), background.dim_spec()),
        span(
            ellipsized(label, limit) + "  "@,
            background.patch_spec(role_when(selected, Role::Selected)),
        ),
        span(messages + "  "@, detail_style),
        span(detail, detail_style),
    ];
    if favourite {
        row.push(span(" \u{2605}"@, background.patch_spec(Style::of(Role::Notice))))
    } else {
        row
    }
}

/// The row of a conversation.
pub fn picker_row(
    stripe_index: usize,
    selected: bool,
    timestamp: &str,
    label: &str,
    message_count: u64,
    detail: &str,
    favourite: bool,
    width: u16,
) -> (row: Line)
    ensures
        ({
            let background = stripe_style(stripe_index as int);
            let spans = conversation_spans(
                background,
                selected,
                timestamp@,
                label@,
                message_count,
                detail@,
                favourite,
                width as int,
            );
            &&& row@ == filled_row(spans, background, width as int)
            &&& spans_width(row@.spans) == max(spans_width(spans) as int, width as int)
        }),
{
    let background: Style = stripe(stripe_index);
    let messages: String = concat(
        decimal_text(message_count).as_str(),
        if message_count == 1 {
            " message"
        } else {
            " messages"
        },
    );
    let limit: usize = (width as usize).saturating_sub(14).saturating_sub(
        text_width(messages.as_str()).saturating_add(2),
    ).saturating_sub(text_width(detail)).saturating_sub(
        if favourite {
            2
        } else {
            0
        },
    );
    let detail_style: Style = background.patch(Style::of(Role::MenuDetail));
    let mut row = Line::new();
    row.push(render_row_head(selected, timestamp), background.dim());
    row.push(
        concat(truncate_with_ellipsis(label, limit).as_str(), "  "),
        background.patch(style_when(selected, Role::Selected)),
    );
    row.push(concat(messages.as_str(), "  "), detail_style);
    row.push_str(detail, detail_style);
    if favourite {
        row.push_str(" \u{2605}", background.patch(Style::of(Role::Notice)));
    }
    proof {
        assert(row@.spans =~= conversation_spans(
            background,
            selected,
            timestamp@,
            label@,
            message_count,
            detail@,
            favourite,
            width as int,
        ));
    }
    fill_row(row, background, width)
}

/// What stands on the row of a message.
pub open spec fn tree_spans(
    background: Style,
    selected: bool,
    timestamp: Seq<char>,
    content: LineView,
) -> Seq<SpanView> {
    seq![span(row_head(selected, timestamp), background.dim_spec())] + content.spans
}

/// The row of a message.
pub fn picker_tree_row(
    stripe_index: usize,
    selected: bool,
    timestamp: &str,
    content: &Line,
    width: u16,
) -> (row: Line)
    ensures
        ({
            let background = stripe_style(stripe_index as int);
            let spans = tree_spans(background, selected, timestamp@, content@);
            &&& row@ == filled_row(spans, background, width as int)
            &&& spans_width(row@.spans) == max(spans_width(spans) as int, width as int)
        }),
{
    let background: Style = stripe(stripe_index);
    let mut row = Line::new();
    row.push(render_row_head(selected, timestamp), background.dim());
    let ghost head = row@.spans;
    row.append(content.copy());
    proof {
        assert(head =~= seq![span(row_head(selected, timestamp@), background.dim_spec())]);
    }
    fill_row(row, background, width)
}

/// The title of a conversation in its list.
pub open spec fn conversation_title(row: ConversationRow) -> Seq<char> {
    if row.archived { row.title@ + " (archived)"@ } else { row.title@ }
}

/// The row of a conversation in its list.
pub open spec fn conversation_line(
    row: ConversationRow,
    position: int,
    selected: bool,
    width: int,
) -> LineView {
    let background = stripe_style(position);
    filled_row(
        conversation_spans(
            background,
            selected,
            row.timestamp@,
            conversation_title(row),
            row.message_count,
            match row.model {
                None => "no model"@,
                Some(model) => model@,
            },
            row.favourite,
            width,
        ),
        background,
        width,
    )
}

/// The items of the list of conversations.
pub open spec fn conversation_items(
    rows: Seq<ConversationRow>,
    visible: Seq<usize>,
    selected: Option<usize>,
    width: int,
) -> Seq<LineView> {
    Seq::new(
        visible.len(),
        |i: int|
            conversation_line(rows[visible[i] as int], i, selected == Some(i as usize), width),
    )
}

/// How a list is laid out that always takes as many rows as it has room for.
pub open spec fn filling(state: ListState, capacity: int) -> ListWidget {
    ListWidget {
        trailing: less(capacity, state.visible_end_spec(capacity) - state.offset) as usize,
        ..ListWidget::of(capacity)
    }
}

/// A list that always takes as many rows as it has room for.
pub fn filling_list(state: &ListState, capacity: usize) -> (widget: ListWidget)
    requires
        state.offset <= state.item_count,
    ensures
        widget == filling(*state, capacity as int),
{
    let range = state.visible_range(capacity);
    let mut widget: ListWidget = ListWidget::new(capacity);
    widget.trailing = capacity.saturating_sub(range.1 - range.0);
    widget
}

/// Whether a search finds nothing.
pub open spec fn finds_nothing(query: Seq<char>, visible: Seq<usize>) -> bool {
    query.len() > 0 && visible.len() == 0
}

/// The rows of the list of conversations.
pub open spec fn conversations_rows(picker: Conversations, width: int, viewport_rows: int) -> Seq<
    LineView,
> {
    let visible = conversation_indices(picker.rows@, picker.query@);
    let missing = finds_nothing(picker.query@, visible);
    let capacity = conversation_capacity(viewport_rows, picker.include_archived, missing);
    let state = picker.list.reconciled(visible.len() as int, capacity);
    seq![
        search_title(
            "Resume"@,
            InputView::of(picker.query@, picker.query_cursor as int),
            width,
        ),
        blank_line(),
    ] + list_rows(
        conversation_items(picker.rows@, visible, state.selected, width),
        Seq::empty(),
        state,
        filling(state, capacity),
        width,
        false,
    ) + (if picker.include_archived {
        seq![line(seq![span("showing archived conversations"@, Style::of(Role::Dim))])]
    } else {
        Seq::empty()
    }) + (if missing { seq![no_matches_line("conversations"@)] } else { Seq::empty() }) + seq![
        blank_line(),
    ]
}

fn render_conversation(row: &ConversationRow, position: usize, selected: bool, width: u16) -> (shown:
    Line)
    ensures
        shown@ == conversation_line(*row, position as int, selected, width as int),
{
    let title: String = if row.archived {
        concat(row.title.as_str(), " (archived)")
    } else {
        row.title.as_str().to_owned()
    };
    let model: &str = match &row.model {
        None => "no model",
        Some(model) => model.as_str(),
    };
    picker_row(
        position,
        selected,
        row.timestamp.as_str(),
        title.as_str(),
        row.message_count,
        model,
        row.favourite,
        width,
    )
}

pub fn conversation_picker_lines(picker: &Conversations, width: u16, viewport_rows: usize) -> (lines:
    Vec<Line>)
    ensures
        line_views(lines@) == conversations_rows(*picker, width as int, viewport_rows as int),
{
    let visible = conversation_picker_indexes(picker.rows.as_slice(), picker.query.as_str());
    let missing: bool = !picker.query.as_str().is_empty() && visible.len() == 0;
    let capacity: usize = conversation_picker_item_capacity(
        viewport_rows,
        picker.include_archived,
        missing,
    );
    let mut state: ListState = picker.list;
    state.reconcile(visible.len(), capacity);
    let ghost all = conversation_items(picker.rows@, visible@, state.selected, width as int);
    let mut items: Vec<Line> = Vec::new();
    let mut i: usize = 0;
    while i < visible.len()
        invariant
            i <= visible@.len(),
            forall|k: int| 0 <= k < visible@.len() ==> #[trigger] visible@[k] < picker.rows@.len(),
            all == conversation_items(picker.rows@, visible@, state.selected, width as int),
            items@.len() == i,
            line_views(items@) == all.take(i as int),
        decreases visible@.len() - i,
    {
        push_line(
            &mut items,
            render_conversation(
                &picker.rows[visible[i]],
                i,
                is_at(state.selected, i),
                width,
            ),
        );
        i += 1;
        proof {
            assert(line_views(items@) =~= all.take(i as int));
        }
    }
    let empty: Vec<Line> = Vec::new();
    proof {
        assert(all.take(i as int) =~= all);
        assert(line_views(empty@) =~= Seq::empty());
    }
    let mut lines: Vec<Line> = Vec::new();
    push_line(
        &mut lines,
        search_menu_title("Resume", picker.query.as_str(), picker.query_cursor, width),
    );
    push_line(&mut lines, Line::new());
    append_lines(
        &mut lines,
        render_list(&items, empty, &state, filling_list(&state, capacity), width, false),
    );
    if picker.include_archived {
        push_line(
            &mut lines,
            Line::styled("showing archived conversations".to_owned(), Style::of(Role::Dim)),
        );
    }
    if missing {
        push_line(&mut lines, no_filter_matches("conversations"));
    }
    push_line(&mut lines, Line::new());
    proof {
        assert(line_views(lines@) =~= conversations_rows(
            *picker,
            width as int,
            viewport_rows as int,
        ));
    }
    lines
}

/// The items of the tree of messages. `contents` are the rows of the visible
/// messages without marker and time.
pub open spec fn message_items(
    tree: HistoryTree,
    visible: Seq<usize>,
    contents: Seq<LineView>,
    selected: Option<usize>,
    width: int,
) -> Seq<LineView> {
    Seq::new(
        visible.len(),
        |i: int|
            filled_row(
                tree_spans(
                    stripe_style(i),
                    selected == Some(i as usize),
                    tree.rows@[visible[i] as int].timestamp@,
                    contents[i],
                ),
                stripe_style(i),
                width,
            ),
    )
}

/// The rows that are there for messages.
pub open spec fn history_capacity(viewport_rows: int) -> int {
    max(less(viewport_rows, 5), 1)
}

/// The rows of the tree of messages.
pub open spec fn history_rows(
    tree: HistoryTree,
    visible: Seq<usize>,
    contents: Seq<LineView>,
    width: int,
    viewport_rows: int,
) -> Seq<LineView> {
    let capacity = history_capacity(viewport_rows);
    let state = tree.list.reconciled(visible.len() as int, capacity);
    seq![
        search_title(
            if tree.purpose == TreePurpose::Fork { "Fork"@ } else { "Conversation tree"@ },
            InputView::of(tree.query@, tree.query_cursor as int),
            width,
        ),
        blank_line(),
    ] + (if tree.loading {
        seq![dim_line("  Loading history\u{2026}"@)] + Seq::new(
            (capacity + 1) as nat,
            |i: int| blank_line(),
        )
    } else {
        list_rows(
            message_items(tree, visible, contents, state.selected, width),
            Seq::empty(),
            state,
            ListWidget::of(capacity),
            width,
            false,
        ) + (if finds_nothing(tree.query@, visible) {
            seq![no_matches_line("messages"@)]
        } else {
            Seq::empty()
        })
    }) + seq![blank_line()]
}

/// The rows of the tree of messages. While it is loaded, the surface already has
/// the height of a full tree.
pub fn history_tree_picker_lines(
    tree: &HistoryTree,
    visible: &[usize],
    contents: &[Line],
    width: u16,
    viewport_rows: usize,
) -> (lines: Vec<Line>)
    requires
        visible@.len() == contents@.len(),
        forall|k: int| 0 <= k < visible@.len() ==> #[trigger] visible@[k] < tree.rows@.len(),
    ensures
        line_views(lines@) == history_rows(
            *tree,
            visible@,
            line_views(contents@),
            width as int,
            viewport_rows as int,
        ),
{
    let capacity: usize = history_picker_item_capacity(viewport_rows);
    let title: &str = if tree.purpose == TreePurpose::Fork {
        "Fork"
    } else {
        "Conversation tree"
    };
    let mut lines: Vec<Line> = Vec::new();
    push_line(
        &mut lines,
        search_menu_title(title, tree.query.as_str(), tree.query_cursor, width),
    );
    push_line(&mut lines, Line::new());
    let ghost expected = history_rows(
        *tree,
        visible@,
        line_views(contents@),
        width as int,
        viewport_rows as int,
    );
    if tree.loading {
        push_line(&mut lines, dimmed_line("  Loading history\u{2026}".to_owned()));
        let ghost head = line_views(lines@);
        let mut i: usize = 0;
        proof {
            assert(line_views(lines@) =~= head + Seq::new(0, |k: int| blank_line()));
        }
        while i < capacity - 1
            invariant
                capacity >= 1,
                i <= capacity - 1,
                line_views(lines@) == head + Seq::new(i as nat, |k: int| blank_line()),
            decreases capacity - i,
        {
            push_line(&mut lines, Line::new());
            i += 1;
            proof {
                assert(line_views(lines@) =~= head + Seq::new(i as nat, |k: int| blank_line()));
            }
        }
        push_line(&mut lines, Line::new());
        push_line(&mut lines, Line::new());
        push_line(&mut lines, Line::new());
        proof {
            assert(line_views(lines@) =~= expected);
        }
        return lines;
    }
    let mut state: ListState = tree.list;
    state.reconcile(visible.len(), capacity);
    let ghost all = message_items(
        *tree,
        visible@,
        line_views(contents@),
        state.selected,
        width as int,
    );
    let mut items: Vec<Line> = Vec::new();
    let mut i: usize = 0;
    while i < visible.len()
        invariant
            i <= visible@.len() == contents@.len(),
            forall|k: int| 0 <= k < visible@.len() ==> #[trigger] visible@[k] < tree.rows@.len(),
            all == message_items(
                *tree,
                visible@,
                line_views(contents@),
                state.selected,
                width as int,
            ),
            items@.len() == i,
            line_views(items@) == all.take(i as int),
        decreases visible@.len() - i,
    {
        push_line(
            &mut items,
            picker_tree_row(
                i,
                is_at(state.selected, i),
                tree.rows[visible[i]].timestamp.as_str(),
                &contents[i],
                width,
            ),
        );
        i += 1;
        proof {
            assert(line_views(items@) =~= all.take(i as int));
        }
    }
    let empty: Vec<Line> = Vec::new();
    proof {
        assert(all.take(i as int) =~= all);
        assert(line_views(empty@) =~= Seq::empty());
    }
    append_lines(
        &mut lines,
        render_list(&items, empty, &state, ListWidget::new(capacity), width, false),
    );
    if !tree.query.as_str().is_empty() && visible.len() == 0 {
        push_line(&mut lines, no_filter_matches("messages"));
    }
    push_line(&mut lines, Line::new());
    proof {
        assert(line_views(lines@) =~= expected);
    }
    lines
}

/// The column behind the first `count` tabs.
pub open spec fn tab_end(labels: Seq<Seq<char>>, count: int) -> int
    decreases count,
{
    if count <= 0 {
        2
    } else {
        capped(tab_start(labels, count - 1) + display_width("[ "@ + labels[count - 1] + " ]"@))
    }
}

/// The column at which a tab starts.
pub open spec fn tab_start(labels: Seq<Seq<char>>, index: int) -> int
    decreases index,
{
    if index <= 0 {
        2
    } else {
        capped(
            capped(
                tab_start(labels, index - 1) + display_width(
                    "[ "@ + labels[index - 1] + " ]"@,
                ),
            ) + 2,
        )
    }
}

/// The first `count` tabs.
pub open spec fn tab_spans(labels: Seq<Seq<char>>, selected: int, count: int) -> Seq<SpanView>
    decreases count,
{
    if count <= 0 {
        seq![span("  "@, Style::plain())]
    } else {
        let at = count - 1;
        let tab = span(
            "[ "@ + labels[at] + " ]"@,
            if at == selected { Style::of(Role::Selected) } else { Style::of(Role::Dim) },
        );
        let before = tab_spans(labels, selected, at);
        if at > 0 { before.push(span("  "@, Style::plain())).push(tab) } else { before.push(tab) }
    }
}

/// A row of tabs, and the columns of each.
#[derive(Debug)]
pub struct TabLayout {
    pub line: Line,
    pub hits: Vec<(usize, usize)>,
}

/// The columns of each tab.
pub open spec fn tab_hits(labels: Seq<Seq<char>>) -> Seq<(usize, usize)> {
    Seq::new(
        labels.len(),
        |i: int| (tab_start(labels, i) as usize, tab_end(labels, i + 1) as usize),
    )
}

/// The first of some ranges that holds a column.
pub open spec fn tab_at(hits: Seq<(usize, usize)>, column: int) -> Option<usize>
    decreases hits.len(),
{
    if hits.len() == 0 {
        None
    } else {
        match tab_at(hits.drop_last(), column) {
            Some(index) => Some(index),
            None => if hits.last().0 <= column < hits.last().1 {
                Some((hits.len() - 1) as usize)
            } else {
                None
            },
        }
    }
}

impl TabLayout {
    /// The tab at a column.
    pub fn hit(&self, column: usize) -> (tab: Option<usize>)
        ensures
            tab == tab_at(self.hits@, column as int),
            tab is Some ==> tab->0 < self.hits@.len(),
    {
        let mut i: usize = 0;
        proof {
            assert(self.hits@.take(0) =~= Seq::empty());
        }
        while i < self.hits.len()
            invariant
                i <= self.hits@.len(),
                tab_at(self.hits@.take(i as int), column as int) is None,
            decreases self.hits@.len() - i,
        {
            let range: (usize, usize) = self.hits[i];
            proof {
                assert(self.hits@.take(i + 1).drop_last() =~= self.hits@.take(i as int));
            }
            if range.0 <= column && column < range.1 {
                proof {
                    lemma_first_tab(self.hits@, i + 1, column as int);
                }
                return Some(i);
            }
            i += 1;
        }
        proof {
            assert(self.hits@.take(i as int) =~= self.hits@);
        }
        None
    }
}

/// A tab that is found among the first ones is the one that is found.
pub proof fn lemma_first_tab(hits: Seq<(usize, usize)>, count: int, column: int)
    requires
        0 <= count <= hits.len(),
        tab_at(hits.take(count), column) is Some,
    ensures
        tab_at(hits, column) == tab_at(hits.take(count), column),
    decreases hits.len() - count,
{
    if count < hits.len() {
        assert(hits.take(count + 1).drop_last() =~= hits.take(count));
        lemma_first_tab(hits, count + 1, column);
    } else {
        assert(hits.take(count) =~= hits);
    }
}

/// Lays out a row of tabs.
pub fn tab_line(labels: &[String], selected: usize) -> (layout: TabLayout)
    ensures
        layout.line@ == line(tab_spans(views(labels@), selected as int, labels@.len() as int)),
        layout.hits@ == tab_hits(views(labels@)),
{
    let ghost all = views(labels@);
    let mut row = Line::new();
    row.push_str("  ", Style::plain());
    let mut hits: Vec<(usize, usize)> = Vec::new();
    let mut column: usize = 2;
    let mut i: usize = 0;
    proof {
        assert(row@.spans =~= tab_spans(all, selected as int, 0));
    }
    while i < labels.len()
        invariant
            i <= labels@.len(),
            all == views(labels@),
            row@ == line(tab_spans(all, selected as int, i as int)),
            column == tab_end(all, i as int),
            hits@ == tab_hits(all).take(i as int),
        decreases labels@.len() - i,
    {
        let ghost before = row@.spans;
        if i > 0 {
            row.push_str("  ", Style::plain());
            column = column.saturating_add(2);
        }
        let text: String = concat3("[ ", labels[i].as_str(), " ]");
        let end: usize = column.saturating_add(text_width(text.as_str()));
        proof {
            assert(all[i as int] == labels@[i as int]@);
            assert(column == tab_start(all, i as int));
            assert(end == tab_end(all, i + 1));
        }
        hits.push((column, end));
        row.push(
            text,
            if i == selected {
                Style::of(Role::Selected)
            } else {
                Style::of(Role::Dim)
            },
        );
        column = end;
        i += 1;
        proof {
            assert(row@.spans =~= tab_spans(all, selected as int, i as int));
            assert(hits@ =~= tab_hits(all).take(i as int));
        }
    }
    proof {
        assert(tab_hits(all).take(i as int) =~= tab_hits(all));
    }
    TabLayout { line: row, hits }
}

/// A click within a tab leads to a tab that holds the column; a column of no tab
/// leads nowhere.
pub proof fn law_tabs_hold_their_columns(hits: Seq<(usize, usize)>, column: int)
    requires
        hits.len() <= usize::MAX,
    ensures
        match tab_at(hits, column) {
            Some(index) => index < hits.len() && hits[index as int].0 <= column
                < hits[index as int].1,
            None => forall|i: int|
                0 <= i < hits.len() ==> !((#[trigger] hits[i]).0 <= column < hits[i].1),
        },
    decreases hits.len(),
{
    if hits.len() > 0 {
        law_tabs_hold_their_columns(hits.drop_last(), column);
        assert forall|i: int|
            0 <= i < hits.len() && tab_at(hits, column) is None implies !((#[trigger] hits[i]).0
            <= column < hits[i].1) by {
            if i < hits.len() - 1 {
                assert(hits[i] == hits.drop_last()[i]);
            }
        }
    }
}

/// The tabs of the help.
pub open spec fn help_labels() -> Seq<Seq<char>> {
    seq!["Commands"@, "Keybindings"@]
}

pub open spec fn help_index(tab: HelpTab) -> int {
    match tab {
        HelpTab::Commands => 0,
        HelpTab::Keybindings => 1,
    }
}

pub fn help_tabs(active: HelpTab) -> (layout: TabLayout)
    ensures
        layout.line@ == line(tab_spans(help_labels(), help_index(active), 2)),
        layout.hits@ == tab_hits(help_labels()),
{
    let labels = ["Commands".to_owned(), "Keybindings".to_owned()];
    proof {
        assert(views(labels@) =~= help_labels());
    }
    tab_line(
        &labels,
        match active {
            HelpTab::Commands => 0,
            HelpTab::Keybindings => 1,
        },
    )
}

/// The tab of the help at a column.
pub fn help_tab_at(active: HelpTab, column: usize) -> (tab: Option<HelpTab>)
    ensures
        tab == match tab_at(tab_hits(help_labels()), column as int) {
            None => None,
            Some(index) => Some(
                if index == 0 { HelpTab::Commands } else { HelpTab::Keybindings },
            ),
        },
{
    match help_tabs(active).hit(column) {
        None => None,
        Some(index) => Some(
            if index == 0 {
                HelpTab::Commands
            } else {
                HelpTab::Keybindings
            },
        ),
    }
}

/// A row of the help.
pub open spec fn help_line(row: (String, String), width: int) -> LineView {
    let label = safe(row.0@);
    line(
        seq![
            span("  "@, Style::plain()),
            span(label, Style::of(Role::Accent)),
            span("  "@, Style::plain()),
            span(
                ellipsized(safe(row.1@), less(width, capped(display_width(label) + 4))),
                Style::of(Role::Dim),
            ),
        ],
    )
}

/// The rows of a list of the help.
pub open spec fn help_list_rows(rows: Seq<(String, String)>, width: int, state: ScrollViewState) -> Seq<
    LineView,
> {
    let capacity = VISIBLE_HELP_ITEMS as int;
    ScrollViewWidget::of(capacity).lines_spec(
        state,
        Seq::new(
            less(state.visible_end_spec(capacity), state.offset as int) as nat,
            |i: int| help_line(rows[state.offset + i], width),
        ),
    )
}

pub fn scrollable_help_list(rows: &[(String, String)], width: u16, state: &ScrollViewState) -> (lines:
    Vec<Line>)
    requires
        state.offset <= state.content_rows == rows@.len(),
    ensures
        line_views(lines@) == help_list_rows(rows@, width as int, *state),
{
    let range = state.visible_range(VISIBLE_HELP_ITEMS);
    let ghost all = Seq::new(
        less(range.1 as int, range.0 as int) as nat,
        |i: int| help_line(rows@[range.0 + i], width as int),
    );
    let mut items: Vec<Line> = Vec::new();
    let mut i: usize = range.0;
    while i < range.1
        invariant
            range.0 <= i,
            i <= range.1 || i == range.0,
            range.1 <= rows@.len(),
            all == Seq::new(
                less(range.1 as int, range.0 as int) as nat,
                |i: int| help_line(rows@[range.0 + i], width as int),
            ),
            line_views(items@) == all.take(i - range.0),
        decreases range.1 - i,
    {
        let row = &rows[i];
        let label: String = terminal_safe(row.0.as_str());
        let taken: usize = text_width(label.as_str()).saturating_add(4);
        let description: String = truncate_with_ellipsis(
            terminal_safe(row.1.as_str()).as_str(),
            (width as usize).saturating_sub(taken),
        );
        let mut shown = Line::new();
        shown.push_str("  ", Style::plain());
        shown.push(label, Style::of(Role::Accent));
        shown.push_str("  ", Style::plain());
        shown.push(description, Style::of(Role::Dim));
        proof {
            assert(shown@.spans =~= help_line(*row, width as int).spans);
        }
        push_line(&mut items, shown);
        i += 1;
        proof {
            assert(line_views(items@) =~= all.take(i - range.0));
        }
    }
    proof {
        assert(all.take(i - range.0) =~= all);
    }
    ScrollViewWidget::new(VISIBLE_HELP_ITEMS).render(state, items).lines
}

/// The rows of the help.
pub open spec fn help_rows(help: Help, width: int) -> Seq<LineView> {
    let rows = tab_rows(help, help.tab);
    seq![
        title_line("Help"@, None),
        blank_line(),
        line(tab_spans(help_labels(), help_index(help.tab), 2)),
    ] + help_list_rows(
        rows,
        width,
        help.list.reconciled(rows.len() as int, VISIBLE_HELP_ITEMS as int),
    )
}

pub fn help_lines(help: &Help, width: u16) -> (lines: Vec<Line>)
    ensures
        line_views(lines@) == help_rows(*help, width as int),
{
    let mut lines: Vec<Line> = Vec::new();
    push_line(&mut lines, menu_title("Help", None));
    push_line(&mut lines, Line::new());
    push_line(&mut lines, help_tabs(help.tab).line);
    let rows: &[(String, String)] = match help.tab {
        HelpTab::Commands => help.command_rows.as_slice(),
        HelpTab::Keybindings => help.key_rows.as_slice(),
    };
    let mut state: ScrollViewState = help.list;
    state.reconcile(rows.len(), VISIBLE_HELP_ITEMS);
    append_lines(&mut lines, scrollable_help_list(rows, width, &state));
    proof {
        assert(line_views(lines@) =~= help_rows(*help, width as int));
    }
    lines
}

/// How the usage is broken down.
#[derive(Clone, Copy, Debug, PartialEq, Eq, Structural)]
pub enum UsageBreakdownKind {
    Project,
    Model,
}

/// The usage of a project or of a model.
#[derive(Debug)]
pub struct UsageBreakdown {
    pub label: String,
    pub usage: UsageSummary,
}

/// The two rows of an entry.
pub open spec fn breakdown_item(row: UsageBreakdown, selected: bool) -> Seq<LineView> {
    let style = role_when(selected, Role::Selected);
    seq![
        line(seq![span(marker(selected), style), span(row.label@, style)]),
        dim_line("    "@ + usage_text(row.usage)),
    ]
}

/// The rows of the entries from `start` to `end`.
pub open spec fn breakdown_window(
    rows: Seq<UsageBreakdown>,
    selected: Option<usize>,
    start: int,
    end: int,
) -> Seq<LineView>
    decreases end - start,
{
    if start >= end {
        Seq::empty()
    } else {
        breakdown_window(rows, selected, start, end - 1) + breakdown_item(
            rows[end - 1],
            selected == Some((end - 1) as usize),
        )
    }
}

/// The rows of the usage by project or model.
pub open spec fn breakdown_rows(
    kind: UsageBreakdownKind,
    rows: Seq<UsageBreakdown>,
    list: ListState,
    width: int,
) -> Seq<LineView> {
    let capacity = VISIBLE_MENU_ITEMS as int;
    seq![
        title_line(
            match kind {
                UsageBreakdownKind::Project => "Usage per project"@,
                UsageBreakdownKind::Model => "Usage per model"@,
            },
            Some("all tracked time"@),
        ),
    ] + (if rows.len() == 0 {
        seq![dim_line("  No tracked usage."@)]
    } else {
        ListWidget::of(capacity).lines_spec(
            list,
            fitted_rows(
                breakdown_window(
                    rows,
                    list.selected,
                    list.offset as int,
                    list.visible_end_spec(capacity),
                ),
                width,
                false,
            ),
        )
    })
}

pub fn usage_breakdown_lines(
    kind: UsageBreakdownKind,
    rows: &[UsageBreakdown],
    list: &ListState,
    width: u16,
) -> (lines: Vec<Line>)
    requires
        list.offset <= list.item_count == rows@.len(),
    ensures
        line_views(lines@) == breakdown_rows(kind, rows@, *list, width as int),
{
    let title: &str = match kind {
        UsageBreakdownKind::Project => "Usage per project",
        UsageBreakdownKind::Model => "Usage per model",
    };
    let mut lines: Vec<Line> = Vec::new();
    push_line(&mut lines, menu_title(title, Some("all tracked time")));
    if rows.len() == 0 {
        push_line(&mut lines, dimmed_line("  No tracked usage.".to_owned()));
        proof {
            assert(line_views(lines@) =~= breakdown_rows(kind, rows@, *list, width as int));
        }
        return lines;
    }
    let range = list.visible_range(VISIBLE_MENU_ITEMS);
    let mut items: Vec<Line> = Vec::new();
    let mut i: usize = range.0;
    proof {
        assert(line_views(items@) =~= breakdown_window(
            rows@,
            list.selected,
            range.0 as int,
            i as int,
        ));
    }
    while i < range.1
        invariant
            range.0 <= i,
            i <= range.1 || i == range.0,
            range.1 <= rows@.len(),
            line_views(items@) == breakdown_window(
                rows@,
                list.selected,
                range.0 as int,
                i as int,
            ),
        decreases range.1 - i,
    {
        let ghost before = line_views(items@);
        let selected: bool = is_at(list.selected, i);
        let style: Style = style_when(selected, Role::Selected);
        let mut head = Line::new();
        head.push_str(marker_text(selected), style);
        head.push_str(rows[i].label.as_str(), style);
        proof {
            assert(head@.spans =~= breakdown_item(rows@[i as int], selected)[0].spans);
        }
        push_line(&mut items, head);
        push_line(
            &mut items,
            dimmed_line(concat("    ", usage_summary(&rows[i].usage).as_str())),
        );
        i += 1;
        proof {
            assert(line_views(items@) =~= before + breakdown_item(rows@[i - 1], selected));
        }
    }
    append_lines(
        &mut lines,
        ListWidget::new(VISIBLE_MENU_ITEMS).lines(list, fit_lines(items, width, false)),
    );
    proof {
        assert(line_views(lines@) =~= breakdown_rows(kind, rows@, *list, width as int));
    }
    lines
}

/// The list of conversations takes exactly the rows of the screen, whether or not it
/// shows archived conversations and whatever is searched for: what is said below the
/// list takes the place of items. The screen has room for one item, and each item
/// takes one row.
pub proof fn law_conversations_fill_the_screen(
    picker: Conversations,
    width: int,
    viewport_rows: int,
)
    requires
        ({
            let visible = conversation_indices(picker.rows@, picker.query@);
            let missing = finds_nothing(picker.query@, visible);
            let capacity = conversation_capacity(viewport_rows, picker.include_archived, missing);
            let state = picker.list.reconciled(visible.len() as int, capacity);
            let items = conversation_items(picker.rows@, visible, state.selected, width);
            &&& 6 + (if picker.include_archived { 1int } else { 0 }) + (if missing {
                1int
            } else {
                0
            }) <= viewport_rows <= usize::MAX
            &&& forall|i: int|
                0 <= i < items.len() ==> fitted(#[trigger] items[i], width, false).len() == 1
        }),
    ensures
        conversations_rows(picker, width, viewport_rows).len() == viewport_rows,
{
    let visible = conversation_indices(picker.rows@, picker.query@);
    let missing = finds_nothing(picker.query@, visible);
    let capacity = conversation_capacity(viewport_rows, picker.include_archived, missing);
    lemma_conversations_shown(picker.rows@, picker.query@);
    assert(picker.rows@.len() == picker.rows.len());
    let state = picker.list.reconciled(visible.len() as int, capacity);
    let items = conversation_items(picker.rows@, visible, state.selected, width);
    lemma_single_rows(
        items,
        state.offset as int,
        state.visible_end_spec(capacity),
        width,
        false,
    );
}

/// A tree of messages already has its height while it is loaded: it takes the rows of
/// the screen then, and it takes them when it shows as many messages as there is room
/// for. Each message takes one row.
pub proof fn law_trees_keep_their_height(
    tree: HistoryTree,
    visible: Seq<usize>,
    contents: Seq<LineView>,
    width: int,
    viewport_rows: int,
)
    requires
        6 <= viewport_rows <= usize::MAX,
        visible.len() <= usize::MAX,
        !tree.loading ==> history_capacity(viewport_rows) <= visible.len(),
        ({
            let state = tree.list.reconciled(
                visible.len() as int,
                history_capacity(viewport_rows),
            );
            let items = message_items(tree, visible, contents, state.selected, width);
            forall|i: int|
                0 <= i < items.len() ==> fitted(#[trigger] items[i], width, false).len() == 1
        }),
    ensures
        history_rows(tree, visible, contents, width, viewport_rows).len() == viewport_rows,
{
    let capacity = history_capacity(viewport_rows);
    let state = tree.list.reconciled(visible.len() as int, capacity);
    let items = message_items(tree, visible, contents, state.selected, width);
    if !tree.loading {
        lemma_single_rows(
            items,
            state.offset as int,
            state.visible_end_spec(capacity),
            width,
            false,
        );
    }
}

} // verus!
