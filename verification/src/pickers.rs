//! Pickers and pages: history, conversations, help, paths, worktrees,
//! permission rules and usage.

use vstd::prelude::*;
use vstd::string::*;
use crate::control::{
    action_of, edit_field, field_after, field_is, field_takes, list_action, list_after, move_list,
    SurfaceKey,
};
use crate::key::{KeyCode, KeyModifiers};
use crate::list::{max, min, settled, VISIBLE_HELP_ITEMS, VISIBLE_MENU_ITEMS, ListAction, ListState};
use crate::menu::less;
use crate::providers::normalized;
use crate::scroll::{ScrollViewAction, ScrollViewState};
use crate::search::{contains, contains_text};
use crate::single_line_input::InputView;
use crate::text::{byte_len, utf8_len};
use crate::unicode::{lower_case, to_lower_case, trim, trimmed};

verus! {

/// A message in the history.
#[derive(Debug)]
pub struct HistoryRow {
    pub id: u128,
    pub selectable: bool,
    /// Whether the message can be scrolled to.
    pub has_target: bool,
    pub timestamp: String,
}

/// Why the history is shown.
#[derive(Clone, Copy, Debug, PartialEq, Eq, Structural)]
pub enum TreePurpose {
    Browse,
    Fork,
}

/// Message rows that fit in the full-screen history picker after its title,
/// spacer, scroll indicators, and trailing spacer.
pub fn history_picker_item_capacity(viewport_rows: usize) -> (capacity: usize)
    ensures
        capacity == max(less(viewport_rows as int, 5), 1),
{
    let rows: usize = viewport_rows.saturating_sub(5);
    if rows >= 1 {
        rows
    } else {
        1
    }
}

/// The conversation rows that fit: informational footer rows take their place.
pub open spec fn conversation_capacity(rows: int, archived: bool, no_matches: bool) -> int {
    max(
        less(
            rows,
            5 + (if archived { 1int } else { 0 }) + (if no_matches { 1int } else { 0 }),
        ),
        1,
    )
}

/// Number of conversation rows that fit in the full-screen resume picker.
/// Informational footer rows replace list slots so the surface remains exactly
/// full-height while filtering or showing archived conversations.
pub fn conversation_picker_item_capacity(
    viewport_rows: usize,
    include_archived: bool,
    no_matches: bool,
) -> (capacity: usize)
    ensures
        capacity == conversation_capacity(viewport_rows as int, include_archived, no_matches),
{
    let mut taken: usize = 5;
    if include_archived {
        taken = taken + 1;
    }
    if no_matches {
        taken = taken + 1;
    }
    let rows: usize = viewport_rows.saturating_sub(taken);
    if rows >= 1 {
        rows
    } else {
        1
    }
}

/// Whether the visible row at a position can be selected.
pub open spec fn can_select(rows: Seq<HistoryRow>, visible: Seq<usize>, at: int) -> bool {
    0 <= at < visible.len() && rows[visible[at] as int].selectable
}

/// The first position from `start` on that can be selected, or the end.
pub open spec fn next_selectable(rows: Seq<HistoryRow>, visible: Seq<usize>, start: int) -> int
    decreases visible.len() - start,
{
    if start < 0 || start >= visible.len() || can_select(rows, visible, start) {
        start
    } else {
        next_selectable(rows, visible, start + 1)
    }
}

/// The last position up to `start` that can be selected, or -1.
pub open spec fn previous_selectable(rows: Seq<HistoryRow>, visible: Seq<usize>, start: int) -> int
    decreases start + 1,
{
    if start < 0 || can_select(rows, visible, start) {
        start
    } else {
        previous_selectable(rows, visible, start - 1)
    }
}

/// Whether the indices name rows.
pub open spec fn indices_valid(rows: Seq<HistoryRow>, visible: Seq<usize>) -> bool {
    forall|i: int| 0 <= i < visible.len() ==> #[trigger] visible[i] < rows.len()
}

fn find_next(rows: &[HistoryRow], visible: &[usize], start: usize) -> (at: Option<usize>)
    requires
        indices_valid(rows@, visible@),
        start <= visible@.len(),
    ensures
        match at {
            None => next_selectable(rows@, visible@, start as int) >= visible@.len(),
            Some(at) => at == next_selectable(rows@, visible@, start as int) && can_select(
                rows@,
                visible@,
                at as int,
            ),
        },
{
    let mut i: usize = start;
    while i < visible.len()
        invariant
            start <= i <= visible@.len(),
            indices_valid(rows@, visible@),
            next_selectable(rows@, visible@, start as int) == next_selectable(
                rows@,
                visible@,
                i as int,
            ),
        decreases visible@.len() - i,
    {
        if rows[visible[i]].selectable {
            return Some(i);
        }
        i += 1;
    }
    None
}

fn find_previous(rows: &[HistoryRow], visible: &[usize], end: usize) -> (at: Option<usize>)
    requires
        indices_valid(rows@, visible@),
        end <= visible@.len(),
    ensures
        match at {
            None => previous_selectable(rows@, visible@, end - 1) < 0,
            Some(at) => at == previous_selectable(rows@, visible@, end - 1) && can_select(
                rows@,
                visible@,
                at as int,
            ),
        },
{
    let mut i: usize = end;
    while i > 0
        invariant
            i <= end <= visible@.len(),
            indices_valid(rows@, visible@),
            previous_selectable(rows@, visible@, end - 1) == previous_selectable(
                rows@,
                visible@,
                i - 1,
            ),
        decreases i,
    {
        if rows[visible[i - 1]].selectable {
            return Some(i - 1);
        }
        i -= 1;
    }
    None
}

/// Whether an action goes towards the start.
pub open spec fn toward_start(action: ListAction) -> bool {
    action == ListAction::Previous || action == ListAction::PagePrevious || action
        == ListAction::WheelPrevious || action == ListAction::Home
}

/// The position that an action ends on: the nearest in its direction that can
/// be selected, or else the nearest in the other, or else where it came to.
pub open spec fn history_target(
    rows: Seq<HistoryRow>,
    visible: Seq<usize>,
    target: int,
    action: ListAction,
) -> int {
    let before = previous_selectable(rows, visible, target);
    let behind = next_selectable(rows, visible, target);
    if toward_start(action) {
        if before >= 0 {
            before
        } else if next_selectable(rows, visible, target + 1) < visible.len() {
            next_selectable(rows, visible, target + 1)
        } else {
            target
        }
    } else {
        if behind < visible.len() {
            behind
        } else if previous_selectable(rows, visible, target - 1) >= 0 {
            previous_selectable(rows, visible, target - 1)
        } else {
            target
        }
    }
}

/// The history list after an action.
pub open spec fn history_after(
    list: ListState,
    action: ListAction,
    rows: Seq<HistoryRow>,
    visible: Seq<usize>,
    capacity: int,
) -> ListState {
    let moved = list.applied(action, capacity);
    match moved.selected {
        None => moved,
        Some(target) => {
            let next = history_target(rows, visible, target as int, action);
            if next == target { moved } else { moved.selecting(next, capacity) }
        },
    }
}

/// Moves the selection over rows that cannot be selected.
pub fn apply_history_list_action(
    list: &mut ListState,
    action: ListAction,
    rows: &[HistoryRow],
    visible: &[usize],
    capacity: usize,
)
    requires
        indices_valid(rows@, visible@),
        old(list).item_count == visible@.len(),
    ensures
        *final(list) == history_after(*old(list), action, rows@, visible@, capacity as int),
        final(list).valid(capacity as int),
{
    list.apply(action, capacity);
    let target: usize = match list.selected {
        None => {
            return;
        },
        Some(target) => target,
    };
    if rows[visible[target]].selectable {
        return;
    }
    let start: bool = match action {
        ListAction::Previous
        | ListAction::PagePrevious
        | ListAction::WheelPrevious
        | ListAction::Home => true,
        _ => false,
    };
    let total: usize = visible.len();
    let next: Option<usize> = if start {
        match find_previous(rows, visible, target + 1) {
            Some(at) => Some(at),
            None => find_next(rows, visible, target + 1),
        }
    } else {
        match find_next(rows, visible, target) {
            Some(at) => Some(at),
            None => find_previous(rows, visible, target),
        }
    };
    if let Some(next) = next {
        list.select(next, capacity);
    }
}

proof fn lemma_no_next(rows: Seq<HistoryRow>, visible: Seq<usize>, start: int, at: int)
    requires
        0 <= start <= at < visible.len(),
        next_selectable(rows, visible, start) >= visible.len(),
    ensures
        !can_select(rows, visible, at),
    decreases visible.len() - start,
{
    if start < at {
        lemma_no_next(rows, visible, start + 1, at);
    }
}

proof fn lemma_no_previous(rows: Seq<HistoryRow>, visible: Seq<usize>, start: int, at: int)
    requires
        0 <= at <= start < visible.len(),
        previous_selectable(rows, visible, start) < 0,
    ensures
        !can_select(rows, visible, at),
    decreases start,
{
    if at < start {
        lemma_no_previous(rows, visible, start - 1, at);
    }
}

proof fn lemma_next_selectable(rows: Seq<HistoryRow>, visible: Seq<usize>, start: int)
    requires
        0 <= start <= visible.len(),
    ensures
        start <= next_selectable(rows, visible, start) <= visible.len(),
        next_selectable(rows, visible, start) < visible.len() ==> can_select(
            rows,
            visible,
            next_selectable(rows, visible, start),
        ),
    decreases visible.len() - start,
{
    if start < visible.len() && !can_select(rows, visible, start) {
        lemma_next_selectable(rows, visible, start + 1);
    }
}

proof fn lemma_previous_selectable(rows: Seq<HistoryRow>, visible: Seq<usize>, start: int)
    requires
        -1 <= start < visible.len(),
    ensures
        -1 <= previous_selectable(rows, visible, start) <= start,
        previous_selectable(rows, visible, start) >= 0 ==> can_select(
            rows,
            visible,
            previous_selectable(rows, visible, start),
        ),
    decreases start + 1,
{
    if start >= 0 && !can_select(rows, visible, start) {
        lemma_previous_selectable(rows, visible, start - 1);
    }
}

/// A movement in the history ends on a row that can be selected, if there is
/// any.
pub proof fn law_history_moves_to_selectable_rows(
    rows: Seq<HistoryRow>,
    visible: Seq<usize>,
    target: int,
    action: ListAction,
    some: int,
)
    requires
        0 <= target < visible.len(),
        can_select(rows, visible, some),
    ensures
        can_select(rows, visible, history_target(rows, visible, target, action)),
{
    lemma_next_selectable(rows, visible, target);
    lemma_next_selectable(rows, visible, target + 1);
    lemma_previous_selectable(rows, visible, target);
    lemma_previous_selectable(rows, visible, target - 1);
    if some <= target {
        if previous_selectable(rows, visible, target) < 0 {
            lemma_no_previous(rows, visible, target, some);
        }
        if some < target && previous_selectable(rows, visible, target - 1) < 0 {
            lemma_no_previous(rows, visible, target - 1, some);
        }
        if some == target && next_selectable(rows, visible, target) >= visible.len() {
            lemma_no_next(rows, visible, target, some);
        }
    } else {
        if next_selectable(rows, visible, target) >= visible.len() {
            lemma_no_next(rows, visible, target, some);
        }
        if next_selectable(rows, visible, target + 1) >= visible.len() {
            lemma_no_next(rows, visible, target + 1, some);
        }
    }
}

/// The position of a row among the visible ones, or their number.
pub open spec fn visible_position(visible: Seq<usize>, source: usize) -> int
    decreases visible.len(),
{
    if visible.len() == 0 || visible[0] == source {
        0
    } else {
        1 + visible_position(visible.drop_first(), source)
    }
}

fn find_source(visible: &[usize], source: usize) -> (at: Option<usize>)
    ensures
        match at {
            None => visible_position(visible@, source) == visible@.len(),
            Some(at) => at == visible_position(visible@, source) && at < visible@.len(),
        },
{
    let mut i: usize = 0;
    proof {
        assert(visible@.skip(0) =~= visible@);
    }
    while i < visible.len()
        invariant
            i <= visible@.len(),
            visible_position(visible@, source) == i + visible_position(
                visible@.skip(i as int),
                source,
            ),
        decreases visible@.len() - i,
    {
        proof {
            assert(visible@.skip(i as int).drop_first() =~= visible@.skip(i + 1));
        }
        if visible[i] == source {
            return Some(i);
        }
        i += 1;
    }
    None
}

/// The list of the visible rows with one selected, or else the first that can
/// be.
pub fn history_list(rows: &[HistoryRow], visible: &[usize], selected_source: usize) -> (list:
    ListState)
    requires
        indices_valid(rows@, visible@),
    ensures
        list == settled(
            visible@.len() as int,
            if visible_position(visible@, selected_source) < visible@.len() {
                visible_position(visible@, selected_source)
            } else if next_selectable(rows@, visible@, 0) < visible@.len() {
                next_selectable(rows@, visible@, 0)
            } else {
                0
            },
            0,
            VISIBLE_MENU_ITEMS as int,
        ),
{
    let selected: usize = match find_source(visible, selected_source) {
        Some(at) => at,
        None => match find_next(rows, visible, 0) {
            Some(at) => at,
            None => 0,
        },
    };
    ListState::selectable_at(visible.len(), selected, VISIBLE_MENU_ITEMS)
}

/// The list once the query has changed: the row that was selected stays
/// selected if it is still shown and can be, else the first that can be is.
pub fn history_filtered(
    rows: &[HistoryRow],
    visible: &[usize],
    selected_source: Option<usize>,
    capacity: usize,
) -> (list: ListState)
    requires
        indices_valid(rows@, visible@),
    ensures
        ({
            let kept = match selected_source {
                None => visible@.len() as int,
                Some(source) => visible_position(visible@, source),
            };
            list == settled(
                visible@.len() as int,
                if kept < visible@.len() && can_select(rows@, visible@, kept) {
                    kept
                } else if next_selectable(rows@, visible@, 0) < visible@.len() {
                    next_selectable(rows@, visible@, 0)
                } else {
                    0
                },
                0,
                capacity as int,
            )
        }),
{
    if let Some(source) = selected_source {
        if let Some(at) = find_source(visible, source) {
            if rows[visible[at]].selectable {
                return ListState::selectable_at(visible.len(), at, capacity);
            }
        }
    }
    let selected: usize = match find_next(rows, visible, 0) {
        Some(at) => at,
        None => 0,
    };
    ListState::selectable_at(visible.len(), selected, capacity)
}

/// The history picker.
#[derive(Debug)]
pub struct HistoryTree {
    pub rows: Vec<HistoryRow>,
    pub list: ListState,
    pub purpose: TreePurpose,
    pub loading: bool,
    pub revision: Option<u64>,
    pub query: String,
    pub query_cursor: usize,
    pub opened_at_millis: u64,
}

/// What is to be done after a key in the history picker. The numbers are
/// indices of rows.
#[derive(Clone, Copy, Debug, PartialEq, Eq, Structural)]
pub enum HistoryStep {
    Stay,
    ScrollTo(usize),
    Preview(usize),
    /// Fork into another conversation.
    HardFork(usize),
    Fork(usize),
    /// Adapt the list to the rows that are shown for the edited query.
    Filter,
}

impl HistoryTree {
    /// The list before the key is looked at.
    pub open spec fn settled_list(self, visible: Seq<usize>, capacity: int) -> ListState {
        self.list.reconciled(visible.len() as int, capacity)
    }

    /// The row under the cursor.
    pub open spec fn row_spec(self, visible: Seq<usize>, capacity: int) -> Option<usize> {
        let at = self.settled_list(visible, capacity).at_spec();
        if at < visible.len() { Some(visible[at]) } else { None }
    }

    /// The row under the cursor, if it can be selected.
    pub open spec fn selectable_row(self, visible: Seq<usize>, capacity: int) -> Option<usize> {
        match self.row_spec(visible, capacity) {
            None => None,
            Some(row) => if self.rows@[row as int].selectable { Some(row) } else { None },
        }
    }

    pub open spec fn step(
        self,
        key: SurfaceKey,
        scroll_to_message: bool,
        visible: Seq<usize>,
        capacity: int,
    ) -> HistoryStep {
        let selectable = self.selectable_row(visible, capacity);
        let shift = key.key.modifiers == (KeyModifiers {
            shift: true,
            control: false,
            alt: false,
            other: false,
        });
        if scroll_to_message {
            match self.row_spec(visible, capacity) {
                None => HistoryStep::Stay,
                Some(row) => if self.rows@[row as int].has_target {
                    HistoryStep::ScrollTo(row)
                } else {
                    HistoryStep::Stay
                },
            }
        } else if key.key.modifiers.is_empty() && key.key.code == KeyCode::Char('p') && selectable
            is Some {
            HistoryStep::Preview(selectable->0)
        } else if shift && (key.key.code == KeyCode::Char('F') || key.key.code == KeyCode::Char(
            'f',
        )) && selectable is Some {
            HistoryStep::HardFork(selectable->0)
        } else if action_of(key.code) is Some {
            HistoryStep::Stay
        } else if key.code == KeyCode::Enter {
            match selectable {
                None => HistoryStep::Stay,
                Some(row) => HistoryStep::Fork(row),
            }
        } else if field_takes(self.query@, self.query_cursor as int, key.key) {
            HistoryStep::Filter
        } else {
            HistoryStep::Stay
        }
    }

    /// The effect of `key`.
    pub open spec fn key_effect(
        before: Self,
        after: Self,
        key: SurfaceKey,
        scroll_to_message: bool,
        visible: Seq<usize>,
        capacity: usize,
        step: HistoryStep,
    ) -> bool {
        &&& (after.rows == before.rows)
        &&& (after.purpose == before.purpose)
        &&& (after.loading == before.loading)
        &&& (after.revision == before.revision)
        &&& (after.opened_at_millis == before.opened_at_millis)
        &&& (step == before.step(key, scroll_to_message, visible, capacity as int))
        &&& (after.list == {
                let list = before.settled_list(visible, capacity as int);
                match action_of(key.code) {
                    Some(action) => if scroll_to_message || step is Preview || step is HardFork {
                        list
                    } else {
                        history_after(list, action, before.rows@, visible, capacity as int)
                    },
                    None => list,
                }
            })
        &&& (field_is(
                after.query@,
                after.query_cursor as int,
                if step == HistoryStep::Filter {
                    field_after(before.query@, before.query_cursor as int, key.key)
                } else {
                    InputView::of(before.query@, before.query_cursor as int)
                },
            ))
    }

    /// A key in the history picker. `visible` are the rows that are shown for
    /// the query.
    pub fn key(
        &mut self,
        key: SurfaceKey,
        scroll_to_message: bool,
        visible: &[usize],
        capacity: usize,
    ) -> (step: HistoryStep)
        requires
            indices_valid(old(self).rows@, visible@),
        ensures
            Self::key_effect(
                *old(self),
                *final(self),
                key,
                scroll_to_message,
                visible@,
                capacity,
                step,
            ),
    {
        self.list.reconcile(visible.len(), capacity);
        let at: usize = self.list.at();
        let row: Option<usize> = if at < visible.len() {
            Some(visible[at])
        } else {
            None
        };
        let selectable: Option<usize> = match row {
            None => None,
            Some(row) => if self.rows[row].selectable {
                Some(row)
            } else {
                None
            },
        };
        let modifiers = key.key.modifiers;
        let shift: bool = modifiers.shift && !modifiers.control && !modifiers.alt
            && !modifiers.other;
        let preview: bool = modifiers.is_empty() && key.key.code == KeyCode::Char('p');
        let hard: bool = shift && (key.key.code == KeyCode::Char('F') || key.key.code
            == KeyCode::Char('f'));
        if scroll_to_message || (selectable.is_some() && (preview || hard)) {
            self.query_cursor = normalized(self.query.as_str(), self.query_cursor);
            if scroll_to_message {
                if let Some(row) = row {
                    if self.rows[row].has_target {
                        return HistoryStep::ScrollTo(row);
                    }
                }
                return HistoryStep::Stay;
            }
            let row: usize = selectable.unwrap();
            return if preview {
                HistoryStep::Preview(row)
            } else {
                HistoryStep::HardFork(row)
            };
        }
        if let Some(action) = list_action(key.code) {
            apply_history_list_action(
                &mut self.list,
                action,
                self.rows.as_slice(),
                visible,
                capacity,
            );
            self.query_cursor = normalized(self.query.as_str(), self.query_cursor);
            return HistoryStep::Stay;
        }
        if key.code == KeyCode::Enter {
            self.query_cursor = normalized(self.query.as_str(), self.query_cursor);
            return match selectable {
                None => HistoryStep::Stay,
                Some(row) => HistoryStep::Fork(row),
            };
        }
        if edit_field(&mut self.query, &mut self.query_cursor, key.key) {
            HistoryStep::Filter
        } else {
            HistoryStep::Stay
        }
    }
}

/// A conversation that can be resumed.
#[derive(Debug)]
pub struct ConversationRow {
    pub id: u128,
    pub title: String,
    pub timestamp: String,
    pub model: Option<String>,
    pub message_count: u64,
    pub archived: bool,
    pub favourite: bool,
}

/// Whether a conversation is shown for a query: it has a title, and the title
/// holds the query.
pub open spec fn conversation_matches(row: ConversationRow, query: Seq<char>) -> bool {
    row.title@.len() > 0 && contains(lower_case(row.title@), lower_case(query))
}

/// The conversations that are shown for a query, as indices.
pub open spec fn conversation_indices(rows: Seq<ConversationRow>, query: Seq<char>) -> Seq<usize>
    decreases rows.len(),
{
    if rows.len() == 0 {
        Seq::empty()
    } else if conversation_matches(rows.last(), query) {
        conversation_indices(rows.drop_last(), query).push((rows.len() - 1) as usize)
    } else {
        conversation_indices(rows.drop_last(), query)
    }
}

/// The conversations that are shown for a query, as indices.
pub fn conversation_picker_indexes(rows: &[ConversationRow], query: &str) -> (visible: Vec<usize>)
    ensures
        visible@ == conversation_indices(rows@, query@),
        forall|i: int| 0 <= i < visible@.len() ==> #[trigger] visible@[i] < rows@.len(),
{
    let wanted: String = to_lower_case(query);
    let mut visible: Vec<usize> = Vec::new();
    let mut i: usize = 0;
    proof {
        assert(rows@.take(0) =~= Seq::empty());
    }
    while i < rows.len()
        invariant
            i <= rows@.len(),
            wanted@ == lower_case(query@),
            forall|k: int| 0 <= k < visible@.len() ==> #[trigger] visible@[k] < i,
            visible@ == conversation_indices(rows@.take(i as int), query@),
        decreases rows@.len() - i,
    {
        if !rows[i].title.as_str().is_empty() && contains_text(
            to_lower_case(rows[i].title.as_str()).as_str(),
            wanted.as_str(),
        ) {
            visible.push(i);
        }
        i += 1;
        proof {
            assert(rows@.take(i as int).drop_last() =~= rows@.take(i - 1));
            assert(rows@.take(i as int).last() == rows@[i - 1]);
        }
    }
    proof {
        assert(rows@.take(i as int) =~= rows@);
    }
    visible
}

/// The resume picker.
#[derive(Debug)]
pub struct Conversations {
    pub rows: Vec<ConversationRow>,
    pub list: ListState,
    pub query: String,
    pub query_cursor: usize,
    pub opened_at_millis: u64,
    pub include_archived: bool,
}

/// What is to be done after a key in the resume picker. The numbers are indices
/// of rows.
#[derive(Clone, Copy, Debug, PartialEq, Eq, Structural)]
pub enum ConversationsStep {
    Stay,
    Resume(usize),
    /// Show archived conversations too, or no longer.
    ToggleArchived,
    ToggleFavourite(usize),
    Archive(usize),
    Delete(usize),
    /// Look for the edited query.
    Search,
}

impl Conversations {
    pub open spec fn capacity(self, rows: int) -> int {
        conversation_capacity(
            rows,
            self.include_archived,
            self.query@.len() > 0 && conversation_indices(self.rows@, self.query@).len() == 0,
        )
    }

    /// The row under the cursor.
    pub open spec fn row_spec(self, rows: int) -> Option<usize> {
        let visible = conversation_indices(self.rows@, self.query@);
        let at = self.list.reconciled(visible.len() as int, self.capacity(rows)).at_spec();
        if at < visible.len() { Some(visible[at]) } else { None }
    }

    pub open spec fn step(self, key: SurfaceKey, rows: int) -> ConversationsStep {
        let row = self.row_spec(rows);
        if action_of(key.code) is Some {
            ConversationsStep::Stay
        } else if key.code == KeyCode::Char('a') {
            ConversationsStep::ToggleArchived
        } else if key.code == KeyCode::Enter || key.code == KeyCode::Char('A') || key.code
            == KeyCode::Char('D') || (key.code == KeyCode::Char('f')
            && key.key.modifiers.is_empty()) {
            match row {
                None => ConversationsStep::Stay,
                Some(row) => if key.code == KeyCode::Enter {
                    ConversationsStep::Resume(row)
                } else if key.code == KeyCode::Char('A') {
                    ConversationsStep::Archive(row)
                } else if key.code == KeyCode::Char('D') {
                    ConversationsStep::Delete(row)
                } else {
                    ConversationsStep::ToggleFavourite(row)
                },
            }
        } else if field_takes(self.query@, self.query_cursor as int, key.key) {
            ConversationsStep::Search
        } else {
            ConversationsStep::Stay
        }
    }

    /// The effect of `key`.
    pub open spec fn key_effect(
        before: Self,
        after: Self,
        key: SurfaceKey,
        rows: usize,
        step: ConversationsStep,
    ) -> bool {
        &&& (after.rows == before.rows)
        &&& (after.opened_at_millis == before.opened_at_millis)
        &&& (step == before.step(key, rows as int))
        &&& (after.include_archived == (before.include_archived != (step
                == ConversationsStep::ToggleArchived)))
        &&& (after.list == list_after(
                before.list,
                conversation_indices(before.rows@, before.query@).len() as int,
                before.capacity(rows as int),
                key.code,
            ))
        &&& (field_is(
                after.query@,
                after.query_cursor as int,
                if step == ConversationsStep::Search {
                    field_after(before.query@, before.query_cursor as int, key.key)
                } else {
                    InputView::of(before.query@, before.query_cursor as int)
                },
            ))
    }

    /// A key in the resume picker, which has `rows` rows.
    pub fn key(&mut self, key: SurfaceKey, rows: usize) -> (step: ConversationsStep)
        ensures
            Self::key_effect(*old(self), *final(self), key, rows, step),
    {
        let visible: Vec<usize> = conversation_picker_indexes(
            self.rows.as_slice(),
            self.query.as_str(),
        );
        let capacity: usize = conversation_picker_item_capacity(
            rows,
            self.include_archived,
            !self.query.as_str().is_empty() && visible.len() == 0,
        );
        let moved: bool = move_list(&mut self.list, visible.len(), capacity, key.code);
        let at: usize = self.list.at();
        let row: Option<usize> = if at < visible.len() {
            Some(visible[at])
        } else {
            None
        };
        let command: bool = moved || key.code == KeyCode::Char('a') || key.code == KeyCode::Enter
            || key.code == KeyCode::Char('A') || key.code == KeyCode::Char('D') || (key.code
            == KeyCode::Char('f') && key.key.modifiers.is_empty());
        if !command {
            return if edit_field(&mut self.query, &mut self.query_cursor, key.key) {
                ConversationsStep::Search
            } else {
                ConversationsStep::Stay
            };
        }
        self.query_cursor = normalized(self.query.as_str(), self.query_cursor);
        if moved {
            return ConversationsStep::Stay;
        }
        if key.code == KeyCode::Char('a') {
            self.include_archived = !self.include_archived;
            return ConversationsStep::ToggleArchived;
        }
        match row {
            None => ConversationsStep::Stay,
            Some(row) => if key.code == KeyCode::Enter {
                ConversationsStep::Resume(row)
            } else if key.code == KeyCode::Char('A') {
                ConversationsStep::Archive(row)
            } else if key.code == KeyCode::Char('D') {
                ConversationsStep::Delete(row)
            } else {
                ConversationsStep::ToggleFavourite(row)
            },
        }
    }

    /// Shows the conversations that a new search found, from the first.
    pub fn restart(&mut self, rows: Vec<ConversationRow>)
        ensures
            final(self).rows == rows,
            final(self).query == old(self).query,
            final(self).query_cursor == old(self).query_cursor,
            final(self).include_archived == old(self).include_archived,
            final(self).opened_at_millis == old(self).opened_at_millis,
            final(self).list == settled(
                conversation_indices(rows@, ""@).len() as int,
                0,
                0,
                1,
            ),
    {
        let count: usize = conversation_picker_indexes(rows.as_slice(), "").len();
        self.rows = rows;
        self.list.reset(count);
    }

    /// Shows what is left once a conversation is archived or deleted.
    pub fn shrink(&mut self, rows: Vec<ConversationRow>, viewport_rows: usize)
        ensures
            final(self).rows == rows,
            final(self).query == old(self).query,
            final(self).query_cursor == old(self).query_cursor,
            final(self).include_archived == old(self).include_archived,
            final(self).opened_at_millis == old(self).opened_at_millis,
            final(self).list == old(self).list.reconciled(
                conversation_indices(rows@, ""@).len() as int,
                conversation_capacity(viewport_rows as int, old(self).include_archived, false),
            ),
    {
        let count: usize = conversation_picker_indexes(rows.as_slice(), "").len();
        let capacity: usize = conversation_picker_item_capacity(
            viewport_rows,
            self.include_archived,
            false,
        );
        self.rows = rows;
        self.list.reconcile(count, capacity);
    }
}

/// The tabs of the help page.
#[derive(Clone, Copy, Debug, PartialEq, Eq, Structural)]
pub enum HelpTab {
    Commands,
    Keybindings,
}

impl HelpTab {
    /// There are two tabs: each is the neighbour of the other on both sides.
    pub open spec fn other_spec(self) -> HelpTab {
        match self {
            HelpTab::Commands => HelpTab::Keybindings,
            HelpTab::Keybindings => HelpTab::Commands,
        }
    }

    pub fn other(self) -> (tab: HelpTab)
        ensures
            tab == self.other_spec(),
    {
        match self {
            HelpTab::Commands => HelpTab::Keybindings,
            HelpTab::Keybindings => HelpTab::Commands,
        }
    }
}

/// The help page.
#[derive(Debug)]
pub struct Help {
    pub tab: HelpTab,
    pub command_rows: Vec<(String, String)>,
    pub key_rows: Vec<(String, String)>,
    pub list: ScrollViewState,
}

/// The scroll action of a list action.
pub open spec fn scroll_action(action: ListAction) -> ScrollViewAction {
    match action {
        ListAction::Previous | ListAction::WheelPrevious => ScrollViewAction::Previous,
        ListAction::Next | ListAction::WheelNext => ScrollViewAction::Next,
        ListAction::PagePrevious => ScrollViewAction::PagePrevious,
        ListAction::PageNext => ScrollViewAction::PageNext,
        ListAction::Home => ScrollViewAction::Home,
        ListAction::End => ScrollViewAction::End,
    }
}

pub fn to_scroll_action(action: ListAction) -> (scroll: ScrollViewAction)
    ensures
        scroll == scroll_action(action),
{
    match action {
        ListAction::Previous | ListAction::WheelPrevious => ScrollViewAction::Previous,
        ListAction::Next | ListAction::WheelNext => ScrollViewAction::Next,
        ListAction::PagePrevious => ScrollViewAction::PagePrevious,
        ListAction::PageNext => ScrollViewAction::PageNext,
        ListAction::Home => ScrollViewAction::Home,
        ListAction::End => ScrollViewAction::End,
    }
}

/// The rows of a tab.
pub open spec fn tab_rows(help: Help, tab: HelpTab) -> Seq<(String, String)> {
    match tab {
        HelpTab::Commands => help.command_rows@,
        HelpTab::Keybindings => help.key_rows@,
    }
}

/// Shows another tab, from its start; the result says whether it is another.
pub fn change_help_tab(
    tab: &mut HelpTab,
    command_rows: &[(String, String)],
    key_rows: &[(String, String)],
    list: &mut ScrollViewState,
    next: HelpTab,
) -> (changed: bool)
    ensures
        changed == (*old(tab) != next),
        *final(tab) == next,
        *final(list) == if changed {
            ScrollViewState {
                offset: 0,
                content_rows: match next {
                    HelpTab::Commands => command_rows@.len() as usize,
                    HelpTab::Keybindings => key_rows@.len() as usize,
                },
            }
        } else {
            *old(list)
        },
{
    if *tab == next {
        return false;
    }
    *tab = next;
    let count: usize = match next {
        HelpTab::Commands => command_rows.len(),
        HelpTab::Keybindings => key_rows.len(),
    };
    list.reset(count);
    true
}

impl Help {
    /// The effect of `key`.
    pub open spec fn key_effect(
        before: Self,
        after: Self,
        code: KeyCode,
    ) -> bool {
        &&& (after.command_rows == before.command_rows)
        &&& (after.key_rows == before.key_rows)
        &&& (after.tab == if code == KeyCode::Left || code == KeyCode::Right {
                before.tab.other_spec()
            } else {
                before.tab
            })
        &&& (after.list == {
                let list = before.list.reconciled(
                    tab_rows(before, before.tab).len() as int,
                    VISIBLE_HELP_ITEMS as int,
                );
                match action_of(code) {
                    Some(action) => list.applied(scroll_action(action), VISIBLE_HELP_ITEMS as int),
                    None => if code == KeyCode::Left || code == KeyCode::Right {
                        ScrollViewState {
                            offset: 0,
                            content_rows: tab_rows(
                                before,
                                after.tab,
                            ).len() as usize,
                        }
                    } else {
                        list
                    },
                }
            })
    }

    /// A key on the help page.
    pub fn key(&mut self, code: KeyCode)
        ensures
            Self::key_effect(*old(self), *final(self), code),
    {
        let count: usize = match self.tab {
            HelpTab::Commands => self.command_rows.len(),
            HelpTab::Keybindings => self.key_rows.len(),
        };
        self.list.reconcile(count, VISIBLE_HELP_ITEMS);
        if let Some(action) = list_action(code) {
            self.list.apply(to_scroll_action(action), VISIBLE_HELP_ITEMS);
        } else if code == KeyCode::Left || code == KeyCode::Right {
            let next: HelpTab = self.tab.other();
            change_help_tab(
                &mut self.tab,
                self.command_rows.as_slice(),
                self.key_rows.as_slice(),
                &mut self.list,
                next,
            );
        }
    }
}

/// The effect of `expanded_key`.
pub open spec fn expanded_key_effect(
    scroll: usize,
    last: usize,
    capacity: usize,
    code: KeyCode,
    offset: usize,
) -> bool {
    &&& (({
            let state = ScrollViewState {
                offset: min(scroll as int, last as int) as usize,
                content_rows: (last + capacity) as usize,
            };
            offset == match action_of(code) {
                None => state.offset,
                Some(action) => state.applied(scroll_action(action), capacity as int).offset,
            }
        }))
    &&& (offset <= last)
}

/// Where an expanded view is scrolled to by a key; `last` is its last position
/// and `capacity` its rows.
pub fn expanded_key(scroll: usize, last: usize, capacity: usize, code: KeyCode) -> (offset: usize)
    requires
        last + capacity <= usize::MAX,
    ensures
        expanded_key_effect(scroll, last, capacity, code, offset),
{
    let mut state = ScrollViewState {
        offset: if scroll <= last {
            scroll
        } else {
            last
        },
        content_rows: last + capacity,
    };
    if let Some(action) = list_action(code) {
        state.apply(to_scroll_action(action), capacity);
    }
    state.offset
}

/// What is to be done after a key among path completions.
#[derive(Clone, Copy, Debug, PartialEq, Eq, Structural)]
pub enum PathsStep {
    Stay,
    /// Leave, having completed the path with this index, if there is any.
    Complete(Option<usize>),
}

/// The effect of `paths_key`.
pub open spec fn paths_key_effect(
    list: ListState,
    new_list: ListState,
    rows: usize,
    code: KeyCode,
    step: PathsStep,
) -> bool {
    &&& (new_list == list_after(list, rows as int, VISIBLE_MENU_ITEMS as int, code))
    &&& (step == if code == KeyCode::Enter {
            PathsStep::Complete(new_list.selected)
        } else {
            PathsStep::Stay
        })
    &&& (step matches PathsStep::Complete(Some(index)) ==> index < rows)
}

/// A key among path completions.
pub fn paths_key(list: &mut ListState, rows: usize, code: KeyCode) -> (step: PathsStep)
    ensures
        paths_key_effect(*old(list), *final(list), rows, code, step),
{
    let moved: bool = move_list(list, rows, VISIBLE_MENU_ITEMS, code);
    if !moved && code == KeyCode::Enter {
        PathsStep::Complete(list.selected)
    } else {
        PathsStep::Stay
    }
}

/// What is to be done after a key among worktrees.
#[derive(Clone, Copy, Debug, PartialEq, Eq, Structural)]
pub enum WorktreesStep {
    Stay,
    New,
    /// Work in the worktree with this index.
    Switch(usize),
}

/// The effect of `worktrees_key`.
pub open spec fn worktrees_key_effect(
    list: ListState,
    new_list: ListState,
    rows: usize,
    code: KeyCode,
    step: WorktreesStep,
) -> bool {
    &&& (new_list == list_after(list, rows + 1, VISIBLE_MENU_ITEMS as int, code))
    &&& (step == if code != KeyCode::Enter {
            WorktreesStep::Stay
        } else if new_list.at_spec() == 0 {
            WorktreesStep::New
        } else {
            WorktreesStep::Switch((new_list.at_spec() - 1) as usize)
        })
    &&& (step matches WorktreesStep::Switch(index) ==> index < rows)
}

/// A key among worktrees: the first item makes one.
pub fn worktrees_key(list: &mut ListState, rows: usize, code: KeyCode) -> (step: WorktreesStep)
    requires
        rows < usize::MAX,
    ensures
        worktrees_key_effect(*old(list), *final(list), rows, code, step),
{
    let moved: bool = move_list(list, rows + 1, VISIBLE_MENU_ITEMS, code);
    if moved || code != KeyCode::Enter {
        return WorktreesStep::Stay;
    }
    let at: usize = list.at();
    if at == 0 {
        WorktreesStep::New
    } else {
        WorktreesStep::Switch(at - 1)
    }
}

/// A worktree that is being made.
#[derive(Debug)]
pub struct WorktreeNew {
    pub name: String,
    pub base: String,
    pub cursor: usize,
    pub editing_base: bool,
}

/// What is to be done after a key where a worktree is made.
#[derive(Debug)]
pub enum WorktreeNewStep {
    Stay,
    /// A worktree needs a name.
    NameRequired,
    /// Make the worktree; without a base it starts where the workspace is.
    Create { name: String, base: Option<String> },
}

impl WorktreeNew {
    /// Whether a key goes to the other field.
    pub open spec fn switches(self, code: KeyCode) -> bool {
        code == KeyCode::Tab || code == KeyCode::BackTab || (code == KeyCode::Enter
            && !self.editing_base)
    }

    /// The effect of `key`.
    pub open spec fn key_effect(
        before: Self,
        after: Self,
        key: SurfaceKey,
        step: WorktreeNewStep,
    ) -> bool {
        &&& (if before.switches(key.key.code) {
                &&& step is Stay
                &&& after.name == before.name
                &&& after.base == before.base
                &&& after.editing_base == !before.editing_base
                &&& after.cursor == if after.editing_base {
                    utf8_len(before.base@)
                } else {
                    utf8_len(before.name@)
                }
            } else if key.key.code == KeyCode::Enter {
                &&& after == before
                &&& if trimmed(before.name@).len() == 0 {
                    step is NameRequired
                } else {
                    step matches WorktreeNewStep::Create { name, base } && name@ == trimmed(
                        before.name@,
                    ) && match base {
                        None => trimmed(before.base@).len() == 0,
                        Some(base) => base@ == trimmed(before.base@) && base@.len() > 0,
                    }
                }
            } else {
                &&& step is Stay
                &&& after.editing_base == before.editing_base
                &&& if before.editing_base {
                    &&& after.name == before.name
                    &&& field_is(
                        after.base@,
                        after.cursor as int,
                        field_after(before.base@, before.cursor as int, key.key),
                    )
                } else {
                    &&& after.base == before.base
                    &&& field_is(
                        after.name@,
                        after.cursor as int,
                        field_after(before.name@, before.cursor as int, key.key),
                    )
                }
            })
    }

    pub fn key(&mut self, key: SurfaceKey) -> (step: WorktreeNewStep)
        ensures
            Self::key_effect(*old(self), *final(self), key, step),
    {
        let code = key.key.code;
        if code == KeyCode::Tab || code == KeyCode::BackTab || (code == KeyCode::Enter
            && !self.editing_base) {
            self.editing_base = !self.editing_base;
            self.cursor =
            if self.editing_base {
                byte_len(self.base.as_str())
            } else {
                byte_len(self.name.as_str())
            };
            return WorktreeNewStep::Stay;
        }
        if code == KeyCode::Enter {
            let name: String = trim(self.name.as_str());
            if name.as_str().is_empty() {
                return WorktreeNewStep::NameRequired;
            }
            let base: String = trim(self.base.as_str());
            let base: Option<String> = if base.as_str().is_empty() {
                None
            } else {
                Some(base)
            };
            return WorktreeNewStep::Create { name, base };
        }
        if self.editing_base {
            edit_field(&mut self.base, &mut self.cursor, key.key);
        } else {
            edit_field(&mut self.name, &mut self.cursor, key.key);
        }
        WorktreeNewStep::Stay
    }
}

/// What is to be done after a key among permission rules. The numbers are
/// indices of rows.
#[derive(Clone, Copy, Debug, PartialEq, Eq, Structural)]
pub enum PermissionsStep {
    Stay,
    Close,
    Edit(usize),
    /// The rule has nothing to edit.
    NotEditable,
    Delete(usize),
}

/// The effect of `permissions_key`.
pub open spec fn permissions_key_effect(
    list: ListState,
    new_list: ListState,
    editable: Seq<bool>,
    key: SurfaceKey,
    step: PermissionsStep,
) -> bool {
    &&& (new_list == list_after(
            list,
            editable.len() as int + 1,
            VISIBLE_MENU_ITEMS as int,
            key.code,
        ))
    &&& (step == {
            let at = new_list.at_spec();
            if action_of(key.code) is Some {
                PermissionsStep::Stay
            } else if at == 0 {
                if key.submit { PermissionsStep::Close } else { PermissionsStep::Stay }
            } else if key.key.code == KeyCode::Char('e') {
                if editable[at - 1] {
                    PermissionsStep::Edit((at - 1) as usize)
                } else {
                    PermissionsStep::NotEditable
                }
            } else if key.key.code == KeyCode::Char('d') {
                PermissionsStep::Delete((at - 1) as usize)
            } else {
                PermissionsStep::Stay
            }
        })
}

/// A key among permission rules: the first item leaves. `editable` says of each
/// rule whether it has a pattern to edit.
pub fn permissions_key(list: &mut ListState, editable: &[bool], key: SurfaceKey) -> (step:
    PermissionsStep)
    requires
        editable@.len() < usize::MAX,
    ensures
        permissions_key_effect(*old(list), *final(list), editable@, key, step),
{
    let moved: bool = move_list(list, editable.len() + 1, VISIBLE_MENU_ITEMS, key.code);
    if moved {
        return PermissionsStep::Stay;
    }
    let at: usize = list.at();
    if at == 0 {
        return if key.submit {
            PermissionsStep::Close
        } else {
            PermissionsStep::Stay
        };
    }
    if key.key.code == KeyCode::Char('e') {
        if editable[at - 1] {
            PermissionsStep::Edit(at - 1)
        } else {
            PermissionsStep::NotEditable
        }
    } else if key.key.code == KeyCode::Char('d') {
        PermissionsStep::Delete(at - 1)
    } else {
        PermissionsStep::Stay
    }
}

/// What is to be done after a key on the usage page.
#[derive(Clone, Copy, Debug, PartialEq, Eq, Structural)]
pub enum UsageStep {
    Stay,
    Close,
    /// Ask whether to reset the usage.
    Reset,
    ByProject,
    ByModel,
}

/// The effect of `usage_key`.
pub open spec fn usage_key_effect(
    list: ListState,
    new_list: ListState,
    key: SurfaceKey,
    step: UsageStep,
) -> bool {
    &&& (new_list == list_after(list, 4, VISIBLE_MENU_ITEMS as int, key.code))
    &&& (step == if action_of(key.code) is Some || !key.submit {
            UsageStep::Stay
        } else if new_list.at_spec() == 0 {
            UsageStep::Close
        } else if new_list.at_spec() == 1 {
            UsageStep::Reset
        } else if new_list.at_spec() == 2 {
            UsageStep::ByProject
        } else {
            UsageStep::ByModel
        })
}

/// A key on the usage page.
pub fn usage_key(list: &mut ListState, key: SurfaceKey) -> (step: UsageStep)
    ensures
        usage_key_effect(*old(list), *final(list), key, step),
{
    let moved: bool = move_list(list, 4, VISIBLE_MENU_ITEMS, key.code);
    if moved || !key.submit {
        return UsageStep::Stay;
    }
    match list.at() {
        0 => UsageStep::Close,
        1 => UsageStep::Reset,
        2 => UsageStep::ByProject,
        _ => UsageStep::ByModel,
    }
}

/// No more conversations are shown than there are.
pub proof fn lemma_conversations_shown(rows: Seq<ConversationRow>, query: Seq<char>)
    ensures
        conversation_indices(rows, query).len() <= rows.len(),
    decreases rows.len(),
{
    if rows.len() > 0 {
        lemma_conversations_shown(rows.drop_last(), query);
    }
}

} // verus!
