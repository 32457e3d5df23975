//! Selectable lists: which item is selected, which are visible, and which
//! rows of the screen belong to which item.

use vstd::prelude::*;
use vstd::string::*;
use crate::style::{
    append_lines, blank_line, line, line_views, push_line, span, Line, LineView, Role, Style,
};

verus! {

/// The items that a menu shows at once.
pub const VISIBLE_MENU_ITEMS: usize = 8;

/// The rows that a help page shows at once.
pub const VISIBLE_HELP_ITEMS: usize = 12;

/// A list's selection and scroll position.
#[derive(Clone, Copy, Debug, PartialEq, Eq, Structural)]
pub struct ListState {
    pub selected: Option<usize>,
    pub offset: usize,
    pub item_count: usize,
}

/// A movement of the selection.
#[derive(Clone, Copy, Debug, PartialEq, Eq, Structural)]
pub enum ListAction {
    Previous,
    Next,
    PagePrevious,
    PageNext,
    WheelPrevious,
    WheelNext,
    Home,
    End,
}

/// What a row of a list is.
#[derive(Clone, Copy, Debug, PartialEq, Eq, Structural)]
pub enum ListHit {
    Blank,
    /// The indicator of items above the visible ones.
    Up,
    /// The indicator of items below the visible ones.
    Down,
    Item(usize),
}

/// The smaller of two numbers.
pub open spec fn min(a: int, b: int) -> int {
    if a <= b { a } else { b }
}

/// The larger of two numbers.
pub open spec fn max(a: int, b: int) -> int {
    if a >= b { a } else { b }
}

/// The scroll position nearest to `offset` at which `selected` is visible and
/// no row below the last item is.
pub open spec fn settled_offset(count: int, selected: int, offset: int, capacity: int) -> int {
    let rows = max(capacity, 1);
    let kept = min(offset, max(count - rows, 0));
    if selected < kept {
        selected
    } else if selected >= kept + rows {
        selected + 1 - rows
    } else {
        kept
    }
}

/// A list of `count` items with one near `selected` selected and visible.
pub open spec fn settled(count: int, selected: int, offset: int, capacity: int) -> ListState {
    if count <= 0 {
        ListState { selected: None, offset: 0, item_count: 0 }
    } else {
        let at = min(max(selected, 0), count - 1);
        ListState {
            selected: Some(at as usize),
            offset: settled_offset(count, at, offset, capacity) as usize,
            item_count: count as usize,
        }
    }
}

fn settle(count: usize, selected: usize, offset: usize, capacity: usize) -> (list: ListState)
    ensures
        list == settled(count as int, selected as int, offset as int, capacity as int),
        list.valid(capacity as int),
{
    if count == 0 {
        return ListState { selected: None, offset: 0, item_count: 0 };
    }
    let at: usize = if selected < count {
        selected
    } else {
        count - 1
    };
    let rows: usize = if capacity == 0 {
        1
    } else {
        capacity
    };
    let last: usize = count.saturating_sub(rows);
    let kept: usize = if offset <= last {
        offset
    } else {
        last
    };
    let offset: usize = if at < kept {
        at
    } else if at - kept >= rows {
        at + 1 - rows
    } else {
        kept
    };
    ListState { selected: Some(at), offset, item_count: count }
}

impl ListState {
    /// Something is selected if there is anything to select, the selection is
    /// an item, and it is visible.
    pub open spec fn valid(self, capacity: int) -> bool {
        match self.selected {
            None => self.item_count == 0 && self.offset == 0,
            Some(selected) => {
                &&& selected < self.item_count
                &&& self.offset <= selected < self.offset + max(capacity, 1)
                &&& self.offset <= max(self.item_count - max(capacity, 1), 0)
            },
        }
    }

    /// The selection, or the first item.
    pub open spec fn at_spec(self) -> int {
        match self.selected {
            None => 0,
            Some(selected) => selected as int,
        }
    }

    /// The selection, or the first item.
    pub fn at(&self) -> (selected: usize)
        ensures
            selected == self.at_spec(),
    {
        match self.selected {
            None => 0,
            Some(selected) => selected,
        }
    }

    /// A list with its first item selected.
    pub fn selectable(count: usize) -> (list: Self)
        ensures
            list == settled(count as int, 0, 0, 1),
            forall|capacity: int| list.valid(capacity),
    {
        settle(count, 0, 0, 1)
    }

    /// A list with the item nearest to `selected` selected.
    pub fn selectable_at(count: usize, selected: usize, capacity: usize) -> (list: Self)
        ensures
            list == settled(count as int, selected as int, 0, capacity as int),
            list.valid(capacity as int),
    {
        settle(count, selected, 0, capacity)
    }

    /// The same selection among `count` items.
    pub open spec fn reconciled(self, count: int, capacity: int) -> ListState {
        settled(count, self.at_spec(), self.offset as int, capacity)
    }

    /// Adapts the list to a changed number of items.
    pub fn reconcile(&mut self, count: usize, capacity: usize)
        ensures
            *final(self) == old(self).reconciled(count as int, capacity as int),
            final(self).valid(capacity as int),
    {
        *self = settle(count, self.at(), self.offset, capacity);
    }

    /// Starts over with `count` items.
    pub fn reset(&mut self, count: usize)
        ensures
            *final(self) == settled(count as int, 0, 0, 1),
            forall|capacity: int| final(self).valid(capacity),
    {
        *self = ListState::selectable(count);
    }

    pub open spec fn selecting(self, selected: int, capacity: int) -> ListState {
        settled(self.item_count as int, selected, self.offset as int, capacity)
    }

    /// Selects the item nearest to `selected`.
    pub fn select(&mut self, selected: usize, capacity: usize)
        ensures
            *final(self) == old(self).selecting(selected as int, capacity as int),
            final(self).valid(capacity as int),
    {
        *self = settle(self.item_count, selected, self.offset, capacity);
    }

    /// The item that an action selects, before it is brought into range.
    pub open spec fn target(self, action: ListAction, capacity: int) -> int {
        let at = self.at_spec();
        let page = max(capacity, 1);
        match action {
            ListAction::Previous | ListAction::WheelPrevious => at - 1,
            ListAction::Next | ListAction::WheelNext => at + 1,
            ListAction::PagePrevious => at - page,
            ListAction::PageNext => at + page,
            ListAction::Home => 0,
            ListAction::End => self.item_count - 1,
        }
    }

    /// The list after an action.
    pub open spec fn applied(self, action: ListAction, capacity: int) -> ListState {
        self.selecting(self.target(action, capacity), capacity)
    }

    /// Moves the selection; it stops at either end.
    pub fn apply(&mut self, action: ListAction, capacity: usize)
        ensures
            *final(self) == old(self).applied(action, capacity as int),
            final(self).valid(capacity as int),
    {
        let at: usize = self.at();
        let page: usize = if capacity == 0 {
            1
        } else {
            capacity
        };
        let last: usize = self.item_count.saturating_sub(1);
        let target: usize = match action {
            ListAction::Previous | ListAction::WheelPrevious => at.saturating_sub(1),
            ListAction::Next | ListAction::WheelNext => at.saturating_add(1),
            ListAction::PagePrevious => at.saturating_sub(page),
            ListAction::PageNext => at.saturating_add(page),
            ListAction::Home => 0,
            ListAction::End => last,
        };
        *self = settle(self.item_count, target, self.offset, capacity);
    }

    /// The end of the visible items, which start at `offset`.
    pub open spec fn visible_end_spec(self, capacity: int) -> int {
        min(self.offset + capacity, self.item_count as int)
    }

    /// The visible items.
    pub fn visible_range(&self, capacity: usize) -> (range: (usize, usize))
        requires
            self.offset <= self.item_count,
        ensures
            range.0 == self.offset,
            range.1 == self.visible_end_spec(capacity as int),
            range.0 <= range.1 <= self.item_count,
    {
        let end: usize = self.offset.saturating_add(capacity);
        (
            self.offset,
            if end <= self.item_count {
                end
            } else {
                self.item_count
            },
        )
    }
}

/// `count` times the same hit.
pub open spec fn filled(hit: ListHit, count: nat) -> Seq<ListHit> {
    Seq::new(count, |i: int| hit)
}

/// The rows of the items from `start` to `end`.
pub open spec fn item_hits(heights: Seq<usize>, start: int, end: int) -> Seq<ListHit>
    decreases end - start,
{
    if start >= end {
        Seq::empty()
    } else {
        item_hits(heights, start, end - 1) + filled(
            ListHit::Item((end - 1) as usize),
            heights[end - 1] as nat,
        )
    }
}

/// How a list is laid out: its visible items between two indicator rows.
#[derive(Clone, Copy, Debug, PartialEq, Eq, Structural)]
pub struct ListWidget {
    /// The items that are shown at once.
    pub capacity: usize,
    /// Whether there is an indicator row above the items.
    pub top: bool,
    /// Whether there is an indicator row below the items.
    pub bottom: bool,
    /// The rows that stand in for the items of an empty list.
    pub empty_rows: usize,
    /// Blank rows behind the items.
    pub trailing: usize,
}

/// The line of an indicator row.
pub open spec fn indicator_line(up: bool, shown: bool) -> LineView {
    if shown {
        LineView {
            spans: seq![span(if up { "  \u{2191}"@ } else { "  \u{2193}"@ }, Style::plain())],
            base: Style::of(Role::Dim),
        }
    } else {
        blank_line()
    }
}

/// Shared indicator row for both selectable lists and content scrollers.
pub fn scroll_indicator(up: bool, visible: bool) -> (line: Line)
    ensures
        line@ == indicator_line(up, visible),
{
    if visible {
        let mut line = Line::raw(
            if up {
                "  \u{2191}"
            } else {
                "  \u{2193}"
            },
        );
        line.base = Style::of(Role::Dim);
        line
    } else {
        Line::new()
    }
}

impl ListWidget {
    /// A list of at most `capacity` visible items with both indicator rows.
    pub open spec fn of(capacity: int) -> ListWidget {
        ListWidget {
            capacity: capacity as usize,
            top: true,
            bottom: true,
            empty_rows: 0,
            trailing: 0,
        }
    }

    pub fn new(capacity: usize) -> (widget: Self)
        ensures
            widget == ListWidget::of(capacity as int),
    {
        ListWidget { capacity, top: true, bottom: true, empty_rows: 0, trailing: 0 }
    }

    /// Whether items are hidden above the visible ones.
    pub open spec fn more_above(self, state: ListState) -> bool {
        state.offset > 0
    }

    /// Whether items are hidden below the visible ones.
    pub open spec fn more_below(self, state: ListState) -> bool {
        state.offset + self.capacity < state.item_count
    }

    /// What each row of the list is, when the items take the given heights.
    pub open spec fn hits_spec(self, state: ListState, heights: Seq<usize>) -> Seq<ListHit> {
        let above = if self.more_above(state) { ListHit::Up } else { ListHit::Blank };
        let below = if self.more_below(state) { ListHit::Down } else { ListHit::Blank };
        let items = if state.item_count == 0 {
            filled(ListHit::Blank, self.empty_rows as nat)
        } else {
            item_hits(heights, state.offset as int, state.visible_end_spec(self.capacity as int))
        };
        filled(above, if self.top { 1 } else { 0 }) + items + filled(
            ListHit::Blank,
            self.trailing as nat,
        ) + filled(below, if self.bottom { 1 } else { 0 })
    }

    /// What each row of the list is, when the items take the given heights.
    pub fn hits(&self, state: &ListState, heights: &[usize]) -> (hits: Vec<ListHit>)
        requires
            state.offset <= state.item_count == heights@.len(),
        ensures
            hits@ == self.hits_spec(*state, heights@),
    {
        let mut hits: Vec<ListHit> = Vec::new();
        if self.top {
            hits.push(
                if state.offset > 0 {
                    ListHit::Up
                } else {
                    ListHit::Blank
                },
            );
        }
        let ghost above = if self.more_above(*state) { ListHit::Up } else { ListHit::Blank };
        let ghost head = filled(above, if self.top { 1 } else { 0 });
        proof {
            assert(hits@ =~= head);
        }
        let range = state.visible_range(self.capacity);
        if state.item_count == 0 {
            push_hits(&mut hits, ListHit::Blank, self.empty_rows);
        } else {
            let mut i: usize = range.0;
            proof {
                assert(head + Seq::<ListHit>::empty() =~= head);
            }
            while i < range.1
                invariant
                    range.0 <= i <= range.1 <= heights@.len(),
                    hits@ == head + item_hits(heights@, range.0 as int, i as int),
                decreases range.1 - i,
            {
                let ghost before = hits@;
                push_hits(&mut hits, ListHit::Item(i), heights[i]);
                proof {
                    assert(hits@ =~= head + item_hits(heights@, range.0 as int, i + 1));
                }
                i += 1;
            }
        }
        let ghost items = if state.item_count == 0 {
            filled(ListHit::Blank, self.empty_rows as nat)
        } else {
            item_hits(heights@, state.offset as int, state.visible_end_spec(self.capacity as int))
        };
        assert(hits@ =~= head + items);
        push_hits(&mut hits, ListHit::Blank, self.trailing);
        if self.bottom {
            let more: bool = state.item_count - state.offset > self.capacity;
            hits.push(
                if more {
                    ListHit::Down
                } else {
                    ListHit::Blank
                },
            );
        }
        proof {
            assert(hits@ =~= self.hits_spec(*state, heights@));
        }
        hits
    }

    /// The rows of the list: `items` are the rows of the visible items, or of
    /// what stands in for them.
    pub open spec fn lines_spec(self, state: ListState, items: Seq<LineView>) -> Seq<LineView> {
        Seq::new(
            if self.top { 1 } else { 0 },
            |i: int| indicator_line(true, self.more_above(state)),
        ) + items + Seq::new(self.trailing as nat, |i: int| blank_line()) + Seq::new(
            if self.bottom { 1 } else { 0 },
            |i: int| indicator_line(false, self.more_below(state)),
        )
    }

    /// Puts the indicator rows around the rows of the visible items.
    pub fn lines(&self, state: &ListState, items: Vec<Line>) -> (lines: Vec<Line>)
        requires
            state.offset <= state.item_count,
        ensures
            line_views(lines@) == self.lines_spec(*state, line_views(items@)),
    {
        let mut lines: Vec<Line> = Vec::new();
        if self.top {
            push_line(&mut lines, scroll_indicator(true, state.offset > 0));
        }
        append_lines(&mut lines, items);
        let mut i: usize = 0;
        let ghost so_far = line_views(lines@);
        while i < self.trailing
            invariant
                i <= self.trailing,
                line_views(lines@) == so_far + Seq::new(i as nat, |k: int| blank_line()),
            decreases self.trailing - i,
        {
            push_line(&mut lines, Line::new());
            i += 1;
            proof {
                assert(line_views(lines@) =~= so_far + Seq::new(i as nat, |k: int| blank_line()));
            }
        }
        if self.bottom {
            let more: bool = state.item_count - state.offset > self.capacity;
            push_line(&mut lines, scroll_indicator(false, more));
        }
        proof {
            assert(line_views(lines@) =~= self.lines_spec(*state, line_views(items@)));
        }
        lines
    }
}

/// Appends a hit a number of times.
pub fn push_hits(hits: &mut Vec<ListHit>, hit: ListHit, count: usize)
    ensures
        final(hits)@ == old(hits)@ + filled(hit, count as nat),
{
    let mut i: usize = 0;
    let ghost before = hits@;
    while i < count
        invariant
            i <= count,
            hits@ == before + filled(hit, i as nat),
        decreases count - i,
    {
        hits.push(hit);
        i += 1;
        proof {
            assert(hits@ =~= before + filled(hit, i as nat));
        }
    }
}

/// `count` times the same height.
pub open spec fn equal_heights(height: usize, count: int) -> Seq<usize> {
    Seq::new(count as nat, |i: int| height)
}

/// `count` times the same height.
pub fn same_heights(height: usize, count: usize) -> (heights: Vec<usize>)
    ensures
        heights@ == equal_heights(height, count as int),
{
    let mut heights: Vec<usize> = Vec::new();
    let mut i: usize = 0;
    while i < count
        invariant
            i <= count,
            heights@ == equal_heights(height, i as int),
        decreases count - i,
    {
        heights.push(height);
        i += 1;
        proof {
            assert(heights@ =~= equal_heights(height, i as int));
        }
    }
    heights
}

/// The sum of the heights of the items from `start` to `end`.
pub open spec fn total_height(heights: Seq<usize>, start: int, end: int) -> int
    decreases end - start,
{
    if start >= end {
        0
    } else {
        total_height(heights, start, end - 1) + heights[end - 1]
    }
}

pub proof fn lemma_item_hits_len(heights: Seq<usize>, start: int, end: int)
    ensures
        item_hits(heights, start, end).len() == total_height(heights, start, end),
    decreases end - start,
{
    if start < end {
        lemma_item_hits_len(heights, start, end - 1);
    }
}

/// A list's rows and hits stay aligned: there are as many hits as there are
/// lines, if the items are drawn at the heights that the hits count.
pub proof fn law_list_rows_and_hits_align(
    widget: ListWidget,
    state: ListState,
    heights: Seq<usize>,
    items: Seq<LineView>,
)
    requires
        items.len() == if state.item_count == 0 {
            widget.empty_rows as int
        } else {
            total_height(
                heights,
                state.offset as int,
                state.visible_end_spec(widget.capacity as int),
            )
        },
    ensures
        widget.hits_spec(state, heights).len() == widget.lines_spec(state, items).len(),
{
    lemma_item_hits_len(
        heights,
        state.offset as int,
        state.visible_end_spec(widget.capacity as int),
    );
}

/// Every movement keeps a list valid, and reconciling an unchanged list
/// changes nothing.
pub proof fn law_list_stays_valid(state: ListState, action: ListAction, capacity: int)
    requires
        0 <= capacity <= usize::MAX,
        state.valid(capacity),
    ensures
        state.applied(action, capacity).valid(capacity),
        state.applied(action, capacity).item_count == state.item_count,
        state.reconciled(state.item_count as int, capacity) == state,
{
}

/// `Next` undoes `Previous` and the reverse, away from the ends.
pub proof fn law_list_steps_undo_each_other(state: ListState, capacity: int)
    requires
        0 <= capacity <= usize::MAX,
        state.valid(capacity),
    ensures
        state.at_spec() > 0 ==> state.applied(ListAction::Previous, capacity).applied(
            ListAction::Next,
            capacity,
        ).selected == state.selected,
        state.at_spec() + 1 < state.item_count ==> state.applied(ListAction::Next, capacity).applied(
            ListAction::Previous,
            capacity,
        ).selected == state.selected,
{
}

/// The rows of a list whose visible items take one row each; `empty` rows stand for the
/// items of an empty list.
pub open spec fn rows_covered(state: ListState, widget: ListWidget, empty: int) -> int {
    (if widget.top { 1int } else { 0 }) + (if state.item_count == 0 {
        empty
    } else {
        max(state.visible_end_spec(widget.capacity as int) - state.offset, 0)
    }) + widget.trailing + (if widget.bottom { 1int } else { 0 })
}

proof fn lemma_total_of_ones(count: int, start: int, end: int)
    requires
        0 <= start,
        end <= count,
    ensures
        total_height(equal_heights(1, count), start, end) == max(end - start, 0),
    decreases end - start,
{
    if start < end {
        lemma_total_of_ones(count, start, end - 1);
    }
}

/// A list whose items take one row each has as many hits as it covers rows.
pub proof fn lemma_hits_cover(state: ListState, widget: ListWidget)
    ensures
        widget.hits_spec(state, equal_heights(1, state.item_count as int)).len() == rows_covered(
            state,
            widget,
            widget.empty_rows as int,
        ),
{
    let heights = equal_heights(1, state.item_count as int);
    let end = state.visible_end_spec(widget.capacity as int);
    lemma_total_of_ones(state.item_count as int, state.offset as int, end);
    lemma_item_hits_len(heights, state.offset as int, end);
}

} // verus!
