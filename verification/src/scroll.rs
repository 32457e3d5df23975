//! Scrolled content: a window of rows between two indicator rows.

use vstd::prelude::*;
use crate::list::{indicator_line, max, min, scroll_indicator};
use crate::style::{append_lines, line_views, push_line, Line, LineView};

verus! {

/// A window's position in its content.
#[derive(Clone, Copy, Debug, PartialEq, Eq, Structural)]
pub struct ScrollViewState {
    pub offset: usize,
    pub content_rows: usize,
}

/// A movement of the window.
#[derive(Clone, Copy, Debug, PartialEq, Eq, Structural)]
pub enum ScrollViewAction {
    Previous,
    Next,
    PagePrevious,
    PageNext,
    Home,
    End,
}

/// What a row of a scrolled view is.
#[derive(Clone, Copy, Debug, PartialEq, Eq, Structural)]
pub enum ScrollViewHit {
    Blank,
    /// A row of the content.
    Content(usize),
    /// An indicator, and what a click on it does.
    Indicator(ScrollViewAction),
}

/// The geometry of a scrolled view.
#[derive(Clone, Copy, Debug, PartialEq, Eq, Structural)]
pub struct ScrollViewMetrics {
    pub content_rows: usize,
    pub capacity: usize,
    pub maximum_offset: usize,
}

/// The last position of a window of `capacity` rows in `rows` rows.
pub open spec fn maximum_offset(rows: int, capacity: int) -> int {
    max(rows - capacity, 0)
}

impl ScrollViewState {
    /// The window lies within its content.
    pub open spec fn valid(self, capacity: int) -> bool {
        self.offset <= maximum_offset(self.content_rows as int, capacity)
    }

    /// The start of some content.
    pub fn new(content_rows: usize) -> (state: Self)
        ensures
            state == (ScrollViewState { offset: 0, content_rows }),
    {
        ScrollViewState { offset: 0, content_rows }
    }

    /// Starts over with other content.
    pub fn reset(&mut self, content_rows: usize)
        ensures
            *final(self) == (ScrollViewState { offset: 0, content_rows }),
    {
        *self = ScrollViewState::new(content_rows);
    }

    /// The window nearest to this one in `rows` rows.
    pub open spec fn reconciled(self, rows: int, capacity: int) -> ScrollViewState {
        ScrollViewState {
            offset: min(self.offset as int, maximum_offset(rows, capacity)) as usize,
            content_rows: rows as usize,
        }
    }

    /// Adapts the window to changed content.
    pub fn reconcile(&mut self, rows: usize, capacity: usize)
        ensures
            *final(self) == old(self).reconciled(rows as int, capacity as int),
            final(self).valid(capacity as int),
    {
        let last: usize = rows.saturating_sub(capacity);
        let offset: usize = if self.offset <= last {
            self.offset
        } else {
            last
        };
        *self = ScrollViewState { offset, content_rows: rows };
    }

    /// The position that an action asks for, before it is brought into range.
    pub open spec fn target(self, action: ScrollViewAction, capacity: int) -> int {
        let page = max(capacity, 1);
        match action {
            ScrollViewAction::Previous => self.offset - 1,
            ScrollViewAction::Next => self.offset + 1,
            ScrollViewAction::PagePrevious => self.offset - page,
            ScrollViewAction::PageNext => self.offset + page,
            ScrollViewAction::Home => 0,
            ScrollViewAction::End => self.content_rows as int,
        }
    }

    /// The window after an action.
    pub open spec fn applied(self, action: ScrollViewAction, capacity: int) -> ScrollViewState {
        ScrollViewState {
            offset: min(
                max(self.target(action, capacity), 0),
                maximum_offset(self.content_rows as int, capacity),
            ) as usize,
            content_rows: self.content_rows,
        }
    }

    /// Moves the window; it stops at either end.
    pub fn apply(&mut self, action: ScrollViewAction, capacity: usize)
        ensures
            *final(self) == old(self).applied(action, capacity as int),
            final(self).valid(capacity as int),
    {
        let page: usize = if capacity == 0 {
            1
        } else {
            capacity
        };
        let target: usize = match action {
            ScrollViewAction::Previous => self.offset.saturating_sub(1),
            ScrollViewAction::Next => self.offset.saturating_add(1),
            ScrollViewAction::PagePrevious => self.offset.saturating_sub(page),
            ScrollViewAction::PageNext => self.offset.saturating_add(page),
            ScrollViewAction::Home => 0,
            ScrollViewAction::End => self.content_rows,
        };
        let last: usize = self.content_rows.saturating_sub(capacity);
        let offset: usize = if target <= last {
            target
        } else {
            last
        };
        *self = ScrollViewState { offset, content_rows: self.content_rows };
    }

    /// The end of the visible rows, which start at `offset`.
    pub open spec fn visible_end_spec(self, capacity: int) -> int {
        max(min(self.offset + capacity, self.content_rows as int), self.offset as int)
    }

    /// The visible rows.
    pub fn visible_range(&self, capacity: usize) -> (range: (usize, usize))
        ensures
            range.0 == self.offset,
            range.1 == self.visible_end_spec(capacity as int),
            range.0 <= range.1,
    {
        let end: usize = self.offset.saturating_add(capacity);
        let end: usize = if end <= self.content_rows {
            end
        } else {
            self.content_rows
        };
        (
            self.offset,
            if end >= self.offset {
                end
            } else {
                self.offset
            },
        )
    }
}

impl ScrollViewMetrics {
    pub open spec fn of(content_rows: int, capacity: int) -> ScrollViewMetrics {
        ScrollViewMetrics {
            content_rows: content_rows as usize,
            capacity: capacity as usize,
            maximum_offset: maximum_offset(content_rows, capacity) as usize,
        }
    }

    pub fn new(content_rows: usize, capacity: usize) -> (metrics: Self)
        ensures
            metrics == ScrollViewMetrics::of(content_rows as int, capacity as int),
    {
        ScrollViewMetrics {
            content_rows,
            capacity,
            maximum_offset: content_rows.saturating_sub(capacity),
        }
    }
}

/// The rows and the last position of a window on some content.
pub fn scroll_window_metrics(content_rows: usize, capacity: usize) -> (metrics: (usize, usize))
    ensures
        metrics.0 == capacity,
        metrics.1 == maximum_offset(content_rows as int, capacity as int),
{
    (capacity, content_rows.saturating_sub(capacity))
}

/// The rows of a scrolled view with what each of them is.
#[derive(Debug)]
pub struct ScrollViewLayout {
    pub lines: Vec<Line>,
    pub hits: Vec<ScrollViewHit>,
    pub metrics: ScrollViewMetrics,
}

/// How a scrolled view is laid out.
#[derive(Clone, Copy, Debug, PartialEq, Eq, Structural)]
pub struct ScrollViewWidget {
    pub capacity: usize,
    /// What a click on the upper indicator does.
    pub up: ScrollViewAction,
    /// What a click on the lower indicator does.
    pub down: ScrollViewAction,
}

impl ScrollViewWidget {
    /// A view of `capacity` rows whose indicators turn pages.
    pub open spec fn of(capacity: int) -> ScrollViewWidget {
        ScrollViewWidget {
            capacity: capacity as usize,
            up: ScrollViewAction::PagePrevious,
            down: ScrollViewAction::PageNext,
        }
    }

    pub fn new(capacity: usize) -> (widget: Self)
        ensures
            widget == ScrollViewWidget::of(capacity as int),
    {
        ScrollViewWidget {
            capacity,
            up: ScrollViewAction::PagePrevious,
            down: ScrollViewAction::PageNext,
        }
    }

    /// The same view with other indicators.
    pub fn indicators(self, up: ScrollViewAction, down: ScrollViewAction) -> (widget: Self)
        ensures
            widget == (ScrollViewWidget { up, down, ..self }),
    {
        ScrollViewWidget { capacity: self.capacity, up, down }
    }

    /// Whether rows are hidden below the visible ones.
    pub open spec fn more_below(self, state: ScrollViewState) -> bool {
        state.offset + self.capacity < state.content_rows
    }

    /// What each row of the view is.
    pub open spec fn hits_spec(self, state: ScrollViewState) -> Seq<ScrollViewHit> {
        let end = state.visible_end_spec(self.capacity as int);
        seq![
            if state.offset > 0 {
                ScrollViewHit::Indicator(self.up)
            } else {
                ScrollViewHit::Blank
            },
        ] + Seq::new(
            (end - state.offset) as nat,
            |i: int| ScrollViewHit::Content((state.offset + i) as usize),
        ) + seq![
            if self.more_below(state) {
                ScrollViewHit::Indicator(self.down)
            } else {
                ScrollViewHit::Blank
            },
        ]
    }

    /// What each row of the view is.
    pub fn hits(&self, state: &ScrollViewState) -> (hits: Vec<ScrollViewHit>)
        ensures
            hits@ == self.hits_spec(*state),
    {
        let range = state.visible_range(self.capacity);
        let mut hits: Vec<ScrollViewHit> = Vec::new();
        hits.push(
            if state.offset > 0 {
                ScrollViewHit::Indicator(self.up)
            } else {
                ScrollViewHit::Blank
            },
        );
        let ghost first = hits@[0];
        let mut i: usize = range.0;
        while i < range.1
            invariant
                range.0 <= i <= range.1,
                hits@ == seq![first] + Seq::new(
                    (i - range.0) as nat,
                    |k: int| ScrollViewHit::Content((range.0 + k) as usize),
                ),
            decreases range.1 - i,
        {
            hits.push(ScrollViewHit::Content(i));
            i += 1;
            proof {
                assert(hits@ =~= seq![first] + Seq::new(
                    (i - range.0) as nat,
                    |k: int| ScrollViewHit::Content((range.0 + k) as usize),
                ));
            }
        }
        let more: bool = state.content_rows > state.offset && state.content_rows - state.offset
            > self.capacity;
        hits.push(
            if more {
                ScrollViewHit::Indicator(self.down)
            } else {
                ScrollViewHit::Blank
            },
        );
        proof {
            assert(hits@ =~= self.hits_spec(*state));
        }
        hits
    }

    /// The rows of the view around the visible rows of its content.
    pub open spec fn lines_spec(
        self,
        state: ScrollViewState,
        rows: Seq<LineView>,
    ) -> Seq<LineView> {
        seq![indicator_line(true, state.offset > 0)] + rows + seq![
            indicator_line(false, self.more_below(state)),
        ]
    }

    /// Puts the indicator rows around the visible rows.
    pub fn render(&self, state: &ScrollViewState, rows: Vec<Line>) -> (layout: ScrollViewLayout)
        ensures
            line_views(layout.lines@) == self.lines_spec(*state, line_views(rows@)),
            layout.hits@ == self.hits_spec(*state),
            layout.metrics == ScrollViewMetrics::of(
                state.content_rows as int,
                self.capacity as int,
            ),
    {
        let mut lines: Vec<Line> = Vec::new();
        push_line(&mut lines, scroll_indicator(true, state.offset > 0));
        append_lines(&mut lines, rows);
        let more: bool = state.content_rows > state.offset && state.content_rows - state.offset
            > self.capacity;
        push_line(&mut lines, scroll_indicator(false, more));
        proof {
            assert(line_views(lines@) =~= self.lines_spec(*state, line_views(rows@)));
        }
        ScrollViewLayout {
            lines,
            hits: self.hits(state),
            metrics: ScrollViewMetrics::new(state.content_rows, self.capacity),
        }
    }
}

/// Every movement keeps the window within its content; `End` shows the last
/// row and `Home` the first.
pub proof fn law_scroll_stays_in_content(
    state: ScrollViewState,
    action: ScrollViewAction,
    capacity: int,
)
    requires
        0 <= capacity <= usize::MAX,
    ensures
        state.applied(action, capacity).valid(capacity),
        state.applied(action, capacity).content_rows == state.content_rows,
        state.applied(ScrollViewAction::Home, capacity).offset == 0,
        state.applied(ScrollViewAction::End, capacity).visible_end_spec(capacity)
            == state.content_rows,
{
}

/// A scrolled view's rows and hits stay aligned, with as many rows drawn as
/// are visible.
pub proof fn law_scroll_rows_and_hits_align(
    widget: ScrollViewWidget,
    state: ScrollViewState,
    rows: Seq<LineView>,
)
    requires
        rows.len() == state.visible_end_spec(widget.capacity as int) - state.offset,
    ensures
        widget.lines_spec(state, rows).len() == widget.hits_spec(state).len(),
{
}

} // verus!
