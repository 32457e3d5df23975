//! The log of a sub-agent: which of its entries are shown, and how runs of tool
//! activity are collapsed.

use vstd::prelude::*;
use vstd::string::*;
use crate::choices::Choices;
use crate::menu::{less, text_part};
use crate::render::{
    check_clusters, concat, lemma_wrap_rows_bounds, safe, terminal_safe, wrap_log_line, wrap_ranges,
    wrap_rows, wrapped_line,
};
use crate::style::{
    append_lines, blank_line, line, line_views, push_line, span, span_texts, Line, LineView, Role,
    Style,
};
use crate::text::chars_of;
use crate::unicode::{display_width, joined, text_width, trim, trimmed};

verus! {

/// A group of tool activity.
#[derive(Clone, Copy, Debug, PartialEq, Eq, Structural)]
pub struct ToolGroup {
    /// Whether the group looks around in the project.
    pub exploration: bool,
    pub activities: usize,
    pub collapsible: bool,
    /// Whether a summary has something to say of the group.
    pub summarized: bool,
    pub active: bool,
}

/// An entry of the log.
#[derive(Debug)]
pub enum LogEntry {
    Assistant,
    Tools(Vec<ToolGroup>),
}

/// A group as it is shown. `ordinal` counts the explorations before it.
#[derive(Clone, Copy, Debug, PartialEq, Eq, Structural)]
pub struct Card {
    pub group: usize,
    pub ordinal: usize,
    pub expanded: bool,
    pub expandable: bool,
}

/// A part of the log as it is shown.
#[derive(Debug)]
pub enum FlowItem {
    /// The message of the entry with this index.
    Assistant(usize),
    /// The message that is being written.
    Streaming,
    Card(Card),
    /// A run of `count` groups that have nothing to summarize.
    Plain { first: usize, count: usize, details: Vec<Card> },
    /// A run of `count` groups behind a summary.
    Collapsed { first: usize, count: usize, expanded: bool, active: bool, details: Vec<Card> },
}

/// A part of the log as it is shown.
pub enum FlowView {
    Assistant(int),
    Streaming,
    Card(Card),
    Plain { first: int, count: int, details: Seq<Card> },
    Collapsed { first: int, count: int, expanded: bool, active: bool, details: Seq<Card> },
}

impl View for FlowItem {
    type V = FlowView;

    open spec fn view(&self) -> FlowView {
        match *self {
            FlowItem::Assistant(index) => FlowView::Assistant(index as int),
            FlowItem::Streaming => FlowView::Streaming,
            FlowItem::Card(card) => FlowView::Card(card),
            FlowItem::Plain { first, count, details } => FlowView::Plain {
                first: first as int,
                count: count as int,
                details: details@,
            },
            FlowItem::Collapsed { first, count, expanded, active, details } => {
                FlowView::Collapsed {
                    first: first as int,
                    count: count as int,
                    expanded,
                    active,
                    details: details@,
                }
            },
        }
    }
}

pub open spec fn flow_views(items: Seq<FlowItem>) -> Seq<FlowView> {
    items.map_values(|item: FlowItem| item@)
}

/// A run of groups that is not complete yet.
#[derive(Debug)]
pub struct PendingRun {
    pub first: usize,
    pub count: usize,
    pub summarized: bool,
    pub active: bool,
    pub details: Vec<Card>,
}

/// A run of groups that is not complete yet.
pub struct PendingView {
    pub first: int,
    pub count: int,
    pub summarized: bool,
    pub active: bool,
    pub details: Seq<Card>,
}

/// What the user chose to see.
pub struct LogSettings {
    pub explorations: Set<usize>,
    pub runs: Set<usize>,
    pub collapse: bool,
}

/// The log, as far as it was gone through.
pub struct LogView {
    pub items: Seq<FlowView>,
    pub pending: Option<PendingView>,
    pub groups: int,
    pub explorations: int,
}

/// The log, as far as it was gone through.
#[derive(Debug)]
pub struct AgentLog {
    pub items: Vec<FlowItem>,
    pub pending: Option<PendingRun>,
    pub groups: usize,
    pub explorations: usize,
}

impl View for AgentLog {
    type V = LogView;

    open spec fn view(&self) -> LogView {
        LogView {
            items: flow_views(self.items@),
            pending: match self.pending {
                None => None,
                Some(run) => Some(
                    PendingView {
                        first: run.first as int,
                        count: run.count as int,
                        summarized: run.summarized,
                        active: run.active,
                        details: run.details@,
                    },
                ),
            },
            groups: self.groups as int,
            explorations: self.explorations as int,
        }
    }
}

/// A group as it is shown.
pub open spec fn card_of(
    group: ToolGroup,
    index: int,
    ordinal: int,
    settings: LogSettings,
) -> Card {
    Card {
        group: index as usize,
        ordinal: ordinal as usize,
        expanded: group.exploration && settings.explorations.contains(ordinal as usize),
        expandable: group.exploration && group.activities > 4,
    }
}

impl LogView {
    pub open spec fn empty() -> LogView {
        LogView { items: Seq::empty(), pending: None, groups: 0, explorations: 0 }
    }

    /// With the run complete. A run with nothing to summarize is shown as it is;
    /// only at the end of the log can a run still go on.
    pub open spec fn flushed(self, settings: LogSettings, at_end: bool) -> LogView {
        match self.pending {
            None => self,
            Some(run) => LogView {
                items: self.items.push(
                    if run.summarized {
                        FlowView::Collapsed {
                            first: run.first,
                            count: run.count,
                            expanded: settings.runs.contains(run.first as usize),
                            active: run.active && at_end,
                            details: run.details,
                        }
                    } else {
                        FlowView::Plain {
                            first: run.first,
                            count: run.count,
                            details: run.details,
                        }
                    },
                ),
                pending: None,
                ..self
            },
        }
    }

    /// With a group added to the run. Its card is kept only where it is shown.
    pub open spec fn run_with(self, group: ToolGroup, settings: LogSettings) -> PendingView {
        let card = card_of(group, self.groups, self.explorations, settings);
        let run = match self.pending {
            Some(run) => run,
            None => PendingView {
                first: self.groups,
                count: 0,
                summarized: false,
                active: false,
                details: Seq::empty(),
            },
        };
        let summarized = run.summarized || group.summarized;
        PendingView {
            first: run.first,
            count: run.count + 1,
            summarized,
            active: run.active || group.active,
            details: if settings.runs.contains(run.first as usize) || !summarized {
                run.details.push(card)
            } else {
                run.details
            },
        }
    }

    /// With a group of tool activity.
    pub open spec fn with_group(self, group: ToolGroup, settings: LogSettings) -> LogView {
        let card = card_of(group, self.groups, self.explorations, settings);
        let shown = if settings.collapse && group.collapsible {
            LogView { pending: Some(self.run_with(group, settings)), ..self }
        } else {
            let before = self.flushed(settings, false);
            LogView { items: before.items.push(FlowView::Card(card)), ..before }
        };
        LogView {
            groups: self.groups + 1,
            explorations: self.explorations + if group.exploration { 1int } else { 0 },
            ..shown
        }
    }

    /// With the first `count` groups of an entry.
    pub open spec fn with_groups(
        self,
        groups: Seq<ToolGroup>,
        count: int,
        settings: LogSettings,
    ) -> LogView
        decreases count,
    {
        if count <= 0 {
            self
        } else {
            self.with_groups(groups, count - 1, settings).with_group(groups[count - 1], settings)
        }
    }

    /// With the entry that has the given index.
    pub open spec fn with_entry(
        self,
        entry: LogEntry,
        index: int,
        settings: LogSettings,
    ) -> LogView {
        match entry {
            LogEntry::Assistant => {
                let before = self.flushed(settings, false);
                LogView { items: before.items.push(FlowView::Assistant(index)), ..before }
            },
            LogEntry::Tools(groups) => self.with_groups(
                groups@,
                groups@.len() as int,
                settings,
            ),
        }
    }
}

/// The log after its first `count` entries.
pub open spec fn log_after(entries: Seq<LogEntry>, count: int, settings: LogSettings) -> LogView
    decreases count,
{
    if count <= 0 {
        LogView::empty()
    } else {
        log_after(entries, count - 1, settings).with_entry(entries[count - 1], count - 1, settings)
    }
}

/// All that is shown of a log, with the message that is being written, if there is
/// one.
pub open spec fn log_items(
    entries: Seq<LogEntry>,
    settings: LogSettings,
    streaming: bool,
    failed: bool,
) -> Seq<FlowView> {
    let shown = log_after(entries, entries.len() as int, settings).flushed(settings, !streaming).items;
    if streaming && !failed { shown.push(FlowView::Streaming) } else { shown }
}

/// How many groups some entries have.
pub open spec fn group_total(entries: Seq<LogEntry>, count: int) -> int
    decreases count,
{
    if count <= 0 {
        0
    } else {
        group_total(entries, count - 1) + match entries[count - 1] {
            LogEntry::Assistant => 0,
            LogEntry::Tools(groups) => groups@.len() as int,
        }
    }
}

pub proof fn lemma_group_total_grows(entries: Seq<LogEntry>, low: int, high: int)
    requires
        0 <= low <= high,
    ensures
        0 <= group_total(entries, low) <= group_total(entries, high),
    decreases high,
{
    if low < high {
        lemma_group_total_grows(entries, low, high - 1);
    } else if low > 0 {
        lemma_group_total_grows(entries, low - 1, high - 1);
    }
}

impl AgentLog {
    /// The numbers do not outgrow the groups that were gone through.
    pub open spec fn fits(self) -> bool {
        &&& self.explorations <= self.groups
        &&& self.pending is Some ==> self.pending->0.count <= self.groups
    }

    pub fn new() -> (log: Self)
        ensures
            log@ == LogView::empty(),
            log.fits(),
    {
        let log = AgentLog { items: Vec::new(), pending: None, groups: 0, explorations: 0 };
        proof {
            assert(log@.items =~= Seq::empty());
        }
        log
    }

    fn push(&mut self, item: FlowItem)
        ensures
            final(self)@ == (LogView { items: old(self)@.items.push(item@), ..old(self)@ }),
            final(self).pending == old(self).pending,
            final(self).groups == old(self).groups,
            final(self).explorations == old(self).explorations,
    {
        let ghost before = self@.items;
        self.items.push(item);
        proof {
            assert(self@.items =~= before.push(item@));
        }
    }

    /// Completes the run.
    fn flush(&mut self, runs: &Choices, Ghost(settings): Ghost<LogSettings>, at_end: bool)
        requires
            settings.runs == runs@,
            old(self).fits(),
        ensures
            final(self)@ == old(self)@.flushed(settings, at_end),
            final(self).fits(),
            final(self).groups == old(self).groups,
    {
        let pending = self.pending.take();
        match pending {
            None => {},
            Some(run) => {
                if run.summarized {
                    let expanded: bool = runs.contains(run.first);
                    self.push(
                        FlowItem::Collapsed {
                            first: run.first,
                            count: run.count,
                            expanded,
                            active: run.active && at_end,
                            details: run.details,
                        },
                    );
                } else {
                    self.push(
                        FlowItem::Plain {
                            first: run.first,
                            count: run.count,
                            details: run.details,
                        },
                    );
                }
            },
        }
    }

    fn add_group(
        &mut self,
        group: ToolGroup,
        explorations: &Choices,
        runs: &Choices,
        collapse: bool,
    )
        requires
            old(self).fits(),
            old(self).groups < usize::MAX,
        ensures
            ({
                let settings = LogSettings { explorations: explorations@, runs: runs@, collapse };
                final(self)@ == old(self)@.with_group(group, settings)
            }),
            final(self).fits(),
            final(self).groups == old(self).groups + 1,
    {
        let ghost settings = LogSettings { explorations: explorations@, runs: runs@, collapse };
        let ordinal: usize = self.explorations;
        let index: usize = self.groups;
        let card = Card {
            group: index,
            ordinal,
            expanded: group.exploration && explorations.contains(ordinal),
            expandable: group.exploration && group.activities > 4,
        };
        if collapse && group.collapsible {
            let pending = self.pending.take();
            let mut run: PendingRun = match pending {
                Some(run) => run,
                None => PendingRun {
                    first: index,
                    count: 0,
                    summarized: false,
                    active: false,
                    details: Vec::new(),
                },
            };
            proof {
                if pending is None {
                    assert(run.details@ =~= Seq::empty());
                }
            }
            run.count = run.count + 1;
            run.summarized = run.summarized || group.summarized;
            run.active = run.active || group.active;
            let open: bool = runs.contains(run.first);
            if open || !run.summarized {
                run.details.push(card);
            }
            self.pending = Some(run);
        } else {
            self.flush(runs, Ghost(settings), false);
            self.push(FlowItem::Card(card));
        }
        self.groups = index + 1;
        if group.exploration {
            self.explorations = ordinal + 1;
        }
    }

    fn add_entry(
        &mut self,
        entry: &LogEntry,
        index: usize,
        explorations: &Choices,
        runs: &Choices,
        collapse: bool,
    )
        requires
            old(self).fits(),
            entry matches LogEntry::Tools(groups) ==> old(self).groups + groups@.len()
                <= usize::MAX,
        ensures
            ({
                let settings = LogSettings { explorations: explorations@, runs: runs@, collapse };
                final(self)@ == old(self)@.with_entry(*entry, index as int, settings)
            }),
            final(self).fits(),
            final(self).groups == old(self).groups + match *entry {
                LogEntry::Assistant => 0,
                LogEntry::Tools(groups) => groups@.len() as int,
            },
    {
        let ghost settings = LogSettings { explorations: explorations@, runs: runs@, collapse };
        match entry {
            LogEntry::Assistant => {
                self.flush(runs, Ghost(settings), false);
                self.push(FlowItem::Assistant(index));
            },
            LogEntry::Tools(groups) => {
                let ghost before = self@;
                let mut i: usize = 0;
                while i < groups.len()
                    invariant
                        i <= groups@.len(),
                        settings == (LogSettings {
                            explorations: explorations@,
                            runs: runs@,
                            collapse,
                        }),
                        self.fits(),
                        self.groups == old(self).groups + i,
                        old(self).groups + groups@.len() <= usize::MAX,
                        self@ == before.with_groups(groups@, i as int, settings),
                    decreases groups@.len() - i,
                {
                    self.add_group(groups[i], explorations, runs, collapse);
                    i += 1;
                }
            },
        }
    }
}

/// Goes through a log and says what is shown of it.
pub fn agent_log_items(
    entries: &[LogEntry],
    explorations: &Choices,
    runs: &Choices,
    collapse: bool,
    streaming: bool,
    failed: bool,
) -> (items: Vec<FlowItem>)
    requires
        group_total(entries@, entries@.len() as int) <= usize::MAX,
    ensures
        flow_views(items@) == log_items(
            entries@,
            (LogSettings { explorations: explorations@, runs: runs@, collapse }),
            streaming,
            failed,
        ),
{
    let ghost settings = LogSettings { explorations: explorations@, runs: runs@, collapse };
    let mut log = AgentLog::new();
    let mut i: usize = 0;
    while i < entries.len()
        invariant
            i <= entries@.len(),
            settings == (LogSettings { explorations: explorations@, runs: runs@, collapse }),
            log.fits(),
            log.groups == group_total(entries@, i as int),
            group_total(entries@, entries@.len() as int) <= usize::MAX,
            log@ == log_after(entries@, i as int, settings),
        decreases entries@.len() - i,
    {
        proof {
            lemma_group_total_grows(entries@, i + 1, entries@.len() as int);
        }
        log.add_entry(&entries[i], i, explorations, runs, collapse);
        i += 1;
    }
    log.flush(runs, Ghost(settings), !streaming);
    if streaming && !failed {
        log.push(FlowItem::Streaming);
    }
    log.items
}

/// How many groups some parts stand for.
pub open spec fn groups_shown(items: Seq<FlowView>) -> int
    decreases items.len(),
{
    if items.len() == 0 {
        0
    } else {
        groups_shown(items.drop_last()) + match items.last() {
            FlowView::Assistant(_) => 0,
            FlowView::Streaming => 0,
            FlowView::Card(_) => 1,
            FlowView::Plain { first, count, details } => count,
            FlowView::Collapsed { first, count, expanded, active, details } => count,
        }
    }
}

/// How many groups a run has.
pub open spec fn groups_pending(log: LogView) -> int {
    match log.pending {
        None => 0,
        Some(run) => run.count,
    }
}

proof fn lemma_flush_keeps_groups(log: LogView, settings: LogSettings, at_end: bool)
    ensures
        groups_shown(log.flushed(settings, at_end).items) == groups_shown(log.items)
            + groups_pending(log),
        log.flushed(settings, at_end).pending is None,
{
    let after = log.flushed(settings, at_end);
    if log.pending is Some {
        assert(after.items.drop_last() =~= log.items);
    }
}

proof fn lemma_group_is_counted(log: LogView, group: ToolGroup, settings: LogSettings)
    ensures
        ({
            let after = log.with_group(group, settings);
            groups_shown(after.items) + groups_pending(after) == groups_shown(log.items)
                + groups_pending(log) + 1
        }),
{
    let after = log.with_group(group, settings);
    if !(settings.collapse && group.collapsible) {
        lemma_flush_keeps_groups(log, settings, false);
        assert(after.items.drop_last() =~= log.flushed(settings, false).items);
    }
}

proof fn lemma_groups_are_counted(
    log: LogView,
    groups: Seq<ToolGroup>,
    count: int,
    settings: LogSettings,
)
    requires
        0 <= count,
    ensures
        ({
            let after = log.with_groups(groups, count, settings);
            groups_shown(after.items) + groups_pending(after) == groups_shown(log.items)
                + groups_pending(log) + count
        }),
    decreases count,
{
    if count > 0 {
        lemma_groups_are_counted(log, groups, count - 1, settings);
        lemma_group_is_counted(
            log.with_groups(groups, count - 1, settings),
            groups[count - 1],
            settings,
        );
    }
}

proof fn lemma_entries_are_counted(entries: Seq<LogEntry>, count: int, settings: LogSettings)
    requires
        0 <= count <= entries.len(),
    ensures
        ({
            let after = log_after(entries, count, settings);
            groups_shown(after.items) + groups_pending(after) == group_total(entries, count)
        }),
    decreases count,
{
    if count > 0 {
        lemma_entries_are_counted(entries, count - 1, settings);
        let before = log_after(entries, count - 1, settings);
        match entries[count - 1] {
            LogEntry::Assistant => {
                lemma_flush_keeps_groups(before, settings, false);
                let flushed = before.flushed(settings, false);
                assert(log_after(entries, count, settings).items.drop_last() =~= flushed.items);
            },
            LogEntry::Tools(groups) => {
                lemma_groups_are_counted(before, groups@, groups@.len() as int, settings);
            },
        }
    }
}

/// However a log is collapsed, every group of tool activity is shown or stands
/// behind exactly one summary.
pub proof fn law_no_activity_is_lost(
    entries: Seq<LogEntry>,
    settings: LogSettings,
    streaming: bool,
    failed: bool,
)
    ensures
        groups_shown(log_items(entries, settings, streaming, failed)) == group_total(
            entries,
            entries.len() as int,
        ),
{
    lemma_entries_are_counted(entries, entries.len() as int, settings);
    let log = log_after(entries, entries.len() as int, settings);
    lemma_flush_keeps_groups(log, settings, !streaming);
    let shown = log.flushed(settings, !streaming).items;
    if streaming && !failed {
        assert(shown.push(FlowView::Streaming).drop_last() =~= shown);
    }
}

/// The role of a part of the log.
#[derive(Clone, Copy, Debug, PartialEq, Eq, Structural)]
pub enum FlowRole {
    Assistant,
    NonMessage,
}

/// The role of the last part of the log, if there is one.
pub open spec fn last_role(items: Seq<FlowView>) -> Option<FlowRole> {
    if items.len() == 0 {
        None
    } else {
        Some(
            match items.last() {
                FlowView::Assistant(_) | FlowView::Streaming => FlowRole::Assistant,
                _ => FlowRole::NonMessage,
            },
        )
    }
}

/// The role of the last part of the log, if there is one.
pub fn last_flow_role(items: &[FlowItem]) -> (role: Option<FlowRole>)
    ensures
        role == last_role(flow_views(items@)),
{
    let count: usize = items.len();
    proof {
        assert(flow_views(items@).len() == count);
    }
    if count == 0 {
        return None;
    }
    proof {
        assert(flow_views(items@).last() == items@[count - 1]@);
    }
    Some(
        match &items[count - 1] {
            FlowItem::Assistant(_) => FlowRole::Assistant,
            FlowItem::Streaming => FlowRole::Assistant,
            FlowItem::Card(_) => FlowRole::NonMessage,
            FlowItem::Plain { .. } => FlowRole::NonMessage,
            FlowItem::Collapsed { .. } => FlowRole::NonMessage,
        },
    )
}

/// A row of the task of a sub-agent.
pub open spec fn task_row(text: Seq<char>, first: bool) -> LineView {
    line(
        seq![
            span(if first { "  Task  "@ } else { "        "@ }, Style::of(Role::Dim)),
            span(text, Style::plain()),
        ],
    )
}

/// The rows of the task of a sub-agent.
pub open spec fn task_rows(task: Seq<char>, width: int) -> Seq<LineView> {
    let shown = safe(task);
    let rows = wrap_rows(shown, less(width, display_width("  Task  "@) as int));
    Seq::new(
        rows.len(),
        |i: int| task_row(shown.subrange(rows[i].0 as int, rows[i].1 as int), i == 0),
    ).push(blank_line())
}

/// Renders the task of a sub-agent.
pub fn task_lines(task: &str, width: u16) -> (lines: Vec<Line>)
    ensures
        line_views(lines@) == task_rows(task@, width as int),
{
    let shown: String = terminal_safe(task);
    let room: usize = (width as usize).saturating_sub(text_width("  Task  "));
    let ranges = wrap_ranges(shown.as_str(), room);
    let chars: Vec<char> = chars_of(shown.as_str());
    let ghost all = task_rows(task@, width as int);
    check_clusters(shown.as_str());
    let total: usize = chars.len();
    let mut lines: Vec<Line> = Vec::new();
    let mut i: usize = 0;
    while i < ranges.len()
        invariant
            i <= ranges@.len(),
            total == chars@.len(),
            chars@ == shown@,
            shown@ == safe(task@),
            joined(crate::unicode::grapheme_clusters(shown@)) == shown@,
            room == less(width as int, display_width("  Task  "@) as int),
            ranges@ == wrap_rows(shown@, room as int),
            all == task_rows(task@, width as int),
            line_views(lines@) == all.take(i as int),
        decreases ranges@.len() - i,
    {
        proof {
            lemma_wrap_rows_bounds(shown@, room as int, i as int);
        }
        let part: String = text_part(chars.as_slice(), ranges[i].0, ranges[i].1);
        let mut row = Line::new();
        row.push_str(
            if i == 0 {
                "  Task  "
            } else {
                "        "
            },
            Style::of(Role::Dim),
        );
        row.push(part, Style::plain());
        proof {
            assert(row@.spans =~= task_row(part@, i == 0).spans);
            assert(all[i as int] == row@);
        }
        push_line(&mut lines, row);
        i += 1;
        proof {
            assert(line_views(lines@) =~= all.take(i as int));
        }
    }
    push_line(&mut lines, Line::new());
    proof {
        assert(line_views(lines@) =~= all);
    }
    lines
}

/// The rows at the end of the log.
pub open spec fn log_tail(
    error: Option<Seq<char>>,
    no_entries: bool,
    streaming: bool,
    width: int,
) -> Seq<LineView> {
    (match error {
        Some(error) => (if no_entries { Seq::empty() } else { seq![blank_line()] })
            + wrapped_line(
            line(seq![span("  Error  "@ + safe(error), Style::of(Role::Error))]),
            width,
        ),
        None => if no_entries && !streaming {
            seq![line(seq![span("  No activity yet."@, Style::of(Role::Dim))])]
        } else {
            Seq::empty()
        },
    }).push(blank_line())
}

/// Appends the rows at the end of the log: its error, or that there is nothing in
/// it.
pub fn append_agent_log_tail(
    body: &mut Vec<Line>,
    error: Option<&str>,
    no_entries: bool,
    streaming: bool,
    width: u16,
)
    ensures
        line_views(final(body)@) == line_views(old(body)@) + log_tail(
            match error {
                Some(error) => Some(error@),
                None => None,
            },
            no_entries,
            streaming,
            width as int,
        ),
{
    let ghost before = line_views(body@);
    match error {
        Some(error) => {
            if !no_entries {
                push_line(body, Line::new());
            }
            let row = Line::styled(
                concat("  Error  ", terminal_safe(error).as_str()),
                Style::of(Role::Error),
            );
            append_lines(body, wrap_log_line(&row, width as usize));
        },
        None => {
            if no_entries && !streaming {
                push_line(
                    body,
                    Line::styled("  No activity yet.".to_owned(), Style::of(Role::Dim)),
                );
            }
        },
    }
    push_line(body, Line::new());
    proof {
        assert(line_views(body@) =~= before + log_tail(
            match error {
                Some(error) => Some(error@),
                None => None,
            },
            no_entries,
            streaming,
            width as int,
        ));
    }
}

/// Whether a row shows nothing.
pub open spec fn is_blank_row(row: LineView) -> bool {
    trimmed(joined(span_texts(row.spans))).len() == 0
}

/// The rows up to the last one that is not blank.
pub open spec fn content_end(rows: Seq<LineView>) -> int
    decreases rows.len(),
{
    if rows.len() == 0 || !is_blank_row(rows.last()) {
        rows.len() as int
    } else {
        content_end(rows.drop_last())
    }
}

/// How many rows of a log stay in front of a message that is being written: blank
/// ones at its end do not.
pub fn kept_prefix(prefix: &[Line], role: Option<FlowRole>) -> (len: usize)
    ensures
        len == if role is Some { content_end(line_views(prefix@)) } else { prefix@.len() as int },
        len <= prefix@.len(),
{
    let mut len: usize = prefix.len();
    if role.is_none() {
        return len;
    }
    let ghost all = line_views(prefix@);
    proof {
        assert(all.take(len as int) =~= all);
    }
    loop
        invariant
            len <= prefix@.len(),
            all == line_views(prefix@),
            content_end(all.take(len as int)) == content_end(all),
        ensures
            len <= prefix@.len(),
            len == content_end(all),
        decreases len,
    {
        if len == 0 {
            break;
        }
        let text: String = prefix[len - 1].to_text();
        proof {
            assert(all.take(len as int).last() == prefix@[len - 1]@);
            assert(all.take(len as int).drop_last() =~= all.take(len - 1));
        }
        if !trim(text.as_str()).as_str().is_empty() {
            break;
        }
        len -= 1;
    }
    len
}

/// What a log was laid out for.
#[derive(Clone, Copy, Debug, PartialEq, Eq, Structural)]
pub struct LogIdentity {
    pub run: u128,
    pub width: u16,
    pub timeline: usize,
    pub activity: usize,
    pub terminals: usize,
}

/// How much of a log has to be laid out anew.
#[derive(Clone, Copy, Debug, PartialEq, Eq, Structural)]
pub enum LogRefresh {
    /// Only what changes all the time.
    Tail,
    /// The entries, from the cards that are kept.
    Entries,
    /// Everything.
    Everything,
}

/// How much of a log has to be laid out anew: all of it when the log or the width
/// is another one, and its entries when the user chose to see others.
pub fn log_refresh(kept: Option<LogIdentity>, wanted: LogIdentity, choices_changed: bool) -> (refresh:
    LogRefresh)
    ensures
        refresh == if kept != Some(wanted) {
            LogRefresh::Everything
        } else if choices_changed {
            LogRefresh::Entries
        } else {
            LogRefresh::Tail
        },
{
    let same: bool = match kept {
        Some(identity) => identity == wanted,
        None => false,
    };
    if !same {
        LogRefresh::Everything
    } else if choices_changed {
        LogRefresh::Entries
    } else {
        LogRefresh::Tail
    }
}

/// Whether two parts of a log are the same but for whether they still go on.
pub open spec fn same_but_active(left: FlowView, right: FlowView) -> bool {
    match (left, right) {
        (
            FlowView::Collapsed { first, count, expanded, active, details },
            FlowView::Collapsed {
                first: other_first,
                count: other_count,
                expanded: other_expanded,
                active: other_active,
                details: other_details,
            },
        ) => first == other_first && count == other_count && expanded == other_expanded && details
            == other_details,
        _ => left == right,
    }
}

/// A message that is being written stands behind a log that stays as it is, except that
/// no run of activity goes on any more.
pub proof fn law_messages_are_written_behind_the_log(entries: Seq<LogEntry>, settings: LogSettings)
    ensures
        ({
            let written = log_items(entries, settings, true, false);
            let before = log_items(entries, settings, false, false);
            &&& written.len() == before.len() + 1
            &&& written.last() == FlowView::Streaming
            &&& forall|i: int|
                0 <= i < before.len() ==> same_but_active(#[trigger] written[i], before[i])
        }),
{
    let log = log_after(entries, entries.len() as int, settings);
    let written = log_items(entries, settings, true, false);
    let before = log_items(entries, settings, false, false);
    let shown = log.flushed(settings, false).items;
    assert(before == log.flushed(settings, true).items);
    assert(written == shown.push(FlowView::Streaming));
    assert forall|i: int| 0 <= i < before.len() implies same_but_active(
        #[trigger] written[i],
        before[i],
    ) by {
        assert(written[i] == shown[i]);
        if i < log.items.len() {
            assert(shown[i] == log.items[i]);
            assert(before[i] == log.items[i]);
        }
    }
}

} // verus!
