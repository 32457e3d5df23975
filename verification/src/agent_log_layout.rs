//! The layout of the log of a sub-agent, of which as much as possible is kept from one
//! time to the next.

use vstd::prelude::*;
use crate::agent_log::{
    agent_log_items, flow_views, group_total, last_flow_role, last_role, log_items, log_refresh,
    task_lines, task_rows, FlowItem, FlowRole, FlowView, LogEntry, LogIdentity, LogRefresh,
    LogSettings,
};
use crate::agent_log_rows::{
    flow_rows, has_all, laid_out_by, law_kept_rows_stay, lay_out_cards, log_keys, log_rows,
    summary_key, CardRows, RowKey,
};
use crate::choices::Choices;
use crate::style::{append_lines, line_views, Line};

verus! {

/// What the user chose to see of a log.
#[derive(Debug)]
pub struct LogChoices {
    /// The explorations that are expanded.
    pub explorations: Choices,
    /// The runs of activity that are expanded, by their first group.
    pub runs: Choices,
    /// Whether runs of activity are collapsed.
    pub collapse: bool,
}

impl LogChoices {
    pub open spec fn settings(self) -> LogSettings {
        LogSettings {
            explorations: self.explorations@,
            runs: self.runs@,
            collapse: self.collapse,
        }
    }

    pub fn copy(&self) -> (copy: LogChoices)
        ensures
            copy.settings() == self.settings(),
    {
        LogChoices {
            explorations: self.explorations.copy(),
            runs: self.runs.copy(),
            collapse: self.collapse,
        }
    }

    /// Whether the same was chosen.
    pub fn same(&self, other: &LogChoices) -> (same: bool)
        ensures
            same == (self.settings() == other.settings()),
    {
        self.explorations.same(&other.explorations) && self.runs.same(&other.runs) && self.collapse
            == other.collapse
    }
}

/// A log that is laid out, without what changes all the time: what it was laid out for,
/// its entries, the rows of its cards, and its first rows.
#[derive(Debug)]
pub struct AgentLogLayout {
    pub identity: Option<LogIdentity>,
    pub entries: Vec<LogEntry>,
    pub cards: CardRows,
    pub choices: LogChoices,
    pub prefix: Vec<Line>,
    pub role: Option<FlowRole>,
}

impl AgentLogLayout {
    /// The groups of the log can be counted.
    pub open spec fn valid(self) -> bool {
        group_total(self.entries@, self.entries@.len() as int) <= usize::MAX
    }

    /// No log is laid out.
    pub fn new() -> (layout: Self)
        ensures
            layout.identity is None,
            layout.entries@.len() == 0,
            layout.cards.entries@.len() == 0,
            layout.prefix@.len() == 0,
            layout.valid(),
    {
        AgentLogLayout {
            identity: None,
            entries: Vec::new(),
            cards: CardRows::new(),
            choices: LogChoices {
                explorations: Choices::new(),
                runs: Choices::new(),
                collapse: false,
            },
            prefix: Vec::new(),
            role: None,
        }
    }

    /// How much has to be laid out anew.
    pub open spec fn refresh_needed(self, wanted: LogIdentity, settings: LogSettings)
        -> LogRefresh {
        if self.identity != Some(wanted) {
            LogRefresh::Everything
        } else if self.choices.settings() != settings {
            LogRefresh::Entries
        } else {
            LogRefresh::Tail
        }
    }

    /// The parts of the log that are shown while no message is being written.
    pub open spec fn items(self) -> Seq<FlowView> {
        log_items(self.entries@, self.choices.settings(), false, false)
    }
}

/// Whether the summaries of all runs were laid out for them.
pub open spec fn summarized_by<S: Fn(RowKey) -> Vec<Line>>(
    items: Seq<FlowView>,
    summaries: CardRows,
    summarize: S,
) -> bool {
    &&& laid_out_by(summaries, 0, summarize)
    &&& forall|i: int|
        0 <= i < items.len() ==> (summary_key(#[trigger] items[i]) matches Some(key)
            ==> summaries.has(key))
}

/// Lays out the summaries of all runs.
fn summary_rows<S: Fn(RowKey) -> Vec<Line>>(items: &[FlowItem], summarize: &S) -> (summaries:
    CardRows)
    requires
        forall|key: RowKey| #[trigger] summarize.requires((key,)),
    ensures
        summarized_by(flow_views(items@), summaries, *summarize),
{
    let ghost all = flow_views(items@);
    let mut summaries: CardRows = CardRows::new();
    let mut i: usize = 0;
    while i < items.len()
        invariant
            i <= items@.len(),
            all == flow_views(items@),
            forall|key: RowKey| #[trigger] summarize.requires((key,)),
            laid_out_by(summaries, 0, *summarize),
            forall|k: int|
                0 <= k < i ==> (summary_key(#[trigger] all[k]) matches Some(key) ==> summaries.has(
                    key,
                )),
        decreases items@.len() - i,
    {
        let ghost before = summaries;
        proof {
            assert(all[i as int] == items@[i as int]@);
        }
        if let FlowItem::Collapsed { first, count, expanded, active, .. } = &items[i] {
            let key = RowKey::Summary {
                first: *first,
                count: *count,
                expanded: *expanded,
                active: *active,
            };
            let rows: Vec<Line> = summarize(key);
            summaries.entries.push((key, rows));
            proof {
                assert(summaries.entries@[before.entries@.len() as int].0 == key);
                assert(before.entries@ =~= summaries.entries@.take(before.entries@.len() as int));
                assert forall|k: int| 0 <= k <= i implies (summary_key(
                    #[trigger] all[k],
                ) matches Some(key) ==> summaries.has(key)) by {
                    if k < i && summary_key(all[k]) is Some {
                        law_kept_rows_stay(
                            before.entries@,
                            summaries.entries@,
                            summary_key(all[k])->0,
                        );
                    }
                }
            }
        }
        i += 1;
    }
    summaries
}

/// What laying out a log leaves of a layout. Where the same log was laid out for the same
/// choices, nothing changes; where only the choices are others, the log is not read again
/// and its cards are used again; and the first rows are then put together anew.
pub open spec fn log_refreshed<
    P: FnOnce() -> Vec<LogEntry>,
    R: Fn(RowKey) -> Vec<Line>,
    S: Fn(RowKey) -> Vec<Line>,
>(
    before: AgentLogLayout,
    after: AgentLogLayout,
    wanted: LogIdentity,
    task: Seq<char>,
    settings: LogSettings,
    project: P,
    render: R,
    summarize: S,
) -> bool {
    let refresh = before.refresh_needed(wanted, settings);
    &&& after.valid()
    &&& after.identity == Some(wanted)
    &&& after.choices.settings() == settings
    &&& refresh is Tail ==> after == before
    &&& refresh is Entries ==> {
        &&& after.entries == before.entries
        &&& before.cards.entries@.is_prefix_of(after.cards.entries@)
        &&& laid_out_by(after.cards, before.cards.entries@.len() as int, render)
    }
    &&& refresh is Everything ==> {
        &&& project.ensures((), after.entries)
        &&& laid_out_by(after.cards, 0, render)
    }
    &&& !(refresh is Tail) ==> {
        &&& has_all(
            after.cards,
            log_keys(after.entries@, after.entries@.len() as int, settings.explorations),
        )
        &&& after.role == last_role(after.items())
        &&& exists|summaries: CardRows|
            #[trigger] summarized_by(after.items(), summaries, summarize) && line_views(
                after.prefix@,
            ) == task_rows(task, wanted.width as int) + flow_rows(
                after.items(),
                after.cards,
                summaries,
            )
    }
}

/// Lays out a log, as far as that is needed. `project` reads the entries of the log,
/// `render` lays out a message or a card, and `summarize` the summary of a run.
pub fn refresh_agent_log<
    P: FnOnce() -> Vec<LogEntry>,
    R: Fn(RowKey) -> Vec<Line>,
    S: Fn(RowKey) -> Vec<Line>,
>(
    layout: &mut AgentLogLayout,
    wanted: LogIdentity,
    task: &str,
    choices: &LogChoices,
    project: P,
    render: &R,
    summarize: &S,
)
    requires
        old(layout).valid(),
        project.requires(()),
        forall|entries: Vec<LogEntry>|
            project.ensures((), entries) ==> #[trigger] group_total(
                entries@,
                entries@.len() as int,
            ) <= usize::MAX,
        forall|key: RowKey| #[trigger] render.requires((key,)),
        forall|key: RowKey| #[trigger] summarize.requires((key,)),
    ensures
        log_refreshed(
            *old(layout),
            *final(layout),
            wanted,
            task@,
            choices.settings(),
            project,
            *render,
            *summarize,
        ),
{
    let changed: bool = !layout.choices.same(choices);
    let refresh: LogRefresh = log_refresh(layout.identity, wanted, changed);
    if refresh == LogRefresh::Tail {
        return;
    }
    if refresh == LogRefresh::Everything {
        layout.entries = project();
        layout.cards = CardRows::new();
        layout.identity = Some(wanted);
    }
    let ghost kept = layout.cards;
    lay_out_cards(
        &mut layout.cards,
        layout.entries.as_slice(),
        &choices.explorations,
        render,
    );
    layout.choices = choices.copy();
    let items: Vec<FlowItem> = agent_log_items(
        layout.entries.as_slice(),
        &choices.explorations,
        &choices.runs,
        choices.collapse,
        false,
        false,
    );
    let summaries: CardRows = summary_rows(items.as_slice(), summarize);
    let mut prefix: Vec<Line> = task_lines(task, wanted.width);
    append_lines(&mut prefix, log_rows(items.as_slice(), &layout.cards, &summaries));
    layout.prefix = prefix;
    layout.role = last_flow_role(items.as_slice());
    proof {
        assert(layout.items() == flow_views(items@));
        assert(summarized_by(layout.items(), summaries, *summarize));
    }
}

/// Where other parts of the same log are expanded, the log is not read again, and each
/// message and card that was laid out is used again as it was.
pub proof fn law_expansion_reuses_cards<
    P: FnOnce() -> Vec<LogEntry>,
    R: Fn(RowKey) -> Vec<Line>,
    S: Fn(RowKey) -> Vec<Line>,
>(
    before: AgentLogLayout,
    after: AgentLogLayout,
    wanted: LogIdentity,
    task: Seq<char>,
    settings: LogSettings,
    project: P,
    render: R,
    summarize: S,
    key: RowKey,
)
    requires
        log_refreshed(before, after, wanted, task, settings, project, render, summarize),
        before.identity == Some(wanted),
        before.cards.has(key),
    ensures
        after.entries == before.entries,
        after.cards.has(key),
        after.cards.rows_of(key) == before.cards.rows_of(key),
        before.choices.settings() == settings ==> after.prefix == before.prefix,
{
    if before.choices.settings() != settings {
        law_kept_rows_stay(before.cards.entries@, after.cards.entries@, key);
    }
}

} // verus!
