//! Work that goes on in the background: delegated agents and terminals.

use vstd::prelude::*;
use vstd::string::*;
use crate::control::{list_after, SurfaceKey};
use crate::key::{KeyCode, KeyModifiers};
use crate::list::{settled, VISIBLE_MENU_ITEMS, ListState};
use crate::mcp_control::{step_index, stepped, ConfirmStep};

verus! {

/// A terminal as it was last seen.
#[derive(Debug)]
pub struct Terminal {
    pub id: u128,
    /// The agent run that started the terminal.
    pub owner: Option<u128>,
    /// The agent run that the terminal belongs to.
    pub agent: Option<u128>,
    /// Whether the terminal is running; otherwise it is final.
    pub active: bool,
    pub output_cursor: u64,
    pub created_at: u64,
    /// Whether the terminal is listed.
    pub visible_as_task: bool,
    pub read_safe: bool,
    /// The name of the terminal's state.
    pub status: String,
    pub command: String,
}

/// A delegated agent.
#[derive(Debug)]
pub struct AgentRun {
    pub id: u128,
    /// Whether the run is queued or running.
    pub active: bool,
    pub created_at: u64,
    pub profile: String,
    /// The name of the run's state.
    pub status: String,
    pub task: String,
}

/// A piece of background work.
#[derive(Debug)]
pub enum SupervisedWork {
    Agent { run: AgentRun },
    Terminal { terminal: Terminal },
}

/// What a live agent has written so far.
#[derive(Debug)]
pub struct AgentLive {
    pub id: u128,
    pub text: String,
}

impl SupervisedWork {
    pub open spec fn active_spec(self) -> bool {
        match self {
            SupervisedWork::Agent { run } => run.active,
            SupervisedWork::Terminal { terminal } => terminal.active,
        }
    }

    pub fn active(&self) -> (active: bool)
        ensures
            active == self.active_spec(),
    {
        match self {
            SupervisedWork::Agent { run } => run.active,
            SupervisedWork::Terminal { terminal } => terminal.active,
        }
    }

    pub open spec fn created_spec(self) -> u64 {
        match self {
            SupervisedWork::Agent { run } => run.created_at,
            SupervisedWork::Terminal { terminal } => terminal.created_at,
        }
    }

    fn created(&self) -> (at: u64)
        ensures
            at == self.created_spec(),
    {
        match self {
            SupervisedWork::Agent { run } => run.created_at,
            SupervisedWork::Terminal { terminal } => terminal.created_at,
        }
    }

    /// Whether the work is listed.
    pub open spec fn listed(self) -> bool {
        match self {
            SupervisedWork::Agent { .. } => true,
            SupervisedWork::Terminal { terminal } => terminal.visible_as_task,
        }
    }

    fn is_listed(&self) -> (yes: bool)
        ensures
            yes == self.listed(),
    {
        match self {
            SupervisedWork::Agent { .. } => true,
            SupervisedWork::Terminal { terminal } => terminal.visible_as_task,
        }
    }

    fn copy(&self) -> (copy: SupervisedWork)
        ensures
            copy == *self,
    {
        match self {
            SupervisedWork::Agent { run } => SupervisedWork::Agent {
                run: AgentRun {
                    id: run.id,
                    active: run.active,
                    created_at: run.created_at,
                    profile: run.profile.clone(),
                    status: run.status.clone(),
                    task: run.task.clone(),
                },
            },
            SupervisedWork::Terminal { terminal } => SupervisedWork::Terminal {
                terminal: copy_terminal(terminal),
            },
        }
    }
}

fn copy_terminal(terminal: &Terminal) -> (copy: Terminal)
    ensures
        copy == *terminal,
{
    Terminal {
        id: terminal.id,
        owner: terminal.owner,
        agent: terminal.agent,
        active: terminal.active,
        output_cursor: terminal.output_cursor,
        created_at: terminal.created_at,
        visible_as_task: terminal.visible_as_task,
        read_safe: terminal.read_safe,
        status: terminal.status.clone(),
        command: terminal.command.clone(),
    }
}

/// The work before which a new one is put: the newest comes first, and of two
/// of the same time the one that was there before.
pub open spec fn newest_position(rows: Seq<SupervisedWork>, created: u64) -> int
    decreases rows.len(),
{
    if rows.len() == 0 || rows[0].created_spec() < created {
        0
    } else {
        1 + newest_position(rows.drop_first(), created)
    }
}

/// Some work, newest first.
pub open spec fn newest_first(rows: Seq<SupervisedWork>) -> Seq<SupervisedWork>
    decreases rows.len(),
{
    if rows.len() == 0 {
        rows
    } else {
        let before = newest_first(rows.drop_last());
        before.insert(newest_position(before, rows.last().created_spec()), rows.last())
    }
}

/// Whether the newest comes first.
pub open spec fn is_newest_first(rows: Seq<SupervisedWork>) -> bool {
    forall|i: int, j: int|
        0 <= i < j < rows.len() ==> (#[trigger] rows[i]).created_spec() >= (
        #[trigger] rows[j]).created_spec()
}

pub proof fn lemma_newest_position(rows: Seq<SupervisedWork>, created: u64)
    ensures
        0 <= newest_position(rows, created) <= rows.len(),
        forall|i: int|
            0 <= i < newest_position(rows, created) ==> (#[trigger] rows[i]).created_spec()
                >= created,
        newest_position(rows, created) < rows.len() ==> rows[newest_position(
            rows,
            created,
        )].created_spec() < created,
    decreases rows.len(),
{
    if rows.len() > 0 && rows[0].created_spec() >= created {
        let rest = rows.drop_first();
        lemma_newest_position(rest, created);
        assert forall|i: int| 0 <= i < newest_position(rows, created) implies (
        #[trigger] rows[i]).created_spec() >= created by {
            if i > 0 {
                assert(rest[i - 1] == rows[i]);
            }
        }
        if newest_position(rows, created) < rows.len() {
            assert(rest[newest_position(rest, created)] == rows[newest_position(rows, created)]);
        }
    }
}

/// Sorting by age loses nothing and puts the newest first.
pub proof fn law_newest_first_sorts(rows: Seq<SupervisedWork>)
    ensures
        is_newest_first(newest_first(rows)),
        newest_first(rows).to_multiset() == rows.to_multiset(),
        newest_first(rows).len() == rows.len(),
    decreases rows.len(),
{
    broadcast use vstd::seq_lib::group_to_multiset_ensures;

    if rows.len() > 0 {
        let before = newest_first(rows.drop_last());
        let work = rows.last();
        let at = newest_position(before, work.created_spec());
        law_newest_first_sorts(rows.drop_last());
        lemma_newest_position(before, work.created_spec());
        let after = before.insert(at, work);
        assert forall|i: int, j: int| 0 <= i < j < after.len() implies (
        #[trigger] after[i]).created_spec() >= (#[trigger] after[j]).created_spec() by {
            if i < at && j > at {
                assert(after[i] == before[i] && after[j] == before[j - 1]);
            } else if i < at && j < at {
                assert(after[i] == before[i] && after[j] == before[j]);
            } else if i < at {
                assert(after[i] == before[i] && after[j] == work);
            } else if i == at {
                assert(after[j] == before[j - 1]);
                assert(before[at].created_spec() < work.created_spec());
                if j - 1 > at {
                    assert(before[at].created_spec() >= before[j - 1].created_spec());
                }
            } else {
                assert(after[i] == before[i - 1] && after[j] == before[j - 1]);
            }
        }
        vstd::seq_lib::to_multiset_insert(before, at, work);
        assert(rows =~= rows.drop_last().push(work));
        vstd::seq_lib::to_multiset_build(rows.drop_last(), work);
    }
}

/// Sorts work, newest first.
pub fn sort_newest_first(rows: Vec<SupervisedWork>) -> (sorted: Vec<SupervisedWork>)
    ensures
        sorted@ == newest_first(rows@),
{
    let mut rest = rows;
    let mut sorted: Vec<SupervisedWork> = Vec::new();
    let ghost all = rows@;
    proof {
        assert(all.take(0) =~= Seq::empty());
        assert(all.skip(0) =~= all);
    }
    while rest.len() > 0
        invariant
            rest@.len() <= all.len(),
            rest@ == all.skip(all.len() - rest@.len()),
            sorted@ == newest_first(all.take(all.len() - rest@.len())),
        decreases rest@.len(),
    {
        let ghost done = all.len() - rest@.len();
        let work: SupervisedWork = rest.remove(0);
        let created: u64 = work.created();
        proof {
            assert(work == all[done]);
            assert(rest@ =~= all.skip(done + 1));
            assert(all.take(done + 1).drop_last() =~= all.take(done));
            assert(all.take(done + 1).last() == work);
        }
        let mut at: usize = 0;
        proof {
            assert(sorted@.skip(0) =~= sorted@);
        }
        while at < sorted.len() && sorted[at].created() >= created
            invariant
                at <= sorted@.len(),
                newest_position(sorted@, created) == at + newest_position(
                    sorted@.skip(at as int),
                    created,
                ),
            decreases sorted@.len() - at,
        {
            proof {
                let tail = sorted@.skip(at as int);
                assert(tail[0] == sorted@[at as int]);
                assert(tail.drop_first() =~= sorted@.skip(at + 1));
            }
            at += 1;
        }
        proof {
            let tail = sorted@.skip(at as int);
            if at < sorted@.len() {
                assert(tail[0] == sorted@[at as int]);
            }
        }
        sorted.insert(at, work);
    }
    proof {
        assert(all.take(all.len() as int) =~= all);
    }
    sorted
}

/// The terminal with an id.
pub open spec fn terminal_with(terminals: Seq<Terminal>, id: u128) -> Option<Terminal>
    decreases terminals.len(),
{
    if terminals.len() == 0 {
        None
    } else if terminals[0].id == id {
        Some(terminals[0])
    } else {
        terminal_with(terminals.drop_first(), id)
    }
}

/// Some terminals in the order of their ids, with one put in or replaced.
pub open spec fn with_terminal(terminals: Seq<Terminal>, terminal: Terminal) -> Seq<Terminal>
    decreases terminals.len(),
{
    if terminals.len() == 0 || terminals[0].id > terminal.id {
        seq![terminal] + terminals
    } else if terminals[0].id == terminal.id {
        seq![terminal] + terminals.drop_first()
    } else {
        seq![terminals[0]] + with_terminal(terminals.drop_first(), terminal)
    }
}

/// Whether terminals are in the order of their ids, each once.
pub open spec fn in_order(terminals: Seq<Terminal>) -> bool {
    forall|i: int, j: int|
        0 <= i < j < terminals.len() ==> (#[trigger] terminals[i]).id < (#[trigger] terminals[j]).id
}

/// Whether a snapshot takes the place of what is known of a terminal: a
/// completed terminal does not run again, and output is not taken back.
pub open spec fn supersedes(current: Terminal, terminal: Terminal) -> bool {
    !(!current.active && terminal.active) && terminal.output_cursor >= current.output_cursor
}

/// Some terminals with a snapshot taken in, unless it is stale.
pub open spec fn merged(terminals: Seq<Terminal>, terminal: Terminal) -> Seq<Terminal> {
    match terminal_with(terminals, terminal.id) {
        None => with_terminal(terminals, terminal),
        Some(current) => if supersedes(current, terminal) {
            with_terminal(terminals, terminal)
        } else {
            terminals
        },
    }
}

/// Some terminals with some snapshots taken in, one after the other.
pub open spec fn merged_all(terminals: Seq<Terminal>, more: Seq<Terminal>) -> Seq<Terminal>
    decreases more.len(),
{
    if more.len() == 0 {
        terminals
    } else {
        merged(merged_all(terminals, more.drop_last()), more.last())
    }
}

pub proof fn lemma_with_terminal(terminals: Seq<Terminal>, terminal: Terminal, id: u128)
    requires
        in_order(terminals),
    ensures
        in_order(with_terminal(terminals, terminal)),
        terminal_with(with_terminal(terminals, terminal), id) == if id == terminal.id {
            Some(terminal)
        } else {
            terminal_with(terminals, id)
        },
        with_terminal(terminals, terminal).len() > 0,
        terminals.len() == 0 || terminals[0].id >= terminal.id ==> with_terminal(
            terminals,
            terminal,
        )[0].id == terminal.id,
        terminals.len() > 0 && terminals[0].id < terminal.id ==> with_terminal(
            terminals,
            terminal,
        )[0] == terminals[0],
        with_terminal(terminals, terminal).len() <= terminals.len() + 1,
    decreases terminals.len(),
{
    let after = with_terminal(terminals, terminal);
    if terminals.len() == 0 || terminals[0].id > terminal.id {
        assert(after.drop_first() =~= terminals);
        if terminals.len() > 0 && terminals[0].id > id {
            lemma_absent(terminals, id);
        }
        if id == terminal.id && terminals.len() > 0 {
            lemma_absent(terminals, id);
        }
        assert forall|i: int, j: int| 0 <= i < j < after.len() implies (#[trigger] after[i]).id < (
        #[trigger] after[j]).id by {
            if i > 0 {
                assert(after[i] == terminals[i - 1] && after[j] == terminals[j - 1]);
            } else {
                assert(after[j] == terminals[j - 1]);
                if j > 1 {
                    assert(terminals[0].id < terminals[j - 1].id);
                }
            }
        }
    } else if terminals[0].id == terminal.id {
        let rest = terminals.drop_first();
        assert(after.drop_first() =~= rest);
        assert forall|i: int, j: int| 0 <= i < j < after.len() implies (#[trigger] after[i]).id < (
        #[trigger] after[j]).id by {
            if i > 0 {
                assert(after[i] == terminals[i] && after[j] == terminals[j]);
            } else {
                assert(after[j] == terminals[j]);
                assert(terminals[0].id < terminals[j].id);
            }
        }
    } else {
        let rest = terminals.drop_first();
        assert forall|i: int, j: int| 0 <= i < j < rest.len() implies (#[trigger] rest[i]).id < (
        #[trigger] rest[j]).id by {
            assert(rest[i] == terminals[i + 1] && rest[j] == terminals[j + 1]);
        }
        lemma_with_terminal(rest, terminal, id);
        let tail = with_terminal(rest, terminal);
        assert(after.drop_first() =~= tail);
        assert(tail[0].id > terminals[0].id) by {
            if rest.len() > 0 {
                assert(rest[0] == terminals[1]);
                assert(terminals[0].id < terminals[1].id);
            }
        }
        assert forall|i: int, j: int| 0 <= i < j < after.len() implies (#[trigger] after[i]).id < (
        #[trigger] after[j]).id by {
            if i > 0 {
                assert(after[i] == tail[i - 1] && after[j] == tail[j - 1]);
            } else {
                assert(after[j] == tail[j - 1]);
                if j > 1 {
                    assert(tail[0].id < tail[j - 1].id);
                }
            }
        }
    }
}

proof fn lemma_absent(terminals: Seq<Terminal>, id: u128)
    requires
        in_order(terminals),
        terminals.len() > 0 ==> terminals[0].id > id,
    ensures
        terminal_with(terminals, id) is None,
    decreases terminals.len(),
{
    if terminals.len() > 0 {
        let rest = terminals.drop_first();
        assert forall|i: int, j: int| 0 <= i < j < rest.len() implies (#[trigger] rest[i]).id < (
        #[trigger] rest[j]).id by {
            assert(rest[i] == terminals[i + 1] && rest[j] == terminals[j + 1]);
        }
        if rest.len() > 0 {
            assert(rest[0] == terminals[1]);
            assert(terminals[0].id < terminals[1].id);
        }
        lemma_absent(rest, id);
    }
}

proof fn lemma_merged_in_order(terminals: Seq<Terminal>, terminal: Terminal)
    requires
        in_order(terminals),
    ensures
        in_order(merged(terminals, terminal)),
{
    lemma_with_terminal(terminals, terminal, terminal.id);
}

proof fn lemma_merged_all_in_order(terminals: Seq<Terminal>, more: Seq<Terminal>)
    requires
        in_order(terminals),
    ensures
        in_order(merged_all(terminals, more)),
    decreases more.len(),
{
    if more.len() > 0 {
        lemma_merged_all_in_order(terminals, more.drop_last());
        lemma_merged_in_order(merged_all(terminals, more.drop_last()), more.last());
    }
}

/// A stale snapshot never takes anything back: a completed terminal stays
/// completed, the output of a terminal does not shrink, and no terminal is
/// forgotten.
pub proof fn law_snapshots_never_regress(terminals: Seq<Terminal>, terminal: Terminal, id: u128)
    requires
        in_order(terminals),
    ensures
        terminal_with(terminals, id) matches Some(before) ==> {
            &&& terminal_with(merged(terminals, terminal), id) matches Some(after)
            &&& (!before.active ==> !after.active)
            &&& after.output_cursor >= before.output_cursor
        },
        in_order(merged(terminals, terminal)),
{
    lemma_merged_in_order(terminals, terminal);
    lemma_with_terminal(terminals, terminal, id);
}

fn find_terminal(terminals: &[Terminal], id: u128) -> (at: Option<usize>)
    ensures
        match at {
            None => terminal_with(terminals@, id) is None,
            Some(at) => at < terminals@.len() && terminal_with(terminals@, id) == Some(
                terminals@[at as int],
            ),
        },
{
    let mut i: usize = 0;
    proof {
        assert(terminals@.skip(0) =~= terminals@);
    }
    while i < terminals.len()
        invariant
            i <= terminals@.len(),
            terminal_with(terminals@, id) == terminal_with(terminals@.skip(i as int), id),
        decreases terminals@.len() - i,
    {
        proof {
            let tail = terminals@.skip(i as int);
            assert(tail[0] == terminals@[i as int]);
            assert(tail.drop_first() =~= terminals@.skip(i + 1));
        }
        if terminals[i].id == id {
            return Some(i);
        }
        i += 1;
    }
    None
}

fn put_terminal(terminals: &mut Vec<Terminal>, terminal: Terminal)
    ensures
        final(terminals)@ == with_terminal(old(terminals)@, terminal),
{
    let ghost before = terminals@;
    let mut i: usize = 0;
    proof {
        assert(before.skip(0) =~= before);
        assert(before.take(0) + with_terminal(before, terminal) =~= with_terminal(
            before,
            terminal,
        ));
    }
    while i < terminals.len() && terminals[i].id < terminal.id
        invariant
            i <= terminals@.len(),
            terminals@ == before,
            with_terminal(before, terminal) == before.take(i as int) + with_terminal(
                before.skip(i as int),
                terminal,
            ),
        decreases terminals@.len() - i,
    {
        proof {
            let tail = before.skip(i as int);
            assert(tail[0] == before[i as int]);
            assert(tail.drop_first() =~= before.skip(i + 1));
            let next = with_terminal(before.skip(i + 1), terminal);
            assert(before.take(i as int) + (seq![before[i as int]] + next) =~= before.take(i + 1)
                + next);
        }
        i += 1;
    }
    proof {
        let tail = before.skip(i as int);
        if i < before.len() {
            assert(tail[0] == before[i as int]);
            assert(tail.drop_first() =~= before.skip(i + 1));
        }
    }
    if i < terminals.len() && terminals[i].id == terminal.id {
        let ghost put = terminal;
        terminals.set(i, terminal);
        proof {
            assert(terminals@ =~= before.take(i as int) + (seq![put] + before.skip(i + 1)));
        }
    } else {
        let ghost put = terminal;
        terminals.insert(i, terminal);
        proof {
            assert(terminals@ =~= before.take(i as int) + (seq![put] + before.skip(i as int)));
        }
    }
}

fn merge_terminal(terminals: &mut Vec<Terminal>, terminal: Terminal)
    ensures
        final(terminals)@ == merged(old(terminals)@, terminal),
{
    let replace: bool = match find_terminal(terminals.as_slice(), terminal.id) {
        None => true,
        Some(at) => {
            let current = &terminals[at];
            !(!current.active && terminal.active) && terminal.output_cursor
                >= current.output_cursor
        },
    };
    if replace {
        put_terminal(terminals, terminal);
    }
}

/// The agents among some work.
pub open spec fn agents_in(rows: Seq<SupervisedWork>) -> Seq<SupervisedWork>
    decreases rows.len(),
{
    if rows.len() == 0 {
        rows
    } else if rows.last() is Agent {
        agents_in(rows.drop_last()).push(rows.last())
    } else {
        agents_in(rows.drop_last())
    }
}

/// The terminals among some work.
pub open spec fn terminals_in(rows: Seq<SupervisedWork>) -> Seq<Terminal>
    decreases rows.len(),
{
    if rows.len() == 0 {
        Seq::empty()
    } else {
        match rows.last() {
            SupervisedWork::Terminal { terminal } => terminals_in(rows.drop_last()).push(terminal),
            SupervisedWork::Agent { .. } => terminals_in(rows.drop_last()),
        }
    }
}

/// Terminals as work.
pub open spec fn as_work(terminals: Seq<Terminal>) -> Seq<SupervisedWork> {
    terminals.map_values(|terminal: Terminal| SupervisedWork::Terminal { terminal })
}

/// The work that is listed.
pub open spec fn listed_work(rows: Seq<SupervisedWork>) -> Seq<SupervisedWork>
    decreases rows.len(),
{
    if rows.len() == 0 {
        rows
    } else if rows.last().listed() {
        listed_work(rows.drop_last()).push(rows.last())
    } else {
        listed_work(rows.drop_last())
    }
}

/// How often a terminal stands in some rows.
pub open spec fn rows_of_terminal(rows: Seq<SupervisedWork>, terminal: Terminal) -> nat {
    rows.to_multiset().count(SupervisedWork::Terminal { terminal })
}

/// Whether the terminals in some rows are the known ones, each as often as it is known.
pub open spec fn lists_terminals(rows: Seq<SupervisedWork>, known: Seq<Terminal>) -> bool {
    forall|terminal: Terminal| #[trigger]
        rows_of_terminal(rows, terminal) == known.to_multiset().count(terminal)
}

proof fn lemma_agents_hold_no_terminal(rows: Seq<SupervisedWork>, terminal: Terminal)
    ensures
        rows_of_terminal(agents_in(rows), terminal) == 0,
    decreases rows.len(),
{
    broadcast use vstd::seq_lib::group_to_multiset_ensures;

    if rows.len() > 0 {
        lemma_agents_hold_no_terminal(rows.drop_last(), terminal);
    }
}

proof fn lemma_terminals_as_work(known: Seq<Terminal>, terminal: Terminal)
    ensures
        rows_of_terminal(as_work(known), terminal) == known.to_multiset().count(terminal),
    decreases known.len(),
{
    broadcast use vstd::seq_lib::group_to_multiset_ensures;

    if known.len() > 0 {
        let before = known.drop_last();
        lemma_terminals_as_work(before, terminal);
        assert(known =~= before.push(known.last()));
        assert(as_work(known) =~= as_work(before).push(
            SupervisedWork::Terminal { terminal: known.last() },
        ));
    } else {
        assert(as_work(known) =~= Seq::empty());
    }
}

/// Agents together with the known terminals list these.
proof fn lemma_rows_list_terminals(rows: Seq<SupervisedWork>, known: Seq<Terminal>)
    ensures
        lists_terminals(newest_first(agents_in(rows) + as_work(known)), known),
{
    let all = agents_in(rows) + as_work(known);
    law_newest_first_sorts(all);
    vstd::seq_lib::lemma_multiset_commutative(agents_in(rows), as_work(known));
    assert forall|terminal: Terminal| #[trigger]
        rows_of_terminal(newest_first(all), terminal) == known.to_multiset().count(terminal) by {
        lemma_agents_hold_no_terminal(rows, terminal);
        lemma_terminals_as_work(known, terminal);
    }
}

/// The latest state of an agent leaves the terminals in the rows.
proof fn lemma_agent_keeps_terminals(rows: Seq<SupervisedWork>, run: AgentRun, terminal: Terminal)
    ensures
        rows_of_terminal(with_agent(rows, run), terminal) == rows_of_terminal(rows, terminal),
    decreases rows.len(),
{
    broadcast use vstd::seq_lib::group_to_multiset_ensures;

    let work = SupervisedWork::Agent { run };
    if rows.len() == 0 {
        assert(seq![work] =~= rows.push(work));
    } else {
        let first = seq![rows[0]];
        let rest = rows.drop_first();
        assert(rows =~= first + rest);
        vstd::seq_lib::lemma_multiset_commutative(first, rest);
        if rows[0] matches SupervisedWork::Agent { run: item } && item.id == run.id {
            vstd::seq_lib::lemma_multiset_commutative(seq![work], rest);
            assert(seq![work] =~= Seq::<SupervisedWork>::empty().push(work));
            assert(first =~= Seq::<SupervisedWork>::empty().push(rows[0]));
        } else {
            vstd::seq_lib::lemma_multiset_commutative(first, with_agent(rest, run));
            lemma_agent_keeps_terminals(rest, run, terminal);
        }
    }
}

/// What is known of the background work.
#[derive(Debug)]
pub struct SupervisedWorkState {
    pub rows: Vec<SupervisedWork>,
    pub terminals: Vec<Terminal>,
    pub agent_run_live: Vec<AgentLive>,
}

impl SupervisedWorkState {
    /// The terminals that are known, in the order of their ids.
    pub open spec fn known(self) -> Seq<Terminal> {
        self.terminals@
    }

    /// Each terminal is known once, and the terminals in the rows are those that are known.
    pub open spec fn valid(self) -> bool {
        in_order(self.terminals@) && lists_terminals(self.rows@, self.terminals@)
    }

    /// Nothing is known.
    pub fn new() -> (state: Self)
        ensures
            state.rows@ == Seq::<SupervisedWork>::empty(),
            state.known() == Seq::<Terminal>::empty(),
            state.valid(),
            state.agent_run_live@ == Seq::<AgentLive>::empty(),
    {
        let state = SupervisedWorkState {
            rows: Vec::new(),
            terminals: Vec::new(),
            agent_run_live: Vec::new(),
        };
        proof {
            broadcast use vstd::seq_lib::group_to_multiset_ensures;

        }
        state
    }

    /// Forgets everything.
    pub fn clear(&mut self)
        ensures
            final(self).rows@ == Seq::<SupervisedWork>::empty(),
            final(self).known() == Seq::<Terminal>::empty(),
            final(self).valid(),
            final(self).agent_run_live@ == Seq::<AgentLive>::empty(),
    {
        *self = SupervisedWorkState::new();
    }

    /// Takes in a full snapshot. Terminals that are known better than the
    /// snapshot knows them stay as they are.
    pub fn hydrate(&mut self, rows: Vec<SupervisedWork>, terminals: Vec<Terminal>)
        ensures
            final(self).known() == merged_all(
                merged_all(old(self).known(), terminals_in(rows@)),
                terminals@,
            ),
            final(self).rows@ == newest_first(agents_in(rows@) + as_work(final(self).known())),
            final(self).agent_run_live == old(self).agent_run_live,
            old(self).valid() ==> final(self).valid(),
    {
        proof {
            if self.valid() {
                lemma_merged_all_in_order(self.terminals@, terminals_in(rows@));
                lemma_merged_all_in_order(
                    merged_all(self.terminals@, terminals_in(rows@)),
                    terminals@,
                );
            }
        }
        let mut known: Vec<Terminal> = Vec::new();
        std::mem::swap(&mut known, &mut self.terminals);
        let ghost start = known@;
        let mut agents: Vec<SupervisedWork> = Vec::new();
        let ghost all = rows@;
        let mut rest = rows;
        proof {
            assert(all.take(0) =~= Seq::empty());
            assert(all.skip(0) =~= all);
        }
        while rest.len() > 0
            invariant
                rest@.len() <= all.len(),
                rest@ == all.skip(all.len() - rest@.len()),
                agents@ == agents_in(all.take(all.len() - rest@.len())),
                known@ == merged_all(start, terminals_in(all.take(all.len() - rest@.len()))),
            decreases rest@.len(),
        {
            let ghost done = all.len() - rest@.len();
            let work: SupervisedWork = rest.remove(0);
            proof {
                assert(work == all[done]);
                assert(rest@ =~= all.skip(done + 1));
                assert(all.take(done + 1).drop_last() =~= all.take(done));
                assert(all.take(done + 1).last() == work);
            }
            match work {
                SupervisedWork::Agent { run } => {
                    agents.push(SupervisedWork::Agent { run });
                },
                SupervisedWork::Terminal { terminal } => {
                    proof {
                        let before = terminals_in(all.take(done));
                        assert(before.push(terminal).drop_last() =~= before);
                    }
                    merge_terminal(&mut known, terminal);
                },
            }
        }
        proof {
            assert(all.take(all.len() as int) =~= all);
        }
        let ghost middle = known@;
        let ghost more = terminals@;
        let mut rest = terminals;
        proof {
            assert(more.take(0) =~= Seq::empty());
            assert(more.skip(0) =~= more);
        }
        while rest.len() > 0
            invariant
                rest@.len() <= more.len(),
                rest@ == more.skip(more.len() - rest@.len()),
                known@ == merged_all(middle, more.take(more.len() - rest@.len())),
            decreases rest@.len(),
        {
            let ghost done = more.len() - rest@.len();
            let terminal: Terminal = rest.remove(0);
            proof {
                assert(terminal == more[done]);
                assert(rest@ =~= more.skip(done + 1));
                assert(more.take(done + 1).drop_last() =~= more.take(done));
                assert(more.take(done + 1).last() == terminal);
            }
            merge_terminal(&mut known, terminal);
        }
        proof {
            assert(more.take(more.len() as int) =~= more);
            lemma_no_terminals(all);
        }
        let rows = rebuilt(agents, &known);
        proof {
            lemma_rows_list_terminals(all, known@);
        }
        let mut live: Vec<AgentLive> = Vec::new();
        std::mem::swap(&mut live, &mut self.agent_run_live);
        *self = SupervisedWorkState { rows, terminals: known, agent_run_live: live };
    }

    /// Takes in the latest state of a terminal. Such updates come in order, so
    /// that they hold even where a later full snapshot is stale.
    pub fn upsert_terminal(&mut self, terminal: Terminal)
        ensures
            final(self).known() == with_terminal(old(self).known(), terminal),
            final(self).rows@ == newest_first(
                agents_in(old(self).rows@) + as_work(final(self).known()),
            ),
            final(self).agent_run_live == old(self).agent_run_live,
            old(self).valid() ==> final(self).valid(),
    {
        proof {
            if self.valid() {
                lemma_with_terminal(self.terminals@, terminal, terminal.id);
            }
        }
        let mut known: Vec<Terminal> = Vec::new();
        std::mem::swap(&mut known, &mut self.terminals);
        put_terminal(&mut known, terminal);
        let mut agents: Vec<SupervisedWork> = Vec::new();
        std::mem::swap(&mut agents, &mut self.rows);
        let ghost listed = agents@;
        let rows = rebuilt(agents, &known);
        proof {
            lemma_rows_list_terminals(listed, known@);
        }
        let mut live: Vec<AgentLive> = Vec::new();
        std::mem::swap(&mut live, &mut self.agent_run_live);
        *self = SupervisedWorkState { rows, terminals: known, agent_run_live: live };
    }

    /// Takes in the latest state of an agent.
    pub fn upsert_agent(&mut self, run: AgentRun)
        ensures
            final(self).known() == old(self).known(),
            final(self).rows@ == newest_first(with_agent(old(self).rows@, run)),
            final(self).agent_run_live == old(self).agent_run_live,
            old(self).valid() ==> final(self).valid(),
    {
        let mut rows: Vec<SupervisedWork> = Vec::new();
        std::mem::swap(&mut rows, &mut self.rows);
        let ghost before = rows@;
        let mut i: usize = 0;
        proof {
            assert(before.skip(0) =~= before);
            assert(before.take(0) + with_agent(before, run) =~= with_agent(before, run));
        }
        while i < rows.len() && !is_agent(&rows[i], run.id)
            invariant
                i <= rows@.len(),
                rows@ == before,
                with_agent(before, run) == before.take(i as int) + with_agent(
                    before.skip(i as int),
                    run,
                ),
            decreases rows@.len() - i,
        {
            proof {
                let tail = before.skip(i as int);
                assert(tail[0] == before[i as int]);
                assert(tail.drop_first() =~= before.skip(i + 1));
                let next = with_agent(before.skip(i + 1), run);
                assert(before.take(i as int) + (seq![before[i as int]] + next) =~= before.take(
                    i + 1,
                ) + next);
            }
            i += 1;
        }
        proof {
            let tail = before.skip(i as int);
            if i < before.len() {
                assert(tail[0] == before[i as int]);
                assert(tail.drop_first() =~= before.skip(i + 1));
            }
        }
        let ghost work = SupervisedWork::Agent { run };
        if i < rows.len() {
            rows.set(i, SupervisedWork::Agent { run });
            proof {
                assert(rows@ =~= before.take(i as int) + (seq![work] + before.skip(i + 1)));
            }
        } else {
            rows.push(SupervisedWork::Agent { run });
            proof {
                assert(rows@ =~= before.take(i as int) + seq![work]);
            }
        }
        self.rows = sort_newest_first(rows);
        proof {
            law_newest_first_sorts(with_agent(before, run));
            assert forall|terminal: Terminal| #[trigger]
                rows_of_terminal(self.rows@, terminal) == rows_of_terminal(before, terminal) by {
                lemma_agent_keeps_terminals(before, run, terminal);
            }
        }
    }

    /// Replaces what live agents have written.
    pub fn hydrate_live(&mut self, live: Vec<AgentLive>)
        ensures
            final(self).agent_run_live == live,
            final(self).rows == old(self).rows,
            final(self).known() == old(self).known(),
            old(self).valid() ==> final(self).valid(),
    {
        self.agent_run_live = live;
    }

    /// Takes in what a live agent has written.
    pub fn upsert_live(&mut self, live: AgentLive)
        ensures
            final(self).agent_run_live@ == without_live(
                old(self).agent_run_live@,
                live.id,
            ).push(live),
            final(self).rows == old(self).rows,
            final(self).known() == old(self).known(),
            old(self).valid() ==> final(self).valid(),
    {
        self.remove_live(live.id);
        self.agent_run_live.push(live);
    }

    /// Forgets what an agent has written.
    pub fn remove_live(&mut self, id: u128)
        ensures
            final(self).agent_run_live@ == without_live(old(self).agent_run_live@, id),
            final(self).rows == old(self).rows,
            final(self).known() == old(self).known(),
            old(self).valid() ==> final(self).valid(),
    {
        let mut rest: Vec<AgentLive> = Vec::new();
        std::mem::swap(&mut rest, &mut self.agent_run_live);
        let ghost all = rest@;
        let mut kept: Vec<AgentLive> = Vec::new();
        proof {
            assert(all.take(0) =~= Seq::empty());
            assert(all.skip(0) =~= all);
        }
        while rest.len() > 0
            invariant
                rest@.len() <= all.len(),
                rest@ == all.skip(all.len() - rest@.len()),
                kept@ == without_live(all.take(all.len() - rest@.len()), id),
            decreases rest@.len(),
        {
            let ghost done = all.len() - rest@.len();
            let live: AgentLive = rest.remove(0);
            proof {
                assert(live == all[done]);
                assert(rest@ =~= all.skip(done + 1));
                assert(all.take(done + 1).drop_last() =~= all.take(done));
                assert(all.take(done + 1).last() == live);
            }
            if live.id != id {
                kept.push(live);
            }
        }
        proof {
            assert(all.take(all.len() as int) =~= all);
        }
        self.agent_run_live = kept;
    }

    /// Whether a terminal was started by a delegated agent.
    pub fn is_delegated_terminal(&self, terminal: &Terminal) -> (yes: bool)
        ensures
            yes == (terminal.owner is Some || exists|i: int|
                0 <= i < self.rows@.len() && (#[trigger] self.rows@[i] matches
                    SupervisedWork::Agent { run } && terminal.agent == Some(run.id))),
    {
        if terminal.owner.is_some() {
            return true;
        }
        let mut i: usize = 0;
        while i < self.rows.len()
            invariant
                i <= self.rows@.len(),
                forall|k: int|
                    0 <= k < i ==> !(#[trigger] self.rows@[k] matches SupervisedWork::Agent { run }
                        && terminal.agent == Some(run.id)),
            decreases self.rows@.len() - i,
        {
            if let SupervisedWork::Agent { run } = &self.rows[i] {
                if let Some(agent) = terminal.agent {
                    if agent == run.id {
                        return true;
                    }
                }
            }
            i += 1;
        }
        false
    }

    /// The work that is listed.
    pub fn rows(&self) -> (rows: Vec<SupervisedWork>)
        ensures
            rows@ == listed_work(self.rows@),
    {
        let mut rows: Vec<SupervisedWork> = Vec::new();
        let mut i: usize = 0;
        proof {
            assert(self.rows@.take(0) =~= Seq::empty());
        }
        while i < self.rows.len()
            invariant
                i <= self.rows@.len(),
                rows@ == listed_work(self.rows@.take(i as int)),
            decreases self.rows@.len() - i,
        {
            proof {
                assert(self.rows@.take(i + 1).drop_last() =~= self.rows@.take(i as int));
                assert(self.rows@.take(i + 1).last() == self.rows@[i as int]);
            }
            if self.rows[i].is_listed() {
                rows.push(self.rows[i].copy());
            }
            i += 1;
        }
        proof {
            assert(self.rows@.take(i as int) =~= self.rows@);
        }
        rows
    }

    /// Whether anything is listed.
    pub fn has_work(&self) -> (yes: bool)
        ensures
            yes == (listed_work(self.rows@).len() > 0),
    {
        self.rows().len() > 0
    }

    /// Whether a running terminal that is not listed can be read.
    pub fn has_delayed_read(&self) -> (yes: bool)
        ensures
            yes == exists|i: int| 0 <= i < self.rows@.len() && delayed_read(#[trigger] self.rows@[i]),
    {
        let mut i: usize = 0;
        while i < self.rows.len()
            invariant
                i <= self.rows@.len(),
                forall|k: int| 0 <= k < i ==> !delayed_read(#[trigger] self.rows@[k]),
            decreases self.rows@.len() - i,
        {
            if let SupervisedWork::Terminal { terminal } = &self.rows[i] {
                if terminal.active && terminal.read_safe && !terminal.visible_as_task {
                    assert(delayed_read(self.rows@[i as int]));
                    return true;
                }
            }
            i += 1;
        }
        false
    }

    /// The listed terminals that are running.
    pub fn running_terminal_count(&self) -> (count: usize)
        ensures
            count == running_terminals(self.rows@),
    {
        let mut count: usize = 0;
        let mut i: usize = 0;
        proof {
            assert(self.rows@.take(0) =~= Seq::empty());
        }
        while i < self.rows.len()
            invariant
                i <= self.rows@.len(),
                count <= i,
                count == running_terminals(self.rows@.take(i as int)),
            decreases self.rows@.len() - i,
        {
            proof {
                assert(self.rows@.take(i + 1).drop_last() =~= self.rows@.take(i as int));
                assert(self.rows@.take(i + 1).last() == self.rows@[i as int]);
            }
            if let SupervisedWork::Terminal { terminal } = &self.rows[i] {
                if terminal.active && terminal.visible_as_task {
                    count = count + 1;
                }
            }
            i += 1;
        }
        proof {
            assert(self.rows@.take(i as int) =~= self.rows@);
        }
        count
    }

    /// The agents that are queued or running.
    pub fn running_agent_count(&self) -> (count: usize)
        ensures
            count == running_agents(self.rows@),
    {
        let mut count: usize = 0;
        let mut i: usize = 0;
        proof {
            assert(self.rows@.take(0) =~= Seq::empty());
        }
        while i < self.rows.len()
            invariant
                i <= self.rows@.len(),
                count <= i,
                count == running_agents(self.rows@.take(i as int)),
            decreases self.rows@.len() - i,
        {
            proof {
                assert(self.rows@.take(i + 1).drop_last() =~= self.rows@.take(i as int));
                assert(self.rows@.take(i + 1).last() == self.rows@[i as int]);
            }
            if let SupervisedWork::Agent { run } = &self.rows[i] {
                if run.active {
                    count = count + 1;
                }
            }
            i += 1;
        }
        proof {
            assert(self.rows@.take(i as int) =~= self.rows@);
        }
        count
    }

    /// The terminals that belong to an agent, including those that came before
    /// the agent did, oldest first.
    pub fn terminals_for_agent(&self, id: u128) -> (terminals: Vec<Terminal>)
        ensures
            terminals@ == oldest_first(
                with_missing(
                    belonging(self.known(), id),
                    belonging(terminals_in(self.rows@), id),
                ),
            ),
    {
        let mut terminals: Vec<Terminal> = Vec::new();
        let mut i: usize = 0;
        proof {
            assert(self.terminals@.take(0) =~= Seq::empty());
        }
        while i < self.terminals.len()
            invariant
                i <= self.terminals@.len(),
                terminals@ == belonging(self.terminals@.take(i as int), id),
            decreases self.terminals@.len() - i,
        {
            proof {
                assert(self.terminals@.take(i + 1).drop_last() =~= self.terminals@.take(i as int));
                assert(self.terminals@.take(i + 1).last() == self.terminals@[i as int]);
            }
            if belongs(&self.terminals[i], id) {
                terminals.push(copy_terminal(&self.terminals[i]));
            }
            i += 1;
        }
        proof {
            assert(self.terminals@.take(i as int) =~= self.terminals@);
            assert(self.rows@.take(0) =~= Seq::empty());
            assert(belonging(Seq::empty(), id) =~= Seq::empty());
        }
        let ghost first = terminals@;
        let mut k: usize = 0;
        while k < self.rows.len()
            invariant
                k <= self.rows@.len(),
                terminals@ == with_missing(
                    first,
                    belonging(terminals_in(self.rows@.take(k as int)), id),
                ),
            decreases self.rows@.len() - k,
        {
            proof {
                assert(self.rows@.take(k + 1).drop_last() =~= self.rows@.take(k as int));
                assert(self.rows@.take(k + 1).last() == self.rows@[k as int]);
            }
            if let SupervisedWork::Terminal { terminal } = &self.rows[k] {
                proof {
                    let before = terminals_in(self.rows@.take(k as int));
                    assert(before.push(*terminal).drop_last() =~= before);
                    let kept = belonging(before, id);
                    assert(kept.push(*terminal).drop_last() =~= kept);
                }
                if belongs(terminal, id) && find_terminal(
                    terminals.as_slice(),
                    terminal.id,
                ).is_none() {
                    terminals.push(copy_terminal(terminal));
                }
            }
            k += 1;
        }
        proof {
            assert(self.rows@.take(k as int) =~= self.rows@);
        }
        sort_oldest_first(terminals)
    }
}

/// Some work with the state of an agent put in or replaced.
pub open spec fn with_agent(rows: Seq<SupervisedWork>, run: AgentRun) -> Seq<SupervisedWork>
    decreases rows.len(),
{
    let work = SupervisedWork::Agent { run };
    if rows.len() == 0 {
        seq![work]
    } else if rows[0] matches SupervisedWork::Agent { run: item } && item.id == run.id {
        seq![work] + rows.drop_first()
    } else {
        seq![rows[0]] + with_agent(rows.drop_first(), run)
    }
}

fn is_agent(work: &SupervisedWork, id: u128) -> (yes: bool)
    ensures
        yes == (*work matches SupervisedWork::Agent { run } && run.id == id),
{
    match work {
        SupervisedWork::Agent { run } => run.id == id,
        SupervisedWork::Terminal { .. } => false,
    }
}

/// What live agents have written, without one of them.
pub open spec fn without_live(live: Seq<AgentLive>, id: u128) -> Seq<AgentLive>
    decreases live.len(),
{
    if live.len() == 0 {
        live
    } else if live.last().id == id {
        without_live(live.drop_last(), id)
    } else {
        without_live(live.drop_last(), id).push(live.last())
    }
}

pub open spec fn delayed_read(work: SupervisedWork) -> bool {
    work matches SupervisedWork::Terminal { terminal } && terminal.active && terminal.read_safe
        && !terminal.visible_as_task
}

pub open spec fn running_terminals(rows: Seq<SupervisedWork>) -> int
    decreases rows.len(),
{
    if rows.len() == 0 {
        0
    } else {
        running_terminals(rows.drop_last()) + if rows.last() matches SupervisedWork::Terminal {
            terminal,
        } && terminal.active && terminal.visible_as_task {
            1int
        } else {
            0
        }
    }
}

pub open spec fn running_agents(rows: Seq<SupervisedWork>) -> int
    decreases rows.len(),
{
    if rows.len() == 0 {
        0
    } else {
        running_agents(rows.drop_last()) + if rows.last() matches SupervisedWork::Agent { run }
            && run.active {
            1int
        } else {
            0
        }
    }
}

/// The terminals that belong to an agent.
pub open spec fn belonging(terminals: Seq<Terminal>, id: u128) -> Seq<Terminal>
    decreases terminals.len(),
{
    if terminals.len() == 0 {
        terminals
    } else if terminals.last().agent == Some(id) {
        belonging(terminals.drop_last(), id).push(terminals.last())
    } else {
        belonging(terminals.drop_last(), id)
    }
}

fn belongs(terminal: &Terminal, id: u128) -> (yes: bool)
    ensures
        yes == (terminal.agent == Some(id)),
{
    match terminal.agent {
        None => false,
        Some(agent) => agent == id,
    }
}

/// Some terminals, and those of `more` whose ids are not among them yet.
pub open spec fn with_missing(terminals: Seq<Terminal>, more: Seq<Terminal>) -> Seq<Terminal>
    decreases more.len(),
{
    if more.len() == 0 {
        terminals
    } else {
        let before = with_missing(terminals, more.drop_last());
        if terminal_with(before, more.last().id) is None {
            before.push(more.last())
        } else {
            before
        }
    }
}

/// Whether one terminal is listed before another: the older one, or the one
/// with the smaller id.
pub open spec fn precedes(left: Terminal, right: Terminal) -> bool {
    left.created_at < right.created_at || (left.created_at == right.created_at && left.id
        < right.id)
}

pub open spec fn oldest_position(terminals: Seq<Terminal>, terminal: Terminal) -> int
    decreases terminals.len(),
{
    if terminals.len() == 0 || precedes(terminal, terminals[0]) {
        0
    } else {
        1 + oldest_position(terminals.drop_first(), terminal)
    }
}

/// Some terminals, oldest first.
pub open spec fn oldest_first(terminals: Seq<Terminal>) -> Seq<Terminal>
    decreases terminals.len(),
{
    if terminals.len() == 0 {
        terminals
    } else {
        let before = oldest_first(terminals.drop_last());
        before.insert(oldest_position(before, terminals.last()), terminals.last())
    }
}

fn sort_oldest_first(terminals: Vec<Terminal>) -> (sorted: Vec<Terminal>)
    ensures
        sorted@ == oldest_first(terminals@),
{
    let mut rest = terminals;
    let mut sorted: Vec<Terminal> = Vec::new();
    let ghost all = terminals@;
    proof {
        assert(all.take(0) =~= Seq::empty());
        assert(all.skip(0) =~= all);
    }
    while rest.len() > 0
        invariant
            rest@.len() <= all.len(),
            rest@ == all.skip(all.len() - rest@.len()),
            sorted@ == oldest_first(all.take(all.len() - rest@.len())),
        decreases rest@.len(),
    {
        let ghost done = all.len() - rest@.len();
        let terminal: Terminal = rest.remove(0);
        proof {
            assert(terminal == all[done]);
            assert(rest@ =~= all.skip(done + 1));
            assert(all.take(done + 1).drop_last() =~= all.take(done));
            assert(all.take(done + 1).last() == terminal);
        }
        let mut at: usize = 0;
        proof {
            assert(sorted@.skip(0) =~= sorted@);
        }
        while at < sorted.len() && !(terminal.created_at < sorted[at].created_at || (
        terminal.created_at == sorted[at].created_at && terminal.id < sorted[at].id))
            invariant
                at <= sorted@.len(),
                oldest_position(sorted@, terminal) == at + oldest_position(
                    sorted@.skip(at as int),
                    terminal,
                ),
            decreases sorted@.len() - at,
        {
            proof {
                let tail = sorted@.skip(at as int);
                assert(tail[0] == sorted@[at as int]);
                assert(tail.drop_first() =~= sorted@.skip(at + 1));
            }
            at += 1;
        }
        proof {
            let tail = sorted@.skip(at as int);
            if at < sorted@.len() {
                assert(tail[0] == sorted@[at as int]);
            }
        }
        sorted.insert(at, terminal);
    }
    proof {
        assert(all.take(all.len() as int) =~= all);
    }
    sorted
}

proof fn lemma_no_terminals(rows: Seq<SupervisedWork>)
    ensures
        agents_in(agents_in(rows)) == agents_in(rows),
    decreases rows.len(),
{
    if rows.len() > 0 {
        lemma_no_terminals(rows.drop_last());
        if rows.last() is Agent {
            let before = agents_in(rows.drop_last());
            assert(before.push(rows.last()).drop_last() =~= before);
        }
    }
}

/// The agents among some work together with all terminals, newest first.
fn rebuilt(rows: Vec<SupervisedWork>, terminals: &Vec<Terminal>) -> (sorted: Vec<SupervisedWork>)
    ensures
        sorted@ == newest_first(agents_in(rows@) + as_work(terminals@)),
{
    let ghost all = rows@;
    let mut rest = rows;
    let mut kept: Vec<SupervisedWork> = Vec::new();
    proof {
        assert(all.take(0) =~= Seq::empty());
        assert(all.skip(0) =~= all);
    }
    while rest.len() > 0
        invariant
            rest@.len() <= all.len(),
            rest@ == all.skip(all.len() - rest@.len()),
            kept@ == agents_in(all.take(all.len() - rest@.len())),
        decreases rest@.len(),
    {
        let ghost done = all.len() - rest@.len();
        let work: SupervisedWork = rest.remove(0);
        proof {
            assert(work == all[done]);
            assert(rest@ =~= all.skip(done + 1));
            assert(all.take(done + 1).drop_last() =~= all.take(done));
            assert(all.take(done + 1).last() == work);
        }
        if let SupervisedWork::Agent { run } = work {
            kept.push(SupervisedWork::Agent { run });
        }
    }
    proof {
        assert(all.take(all.len() as int) =~= all);
    }
    let ghost agents = kept@;
    let mut i: usize = 0;
    while i < terminals.len()
        invariant
            i <= terminals@.len(),
            kept@ == agents + as_work(terminals@).take(i as int),
        decreases terminals@.len() - i,
    {
        kept.push(SupervisedWork::Terminal { terminal: copy_terminal(&terminals[i]) });
        i += 1;
        proof {
            assert(as_work(terminals@)[i - 1] == SupervisedWork::Terminal {
                terminal: terminals@[i - 1],
            });
            assert(kept@ =~= agents + as_work(terminals@).take(i as int));
        }
    }
    proof {
        assert(as_work(terminals@).take(i as int) =~= as_work(terminals@));
    }
    sort_newest_first(kept)
}

/// What is to be stopped.
#[derive(Clone, Copy, Debug, PartialEq, Eq, Structural)]
pub enum SupervisedWorkTarget {
    Agent(u128),
    Terminal(u128),
}

/// Whether a piece of work goes on once another is stopped: an agent takes its
/// terminals with it.
pub open spec fn survives(work: SupervisedWork, target: SupervisedWorkTarget, known: bool) -> bool {
    work.active_spec() && match (target, work) {
        (SupervisedWorkTarget::Agent(id), SupervisedWork::Agent { run }) => run.id != id,
        (SupervisedWorkTarget::Agent(id), SupervisedWork::Terminal { terminal }) => terminal.owner
            != Some(id) && !(known && terminal.agent == Some(id)),
        (SupervisedWorkTarget::Terminal(id), SupervisedWork::Terminal { terminal }) => terminal.id
            != id,
        (SupervisedWorkTarget::Terminal(_), SupervisedWork::Agent { .. }) => true,
    }
}

/// Whether the target is an agent that is listed.
pub open spec fn target_listed(rows: Seq<SupervisedWork>, target: SupervisedWorkTarget) -> bool {
    target matches SupervisedWorkTarget::Agent(id) && exists|i: int|
        0 <= i < rows.len() && (#[trigger] rows[i] matches SupervisedWork::Agent { run } && run.id
            == id)
}

/// Whether any work goes on once some of it is stopped.
pub fn background_work_remains_after_kill(
    rows: &[SupervisedWork],
    target: SupervisedWorkTarget,
) -> (remains: bool)
    ensures
        remains == exists|i: int|
            0 <= i < rows@.len() && survives(
                #[trigger] rows@[i],
                target,
                target_listed(rows@, target),
            ),
{
    let mut known: bool = false;
    let mut k: usize = 0;
    if let SupervisedWorkTarget::Agent(id) = target {
        while k < rows.len() && !known
            invariant
                k <= rows@.len(),
                target == SupervisedWorkTarget::Agent(id),
                known ==> target_listed(rows@, target),
                !known ==> forall|i: int|
                    0 <= i < k ==> !(#[trigger] rows@[i] matches SupervisedWork::Agent { run }
                        && run.id == id),
            decreases rows@.len() - k,
        {
            if is_agent(&rows[k], id) {
                assert(rows@[k as int] matches SupervisedWork::Agent { run } && run.id == id);
                known = true;
            }
            k += 1;
        }
    }
    proof {
        assert(known == target_listed(rows@, target));
    }
    let mut i: usize = 0;
    while i < rows.len()
        invariant
            i <= rows@.len(),
            known == target_listed(rows@, target),
            forall|k: int| 0 <= k < i ==> !survives(#[trigger] rows@[k], target, known),
        decreases rows@.len() - i,
    {
        let work = &rows[i];
        let goes_on: bool = work.active() && match (target, work) {
            (SupervisedWorkTarget::Agent(id), SupervisedWork::Agent { run }) => run.id != id,
            (SupervisedWorkTarget::Agent(id), SupervisedWork::Terminal { terminal }) => {
                let owned: bool = match terminal.owner {
                    None => false,
                    Some(owner) => owner == id,
                };
                !owned && !(known && belongs(terminal, id))
            },
            (SupervisedWorkTarget::Terminal(id), SupervisedWork::Terminal { terminal }) =>
                terminal.id != id,
            (SupervisedWorkTarget::Terminal(_), SupervisedWork::Agent { .. }) => true,
        };
        if goes_on {
            assert(survives(rows@[i as int], target, known));
            return true;
        }
        i += 1;
    }
    false
}

/// The work that is shown, as indices: what goes on, or what is past.
pub open spec fn shown_work(rows: Seq<SupervisedWork>, past: bool) -> Seq<usize>
    decreases rows.len(),
{
    if rows.len() == 0 {
        Seq::empty()
    } else if rows.last().active_spec() != past {
        shown_work(rows.drop_last(), past).push((rows.len() - 1) as usize)
    } else {
        shown_work(rows.drop_last(), past)
    }
}

/// The work that is shown, as indices.
pub fn visible_work(rows: &[SupervisedWork], past: bool) -> (visible: Vec<usize>)
    ensures
        visible@ == shown_work(rows@, past),
        visible@.len() <= rows@.len(),
        forall|i: int| 0 <= i < visible@.len() ==> #[trigger] visible@[i] < rows@.len(),
{
    let mut visible: Vec<usize> = Vec::new();
    let mut i: usize = 0;
    proof {
        assert(rows@.take(0) =~= Seq::empty());
    }
    while i < rows.len()
        invariant
            i <= rows@.len(),
            visible@.len() <= i,
            forall|k: int| 0 <= k < visible@.len() ==> #[trigger] visible@[k] < i,
            visible@ == shown_work(rows@.take(i as int), past),
        decreases rows@.len() - i,
    {
        if rows[i].active() != past {
            visible.push(i);
        }
        i += 1;
        proof {
            assert(rows@.take(i as int).drop_last() =~= rows@.take(i - 1));
            assert(rows@.take(i as int).last() == rows@[i - 1]);
        }
    }
    proof {
        assert(rows@.take(i as int) =~= rows@);
    }
    visible
}

/// The surface that lists background work.
#[derive(Debug)]
pub struct BackgroundSurface {
    pub rows: Vec<SupervisedWork>,
    pub list: ListState,
    pub show_past: bool,
}

/// What is to be done after a key among background work. The numbers are
/// indices of rows.
#[derive(Clone, Copy, Debug, PartialEq, Eq, Structural)]
pub enum BackgroundStep {
    Stay,
    Close,
    /// Ask whether to stop this.
    Kill(usize),
    Open(usize),
}

impl BackgroundSurface {
    /// The list before the key is looked at.
    pub open spec fn settled_list(self) -> ListState {
        self.list.reconciled(
            shown_work(self.rows@, self.show_past).len() as int,
            VISIBLE_MENU_ITEMS as int,
        )
    }

    /// The row under the cursor.
    pub open spec fn row_spec(self) -> Option<usize> {
        let visible = shown_work(self.rows@, self.show_past);
        let at = self.settled_list().at_spec();
        if at < visible.len() { Some(visible[at]) } else { None }
    }

    /// Whether a key leaves the surface: upwards from the first row, or Alt with
    /// the arrow upwards.
    pub open spec fn leaves(self, key: SurfaceKey) -> bool {
        (key.key.code == KeyCode::Up && key.key.modifiers == (KeyModifiers {
            shift: false,
            control: false,
            alt: true,
            other: false,
        })) || (key.code == KeyCode::Up && self.settled_list().selected == Some(0usize))
    }

    /// Whether a key asks to stop the row under the cursor.
    pub open spec fn kills(self, key: SurfaceKey, observer: bool) -> bool {
        key.key.code == KeyCode::Char('k') && key.key.modifiers.is_empty() && !self.show_past
            && !observer && self.row_spec() is Some
    }

    /// The effect of `key`.
    pub open spec fn key_effect(
        before: Self,
        after: Self,
        key: SurfaceKey,
        observer: bool,
        step: BackgroundStep,
    ) -> bool {
        &&& (after.rows == before.rows)
        &&& (if before.leaves(key) {
                step == BackgroundStep::Close
            } else if before.kills(key, observer) {
                &&& step == BackgroundStep::Kill(before.row_spec()->0)
                &&& after.list == before.settled_list()
                &&& after.show_past == before.show_past
            } else if key.code == KeyCode::Char('p') {
                &&& step == BackgroundStep::Stay
                &&& after.show_past == !before.show_past
                &&& after.list == settled(
                    shown_work(before.rows@, !before.show_past).len() as int,
                    0,
                    0,
                    1,
                )
            } else {
                &&& after.show_past == before.show_past
                &&& after.list == list_after(
                    before.list,
                    shown_work(before.rows@, before.show_past).len() as int,
                    VISIBLE_MENU_ITEMS as int,
                    key.code,
                )
                &&& step == if key.code == KeyCode::Enter && before.row_spec() is Some {
                    BackgroundStep::Open(before.row_spec()->0)
                } else {
                    BackgroundStep::Stay
                }
            })
    }

    /// A key among background work. An observer stops nothing.
    pub fn key(&mut self, key: SurfaceKey, observer: bool) -> (step: BackgroundStep)
        ensures
            Self::key_effect(*old(self), *final(self), key, observer, step),
    {
        if key.key.code == KeyCode::Up && key.key.modifiers.alt && !key.key.modifiers.shift
            && !key.key.modifiers.control && !key.key.modifiers.other {
            return BackgroundStep::Close;
        }
        let visible: Vec<usize> = visible_work(self.rows.as_slice(), self.show_past);
        self.list.reconcile(visible.len(), VISIBLE_MENU_ITEMS);
        let at: usize = self.list.at();
        if key.code == KeyCode::Up && visible.len() > 0 && at == 0 {
            return BackgroundStep::Close;
        }
        if key.key.code == KeyCode::Char('k') && key.key.modifiers.is_empty() && !self.show_past
            && !observer && at < visible.len() {
            return BackgroundStep::Kill(visible[at]);
        }
        match crate::control::list_action(key.code) {
            Some(action) => {
                self.list.apply(action, VISIBLE_MENU_ITEMS);
                BackgroundStep::Stay
            },
            None => {
                if key.code == KeyCode::Char('p') {
                    self.show_past = !self.show_past;
                    let count: usize = visible_work(self.rows.as_slice(), self.show_past).len();
                    self.list.reset(count);
                    BackgroundStep::Stay
                } else if key.code == KeyCode::Enter && at < visible.len() {
                    BackgroundStep::Open(visible[at])
                } else {
                    BackgroundStep::Stay
                }
            },
        }
    }
}

/// The effect of `kill_key`.
pub open spec fn kill_key_effect(
    selected: usize,
    new_selected: usize,
    code: KeyCode,
    step: ConfirmStep,
) -> bool {
    &&& (new_selected == stepped(selected as int, 1, code))
    &&& (step == if code != KeyCode::Enter {
            ConfirmStep::Stay
        } else if selected == 1 {
            ConfirmStep::Cancel
        } else {
            ConfirmStep::Confirm
        })
}

/// A key where it is asked whether to stop work: the first item stops it, the
/// second does not.
pub fn kill_key(selected: &mut usize, code: KeyCode) -> (step: ConfirmStep)
    ensures
        kill_key_effect(*old(selected), *final(selected), code, step),
{
    if step_index(selected, 1, code) || code != KeyCode::Enter {
        ConfirmStep::Stay
    } else if *selected == 1 {
        ConfirmStep::Cancel
    } else {
        ConfirmStep::Confirm
    }
}

/// Every known terminal has exactly one row, and every row of a terminal shows it as it is
/// known.
pub proof fn law_each_terminal_has_one_row(state: SupervisedWorkState, terminal: int, row: int)
    requires
        state.valid(),
        0 <= terminal < state.known().len(),
        0 <= row < state.rows@.len(),
    ensures
        rows_of_terminal(state.rows@, state.known()[terminal]) == 1,
        state.rows@[row] matches SupervisedWork::Terminal { terminal: shown } ==> {
            &&& state.known().contains(shown)
            &&& shown.id == state.known()[terminal].id ==> shown == state.known()[terminal]
        },
{
    broadcast use vstd::seq_lib::group_to_multiset_ensures;

    let known = state.known();
    assert(known.no_duplicates()) by {
        assert forall|i: int, j: int| 0 <= i < j < known.len() implies known[i] != known[j] by {
            assert(known[i].id < known[j].id);
        }
    }
    known.lemma_multiset_has_no_duplicates();
    assert(known.to_multiset().contains(known[terminal])) by {
        assert(known.contains(known[terminal]));
    }
    if let SupervisedWork::Terminal { terminal: shown } = state.rows@[row] {
        assert(state.rows@.contains(state.rows@[row]));
        assert(rows_of_terminal(state.rows@, shown) > 0);
        assert(known.contains(shown));
        let at = choose|i: int| 0 <= i < known.len() && known[i] == shown;
        if at < terminal {
            assert(known[at].id < known[terminal].id);
        } else if terminal < at {
            assert(known[terminal].id < known[at].id);
        }
    }
}

} // verus!
