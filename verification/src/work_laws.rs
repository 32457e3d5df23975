//! What holds of background work: what is listed where, and what stops it.

use vstd::prelude::*;
use crate::control::SurfaceKey;
use crate::key::KeyCode;
use crate::mcp_control::ConfirmStep;
use crate::menu_laws::{menu_marks, menu_offers};
use crate::moving_laws::under_cursor;
use crate::render_menus::kill_rows;
use crate::supervised_work::{
    belonging, delayed_read, kill_key_effect, listed_work, oldest_first, precedes, running_agents,
    running_terminals, shown_work, survives, with_agent, without_live, AgentLive, AgentRun,
    BackgroundStep, BackgroundSurface, SupervisedWork, SupervisedWorkTarget, Terminal,
};

verus! {

/// Whether a piece of work still goes on.
pub open spec fn goes_on(work: SupervisedWork) -> bool {
    ||| (work matches SupervisedWork::Agent { run } && run.active)
    ||| (work matches SupervisedWork::Terminal { terminal } && terminal.active)
}

/// Each piece of work is shown in exactly one of two lists: what goes on, and what is past.
/// Both keep the order of the work.
pub proof fn law_work_is_shown_in_one_list(rows: Seq<SupervisedWork>, i: int)
    requires
        rows.len() <= usize::MAX,
        0 <= i < rows.len(),
    ensures
        shown_work(rows, false).contains(i as usize) <==> goes_on(rows[i]),
        shown_work(rows, true).contains(i as usize) <==> !goes_on(rows[i]),
        forall|past: bool, j: int|
            #![trigger shown_work(rows, past)[j]]
            0 <= j < shown_work(rows, past).len() ==> shown_work(rows, past)[j] < rows.len(),
        forall|past: bool, j: int, k: int|
            #![trigger shown_work(rows, past)[j], shown_work(rows, past)[k]]
            0 <= j < k < shown_work(rows, past).len() ==> shown_work(rows, past)[j] < shown_work(
                rows,
                past,
            )[k],
        shown_work(rows, false).len() + shown_work(rows, true).len() == rows.len(),
{
    lemma_shown(rows, false, i);
    lemma_shown(rows, true, i);
}

proof fn lemma_shown(rows: Seq<SupervisedWork>, past: bool, i: int)
    requires
        rows.len() <= usize::MAX,
    ensures
        0 <= i < rows.len() ==> (shown_work(rows, past).contains(i as usize) <==> goes_on(rows[i])
            != past),
        forall|j: int|
            0 <= j < shown_work(rows, past).len() ==> #[trigger] shown_work(rows, past)[j]
                < rows.len(),
        forall|j: int, k: int|
            0 <= j < k < shown_work(rows, past).len() ==> #[trigger] shown_work(rows, past)[j]
                < #[trigger] shown_work(rows, past)[k],
        shown_work(rows, false).len() + shown_work(rows, true).len() == rows.len(),
    decreases rows.len(),
{
    if rows.len() > 0 {
        let before = shown_work(rows.drop_last(), past);
        let after = shown_work(rows, past);
        let last = (rows.len() - 1) as usize;
        lemma_shown(rows.drop_last(), past, i);
        if goes_on(rows.last()) != past {
            assert(after == before.push(last));
            assert(after[before.len() as int] == last);
            if before.contains(i as usize) {
                let j = choose|j: int| 0 <= j < before.len() && before[j] == i as usize;
                assert(after[j] == i as usize);
            }
            assert(after.contains(last));
            if 0 <= i < rows.len() - 1 && after.contains(i as usize) {
                let j = choose|j: int| 0 <= j < after.len() && after[j] == i as usize;
                assert(before[j] == i as usize);
            }
        }
        if 0 <= i < rows.len() - 1 {
            assert(rows.drop_last()[i] == rows[i]);
        }
    }
}

/// What is listed is every agent, and every terminal that is shown as a task, and nothing
/// else.
pub proof fn law_tasks_are_listed(rows: Seq<SupervisedWork>, work: SupervisedWork)
    ensures
        listed_work(rows).contains(work) <==> rows.contains(work) && (work is Agent || (
        work matches SupervisedWork::Terminal { terminal } && terminal.visible_as_task)),
    decreases rows.len(),
{
    if rows.len() > 0 {
        law_tasks_are_listed(rows.drop_last(), work);
        assert(rows =~= rows.drop_last().push(rows.last()));
        let before = listed_work(rows.drop_last());
        lemma_pushed(rows.drop_last(), rows.last(), work);
        lemma_pushed(before, rows.last(), work);
    }
}

proof fn lemma_pushed<A>(items: Seq<A>, item: A, other: A)
    ensures
        items.push(item).contains(other) <==> items.contains(other) || other == item,
{
    let all = items.push(item);
    assert(all[items.len() as int] == item);
    if items.contains(other) {
        let i = choose|i: int| 0 <= i < items.len() && items[i] == other;
        assert(all[i] == other);
    }
    if all.contains(other) && other != item {
        let i = choose|i: int| 0 <= i < all.len() && all[i] == other;
        assert(items[i] == other);
    }
}

/// A row counts as running where it is a listed terminal that goes on, or an agent that
/// does: the counts are the numbers of such rows.
pub proof fn law_running_work_is_counted(rows: Seq<SupervisedWork>)
    ensures
        running_terminals(rows) == rows.filter(
            |work: SupervisedWork|
                goes_on(work) && (work matches SupervisedWork::Terminal { terminal }
                    && terminal.visible_as_task),
        ).len(),
        running_agents(rows) == rows.filter(
            |work: SupervisedWork| goes_on(work) && work is Agent,
        ).len(),
    decreases rows.len(),
{
    reveal(Seq::filter);
    if rows.len() > 0 {
        law_running_work_is_counted(rows.drop_last());
    }
}

/// The terminals of an agent are those that name it, and no others; the oldest comes first,
/// and none comes twice where the known terminals differ.
pub proof fn law_agents_have_their_terminals(terminals: Seq<Terminal>, id: u128, terminal: Terminal)
    ensures
        belonging(terminals, id).contains(terminal) <==> terminals.contains(terminal)
            && terminal.agent == Some(id),
    decreases terminals.len(),
{
    if terminals.len() > 0 {
        law_agents_have_their_terminals(terminals.drop_last(), id, terminal);
        assert(terminals =~= terminals.drop_last().push(terminals.last()));
        lemma_pushed(terminals.drop_last(), terminals.last(), terminal);
        lemma_pushed(belonging(terminals.drop_last(), id), terminals.last(), terminal);
    }
}

/// Terminals are put in order by their age, and by their numbers where they are as old;
/// none is lost.
pub proof fn law_oldest_terminals_come_first(terminals: Seq<Terminal>)
    ensures
        oldest_first(terminals).to_multiset() == terminals.to_multiset(),
        forall|i: int, j: int|
            0 <= i < j < oldest_first(terminals).len() ==> (#[trigger] oldest_first(
                terminals,
            )[i]).created_at <= (#[trigger] oldest_first(terminals)[j]).created_at,
    decreases terminals.len(),
{
    broadcast use vstd::seq_lib::group_to_multiset_ensures;

    if terminals.len() > 0 {
        let before = oldest_first(terminals.drop_last());
        let last = terminals.last();
        let at = crate::supervised_work::oldest_position(before, last);
        law_oldest_terminals_come_first(terminals.drop_last());
        lemma_oldest_position(before, last);
        let after = before.insert(at, last);
        assert forall|i: int, j: int| 0 <= i < j < after.len() implies (
        #[trigger] after[i]).created_at <= (#[trigger] after[j]).created_at by {
            if j < at {
                assert(after[i] == before[i] && after[j] == before[j]);
            } else if j == at {
                assert(after[i] == before[i]);
            } else if i < at {
                assert(after[i] == before[i] && after[j] == before[j - 1]);
            } else if i == at {
                assert(after[j] == before[j - 1]);
                if j - 1 > at {
                    assert(before[at].created_at <= before[j - 1].created_at);
                }
            } else {
                assert(after[i] == before[i - 1] && after[j] == before[j - 1]);
            }
        }
        vstd::seq_lib::to_multiset_insert(before, at, last);
        assert(terminals =~= terminals.drop_last().push(last));
        vstd::seq_lib::to_multiset_build(terminals.drop_last(), last);
    }
}

proof fn lemma_oldest_position(terminals: Seq<Terminal>, terminal: Terminal)
    ensures
        ({
            let at = crate::supervised_work::oldest_position(terminals, terminal);
            &&& 0 <= at <= terminals.len()
            &&& forall|i: int| 0 <= i < at ==> (#[trigger] terminals[i]).created_at
                <= terminal.created_at
            &&& at < terminals.len() ==> terminal.created_at <= terminals[at].created_at
        }),
    decreases terminals.len(),
{
    if terminals.len() > 0 && !precedes(terminal, terminals[0]) {
        let rest = terminals.drop_first();
        lemma_oldest_position(rest, terminal);
        let at = crate::supervised_work::oldest_position(terminals, terminal);
        assert forall|i: int| 0 <= i < at implies (#[trigger] terminals[i]).created_at
            <= terminal.created_at by {
            if i > 0 {
                assert(terminals[i] == rest[i - 1]);
            }
        }
        if at < terminals.len() {
            assert(terminals[at] == rest[at - 1]);
        }
    }
}

/// What is left of the background work once a target is stopped goes on, and is neither the
/// target nor, where that is an agent, a terminal that the agent started. Nothing that goes
/// on and has nothing to do with the target is stopped with it.
pub proof fn law_stopping_stops_the_target(
    work: SupervisedWork,
    target: SupervisedWorkTarget,
    known: bool,
)
    ensures
        survives(work, target, known) ==> goes_on(work),
        (work matches SupervisedWork::Agent { run } && target == SupervisedWorkTarget::Agent(
            run.id,
        )) ==> !survives(work, target, known),
        (work matches SupervisedWork::Terminal { terminal } && target
            == SupervisedWorkTarget::Terminal(terminal.id)) ==> !survives(work, target, known),
        (work matches SupervisedWork::Terminal { terminal } && (terminal.owner matches Some(owner)
            && target == SupervisedWorkTarget::Agent(owner))) ==> !survives(work, target, known),
        (work matches SupervisedWork::Terminal { terminal } && known && (
        terminal.agent matches Some(agent) && target == SupervisedWorkTarget::Agent(agent)))
            ==> !survives(work, target, known),
        (work matches SupervisedWork::Agent { run } && run.active && target
            != SupervisedWorkTarget::Agent(run.id)) ==> survives(work, target, known),
        (work matches SupervisedWork::Terminal { terminal } && terminal.active && (
        target matches SupervisedWorkTarget::Terminal(id) && id != terminal.id)) ==> survives(
            work,
            target,
            known,
        ),
        (work matches SupervisedWork::Terminal { terminal } && terminal.active && terminal.owner
            is None && terminal.agent is None && target is Agent) ==> survives(
            work,
            target,
            known,
        ),
{
}

/// The latest state of an agent is among the work afterwards, and everything that is not
/// that agent stays.
pub proof fn law_agents_are_taken_in(rows: Seq<SupervisedWork>, run: AgentRun, other: SupervisedWork)
    ensures
        with_agent(rows, run).contains(SupervisedWork::Agent { run }),
        rows.contains(other) && !(other matches SupervisedWork::Agent { run: known } && known.id
            == run.id) ==> with_agent(rows, run).contains(other),
    decreases rows.len(),
{
    let work = SupervisedWork::Agent { run };
    let after = with_agent(rows, run);
    if rows.len() == 0 {
        assert(after[0] == work);
    } else {
        let rest = rows.drop_first();
        if rows.contains(other) {
            let i = choose|i: int| 0 <= i < rows.len() && rows[i] == other;
            if i > 0 {
                assert(rest[i - 1] == other);
            }
        }
        if rows[0] matches SupervisedWork::Agent { run: item } && item.id == run.id {
            assert(after[0] == work);
            if rest.contains(other) {
                let i = choose|i: int| 0 <= i < rest.len() && rest[i] == other;
                assert(after[i + 1] == other);
            }
        } else {
            law_agents_are_taken_in(rest, run, other);
            let tail = with_agent(rest, run);
            assert(after == seq![rows[0]] + tail);
            let k = choose|k: int| 0 <= k < tail.len() && tail[k] == work;
            assert(after[k + 1] == work);
            assert(after[0] == rows[0]);
            if tail.contains(other) {
                let i = choose|i: int| 0 <= i < tail.len() && tail[i] == other;
                assert(after[i + 1] == other);
            }
        }
    }
}

/// What one agent wrote is forgotten, and what the others wrote is kept.
pub proof fn law_only_one_agent_is_forgotten(live: Seq<AgentLive>, id: u128, other: AgentLive)
    ensures
        without_live(live, id).contains(other) <==> live.contains(other) && other.id != id,
    decreases live.len(),
{
    if live.len() > 0 {
        law_only_one_agent_is_forgotten(live.drop_last(), id, other);
        assert(live =~= live.drop_last().push(live.last()));
        lemma_pushed(live.drop_last(), live.last(), other);
        lemma_pushed(without_live(live.drop_last(), id), live.last(), other);
    }
}

/// A key among background work stops something only where it is `k` alone, what goes on is
/// shown, and the user does not only look on; and then it is the work under the cursor,
/// which goes on. Enter opens the work under the cursor, whatever list it is in. `p` shows
/// the other list.
pub proof fn law_work_is_stopped_on_purpose(
    before: BackgroundSurface,
    after: BackgroundSurface,
    key: SurfaceKey,
    observer: bool,
    step: BackgroundStep,
)
    requires
        BackgroundSurface::key_effect(before, after, key, observer, step),
        before.rows@.len() <= usize::MAX,
    ensures
        after.rows@ == before.rows@,
        step matches BackgroundStep::Kill(row) ==> {
            &&& key.key.code == KeyCode::Char('k')
            &&& key.key.modifiers.is_empty()
            &&& !before.show_past
            &&& !observer
            &&& row < before.rows@.len()
            &&& goes_on(before.rows@[row as int])
            &&& shown_work(before.rows@, false)[under_cursor(
                before.list,
                shown_work(before.rows@, false).len() as int,
            )] == row
        },
        step matches BackgroundStep::Open(row) ==> {
            &&& key.code == KeyCode::Enter
            &&& row < before.rows@.len()
            &&& goes_on(before.rows@[row as int]) != before.show_past
            &&& shown_work(before.rows@, before.show_past)[under_cursor(
                before.list,
                shown_work(before.rows@, before.show_past).len() as int,
            )] == row
        },
        step is Close ==> key.key.code == KeyCode::Up || key.code == KeyCode::Up,
        key.code == KeyCode::Enter && key.key.code == KeyCode::Enter && shown_work(
            before.rows@,
            before.show_past,
        ).len() > 0 ==> step is Open,
        key.key.code == KeyCode::Char('k') && key.code == KeyCode::Char('k')
            && key.key.modifiers.is_empty() && !before.show_past && !observer && shown_work(
            before.rows@,
            false,
        ).len() > 0 ==> step is Kill,
        key.key.code == KeyCode::Char('p') && key.code == KeyCode::Char('p') ==> step is Stay
            && after.show_past != before.show_past,
        key.code != KeyCode::Char('p') && !(step is Close) ==> after.show_past
            == before.show_past,
{
    let shown = shown_work(before.rows@, before.show_past);
    if shown.len() > 0 {
        let at = under_cursor(before.list, shown.len() as int);
        lemma_shown(before.rows@, before.show_past, shown[at] as int);
        assert(shown.contains(shown[at]));
    } else {
        lemma_shown(before.rows@, before.show_past, 0);
    }
}

/// Work is stopped only by Enter on the item that says so: the first, "Kill"; "Close" leaves
/// it.
pub proof fn law_kill_is_what_it_says(
    target: SupervisedWorkTarget,
    selected: usize,
    new_selected: usize,
    code: KeyCode,
    step: ConfirmStep,
    width: int,
)
    requires
        kill_key_effect(selected, new_selected, code, step),
        selected <= 1,
    ensures
        step is Confirm <==> code == KeyCode::Enter && selected == 0,
        step is Cancel <==> code == KeyCode::Enter && selected == 1,
        menu_offers(kill_rows(target, selected as int, width), 0, "Kill"@, width),
        menu_offers(kill_rows(target, selected as int, width), 1, "Close"@, width),
        menu_marks(kill_rows(target, selected as int, width), selected as int, width),
{
}

/// A read is delayed where it is a running terminal that only reads and is not shown as a
/// task.
pub proof fn law_delayed_reads_are_hidden(work: SupervisedWork)
    ensures
        delayed_read(work) ==> goes_on(work) && work is Terminal && !work->terminal.visible_as_task
            && work->terminal.read_safe,
        goes_on(work) && work is Terminal && !work->terminal.visible_as_task
            && work->terminal.read_safe ==> delayed_read(work),
        work is Agent ==> !delayed_read(work),
{
}

} // verus!
