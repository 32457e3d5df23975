//! The rows of the log of a sub-agent: the cards that are kept once they are laid out,
//! and how they are put together.

use vstd::prelude::*;
use crate::agent_log::{
    card_of, content_end, flow_views, group_total, is_blank_row, kept_prefix,
    lemma_group_total_grows, log_after, log_items, Card, FlowItem, FlowRole, FlowView, LogEntry,
    LogSettings, LogView, ToolGroup,
};
use crate::choices::Choices;
use crate::render_mcp::copy_rows;
use crate::style::{append_lines, blank_line, line_views, push_line, Line, LineView};

verus! {

/// What rows are laid out for.
#[derive(Clone, Copy, Debug, PartialEq, Eq, Structural)]
pub enum RowKey {
    /// The message of the entry with this index.
    Message(usize),
    /// The group with this index, expanded or not.
    Card(usize, bool),
    /// The summary of a run of groups.
    Summary { first: usize, count: usize, expanded: bool, active: bool },
    /// The message that is being written.
    Streaming,
}

/// Rows that are kept.
#[derive(Debug)]
pub struct CardRows {
    pub entries: Vec<(RowKey, Vec<Line>)>,
}

/// The rows that are kept under a key.
pub open spec fn rows_in(entries: Seq<(RowKey, Vec<Line>)>, key: RowKey) -> Seq<LineView>
    decreases entries.len(),
{
    if entries.len() == 0 {
        Seq::empty()
    } else if entries[0].0 == key {
        line_views(entries[0].1@)
    } else {
        rows_in(entries.drop_first(), key)
    }
}

/// Whether rows are kept under a key.
pub open spec fn has_key(entries: Seq<(RowKey, Vec<Line>)>, key: RowKey) -> bool {
    exists|i: int| 0 <= i < entries.len() && (#[trigger] entries[i]).0 == key
}

/// What is kept stays as it is when more is kept.
pub proof fn law_kept_rows_stay(
    before: Seq<(RowKey, Vec<Line>)>,
    after: Seq<(RowKey, Vec<Line>)>,
    key: RowKey,
)
    requires
        before.is_prefix_of(after),
        has_key(before, key),
    ensures
        has_key(after, key),
        rows_in(after, key) == rows_in(before, key),
    decreases before.len(),
{
    let i = choose|i: int| 0 <= i < before.len() && (#[trigger] before[i]).0 == key;
    assert(after[i] == before[i]);
    assert(after[0] == before[0]);
    if before[0].0 != key {
        let rest = before.drop_first();
        assert(rest.is_prefix_of(after.drop_first())) by {
            assert(rest =~= after.drop_first().take(rest.len() as int));
        }
        assert(rest[i - 1].0 == key);
        law_kept_rows_stay(rest, after.drop_first(), key);
    }
}

impl CardRows {
    pub open spec fn has(self, key: RowKey) -> bool {
        has_key(self.entries@, key)
    }

    pub open spec fn rows_of(self, key: RowKey) -> Seq<LineView> {
        rows_in(self.entries@, key)
    }

    pub fn new() -> (cards: Self)
        ensures
            cards.entries@.len() == 0,
    {
        CardRows { entries: Vec::new() }
    }

    fn contains(&self, key: RowKey) -> (yes: bool)
        ensures
            yes == self.has(key),
    {
        let mut i: usize = 0;
        while i < self.entries.len()
            invariant
                i <= self.entries@.len(),
                forall|k: int| 0 <= k < i ==> (#[trigger] self.entries@[k]).0 != key,
            decreases self.entries@.len() - i,
        {
            if self.entries[i].0 == key {
                assert(self.entries@[i as int].0 == key);
                return true;
            }
            i += 1;
        }
        false
    }

    /// A copy of the rows that are kept under a key; none, where none are kept.
    pub fn rows(&self, key: RowKey) -> (rows: Vec<Line>)
        ensures
            line_views(rows@) == self.rows_of(key),
    {
        let mut i: usize = 0;
        proof {
            assert(self.entries@.skip(0) =~= self.entries@);
        }
        while i < self.entries.len()
            invariant
                i <= self.entries@.len(),
                rows_in(self.entries@, key) == rows_in(self.entries@.skip(i as int), key),
            decreases self.entries@.len() - i,
        {
            proof {
                assert(self.entries@.skip(i as int).drop_first() =~= self.entries@.skip(i + 1));
                assert(self.entries@.skip(i as int)[0] == self.entries@[i as int]);
            }
            if self.entries[i].0 == key {
                let kept = &self.entries[i].1;
                proof {
                    assert(line_views(kept@).subrange(0, kept@.len() as int) =~= line_views(
                        kept@,
                    ));
                }
                return copy_rows(kept.as_slice(), 0, kept.len());
            }
            i += 1;
        }
        let rows: Vec<Line> = Vec::new();
        proof {
            assert(line_views(rows@) =~= Seq::empty());
        }
        rows
    }
}

/// What laying out a card leaves: a card that is kept stays as it is, and another one is
/// kept as it was laid out.
pub open spec fn card_kept<F: FnOnce() -> Vec<Line>>(
    before: CardRows,
    after: CardRows,
    key: RowKey,
    render: F,
) -> bool {
    if before.has(key) {
        after == before
    } else {
        &&& after.entries@.len() == before.entries@.len() + 1
        &&& after.entries@.drop_last() == before.entries@
        &&& after.entries@.last().0 == key
        &&& render.ensures((), after.entries@.last().1)
    }
}

/// Lays out a card, unless it is kept.
pub fn card_rows<F: FnOnce() -> Vec<Line>>(kept: &mut CardRows, key: RowKey, render: F)
    requires
        render.requires(()),
    ensures
        card_kept(*old(kept), *final(kept), key, render),
        final(kept).has(key),
        old(kept).entries@.is_prefix_of(final(kept).entries@),
{
    let ghost before = kept.entries@;
    if !kept.contains(key) {
        let rows: Vec<Line> = render();
        kept.entries.push((key, rows));
        proof {
            assert(kept.entries@.drop_last() =~= before);
            assert(kept.entries@[before.len() as int].0 == key);
        }
    }
    proof {
        assert(before =~= kept.entries@.take(before.len() as int));
    }
}

/// How many explorations stand among the first groups.
pub open spec fn explored(groups: Seq<ToolGroup>, count: int) -> int
    decreases count,
{
    if count <= 0 {
        0
    } else {
        explored(groups, count - 1) + if groups[count - 1].exploration { 1int } else { 0 }
    }
}

/// How many explorations stand in the first entries.
pub open spec fn exploration_total(entries: Seq<LogEntry>, count: int) -> int
    decreases count,
{
    if count <= 0 {
        0
    } else {
        exploration_total(entries, count - 1) + match entries[count - 1] {
            LogEntry::Assistant => 0,
            LogEntry::Tools(groups) => explored(groups@, groups@.len() as int),
        }
    }
}

/// What the first groups of an entry are laid out for; `first` is the index of the first
/// of them, and `ordinal` counts the explorations before them.
pub open spec fn group_keys(
    groups: Seq<ToolGroup>,
    count: int,
    first: int,
    ordinal: int,
    explorations: Set<usize>,
) -> Seq<RowKey>
    decreases count,
{
    if count <= 0 {
        Seq::empty()
    } else {
        let group = groups[count - 1];
        group_keys(groups, count - 1, first, ordinal, explorations).push(
            RowKey::Card(
                (first + count - 1) as usize,
                group.exploration && explorations.contains(
                    (ordinal + explored(groups, count - 1)) as usize,
                ),
            ),
        )
    }
}

/// What a log is laid out for, entry by entry. Cards that a summary hides are among
/// them.
pub open spec fn log_keys(entries: Seq<LogEntry>, count: int, explorations: Set<usize>) -> Seq<
    RowKey,
>
    decreases count,
{
    if count <= 0 {
        Seq::empty()
    } else {
        log_keys(entries, count - 1, explorations) + match entries[count - 1] {
            LogEntry::Assistant => seq![RowKey::Message((count - 1) as usize)],
            LogEntry::Tools(groups) => group_keys(
                groups@,
                groups@.len() as int,
                group_total(entries, count - 1),
                exploration_total(entries, count - 1),
                explorations,
            ),
        }
    }
}

/// Whether rows are kept under all keys.
pub open spec fn has_all(cards: CardRows, keys: Seq<RowKey>) -> bool {
    forall|i: int| 0 <= i < keys.len() ==> cards.has(#[trigger] keys[i])
}

/// Whether all rows that are kept from some position on were laid out for their keys.
pub open spec fn laid_out_by<R: Fn(RowKey) -> Vec<Line>>(
    cards: CardRows,
    start: int,
    render: R,
) -> bool {
    forall|i: int|
        start <= i < cards.entries@.len() ==> render.ensures(
            ((#[trigger] cards.entries@[i]).0,),
            cards.entries@[i].1,
        )
}

proof fn lemma_has_all_grows(before: CardRows, after: CardRows, keys: Seq<RowKey>)
    requires
        has_all(before, keys),
        before.entries@.is_prefix_of(after.entries@),
    ensures
        has_all(after, keys),
{
    assert forall|i: int| 0 <= i < keys.len() implies after.has(#[trigger] keys[i]) by {
        law_kept_rows_stay(before.entries@, after.entries@, keys[i]);
    }
}

fn lay_out<R: Fn(RowKey) -> Vec<Line>>(
    kept: &mut CardRows,
    key: RowKey,
    render: &R,
    Ghost(start): Ghost<int>,
)
    requires
        forall|key: RowKey| #[trigger] render.requires((key,)),
        0 <= start <= old(kept).entries@.len(),
        laid_out_by(*old(kept), start, *render),
    ensures
        laid_out_by(*final(kept), start, *render),
        final(kept).has(key),
        old(kept).entries@.is_prefix_of(final(kept).entries@),
{
    let ghost before = *kept;
    if !kept.contains(key) {
        let rows: Vec<Line> = render(key);
        kept.entries.push((key, rows));
        proof {
            assert(kept.entries@[before.entries@.len() as int].0 == key);
            assert(kept.entries@.drop_last() =~= before.entries@);
        }
    }
    proof {
        assert(before.entries@ =~= kept.entries@.take(before.entries@.len() as int));
    }
    proof {
        if !before.has(key) {
            assert forall|i: int| start <= i < kept.entries@.len() implies render.ensures(
                ((#[trigger] kept.entries@[i]).0,),
                kept.entries@[i].1,
            ) by {
                if i < before.entries@.len() {
                    assert(kept.entries@.drop_last()[i] == before.entries@[i]);
                }
            }
        }
    }
}

/// Lays out all cards of a log that are not kept. `render` lays out a card.
pub fn lay_out_cards<R: Fn(RowKey) -> Vec<Line>>(
    kept: &mut CardRows,
    entries: &[LogEntry],
    explorations: &Choices,
    render: &R,
)
    requires
        group_total(entries@, entries@.len() as int) <= usize::MAX,
        forall|key: RowKey| #[trigger] render.requires((key,)),
    ensures
        old(kept).entries@.is_prefix_of(final(kept).entries@),
        laid_out_by(*final(kept), old(kept).entries@.len() as int, *render),
        has_all(*final(kept), log_keys(entries@, entries@.len() as int, explorations@)),
{
    let ghost start = kept.entries@;
    let ghost from = start.len() as int;
    let mut i: usize = 0;
    let mut first: usize = 0;
    let mut ordinal: usize = 0;
    proof {
        assert(start =~= kept.entries@.take(from));
    }
    while i < entries.len()
        invariant
            i <= entries@.len(),
            group_total(entries@, entries@.len() as int) <= usize::MAX,
            forall|key: RowKey| #[trigger] render.requires((key,)),
            first == group_total(entries@, i as int),
            ordinal == exploration_total(entries@, i as int),
            ordinal <= first,
            from == start.len(),
            from <= kept.entries@.len(),
            start.is_prefix_of(kept.entries@),
            laid_out_by(*kept, from, *render),
            has_all(*kept, log_keys(entries@, i as int, explorations@)),
        decreases entries@.len() - i,
    {
        let ghost before = *kept;
        let ghost known = log_keys(entries@, i as int, explorations@);
        proof {
            lemma_group_total_grows(entries@, i + 1, entries@.len() as int);
        }
        match &entries[i] {
            LogEntry::Assistant => {
                lay_out(kept, RowKey::Message(i), render, Ghost(from));
                proof {
                    lemma_has_all_grows(before, *kept, known);
                    lemma_prefix_follows(start, before.entries@, kept.entries@);
                }
            },
            LogEntry::Tools(groups) => {
                let mut k: usize = 0;
                let mut seen: usize = 0;
                proof {
                    assert(before.entries@ =~= kept.entries@.take(before.entries@.len() as int));
                }
                while k < groups.len()
                    invariant
                        k <= groups@.len(),
                        first + groups@.len() <= usize::MAX,
                        forall|key: RowKey| #[trigger] render.requires((key,)),
                        ordinal <= first,
                        seen == explored(groups@, k as int),
                        seen <= k,
                        0 <= from <= before.entries@.len() <= kept.entries@.len(),
                        before.entries@.is_prefix_of(kept.entries@),
                        laid_out_by(*kept, from, *render),
                        has_all(
                            *kept,
                            group_keys(
                                groups@,
                                k as int,
                                first as int,
                                ordinal as int,
                                explorations@,
                            ),
                        ),
                    decreases groups@.len() - k,
                {
                    let ghost so_far = *kept;
                    let ghost keys = group_keys(
                        groups@,
                        k as int,
                        first as int,
                        ordinal as int,
                        explorations@,
                    );
                    let exploration: bool = groups[k].exploration;
                    let expanded: bool = exploration && explorations.contains(ordinal + seen);
                    lay_out(kept, RowKey::Card(first + k, expanded), render, Ghost(from));
                    proof {
                        lemma_has_all_grows(so_far, *kept, keys);
                        lemma_prefix_follows(before.entries@, so_far.entries@, kept.entries@);
                    }
                    if exploration {
                        seen = seen + 1;
                    }
                    k += 1;
                }
                first = first + groups.len();
                ordinal = ordinal + seen;
                proof {
                    lemma_has_all_grows(before, *kept, known);
                    lemma_prefix_follows(start, before.entries@, kept.entries@);
                }
            },
        }
        i += 1;
    }
}

proof fn lemma_prefix_follows(
    first: Seq<(RowKey, Vec<Line>)>,
    second: Seq<(RowKey, Vec<Line>)>,
    third: Seq<(RowKey, Vec<Line>)>,
)
    requires
        first.is_prefix_of(second),
        second.is_prefix_of(third),
    ensures
        first.is_prefix_of(third),
        second.len() <= third.len(),
{
    assert(first =~= third.take(first.len() as int)) by {
        assert(first =~= second.take(first.len() as int));
        assert(second =~= third.take(second.len() as int));
    }
}

/// Rows behind others: one blank row separates them, and the others lose their blank
/// end to it.
pub open spec fn spaced(before: Seq<LineView>, after: Seq<LineView>) -> Seq<LineView> {
    if after.len() == 0 {
        before
    } else if before.len() == 0 {
        after
    } else {
        before.take(content_end(before)) + seq![blank_line()] + after
    }
}

/// Appends rows to others, with one blank row between them.
pub fn append_spaced(before: &mut Vec<Line>, after: Vec<Line>)
    ensures
        line_views(final(before)@) == spaced(line_views(old(before)@), line_views(after@)),
{
    if after.len() == 0 {
        return;
    }
    let ghost old_rows = line_views(before@);
    if before.len() > 0 {
        let end: usize = kept_prefix(before.as_slice(), Some(FlowRole::NonMessage));
        before.truncate(end);
        proof {
            assert(line_views(before@) =~= old_rows.take(end as int));
        }
        push_line(before, Line::new());
    }
    let ghost so_far = line_views(before@);
    append_lines(before, after);
    proof {
        assert(line_views(before@) == so_far + line_views(after@));
        if old_rows.len() == 0 {
            assert(line_views(before@) =~= line_views(after@));
        } else {
            assert(line_views(before@) =~= spaced(old_rows, line_views(after@)));
        }
    }
}

/// Exactly one row separates rows: it is blank, what stands before it ends in a row that
/// is not, and the rows behind it are those that were added.
pub proof fn law_one_row_separates_cards(before: Seq<LineView>, after: Seq<LineView>)
    requires
        after.len() > 0,
        content_end(before) > 0,
    ensures
        ({
            let rows = spaced(before, after);
            let end = content_end(before);
            &&& rows.len() == end + 1 + after.len()
            &&& rows[end] == blank_line()
            &&& !is_blank_row(rows[end - 1])
            &&& rows.skip(end + 1) == after
        }),
{
    lemma_content_end(before);
    let rows = spaced(before, after);
    assert(rows.skip(content_end(before) + 1) =~= after);
}

pub proof fn lemma_content_end(rows: Seq<LineView>)
    ensures
        0 <= content_end(rows) <= rows.len(),
        content_end(rows) > 0 ==> !is_blank_row(rows[content_end(rows) - 1]),
        forall|i: int| content_end(rows) <= i < rows.len() ==> is_blank_row(#[trigger] rows[i]),
    decreases rows.len(),
{
    if rows.len() > 0 && is_blank_row(rows.last()) {
        lemma_content_end(rows.drop_last());
        assert forall|i: int| content_end(rows) <= i < rows.len() implies is_blank_row(
            #[trigger] rows[i],
        ) by {
            if i < rows.len() - 1 {
                assert(rows[i] == rows.drop_last()[i]);
            }
        }
    }
}

/// What the rows of a card are kept under.
pub open spec fn card_key(card: Card) -> RowKey {
    RowKey::Card(card.group, card.expanded)
}

/// The rows of some cards, with one blank row between them.
pub open spec fn details_rows(details: Seq<Card>, cards: CardRows) -> Seq<LineView>
    decreases details.len(),
{
    if details.len() == 0 {
        Seq::empty()
    } else {
        spaced(details_rows(details.drop_last(), cards), cards.rows_of(card_key(details.last())))
    }
}

/// What the summary of a run is laid out for.
pub open spec fn summary_key(item: FlowView) -> Option<RowKey> {
    match item {
        FlowView::Collapsed { first, count, expanded, active, details } => Some(
            RowKey::Summary { first: first as usize, count: count as usize, expanded, active },
        ),
        _ => None,
    }
}

/// The rows of a part of a log. The cards of a run stand below its summary when the run
/// is expanded, and are not shown otherwise.
pub open spec fn item_rows(item: FlowView, cards: CardRows, extras: CardRows) -> Seq<LineView> {
    match item {
        FlowView::Assistant(index) => cards.rows_of(RowKey::Message(index as usize)),
        FlowView::Streaming => extras.rows_of(RowKey::Streaming),
        FlowView::Card(card) => cards.rows_of(card_key(card)),
        FlowView::Plain { first, count, details } => details_rows(details, cards),
        FlowView::Collapsed { first, count, expanded, active, details } => extras.rows_of(
            summary_key(item)->0,
        ) + (if expanded { details_rows(details, cards) } else { Seq::empty() }),
    }
}

/// The rows of a log, with one blank row between its parts.
pub open spec fn flow_rows(items: Seq<FlowView>, cards: CardRows, extras: CardRows) -> Seq<LineView>
    decreases items.len(),
{
    if items.len() == 0 {
        Seq::empty()
    } else {
        spaced(
            flow_rows(items.drop_last(), cards, extras),
            item_rows(items.last(), cards, extras),
        )
    }
}

fn details_lines(details: &Vec<Card>, cards: &CardRows) -> (rows: Vec<Line>)
    ensures
        line_views(rows@) == details_rows(details@, *cards),
{
    let mut rows: Vec<Line> = Vec::new();
    let mut i: usize = 0;
    proof {
        assert(details@.take(0) =~= Seq::empty());
        assert(line_views(rows@) =~= Seq::empty());
    }
    while i < details.len()
        invariant
            i <= details@.len(),
            line_views(rows@) == details_rows(details@.take(i as int), *cards),
        decreases details@.len() - i,
    {
        let card: Card = details[i];
        append_spaced(&mut rows, cards.rows(RowKey::Card(card.group, card.expanded)));
        proof {
            let taken = details@.take(i + 1);
            assert(taken.drop_last() =~= details@.take(i as int));
            assert(taken.last() == card);
        }
        i += 1;
    }
    proof {
        assert(details@.take(i as int) =~= details@);
    }
    rows
}

fn item_lines(item: &FlowItem, cards: &CardRows, extras: &CardRows) -> (rows: Vec<Line>)
    ensures
        line_views(rows@) == item_rows(item@, *cards, *extras),
{
    match item {
        FlowItem::Assistant(index) => cards.rows(RowKey::Message(*index)),
        FlowItem::Streaming => extras.rows(RowKey::Streaming),
        FlowItem::Card(card) => cards.rows(RowKey::Card(card.group, card.expanded)),
        FlowItem::Plain { details, .. } => details_lines(details, cards),
        FlowItem::Collapsed { first, count, expanded, active, details } => {
            let mut rows: Vec<Line> = extras.rows(
                RowKey::Summary {
                    first: *first,
                    count: *count,
                    expanded: *expanded,
                    active: *active,
                },
            );
            let ghost summary = line_views(rows@);
            if *expanded {
                append_lines(&mut rows, details_lines(details, cards));
            } else {
                proof {
                    assert(summary + Seq::<LineView>::empty() =~= summary);
                }
            }
            rows
        },
    }
}

/// Puts the rows of a log together from the cards that are kept and from the rows of
/// what is not: the summaries, and the message that is being written.
pub fn log_rows(items: &[FlowItem], cards: &CardRows, extras: &CardRows) -> (rows: Vec<Line>)
    ensures
        line_views(rows@) == flow_rows(flow_views(items@), *cards, *extras),
{
    let ghost all = flow_views(items@);
    let mut rows: Vec<Line> = Vec::new();
    let mut i: usize = 0;
    proof {
        assert(all.take(0) =~= Seq::empty());
        assert(line_views(rows@) =~= Seq::empty());
    }
    while i < items.len()
        invariant
            i <= items@.len(),
            all == flow_views(items@),
            line_views(rows@) == flow_rows(all.take(i as int), *cards, *extras),
        decreases items@.len() - i,
    {
        append_spaced(&mut rows, item_lines(&items[i], cards, extras));
        proof {
            let taken = all.take(i + 1);
            assert(taken.drop_last() =~= all.take(i as int));
            assert(taken.last() == items@[i as int]@);
        }
        i += 1;
    }
    proof {
        assert(all.take(i as int) =~= all);
    }
    rows
}

proof fn lemma_spaced_keeps(before: Seq<LineView>, after: Seq<LineView>, row: LineView)
    requires
        !is_blank_row(row),
    ensures
        before.contains(row) || after.contains(row) ==> spaced(before, after).contains(row),
{
    let rows = spaced(before, after);
    let end = content_end(before);
    lemma_content_end(before);
    if before.contains(row) {
        let i = before.index_of(row);
        if after.len() > 0 && before.len() > 0 {
            assert(i < end);
            assert(rows[i] == row);
        } else {
            assert(rows.contains(row)) by {
                if after.len() > 0 {
                    assert(before[i] == row);
                }
            }
        }
    }
    if after.contains(row) {
        let i = after.index_of(row);
        if before.len() > 0 {
            assert(rows[end + 1 + i] == row);
        }
    }
}

/// What a card shows is shown among the details of its run.
pub proof fn law_expanded_cards_are_shown(
    details: Seq<Card>,
    cards: CardRows,
    card: int,
    row: LineView,
)
    requires
        0 <= card < details.len(),
        !is_blank_row(row),
        cards.rows_of(card_key(details[card])).contains(row),
    ensures
        details_rows(details, cards).contains(row),
    decreases details.len(),
{
    let before = details_rows(details.drop_last(), cards);
    let last = cards.rows_of(card_key(details.last()));
    if card < details.len() - 1 {
        law_expanded_cards_are_shown(details.drop_last(), cards, card, row);
    }
    lemma_spaced_keeps(before, last, row);
}

/// Whether all that a part shows was laid out under one of the keys.
pub open spec fn shows_only(item: FlowView, keys: Seq<RowKey>) -> bool {
    match item {
        FlowView::Assistant(index) => keys.contains(RowKey::Message(index as usize)),
        FlowView::Streaming => true,
        FlowView::Card(card) => keys.contains(card_key(card)),
        FlowView::Plain { first, count, details } => all_known(details, keys),
        FlowView::Collapsed { first, count, expanded, active, details } => all_known(details, keys),
    }
}

/// Whether all cards were laid out under one of the keys.
pub open spec fn all_known(details: Seq<Card>, keys: Seq<RowKey>) -> bool {
    forall|i: int| 0 <= i < details.len() ==> keys.contains(card_key(#[trigger] details[i]))
}

/// Whether all that a log shows so far was laid out under one of the keys.
pub open spec fn log_known(log: LogView, keys: Seq<RowKey>) -> bool {
    &&& forall|i: int| 0 <= i < log.items.len() ==> shows_only(#[trigger] log.items[i], keys)
    &&& log.pending matches Some(run) ==> all_known(run.details, keys)
}

proof fn lemma_known_grows(log: LogView, keys: Seq<RowKey>, more: Seq<RowKey>)
    requires
        log_known(log, keys),
    ensures
        log_known(log, keys + more),
{
    let all = keys + more;
    assert forall|key: RowKey| keys.contains(key) implies all.contains(key) by {
        let i = keys.index_of(key);
        assert(all[i] == key);
    }
    assert forall|i: int| 0 <= i < log.items.len() implies shows_only(
        #[trigger] log.items[i],
        all,
    ) by {
        assert(shows_only(log.items[i], keys));
    }
}

proof fn lemma_flushed_known(log: LogView, settings: LogSettings, at_end: bool, keys: Seq<RowKey>)
    requires
        log_known(log, keys),
    ensures
        log_known(log.flushed(settings, at_end), keys),
        log.flushed(settings, at_end).groups == log.groups,
        log.flushed(settings, at_end).explorations == log.explorations,
        log.flushed(settings, at_end).pending is None,
{
    let after = log.flushed(settings, at_end);
    if let Some(run) = log.pending {
        assert forall|i: int| 0 <= i < after.items.len() implies shows_only(
            #[trigger] after.items[i],
            keys,
        ) by {
            if i < log.items.len() {
                assert(after.items[i] == log.items[i]);
            }
        }
    }
}

proof fn lemma_groups_known(
    log: LogView,
    groups: Seq<ToolGroup>,
    count: int,
    settings: LogSettings,
    keys: Seq<RowKey>,
)
    requires
        0 <= count <= groups.len(),
        log_known(log, keys),
    ensures
        ({
            let after = log.with_groups(groups, count, settings);
            let more = group_keys(
                groups,
                count,
                log.groups,
                log.explorations,
                settings.explorations,
            );
            &&& after.groups == log.groups + count
            &&& after.explorations == log.explorations + explored(groups, count)
            &&& log_known(after, keys + more)
        }),
    decreases count,
{
    let first = log.groups;
    let ordinal = log.explorations;
    if count == 0 {
        assert(keys + group_keys(groups, 0, first, ordinal, settings.explorations) =~= keys);
    } else {
        lemma_groups_known(log, groups, count - 1, settings, keys);
        let before = log.with_groups(groups, count - 1, settings);
        let group = groups[count - 1];
        let card = card_of(group, before.groups, before.explorations, settings);
        let earlier = group_keys(groups, count - 1, first, ordinal, settings.explorations);
        let more = group_keys(groups, count, first, ordinal, settings.explorations);
        let all = keys + more;
        assert(more == earlier.push(card_key(card)));
        assert(all =~= (keys + earlier) + seq![card_key(card)]);
        lemma_known_grows(before, keys + earlier, seq![card_key(card)]);
        assert(all[all.len() - 1] == card_key(card));
        let after = before.with_group(group, settings);
        if settings.collapse && group.collapsible {
            let run = before.run_with(group, settings);
            assert(all_known(run.details, all));
        } else {
            lemma_flushed_known(before, settings, false, all);
            let flushed = before.flushed(settings, false);
            assert forall|i: int| 0 <= i < after.items.len() implies shows_only(
                #[trigger] after.items[i],
                all,
            ) by {
                if i < flushed.items.len() {
                    assert(after.items[i] == flushed.items[i]);
                }
            }
        }
    }
}

proof fn lemma_log_known(entries: Seq<LogEntry>, count: int, settings: LogSettings)
    requires
        0 <= count <= entries.len(),
    ensures
        ({
            let log = log_after(entries, count, settings);
            &&& log.groups == group_total(entries, count)
            &&& log.explorations == exploration_total(entries, count)
            &&& log_known(log, log_keys(entries, count, settings.explorations))
        }),
    decreases count,
{
    if count > 0 {
        lemma_log_known(entries, count - 1, settings);
        let before = log_after(entries, count - 1, settings);
        let earlier = log_keys(entries, count - 1, settings.explorations);
        let all = log_keys(entries, count, settings.explorations);
        match entries[count - 1] {
            LogEntry::Assistant => {
                let key = RowKey::Message((count - 1) as usize);
                lemma_known_grows(before, earlier, seq![key]);
                lemma_flushed_known(before, settings, false, all);
                assert(all[all.len() - 1] == key);
                let flushed = before.flushed(settings, false);
                let after = log_after(entries, count, settings);
                assert forall|i: int| 0 <= i < after.items.len() implies shows_only(
                    #[trigger] after.items[i],
                    all,
                ) by {
                    if i < flushed.items.len() {
                        assert(after.items[i] == flushed.items[i]);
                    }
                }
            },
            LogEntry::Tools(groups) => {
                lemma_groups_known(before, groups@, groups@.len() as int, settings, earlier);
            },
        }
    }
}

/// All that is shown of a log was laid out before: whatever the user chose to see, no
/// message and no card lacks its rows.
pub proof fn law_shown_cards_are_laid_out(
    entries: Seq<LogEntry>,
    settings: LogSettings,
    streaming: bool,
    failed: bool,
    item: int,
)
    requires
        0 <= item < log_items(entries, settings, streaming, failed).len(),
    ensures
        shows_only(
            log_items(entries, settings, streaming, failed)[item],
            log_keys(entries, entries.len() as int, settings.explorations),
        ),
{
    let count = entries.len() as int;
    lemma_log_known(entries, count, settings);
    let log = log_after(entries, count, settings);
    let keys = log_keys(entries, count, settings.explorations);
    lemma_flushed_known(log, settings, !streaming, keys);
    let shown = log.flushed(settings, !streaming).items;
    if item < shown.len() {
        assert(shows_only(shown[item], keys));
        assert(log_items(entries, settings, streaming, failed)[item] == shown[item]);
    }
}

} // verus!
