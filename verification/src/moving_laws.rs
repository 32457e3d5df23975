//! What keys mean wherever they move a selection, scroll, or edit a text.

use vstd::prelude::*;
use crate::control::{field_after, field_is, list_after};
use crate::key::{KeyCode, KeyEvent};
use crate::list::ListState;
use crate::mcp_control::stepped;
use crate::scroll::{ScrollViewAction, ScrollViewState};
use crate::search::contains;
use crate::shown::says;
use crate::single_line_input::InputView;
use crate::text::{lemma_boundary, lemma_floor_boundary};
use crate::unicode::{
    grapheme_clusters, joined, lemma_trimmed_end, lemma_trimmed_start, trimmed, trimmed_end,
    trimmed_start, whitespace,
};

verus! {

/// The item of a list of `count` items that is under the cursor.
pub open spec fn under_cursor(list: ListState, count: int) -> int {
    let at = match list.selected {
        None => 0int,
        Some(at) => at as int,
    };
    if at < count { at } else { count - 1 }
}

/// A list that is adapted to its items keeps the item under the cursor, or takes the last.
pub proof fn law_adapted_lists_keep_the_cursor(list: ListState, count: int, capacity: int)
    requires
        0 < count <= usize::MAX,
    ensures
        list.reconciled(count, capacity).selected == Some(under_cursor(list, count) as usize),
        list.reconciled(count, capacity).item_count == count,
        list.reconciled(count, capacity).at_spec() == under_cursor(list, count),
{
}

/// A list without items has nothing selected.
pub proof fn law_empty_lists_select_nothing(list: ListState, capacity: int)
    ensures
        list.reconciled(0, capacity).selected is None,
        list.reconciled(0, capacity).item_count == 0,
{
}

/// The arrows move the selection by one item, the paging keys by as many as are shown, Home
/// and End to either end, and no other key moves it. It stays among the items, and what is
/// selected is shown.
pub proof fn law_keys_move_the_selection(list: ListState, count: int, capacity: int, code: KeyCode)
    requires
        0 < count <= usize::MAX,
        0 < capacity <= usize::MAX,
    ensures
        ({
            let at = under_cursor(list, count);
            let after = list_after(list, count, capacity, code);
            &&& after.item_count == count
            &&& after.selected is Some
            &&& after.selected->0 < count
            &&& after.offset <= after.selected->0 < after.offset + capacity
            &&& code == KeyCode::Up ==> after.selected->0 == (if at > 0 { at - 1 } else { 0 })
            &&& code == KeyCode::Down ==> after.selected->0 == (if at + 1 < count {
                at + 1
            } else {
                at
            })
            &&& code == KeyCode::Home ==> after.selected->0 == 0
            &&& code == KeyCode::End ==> after.selected->0 == count - 1
            &&& code == KeyCode::PageUp ==> after.selected->0 == (if at > capacity {
                at - capacity
            } else {
                0
            })
            &&& code == KeyCode::PageDown ==> after.selected->0 == (if at + capacity < count {
                at + capacity
            } else {
                count - 1
            })
            &&& code != KeyCode::Up && code != KeyCode::Down && code != KeyCode::Home && code
                != KeyCode::End && code != KeyCode::PageUp && code != KeyCode::PageDown
                ==> after.selected->0 == at
        }),
{
}

/// The selection of a short menu moves likewise; the paging keys lead to its ends.
pub proof fn law_keys_move_in_short_menus(selected: int, last: int, code: KeyCode)
    requires
        0 <= selected <= last,
    ensures
        ({
            let after = stepped(selected, last, code);
            &&& 0 <= after <= last
            &&& code == KeyCode::Up ==> after == (if selected > 0 { selected - 1 } else { 0 })
            &&& code == KeyCode::Down ==> after == (if selected < last {
                selected + 1
            } else {
                last
            })
            &&& code == KeyCode::Home || code == KeyCode::PageUp ==> after == 0
            &&& code == KeyCode::End || code == KeyCode::PageDown ==> after == last
            &&& code != KeyCode::Up && code != KeyCode::Down && code != KeyCode::Home && code
                != KeyCode::End && code != KeyCode::PageUp && code != KeyCode::PageDown ==> after
                == selected
        }),
{
}

/// Scrolling moves by one row or by the rows that are shown, or to either end, and never
/// past the last position at which the content still fills the view.
pub proof fn law_scrolling_moves_the_view(
    state: ScrollViewState,
    action: ScrollViewAction,
    capacity: int,
)
    requires
        0 < capacity <= usize::MAX,
        state.offset + capacity <= state.content_rows || state.offset == 0,
    ensures
        ({
            let after = state.applied(action, capacity);
            let last = if state.content_rows > capacity {
                state.content_rows - capacity
            } else {
                0
            };
            &&& after.content_rows == state.content_rows
            &&& 0 <= after.offset <= last
            &&& action is Home ==> after.offset == 0
            &&& action is End ==> after.offset == last
            &&& action is Previous ==> after.offset == (if state.offset > 0 {
                state.offset - 1
            } else {
                0
            })
            &&& action is Next ==> after.offset == (if state.offset < last {
                state.offset + 1
            } else {
                last
            })
            &&& action is PagePrevious ==> after.offset == (if state.offset > capacity {
                state.offset - capacity
            } else {
                0
            })
            &&& action is PageNext ==> after.offset == (if state.offset + capacity < last {
                state.offset + capacity
            } else {
                last
            })
        }),
{
}

/// A character that is typed stands before the cursor afterwards, and the rest of the text
/// is as it was.
pub proof fn law_typed_characters_are_inserted(input: InputView, key: KeyEvent, c: char)
    requires
        key.code == KeyCode::Char(c),
        !key.modifiers.control,
        !key.modifiers.alt,
        !key.modifiers.other,
        0 <= input.at <= input.text.len(),
    ensures
        ({
            let after = input.edited(key);
            &&& after is Some
            &&& after->0.at == input.at + 1
            &&& after->0.text.len() == input.text.len() + 1
            &&& after->0.text[input.at] == c
            &&& after->0.text.take(input.at) == input.text.take(input.at)
            &&& after->0.text.skip(input.at + 1) == input.text.skip(input.at)
        }),
{
    let after = input.edited(key)->0;
    assert(after.text.take(input.at) =~= input.text.take(input.at));
    assert(after.text.skip(input.at + 1) =~= input.text.skip(input.at));
}

/// The arrows move the cursor and leave the text; to the left it never moves forward, and
/// to the right never back.
pub proof fn law_arrows_move_the_cursor(input: InputView, key: KeyEvent)
    requires
        0 <= input.at <= input.text.len(),
        joined(grapheme_clusters(input.text.take(input.at))) == input.text.take(input.at),
        joined(grapheme_clusters(input.text.skip(input.at))) == input.text.skip(input.at),
        key.modifiers.is_empty(),
    ensures
        key.code == KeyCode::Left || key.code == KeyCode::Right ==> input.edited(key) is Some
            && input.edited(key)->0.text == input.text && input.edited(key)->0.language
            == input.language,
        key.code == KeyCode::Left ==> {
            let after = input.edited(key)->0;
            let clusters = grapheme_clusters(input.text.take(input.at));
            &&& 0 <= after.at <= input.at
            &&& input.at > 0 ==> input.text.subrange(after.at, input.at) == clusters.last()
        },
        key.code == KeyCode::Right ==> {
            let after = input.edited(key)->0;
            let clusters = grapheme_clusters(input.text.skip(input.at));
            &&& input.at <= after.at <= input.text.len()
            &&& input.at < input.text.len() ==> input.text.subrange(input.at, after.at)
                == clusters[0]
        },
{
    let head = input.text.take(input.at);
    let tail = input.text.skip(input.at);
    let before = grapheme_clusters(head);
    let behind = grapheme_clusters(tail);
    if input.at > 0 {
        assert(before.len() > 0);
        let last = before.last();
        assert(head == joined(before.drop_last()) + last);
        assert(input.text.subrange(input.at - last.len(), input.at) =~= head.skip(
            head.len() - last.len(),
        ));
        assert(head.skip(head.len() - last.len()) =~= last);
    }
    if input.at < input.text.len() {
        assert(behind.len() > 0);
        lemma_joined_first(behind);
        let first = behind[0];
        assert(input.text.subrange(input.at, input.at + first.len()) =~= tail.take(
            first.len() as int,
        ));
        assert(tail.take(first.len() as int) =~= first);
    }
}

proof fn lemma_joined_first(parts: Seq<Seq<char>>)
    requires
        parts.len() > 0,
    ensures
        joined(parts).len() >= parts[0].len(),
        joined(parts).take(parts[0].len() as int) == parts[0],
    decreases parts.len(),
{
    if parts.len() == 1 {
        assert(parts.drop_last() =~= Seq::empty());
        assert(joined(parts.drop_last()) =~= Seq::empty());
        assert(joined(parts) =~= parts[0]);
        assert(joined(parts).take(parts[0].len() as int) =~= parts[0]);
    } else {
        lemma_joined_first(parts.drop_last());
        let before = joined(parts.drop_last());
        assert(joined(parts) == before + parts.last());
        assert(joined(parts).take(parts[0].len() as int) =~= before.take(parts[0].len() as int));
    }
}

/// Backspace takes the cluster before the cursor away and Delete the one behind it; what
/// stands on either side is kept. Either does nothing at its end of the text.
pub proof fn law_deleting_keeps_the_rest(input: InputView, key: KeyEvent)
    requires
        0 <= input.at <= input.text.len(),
        joined(grapheme_clusters(input.text.take(input.at))) == input.text.take(input.at),
        joined(grapheme_clusters(input.text.skip(input.at))) == input.text.skip(input.at),
        key.modifiers.is_empty(),
    ensures
        key.code == KeyCode::Backspace ==> {
            let after = input.edited(key);
            &&& after is Some
            &&& after->0.text == input.text.take(after->0.at) + input.text.skip(input.at)
            &&& 0 <= after->0.at <= input.at
            &&& input.at > 0 ==> input.text.subrange(after->0.at, input.at)
                == grapheme_clusters(input.text.take(input.at)).last()
            &&& input.at == 0 ==> after->0.text == input.text
        },
        key.code == KeyCode::Delete ==> {
            let after = input.edited(key);
            let gone = input.text.len() - after->0.text.len();
            &&& after is Some
            &&& after->0.at == input.at
            &&& 0 <= gone <= input.text.len() - input.at
            &&& after->0.text == input.text.take(input.at) + input.text.skip(input.at + gone)
            &&& input.at < input.text.len() ==> input.text.subrange(input.at, input.at + gone)
                == grapheme_clusters(input.text.skip(input.at))[0]
        },
{
    let left = KeyEvent { code: KeyCode::Left, ..key };
    let right = KeyEvent { code: KeyCode::Right, ..key };
    law_arrows_move_the_cursor(input, left);
    law_arrows_move_the_cursor(input, right);
    if input.at == 0 {
        assert(input.text.take(0) + input.text.skip(0) =~= input.text);
    }
}

/// A field takes a key as the text in it does: what is typed is found in the field.
pub proof fn law_fields_take_what_is_typed(
    value: Seq<char>,
    cursor: int,
    new_value: Seq<char>,
    new_cursor: int,
    key: KeyEvent,
    c: char,
)
    requires
        0 <= cursor,
        key.code == KeyCode::Char(c),
        !key.modifiers.control,
        !key.modifiers.alt,
        !key.modifiers.other,
        field_is(new_value, new_cursor, field_after(value, cursor, key)),
    ensures
        new_value.len() == value.len() + 1,
        exists|at: int|
            0 <= at <= value.len() && #[trigger] new_value.take(at) == value.take(at)
                && new_value[at] == c && new_value.skip(at + 1) == value.skip(at),
{
    let input = InputView::of(value, cursor);
    let within = if cursor <= crate::text::utf8_len(value) {
        cursor
    } else {
        crate::text::utf8_len(value) as int
    };
    lemma_floor_boundary(value, within);
    lemma_boundary(value, crate::text::floor_boundary(value, within));
    law_typed_characters_are_inserted(input, key, c);
    assert(new_value.take(input.at) == value.take(input.at));
}

/// What is left of a text without the white space around it: it neither starts nor ends
/// with white space, and nothing but white space was taken away.
pub proof fn law_trimmed_text_is_the_middle(text: Seq<char>)
    ensures
        trimmed(text).len() > 0 ==> !whitespace(trimmed(text)[0]) && !whitespace(
            trimmed(text).last(),
        ),
        exists|start: int, end: int|
            #![trigger text.subrange(start, end)]
            0 <= start <= end <= text.len() && trimmed(text) == text.subrange(start, end) && (
            forall|i: int| 0 <= i < start ==> whitespace(#[trigger] text[i])) && (forall|i: int|
                end <= i < text.len() ==> whitespace(#[trigger] text[i])),
{
    let end = trimmed_end(text);
    let head = text.take(end);
    let start = trimmed_start(head);
    lemma_trimmed_end(text);
    lemma_trimmed_start(head);
    lemma_end_is_white(text);
    lemma_start_is_white(head);
    assert(trimmed(text) =~= text.subrange(start, end));
    assert forall|i: int| 0 <= i < start implies whitespace(#[trigger] text[i]) by {
        assert(whitespace(head[i]));
    }
}

proof fn lemma_end_is_white(text: Seq<char>)
    ensures
        0 <= trimmed_end(text) <= text.len(),
        forall|i: int| trimmed_end(text) <= i < text.len() ==> whitespace(#[trigger] text[i]),
        trimmed_end(text) > 0 ==> !whitespace(text[trimmed_end(text) - 1]),
    decreases text.len(),
{
    if text.len() > 0 && whitespace(text.last()) {
        lemma_end_is_white(text.drop_last());
        assert forall|i: int| trimmed_end(text) <= i < text.len() implies whitespace(
            #[trigger] text[i],
        ) by {
            if i < text.len() - 1 {
                assert(text.drop_last()[i] == text[i]);
            }
        }
    }
}

proof fn lemma_start_is_white(text: Seq<char>)
    ensures
        0 <= trimmed_start(text) <= text.len(),
        forall|i: int| 0 <= i < trimmed_start(text) ==> whitespace(#[trigger] text[i]),
        trimmed_start(text) < text.len() ==> !whitespace(text[trimmed_start(text)]),
    decreases text.len(),
{
    if text.len() > 0 && whitespace(text[0]) {
        let rest = text.drop_first();
        lemma_start_is_white(rest);
        assert forall|i: int| 0 <= i < trimmed_start(text) implies whitespace(
            #[trigger] text[i],
        ) by {
            if i > 0 {
                assert(rest[i - 1] == text[i]);
            }
        }
    }
}

/// A text contains a part where that part stands between two others.
pub proof fn law_contained_text_stands_between(text: Seq<char>, part: Seq<char>)
    ensures
        contains(text, part) <==> says(text, part),
        contains(text, Seq::empty()),
        contains(text, text),
{
    if contains(text, part) {
        let at = choose|at: int| crate::search::stands_at(text, part, at);
        assert(text =~= text.take(at) + part + text.skip(at + part.len()));
    }
    if says(text, part) {
        let (before, after) = choose|before: Seq<char>, after: Seq<char>|
            text == #[trigger] (before + part + after);
        assert(text.subrange(before.len() as int, (before.len() + part.len()) as int) =~= part);
        assert(crate::search::stands_at(text, part, before.len() as int));
    }
    assert(text.subrange(0, 0) =~= Seq::empty());
    assert(crate::search::stands_at(text, Seq::empty(), 0));
    assert(text.subrange(0, text.len() as int) =~= text);
    assert(crate::search::stands_at(text, text, 0));
}

} // verus!
