//! What keys do in every surface: moving a selection, and editing a field.

use vstd::prelude::*;
use vstd::string::*;
use crate::key::{KeyCode, KeyEvent};
use crate::list::{ListAction, ListState};
use crate::single_line_input::{on_one_line, InputView, SingleLineInput};
use crate::text::{byte_len, char_index, is_boundary, utf8_len};

verus! {

/// A key together with what the key bindings make of it.
#[derive(Clone, Copy, Debug, PartialEq, Eq, Structural)]
pub struct SurfaceKey {
    pub key: KeyEvent,
    /// The navigation key that the key is bound to in menus, or the key itself.
    pub code: KeyCode,
    pub submit: bool,
    pub insert_newline: bool,
    pub cancel: bool,
    pub close_surface: bool,
    pub previous_mode: bool,
    pub next_mode: bool,
    pub model_picker: bool,
    pub exit: bool,
}

/// The movement that a key stands for in a list.
pub open spec fn action_of(code: KeyCode) -> Option<ListAction> {
    match code {
        KeyCode::Up => Some(ListAction::Previous),
        KeyCode::Down => Some(ListAction::Next),
        KeyCode::PageUp => Some(ListAction::PagePrevious),
        KeyCode::PageDown => Some(ListAction::PageNext),
        KeyCode::Home => Some(ListAction::Home),
        KeyCode::End => Some(ListAction::End),
        _ => None,
    }
}

/// The movement that a key stands for in a list.
pub fn list_action(code: KeyCode) -> (action: Option<ListAction>)
    ensures
        action == action_of(code),
{
    match code {
        KeyCode::Up => Some(ListAction::Previous),
        KeyCode::Down => Some(ListAction::Next),
        KeyCode::PageUp => Some(ListAction::PagePrevious),
        KeyCode::PageDown => Some(ListAction::PageNext),
        KeyCode::Home => Some(ListAction::Home),
        KeyCode::End => Some(ListAction::End),
        _ => None,
    }
}

/// The movement by pages that a key without modifiers stands for.
pub open spec fn paging(key: KeyEvent) -> Option<ListAction> {
    if !key.modifiers.is_empty() {
        None
    } else {
        match action_of(key.code) {
            Some(ListAction::PagePrevious) => Some(ListAction::PagePrevious),
            Some(ListAction::PageNext) => Some(ListAction::PageNext),
            Some(ListAction::Home) => Some(ListAction::Home),
            Some(ListAction::End) => Some(ListAction::End),
            _ => None,
        }
    }
}

/// The movement by pages that a key without modifiers stands for. It is offered
/// to the surface's scroll view or list before the surface sees the key.
pub fn paging_action(key: KeyEvent) -> (action: Option<ListAction>)
    ensures
        action == paging(key),
{
    if !key.modifiers.is_empty() {
        return None;
    }
    match list_action(key.code) {
        Some(ListAction::PagePrevious) => Some(ListAction::PagePrevious),
        Some(ListAction::PageNext) => Some(ListAction::PageNext),
        Some(ListAction::Home) => Some(ListAction::Home),
        Some(ListAction::End) => Some(ListAction::End),
        _ => None,
    }
}

/// A list of `count` items after a key.
pub open spec fn list_after(
    list: ListState,
    count: int,
    capacity: int,
    code: KeyCode,
) -> ListState {
    match action_of(code) {
        None => list.reconciled(count, capacity),
        Some(action) => list.reconciled(count, capacity).applied(action, capacity),
    }
}

/// Adapts a list to its items and moves its selection, if the key does; the
/// result says whether it does.
pub fn move_list(list: &mut ListState, count: usize, capacity: usize, code: KeyCode) -> (moved: bool)
    ensures
        *final(list) == list_after(*old(list), count as int, capacity as int, code),
        final(list).valid(capacity as int),
        final(list).item_count == count,
        moved == action_of(code) is Some,
{
    list.reconcile(count, capacity);
    match list_action(code) {
        None => false,
        Some(action) => {
            list.apply(action, capacity);
            true
        },
    }
}

/// A field after a key.
pub open spec fn field_after(value: Seq<char>, cursor: int, key: KeyEvent) -> InputView {
    let field = InputView::of(value, cursor);
    match field.edited(key) {
        None => field,
        Some(edited) => edited,
    }
}

/// Whether a field takes a key.
pub open spec fn field_takes(value: Seq<char>, cursor: int, key: KeyEvent) -> bool {
    InputView::of(value, cursor).edited(key) is Some
}

/// Whether a field holds what `input` describes.
pub open spec fn field_is(value: Seq<char>, cursor: int, input: InputView) -> bool {
    value == input.text && cursor == input.cursor() && is_boundary(value, cursor)
        && char_index(value, cursor) == input.at
}

/// Applies a key to a field; the result says whether the field took it.
pub fn edit_field(value: &mut String, cursor: &mut usize, key: KeyEvent) -> (handled: bool)
    ensures
        field_is(
            final(value)@,
            *final(cursor) as int,
            field_after(old(value)@, *old(cursor) as int, key),
        ),
        handled == field_takes(old(value)@, *old(cursor) as int, key),
{
    let mut input = SingleLineInput::new(value.clone(), *cursor);
    let handled: bool = input.handle_key(key);
    let parts = input.into_parts();
    *value = parts.0;
    *cursor = parts.1;
    handled
}

/// Inserts pasted text into a field.
pub fn paste_single_line(value: &mut String, cursor: &mut usize, pasted: &str)
    ensures
        field_is(
            final(value)@,
            *final(cursor) as int,
            InputView::of(old(value)@, *old(cursor) as int).insert(on_one_line(pasted@)),
        ),
{
    let mut input = SingleLineInput::new(value.clone(), *cursor);
    input.insert_text(pasted);
    let parts = input.into_parts();
    *value = parts.0;
    *cursor = parts.1;
}

/// The cursor behind the last character.
pub fn cursor_at_end(text: &str) -> (cursor: usize)
    ensures
        cursor == utf8_len(text@),
{
    byte_len(text)
}

/// A copy of an optional text.
pub fn copy_text(text: &Option<String>) -> (copy: Option<String>)
    ensures
        copy == *text,
{
    match text {
        None => None,
        Some(text) => Some(text.clone()),
    }
}

} // verus!
