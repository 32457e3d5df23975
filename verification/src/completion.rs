//! Which part of a draft names a path that can be completed.

use vstd::prelude::*;
use vstd::string::*;
use crate::composer::byte_offset;
use crate::menu::text_part;
use crate::text::{
    char_index, chars_of, is_boundary, lemma_boundary, lemma_offset_grows, offset, split_text,
};
use crate::unicode::{is_whitespace, whitespace};

verus! {

/// The index behind the last whitespace of a text.
pub open spec fn token_index(text: Seq<char>) -> int
    decreases text.len(),
{
    if text.len() == 0 || whitespace(text.last()) {
        text.len() as int
    } else {
        token_index(text.drop_last())
    }
}

/// What is typed of a path: the text behind an `@`, unless it is doubled or opens a
/// brace.
pub open spec fn path_prefix(token: Seq<char>) -> Option<Seq<char>> {
    if token.len() == 0 || token[0] != '@' {
        None
    } else if token.len() > 1 && (token[1] == '@' || token[1] == '{') {
        None
    } else {
        Some(token.skip(1))
    }
}

/// The part of a draft in front of the cursor.
pub open spec fn before_cursor(draft: Seq<char>, cursor: int) -> Seq<char> {
    draft.take(char_index(draft, cursor))
}

/// The path in front of the cursor of a draft: where it starts, as a byte offset, and
/// what is typed of it.
pub fn completion_token(draft: &str, cursor: usize) -> (token: Option<(usize, String)>)
    requires
        is_boundary(draft@, cursor as int),
    ensures
        ({
            let head = before_cursor(draft@, cursor as int);
            let start = token_index(head);
            match path_prefix(head.skip(start)) {
                None => token is None,
                Some(prefix) => token matches Some(found) && found.0 == offset(head, start)
                    && found.1@ == prefix,
            }
        }),
{
    let head: &str = split_text(draft, cursor).0;
    let chars: Vec<char> = chars_of(head);
    proof {
        lemma_boundary(draft@, cursor as int);
        assert(head@ =~= before_cursor(draft@, cursor as int));
    }
    let mut start: usize = chars.len();
    proof {
        assert(head@.take(start as int) =~= head@);
    }
    while start > 0 && !is_whitespace(chars[start - 1])
        invariant
            start <= chars@.len(),
            chars@ == head@,
            token_index(head@) == token_index(head@.take(start as int)),
        decreases start,
    {
        proof {
            assert(head@.take(start as int).drop_last() =~= head@.take(start - 1));
        }
        start -= 1;
    }
    proof {
        assert(token_index(head@) == start);
    }
    let count: usize = chars.len();
    if start >= count || chars[start] != '@' {
        return None;
    }
    if count - start > 1 && (chars[start + 1] == '@' || chars[start + 1] == '{') {
        return None;
    }
    let prefix: String = text_part(chars.as_slice(), start + 1, count);
    proof {
        assert(prefix@ =~= head@.skip(start as int).skip(1));
        lemma_offset_grows(head@, start as int, head@.len() as int);
        assert(head@.take(head@.len() as int) =~= head@);
    }
    Some((byte_offset(chars.as_slice(), start), prefix))
}

/// What completing a path does.
#[derive(Clone, Copy, Debug, PartialEq, Eq, Structural)]
pub enum CompletionStep {
    Nothing,
    /// There is only one path.
    Apply,
    /// The user is to choose.
    Choose,
}

} // verus!
