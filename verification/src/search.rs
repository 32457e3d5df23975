//! Finding one text in another.

use vstd::prelude::*;
use vstd::string::*;
use crate::text::chars_of;

verus! {

/// Whether `part` stands in `text` at the index `at`.
pub open spec fn stands_at(text: Seq<char>, part: Seq<char>, at: int) -> bool {
    0 <= at && at + part.len() <= text.len() && text.subrange(at, at + part.len()) == part
}

/// Whether `text` holds `part`.
pub open spec fn contains(text: Seq<char>, part: Seq<char>) -> bool {
    exists|at: int| stands_at(text, part, at)
}

/// Whether `at` is the first place where `part` stands in `text`.
pub open spec fn first_at(text: Seq<char>, part: Seq<char>, at: int) -> bool {
    stands_at(text, part, at) && forall|before: int| before < at ==> !stands_at(text, part, before)
}

fn found_at(text: &[char], part: &[char], at: usize) -> (found: bool)
    requires
        at <= text@.len(),
    ensures
        found == stands_at(text@, part@, at as int),
{
    let total: usize = text.len();
    if total - at < part.len() {
        return false;
    }
    let mut i: usize = 0;
    while i < part.len()
        invariant
            i <= part@.len(),
            at + part@.len() <= text@.len() == total,
            text@.subrange(at as int, at + i) == part@.take(i as int),
        decreases part@.len() - i,
    {
        if text[at + i] != part[i] {
            proof {
                assert(text@.subrange(at as int, at + part@.len())[i as int] == text@[at + i]);
            }
            return false;
        }
        i += 1;
        proof {
            assert(text@.subrange(at as int, at + i) =~= part@.take(i as int));
        }
    }
    proof {
        assert(part@.take(i as int) =~= part@);
    }
    true
}

/// The first place where `part` stands in `text`, as an index of characters.
pub fn find(text: &str, part: &str) -> (at: Option<usize>)
    ensures
        match at {
            None => !contains(text@, part@),
            Some(at) => first_at(text@, part@, at as int),
        },
{
    let chars: Vec<char> = chars_of(text);
    let wanted: Vec<char> = chars_of(part);
    let mut at: usize = 0;
    while at < chars.len()
        invariant
            at <= chars@.len(),
            chars@ == text@,
            wanted@ == part@,
            forall|before: int| before < at ==> !stands_at(text@, part@, before),
        decreases chars@.len() - at,
    {
        if found_at(chars.as_slice(), wanted.as_slice(), at) {
            return Some(at);
        }
        at += 1;
    }
    if found_at(chars.as_slice(), wanted.as_slice(), at) {
        Some(at)
    } else {
        None
    }
}

/// Whether `text` holds `part`.
pub fn contains_text(text: &str, part: &str) -> (yes: bool)
    ensures
        yes == contains(text@, part@),
{
    find(text, part).is_some()
}

} // verus!
