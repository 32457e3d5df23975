//! Texts of several lines.

use vstd::prelude::*;
use vstd::string::*;
use crate::menu::text_part;
use crate::multiline_input::{find_char, first_char, lemma_first_char};
use crate::text::{chars_of, string_of};
use crate::unicode::views;

verus! {

/// A text cut at its line feeds.
pub open spec fn parts(text: Seq<char>) -> Seq<Seq<char>>
    decreases text.len(),
{
    let at = first_char(text, '\n');
    if 0 <= at < text.len() {
        seq![text.take(at)] + parts(text.skip(at + 1))
    } else {
        seq![text]
    }
}

/// Cuts a text at its line feeds.
pub fn split_parts(text: &str) -> (rows: Vec<String>)
    ensures
        views(rows@) == parts(text@),
        rows@.len() > 0,
{
    let chars: Vec<char> = chars_of(text);
    let mut rows: Vec<String> = Vec::new();
    let mut start: usize = 0;
    proof {
        assert(chars@.skip(0) =~= chars@);
        assert(views(rows@) =~= Seq::empty());
        assert(Seq::<Seq<char>>::empty() + parts(chars@) =~= parts(chars@));
    }
    loop
        invariant_except_break
            start <= chars@.len(),
            chars@ == text@,
            views(rows@) + parts(chars@.skip(start as int)) == parts(text@),
        ensures
            views(rows@) == parts(text@),
            rows@.len() > 0,
        decreases chars@.len() - start,
    {
        let at: usize = find_char(chars.as_slice(), start, '\n');
        let part: String = text_part(chars.as_slice(), start, at);
        let ghost rest = chars@.skip(start as int);
        let ghost before = views(rows@);
        rows.push(part);
        proof {
            lemma_first_char(rest, '\n');
            assert(part@ =~= rest.take(at - start));
            assert(views(rows@) =~= before.push(part@));
        }
        if at < chars.len() {
            proof {
                assert(rest.skip(at - start + 1) =~= chars@.skip(at + 1));
                assert(before + parts(rest) =~= views(rows@) + parts(chars@.skip(at + 1)));
            }
            start = at + 1;
        } else {
            proof {
                assert(rest.take(at - start) =~= rest);
                assert(before + parts(rest) =~= views(rows@));
            }
            break;
        }
    }
    rows
}

/// Without a carriage return at the end.
pub open spec fn without_return(text: Seq<char>) -> Seq<char> {
    if text.len() > 0 && text.last() == '\r' { text.drop_last() } else { text }
}

/// The lines of a text: each is ended by a line feed, which a carriage return may
/// stand before; the last one may also end with the text.
pub open spec fn lines_of(text: Seq<char>) -> Seq<Seq<char>> {
    let rows = parts(text);
    let whole = rows.drop_last().map_values(|row: Seq<char>| without_return(row));
    if rows.last().len() == 0 { whole } else { whole.push(rows.last()) }
}

fn drop_return(text: &str) -> (part: String)
    ensures
        part@ == without_return(text@),
{
    let chars: Vec<char> = chars_of(text);
    let count: usize = chars.len();
    if count > 0 && chars[count - 1] == '\r' {
        let part: String = text_part(chars.as_slice(), 0, count - 1);
        proof {
            assert(part@ =~= text@.drop_last());
        }
        part
    } else {
        string_of(chars.as_slice())
    }
}

/// The lines of a text.
pub fn split_lines(text: &str) -> (rows: Vec<String>)
    ensures
        views(rows@) == lines_of(text@),
{
    let cut: Vec<String> = split_parts(text);
    let ghost all = lines_of(text@);
    let mut rows: Vec<String> = Vec::new();
    let count: usize = cut.len();
    proof {
        assert(all.take(count - 1) =~= views(cut@).drop_last().map_values(
            |row: Seq<char>| without_return(row),
        ));
        assert(views(rows@) =~= all.take(0));
    }
    let mut i: usize = 0;
    while i < count - 1
        invariant
            count == cut@.len(),
            i <= count - 1,
            views(cut@) == parts(text@),
            all == lines_of(text@),
            all.len() >= count - 1,
            all.take(count - 1) == views(cut@).drop_last().map_values(
                |row: Seq<char>| without_return(row),
            ),
            views(rows@) == all.take(i as int),
        decreases count - i,
    {
        let ghost before = views(rows@);
        rows.push(drop_return(cut[i].as_str()));
        proof {
            assert(cut@[i as int]@ == views(cut@)[i as int]);
            assert(all[i as int] == without_return(parts(text@)[i as int]));
            assert(views(rows@) =~= before.push(all[i as int]));
            assert(views(rows@) =~= all.take(i + 1));
        }
        i += 1;
    }
    proof {
        assert(cut@[count - 1]@ == views(cut@)[count - 1]);
    }
    let ghost before = views(rows@);
    if !cut[count - 1].as_str().is_empty() {
        rows.push(cut[count - 1].as_str().to_owned());
        proof {
            assert(views(rows@) =~= before.push(parts(text@).last()));
        }
    }
    proof {
        assert(views(rows@) =~= all);
    }
    rows
}

/// No part of a text that is cut at its line feeds holds one, and a text without
/// line feeds is its only part.
pub proof fn law_parts_hold_no_line_feed(text: Seq<char>, index: int)
    requires
        0 <= index < parts(text).len(),
    ensures
        !parts(text)[index].contains('\n'),
        !text.contains('\n') ==> parts(text) == seq![text],
    decreases text.len(),
{
    let at = first_char(text, '\n');
    lemma_first_char(text, '\n');
    lemma_before_first_char(text, '\n');
    if at < text.len() {
        assert(text.take(at) =~= parts(text)[0]);
        if index == 0 {
            assert forall|i: int| 0 <= i < at implies text.take(at)[i] != '\n' by {
                assert(text[i] != '\n');
            }
        } else {
            law_parts_hold_no_line_feed(text.skip(at + 1), index - 1);
            assert(parts(text)[index] == parts(text.skip(at + 1))[index - 1]);
        }
        assert(text[at] == '\n');
    } else {
        assert(!text.contains('\n'));
    }
}

pub proof fn lemma_before_first_char(text: Seq<char>, c: char)
    ensures
        forall|i: int| 0 <= i < first_char(text, c) ==> #[trigger] text[i] != c,
        first_char(text, c) < text.len() ==> text[first_char(text, c)] == c,
    decreases text.len(),
{
    if text.len() > 0 && text[0] != c {
        let rest = text.drop_first();
        lemma_before_first_char(rest, c);
        lemma_first_char(rest, c);
        assert forall|i: int| 0 <= i < first_char(text, c) implies #[trigger] text[i] != c by {
            if i > 0 {
                assert(text[i] == rest[i - 1]);
            }
        }
    }
}

} // verus!
