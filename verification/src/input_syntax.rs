//! Highlighted source text with a cursor in it.

use vstd::prelude::*;
use vstd::string::*;
use crate::style::{span, span_views, CodeTokenKind, Role, Span, SpanView, Style};

verus! {

/// A token of source code.
#[derive(Clone, Debug)]
pub struct CodeToken {
    pub kind: CodeTokenKind,
    pub text: String,
}

/// A character in its style.
pub struct Cell {
    pub c: char,
    pub style: Style,
}

/// The kind of the token that holds the character with index `index`, when the
/// tokens stand one after the other.
pub open spec fn kind_at(tokens: Seq<CodeToken>, index: int) -> Option<CodeTokenKind>
    decreases tokens.len(),
{
    if tokens.len() == 0 {
        None
    } else if index < tokens[0].text@.len() {
        Some(tokens[0].kind)
    } else {
        kind_at(tokens.drop_first(), index - tokens[0].text@.len())
    }
}

/// The style of source text of the given kind.
pub open spec fn source_style(kind: Option<CodeTokenKind>, text_style: Style) -> Style {
    match kind {
        None => text_style,
        Some(CodeTokenKind::Plain) => text_style,
        Some(kind) => text_style.patch(Style::of(Role::Code(kind))),
    }
}

/// Neighbouring cells of one style joined into spans.
pub open spec fn runs(cells: Seq<Cell>) -> Seq<SpanView>
    decreases cells.len(),
{
    if cells.len() == 0 {
        Seq::empty()
    } else {
        let before = runs(cells.drop_last());
        let cell = cells.last();
        if before.len() > 0 && before.last().style == cell.style {
            before.drop_last().push(span(before.last().text.push(cell.c), cell.style))
        } else {
            before.push(span(seq![cell.c], cell.style))
        }
    }
}

/// The cell of the character with index `index`: in the cursor's style from
/// `cursor` to `cursor_end`.
pub open spec fn input_cell(
    chars: Seq<char>,
    tokens: Seq<CodeToken>,
    text_style: Style,
    cursor: int,
    cursor_end: int,
    cursor_style: Style,
    index: int,
) -> Cell {
    Cell {
        c: chars[index],
        style: if cursor <= index < cursor_end {
            cursor_style
        } else {
            source_style(kind_at(tokens, index), text_style)
        },
    }
}

/// The cells of the characters of `chars` from `start` to `end`.
pub open spec fn input_cells(
    chars: Seq<char>,
    tokens: Seq<CodeToken>,
    start: int,
    end: int,
    text_style: Style,
    cursor: int,
    cursor_end: int,
    cursor_style: Style,
) -> Seq<Cell> {
    Seq::new(
        (end - start) as nat,
        |i: int|
            input_cell(chars, tokens, text_style, cursor, cursor_end, cursor_style, start + i),
    )
}

/// The kind of the token that holds a character.
pub fn token_kind_at(tokens: &[CodeToken], index: usize) -> (kind: Option<CodeTokenKind>)
    ensures
        kind == kind_at(tokens@, index as int),
{
    let mut rest: usize = index;
    let mut i: usize = 0;
    proof {
        assert(tokens@.skip(0) =~= tokens@);
    }
    while i < tokens.len()
        invariant
            i <= tokens@.len(),
            kind_at(tokens@, index as int) == kind_at(tokens@.skip(i as int), rest as int),
        decreases tokens@.len() - i,
    {
        let len: usize = tokens[i].text.as_str().unicode_len();
        if rest < len {
            return Some(tokens[i].kind);
        }
        rest = rest - len;
        proof {
            assert(tokens@.skip(i as int).drop_first() =~= tokens@.skip(i + 1));
        }
        i += 1;
    }
    None
}

pub fn style_of_source(kind: Option<CodeTokenKind>, text_style: Style) -> (style: Style)
    ensures
        style == source_style(kind, text_style),
{
    match kind {
        None => text_style,
        Some(CodeTokenKind::Plain) => text_style,
        Some(kind) => text_style.patch(Style::of(Role::Code(kind))),
    }
}

/// The part of a source text from `start` to `end`, in spans of one style each.
pub fn highlighted_spans(
    chars: &[char],
    tokens: &[CodeToken],
    start: usize,
    end: usize,
    text_style: Style,
    cursor: usize,
    cursor_end: usize,
    cursor_style: Style,
) -> (spans: Vec<Span>)
    requires
        start <= end <= chars@.len(),
    ensures
        span_views(spans@) == runs(
            input_cells(
                chars@,
                tokens@,
                start as int,
                end as int,
                text_style,
                cursor as int,
                cursor_end as int,
                cursor_style,
            ),
        ),
{
    let mut spans: Vec<Span> = Vec::new();
    let mut i: usize = start;
    let ghost cells = input_cells(
        chars@,
        tokens@,
        start as int,
        end as int,
        text_style,
        cursor as int,
        cursor_end as int,
        cursor_style,
    );
    proof {
        assert(cells.len() == end - start);
        assert(cells.take(0) =~= Seq::empty());
        assert(span_views(spans@) =~= Seq::empty());
    }
    while i < end
        invariant
            start <= i <= end <= chars@.len(),
            cells == input_cells(
                chars@,
                tokens@,
                start as int,
                end as int,
                text_style,
                cursor as int,
                cursor_end as int,
                cursor_style,
            ),
            cells.len() == end - start,
            span_views(spans@) == runs(cells.take(i - start)),
        decreases end - i,
    {
        let style: Style = if cursor <= i && i < cursor_end {
            cursor_style
        } else {
            style_of_source(token_kind_at(tokens, i), text_style)
        };
        let ghost before = span_views(spans@);
        let ghost cell = cells[i - start];
        proof {
            assert(cells.take(i + 1 - start).drop_last() =~= cells.take(i - start));
            assert(cells.take(i + 1 - start).last() == cell);
            assert(cell.style == style && cell.c == chars@[i as int]);
            if spans@.len() > 0 {
                assert(before.last() == spans@.last()@);
            }
        }
        let n: usize = spans.len();
        if n > 0 && spans[n - 1].style == style {
            let mut last = spans.pop().unwrap();
            last.text.push(chars[i]);
            spans.push(last);
            proof {
                assert(span_views(spans@) =~= before.drop_last().push(
                    span(before.last().text.push(cell.c), cell.style),
                ));
            }
        } else {
            let mut text: String = String::new();
            text.push(chars[i]);
            spans.push(Span { text, style });
            proof {
                assert(text@ =~= seq![cell.c]);
                assert(span_views(spans@) =~= before.push(span(seq![cell.c], cell.style)));
            }
        }
        i += 1;
    }
    proof {
        assert(cells.take(end - start) =~= cells);
    }
    spans
}

} // verus!
