//! Styled text: spans, lines, and lists of lines.

use vstd::prelude::*;
use vstd::string::*;
use crate::unicode::{display_width, joined, lemma_joined_push, text_width};

verus! {

/// What a token of source code is.
#[derive(Clone, Copy, Debug, PartialEq, Eq, Structural)]
pub enum CodeTokenKind {
    Plain,
    Keyword,
    Function,
    Type,
    StringLiteral,
    Number,
    Constant,
    Comment,
    Operator,
    Punctuation,
}

/// What a piece of text is, for the palette that colours it.
#[derive(Clone, Copy, Debug, PartialEq, Eq, Structural)]
pub enum Role {
    Plain,
    Dim,
    Accent,
    Selected,
    SearchCursor,
    Notice,
    Error,
    Enabled,
    Chip,
    MenuTitle,
    MenuDetail,
    DiffAddition,
    DiffDeletion,
    Code(CodeTokenKind),
    /// A colour chosen for a part of the status line.
    Colored(StatusLineColor),
}

/// A colour of the status line: one of those with a name, or any other.
#[derive(Clone, Copy, Debug, PartialEq, Eq, Structural)]
pub enum StatusLineColor {
    /// The colour with this position among those with a name.
    Named(u8),
    Rgb(u8, u8, u8),
}

/// The background of a row.
#[derive(Clone, Copy, Debug, PartialEq, Eq, Structural)]
pub enum Background {
    Unset,
    Indexed(u8),
    Rgb(u8, u8, u8),
}

#[derive(Clone, Copy, Debug, PartialEq, Eq, Structural)]
pub struct Style {
    pub role: Role,
    pub background: Background,
    pub bold: bool,
    pub dim: bool,
    pub underlined: bool,
    pub reversed: bool,
}

impl Style {
    /// The style of a role.
    pub open spec fn of_spec(role: Role) -> Style {
        Style {
            role,
            background: match role {
                Role::DiffAddition => Background::Rgb(33, 58, 43),
                Role::DiffDeletion => Background::Rgb(74, 34, 29),
                _ => Background::Unset,
            },
            bold: false,
            dim: role is Dim || role is MenuDetail,
            underlined: false,
            reversed: false,
        }
    }

    #[verifier::when_used_as_spec(of_spec)]
    pub fn of(role: Role) -> (style: Style)
        ensures
            style == Self::of_spec(role),
    {
        Style {
            role,
            background: match role {
                Role::DiffAddition => Background::Rgb(33, 58, 43),
                Role::DiffDeletion => Background::Rgb(74, 34, 29),
                _ => Background::Unset,
            },
            bold: false,
            dim: match role {
                Role::Dim | Role::MenuDetail => true,
                _ => false,
            },
            underlined: false,
            reversed: false,
        }
    }

    /// Unstyled text.
    pub open spec fn plain_spec() -> Style {
        Style::of_spec(Role::Plain)
    }

    #[verifier::when_used_as_spec(plain_spec)]
    pub fn plain() -> (style: Style)
        ensures
            style == Self::plain_spec(),
    {
        Style::of(Role::Plain)
    }

    /// `self` overlaid by `other`: what `other` sets wins.
    pub open spec fn patch_spec(self, other: Style) -> Style {
        Style {
            role: if other.role is Plain { self.role } else { other.role },
            background: if other.background is Unset { self.background } else { other.background },
            bold: self.bold || other.bold,
            dim: self.dim || other.dim,
            underlined: self.underlined || other.underlined,
            reversed: self.reversed || other.reversed,
        }
    }

    #[verifier::when_used_as_spec(patch_spec)]
    pub fn patch(self, other: Style) -> (style: Style)
        ensures
            style == self.patch_spec(other),
    {
        Style {
            role: match other.role {
                Role::Plain => self.role,
                _ => other.role,
            },
            background: match other.background {
                Background::Unset => self.background,
                _ => other.background,
            },
            bold: self.bold || other.bold,
            dim: self.dim || other.dim,
            underlined: self.underlined || other.underlined,
            reversed: self.reversed || other.reversed,
        }
    }

    pub open spec fn bold_spec(self) -> Style {
        Style { bold: true, ..self }
    }

    #[verifier::when_used_as_spec(bold_spec)]
    pub fn bold(self) -> (style: Style)
        ensures
            style == self.bold_spec(),
    {
        Style { bold: true, ..self }
    }

    pub open spec fn dim_spec(self) -> Style {
        Style { dim: true, ..self }
    }

    #[verifier::when_used_as_spec(dim_spec)]
    pub fn dim(self) -> (style: Style)
        ensures
            style == self.dim_spec(),
    {
        Style { dim: true, ..self }
    }

    pub open spec fn underlined_spec(self) -> Style {
        Style { underlined: true, ..self }
    }

    #[verifier::when_used_as_spec(underlined_spec)]
    pub fn underlined(self) -> (style: Style)
        ensures
            style == self.underlined_spec(),
    {
        Style { underlined: true, ..self }
    }

    pub open spec fn reversed_spec(self) -> Style {
        Style { reversed: true, ..self }
    }

    #[verifier::when_used_as_spec(reversed_spec)]
    pub fn reversed(self) -> (style: Style)
        ensures
            style == self.reversed_spec(),
    {
        Style { reversed: true, ..self }
    }

    pub open spec fn on_spec(self, index: u8) -> Style {
        Style { background: Background::Indexed(index), ..self }
    }

    #[verifier::when_used_as_spec(on_spec)]
    pub fn on(self, index: u8) -> (style: Style)
        ensures
            style == self.on_spec(index),
    {
        Style { background: Background::Indexed(index), ..self }
    }
}

/// A piece of text in one style.
#[derive(Clone, Debug)]
pub struct Span {
    pub text: String,
    pub style: Style,
}

/// The content of a [`Span`].
#[verifier::ext_equal]
pub struct SpanView {
    pub text: Seq<char>,
    pub style: Style,
}

impl View for Span {
    type V = SpanView;

    open spec fn view(&self) -> SpanView {
        SpanView { text: self.text@, style: self.style }
    }
}

/// A row of text.
#[derive(Clone, Debug)]
pub struct Line {
    pub spans: Vec<Span>,
    /// The style of the whole row, beneath the spans' own.
    pub base: Style,
}

/// The content of a [`Line`].
#[verifier::ext_equal]
pub struct LineView {
    pub spans: Seq<SpanView>,
    pub base: Style,
}

pub open spec fn span_views(spans: Seq<Span>) -> Seq<SpanView> {
    spans.map_values(|span: Span| span@)
}

impl View for Line {
    type V = LineView;

    open spec fn view(&self) -> LineView {
        LineView { spans: span_views(self.spans@), base: self.base }
    }
}

/// The contents of some lines.
pub open spec fn line_views(lines: Seq<Line>) -> Seq<LineView> {
    lines.map_values(|line: Line| line@)
}

/// A span that holds `text` in the given style.
pub open spec fn span(text: Seq<char>, style: Style) -> SpanView {
    SpanView { text, style }
}

/// An unstyled line of spans.
pub open spec fn line(spans: Seq<SpanView>) -> LineView {
    LineView { spans, base: Style::plain() }
}

/// A line of one unstyled span.
pub open spec fn raw_line(text: Seq<char>) -> LineView {
    line(seq![span(text, Style::plain())])
}

/// A line without text.
pub open spec fn blank_line() -> LineView {
    line(Seq::empty())
}

/// The texts of some spans.
pub open spec fn span_texts(spans: Seq<SpanView>) -> Seq<Seq<char>> {
    spans.map_values(|part: SpanView| part.text)
}

/// The columns that some spans take.
pub open spec fn spans_width(spans: Seq<SpanView>) -> nat
    decreases spans.len(),
{
    if spans.len() == 0 {
        0
    } else {
        spans_width(spans.drop_last()) + display_width(spans.last().text) as nat
    }
}

/// `value`, or the largest `usize`.
pub open spec fn capped(value: int) -> int {
    if value > usize::MAX {
        usize::MAX as int
    } else {
        value
    }
}

impl Line {
    /// A line without text.
    pub fn new() -> (line: Line)
        ensures
            line@ == blank_line(),
    {
        let line = Line { spans: Vec::new(), base: Style::plain() };
        proof {
            assert(line@.spans =~= Seq::empty());
        }
        line
    }

    /// Appends a span.
    pub fn push(&mut self, text: String, style: Style)
        ensures
            final(self)@ == (LineView {
                spans: old(self)@.spans.push(span(text@, style)),
                base: old(self)@.base,
            }),
    {
        self.spans.push(Span { text, style });
        proof {
            assert(self@.spans =~= old(self)@.spans.push(span(text@, style)));
        }
    }

    /// Appends a span.
    pub fn push_str(&mut self, text: &str, style: Style)
        ensures
            final(self)@ == (LineView {
                spans: old(self)@.spans.push(span(text@, style)),
                base: old(self)@.base,
            }),
    {
        self.push(text.to_owned(), style);
    }

    /// Appends the spans of another line.
    pub fn append(&mut self, other: Line)
        ensures
            final(self)@ == (LineView {
                spans: old(self)@.spans + other@.spans,
                base: old(self)@.base,
            }),
    {
        let mut spans = other.spans;
        self.spans.append(&mut spans);
        proof {
            assert(self@.spans =~= old(self)@.spans + other@.spans);
        }
    }

    /// A copy of the line.
    pub fn copy(&self) -> (copy: Line)
        ensures
            copy@ == self@,
    {
        let mut copy = Line::new();
        copy.base = self.base;
        let mut i: usize = 0;
        while i < self.spans.len()
            invariant
                i <= self.spans@.len(),
                copy@.base == self@.base,
                copy@.spans == self@.spans.take(i as int),
            decreases self.spans@.len() - i,
        {
            copy.push(self.spans[i].text.clone(), self.spans[i].style);
            i += 1;
            proof {
                assert(copy@.spans =~= self@.spans.take(i as int));
            }
        }
        proof {
            assert(self@.spans.take(i as int) =~= self@.spans);
        }
        copy
    }

    /// A line of one span.
    pub fn styled(text: String, style: Style) -> (line: Line)
        ensures
            line@ == crate::style::line(seq![span(text@, style)]),
    {
        let mut line = Line::new();
        line.push(text, style);
        proof {
            assert(line@.spans =~= seq![span(text@, style)]);
        }
        line
    }

    /// A line of one unstyled span.
    pub fn raw(text: &str) -> (line: Line)
        ensures
            line@ == raw_line(text@),
    {
        Line::styled(text.to_owned(), Style::plain())
    }

    /// The columns that the line takes.
    pub fn width(&self) -> (width: usize)
        ensures
            width == capped(spans_width(self@.spans) as int),
    {
        let mut width: usize = 0;
        let mut i: usize = 0;
        while i < self.spans.len()
            invariant
                i <= self.spans@.len(),
                width == capped(spans_width(self@.spans.take(i as int)) as int),
            decreases self.spans@.len() - i,
        {
            width = width.saturating_add(text_width(self.spans[i].text.as_str()));
            i += 1;
            proof {
                assert(self@.spans.take(i as int).drop_last() =~= self@.spans.take(i - 1));
            }
        }
        proof {
            assert(self@.spans.take(i as int) =~= self@.spans);
        }
        width
    }

    /// The text of the line.
    pub fn to_text(&self) -> (text: String)
        ensures
            text@ == joined(span_texts(self@.spans)),
    {
        let mut text: String = String::new();
        let mut i: usize = 0;
        proof {
            assert(span_texts(self@.spans).take(0) =~= Seq::empty());
        }
        while i < self.spans.len()
            invariant
                i <= self.spans@.len(),
                text@ == joined(span_texts(self@.spans).take(i as int)),
            decreases self.spans@.len() - i,
        {
            text.append(self.spans[i].text.as_str());
            proof {
                lemma_joined_push(
                    span_texts(self@.spans).take(i as int),
                    self.spans@[i as int].text@,
                );
                assert(span_texts(self@.spans).take(i as int).push(self.spans@[i as int].text@)
                    =~= span_texts(self@.spans).take(i + 1));
            }
            i += 1;
        }
        proof {
            assert(span_texts(self@.spans).take(i as int) =~= span_texts(self@.spans));
        }
        text
    }
}

/// Appends a line.
pub fn push_line(lines: &mut Vec<Line>, line: Line)
    ensures
        line_views(final(lines)@) == line_views(old(lines)@).push(line@),
        final(lines)@.len() == old(lines)@.len() + 1,
{
    lines.push(line);
    proof {
        assert(line_views(lines@) =~= line_views(old(lines)@).push(line@));
    }
}

/// Appends some lines.
pub fn append_lines(lines: &mut Vec<Line>, more: Vec<Line>)
    ensures
        line_views(final(lines)@) == line_views(old(lines)@) + line_views(more@),
        final(lines)@.len() == old(lines)@.len() + more@.len(),
{
    let mut rest = more;
    lines.append(&mut rest);
    proof {
        assert(line_views(lines@) =~= line_views(old(lines)@) + line_views(more@));
    }
}

} // verus!
