//! Lines of source code with their highlighting.

use vstd::prelude::*;
use vstd::string::*;
use crate::input_syntax::{source_style, style_of_source, CodeToken};
use crate::json::{pretty_json, pretty_text};
use crate::lines::{lines_of, split_lines};
use crate::list::{max, min};
use crate::menu::{less, text_part};
use crate::render::{concat3, count_text, decimal, safe, terminal_safe, wrap_ranges, wrap_rows};
use crate::render_pickers::{pad_left, right_aligned};
use crate::style::{
    append_lines, line, line_views, push_line, span, CodeTokenKind, Line, LineView, Role, SpanView,
    Style,
};
use crate::text::chars_of;
use crate::unicode::{display_width, text_width, views};

verus! {

/// A token of source code.
pub struct TokenView {
    pub kind: CodeTokenKind,
    pub text: Seq<char>,
}

pub open spec fn token_view(token: CodeToken) -> TokenView {
    TokenView { kind: token.kind, text: token.text@ }
}

pub open spec fn token_views(tokens: Seq<CodeToken>) -> Seq<TokenView> {
    tokens.map_values(|token: CodeToken| token_view(token))
}

/// The index of the first character behind the first `count` tokens.
pub open spec fn tokens_end(tokens: Seq<TokenView>, count: int) -> int
    decreases count,
{
    if count <= 0 { 0 } else { tokens_end(tokens, count - 1) + tokens[count - 1].text.len() }
}

/// What the first `count` tokens have between two characters, made safe to show
/// where it is not so already.
pub open spec fn token_spans(
    tokens: Seq<TokenView>,
    count: int,
    start: int,
    end: int,
    clean: bool,
) -> Seq<SpanView>
    decreases count,
{
    if count <= 0 {
        Seq::empty()
    } else {
        let token = tokens[count - 1];
        let token_start = tokens_end(tokens, count - 1);
        let from = max(start, token_start);
        let to = min(end, token_start + token.text.len());
        let before = token_spans(tokens, count - 1, start, end, clean);
        let part = token.text.subrange(from - token_start, to - token_start);
        if from < to {
            before.push(
                span(
                    if clean { part } else { safe(part) },
                    source_style(Some(token.kind), Style::plain()),
                ),
            )
        } else {
            before
        }
    }
}

/// All that some tokens have between two characters.
pub open spec fn code_spans(tokens: Seq<TokenView>, start: int, end: int) -> Seq<SpanView> {
    token_spans(tokens, tokens.len() as int, start, end, false)
}

/// Appends what some tokens have between two characters.
pub fn push_code(row: &mut Line, tokens: &[CodeToken], start: usize, end: usize, clean: bool)
    requires
        tokens_end(token_views(tokens@), tokens@.len() as int) <= usize::MAX,
    ensures
        final(row)@.spans == old(row)@.spans + token_spans(
            token_views(tokens@),
            tokens@.len() as int,
            start as int,
            end as int,
            clean,
        ),
        final(row)@.base == old(row)@.base,
{
    let ghost all = token_views(tokens@);
    let ghost before = row@.spans;
    let mut token_start: usize = 0;
    let mut i: usize = 0;
    proof {
        assert(before + token_spans(all, 0, start as int, end as int, clean) =~= before);
    }
    while i < tokens.len()
        invariant
            i <= tokens@.len(),
            all == token_views(tokens@),
            tokens_end(all, tokens@.len() as int) <= usize::MAX,
            token_start == tokens_end(all, i as int),
            row@.spans == before + token_spans(all, i as int, start as int, end as int, clean),
            row@.base == old(row)@.base,
        decreases tokens@.len() - i,
    {
        let chars: Vec<char> = chars_of(tokens[i].text.as_str());
        proof {
            assert(all[i as int] == token_view(tokens@[i as int]));
            lemma_tokens_end_grows(all, i + 1, tokens@.len() as int);
        }
        let token_end: usize = token_start + chars.len();
        let from: usize = if start >= token_start {
            start
        } else {
            token_start
        };
        let to: usize = if end <= token_end {
            end
        } else {
            token_end
        };
        let ghost so_far = row@.spans;
        if from < to {
            let part: String = text_part(chars.as_slice(), from - token_start, to - token_start);
            let shown: String = if clean {
                part
            } else {
                terminal_safe(part.as_str())
            };
            row.push(shown, style_of_source(Some(tokens[i].kind), Style::plain()));
        }
        proof {
            assert(row@.spans =~= before + token_spans(all, i + 1, start as int, end as int, clean));
        }
        token_start = token_end;
        i += 1;
    }
}

pub proof fn lemma_tokens_end_grows(tokens: Seq<TokenView>, low: int, high: int)
    requires
        0 <= low <= high,
    ensures
        0 <= tokens_end(tokens, low) <= tokens_end(tokens, high),
    decreases high,
{
    if low < high {
        lemma_tokens_end_grows(tokens, low, high - 1);
    } else if low > 0 {
        lemma_tokens_end_grows(tokens, low - 1, high - 1);
    }
}

/// The tokens of the line with index `index`; a line that was not highlighted is
/// plain.
pub open spec fn line_tokens(highlights: Seq<Vec<CodeToken>>, index: int, text: Seq<char>) -> Seq<
    TokenView,
> {
    if index < highlights.len() {
        token_views(highlights[index]@)
    } else {
        seq![TokenView { kind: CodeTokenKind::Plain, text }]
    }
}

/// The tokens make up no more than the line does.
pub open spec fn tokens_fit(highlights: Seq<Vec<CodeToken>>) -> bool {
    forall|i: int|
        0 <= i < highlights.len() ==> tokens_end(
            token_views(#[trigger] highlights[i]@),
            highlights[i]@.len() as int,
        ) <= usize::MAX
}

/// Appends what the tokens of a line have between two characters.
pub fn push_highlighted(
    row: &mut Line,
    highlights: &[Vec<CodeToken>],
    index: usize,
    text: &str,
    start: usize,
    end: usize,
)
    requires
        tokens_fit(highlights@),
    ensures
        final(row)@.spans == old(row)@.spans + code_spans(
            line_tokens(highlights@, index as int, text@),
            start as int,
            end as int,
        ),
        final(row)@.base == old(row)@.base,
{
    if index < highlights.len() {
        push_code(row, highlights[index].as_slice(), start, end, false);
    } else {
        let mut tokens: Vec<CodeToken> = Vec::new();
        tokens.push(CodeToken { kind: CodeTokenKind::Plain, text: text.to_owned() });
        let total: usize = chars_of(text).len();
        proof {
            assert(token_views(tokens@) =~= line_tokens(highlights@, index as int, text@));
            reveal_with_fuel(tokens_end, 2);
        }
        push_code(row, tokens.as_slice(), start, end, false);
    }
}

/// What stands before a row of numbered text: the number of the line on its first
/// row, and as much room on the others.
pub open spec fn number_head(number: Option<nat>, columns: int) -> Seq<char> {
    "  "@ + right_aligned(
        match number {
            Some(number) => decimal(number),
            None => Seq::empty(),
        },
        columns,
    ) + " \u{2502} "@
}

/// The columns that the numbers of `count` lines take.
pub open spec fn number_columns(count: int) -> int {
    decimal(max(count, 1) as nat).len() as int
}

/// A row of numbered text.
pub open spec fn numbered_row(
    tokens: Seq<TokenView>,
    index: int,
    first: bool,
    columns: int,
    start: int,
    end: int,
) -> LineView {
    line(
        seq![
            span(
                number_head(if first { Some((index + 1) as nat) } else { None }, columns),
                Style::of(Role::Dim),
            ),
        ] + code_spans(tokens, start, end),
    )
}

/// The rows of one line of numbered text.
pub open spec fn numbered_line(
    text: Seq<char>,
    tokens: Seq<TokenView>,
    index: int,
    columns: int,
    width: int,
) -> Seq<LineView> {
    let rows = wrap_rows(
        text,
        less(width, display_width(number_head(Some((index + 1) as nat), columns)) as int),
    );
    Seq::new(
        rows.len(),
        |i: int|
            numbered_row(tokens, index, i == 0, columns, rows[i].0 as int, rows[i].1 as int),
    )
}

/// The rows of the first `count` lines of numbered text.
pub open spec fn numbered_lines(
    texts: Seq<Seq<char>>,
    highlights: Seq<Vec<CodeToken>>,
    count: int,
    width: int,
) -> Seq<LineView>
    decreases count,
{
    if count <= 0 {
        Seq::empty()
    } else {
        numbered_lines(texts, highlights, count - 1, width) + numbered_line(
            texts[count - 1],
            line_tokens(highlights, count - 1, texts[count - 1]),
            count - 1,
            number_columns(texts.len() as int),
            width,
        )
    }
}

/// A JSON text as it is laid out; what is no JSON is nothing.
pub open spec fn json_source(text: Seq<char>) -> Seq<char> {
    match pretty_json(text) {
        Some(pretty) => pretty,
        None => "null"@,
    }
}

/// The rows of a JSON text.
pub open spec fn json_rows(text: Seq<char>, highlights: Seq<Vec<CodeToken>>, width: int) -> Seq<
    LineView,
> {
    let texts = lines_of(json_source(text));
    numbered_lines(texts, highlights, texts.len() as int, width)
}

pub fn render_number_head(number: Option<usize>, columns: usize) -> (text: String)
    ensures
        text@ == number_head(
            match number {
                Some(number) => Some(number as nat),
                None => None,
            },
            columns as int,
        ),
{
    let shown: String = match number {
        Some(number) => count_text(number),
        None => String::new(),
    };
    proof {
        if number is None {
            assert(shown@ =~= Seq::empty());
        }
    }
    concat3("  ", pad_left(shown.as_str(), columns).as_str(), " \u{2502} ")
}

fn render_numbered_line(
    text: &str,
    highlights: &[Vec<CodeToken>],
    index: usize,
    columns: usize,
    width: u16,
) -> (lines: Vec<Line>)
    requires
        tokens_fit(highlights@),
        index < usize::MAX,
    ensures
        line_views(lines@) == numbered_line(
            text@,
            line_tokens(highlights@, index as int, text@),
            index as int,
            columns as int,
            width as int,
        ),
{
    let head: String = render_number_head(Some(index + 1), columns);
    let room: usize = (width as usize).saturating_sub(text_width(head.as_str()));
    let ranges = wrap_ranges(text, room);
    let ghost all = numbered_line(
        text@,
        line_tokens(highlights@, index as int, text@),
        index as int,
        columns as int,
        width as int,
    );
    let mut lines: Vec<Line> = Vec::new();
    let mut i: usize = 0;
    while i < ranges.len()
        invariant
            i <= ranges@.len(),
            tokens_fit(highlights@),
            index < usize::MAX,
            head@ == number_head(Some((index + 1) as nat), columns as int),
            room == less(width as int, display_width(head@) as int),
            ranges@ == wrap_rows(text@, room as int),
            all == numbered_line(
                text@,
                line_tokens(highlights@, index as int, text@),
                index as int,
                columns as int,
                width as int,
            ),
            line_views(lines@) == all.take(i as int),
        decreases ranges@.len() - i,
    {
        let mut row = Line::new();
        if i == 0 {
            row.push_str(head.as_str(), Style::of(Role::Dim));
        } else {
            row.push(render_number_head(None, columns), Style::of(Role::Dim));
        }
        let ghost first = row@.spans;
        push_highlighted(&mut row, highlights, index, text, ranges[i].0, ranges[i].1);
        proof {
            assert(first =~= seq![
                span(
                    number_head(
                        if i == 0 { Some((index + 1) as nat) } else { None },
                        columns as int,
                    ),
                    Style::of(Role::Dim),
                ),
            ]);
            assert(all[i as int] == row@);
        }
        push_line(&mut lines, row);
        i += 1;
        proof {
            assert(line_views(lines@) =~= all.take(i as int));
        }
    }
    proof {
        assert(all.take(i as int) =~= all);
    }
    lines
}

/// The rows of a JSON text, numbered and wrapped. `highlights` are the tokens of
/// its lines once it is laid out.
pub fn json_preview_lines(arguments: &str, highlights: &[Vec<CodeToken>], width: u16) -> (lines: Vec<
    Line,
>)
    requires
        tokens_fit(highlights@),
    ensures
        line_views(lines@) == json_rows(arguments@, highlights@, width as int),
{
    let source: String = match pretty_text(arguments) {
        Some(pretty) => pretty,
        None => "null".to_owned(),
    };
    let texts = split_lines(source.as_str());
    let ghost all = views(texts@);
    let total: usize = texts.len();
    let columns: usize = count_text(
        if total >= 1 {
            total
        } else {
            1
        },
    ).as_str().unicode_len();
    let mut lines: Vec<Line> = Vec::new();
    let mut i: usize = 0;
    proof {
        assert(line_views(lines@) =~= numbered_lines(all, highlights@, 0, width as int));
    }
    while i < texts.len()
        invariant
            i <= texts@.len() <= usize::MAX,
            tokens_fit(highlights@),
            all == views(texts@),
            columns == number_columns(texts@.len() as int),
            line_views(lines@) == numbered_lines(all, highlights@, i as int, width as int),
        decreases texts@.len() - i,
    {
        proof {
            assert(all[i as int] == texts@[i as int]@);
        }
        append_lines(
            &mut lines,
            render_numbered_line(texts[i].as_str(), highlights, i, columns, width),
        );
        i += 1;
    }
    lines
}

} // verus!
