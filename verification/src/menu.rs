//! The lines that menus are made of: titles, choices, tabs and inputs.

use vstd::prelude::*;
use vstd::string::*;
use crate::input_syntax::CodeToken;
use crate::interaction::QuestionOption;
use crate::list::{item_hits, rows_covered, VISIBLE_MENU_ITEMS, ListHit, ListState, ListWidget};
use crate::render::{
    blanks, cell_text, concat, concat3, cut_line, decimal, decimal_text, ellipsized,
    lemma_wrap_rows_some, safe, spaces, span_cells, terminal_safe, truncate_line,
    truncate_with_ellipsis, wrap_log_line, wrap_ranges, wrap_rows, wrapped_line,
};
use crate::single_line_input::{rendered, InputView, SingleLineInput};
use crate::style::{
    append_lines, line, line_views, push_line, span, Line, LineView, Role, StatusLineColor, Style,
};
use crate::text::{chars_of, string_of};
use crate::unicode::{display_width, text_width};

verus! {

/// The marker of a choice.
pub open spec fn marker(selected: bool) -> Seq<char> {
    if selected { "\u{203a} "@ } else { "  "@ }
}

/// The style of what is selected, and of anything else.
pub open spec fn role_when(selected: bool, role: Role) -> Style {
    if selected { Style::of(role) } else { Style::plain() }
}

pub fn marker_text(selected: bool) -> (text: &'static str)
    ensures
        text@ == marker(selected),
{
    if selected {
        "\u{203a} "
    } else {
        "  "
    }
}

pub fn style_when(selected: bool, role: Role) -> (style: Style)
    ensures
        style == role_when(selected, role),
{
    if selected {
        Style::of(role)
    } else {
        Style::plain()
    }
}

/// The title row of a menu.
pub open spec fn title_line(title: Seq<char>, detail: Option<Seq<char>>) -> LineView {
    let spans = seq![span("  "@, Style::plain()), span(title, Style::of(Role::MenuTitle))];
    line(
        match detail {
            None => spans,
            Some(detail) => spans.push(span("  "@, Style::plain())).push(
                span(safe(detail), Style::of(Role::MenuDetail)),
            ),
        },
    )
}

/// The title row of a menu.
pub fn menu_title(title: &str, detail: Option<&str>) -> (line: Line)
    ensures
        line@ == title_line(
            title@,
            match detail {
                None => None,
                Some(detail) => Some(detail@),
            },
        ),
{
    let mut line = Line::new();
    line.push_str("  ", Style::plain());
    line.push_str(title, Style::of(Role::MenuTitle));
    proof {
        assert(line@.spans =~= seq![
            span("  "@, Style::plain()),
            span(title@, Style::of(Role::MenuTitle)),
        ]);
    }
    if let Some(detail) = detail {
        line.push_str("  ", Style::plain());
        line.push(terminal_safe(detail), Style::of(Role::MenuDetail));
    }
    line
}

/// The style of a status.
pub open spec fn status_style(status: Seq<char>) -> Style {
    if status == "enabled"@ || status == "active"@ {
        Style::of(Role::Enabled)
    } else if status == "disabled"@ {
        Style::of(Role::Notice)
    } else if status == "not setup"@ || status == "not set up"@ {
        Style::of(Role::Error)
    } else {
        Style::of(Role::Dim)
    }
}

/// Whether two texts are equal.
pub fn same_text(left: &str, right: &str) -> (same: bool)
    ensures
        same == (left@ == right@),
{
    left.to_owned() == right.to_owned()
}

pub fn provider_status_style(status: &str) -> (style: Style)
    ensures
        style == status_style(status@),
{
    if same_text(status, "enabled") || same_text(status, "active") {
        Style::of(Role::Enabled)
    } else if same_text(status, "disabled") {
        Style::of(Role::Notice)
    } else if same_text(status, "not setup") || same_text(status, "not set up") {
        Style::of(Role::Error)
    } else {
        Style::of(Role::Dim)
    }
}

/// A choice of a menu: its marker, its label, and what there is of a detail
/// and a status.
pub open spec fn choice_with_status(
    selected: bool,
    disabled: bool,
    label: Seq<char>,
    detail: Seq<char>,
    status: Option<Seq<char>>,
) -> LineView {
    let head = seq![
        span(marker(selected), role_when(selected, Role::Accent)),
        span(
            safe(label),
            if disabled { Style::of(Role::Dim) } else { role_when(selected, Role::Selected) },
        ),
    ];
    let detailed = if detail.len() == 0 {
        head
    } else {
        head.push(span("  "@ + safe(detail), Style::of(Role::Dim)))
    };
    line(
        match status {
            None => detailed,
            Some(status) => detailed.push(
                span(" \u{b7} "@ + safe(status), status_style(status)),
            ),
        },
    )
}

pub fn menu_choice_line_with_status(
    selected: bool,
    disabled: bool,
    label: &str,
    detail: &str,
    status: Option<&str>,
) -> (line: Line)
    ensures
        line@ == choice_with_status(
            selected,
            disabled,
            label@,
            detail@,
            match status {
                None => None,
                Some(status) => Some(status@),
            },
        ),
{
    let mut line = Line::new();
    line.push_str(marker_text(selected), style_when(selected, Role::Accent));
    let style: Style = if disabled {
        Style::of(Role::Dim)
    } else {
        style_when(selected, Role::Selected)
    };
    line.push(terminal_safe(label), style);
    proof {
        assert(line@.spans =~= seq![
            span(marker(selected), role_when(selected, Role::Accent)),
            span(safe(label@), style),
        ]);
    }
    if !detail.is_empty() {
        line.push(concat("  ", terminal_safe(detail).as_str()), Style::of(Role::Dim));
    }
    if let Some(status) = status {
        line.push(
            concat(" \u{b7} ", terminal_safe(status).as_str()),
            provider_status_style(status),
        );
    }
    line
}

/// A choice of a menu.
pub open spec fn choice(selected: bool, label: Seq<char>, detail: Seq<char>) -> LineView {
    choice_with_status(selected, false, label, detail, None)
}

/// A choice of a menu.
pub fn menu_choice_line(selected: bool, label: &str, detail: &str) -> (line: Line)
    ensures
        line@ == choice(selected, label@, detail@),
{
    menu_choice_line_with_status(selected, false, label, detail, None)
}

/// What is left of `value` after taking `amount` away.
pub open spec fn less(value: int, amount: int) -> int {
    if value >= amount { value - amount } else { 0 }
}

/// A choice that is cut to one row of `width` columns.
pub open spec fn single_line_choice(
    selected: bool,
    label: Seq<char>,
    detail: Seq<char>,
    width: int,
) -> LineView {
    let available = less(width, display_width(marker(selected)) as int);
    let reserve = if available / 2 < 12 { available / 2 } else { 12 };
    let label = ellipsized(safe(label), less(less(available, reserve), 2));
    let detail = ellipsized(
        safe(detail),
        less(less(available, display_width(label) as int), 2),
    );
    let head = seq![
        span(marker(selected), role_when(selected, Role::Accent)),
        span(label, role_when(selected, Role::Selected)),
    ];
    line(
        if detail.len() == 0 {
            head
        } else {
            head.push(span("  "@ + detail, Style::of(Role::Dim)))
        },
    )
}

/// Compact background work rows must stay one line so picker navigation keeps
/// matching what is visible.
pub fn single_line_menu_choice(selected: bool, label: &str, detail: &str, width: u16) -> (line: Line)
    ensures
        line@ == single_line_choice(selected, label@, detail@, width as int),
{
    let text = marker_text(selected);
    let available: usize = (width as usize).saturating_sub(text_width(text));
    let half: usize = available / 2;
    let reserve: usize = if half < 12 {
        half
    } else {
        12
    };
    let label = truncate_with_ellipsis(
        terminal_safe(label).as_str(),
        available.saturating_sub(reserve).saturating_sub(2),
    );
    let space: usize = available.saturating_sub(text_width(label.as_str())).saturating_sub(2);
    let detail = truncate_with_ellipsis(terminal_safe(detail).as_str(), space);
    let mut line = Line::new();
    line.push_str(text, style_when(selected, Role::Accent));
    let ghost shown = label@;
    line.push(label, style_when(selected, Role::Selected));
    proof {
        assert(line@.spans =~= seq![
            span(marker(selected), role_when(selected, Role::Accent)),
            span(shown, role_when(selected, Role::Selected)),
        ]);
    }
    if !detail.as_str().is_empty() {
        line.push(concat("  ", detail.as_str()), Style::of(Role::Dim));
    }
    line
}

/// The columns of the labels of a question's options.
pub open spec fn label_columns(options: Seq<QuestionOption>, none: Seq<char>, width: int) -> int {
    let widest = widest_label(options, display_width(none) as int);
    let limit = if less(width, 5) >= 1 { less(width, 5) } else { 1 };
    if widest <= limit { widest } else { limit }
}

/// The widest of some labels, and at least `least`.
pub open spec fn widest_label(options: Seq<QuestionOption>, least: int) -> int
    decreases options.len(),
{
    if options.len() == 0 {
        least
    } else {
        let rest = widest_label(options.drop_last(), least);
        let last = display_width(safe(options.last().label@)) as int;
        if last >= rest { last } else { rest }
    }
}

/// The columns that the labels of a question's options take.
pub fn label_width(options: &[QuestionOption], none: &str, width: u16) -> (columns: usize)
    ensures
        columns == label_columns(options@, none@, width as int),
{
    let mut widest: usize = text_width(none);
    let mut i: usize = 0;
    proof {
        assert(options@.take(0) =~= Seq::empty());
    }
    while i < options.len()
        invariant
            i <= options@.len(),
            widest == widest_label(options@.take(i as int), display_width(none@) as int),
        decreases options@.len() - i,
    {
        let columns: usize = text_width(terminal_safe(options[i].label.as_str()).as_str());
        if columns >= widest {
            widest = columns;
        }
        i += 1;
        proof {
            assert(options@.take(i as int).drop_last() =~= options@.take(i - 1));
        }
    }
    proof {
        assert(options@.take(i as int) =~= options@);
    }
    let limit: usize = (width as usize).saturating_sub(5);
    let limit: usize = if limit >= 1 {
        limit
    } else {
        1
    };
    if widest <= limit {
        widest
    } else {
        limit
    }
}

/// The rows of an option of a question: its label, and its description wrapped
/// beside it.
pub open spec fn option_lines(
    selected: bool,
    label: Seq<char>,
    description: Seq<char>,
    label_width: int,
    width: int,
) -> Seq<LineView> {
    let label = ellipsized(safe(label), label_width);
    let description = safe(description);
    let columns = less(width, label_width + 4);
    let rows = wrap_rows(description, if columns >= 1 { columns } else { 1 });
    Seq::new(
        rows.len(),
        |i: int|
            option_line(
                selected,
                i == 0,
                label,
                description.subrange(rows[i].0 as int, rows[i].1 as int),
                label_width,
            ),
    )
}

/// One row of an option of a question.
pub open spec fn option_line(
    selected: bool,
    first: bool,
    label: Seq<char>,
    description: Seq<char>,
    label_width: int,
) -> LineView {
    let head = if first {
        seq![
            span(marker(selected), role_when(selected, Role::Accent)),
            span(label, role_when(selected, Role::Selected)),
            span(spaces(less(label_width, display_width(label) as int) + 2), Style::plain()),
        ]
    } else {
        seq![span(spaces(label_width + 4), Style::plain())]
    };
    line(
        head.push(
            span(
                description,
                if selected { Style::plain().bold() } else { Style::of(Role::Dim) },
            ),
        ),
    )
}

pub fn question_option_lines(
    selected: bool,
    label: &str,
    description: &str,
    label_width: usize,
    width: u16,
) -> (lines: Vec<Line>)
    requires
        label_width <= 65535,
    ensures
        line_views(lines@) == option_lines(
            selected,
            label@,
            description@,
            label_width as int,
            width as int,
        ),
{
    let shown = truncate_with_ellipsis(terminal_safe(label).as_str(), label_width);
    let prefix: usize = label_width + 4;
    let columns: usize = (width as usize).saturating_sub(prefix);
    let columns: usize = if columns >= 1 {
        columns
    } else {
        1
    };
    let text = terminal_safe(description);
    let chars: Vec<char> = chars_of(text.as_str());
    crate::render::check_clusters(text.as_str());
    let rows = wrap_ranges(text.as_str(), columns);
    let ghost all = option_lines(selected, label@, description@, label_width as int, width as int);
    let mut lines: Vec<Line> = Vec::new();
    let mut i: usize = 0;
    let total: usize = chars.len();
    while i < rows.len()
        invariant
            i <= rows@.len(),
            prefix == label_width + 4,
            label_width <= 65535,
            all == option_lines(selected, label@, description@, label_width as int, width as int),
            columns == if less(width as int, label_width + 4) >= 1 {
                less(width as int, label_width + 4)
            } else {
                1
            },
            rows@ == wrap_rows(text@, columns as int),
            text@ == safe(description@),
            chars@ == text@,
            chars@.len() <= usize::MAX,
            shown@ == ellipsized(safe(label@), label_width as int),
            crate::unicode::joined(crate::unicode::grapheme_clusters(text@)) == text@,
            line_views(lines@) == all.take(i as int),
        decreases rows@.len() - i,
    {
        proof {
            crate::render::lemma_wrap_rows_bounds(text@, columns as int, i as int);
        }
        let mut row = Line::new();
        if i == 0 {
            row.push_str(marker_text(selected), style_when(selected, Role::Accent));
            row.push_str(shown.as_str(), style_when(selected, Role::Selected));
            let gap: usize = label_width.saturating_sub(text_width(shown.as_str())) + 2;
            row.push(blanks(gap), Style::plain());
        } else {
            row.push(blanks(prefix), Style::plain());
        }
        let ghost head = row@.spans;
        proof {
            if i == 0 {
                assert(head =~= seq![
                    span(marker(selected), role_when(selected, Role::Accent)),
                    span(shown@, role_when(selected, Role::Selected)),
                    span(
                        spaces(less(label_width as int, display_width(shown@) as int) + 2),
                        Style::plain(),
                    ),
                ]);
            } else {
                assert(head =~= seq![span(spaces(label_width + 4), Style::plain())]);
            }
        }
        let part = text_part(chars.as_slice(), rows[i].0, rows[i].1);
        row.push(
            part,
            if selected {
                Style::plain().bold()
            } else {
                Style::of(Role::Dim)
            },
        );
        push_line(&mut lines, row);
        i += 1;
        proof {
            assert(line_views(lines@) =~= all.take(i as int));
        }
    }
    proof {
        assert(all.take(i as int) =~= all);
    }
    lines
}

/// The characters from `start` to `end`.
pub fn text_part(chars: &[char], start: usize, end: usize) -> (text: String)
    requires
        start <= end <= chars@.len(),
    ensures
        text@ == chars@.subrange(start as int, end as int),
{
    let mut text: String = String::new();
    let mut i: usize = start;
    while i < end
        invariant
            start <= i <= end <= chars@.len(),
            text@ == chars@.subrange(start as int, i as int),
        decreases end - i,
    {
        text.push(chars[i]);
        i += 1;
        proof {
            assert(text@ =~= chars@.subrange(start as int, i as int));
        }
    }
    text
}

/// A choice to implement a plan.
pub open spec fn plan_choice(
    selected: bool,
    suffix: Seq<char>,
    mode: Seq<char>,
    model: Seq<char>,
    mode_color: StatusLineColor,
    context_percent: Option<u64>,
) -> LineView {
    let style = role_when(selected, Role::Accent);
    let head = seq![
        span(marker(selected), style),
        span("Yes, with "@, style),
        span(mode, Style::of(Role::Colored(mode_color)).bold()),
        span(" and "@, style),
        span(model, style),
        span(suffix, style),
    ];
    line(
        match context_percent {
            None => head,
            Some(percent) => head.push(
                span(" context used: "@ + decimal(percent as nat) + "%"@, Style::of(Role::Dim)),
            ),
        },
    )
}

/// The choices of a completed plan.
pub open spec fn plan_choices(
    selected: int,
    mode: Seq<char>,
    model: Seq<char>,
    mode_color: StatusLineColor,
    context_percent: Option<u64>,
) -> Seq<LineView> {
    seq![
        plan_choice(selected == 0, ""@, mode, model, mode_color, context_percent),
        plan_choice(selected == 1, " and clear context"@, mode, model, mode_color, None),
        plan_choice(selected == 2, " and compact context"@, mode, model, mode_color, None),
        line(
            seq![
                span(marker(selected == 3), role_when(selected == 3, Role::Accent)),
                span("No, keep planning"@, role_when(selected == 3, Role::Accent)),
            ],
        ),
    ]
}

fn plan_choice_line(
    selected: bool,
    suffix: &str,
    mode: &str,
    model: &str,
    mode_color: StatusLineColor,
    context_percent: Option<u64>,
) -> (line: Line)
    ensures
        line@ == plan_choice(selected, suffix@, mode@, model@, mode_color, context_percent),
{
    let style: Style = style_when(selected, Role::Accent);
    let mut line = Line::new();
    line.push_str(marker_text(selected), style);
    line.push_str("Yes, with ", style);
    line.push_str(mode, Style::of(Role::Colored(mode_color)).bold());
    line.push_str(" and ", style);
    line.push_str(model, style);
    line.push_str(suffix, style);
    proof {
        assert(line@.spans =~= seq![
            span(marker(selected), style),
            span("Yes, with "@, style),
            span(mode@, Style::of(Role::Colored(mode_color)).bold()),
            span(" and "@, style),
            span(model@, style),
            span(suffix@, style),
        ]);
    }
    if let Some(percent) = context_percent {
        line.push(
            concat3(" context used: ", decimal_text(percent).as_str(), "%"),
            Style::of(Role::Dim),
        );
    }
    line
}

/// The choices of a completed plan.
pub fn plan_completion_choices(
    selected: usize,
    mode: &str,
    model: &str,
    mode_color: StatusLineColor,
    context_percent: Option<u64>,
) -> (lines: Vec<Line>)
    ensures
        line_views(lines@) == plan_choices(
            selected as int,
            mode@,
            model@,
            mode_color,
            context_percent,
        ),
{
    let mut lines: Vec<Line> = Vec::new();
    push_line(
        &mut lines,
        plan_choice_line(selected == 0, "", mode, model, mode_color, context_percent),
    );
    push_line(
        &mut lines,
        plan_choice_line(selected == 1, " and clear context", mode, model, mode_color, None),
    );
    push_line(
        &mut lines,
        plan_choice_line(selected == 2, " and compact context", mode, model, mode_color, None),
    );
    let style: Style = style_when(selected == 3, Role::Accent);
    let mut decline = Line::new();
    decline.push_str(marker_text(selected == 3), style);
    decline.push_str("No, keep planning", style);
    proof {
        assert(decline@.spans =~= seq![
            span(marker(selected == 3), style),
            span("No, keep planning"@, style),
        ]);
    }
    push_line(&mut lines, decline);
    proof {
        assert(line_views(lines@) =~= plan_choices(
            selected as int,
            mode@,
            model@,
            mode_color,
            context_percent,
        ));
    }
    lines
}

/// The rows of a line that is cut, or wrapped, to `width` columns.
pub open spec fn fitted(line: LineView, width: int, truncate: bool) -> Seq<LineView> {
    if truncate { seq![cut_line(line, width)] } else { wrapped_line(line, width) }
}

/// The rows of the items from `start` to `end`.
pub open spec fn window_rows(
    items: Seq<LineView>,
    start: int,
    end: int,
    width: int,
    truncate: bool,
) -> Seq<LineView>
    decreases end - start,
{
    if start >= end {
        Seq::empty()
    } else {
        window_rows(items, start, end - 1, width, truncate) + fitted(
            items[end - 1],
            width,
            truncate,
        )
    }
}

/// The rows of some lines that are cut, or wrapped, to `width` columns.
pub open spec fn fitted_rows(lines: Seq<LineView>, width: int, truncate: bool) -> Seq<LineView> {
    window_rows(lines, 0, lines.len() as int, width, truncate)
}

/// Cuts, or wraps, lines to `width` columns.
pub fn fit_lines(lines: Vec<Line>, width: u16, truncate: bool) -> (rows: Vec<Line>)
    ensures
        line_views(rows@) == fitted_rows(line_views(lines@), width as int, truncate),
{
    let ghost all = line_views(lines@);
    let mut rows: Vec<Line> = Vec::new();
    let mut i: usize = 0;
    proof {
        assert(line_views(rows@) =~= window_rows(all, 0, 0, width as int, truncate));
    }
    while i < lines.len()
        invariant
            i <= lines@.len(),
            all == line_views(lines@),
            line_views(rows@) == window_rows(all, 0, i as int, width as int, truncate),
        decreases lines@.len() - i,
    {
        let ghost before = line_views(rows@);
        if truncate {
            push_line(&mut rows, truncate_line(lines[i].copy(), width as usize));
        } else {
            append_lines(&mut rows, wrap_log_line(&lines[i], width as usize));
        }
        i += 1;
        proof {
            assert(line_views(rows@) =~= before + fitted(all[i - 1], width as int, truncate));
        }
    }
    rows
}

/// The rows of a list: its visible items, or what stands in for them.
pub open spec fn list_rows(
    items: Seq<LineView>,
    empty: Seq<LineView>,
    state: ListState,
    widget: ListWidget,
    width: int,
    truncate: bool,
) -> Seq<LineView> {
    widget.lines_spec(
        state,
        if state.item_count == 0 {
            empty
        } else {
            window_rows(
                items,
                state.offset as int,
                state.visible_end_spec(widget.capacity as int),
                width,
                truncate,
            )
        },
    )
}

/// The rows of a list: its visible items, or what stands in for them.
pub fn render_list(
    items: &Vec<Line>,
    empty: Vec<Line>,
    state: &ListState,
    widget: ListWidget,
    width: u16,
    truncate: bool,
) -> (lines: Vec<Line>)
    requires
        state.offset <= state.item_count == items@.len(),
    ensures
        line_views(lines@) == list_rows(
            line_views(items@),
            line_views(empty@),
            *state,
            widget,
            width as int,
            truncate,
        ),
{
    if state.item_count == 0 {
        return widget.lines(state, empty);
    }
    let range = state.visible_range(widget.capacity);
    let mut rows: Vec<Line> = Vec::new();
    let mut i: usize = range.0;
    let ghost all = line_views(items@);
    proof {
        assert(line_views(rows@) =~= Seq::empty());
    }
    while i < range.1
        invariant
            range.0 <= i <= range.1 <= items@.len(),
            all == line_views(items@),
            line_views(rows@) == window_rows(
                all,
                range.0 as int,
                i as int,
                width as int,
                truncate,
            ),
        decreases range.1 - i,
    {
        proof {
            assert(all[i as int] == items@[i as int]@);
        }
        let ghost before = line_views(rows@);
        if truncate {
            push_line(&mut rows, truncate_line(items[i].copy(), width as usize));
            proof {
                assert(line_views(rows@) =~= before + seq![cut_line(all[i as int], width as int)]);
            }
        } else {
            append_lines(&mut rows, wrap_log_line(&items[i], width as usize));
        }
        i += 1;
    }
    widget.lines(state, rows)
}

/// The rows of a menu whose items are all there: its title, and its list.
pub open spec fn full_menu(
    title: LineView,
    items: Seq<LineView>,
    state: ListState,
    width: int,
    truncate: bool,
) -> Seq<LineView> {
    seq![title] + list_rows(
        items,
        Seq::empty(),
        state,
        ListWidget::of(VISIBLE_MENU_ITEMS as int),
        width,
        truncate,
    )
}

/// The rows of a menu.
pub fn render_menu(
    title: Line,
    items: Vec<Line>,
    state: ListState,
    width: u16,
    truncate: bool,
) -> (lines: Vec<Line>)
    requires
        state.offset <= state.item_count == items@.len(),
    ensures
        line_views(lines@) == full_menu(
            title@,
            line_views(items@),
            state,
            width as int,
            truncate,
        ),
{
    let mut lines: Vec<Line> = Vec::new();
    push_line(&mut lines, title);
    let empty: Vec<Line> = Vec::new();
    proof {
        assert(line_views(empty@) =~= Seq::empty());
    }
    append_lines(
        &mut lines,
        render_list(&items, empty, &state, ListWidget::new(VISIBLE_MENU_ITEMS), width, truncate),
    );
    proof {
        assert(line_views(lines@) =~= full_menu(
            title@,
            line_views(items@),
            state,
            width as int,
            truncate,
        ));
    }
    lines
}

/// A menu of plain choices.
pub open spec fn choices_of(
    choices: Seq<(Seq<char>, Seq<char>)>,
    selected: Option<usize>,
) -> Seq<LineView> {
    Seq::new(
        choices.len(),
        |i: int| choice(selected == Some(i as usize), choices[i].0, choices[i].1),
    )
}

/// The lines of plain choices.
pub fn choice_lines(choices: &[(&str, &str)], selected: Option<usize>) -> (items: Vec<Line>)
    ensures
        line_views(items@) == choices_of(pair_views(choices@), selected),
        items@.len() == choices@.len(),
{
    let mut items: Vec<Line> = Vec::new();
    let mut i: usize = 0;
    let ghost all = choices_of(pair_views(choices@), selected);
    while i < choices.len()
        invariant
            i <= choices@.len(),
            items@.len() == i,
            all == choices_of(pair_views(choices@), selected),
            line_views(items@) == all.take(i as int),
        decreases choices@.len() - i,
    {
        let here: bool = match selected {
            None => false,
            Some(at) => at == i,
        };
        push_line(&mut items, menu_choice_line(here, choices[i].0, choices[i].1));
        i += 1;
        proof {
            assert(pair_views(choices@)[i - 1] == (choices@[i - 1].0@, choices@[i - 1].1@));
            assert(line_views(items@) =~= all.take(i as int));
        }
    }
    proof {
        assert(all.take(i as int) =~= all);
    }
    items
}

/// The contents of some pairs of texts.
pub open spec fn pair_views(pairs: Seq<(&str, &str)>) -> Seq<(Seq<char>, Seq<char>)> {
    pairs.map_values(|pair: (&str, &str)| (pair.0@, pair.1@))
}

/// Whether an item is the selected one.
pub fn is_at(selected: Option<usize>, index: usize) -> (yes: bool)
    ensures
        yes == (selected == Some(index)),
{
    match selected {
        None => false,
        Some(at) => at == index,
    }
}

/// A row that holds an input behind a prefix.
pub open spec fn input_line(
    prefix: Seq<char>,
    input: InputView,
    tokens: Seq<CodeToken>,
    width: int,
    text_style: Style,
) -> LineView {
    line(
        seq![span(prefix, Style::plain())] + rendered(
            input,
            tokens,
            width,
            text_style,
            Style::of(Role::SearchCursor),
        ).spans,
    )
}

/// A row that holds an input behind a prefix.
pub fn render_input_line(
    prefix: &str,
    input: &SingleLineInput,
    tokens: &[CodeToken],
    width: usize,
    text_style: Style,
) -> (row: Line)
    ensures
        row@ == input_line(prefix@, input@, tokens@, width as int, text_style),
{
    let mut row = Line::new();
    row.push_str(prefix, Style::plain());
    row.append(input.render_bounded(tokens, width, text_style, Style::of(Role::SearchCursor)));
    proof {
        assert(row@.spans =~= input_line(prefix@, input@, tokens@, width as int, text_style).spans);
    }
    row
}

/// An input indented by two columns, or its placeholder.
pub open spec fn indented(
    input: InputView,
    tokens: Seq<CodeToken>,
    placeholder: Seq<char>,
    width: int,
) -> LineView {
    if input.text.len() == 0 {
        let first = if placeholder.len() > 0 { 1 } else { 0 };
        cut_line(
            line(
                seq![
                    span("  "@, Style::plain()),
                    span(placeholder.take(first), Style::of(Role::SearchCursor)),
                    span(placeholder.skip(first), Style::of(Role::Dim)),
                ],
            ),
            width,
        )
    } else {
        input_line("  "@, input, tokens, less(width, 2), Style::plain())
    }
}

/// An input indented by two columns, highlighted where it is source code.
pub fn indented_syntax_input(
    value: &str,
    cursor: usize,
    placeholder: &str,
    tokens: &[CodeToken],
    width: u16,
) -> (row: Line)
    ensures
        row@ == indented(
            InputView::of(value@, cursor as int),
            tokens@,
            placeholder@,
            width as int,
        ),
{
    if value.is_empty() {
        let mut first: Vec<char> = chars_of(placeholder);
        let split: usize = if first.len() > 0 {
            1
        } else {
            0
        };
        let rest: Vec<char> = first.split_off(split);
        let mut row = Line::new();
        row.push_str("  ", Style::plain());
        row.push(string_of(first.as_slice()), Style::of(Role::SearchCursor));
        row.push(string_of(rest.as_slice()), Style::of(Role::Dim));
        proof {
            assert(first@ =~= placeholder@.take(split as int));
            assert(rest@ =~= placeholder@.skip(split as int));
            assert(row@.spans =~= seq![
                span("  "@, Style::plain()),
                span(placeholder@.take(split as int), Style::of(Role::SearchCursor)),
                span(placeholder@.skip(split as int), Style::of(Role::Dim)),
            ]);
        }
        truncate_line(row, width as usize)
    } else {
        let input = SingleLineInput::new(value.to_owned(), cursor);
        render_input_line(
            "  ",
            &input,
            tokens,
            (width as usize).saturating_sub(2),
            Style::plain(),
        )
    }
}

/// An input indented by two columns.
pub fn indented_input(value: &str, cursor: usize, placeholder: &str, width: u16) -> (row: Line)
    ensures
        row@ == indented(
            InputView::of(value@, cursor as int),
            Seq::empty(),
            placeholder@,
            width as int,
        ),
{
    let tokens: Vec<CodeToken> = Vec::new();
    proof {
        assert(tokens@ =~= Seq::empty());
    }
    indented_syntax_input(value, cursor, placeholder, tokens.as_slice(), width)
}

/// Items that take one row each take as many rows as there are items.
pub proof fn lemma_single_rows(
    items: Seq<LineView>,
    start: int,
    end: int,
    width: int,
    truncate: bool,
)
    requires
        start <= end,
        forall|i: int| start <= i < end ==> fitted(#[trigger] items[i], width, truncate).len() == 1,
    ensures
        window_rows(items, start, end, width, truncate).len() == end - start,
    decreases end - start,
{
    if start < end {
        lemma_single_rows(items, start, end - 1, width, truncate);
        assert(fitted(items[end - 1], width, truncate).len() == 1);
    }
}

/// Whether `row` is one of the rows of the item that a hit stands for.
pub open spec fn shows_hit(
    hit: ListHit,
    row: LineView,
    items: Seq<LineView>,
    width: int,
    truncate: bool,
) -> bool {
    match hit {
        ListHit::Item(item) => item < items.len() && fitted(
            items[item as int],
            width,
            truncate,
        ).contains(row),
        _ => true,
    }
}

proof fn lemma_window_hits(
    items: Seq<LineView>,
    heights: Seq<usize>,
    start: int,
    end: int,
    width: int,
    truncate: bool,
)
    requires
        0 <= start,
        end <= items.len() <= usize::MAX,
        forall|i: int|
            start <= i < end ==> heights[i] == fitted(#[trigger] items[i], width, truncate).len(),
    ensures
        ({
            let rows = window_rows(items, start, end, width, truncate);
            let hits = item_hits(heights, start, end);
            &&& rows.len() == hits.len()
            &&& forall|k: int|
                0 <= k < rows.len() ==> shows_hit(#[trigger] hits[k], rows[k], items, width, truncate)
        }),
    decreases end - start,
{
    if start < end {
        lemma_window_hits(items, heights, start, end - 1, width, truncate);
        let rows = window_rows(items, start, end, width, truncate);
        let hits = item_hits(heights, start, end);
        let before = window_rows(items, start, end - 1, width, truncate);
        let last = fitted(items[end - 1], width, truncate);
        assert forall|k: int| 0 <= k < rows.len() implies shows_hit(
            #[trigger] hits[k],
            rows[k],
            items,
            width,
            truncate,
        ) by {
            if k < before.len() {
                assert(hits[k] == item_hits(heights, start, end - 1)[k]);
            } else {
                assert(rows[k] == last[k - before.len()]);
            }
        }
    }
}

/// A click on a list meets the item that is drawn there: a list has as many hits as
/// rows, and a row that stands for an item is one of that item's rows, if the hits
/// count the heights at which the items are drawn.
pub proof fn law_clicks_meet_their_items(
    items: Seq<LineView>,
    empty: Seq<LineView>,
    heights: Seq<usize>,
    state: ListState,
    widget: ListWidget,
    width: int,
    truncate: bool,
)
    requires
        state.offset <= state.item_count == items.len(),
        empty.len() == widget.empty_rows,
        forall|i: int|
            0 <= i < items.len() ==> heights[i] == fitted(
                #[trigger] items[i],
                width,
                truncate,
            ).len(),
    ensures
        ({
            let rows = list_rows(items, empty, state, widget, width, truncate);
            let hits = widget.hits_spec(state, heights);
            &&& rows.len() == hits.len()
            &&& forall|k: int|
                0 <= k < rows.len() ==> shows_hit(#[trigger] hits[k], rows[k], items, width, truncate)
        }),
{
    let start = state.offset as int;
    let end = state.visible_end_spec(widget.capacity as int);
    let rows = list_rows(items, empty, state, widget, width, truncate);
    let hits = widget.hits_spec(state, heights);
    let top: int = if widget.top { 1 } else { 0 };
    if state.item_count > 0 {
        lemma_window_hits(items, heights, start, end, width, truncate);
        let shown = window_rows(items, start, end, width, truncate);
        let met = item_hits(heights, start, end);
        assert forall|k: int| 0 <= k < rows.len() implies shows_hit(
            #[trigger] hits[k],
            rows[k],
            items,
            width,
            truncate,
        ) by {
            if top <= k < top + shown.len() {
                assert(hits[k] == met[k - top]);
                assert(rows[k] == shown[k - top]);
            }
        }
    }
}

/// Items that are cut to one row each are shown one after the other.
pub proof fn lemma_cut_rows(items: Seq<LineView>, start: int, end: int, width: int)
    requires
        start <= end,
    ensures
        window_rows(items, start, end, width, true).len() == end - start,
        forall|i: int|
            start <= i < end ==> window_rows(items, start, end, width, true)[i - start]
                == #[trigger] cut_line(items[i], width),
    decreases end - start,
{
    if start < end {
        lemma_cut_rows(items, start, end - 1, width);
    }
}

/// Every item takes at least one row.
pub proof fn lemma_fitted_some(line: LineView, width: int, truncate: bool)
    ensures
        fitted(line, width, truncate).len() >= 1,
{
    if !truncate {
        lemma_wrap_rows_some(cell_text(span_cells(line.spans)), width);
    }
}

/// Items take at least as many rows as there are items.
pub proof fn lemma_window_rows_some(
    items: Seq<LineView>,
    start: int,
    end: int,
    width: int,
    truncate: bool,
)
    ensures
        window_rows(items, start, end, width, truncate).len() >= end - start,
    decreases end - start,
{
    if start < end {
        lemma_window_rows_some(items, start, end - 1, width, truncate);
        lemma_fitted_some(items[end - 1], width, truncate);
    }
}

/// A list takes at least the rows that its hits cover.
pub proof fn lemma_lists_cover()
    ensures
        forall|
            items: Seq<LineView>,
            empty: Seq<LineView>,
            state: ListState,
            widget: ListWidget,
            width: int,
            truncate: bool,
        |
            #[trigger] list_rows(items, empty, state, widget, width, truncate).len()
                >= rows_covered(state, widget, empty.len() as int),
{
    assert forall|
        items: Seq<LineView>,
        empty: Seq<LineView>,
        state: ListState,
        widget: ListWidget,
        width: int,
        truncate: bool,
    |
        #[trigger] list_rows(items, empty, state, widget, width, truncate).len() >= rows_covered(
        state,
        widget,
        empty.len() as int,
    ) by {
        lemma_window_rows_some(
            items,
            state.offset as int,
            state.visible_end_spec(widget.capacity as int),
            width,
            truncate,
        );
    }
}

} // verus!
