//! The rows of the surfaces that set up providers, models and web search.

use vstd::prelude::*;
use vstd::string::*;
use crate::input_syntax::CodeToken;
use crate::list::{VISIBLE_MENU_ITEMS, ListState, ListWidget};
use crate::masked::{masked_input_line, masked_line};
use crate::menu::{
    choice, choice_with_status, full_menu, input_line, is_at, less, list_rows, marker, marker_text,
    menu_choice_line, menu_choice_line_with_status, menu_title, render_input_line, render_list,
    render_menu, role_when, same_text, style_when, text_part, title_line,
};
use crate::providers::{
    visible_web_rows, web_rows, AuthChallenge, AuthFlow, ModelRow, Models, ProviderRow,
    ProviderSetup, Providers, TextField, WebSearchPicker, WebSearchProvider, WebSearchRow,
};
use crate::render::{
    concat, concat3, count_text, cut_line, decimal, safe, terminal_safe, truncate_line,
};
use crate::search::{contains, find, first_at, stands_at};
use crate::single_line_input::{rendered, InputView, SingleLineInput};
use crate::style::{
    append_lines, blank_line, capped, line, line_views, push_line, raw_line, span, spans_width,
    Line, LineView, Role, Style,
};
use crate::text::chars_of;
use crate::unicode::{display_width, text_width};

verus! {

/// The rows of the welcome.
pub open spec fn onboarding_rows() -> Seq<LineView> {
    seq![
        title_line("Welcome to Cagent!"@, None),
        blank_line(),
        raw_line("  To get started, configure a provider and model."@),
        line(
            seq![
                span("  Press "@, Style::plain()),
                span("Enter"@, Style::of(Role::Accent)),
                span(" to begin setup, or "@, Style::plain()),
                span("Esc"@, Style::of(Role::Dim)),
                span(" to continue without it."@, Style::plain()),
            ],
        ),
        blank_line(),
        line(
            seq![
                span("  Run "@, Style::plain()),
                span("/help"@, Style::of(Role::Accent)),
                span(" for more help."@, Style::plain()),
            ],
        ),
        blank_line(),
    ]
}

/// The rows of the welcome.
pub fn onboarding_lines() -> (lines: Vec<Line>)
    ensures
        line_views(lines@) == onboarding_rows(),
{
    let mut lines: Vec<Line> = Vec::new();
    push_line(&mut lines, menu_title("Welcome to Cagent!", None));
    push_line(&mut lines, Line::new());
    push_line(&mut lines, Line::raw("  To get started, configure a provider and model."));
    let mut row = Line::new();
    row.push_str("  Press ", Style::plain());
    row.push_str("Enter", Style::of(Role::Accent));
    row.push_str(" to begin setup, or ", Style::plain());
    row.push_str("Esc", Style::of(Role::Dim));
    row.push_str(" to continue without it.", Style::plain());
    proof {
        assert(row@.spans =~= onboarding_rows()[3].spans);
    }
    push_line(&mut lines, row);
    push_line(&mut lines, Line::new());
    let mut row = Line::new();
    row.push_str("  Run ", Style::plain());
    row.push_str("/help", Style::of(Role::Accent));
    row.push_str(" for more help.", Style::plain());
    proof {
        assert(row@.spans =~= onboarding_rows()[5].spans);
    }
    push_line(&mut lines, row);
    push_line(&mut lines, Line::new());
    proof {
        assert(line_views(lines@) =~= onboarding_rows());
    }
    lines
}

/// A line in one style as a whole.
pub open spec fn dim_line(text: Seq<char>) -> LineView {
    LineView { spans: seq![span(text, Style::plain())], base: Style::of(Role::Dim) }
}

/// A line that is dim as a whole.
pub fn dimmed_line(text: String) -> (row: Line)
    ensures
        row@ == dim_line(text@),
{
    let mut row = Line::styled(text, Style::plain());
    row.base = Style::of(Role::Dim);
    row
}

/// The rows of a surface that says what is missing.
pub open spec fn required_rows(title: Seq<char>, message: Seq<char>) -> Seq<LineView> {
    seq![title_line(title, None), blank_line(), dim_line("  "@ + message), blank_line()]
}

pub fn required_surface(title: &str, message: &str) -> (lines: Vec<Line>)
    ensures
        line_views(lines@) == required_rows(title@, message@),
{
    let mut lines: Vec<Line> = Vec::new();
    push_line(&mut lines, menu_title(title, None));
    push_line(&mut lines, Line::new());
    push_line(&mut lines, dimmed_line(concat("  ", message)));
    push_line(&mut lines, Line::new());
    proof {
        assert(line_views(lines@) =~= required_rows(title@, message@));
    }
    lines
}

/// The title row of a menu with a search in it.
pub open spec fn search_title(title: Seq<char>, input: InputView, width: int) -> LineView {
    let head = title_line(title, None).spans.push(span("  "@, Style::plain())).push(
        span("search: "@, Style::of(Role::MenuDetail)),
    );
    line(
        head + rendered(
            input,
            Seq::empty(),
            less(width, capped(spans_width(head) as int)),
            Style::of(Role::MenuDetail),
            Style::of(Role::SearchCursor),
        ).spans,
    )
}

/// The title row of a menu with a search in it.
pub fn search_menu_title(title: &str, query: &str, cursor: usize, width: u16) -> (row: Line)
    ensures
        row@ == search_title(title@, InputView::of(query@, cursor as int), width as int),
{
    let mut row = menu_title(title, None);
    row.push_str("  ", Style::plain());
    row.push_str("search: ", Style::of(Role::MenuDetail));
    let available: usize = (width as usize).saturating_sub(row.width());
    let input = SingleLineInput::new(query.to_owned(), cursor);
    let tokens: Vec<CodeToken> = Vec::new();
    proof {
        assert(tokens@ =~= Seq::empty());
    }
    row.append(
        input.render_bounded(
            tokens.as_slice(),
            available,
            Style::of(Role::MenuDetail),
            Style::of(Role::SearchCursor),
        ),
    );
    row
}

/// What is said where a search finds nothing.
pub open spec fn no_matches_line(kind: Seq<char>) -> LineView {
    dim_line("  No "@ + kind + " match your search."@)
}

pub fn no_filter_matches(kind: &str) -> (row: Line)
    ensures
        row@ == no_matches_line(kind@),
{
    dimmed_line(concat3("  No ", kind, " match your search."))
}

/// A web search provider in its picker.
pub open spec fn web_choice(row: WebSearchRow, selected: bool) -> LineView {
    let style = if !row.ready { Style::of(Role::Dim) } else { role_when(selected, Role::Selected) };
    let chatgpt = row.provider == WebSearchProvider::Chatgpt;
    let head = seq![span(marker(selected), style), span(row.display_name@, style)];
    let active = if row.active {
        head.push(
            span(
                "  active"@,
                if row.ready || !chatgpt { Style::of(Role::Enabled) } else { Style::of(Role::Dim) },
            ),
        )
    } else {
        head
    };
    line(
        if !row.ready {
            active.push(
                if chatgpt {
                    span(" \u{b7} subscription required"@, Style::of(Role::Dim))
                } else {
                    span(" \u{b7} not setup"@, Style::of(Role::Error))
                },
            )
        } else if !row.active {
            active.push(span("  ready"@, Style::of(Role::Dim)))
        } else {
            active
        },
    )
}

fn web_choice_line(row: &WebSearchRow, selected: bool) -> (shown: Line)
    ensures
        shown@ == web_choice(*row, selected),
{
    let style: Style = if !row.ready {
        Style::of(Role::Dim)
    } else {
        style_when(selected, Role::Selected)
    };
    let chatgpt: bool = row.provider == WebSearchProvider::Chatgpt;
    let mut shown = Line::new();
    shown.push_str(marker_text(selected), style);
    shown.push_str(row.display_name.as_str(), style);
    proof {
        assert(shown@.spans =~= seq![
            span(marker(selected), style),
            span(row.display_name@, style),
        ]);
    }
    if row.active {
        shown.push_str(
            "  active",
            if row.ready || !chatgpt {
                Style::of(Role::Enabled)
            } else {
                Style::of(Role::Dim)
            },
        );
    }
    if !row.ready {
        if chatgpt {
            shown.push_str(" \u{b7} subscription required", Style::of(Role::Dim));
        } else {
            shown.push_str(" \u{b7} not setup", Style::of(Role::Error));
        }
    } else if !row.active {
        shown.push_str("  ready", Style::of(Role::Dim));
    }
    shown
}

/// The items of the web search picker: one to leave, and the providers that are
/// shown.
pub open spec fn web_items(
    rows: Seq<WebSearchRow>,
    visible: Seq<usize>,
    selected: Option<usize>,
) -> Seq<LineView> {
    Seq::new(
        visible.len() + 1,
        |i: int|
            if i == 0 {
                let style = role_when(selected == Some(0usize), Role::Selected);
                line(
                    seq![
                        span(marker(selected == Some(0usize)), style),
                        span("Close"@, style),
                    ],
                )
            } else {
                web_choice(rows[visible[i - 1] as int], selected == Some(i as usize))
            },
    )
}

/// The rows of the web search picker.
pub open spec fn web_search_rows(picker: WebSearchPicker, width: int) -> Seq<LineView> {
    let state = picker.settled_list();
    full_menu(
        search_title(
            "Web search"@,
            InputView::of(picker.query@, picker.query_cursor as int),
            width,
        ),
        web_items(picker.rows@, web_rows(picker.rows@, picker.query@), state.selected),
        state,
        width,
        true,
    )
}

pub fn web_search_picker_lines(picker: &WebSearchPicker, width: u16) -> (lines: Vec<Line>)
    requires
        picker.rows@.len() < usize::MAX,
    ensures
        line_views(lines@) == web_search_rows(*picker, width as int),
{
    let visible = visible_web_rows(picker.rows.as_slice(), picker.query.as_str());
    let mut state: ListState = picker.list;
    state.reconcile(visible.len() + 1, VISIBLE_MENU_ITEMS);
    let title = search_menu_title("Web search", picker.query.as_str(), picker.query_cursor, width);
    let ghost all = web_items(picker.rows@, visible@, state.selected);
    let mut items: Vec<Line> = Vec::new();
    let first: bool = is_at(state.selected, 0);
    let style: Style = style_when(first, Role::Selected);
    let mut close = Line::new();
    close.push_str(marker_text(first), style);
    close.push_str("Close", style);
    proof {
        assert(close@.spans =~= seq![span(marker(first), style), span("Close"@, style)]);
    }
    push_line(&mut items, close);
    let mut i: usize = 0;
    proof {
        assert(line_views(items@) =~= all.take(1));
    }
    while i < visible.len()
        invariant
            i <= visible@.len() < usize::MAX,
            forall|k: int| 0 <= k < visible@.len() ==> #[trigger] visible@[k] < picker.rows@.len(),
            all == web_items(picker.rows@, visible@, state.selected),
            all.len() == visible@.len() + 1,
            items@.len() == i + 1,
            line_views(items@) == all.take(i + 1),
        decreases visible@.len() - i,
    {
        push_line(
            &mut items,
            web_choice_line(&picker.rows[visible[i]], is_at(state.selected, i + 1)),
        );
        i += 1;
        proof {
            assert(line_views(items@) =~= all.take(i + 1));
        }
    }
    proof {
        assert(all.take(i + 1) =~= all);
    }
    render_menu(title, items, state, width, true)
}

/// What is said of an environment variable that is used instead.
pub open spec fn fallback_line(variable: Seq<char>) -> LineView {
    line(
        seq![
            span("  Fallback: "@, Style::of(Role::Dim)),
            span(variable, Style::of(Role::Accent)),
            span(" from the environment."@, Style::of(Role::Dim)),
        ],
    )
}

fn render_fallback(variable: &str) -> (row: Line)
    ensures
        row@ == fallback_line(variable@),
{
    let mut row = Line::new();
    row.push_str("  Fallback: ", Style::of(Role::Dim));
    row.push_str(variable, Style::of(Role::Accent));
    row.push_str(" from the environment.", Style::of(Role::Dim));
    proof {
        assert(row@.spans =~= fallback_line(variable@).spans);
    }
    row
}

/// The rows where a web search provider is set up.
pub open spec fn web_setup_rows(
    provider: WebSearchProvider,
    label: Seq<char>,
    value: Seq<char>,
    cursor: int,
    width: int,
) -> Seq<LineView> {
    let exa = provider == WebSearchProvider::Exa;
    let name = if exa { "API key"@ } else { "Base URL"@ };
    seq![
        title_line("Set up web search"@, Some(label)),
        blank_line(),
        if exa {
            masked_line("  "@ + name + ": "@, value, cursor, width)
        } else {
            input_line(
                "  "@ + name + ": "@,
                InputView::of(value, cursor),
                Seq::empty(),
                less(width, display_width(name) + 4),
                Style::plain(),
            )
        },
        blank_line(),
        fallback_line(if exa { "EXA_API_KEY"@ } else { "SEARXNG_URL"@ }),
        blank_line(),
    ]
}

pub fn web_search_setup_lines(
    provider: WebSearchProvider,
    label: &str,
    field: &TextField,
    width: u16,
) -> (lines: Vec<Line>)
    requires
        3 * field.value@.len() <= usize::MAX,
    ensures
        line_views(lines@) == web_setup_rows(
            provider,
            label@,
            field.value@,
            field.cursor as int,
            width as int,
        ),
{
    let exa: bool = provider == WebSearchProvider::Exa;
    let name: &str = if exa {
        "API key"
    } else {
        "Base URL"
    };
    let prefix: String = concat3("  ", name, ": ");
    let mut lines: Vec<Line> = Vec::new();
    push_line(&mut lines, menu_title("Set up web search", Some(label)));
    push_line(&mut lines, Line::new());
    if exa {
        push_line(
            &mut lines,
            masked_input_line(prefix.as_str(), field.value.as_str(), field.cursor, width),
        );
    } else {
        push_line(
            &mut lines,
            plain_input_line(
                prefix.as_str(),
                field.value.as_str(),
                field.cursor,
                (width as usize).saturating_sub(text_width(name).saturating_add(4)),
            ),
        );
    }
    push_line(&mut lines, Line::new());
    push_line(
        &mut lines,
        render_fallback(
            if exa {
                "EXA_API_KEY"
            } else {
                "SEARXNG_URL"
            },
        ),
    );
    push_line(&mut lines, Line::new());
    proof {
        assert(line_views(lines@) =~= web_setup_rows(
            provider,
            label@,
            field.value@,
            field.cursor as int,
            width as int,
        ));
    }
    lines
}

/// A row that holds an unstyled input behind a prefix.
pub fn plain_input_line(prefix: &str, value: &str, cursor: usize, width: usize) -> (row: Line)
    ensures
        row@ == input_line(
            prefix@,
            InputView::of(value@, cursor as int),
            Seq::empty(),
            width as int,
            Style::plain(),
        ),
{
    let tokens: Vec<CodeToken> = Vec::new();
    proof {
        assert(tokens@ =~= Seq::empty());
    }
    let input = SingleLineInput::new(value.to_owned(), cursor);
    render_input_line(prefix, &input, tokens.as_slice(), width, Style::plain())
}

/// What is said where a login is offered by one key.
pub open spec fn connect_line(provider: Seq<char>, how: Seq<char>) -> LineView {
    line(
        seq![
            span("  Connect your "@ + provider + how, Style::plain()),
            span("Enter"@, Style::of(Role::Accent)),
            span(")."@, Style::plain()),
        ],
    )
}

fn render_connect(provider: &str, how: &str) -> (row: Line)
    ensures
        row@ == connect_line(provider@, how@),
{
    let mut row = Line::new();
    row.push(concat3("  Connect your ", provider, how), Style::plain());
    row.push_str("Enter", Style::of(Role::Accent));
    row.push_str(").", Style::plain());
    proof {
        assert(row@.spans =~= connect_line(provider@, how@).spans);
    }
    row
}

/// The first place of a text in another.
pub open spec fn place_of(text: Seq<char>, part: Seq<char>) -> int {
    choose|at: int| first_at(text, part, at)
}

/// The URL and the code of a login on a device.
pub open spec fn device_login(setup: ProviderSetup) -> Option<(Seq<char>, Seq<char>)> {
    match setup.auth_challenge {
        Some(AuthChallenge::Device { verification_url, user_code }) => Some(
            (verification_url@, user_code@),
        ),
        _ => None,
    }
}

/// The environment variable that the instructions speak of.
pub open spec fn variable_in(setup: ProviderSetup) -> Option<Seq<char>> {
    match setup.credential_environment_variable {
        None => None,
        Some(variable) => if contains(setup.instructions@, variable@) {
            Some(variable@)
        } else {
            None
        },
    }
}

/// What is said of how to set up a provider.
pub open spec fn setup_line(setup: ProviderSetup, width: int) -> LineView {
    if setup.authenticated {
        line(seq![span("  "@ + safe(setup.instructions@), Style::of(Role::Enabled))])
    } else if setup.api_key_auth {
        masked_line("  API key: "@, setup.api_key@, setup.api_key_cursor as int, width)
    } else if let Some((url, code)) = device_login(setup) {
        line(
            seq![
                span("  Open "@, Style::plain()),
                span(safe(url), Style::of(Role::Accent).underlined()),
                span(" and enter "@, Style::plain()),
                span(safe(code), Style::of(Role::Accent)),
                span("."@, Style::plain()),
            ],
        )
    } else if setup.managed_auth {
        if setup.auth_flows@ == seq![AuthFlow::DeviceCode] {
            connect_line(setup.provider@, " with device authentication ("@)
        } else if setup.auth_flows@ == seq![AuthFlow::Browser] {
            connect_line(setup.provider@, " with browser authentication ("@)
        } else {
            line(
                seq![
                    span("  Connect your "@ + setup.provider@ + " with browser ("@, Style::plain()),
                    span("Enter"@, Style::of(Role::Accent)),
                    span(") or device authentication ("@, Style::plain()),
                    span("d"@, Style::of(Role::Accent)),
                    span(")."@, Style::plain()),
                ],
            )
        }
    } else if let Some(variable) = variable_in(setup) {
        let at = place_of(setup.instructions@, variable);
        line(
            seq![
                span("  "@ + safe(setup.instructions@.take(at)), Style::plain()),
                span(safe(variable), Style::of(Role::Accent)),
                span(
                    safe(setup.instructions@.skip(at + variable.len())),
                    Style::plain(),
                ),
            ],
        )
    } else {
        raw_line("  "@ + safe(setup.instructions@))
    }
}

/// Whether some flows are just one.
fn is_only(flows: &Vec<AuthFlow>, flow: AuthFlow) -> (yes: bool)
    ensures
        yes == (flows@ == seq![flow]),
{
    let yes: bool = flows.len() == 1 && flows[0] == flow;
    proof {
        if yes {
            assert(flows@ =~= seq![flow]);
        } else {
            assert(seq![flow][0] == flow);
        }
    }
    yes
}

fn render_setup_line(setup: &ProviderSetup, width: u16) -> (row: Line)
    requires
        3 * setup.api_key@.len() <= usize::MAX,
    ensures
        row@ == setup_line(*setup, width as int),
{
    if setup.authenticated {
        return Line::styled(
            concat("  ", terminal_safe(setup.instructions.as_str()).as_str()),
            Style::of(Role::Enabled),
        );
    }
    if setup.api_key_auth {
        return masked_input_line("  API key: ", setup.api_key.as_str(), setup.api_key_cursor, width);
    }
    if let Some(AuthChallenge::Device { verification_url, user_code }) = &setup.auth_challenge {
        let mut row = Line::new();
        row.push_str("  Open ", Style::plain());
        row.push(
            terminal_safe(verification_url.as_str()),
            Style::of(Role::Accent).underlined(),
        );
        row.push_str(" and enter ", Style::plain());
        row.push(terminal_safe(user_code.as_str()), Style::of(Role::Accent));
        row.push_str(".", Style::plain());
        proof {
            assert(row@.spans =~= setup_line(*setup, width as int).spans);
        }
        return row;
    }
    if setup.managed_auth {
        let provider = setup.provider.as_str();
        if is_only(&setup.auth_flows, AuthFlow::DeviceCode) {
            return render_connect(provider, " with device authentication (");
        }
        if is_only(&setup.auth_flows, AuthFlow::Browser) {
            return render_connect(provider, " with browser authentication (");
        }
        let mut row = Line::new();
        row.push(concat3("  Connect your ", provider, " with browser ("), Style::plain());
        row.push_str("Enter", Style::of(Role::Accent));
        row.push_str(") or device authentication (", Style::plain());
        row.push_str("d", Style::of(Role::Accent));
        row.push_str(").", Style::plain());
        proof {
            assert(row@.spans =~= setup_line(*setup, width as int).spans);
        }
        return row;
    }
    if let Some(variable) = &setup.credential_environment_variable {
        if let Some(at) = find(setup.instructions.as_str(), variable.as_str()) {
            let chars: Vec<char> = chars_of(setup.instructions.as_str());
            let len: usize = chars_of(variable.as_str()).len();
            proof {
                let found = place_of(setup.instructions@, variable@);
                assert(stands_at(setup.instructions@, variable@, at as int));
                if found < at {
                    assert(!stands_at(setup.instructions@, variable@, found));
                } else if at < found {
                    assert(!stands_at(setup.instructions@, variable@, at as int));
                }
            }
            let total: usize = chars.len();
            let before: String = text_part(chars.as_slice(), 0, at);
            let behind: String = text_part(chars.as_slice(), at + len, total);
            proof {
                assert(before@ =~= setup.instructions@.take(at as int));
                assert(behind@ =~= setup.instructions@.skip(at + len));
            }
            let mut row = Line::new();
            row.push(concat("  ", terminal_safe(before.as_str()).as_str()), Style::plain());
            row.push(terminal_safe(variable.as_str()), Style::of(Role::Accent));
            row.push(terminal_safe(behind.as_str()), Style::plain());
            proof {
                assert(row@.spans =~= setup_line(*setup, width as int).spans);
            }
            return row;
        }
    }
    Line::styled(
        concat("  ", terminal_safe(setup.instructions.as_str()).as_str()),
        Style::plain(),
    )
}

/// Whether a login on a device is under way that ends by itself.
pub open spec fn waits_for_device(setup: ProviderSetup) -> bool {
    !setup.authenticated && setup.auth_flows@ == seq![AuthFlow::DeviceCode]
        && setup.auth_challenge matches Some(AuthChallenge::Device { .. })
}

/// The rows where a provider is set up.
pub open spec fn provider_setup_rows(setup: ProviderSetup, width: int) -> Seq<LineView> {
    let head = seq![
        title_line("Configure provider"@, Some(setup.provider@)),
        blank_line(),
        setup_line(setup, width),
    ];
    let fallback = if setup.api_key_auth {
        match setup.credential_environment_variable {
            None => head,
            Some(variable) => head.push(blank_line()).push(fallback_line(safe(variable@))),
        }
    } else {
        head
    };
    let waiting = if waits_for_device(setup) {
        fallback.push(
            line(
                seq![
                    span(
                        "  This will update automatically a few moments after you sign in."@,
                        Style::of(Role::Dim),
                    ),
                ],
            ),
        )
    } else {
        fallback
    };
    waiting.push(blank_line())
}

pub fn provider_setup_lines(setup: &ProviderSetup, width: u16) -> (lines: Vec<Line>)
    requires
        3 * setup.api_key@.len() <= usize::MAX,
    ensures
        line_views(lines@) == provider_setup_rows(*setup, width as int),
{
    let mut lines: Vec<Line> = Vec::new();
    push_line(&mut lines, menu_title("Configure provider", Some(setup.provider.as_str())));
    push_line(&mut lines, Line::new());
    push_line(&mut lines, render_setup_line(setup, width));
    proof {
        assert(line_views(lines@) =~= seq![
            title_line("Configure provider"@, Some(setup.provider@)),
            blank_line(),
            setup_line(*setup, width as int),
        ]);
    }
    if setup.api_key_auth {
        if let Some(variable) = &setup.credential_environment_variable {
            push_line(&mut lines, Line::new());
            push_line(&mut lines, render_fallback(terminal_safe(variable.as_str()).as_str()));
        }
    }
    let on_device: bool = match &setup.auth_challenge {
        Some(AuthChallenge::Device { .. }) => true,
        _ => false,
    };
    if !setup.authenticated && is_only(&setup.auth_flows, AuthFlow::DeviceCode) && on_device {
        push_line(
            &mut lines,
            Line::styled(
                "  This will update automatically a few moments after you sign in.".to_owned(),
                Style::of(Role::Dim),
            ),
        );
    }
    push_line(&mut lines, Line::new());
    lines
}

/// Whether any provider is enabled.
pub open spec fn any_enabled(rows: Seq<ProviderRow>) -> bool {
    exists|i: int| 0 <= i < rows.len() && (#[trigger] rows[i]).enabled
}

fn has_enabled(rows: &[ProviderRow]) -> (yes: bool)
    ensures
        yes == any_enabled(rows@),
{
    let mut i: usize = 0;
    while i < rows.len()
        invariant
            i <= rows@.len(),
            forall|k: int| 0 <= k < i ==> !(#[trigger] rows@[k]).enabled,
        decreases rows@.len() - i,
    {
        if rows[i].enabled {
            return true;
        }
        i += 1;
    }
    false
}

/// The items of the provider picker: one to go on, and the providers that are
/// shown.
pub open spec fn provider_items(
    providers: Providers,
    visible: Seq<usize>,
    selected: Option<usize>,
) -> Seq<LineView> {
    Seq::new(
        visible.len() + 1,
        |i: int|
            if i == 0 {
                choice_with_status(
                    selected == Some(0usize),
                    providers.model_configuration_follows && !any_enabled(providers.rows@),
                    if providers.model_configuration_follows { "Continue"@ } else { "Close"@ },
                    Seq::empty(),
                    None,
                )
            } else {
                let row = providers.rows@[visible[i - 1] as int];
                choice_with_status(
                    selected == Some(i as usize),
                    false,
                    row.label@,
                    "("@ + row.id@ + ")"@,
                    Some(row.status@),
                )
            },
    )
}

/// The rows of the provider picker. `visible` are the rows that are shown for
/// the query.
pub open spec fn providers_rows(providers: Providers, visible: Seq<usize>, width: int) -> Seq<
    LineView,
> {
    let state = providers.list.reconciled(visible.len() as int + 1, VISIBLE_MENU_ITEMS as int);
    let rows = full_menu(
        search_title(
            "Providers"@,
            InputView::of(providers.query@, providers.query_cursor as int),
            width,
        ),
        provider_items(providers, visible, state.selected),
        state,
        width,
        false,
    );
    if providers.query@.len() > 0 && visible.len() == 0 {
        rows.push(no_matches_line("providers"@)).push(blank_line())
    } else {
        rows
    }
}

pub fn providers_lines(providers: &Providers, visible: &[usize], width: u16) -> (lines: Vec<Line>)
    requires
        visible@.len() < usize::MAX,
        forall|i: int| 0 <= i < visible@.len() ==> #[trigger] visible@[i] < providers.rows@.len(),
    ensures
        line_views(lines@) == providers_rows(*providers, visible@, width as int),
{
    let mut state: ListState = providers.list;
    state.reconcile(visible.len() + 1, VISIBLE_MENU_ITEMS);
    let title = search_menu_title(
        "Providers",
        providers.query.as_str(),
        providers.query_cursor,
        width,
    );
    let ghost all = provider_items(*providers, visible@, state.selected);
    let mut items: Vec<Line> = Vec::new();
    let follows: bool = providers.model_configuration_follows;
    proof {
        reveal_strlit("");
        assert(""@ =~= Seq::empty());
    }
    push_line(
        &mut items,
        menu_choice_line_with_status(
            is_at(state.selected, 0),
            follows && !has_enabled(providers.rows.as_slice()),
            if follows {
                "Continue"
            } else {
                "Close"
            },
            "",
            None,
        ),
    );
    let mut i: usize = 0;
    proof {
        assert(line_views(items@) =~= all.take(1));
    }
    while i < visible.len()
        invariant
            i <= visible@.len() < usize::MAX,
            forall|k: int|
                0 <= k < visible@.len() ==> #[trigger] visible@[k] < providers.rows@.len(),
            all == provider_items(*providers, visible@, state.selected),
            all.len() == visible@.len() + 1,
            items@.len() == i + 1,
            line_views(items@) == all.take(i + 1),
        decreases visible@.len() - i,
    {
        let row = &providers.rows[visible[i]];
        push_line(
            &mut items,
            menu_choice_line_with_status(
                is_at(state.selected, i + 1),
                false,
                row.label.as_str(),
                concat3("(", row.id.as_str(), ")").as_str(),
                Some(row.status.as_str()),
            ),
        );
        i += 1;
        proof {
            assert(line_views(items@) =~= all.take(i + 1));
        }
    }
    proof {
        assert(all.take(i + 1) =~= all);
    }
    let mut lines = render_menu(title, items, state, width, false);
    if !providers.query.as_str().is_empty() && visible.len() == 0 {
        push_line(&mut lines, no_filter_matches("providers"));
        push_line(&mut lines, Line::new());
    }
    lines
}

/// A model in its picker.
pub open spec fn model_line(selected: bool, row: ModelRow) -> LineView {
    let head = seq![
        span(marker(selected), role_when(selected, Role::Accent)),
        span(safe(row.label@), role_when(selected, Role::Selected)),
        span("  "@ + safe(row.detail@), Style::of(Role::Dim)),
    ];
    let marked = if row.current {
        head.push(span(" \u{b7} "@, Style::of(Role::Dim))).push(span("current"@, Style::plain()))
    } else {
        head
    };
    line(
        if !row.favourite {
            marked
        } else if row.current {
            marked.push(span(" "@, Style::plain())).push(span("\u{2605}"@, Style::of(Role::Notice)))
        } else {
            marked.push(span(" \u{b7} "@, Style::of(Role::Dim))).push(
                span("\u{2605}"@, Style::of(Role::Notice)),
            )
        },
    )
}

pub fn model_choice(selected: bool, row: &ModelRow) -> (shown: Line)
    ensures
        shown@ == model_line(selected, *row),
{
    let mut shown = Line::new();
    shown.push_str(marker_text(selected), style_when(selected, Role::Accent));
    shown.push(terminal_safe(row.label.as_str()), style_when(selected, Role::Selected));
    shown.push(concat("  ", terminal_safe(row.detail.as_str()).as_str()), Style::of(Role::Dim));
    proof {
        assert(shown@.spans =~= seq![
            span(marker(selected), role_when(selected, Role::Accent)),
            span(safe(row.label@), role_when(selected, Role::Selected)),
            span("  "@ + safe(row.detail@), Style::of(Role::Dim)),
        ]);
    }
    if row.current {
        shown.push_str(" \u{b7} ", Style::of(Role::Dim));
        shown.push_str("current", Style::plain());
        if row.favourite {
            shown.push_str(" ", Style::plain());
            shown.push_str("\u{2605}", Style::of(Role::Notice));
        }
    } else if row.favourite {
        shown.push_str(" \u{b7} ", Style::of(Role::Dim));
        shown.push_str("\u{2605}", Style::of(Role::Notice));
    }
    shown
}

/// A description of a setting.
pub open spec fn description_row(description: Seq<char>, width: int) -> LineView {
    cut_line(
        line(seq![span("  "@, Style::plain()), span(safe(description), Style::of(Role::Dim))]),
        width,
    )
}

pub fn setting_description_line(description: &str, width: u16) -> (row: Line)
    ensures
        row@ == description_row(description@, width as int),
{
    let mut row = Line::new();
    row.push_str("  ", Style::plain());
    row.push(terminal_safe(description), Style::of(Role::Dim));
    proof {
        assert(row@.spans =~= seq![
            span("  "@, Style::plain()),
            span(safe(description@), Style::of(Role::Dim)),
        ]);
    }
    truncate_line(row, width as usize)
}

/// The items of the model picker.
pub open spec fn model_items(
    rows: Seq<ModelRow>,
    visible: Seq<usize>,
    selected: Option<usize>,
) -> Seq<LineView> {
    Seq::new(
        visible.len(),
        |i: int| model_line(selected == Some(i as usize), rows[visible[i] as int]),
    )
}

/// The rows of the model picker. Where a model is chosen for a setting, the
/// setting's label and description stand above the models.
pub open spec fn models_rows(
    models: Models,
    visible: Seq<usize>,
    setting: Option<(Seq<char>, Seq<char>)>,
    width: int,
) -> Seq<LineView> {
    let state = models.list.reconciled(visible.len() as int, VISIBLE_MENU_ITEMS as int);
    let title = search_title(
        match setting {
            None => "Models"@,
            Some((label, _)) => label,
        },
        InputView::of(models.query@, models.query_cursor as int),
        width,
    );
    let head = match setting {
        None => seq![title],
        Some((_, description)) => seq![title, description_row(description, width)],
    };
    let rows = head + list_rows(
        model_items(models.rows@, visible, state.selected),
        Seq::empty(),
        state,
        ListWidget::of(VISIBLE_MENU_ITEMS as int),
        width,
        false,
    );
    if models.query@.len() > 0 && visible.len() == 0 {
        rows.push(no_matches_line("models"@)).push(blank_line())
    } else {
        rows
    }
}

pub fn models_lines(
    models: &Models,
    visible: &[usize],
    setting: Option<(&str, &str)>,
    width: u16,
) -> (lines: Vec<Line>)
    requires
        forall|i: int| 0 <= i < visible@.len() ==> #[trigger] visible@[i] < models.rows@.len(),
    ensures
        line_views(lines@) == models_rows(
            *models,
            visible@,
            match setting {
                None => None,
                Some((label, description)) => Some((label@, description@)),
            },
            width as int,
        ),
{
    let mut state: ListState = models.list;
    state.reconcile(visible.len(), VISIBLE_MENU_ITEMS);
    let mut lines: Vec<Line> = Vec::new();
    let label: &str = match setting {
        None => "Models",
        Some((label, _)) => label,
    };
    push_line(
        &mut lines,
        search_menu_title(label, models.query.as_str(), models.query_cursor, width),
    );
    if let Some((_, description)) = setting {
        push_line(&mut lines, setting_description_line(description, width));
    }
    let ghost head = line_views(lines@);
    let ghost all = model_items(models.rows@, visible@, state.selected);
    let mut items: Vec<Line> = Vec::new();
    let mut i: usize = 0;
    while i < visible.len()
        invariant
            i <= visible@.len(),
            forall|k: int| 0 <= k < visible@.len() ==> #[trigger] visible@[k] < models.rows@.len(),
            all == model_items(models.rows@, visible@, state.selected),
            items@.len() == i,
            line_views(items@) == all.take(i as int),
        decreases visible@.len() - i,
    {
        push_line(
            &mut items,
            model_choice(is_at(state.selected, i), &models.rows[visible[i]]),
        );
        i += 1;
        proof {
            assert(line_views(items@) =~= all.take(i as int));
        }
    }
    let empty: Vec<Line> = Vec::new();
    proof {
        assert(all.take(i as int) =~= all);
        assert(line_views(empty@) =~= Seq::empty());
    }
    append_lines(
        &mut lines,
        render_list(&items, empty, &state, ListWidget::new(VISIBLE_MENU_ITEMS), width, false),
    );
    proof {
        if setting is None {
            assert(head =~= seq![head[0]]);
        } else {
            assert(head =~= seq![head[0], head[1]]);
        }
    }
    if !models.query.as_str().is_empty() && visible.len() == 0 {
        push_line(&mut lines, no_filter_matches("models"));
        push_line(&mut lines, Line::new());
    }
    lines
}

/// The label of an effort.
pub open spec fn effort_label(effort: Seq<char>) -> Seq<char> {
    if effort == "off"@ {
        "Off"@
    } else if effort == "on"@ {
        "On"@
    } else {
        effort
    }
}

/// The items of the effort picker.
pub open spec fn effort_items(rows: Seq<String>, selected: Option<usize>) -> Seq<LineView> {
    Seq::new(
        rows.len(),
        |i: int|
            choice(
                selected == Some(i as usize),
                decimal((i + 1) as nat) + ". "@ + effort_label(rows[i]@),
                ""@,
            ),
    )
}

/// The rows of the effort picker.
pub open spec fn effort_rows(
    model: Seq<char>,
    rows: Seq<String>,
    toggle: bool,
    list: ListState,
    width: int,
) -> Seq<LineView> {
    let state = list.reconciled(rows.len() as int, VISIBLE_MENU_ITEMS as int);
    full_menu(
        title_line(if toggle { "Reasoning"@ } else { "Effort"@ }, Some(model)),
        effort_items(rows, state.selected),
        state,
        width,
        false,
    )
}

/// The rows of the effort picker. `toggle` says whether reasoning is only
/// switched on and off.
pub fn effort_lines(
    model: &str,
    rows: &[String],
    toggle: bool,
    list: &ListState,
    width: u16,
) -> (lines: Vec<Line>)
    ensures
        line_views(lines@) == effort_rows(model@, rows@, toggle, *list, width as int),
{
    let mut state: ListState = *list;
    state.reconcile(rows.len(), VISIBLE_MENU_ITEMS);
    let ghost all = effort_items(rows@, state.selected);
    let mut items: Vec<Line> = Vec::new();
    let mut i: usize = 0;
    while i < rows.len()
        invariant
            i <= rows@.len(),
            all == effort_items(rows@, state.selected),
            items@.len() == i,
            line_views(items@) == all.take(i as int),
        decreases rows@.len() - i,
    {
        let effort = rows[i].as_str();
        let label: &str = if same_text(effort, "off") {
            "Off"
        } else if same_text(effort, "on") {
            "On"
        } else {
            effort
        };
        let text: String = concat3(count_text(i + 1).as_str(), ". ", label);
        push_line(&mut items, menu_choice_line(is_at(state.selected, i), text.as_str(), ""));
        i += 1;
        proof {
            assert(line_views(items@) =~= all.take(i as int));
        }
    }
    proof {
        assert(all.take(i as int) =~= all);
    }
    let title = menu_title(
        if toggle {
            "Reasoning"
        } else {
            "Effort"
        },
        Some(model),
    );
    render_menu(title, items, state, width, false)
}

} // verus!
