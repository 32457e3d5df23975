//! The rows of the surfaces for MCP servers and packages.

use vstd::prelude::*;
use vstd::string::*;
use crate::input_syntax::CodeToken;
use crate::json::entry_views;
use crate::list::{min, settled, VISIBLE_HELP_ITEMS, VISIBLE_MENU_ITEMS, ListState, ListWidget};
use crate::masked::{description_line, masked_input_line, masked_line, package_description_line};
use crate::mcp::{
    field_label, form_choice, form_maximum, form_rows, mcp_field_label, mcp_form_choices,
    McpFormDraft, McpFormField, McpScope,
};
use crate::mcp_package::{
    separate, separated, shown_value, McpPackageDraft, McpPackageField, McpPackageSecret,
    McpParameterValue,
};
use crate::menu::{
    choice, choice_lines, choices_of, full_menu, input_line, is_at, less, list_rows, marker,
    marker_text, menu_choice_line, menu_title, pair_views, render_input_line, render_list,
    render_menu, role_when, style_when, title_line,
};
use crate::multiline_input::MultilineInput;
use crate::render::{concat, concat3, count_text, decimal, safe, terminal_safe};
use crate::render_menus::{
    at_most, editor_capacity, multiline_content_capacity, scrolled_rows, short_menu_rows,
    with_empty_row,
};
use crate::render_setup::{dim_line, dimmed_line, plain_input_line};
use crate::scroll::{ScrollViewState, ScrollViewWidget};
use crate::single_line_input::{InputView, SingleLineInput};
use crate::style::{
    append_lines, blank_line, line, line_views, push_line, span, Line, LineView, Role, Style,
};
use crate::unicode::views;

verus! {

/// How a server is doing.
#[derive(Clone, Copy, Debug, PartialEq, Eq, Structural)]
pub enum McpRuntimeStatus {
    Connected,
    Disabled,
    Stopped,
    AuthenticationRequired,
    Failed,
    NotStarted,
    Starting,
    Restarting,
}

/// A server in its list. `status_text` says how it is doing.
#[derive(Debug)]
pub struct McpServerRow {
    pub name: String,
    pub agents: Vec<String>,
    pub scope: McpScope,
    pub status: McpRuntimeStatus,
    pub status_text: String,
    /// The scopes of the definitions that this one takes the place of.
    pub overridden: Vec<McpScope>,
    pub enabled: bool,
    pub over_http: bool,
    pub packaged: bool,
}

/// A package that can be installed.
#[derive(Debug)]
pub struct McpCatalogRow {
    pub name: String,
    pub version: String,
    pub description: String,
}

pub open spec fn runtime_role(status: McpRuntimeStatus) -> Role {
    match status {
        McpRuntimeStatus::Connected => Role::Enabled,
        McpRuntimeStatus::Disabled | McpRuntimeStatus::Stopped => Role::Notice,
        McpRuntimeStatus::AuthenticationRequired | McpRuntimeStatus::Failed => Role::Error,
        McpRuntimeStatus::NotStarted | McpRuntimeStatus::Starting
        | McpRuntimeStatus::Restarting => Role::Dim,
    }
}

pub fn mcp_runtime_status_style(status: McpRuntimeStatus) -> (style: Style)
    ensures
        style == Style::of(runtime_role(status)),
{
    match status {
        McpRuntimeStatus::Connected => Style::of(Role::Enabled),
        McpRuntimeStatus::Disabled | McpRuntimeStatus::Stopped => Style::of(Role::Notice),
        McpRuntimeStatus::AuthenticationRequired | McpRuntimeStatus::Failed => Style::of(
            Role::Error,
        ),
        McpRuntimeStatus::NotStarted | McpRuntimeStatus::Starting
        | McpRuntimeStatus::Restarting => Style::of(Role::Dim),
    }
}

pub open spec fn scope_name(scope: McpScope) -> Seq<char> {
    match scope {
        McpScope::Global => "Global"@,
        McpScope::Project => "Project"@,
        McpScope::Agent => "Agent"@,
    }
}

fn scope_text(scope: McpScope) -> (text: &'static str)
    ensures
        text@ == scope_name(scope),
{
    match scope {
        McpScope::Global => "Global",
        McpScope::Project => "Project",
        McpScope::Agent => "Agent",
    }
}

/// A choice with the status of a server.
pub open spec fn status_choice(
    selected: bool,
    label: Seq<char>,
    status: McpRuntimeStatus,
    status_text: Seq<char>,
) -> LineView {
    let style = role_when(selected, Role::Selected);
    line(
        seq![
            span(marker(selected), style),
            span(safe(label), style),
            span("  "@, Style::plain()),
            span(status_text, Style::of(runtime_role(status))),
        ],
    )
}

pub fn menu_choice_line_with_mcp_status(
    selected: bool,
    label: &str,
    status: McpRuntimeStatus,
    status_text: &str,
) -> (row: Line)
    ensures
        row@ == status_choice(selected, label@, status, status_text@),
{
    let style: Style = style_when(selected, Role::Selected);
    let mut row = Line::new();
    row.push_str(marker_text(selected), style);
    row.push(terminal_safe(label), style);
    row.push_str("  ", Style::plain());
    row.push_str(status_text, mcp_runtime_status_style(status));
    proof {
        assert(row@.spans =~= status_choice(selected, label@, status, status_text@).spans);
    }
    row
}

/// The agents that may use a server.
pub open spec fn assignments(agents: Seq<String>) -> Seq<char> {
    if agents.len() == 0 { "All"@ } else { separated(views(agents), ", "@) }
}

/// A server in its list.
pub open spec fn server_line(row: McpServerRow, selected: bool) -> LineView {
    let style = role_when(selected, Role::Selected);
    let spans = seq![
        span(marker(selected), style),
        span(row.name@, style),
        span(
            "  "@ + scope_name(row.scope) + " \u{b7} "@ + assignments(row.agents@) + " \u{b7} "@,
            Style::of(Role::Dim),
        ),
        span(row.status_text@, Style::of(runtime_role(row.status))),
    ];
    line(
        if row.overridden@.len() == 0 {
            spans
        } else {
            spans.push(
                span(" \u{b7} overrides "@ + decimal(row.overridden@.len()), Style::of(Role::Dim)),
            )
        },
    )
}

fn render_server(row: &McpServerRow, selected: bool) -> (shown: Line)
    ensures
        shown@ == server_line(*row, selected),
{
    let style: Style = style_when(selected, Role::Selected);
    let agents: String = if row.agents.len() == 0 {
        "All".to_owned()
    } else {
        separate(row.agents.as_slice(), ", ")
    };
    let head: String = concat3("  ", scope_text(row.scope), " \u{b7} ");
    let mut shown = Line::new();
    shown.push_str(marker_text(selected), style);
    shown.push_str(row.name.as_str(), style);
    shown.push(concat3(head.as_str(), agents.as_str(), " \u{b7} "), Style::of(Role::Dim));
    shown.push_str(row.status_text.as_str(), mcp_runtime_status_style(row.status));
    if row.overridden.len() > 0 {
        shown.push(
            concat(" \u{b7} overrides ", count_text(row.overridden.len()).as_str()),
            Style::of(Role::Dim),
        );
    }
    proof {
        assert(shown@.spans =~= server_line(*row, selected).spans);
    }
    shown
}

/// The items of the list of servers.
pub open spec fn server_items(rows: Seq<McpServerRow>, selected: Option<usize>) -> Seq<LineView> {
    Seq::new(
        rows.len() + 3,
        |i: int|
            if i == 0 {
                choice(selected == Some(0usize), "Close"@, ""@)
            } else if i == 1 {
                choice(selected == Some(1usize), "Add"@, "configure a server"@)
            } else if i == 2 {
                choice(selected == Some(2usize), "Add from catalog"@, "built-in MCPs"@)
            } else {
                server_line(rows[i - 3], selected == Some(i as usize))
            },
    )
}

/// The rows of the list of servers.
pub open spec fn servers_rows(
    rows: Seq<McpServerRow>,
    list: ListState,
    width: int,
) -> Seq<LineView> {
    let state = list.reconciled(rows.len() as int + 3, VISIBLE_MENU_ITEMS as int);
    full_menu(title_line("MCP"@, None), server_items(rows, state.selected), state, width, true)
}

pub fn mcp_servers_lines(rows: &[McpServerRow], list: &ListState, width: u16) -> (lines: Vec<Line>)
    requires
        rows@.len() <= usize::MAX - 3,
    ensures
        line_views(lines@) == servers_rows(rows@, *list, width as int),
{
    let mut state: ListState = *list;
    state.reconcile(rows.len() + 3, VISIBLE_MENU_ITEMS);
    let ghost all = server_items(rows@, state.selected);
    let mut items: Vec<Line> = Vec::new();
    push_line(&mut items, menu_choice_line(is_at(state.selected, 0), "Close", ""));
    push_line(&mut items, menu_choice_line(is_at(state.selected, 1), "Add", "configure a server"));
    push_line(
        &mut items,
        menu_choice_line(is_at(state.selected, 2), "Add from catalog", "built-in MCPs"),
    );
    let mut i: usize = 0;
    proof {
        assert(line_views(items@) =~= all.take(3));
    }
    while i < rows.len()
        invariant
            i <= rows@.len() <= usize::MAX - 3,
            all == server_items(rows@, state.selected),
            all.len() == rows@.len() + 3,
            items@.len() == i + 3,
            line_views(items@) == all.take(i + 3),
        decreases rows@.len() - i,
    {
        push_line(&mut items, render_server(&rows[i], is_at(state.selected, i + 3)));
        i += 1;
        proof {
            assert(line_views(items@) =~= all.take(i + 3));
        }
    }
    proof {
        assert(all.take(i + 3) =~= all);
    }
    render_menu(menu_title("MCP", None), items, state, width, true)
}

/// The items of the catalogue.
pub open spec fn catalog_items(rows: Seq<McpCatalogRow>, selected: Option<usize>) -> Seq<LineView> {
    Seq::new(
        rows.len() + 1,
        |i: int|
            if i == 0 {
                choice(selected == Some(0usize), "Close"@, ""@)
            } else {
                choice(
                    selected == Some(i as usize),
                    rows[i - 1].name@,
                    rows[i - 1].version@ + " \u{b7} "@ + rows[i - 1].description@,
                )
            },
    )
}

/// The rows of the catalogue.
pub open spec fn catalog_rows(rows: Seq<McpCatalogRow>, list: ListState, width: int) -> Seq<
    LineView,
> {
    let state = list.reconciled(rows.len() as int + 1, VISIBLE_MENU_ITEMS as int);
    full_menu(
        title_line("Add MCP from catalog"@, None),
        catalog_items(rows, state.selected),
        state,
        width,
        false,
    )
}

pub fn mcp_catalog_lines(rows: &[McpCatalogRow], list: &ListState, width: u16) -> (lines: Vec<Line>)
    requires
        rows@.len() < usize::MAX,
    ensures
        line_views(lines@) == catalog_rows(rows@, *list, width as int),
{
    let mut state: ListState = *list;
    state.reconcile(rows.len() + 1, VISIBLE_MENU_ITEMS);
    let ghost all = catalog_items(rows@, state.selected);
    let mut items: Vec<Line> = Vec::new();
    push_line(&mut items, menu_choice_line(is_at(state.selected, 0), "Close", ""));
    let mut i: usize = 0;
    proof {
        assert(line_views(items@) =~= all.take(1));
    }
    while i < rows.len()
        invariant
            i <= rows@.len() < usize::MAX,
            all == catalog_items(rows@, state.selected),
            all.len() == rows@.len() + 1,
            items@.len() == i + 1,
            line_views(items@) == all.take(i + 1),
        decreases rows@.len() - i,
    {
        let detail: String = concat3(
            rows[i].version.as_str(),
            " \u{b7} ",
            rows[i].description.as_str(),
        );
        push_line(
            &mut items,
            menu_choice_line(is_at(state.selected, i + 1), rows[i].name.as_str(), detail.as_str()),
        );
        i += 1;
        proof {
            assert(line_views(items@) =~= all.take(i + 1));
        }
    }
    proof {
        assert(all.take(i + 1) =~= all);
    }
    render_menu(menu_title("Add MCP from catalog", None), items, state, width, false)
}

/// The choices that a server offers.
pub open spec fn server_choices(server: McpServerRow, oauth_connected: bool) -> Seq<
    (Seq<char>, Seq<char>),
> {
    let first = seq![
        ("Close"@, ""@),
        (if server.enabled { "Disable"@ } else { "Enable"@ }, server.status_text@),
        ("Edit"@, "structured fields"@),
        ("Edit JSON"@, "portable definition"@),
        ("View tools"@, "discovered tool schemas"@),
    ];
    let login = if !server.over_http {
        first
    } else if oauth_connected {
        first.push(("Log out OAuth"@, "remove managed credentials"@))
    } else {
        first.push(("Login with OAuth"@, "opens authentication"@))
    };
    let configured = if server.packaged {
        login.push(("Configure package"@, "parameters and secrets"@))
    } else {
        login
    };
    configured.push(("Remove"@, "delete this scope"@))
}

/// The rows of the menu of a server.
pub open spec fn server_rows(server: McpServerRow, selected: int, oauth_connected: bool, width: int) -> Seq<
    LineView,
> {
    let choices = server_choices(server, oauth_connected);
    let state = settled(choices.len() as int, selected, 0, VISIBLE_MENU_ITEMS as int);
    full_menu(
        title_line("MCP server"@, Some(server.name@)),
        choices_of(choices, state.selected).update(
            1,
            status_choice(
                state.selected == Some(1usize),
                choices[1].0,
                server.status,
                server.status_text@,
            ),
        ),
        state,
        width,
        false,
    )
}

pub fn mcp_server_lines(server: &McpServerRow, selected: usize, oauth_connected: bool, width: u16) -> (lines:
    Vec<Line>)
    ensures
        line_views(lines@) == server_rows(
            *server,
            selected as int,
            oauth_connected,
            width as int,
        ),
{
    let toggle: &str = if server.enabled {
        "Disable"
    } else {
        "Enable"
    };
    let mut choices: Vec<(&str, &str)> = Vec::new();
    choices.push(("Close", ""));
    choices.push((toggle, server.status_text.as_str()));
    choices.push(("Edit", "structured fields"));
    choices.push(("Edit JSON", "portable definition"));
    choices.push(("View tools", "discovered tool schemas"));
    if server.over_http {
        if oauth_connected {
            choices.push(("Log out OAuth", "remove managed credentials"));
        } else {
            choices.push(("Login with OAuth", "opens authentication"));
        }
    }
    if server.packaged {
        choices.push(("Configure package", "parameters and secrets"));
    }
    choices.push(("Remove", "delete this scope"));
    proof {
        assert(pair_views(choices@) =~= server_choices(*server, oauth_connected));
    }
    let state = ListState::selectable_at(choices.len(), selected, VISIBLE_MENU_ITEMS);
    let mut items = choice_lines(choices.as_slice(), state.selected);
    let ghost before = line_views(items@);
    let status = menu_choice_line_with_mcp_status(
        is_at(state.selected, 1),
        toggle,
        server.status,
        server.status_text.as_str(),
    );
    proof {
        assert(before.len() == items@.len());
        assert(before.len() == choices@.len());
    }
    items.set(1, status);
    proof {
        assert(line_views(items@) =~= before.update(1, status@));
    }
    render_menu(
        menu_title("MCP server", Some(server.name.as_str())),
        items,
        state,
        width,
        false,
    )
}

/// How a login to a server is made.
#[derive(Debug)]
pub enum McpOAuthPrompt {
    Device { verification_url: String, user_code: String },
    Browser { authorization_url: String },
}

/// How a login to a server is going.
#[derive(Debug)]
pub enum McpOAuthCompletion {
    Waiting,
    Connected,
    Failed(String),
}

/// What the user is told to do.
pub open spec fn login_line(prompt: McpOAuthPrompt) -> LineView {
    let link = Style::of(Role::Accent).underlined_spec();
    match prompt {
        McpOAuthPrompt::Device { verification_url, user_code } => line(
            seq![
                span("  Open "@, Style::plain()),
                span(safe(verification_url@), link),
                span(" and enter "@, Style::plain()),
                span(safe(user_code@), Style::of(Role::Accent)),
                span("."@, Style::plain()),
            ],
        ),
        McpOAuthPrompt::Browser { authorization_url } => line(
            seq![
                span("  Complete authentication at "@, Style::plain()),
                span(safe(authorization_url@), link),
                span("."@, Style::plain()),
            ],
        ),
    }
}

/// A whole row in one style.
pub open spec fn toned_line(text: Seq<char>, role: Role) -> LineView {
    LineView { spans: seq![span(text, Style::plain())], base: Style::of(role) }
}

pub fn toned(text: String, role: Role) -> (row: Line)
    ensures
        row@ == toned_line(text@, role),
{
    let mut row = Line::styled(text, Style::plain());
    row.base = Style::of(role);
    proof {
        assert(row@.spans =~= toned_line(text@, role).spans);
    }
    row
}

/// The rows where the user logs in to a server.
pub open spec fn oauth_rows(label: Seq<char>, prompt: McpOAuthPrompt, completion: McpOAuthCompletion) -> Seq<
    LineView,
> {
    seq![title_line("Configure MCP"@, Some(label)), blank_line()] + (match completion {
        McpOAuthCompletion::Connected => seq![
            toned_line("  "@ + safe(label) + " connected."@, Role::Enabled),
        ],
        McpOAuthCompletion::Waiting => seq![
            login_line(prompt),
            match prompt {
                McpOAuthPrompt::Device { verification_url, user_code } => dim_line(
                    "  This will update automatically a few moments after you sign in."@,
                ),
                McpOAuthPrompt::Browser { authorization_url } => dim_line(
                    "  Waiting for authentication\u{2026}"@,
                ),
            },
        ],
        McpOAuthCompletion::Failed(error) => seq![
            login_line(prompt),
            toned_line("  Authentication failed \u{b7} "@ + safe(error@), Role::Error),
        ],
    }) + seq![blank_line()]
}

fn render_login(prompt: &McpOAuthPrompt) -> (row: Line)
    ensures
        row@ == login_line(*prompt),
{
    let link: Style = Style::of(Role::Accent).underlined();
    let mut row = Line::new();
    match prompt {
        McpOAuthPrompt::Device { verification_url, user_code } => {
            row.push_str("  Open ", Style::plain());
            row.push(terminal_safe(verification_url.as_str()), link);
            row.push_str(" and enter ", Style::plain());
            row.push(terminal_safe(user_code.as_str()), Style::of(Role::Accent));
            row.push_str(".", Style::plain());
        },
        McpOAuthPrompt::Browser { authorization_url } => {
            row.push_str("  Complete authentication at ", Style::plain());
            row.push(terminal_safe(authorization_url.as_str()), link);
            row.push_str(".", Style::plain());
        },
    }
    proof {
        assert(row@.spans =~= login_line(*prompt).spans);
    }
    row
}

pub fn mcp_oauth_lines(label: &str, prompt: &McpOAuthPrompt, completion: &McpOAuthCompletion) -> (lines:
    Vec<Line>)
    ensures
        line_views(lines@) == oauth_rows(label@, *prompt, *completion),
{
    let mut lines: Vec<Line> = Vec::new();
    push_line(&mut lines, menu_title("Configure MCP", Some(label)));
    push_line(&mut lines, Line::new());
    match completion {
        McpOAuthCompletion::Connected => {
            push_line(
                &mut lines,
                toned(
                    concat3("  ", terminal_safe(label).as_str(), " connected."),
                    Role::Enabled,
                ),
            );
        },
        McpOAuthCompletion::Waiting => {
            push_line(&mut lines, render_login(prompt));
            let text: &str = match prompt {
                McpOAuthPrompt::Device { .. } => {
                    "  This will update automatically a few moments after you sign in."
                },
                McpOAuthPrompt::Browser { .. } => "  Waiting for authentication\u{2026}",
            };
            push_line(&mut lines, dimmed_line(text.to_owned()));
        },
        McpOAuthCompletion::Failed(error) => {
            push_line(&mut lines, render_login(prompt));
            push_line(
                &mut lines,
                toned(
                    concat(
                        "  Authentication failed \u{b7} ",
                        terminal_safe(error.as_str()).as_str(),
                    ),
                    Role::Error,
                ),
            );
        },
    }
    push_line(&mut lines, Line::new());
    proof {
        assert(line_views(lines@) =~= oauth_rows(label@, *prompt, *completion));
    }
    lines
}

/// A value with the description of what it is for.
pub open spec fn described(value: Seq<char>, description: Option<String>) -> Seq<char> {
    match description {
        None => value,
        Some(description) => value + " \u{b7} "@ + description@,
    }
}

fn describe(value: &str, description: &Option<String>) -> (text: String)
    ensures
        text@ == described(value@, *description),
{
    match description {
        None => value.to_owned(),
        Some(description) => concat3(value, " \u{b7} ", description.as_str()),
    }
}

/// Whether a secret is set, in words.
pub open spec fn secret_status(secret: McpPackageSecret, update: Option<String>) -> Seq<char> {
    match update {
        Some(value) => if value@.len() > 0 { "Configured"@ } else { "Not configured"@ },
        None => if secret.configured { "Configured"@ } else { "Not configured"@ },
    }
}

/// The value of a parameter, in words.
pub open spec fn parameter_status(value: Option<McpParameterValue>) -> Seq<char> {
    match value {
        Some(value) => shown_value(value@),
        None => "Not set"@,
    }
}

/// An item of the setup of a package.
pub open spec fn setup_choice(draft: McpPackageDraft, index: int) -> (Seq<char>, Seq<char>) {
    let secrets = draft.secrets@.len();
    if index == 0 {
        (
            if draft.installed { "Save changes"@ } else { "Install"@ },
            "apply parameters and managed secrets"@,
        )
    } else if index - 1 < secrets {
        let secret = draft.secrets@[index - 1];
        (
            secret.label@,
            described(
                secret_status(secret, draft.secret_updates@[index - 1]),
                secret.description,
            ),
        )
    } else {
        let parameter = draft.parameters@[index - 1 - secrets];
        (
            parameter.label@,
            described(
                parameter_status(draft.values@[index - 1 - secrets]),
                parameter.description,
            ),
        )
    }
}

/// The items of the setup of a package.
pub open spec fn setup_choices(draft: McpPackageDraft) -> Seq<(Seq<char>, Seq<char>)> {
    Seq::new(
        1 + draft.secrets@.len() + draft.parameters@.len(),
        |i: int| setup_choice(draft, i),
    )
}

/// The rows of the setup of a package.
pub open spec fn setup_rows(draft: McpPackageDraft, selected: int, width: int) -> Seq<LineView> {
    let choices = setup_choices(draft);
    let state = settled(choices.len() as int, selected, 0, VISIBLE_MENU_ITEMS as int);
    short_menu_rows(
        title_line(
            if draft.installed { "Configure MCP package"@ } else { "Install MCP package"@ },
            Some(draft.package_name@),
        ),
        choices,
        state,
        width,
    )
}

/// The lines of some choices.
pub fn text_choice_lines(choices: &[(String, String)], selected: Option<usize>) -> (items: Vec<Line>)
    ensures
        line_views(items@) == choices_of(entry_views(choices@), selected),
        items@.len() == choices@.len(),
{
    let ghost all = choices_of(entry_views(choices@), selected);
    let mut items: Vec<Line> = Vec::new();
    let mut i: usize = 0;
    while i < choices.len()
        invariant
            i <= choices@.len(),
            all == choices_of(entry_views(choices@), selected),
            items@.len() == i,
            line_views(items@) == all.take(i as int),
        decreases choices@.len() - i,
    {
        push_line(
            &mut items,
            menu_choice_line(is_at(selected, i), choices[i].0.as_str(), choices[i].1.as_str()),
        );
        proof {
            assert(entry_views(choices@)[i as int] == (
                choices@[i as int].0@,
                choices@[i as int].1@,
            ));
        }
        i += 1;
        proof {
            assert(line_views(items@) =~= all.take(i as int));
        }
    }
    proof {
        assert(all.take(i as int) =~= all);
    }
    items
}

fn render_setup_choice(draft: &McpPackageDraft, index: usize) -> (pair: (String, String))
    requires
        draft.valid(),
        index < 1 + draft.secrets@.len() + draft.parameters@.len(),
    ensures
        (pair.0@, pair.1@) == setup_choice(*draft, index as int),
{
    let secrets: usize = draft.secrets.len();
    if index == 0 {
        let label: &str = if draft.installed {
            "Save changes"
        } else {
            "Install"
        };
        (label.to_owned(), "apply parameters and managed secrets".to_owned())
    } else if index - 1 < secrets {
        let secret = &draft.secrets[index - 1];
        let configured: bool = match &draft.secret_updates[index - 1] {
            Some(value) => !value.as_str().is_empty(),
            None => secret.configured,
        };
        let status: &str = if configured {
            "Configured"
        } else {
            "Not configured"
        };
        (secret.label.as_str().to_owned(), describe(status, &secret.description))
    } else {
        let at: usize = index - 1 - secrets;
        let parameter = &draft.parameters[at];
        let value: String = match &draft.values[at] {
            Some(value) => value.to_text(),
            None => "Not set".to_owned(),
        };
        (parameter.label.as_str().to_owned(), describe(value.as_str(), &parameter.description))
    }
}

pub fn mcp_package_setup_lines(draft: &McpPackageDraft, selected: usize, width: u16) -> (lines: Vec<
    Line,
>)
    requires
        draft.valid(),
        1 + draft.secrets@.len() + draft.parameters@.len() <= usize::MAX,
    ensures
        line_views(lines@) == setup_rows(*draft, selected as int, width as int),
{
    let count: usize = draft.secrets.len() + draft.parameters.len() + 1;
    let ghost all = setup_choices(*draft);
    let mut choices: Vec<(String, String)> = Vec::new();
    let mut i: usize = 0;
    while i < count
        invariant
            i <= count == all.len(),
            count == 1 + draft.secrets@.len() + draft.parameters@.len(),
            draft.valid(),
            all == setup_choices(*draft),
            entry_views(choices@) == all.take(i as int),
        decreases count - i,
    {
        let ghost before = entry_views(choices@);
        let pair = render_setup_choice(draft, i);
        choices.push(pair);
        proof {
            assert(entry_views(choices@) =~= before.push((pair.0@, pair.1@)));
            assert(all[i as int] == setup_choice(*draft, i as int));
        }
        i += 1;
        proof {
            assert(entry_views(choices@) =~= all.take(i as int));
        }
    }
    proof {
        assert(all.take(i as int) =~= all);
        assert(choices@.len() == entry_views(choices@).len());
    }
    let state = ListState::selectable_at(count, selected, VISIBLE_MENU_ITEMS);
    let items = text_choice_lines(choices.as_slice(), state.selected);
    let title: &str = if draft.installed {
        "Configure MCP package"
    } else {
        "Install MCP package"
    };
    render_menu(
        menu_title(title, Some(draft.package_name.as_str())),
        items,
        state,
        width,
        false,
    )
}

/// The rows where a value of a package is edited. A secret is masked.
pub open spec fn package_value_rows(
    draft: McpPackageDraft,
    field: McpPackageField,
    value: Seq<char>,
    cursor: int,
    width: int,
) -> Seq<LineView> {
    let (label, description) = match field {
        McpPackageField::Parameter(index) => (
            draft.parameters@[index as int].label@,
            draft.parameters@[index as int].description,
        ),
        McpPackageField::Secret(index) => (
            draft.secrets@[index as int].label@,
            draft.secrets@[index as int].description,
        ),
    };
    seq![
        title_line("MCP package value"@, Some(label)),
        blank_line(),
        if field is Secret {
            masked_line("  "@, value, cursor, width)
        } else {
            input_line(
                "  "@,
                InputView::of(value, cursor),
                Seq::empty(),
                less(width, 2),
                Style::plain(),
            )
        },
        description_line(crate::interaction::text_view(description)),
        blank_line(),
    ]
}

pub fn mcp_package_value_lines(
    draft: &McpPackageDraft,
    field: McpPackageField,
    value: &str,
    cursor: usize,
    width: u16,
) -> (lines: Vec<Line>)
    requires
        crate::mcp_package::has_field(*draft, field),
        3 * value@.len() <= usize::MAX,
    ensures
        line_views(lines@) == package_value_rows(
            *draft,
            field,
            value@,
            cursor as int,
            width as int,
        ),
{
    let (label, description, secret): (&str, &Option<String>, bool) = match field {
        McpPackageField::Parameter(index) => (
            draft.parameters[index].label.as_str(),
            &draft.parameters[index].description,
            false,
        ),
        McpPackageField::Secret(index) => (
            draft.secrets[index].label.as_str(),
            &draft.secrets[index].description,
            true,
        ),
    };
    let mut lines: Vec<Line> = Vec::new();
    push_line(&mut lines, menu_title("MCP package value", Some(label)));
    push_line(&mut lines, Line::new());
    if secret {
        push_line(&mut lines, masked_input_line("  ", value, cursor, width));
    } else {
        push_line(
            &mut lines,
            plain_input_line("  ", value, cursor, (width as usize).saturating_sub(2)),
        );
    }
    push_line(&mut lines, package_description_line(description));
    push_line(&mut lines, Line::new());
    proof {
        assert(line_views(lines@) =~= package_value_rows(
            *draft,
            field,
            value@,
            cursor as int,
            width as int,
        ));
    }
    lines
}

/// A tool of a server.
#[derive(Debug)]
pub struct McpToolRow {
    pub name: String,
    pub description: String,
    pub read_only: bool,
}

/// The tools of a server, or why there are none.
#[derive(Debug)]
pub struct McpTools {
    pub server: String,
    pub tools: Vec<McpToolRow>,
    pub list: ListState,
    pub loading: bool,
    pub failure: Option<String>,
}

/// A tool in its list.
pub open spec fn tool_line(tool: McpToolRow, selected: bool) -> LineView {
    let head = seq![
        span(
            (if selected { "\u{203a}"@ } else { " "@ }) + " "@ + tool.name@,
            Style::plain(),
        ),
    ];
    let described = if tool.description@.len() == 0 {
        head
    } else {
        head.push(span("  "@ + tool.description@, Style::of(Role::Dim)))
    };
    line(
        if tool.read_only {
            described.push(span(" \u{b7} read-only"@, Style::of(Role::Dim)))
        } else {
            described
        },
    )
}

fn render_tool(tool: &McpToolRow, selected: bool) -> (row: Line)
    ensures
        row@ == tool_line(*tool, selected),
{
    let pointer: &str = if selected {
        "\u{203a}"
    } else {
        " "
    };
    let mut row = Line::new();
    row.push(concat3(pointer, " ", tool.name.as_str()), Style::plain());
    if !tool.description.as_str().is_empty() {
        row.push(concat("  ", tool.description.as_str()), Style::of(Role::Dim));
    }
    if tool.read_only {
        row.push_str(" \u{b7} read-only", Style::of(Role::Dim));
    }
    proof {
        assert(row@.spans =~= tool_line(*tool, selected).spans);
    }
    row
}

/// The items of the list of tools.
pub open spec fn tool_items(tools: Seq<McpToolRow>, selected: Option<usize>) -> Seq<LineView> {
    Seq::new(tools.len(), |i: int| tool_line(tools[i], selected == Some(i as usize)))
}

/// What stands in for tools that are not there.
pub open spec fn no_tools_line(tools: McpTools) -> LineView {
    dim_line(
        if tools.loading {
            "  Loading tools\u{2026}"@
        } else {
            match tools.failure {
                Some(failure) => "  "@ + failure@,
                None => "  No discovered tools."@,
            }
        },
    )
}

/// The rows of the list of tools.
pub open spec fn tools_rows(tools: McpTools, width: int) -> Seq<LineView> {
    let state = tools.list.reconciled(tools.tools@.len() as int, VISIBLE_MENU_ITEMS as int);
    seq![title_line("MCP tools"@, Some(tools.server@))] + list_rows(
        tool_items(tools.tools@, state.selected),
        seq![no_tools_line(tools)],
        state,
        with_empty_row(VISIBLE_MENU_ITEMS as int),
        width,
        true,
    )
}

pub fn mcp_tools_lines(tools: &McpTools, width: u16) -> (lines: Vec<Line>)
    ensures
        line_views(lines@) == tools_rows(*tools, width as int),
{
    let mut state: ListState = tools.list;
    state.reconcile(tools.tools.len(), VISIBLE_MENU_ITEMS);
    let ghost all = tool_items(tools.tools@, state.selected);
    let mut items: Vec<Line> = Vec::new();
    let mut i: usize = 0;
    while i < tools.tools.len()
        invariant
            i <= tools.tools@.len(),
            all == tool_items(tools.tools@, state.selected),
            items@.len() == i,
            line_views(items@) == all.take(i as int),
        decreases tools.tools@.len() - i,
    {
        push_line(&mut items, render_tool(&tools.tools[i], is_at(state.selected, i)));
        i += 1;
        proof {
            assert(line_views(items@) =~= all.take(i as int));
        }
    }
    let text: String = if tools.loading {
        "  Loading tools\u{2026}".to_owned()
    } else {
        match &tools.failure {
            Some(failure) => concat("  ", failure.as_str()),
            None => "  No discovered tools.".to_owned(),
        }
    };
    let mut empty: Vec<Line> = Vec::new();
    push_line(&mut empty, dimmed_line(text));
    proof {
        assert(all.take(i as int) =~= all);
        assert(line_views(empty@) =~= seq![no_tools_line(*tools)]);
    }
    let mut lines: Vec<Line> = Vec::new();
    push_line(&mut lines, menu_title("MCP tools", Some(tools.server.as_str())));
    let mut widget: ListWidget = ListWidget::new(VISIBLE_MENU_ITEMS);
    widget.empty_rows = 1;
    append_lines(&mut lines, render_list(&items, empty, &state, widget, width, true));
    proof {
        assert(line_views(lines@) =~= tools_rows(*tools, width as int));
    }
    lines
}

/// What becomes visible once a definition is removed.
pub open spec fn revealed_text(overridden: Seq<McpScope>) -> Seq<char> {
    if overridden.len() == 0 {
        "no broader definition will be revealed"@
    } else {
        "reveals "@ + scope_name(overridden[0]) + " definition"@
    }
}

/// The rows where it is asked whether to remove a server.
pub open spec fn remove_rows(server: McpServerRow, selected: int, width: int) -> Seq<LineView> {
    short_menu_rows(
        title_line("Remove MCP server"@, Some(server.name@)),
        seq![("Cancel"@, ""@), ("Remove"@, revealed_text(server.overridden@))],
        settled(2, selected, 0, VISIBLE_MENU_ITEMS as int),
        width,
    )
}

pub fn mcp_remove_lines(server: &McpServerRow, selected: usize, width: u16) -> (lines: Vec<Line>)
    ensures
        line_views(lines@) == remove_rows(*server, selected as int, width as int),
{
    let revealed: String = if server.overridden.len() == 0 {
        "no broader definition will be revealed".to_owned()
    } else {
        concat3("reveals ", scope_text(server.overridden[0]), " definition")
    };
    let choices = [("Cancel", ""), ("Remove", revealed.as_str())];
    proof {
        assert(pair_views(choices@) =~= seq![
            ("Cancel"@, ""@),
            ("Remove"@, revealed_text(server.overridden@)),
        ]);
    }
    let state = ListState::selectable_at(2, selected, VISIBLE_MENU_ITEMS);
    let items = choice_lines(&choices, state.selected);
    render_menu(
        menu_title("Remove MCP server", Some(server.name.as_str())),
        items,
        state,
        width,
        false,
    )
}

/// The rows where the scope of a new server is chosen.
pub open spec fn add_scope_rows(selected: int, width: int) -> Seq<LineView> {
    short_menu_rows(
        title_line("Add MCP"@, Some("scope"@)),
        seq![("Close"@, ""@), ("Global"@, ""@), ("Project"@, ""@)],
        settled(3, selected, 0, VISIBLE_MENU_ITEMS as int),
        width,
    )
}

pub fn mcp_add_scope_lines(selected: usize, width: u16) -> (lines: Vec<Line>)
    ensures
        line_views(lines@) == add_scope_rows(selected as int, width as int),
{
    let choices = [("Close", ""), ("Global", ""), ("Project", "")];
    proof {
        assert(pair_views(choices@) =~= seq![("Close"@, ""@), ("Global"@, ""@), ("Project"@, ""@)]);
    }
    let state = ListState::selectable_at(3, selected, VISIBLE_MENU_ITEMS);
    let items = choice_lines(&choices, state.selected);
    render_menu(menu_title("Add MCP", Some("scope")), items, state, width, false)
}

/// The rows where the transport of a new server is chosen.
pub open spec fn transport_rows(selected: int, width: int) -> Seq<LineView> {
    short_menu_rows(
        title_line("Add MCP"@, Some("transport"@)),
        seq![
            ("Close"@, ""@),
            ("Stdio"@, ""@),
            ("Streamable HTTP"@, ""@),
            ("Import JSON"@, ""@),
        ],
        settled(4, selected, 0, VISIBLE_MENU_ITEMS as int),
        width,
    )
}

pub fn mcp_transport_lines(selected: usize, width: u16) -> (lines: Vec<Line>)
    ensures
        line_views(lines@) == transport_rows(selected as int, width as int),
{
    let choices = [("Close", ""), ("Stdio", ""), ("Streamable HTTP", ""), ("Import JSON", "")];
    proof {
        assert(pair_views(choices@) =~= seq![
            ("Close"@, ""@),
            ("Stdio"@, ""@),
            ("Streamable HTTP"@, ""@),
            ("Import JSON"@, ""@),
        ]);
    }
    let state = ListState::selectable_at(4, selected, VISIBLE_MENU_ITEMS);
    let items = choice_lines(&choices, state.selected);
    render_menu(menu_title("Add MCP", Some("transport")), items, state, width, false)
}

/// The rows of the form of a server.
pub open spec fn mcp_form_surface(
    draft: McpFormDraft,
    list: ListState,
    width: int,
) -> Seq<LineView> {
    let choices = form_rows(draft).map_values(
        |row: (Seq<char>, Seq<char>)| form_choice(row, width),
    );
    short_menu_rows(
        title_line(
            if draft.original is Some { "Edit MCP server"@ } else { "Add MCP server"@ },
            Some(draft.name@),
        ),
        choices,
        list.reconciled(form_maximum(draft.definition) + 1, VISIBLE_MENU_ITEMS as int),
        width,
    )
}

pub fn mcp_form_lines(draft: &McpFormDraft, list: &ListState, width: u16) -> (lines: Vec<Line>)
    ensures
        line_views(lines@) == mcp_form_surface(*draft, *list, width as int),
{
    let choices = mcp_form_choices(draft, width);
    let mut state: ListState = *list;
    state.reconcile(choices.len(), VISIBLE_MENU_ITEMS);
    let items = text_choice_lines(choices.as_slice(), state.selected);
    let title: &str = if draft.original.is_some() {
        "Edit MCP server"
    } else {
        "Add MCP server"
    };
    render_menu(menu_title(title, Some(draft.name.as_str())), items, state, width, false)
}

/// The rows where a field of a server is edited. `tokens` are those of its JSON.
pub open spec fn mcp_field_rows(
    field: McpFormField,
    value: Seq<char>,
    cursor: int,
    tokens: Seq<CodeToken>,
    width: int,
) -> Seq<LineView> {
    seq![
        title_line("MCP field"@, Some(field_label(field))),
        blank_line(),
        input_line("  "@, InputView::of(value, cursor), tokens, less(width, 2), Style::plain()),
        blank_line(),
    ]
}

pub fn mcp_field_lines(
    field: McpFormField,
    value: &str,
    cursor: usize,
    tokens: &[CodeToken],
    width: u16,
) -> (lines: Vec<Line>)
    ensures
        line_views(lines@) == mcp_field_rows(
            field,
            value@,
            cursor as int,
            tokens@,
            width as int,
        ),
{
    let mut lines: Vec<Line> = Vec::new();
    push_line(&mut lines, menu_title("MCP field", Some(mcp_field_label(field))));
    push_line(&mut lines, Line::new());
    push_line(
        &mut lines,
        render_input_line(
            "  ",
            &SingleLineInput::new(value.to_owned(), cursor),
            tokens,
            (width as usize).saturating_sub(2),
            Style::plain(),
        ),
    );
    push_line(&mut lines, Line::new());
    proof {
        assert(line_views(lines@) =~= mcp_field_rows(
            field,
            value@,
            cursor as int,
            tokens@,
            width as int,
        ));
    }
    lines
}

/// The rows where a definition is edited as JSON.
pub open spec fn mcp_json_rows(
    editor: InputView,
    tokens: Seq<CodeToken>,
    width: int,
    viewport_rows: int,
) -> Seq<LineView> {
    at_most(
        seq![title_line("MCP JSON"@, None)] + scrolled_rows(
            editor,
            tokens,
            width,
            editor_capacity(viewport_rows),
            None,
        ),
        viewport_rows,
    )
}

pub fn mcp_json_lines(editor: &MultilineInput, tokens: &[CodeToken], width: u16, viewport_rows: usize) -> (lines:
    Vec<Line>)
    ensures
        line_views(lines@) == mcp_json_rows(editor@, tokens@, width as int, viewport_rows as int),
{
    let layout = editor.render_scrolled(
        tokens,
        width,
        multiline_content_capacity(viewport_rows),
        None,
    );
    let mut lines: Vec<Line> = Vec::new();
    push_line(&mut lines, menu_title("MCP JSON", None));
    append_lines(&mut lines, layout.lines);
    let ghost all = line_views(lines@);
    proof {
        assert(all =~= seq![title_line("MCP JSON"@, None)] + scrolled_rows(
            editor@,
            tokens@,
            width as int,
            editor_capacity(viewport_rows as int),
            None,
        ));
    }
    lines.truncate(viewport_rows);
    proof {
        assert(line_views(lines@) =~= at_most(all, viewport_rows as int));
    }
    lines
}

/// What a change of the definitions would do.
#[derive(Debug)]
pub struct McpMutationPreview {
    pub requires_confirmation: bool,
    pub affected: Vec<String>,
    pub revealed: Vec<(String, McpScope)>,
    pub touched_agent_policies: Vec<String>,
    pub touched_permission_rules: Vec<String>,
}

/// Rows that say the same of some names.
pub open spec fn named_rows(prefix: Seq<char>, names: Seq<String>) -> Seq<LineView> {
    Seq::new(names.len(), |i: int| dim_line(prefix + names[i]@))
}

/// Rows that name what becomes visible.
pub open spec fn revealed_rows(revealed: Seq<(String, McpScope)>) -> Seq<LineView> {
    Seq::new(
        revealed.len(),
        |i: int|
            dim_line("  reveals "@ + revealed[i].0@ + " at "@ + scope_name(revealed[i].1)),
    )
}

/// The rows that say what a change would do.
pub open spec fn mutation_details(preview: McpMutationPreview) -> Seq<LineView> {
    named_rows("  affects "@, preview.affected@) + revealed_rows(preview.revealed@) + named_rows(
        "  rewrites "@,
        preview.touched_agent_policies@,
    ) + named_rows("  rewrites "@, preview.touched_permission_rules@)
}

fn push_named(lines: &mut Vec<Line>, prefix: &str, names: &[String])
    ensures
        line_views(final(lines)@) == line_views(old(lines)@) + named_rows(prefix@, names@),
{
    let ghost before = line_views(lines@);
    let ghost all = named_rows(prefix@, names@);
    let mut i: usize = 0;
    proof {
        assert(before =~= before + all.take(0));
    }
    while i < names.len()
        invariant
            i <= names@.len(),
            all == named_rows(prefix@, names@),
            line_views(lines@) == before + all.take(i as int),
        decreases names@.len() - i,
    {
        push_line(lines, dimmed_line(concat(prefix, names[i].as_str())));
        i += 1;
        proof {
            assert(line_views(lines@) =~= before + all.take(i as int));
        }
    }
    proof {
        assert(all.take(i as int) =~= all);
    }
}

pub fn mcp_mutation_detail_lines(preview: &McpMutationPreview) -> (lines: Vec<Line>)
    ensures
        line_views(lines@) == mutation_details(*preview),
{
    let mut lines: Vec<Line> = Vec::new();
    push_named(&mut lines, "  affects ", preview.affected.as_slice());
    let ghost before = line_views(lines@);
    let ghost all = revealed_rows(preview.revealed@);
    let mut i: usize = 0;
    proof {
        assert(before =~= before + all.take(0));
    }
    while i < preview.revealed.len()
        invariant
            i <= preview.revealed@.len(),
            all == revealed_rows(preview.revealed@),
            line_views(lines@) == before + all.take(i as int),
        decreases preview.revealed@.len() - i,
    {
        let head: String = concat3("  reveals ", preview.revealed[i].0.as_str(), " at ");
        push_line(
            &mut lines,
            dimmed_line(concat(head.as_str(), scope_text(preview.revealed[i].1))),
        );
        i += 1;
        proof {
            assert(line_views(lines@) =~= before + all.take(i as int));
        }
    }
    proof {
        assert(all.take(i as int) =~= all);
    }
    push_named(&mut lines, "  rewrites ", preview.touched_agent_policies.as_slice());
    push_named(&mut lines, "  rewrites ", preview.touched_permission_rules.as_slice());
    proof {
        assert(line_views(lines@) =~= mutation_details(*preview));
    }
    lines
}

/// The menu above the details of a change.
pub open spec fn mutation_menu(preview: McpMutationPreview, list: ListState, width: int) -> Seq<
    LineView,
> {
    short_menu_rows(
        title_line("MCP change preview"@, None),
        seq![
            ("Cancel"@, ""@),
            (
                "Apply"@,
                if preview.requires_confirmation {
                    "confirms replacements"@
                } else {
                    "commit atomically"@
                },
            ),
        ],
        list.reconciled(2, VISIBLE_MENU_ITEMS as int),
        width,
    )
}

/// The rows that are there for the details below `above` other rows.
pub open spec fn detail_capacity(above: int, viewport_rows: int) -> int {
    min(less(viewport_rows, above + 2), VISIBLE_HELP_ITEMS as int)
}

/// The rows where a change is to be confirmed.
pub open spec fn mutation_rows(
    preview: McpMutationPreview,
    list: ListState,
    details: ScrollViewState,
    width: int,
    viewport_rows: int,
) -> Seq<LineView> {
    let menu = mutation_menu(preview, list, width);
    let all = mutation_details(preview);
    let capacity = detail_capacity(menu.len() as int, viewport_rows);
    let state = details.reconciled(all.len() as int, capacity);
    menu + ScrollViewWidget::of(capacity).lines_spec(
        state,
        all.subrange(state.offset as int, state.visible_end_spec(capacity)),
    )
}

/// The rows from `start` to `end`.
pub fn copy_rows(rows: &[Line], start: usize, end: usize) -> (part: Vec<Line>)
    requires
        start <= end <= rows@.len(),
    ensures
        line_views(part@) == line_views(rows@).subrange(start as int, end as int),
        part@.len() == end - start,
{
    let mut part: Vec<Line> = Vec::new();
    let ghost all = line_views(rows@).subrange(start as int, end as int);
    let mut i: usize = start;
    while i < end
        invariant
            start <= i <= end <= rows@.len(),
            all == line_views(rows@).subrange(start as int, end as int),
            part@.len() == i - start,
            line_views(part@) == all.take(i - start),
        decreases end - i,
    {
        push_line(&mut part, rows[i].copy());
        i += 1;
        proof {
            assert(line_views(part@) =~= all.take(i - start));
        }
    }
    proof {
        assert(all.take(i - start) =~= all);
    }
    part
}

/// Renders the menu above the details of a change.
pub fn mutation_menu_lines(preview: &McpMutationPreview, list: &ListState, width: u16) -> (lines:
    Vec<Line>)
    ensures
        line_views(lines@) == mutation_menu(*preview, *list, width as int),
{
    let apply: &str = if preview.requires_confirmation {
        "confirms replacements"
    } else {
        "commit atomically"
    };
    let choices = [("Cancel", ""), ("Apply", apply)];
    let mut state: ListState = *list;
    state.reconcile(2, VISIBLE_MENU_ITEMS);
    proof {
        assert(pair_views(choices@) =~= seq![("Cancel"@, ""@), ("Apply"@, apply@)]);
    }
    let items = choice_lines(&choices, state.selected);
    render_menu(
        menu_title("MCP change preview", None),
        items,
        state,
        width,
        false,
    )
}

pub fn mcp_mutation_lines(
    preview: &McpMutationPreview,
    list: &ListState,
    details: &ScrollViewState,
    width: u16,
    viewport_rows: usize,
) -> (lines: Vec<Line>)
    ensures
        line_views(lines@) == mutation_rows(
            *preview,
            *list,
            *details,
            width as int,
            viewport_rows as int,
        ),
{
    let mut lines = mutation_menu_lines(preview, list, width);
    proof {
        assert(lines@.len() == line_views(lines@).len());
    }
    let all = mcp_mutation_detail_lines(preview);
    let room: usize = viewport_rows.saturating_sub(lines.len().saturating_add(2));
    let capacity: usize = if room <= VISIBLE_HELP_ITEMS {
        room
    } else {
        VISIBLE_HELP_ITEMS
    };
    let mut window: ScrollViewState = *details;
    window.reconcile(all.len(), capacity);
    proof {
        assert(all@.len() == line_views(all@).len());
    }
    let range = window.visible_range(capacity);
    let shown = copy_rows(all.as_slice(), range.0, range.1);
    append_lines(&mut lines, ScrollViewWidget::new(capacity).render(&window, shown).lines);
    lines
}

} // verus!
