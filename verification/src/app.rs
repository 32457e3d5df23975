//! The stack of open surfaces, and what opens, refreshes and closes them.

use vstd::prelude::*;
use vstd::string::*;
use crate::agents::{agent_edit_list, ProfileKind, ProfileRow, SkillRow, SkillWizard};
use crate::choices::TextSet;
use crate::completion::{before_cursor, completion_token, path_prefix, token_index, CompletionStep};
use crate::control::copy_text;
use crate::interaction::{given, given_note, text_view, Permission, PlanCompletion, Question};
use crate::list::{settled, VISIBLE_MENU_ITEMS, ListState};
use crate::mcp::McpScope;
use crate::menu::same_text;
use crate::pickers::{
    conversation_indices, conversation_picker_indexes, history_list, indices_valid, next_selectable,
    visible_position, ConversationRow, Conversations, HistoryRow, HistoryTree, TreePurpose,
};
use crate::providers::{AuthFlow, ModelRow, Models, ProviderRow, ProviderSetup, Providers};
use crate::render::{concat, concat3};
use crate::render_mcp::{McpRuntimeStatus, McpServerRow, McpToolRow, McpTools};
use crate::render_menus::PathRow;
use crate::settings::{item_capacity, SettingRow, Settings};
use crate::status_line::{StatusLineEditor, StatusLineEditorMode};
use crate::supervised_work::{
    listed_work, shown_work, visible_work, BackgroundSurface, SupervisedWorkState,
};
use crate::surface::Surface;
use crate::text::{is_boundary, offset};

verus! {

/// Something that is to be done once the surfaces are drawn.
#[derive(Clone, Copy, Debug, PartialEq, Eq, Structural)]
pub enum AppAction {
    LoadHistory(TreePurpose),
}

/// A look at an earlier message; the conversation as it was before is kept by its
/// revision.
#[derive(Clone, Copy, Debug, PartialEq, Eq, Structural)]
pub struct HistoryPreviewState {
    pub latest_live: u64,
}

/// The open surfaces, and what they depend on.
#[derive(Debug)]
pub struct App {
    pub surfaces: Vec<Surface>,
    pub observer: bool,
    pub onboarding: bool,
    pub supervised_work: SupervisedWorkState,
    pub history_preview: Option<HistoryPreviewState>,
    pub observer_command: String,
    pub pending_action: Option<AppAction>,
    /// The provider and the model in use, as `provider/model`.
    pub provider_model: String,
    pub effort: Option<String>,
    pub notice: Option<String>,
    /// The providers that are enabled.
    pub enabled_providers: TextSet,
    /// The request that waits for its surface to be opened.
    pub pending_interaction: Option<u128>,
    /// The row of a picker that was clicked last, for the next click to act on.
    pub last_picker_click: Option<usize>,
}

/// Nothing but the surfaces differs.
pub open spec fn same_but_surfaces(left: App, right: App) -> bool {
    &&& left.observer == right.observer
    &&& left.onboarding == right.onboarding
    &&& left.supervised_work == right.supervised_work
    &&& left.history_preview == right.history_preview
    &&& left.observer_command == right.observer_command
    &&& left.pending_action == right.pending_action
    &&& left.provider_model == right.provider_model
    &&& left.effort == right.effort
    &&& left.notice == right.notice
    &&& left.enabled_providers == right.enabled_providers
    &&& left.pending_interaction == right.pending_interaction
    &&& left.last_picker_click == right.last_picker_click
}

/// Whether the look at an earlier message ends, if there is one, and `live` is the
/// conversation to be shown again. The command of an observer is then empty.
pub open spec fn leaves_preview(before: App, after: App, live: Option<u64>) -> bool {
    match before.history_preview {
        None => live is None && after == before,
        Some(preview) => {
            &&& live == Some(preview.latest_live)
            &&& after.observer_command@.len() == 0
            &&& after == (App {
                history_preview: None,
                observer_command: after.observer_command,
                ..before
            })
        },
    }
}

/// Whether the list of providers is opened, from its start.
pub open spec fn opens_providers(before: App, after: App, rows: Vec<ProviderRow>, follows: bool)
    -> bool {
    &&& same_but_surfaces(before, after)
    &&& after.surfaces@.len() == before.surfaces@.len() + 1
    &&& after.surfaces@.drop_last() == before.surfaces@
    &&& after.surfaces@.last() matches Surface::Providers(providers) && {
        &&& providers.rows == rows
        &&& providers.list == settled(rows@.len() as int + 1, 0, 0, 1)
        &&& providers.query@.len() == 0
        &&& providers.query_cursor == 0
        &&& providers.model_configuration_follows == follows
    }
}

/// Whether a surface is a tree of messages.
pub open spec fn is_tree(surface: Surface) -> bool {
    surface is HistoryTree
}

/// What the topmost tree of messages is for.
pub open spec fn tree_purpose(surfaces: Seq<Surface>) -> Option<TreePurpose>
    decreases surfaces.len(),
{
    if surfaces.len() == 0 {
        None
    } else {
        match surfaces.last() {
            Surface::HistoryTree(tree) => Some(tree.purpose),
            _ => tree_purpose(surfaces.drop_last()),
        }
    }
}

/// The surfaces that are no trees of messages.
pub open spec fn without_trees(surfaces: Seq<Surface>) -> Seq<Surface>
    decreases surfaces.len(),
{
    if surfaces.len() == 0 {
        Seq::empty()
    } else if is_tree(surfaces.last()) {
        without_trees(surfaces.drop_last())
    } else {
        without_trees(surfaces.drop_last()).push(surfaces.last())
    }
}

/// Once the trees are closed none is open.
pub proof fn law_closed_trees_are_gone(surfaces: Seq<Surface>)
    ensures
        tree_purpose(without_trees(surfaces)) is None,
        without_trees(without_trees(surfaces)) == without_trees(surfaces),
    decreases surfaces.len(),
{
    if surfaces.len() > 0 {
        law_closed_trees_are_gone(surfaces.drop_last());
        if !is_tree(surfaces.last()) {
            let rest = without_trees(surfaces.drop_last());
            assert(rest.push(surfaces.last()).drop_last() =~= rest);
        }
    }
}

/// The login of a provider.
#[derive(Debug)]
pub enum AuthState {
    Connected,
    Available,
    Error { message: String },
    Expired { detail: String },
    Missing,
}

/// A provider and its login.
#[derive(Debug)]
pub struct ProviderAvailability {
    pub id: String,
    pub auth: AuthState,
}

/// The index of a provider, or the number of providers.
pub open spec fn provider_index(providers: Seq<ProviderAvailability>, id: Seq<char>) -> int
    decreases providers.len(),
{
    if providers.len() == 0 {
        0
    } else if providers[0].id@ == id {
        0
    } else {
        1 + provider_index(providers.drop_first(), id)
    }
}

fn find_provider(providers: &[ProviderAvailability], id: &str) -> (at: Option<usize>)
    ensures
        match at {
            Some(at) => at == provider_index(providers@, id@) && at < providers@.len(),
            None => provider_index(providers@, id@) == providers@.len(),
        },
{
    let mut i: usize = 0;
    proof {
        assert(providers@.skip(0) =~= providers@);
    }
    while i < providers.len()
        invariant
            i <= providers@.len(),
            provider_index(providers@, id@) == i + provider_index(providers@.skip(i as int), id@),
        decreases providers@.len() - i,
    {
        if same_text(providers[i].id.as_str(), id) {
            return Some(i);
        }
        proof {
            assert(providers@.skip(i as int).drop_first() =~= providers@.skip(i + 1));
        }
        i += 1;
    }
    None
}

/// What is said once the login of a provider changed, if anything.
pub open spec fn auth_notice(provider: Seq<char>, auth: AuthState) -> Option<Seq<char>> {
    match auth {
        AuthState::Connected | AuthState::Available => Some(provider + " connected"@),
        AuthState::Error { message } => Some(message@),
        AuthState::Expired { detail } => Some(
            provider + " authentication expired \u{b7} "@ + detail@,
        ),
        AuthState::Missing => None,
    }
}

/// Whether a login works.
pub open spec fn is_authenticated(auth: AuthState) -> bool {
    auth is Connected || auth is Available
}

/// A provider that is set up, once its login changed.
pub open spec fn setup_updated(
    before: ProviderSetup,
    after: ProviderSetup,
    auth: AuthState,
) -> bool {
    &&& after.provider_id == before.provider_id
    &&& after.provider == before.provider
    &&& after.credential_environment_variable == before.credential_environment_variable
    &&& after.managed_auth == before.managed_auth
    &&& after.api_key_auth == before.api_key_auth
    &&& after.api_key == before.api_key
    &&& after.api_key_cursor == before.api_key_cursor
    &&& after.auth_flows == before.auth_flows
    &&& after.auth_challenge is None
    &&& after.authenticated == is_authenticated(auth)
    &&& if is_authenticated(auth) {
        after.instructions@ == before.provider@ + " connected."@
    } else {
        after.instructions == before.instructions
    }
}

/// A surface, once the logins of the providers changed.
pub open spec fn surface_updated(
    before: Surface,
    after: Surface,
    providers: Seq<ProviderAvailability>,
    rows: Seq<ProviderRow>,
) -> bool {
    match before {
        Surface::Providers(listed) => after matches Surface::Providers(list) && same_rows(
            list.rows@,
            rows,
        ) && list.list == listed.list && list.query == listed.query && list.query_cursor
            == listed.query_cursor && list.model_configuration_follows
            == listed.model_configuration_follows,
        Surface::ProviderSetup(setup) => {
            let at = provider_index(providers, setup.provider_id@);
            if setup.managed_auth && at < providers.len() {
                after matches Surface::ProviderSetup(updated) && setup_updated(
                    setup,
                    updated,
                    providers[at].auth,
                )
            } else {
                after == before
            }
        },
        _ => after == before,
    }
}

/// Two rows say the same of a provider.
pub open spec fn same_row(left: ProviderRow, right: ProviderRow) -> bool {
    &&& left.id == right.id
    &&& left.label == right.label
    &&& left.status == right.status
    &&& left.enabled == right.enabled
    &&& left.managed_auth == right.managed_auth
    &&& left.api_key_auth == right.api_key_auth
    &&& left.has_managed_api_key == right.has_managed_api_key
    &&& left.setup_instructions == right.setup_instructions
    &&& left.configuration_instructions == right.configuration_instructions
    &&& left.credential_environment_variable == right.credential_environment_variable
    &&& left.auth_flows@ == right.auth_flows@
}

pub open spec fn same_rows(left: Seq<ProviderRow>, right: Seq<ProviderRow>) -> bool {
    left.len() == right.len() && forall|i: int|
        0 <= i < left.len() ==> same_row(#[trigger] left[i], right[i])
}

pub fn copy_provider(row: &ProviderRow) -> (copy: ProviderRow)
    ensures
        same_row(copy, *row),
{
    let mut auth_flows: Vec<AuthFlow> = Vec::new();
    let mut i: usize = 0;
    while i < row.auth_flows.len()
        invariant
            i <= row.auth_flows@.len(),
            auth_flows@ == row.auth_flows@.take(i as int),
        decreases row.auth_flows@.len() - i,
    {
        auth_flows.push(row.auth_flows[i]);
        i += 1;
        proof {
            assert(auth_flows@ =~= row.auth_flows@.take(i as int));
        }
    }
    proof {
        assert(row.auth_flows@.take(i as int) =~= row.auth_flows@);
    }
    ProviderRow {
        id: row.id.clone(),
        label: row.label.clone(),
        status: row.status.clone(),
        enabled: row.enabled,
        managed_auth: row.managed_auth,
        api_key_auth: row.api_key_auth,
        has_managed_api_key: row.has_managed_api_key,
        setup_instructions: copy_text(&row.setup_instructions),
        configuration_instructions: row.configuration_instructions.clone(),
        credential_environment_variable: copy_text(&row.credential_environment_variable),
        auth_flows,
    }
}

fn copy_providers(rows: &[ProviderRow]) -> (copies: Vec<ProviderRow>)
    ensures
        same_rows(copies@, rows@),
{
    let mut copies: Vec<ProviderRow> = Vec::new();
    let mut i: usize = 0;
    while i < rows.len()
        invariant
            i <= rows@.len(),
            copies@.len() == i,
            forall|k: int| 0 <= k < i ==> same_row(#[trigger] copies@[k], rows@[k]),
        decreases rows@.len() - i,
    {
        copies.push(copy_provider(&rows[i]));
        i += 1;
    }
    copies
}

/// The notice that the first `count` surfaces leave, if any: the last one counts.
pub open spec fn notice_after(
    surfaces: Seq<Surface>,
    providers: Seq<ProviderAvailability>,
    count: int,
) -> Option<Seq<char>>
    decreases count,
{
    if count <= 0 {
        None
    } else {
        let before = notice_after(surfaces, providers, count - 1);
        match surfaces[count - 1] {
            Surface::ProviderSetup(setup) => {
                let at = provider_index(providers, setup.provider_id@);
                if setup.managed_auth && at < providers.len() {
                    match auth_notice(setup.provider@, providers[at].auth) {
                        Some(notice) => Some(notice),
                        None => before,
                    }
                } else {
                    before
                }
            },
            _ => before,
        }
    }
}

fn update_setup(setup: &mut ProviderSetup, auth: &AuthState) -> (notice: Option<String>)
    ensures
        setup_updated(*old(setup), *final(setup), *auth),
        text_view(notice) == auth_notice(old(setup).provider@, *auth),
{
    setup.auth_challenge = None;
    match auth {
        AuthState::Connected => {
            setup.authenticated = true;
            setup.instructions = concat(setup.provider.as_str(), " connected.");
            Some(concat(setup.provider.as_str(), " connected"))
        },
        AuthState::Available => {
            setup.authenticated = true;
            setup.instructions = concat(setup.provider.as_str(), " connected.");
            Some(concat(setup.provider.as_str(), " connected"))
        },
        AuthState::Error { message } => {
            setup.authenticated = false;
            Some(message.clone())
        },
        AuthState::Expired { detail } => {
            setup.authenticated = false;
            Some(
                concat3(
                    setup.provider.as_str(),
                    " authentication expired \u{b7} ",
                    detail.as_str(),
                ),
            )
        },
        AuthState::Missing => {
            setup.authenticated = false;
            None
        },
    }
}

/// What a model is chosen for.
#[derive(Clone, Copy, Debug, PartialEq, Eq, Structural)]
pub enum ModelSelectionTarget {
    Conversation,
    Mode,
    Setting,
}

/// What is left to do for a model that was chosen.
#[derive(Debug)]
pub enum ModelSelectionStep {
    /// An observer chooses nothing.
    Nothing,
    /// The model was noted for a mode.
    ModeSaved,
    /// A setting takes this value.
    SaveSetting(String),
    /// The conversation goes on with the model.
    ChangeModel,
}

/// What is to be done once the providers are closed.
#[derive(Clone, Copy, Debug, PartialEq, Eq, Structural)]
pub enum ProviderCloseStep {
    Nothing,
    /// The provider in use is gone: another model takes over.
    ReplaceModel,
    /// No model is in use yet: one is to be chosen.
    ChooseModel,
}

/// What closing a surface asks for.
#[derive(Debug)]
pub enum CloseStep {
    Nothing,
    CancelQuestion(Question),
    /// A permission is denied, for a reason if one was given; the surface comes back
    /// if that fails.
    DenyPermission { surface: Surface, reason: Option<String> },
    /// Planning goes on; the surface comes back if that cannot be said.
    KeepPlanning(Surface),
    DismissOnboarding,
    OpenAgents,
    OpenSkills,
    ReconcileProviders,
    CancelProviderAuth(String),
    RefreshMcpServer,
    /// The status line is saved; the editor comes back if that fails.
    SaveStatusLine(StatusLineEditor),
}

/// The name of the server that is open on top.
pub open spec fn open_server(surfaces: Seq<Surface>) -> Option<Seq<char>>
    decreases surfaces.len(),
{
    if surfaces.len() == 0 {
        None
    } else {
        match surfaces.last() {
            Surface::McpOAuth { server, label, prompt, completion } => Some(server@),
            Surface::McpServer { server, selected, oauth_connected } => Some(server.name@),
            _ => open_server(surfaces.drop_last()),
        }
    }
}

/// The index of a conversation among those that are shown, or how many are shown.
pub open spec fn conversation_position(
    rows: Seq<ConversationRow>,
    visible: Seq<usize>,
    id: u128,
) -> int
    decreases visible.len(),
{
    if visible.len() == 0 {
        0
    } else if rows[visible[0] as int].id == id {
        0
    } else {
        1 + conversation_position(rows, visible.drop_first(), id)
    }
}

/// The conversation that is selected, if there is one.
pub open spec fn selected_conversation(picker: Conversations) -> Option<u128> {
    let visible = conversation_indices(picker.rows@, picker.query@);
    match picker.list.selected {
        Some(at) => if at < visible.len() {
            Some(picker.rows@[visible[at as int] as int].id)
        } else {
            None
        },
        None => None,
    }
}

/// The position of a message, or the number of messages.
pub open spec fn message_position(rows: Seq<HistoryRow>, id: u128) -> int
    decreases rows.len(),
{
    if rows.len() == 0 {
        0
    } else if rows[0].id == id {
        0
    } else {
        1 + message_position(rows.drop_first(), id)
    }
}

/// The message that is selected, if there is one.
pub open spec fn selected_message(tree: HistoryTree, visible: Seq<usize>) -> Option<u128> {
    match tree.list.selected {
        Some(at) => if at < visible.len() && visible[at as int] < tree.rows@.len() {
            Some(tree.rows@[visible[at as int] as int].id)
        } else {
            None
        },
        None => None,
    }
}

/// The topmost tree for a purpose, or none.
pub open spec fn tree_index(surfaces: Seq<Surface>, purpose: TreePurpose) -> Option<int>
    decreases surfaces.len(),
{
    if surfaces.len() == 0 {
        None
    } else {
        let last = surfaces.len() - 1;
        match surfaces.last() {
            Surface::HistoryTree(tree) => if tree.purpose == purpose {
                Some(last)
            } else {
                tree_index(surfaces.drop_last(), purpose)
            },
            _ => tree_index(surfaces.drop_last(), purpose),
        }
    }
}

/// Where the selection goes when the messages are read anew: it stays with its
/// message, if that is still there.
pub open spec fn message_selected(rows: Seq<HistoryRow>, id: Option<u128>, otherwise: int) -> int {
    match id {
        Some(id) => if message_position(rows, id) < rows.len() {
            message_position(rows, id)
        } else {
            otherwise
        },
        None => otherwise,
    }
}

fn find_message(rows: &[HistoryRow], id: u128) -> (at: Option<usize>)
    ensures
        match at {
            Some(at) => at == message_position(rows@, id) && at < rows@.len(),
            None => message_position(rows@, id) == rows@.len(),
        },
{
    let mut i: usize = 0;
    proof {
        assert(rows@.skip(0) =~= rows@);
    }
    while i < rows.len()
        invariant
            i <= rows@.len(),
            message_position(rows@, id) == i + message_position(rows@.skip(i as int), id),
        decreases rows@.len() - i,
    {
        if rows[i].id == id {
            return Some(i);
        }
        proof {
            assert(rows@.skip(i as int).drop_first() =~= rows@.skip(i + 1));
        }
        i += 1;
    }
    None
}

pub fn find_conversation(rows: &[ConversationRow], visible: &[usize], id: u128) -> (at: Option<usize>)
    requires
        forall|k: int| 0 <= k < visible@.len() ==> #[trigger] visible@[k] < rows@.len(),
    ensures
        match at {
            Some(at) => at == conversation_position(rows@, visible@, id) && at < visible@.len(),
            None => conversation_position(rows@, visible@, id) == visible@.len(),
        },
{
    let mut i: usize = 0;
    proof {
        assert(visible@.skip(0) =~= visible@);
    }
    while i < visible.len()
        invariant
            i <= visible@.len(),
            forall|k: int| 0 <= k < visible@.len() ==> #[trigger] visible@[k] < rows@.len(),
            conversation_position(rows@, visible@, id) == i + conversation_position(
                rows@,
                visible@.skip(i as int),
                id,
            ),
        decreases visible@.len() - i,
    {
        if rows[visible[i]].id == id {
            return Some(i);
        }
        proof {
            assert(visible@.skip(i as int).drop_first() =~= visible@.skip(i + 1));
        }
        i += 1;
    }
    None
}

/// What is said where the tools of a server cannot be listed.
pub open spec fn tools_failure(status: McpRuntimeStatus, message: Seq<char>) -> Option<Seq<char>> {
    match status {
        McpRuntimeStatus::Failed => Some(message),
        McpRuntimeStatus::AuthenticationRequired => Some(
            "Login required \u{b7} choose Login with OAuth in the server menu"@,
        ),
        _ => None,
    }
}

/// Whether a server is still being started.
pub open spec fn is_starting(status: McpRuntimeStatus) -> bool {
    status == McpRuntimeStatus::Starting || status == McpRuntimeStatus::NotStarted
}

/// Two rows say the same of a server.
pub open spec fn same_server(left: McpServerRow, right: McpServerRow) -> bool {
    &&& left.name == right.name
    &&& left.agents@ == right.agents@
    &&& left.scope == right.scope
    &&& left.status == right.status
    &&& left.status_text == right.status_text
    &&& left.overridden@ == right.overridden@
    &&& left.enabled == right.enabled
    &&& left.over_http == right.over_http
    &&& left.packaged == right.packaged
}

pub fn copy_server(row: &McpServerRow) -> (copy: McpServerRow)
    ensures
        same_server(copy, *row),
{
    let mut agents: Vec<String> = Vec::new();
    let mut i: usize = 0;
    while i < row.agents.len()
        invariant
            i <= row.agents@.len(),
            agents@ == row.agents@.take(i as int),
        decreases row.agents@.len() - i,
    {
        agents.push(row.agents[i].clone());
        i += 1;
        proof {
            assert(agents@ =~= row.agents@.take(i as int));
        }
    }
    proof {
        assert(row.agents@.take(i as int) =~= row.agents@);
    }
    let mut overridden: Vec<McpScope> = Vec::new();
    let mut k: usize = 0;
    while k < row.overridden.len()
        invariant
            k <= row.overridden@.len(),
            overridden@ == row.overridden@.take(k as int),
        decreases row.overridden@.len() - k,
    {
        overridden.push(row.overridden[k]);
        k += 1;
        proof {
            assert(overridden@ =~= row.overridden@.take(k as int));
        }
    }
    proof {
        assert(row.overridden@.take(k as int) =~= row.overridden@);
    }
    McpServerRow {
        name: row.name.clone(),
        agents,
        scope: row.scope,
        status: row.status,
        status_text: row.status_text.clone(),
        overridden,
        enabled: row.enabled,
        over_http: row.over_http,
        packaged: row.packaged,
    }
}

/// The index of a server, or the number of servers.
pub open spec fn server_index(rows: Seq<McpServerRow>, name: Seq<char>) -> int
    decreases rows.len(),
{
    if rows.len() == 0 {
        0
    } else if rows[0].name@ == name {
        0
    } else {
        1 + server_index(rows.drop_first(), name)
    }
}

fn find_server(rows: &Vec<McpServerRow>, name: &str) -> (at: Option<usize>)
    ensures
        match at {
            Some(at) => at == server_index(rows@, name@) && at < rows@.len(),
            None => server_index(rows@, name@) == rows@.len(),
        },
{
    let mut i: usize = 0;
    proof {
        assert(rows@.skip(0) =~= rows@);
    }
    while i < rows.len()
        invariant
            i <= rows@.len(),
            server_index(rows@, name@) == i + server_index(rows@.skip(i as int), name@),
        decreases rows@.len() - i,
    {
        if same_text(rows[i].name.as_str(), name) {
            return Some(i);
        }
        proof {
            assert(rows@.skip(i as int).drop_first() =~= rows@.skip(i + 1));
        }
        i += 1;
    }
    None
}

/// A surface, once a server is known anew.
pub open spec fn server_refreshed(
    before: Surface,
    after: Surface,
    name: Seq<char>,
    refreshed: McpServerRow,
    connected: bool,
) -> bool {
    match before {
        Surface::McpServer { server, selected, oauth_connected } => if server.name@ == name {
            after matches Surface::McpServer {
                server: server_after,
                selected: selected_after,
                oauth_connected: connected_after,
            } && same_server(server_after, refreshed) && selected_after == selected
                && connected_after == connected
        } else {
            after == before
        },
        Surface::McpServers { rows, list } => {
            let at = server_index(rows@, name);
            after matches Surface::McpServers { rows: rows_after, list: list_after } && list_after
                == list && rows_after@.len() == rows@.len() && (at < rows@.len() ==> same_server(
                rows_after@[at],
                refreshed,
            )) && forall|i: int|
                0 <= i < rows@.len() && i != at ==> #[trigger] rows_after@[i] == rows@[i]
        },
        _ => after == before,
    }
}

/// The settings on top, with other values.
pub open spec fn settings_refreshed(
    before: Settings,
    after: Settings,
    rows: Vec<SettingRow>,
    shown: int,
) -> bool {
    &&& after.rows == rows
    &&& after.section == before.section
    &&& after.query == before.query
    &&& after.query_cursor == before.query_cursor
    &&& after.list == before.list.reconciled(shown, item_capacity(before.query@.len() > 0))
}

/// Shows other values in the settings, if they are on top; `shown` of the rows are
/// left by the search.
pub fn refresh_settings_surface(surfaces: &mut Vec<Surface>, rows: Vec<SettingRow>, shown: usize)
    ensures
        final(surfaces)@.len() == old(surfaces)@.len(),
        old(surfaces)@.len() > 0 ==> final(surfaces)@.drop_last() == old(surfaces)@.drop_last(),
        old(surfaces)@.len() > 0 ==> match old(surfaces)@.last() {
            Surface::Settings(settings) => final(surfaces)@.last() matches Surface::Settings(after)
                && settings_refreshed(settings, after, rows, shown as int),
            _ => final(surfaces)@.last() == old(surfaces)@.last(),
        },
{
    let ghost before = surfaces@;
    match surfaces.pop() {
        None => {},
        Some(top) => {
            let shown_top: Surface = match top {
                Surface::Settings(settings) => {
                    let mut settings = settings;
                    settings.refresh(rows, shown);
                    Surface::Settings(settings)
                },
                other => other,
            };
            surfaces.push(shown_top);
            proof {
                assert(surfaces@.drop_last() =~= before.drop_last());
            }
        },
    }
}

/// What is to be completed of a draft.
#[derive(Debug)]
pub enum InputCompletion {
    /// Nothing, and the key is spent.
    Ignored,
    AcceptAttachment,
    AcceptCommand,
    /// A path that starts at a byte offset.
    Path { token_start: usize, prefix: String },
    Nothing,
}

impl App {
    /// What is to be completed in front of the cursor of a draft: an attachment or a
    /// command that is offered comes before a path.
    pub fn complete_input(
        &self,
        draft: &str,
        cursor: usize,
        attachment_offered: bool,
        command_offered: bool,
    ) -> (completion: InputCompletion)
        requires
            is_boundary(draft@, cursor as int),
        ensures
            if self.observer {
                completion is Ignored
            } else if attachment_offered {
                completion is AcceptAttachment
            } else if command_offered {
                completion is AcceptCommand
            } else {
                let head = before_cursor(draft@, cursor as int);
                let start = token_index(head);
                match path_prefix(head.skip(start)) {
                    None => completion is Nothing,
                    Some(typed) => completion matches InputCompletion::Path { token_start, prefix }
                        && token_start == offset(head, start) && prefix@ == typed,
                }
            },
    {
        if self.observer {
            return InputCompletion::Ignored;
        }
        if attachment_offered {
            return InputCompletion::AcceptAttachment;
        }
        if command_offered {
            return InputCompletion::AcceptCommand;
        }
        match completion_token(draft, cursor) {
            None => InputCompletion::Nothing,
            Some((token_start, prefix)) => InputCompletion::Path { token_start, prefix },
        }
    }

    /// Offers the paths that complete a draft: a single one is for the caller to take,
    /// and of several one is chosen on a surface.
    pub fn offer_paths(&mut self, rows: Vec<PathRow>, token_start: usize) -> (step: CompletionStep)
        ensures
            same_but_surfaces(*old(self), *final(self)),
            step == if rows@.len() == 0 {
                CompletionStep::Nothing
            } else if rows@.len() == 1 {
                CompletionStep::Apply
            } else {
                CompletionStep::Choose
            },
            final(self).surfaces@ == if rows@.len() > 1 {
                old(self).surfaces@.push(
                    Surface::Paths {
                        rows,
                        list: settled(rows@.len() as int, 0, 0, 1),
                        token_start,
                    },
                )
            } else {
                old(self).surfaces@
            },
    {
        let count: usize = rows.len();
        if count == 0 {
            CompletionStep::Nothing
        } else if count == 1 {
            CompletionStep::Apply
        } else {
            self.push(Surface::Paths { rows, list: ListState::selectable(count), token_start });
            CompletionStep::Choose
        }
    }

    /// Opens a surface on top of the others.
    pub fn push(&mut self, surface: Surface)
        ensures
            final(self).surfaces@ == old(self).surfaces@.push(surface),
            same_but_surfaces(*old(self), *final(self)),
    {
        self.surfaces.push(surface);
    }

    pub fn set_notice(&mut self, notice: String)
        ensures
            *final(self) == (App { notice: Some(notice), ..*old(self) }),
    {
        self.notice = Some(notice);
    }

    /// Opens the list of background work: what is active comes first.
    pub fn open_background_surface(&mut self)
        ensures
            same_but_surfaces(*old(self), *final(self)),
            final(self).surfaces@.len() == old(self).surfaces@.len() + 1,
            final(self).surfaces@.drop_last() == old(self).surfaces@,
            final(self).surfaces@.last() matches Surface::SupervisedWork(work) && work.rows@
                == listed_work(old(self).supervised_work.rows@) && !work.show_past && work.list
                == settled(
                shown_work(listed_work(old(self).supervised_work.rows@), false).len() as int,
                0,
                0,
                1,
            ),
    {
        let rows = self.supervised_work.rows();
        let count: usize = visible_work(rows.as_slice(), false).len();
        self.push(
            Surface::SupervisedWork(
                BackgroundSurface { rows, list: ListState::selectable(count), show_past: false },
            ),
        );
        proof {
            assert(self.surfaces@.drop_last() =~= old(self).surfaces@);
        }
    }

    /// Opens the list of modes, unless the user only looks on.
    pub fn open_mode_surface(&mut self, rows: Vec<ProfileRow>)
        ensures
            same_but_surfaces(*old(self), *final(self)),
            final(self).surfaces@ == if old(self).observer {
                old(self).surfaces@
            } else {
                old(self).surfaces@.push(
                    Surface::Profiles {
                        kind: ProfileKind::Mode,
                        rows,
                        list: settled(rows@.len() as int, 0, 0, 1),
                    },
                )
            },
    {
        if self.observer {
            return;
        }
        let count: usize = rows.len();
        self.push(
            Surface::Profiles { kind: ProfileKind::Mode, rows, list: ListState::selectable(count) },
        );
    }

    /// Opens the list of agents, unless the user only looks on.
    pub fn open_agent_surface(&mut self, rows: Vec<ProfileRow>)
        ensures
            same_but_surfaces(*old(self), *final(self)),
            final(self).surfaces@ == if old(self).observer {
                old(self).surfaces@
            } else {
                old(self).surfaces@.push(
                    Surface::Profiles {
                        kind: ProfileKind::Agent,
                        rows,
                        list: settled(rows@.len() as int, 0, 0, 1),
                    },
                )
            },
    {
        if self.observer {
            return;
        }
        let count: usize = rows.len();
        self.push(
            Surface::Profiles {
                kind: ProfileKind::Agent,
                rows,
                list: ListState::selectable(count),
            },
        );
    }

    /// Opens the list of skills.
    pub fn open_skills_surface(&mut self, rows: Vec<SkillRow>)
        requires
            rows@.len() <= usize::MAX - 2,
        ensures
            same_but_surfaces(*old(self), *final(self)),
            final(self).surfaces@ == old(self).surfaces@.push(
                Surface::Skills { rows, list: settled(rows@.len() as int + 2, 0, 0, 1) },
            ),
    {
        let count: usize = rows.len() + 2;
        self.push(Surface::Skills { rows, list: ListState::selectable(count) });
    }

    /// Opens the list of providers. A model is to be chosen afterwards where none is
    /// in use.
    pub fn open_provider_surface(&mut self, rows: Vec<ProviderRow>)
        requires
            rows@.len() < usize::MAX,
        ensures
            opens_providers(*old(self), *final(self), rows, old(self).provider_model@.len() == 0),
    {
        let follows: bool = self.provider_model.as_str().is_empty();
        self.open_provider_surface_with_model_configuration_follows(rows, follows);
    }

    /// Opens the list of providers, after which a model is to be chosen if
    /// `model_configuration_follows`.
    pub fn open_provider_surface_with_model_configuration_follows(
        &mut self,
        rows: Vec<ProviderRow>,
        model_configuration_follows: bool,
    )
        requires
            rows@.len() < usize::MAX,
        ensures
            opens_providers(*old(self), *final(self), rows, model_configuration_follows),
    {
        let count: usize = rows.len() + 1;
        self.push(
            Surface::Providers(
                Providers {
                    rows,
                    list: ListState::selectable(count),
                    query: String::new(),
                    query_cursor: 0,
                    model_configuration_follows,
                },
            ),
        );
        proof {
            assert(self.surfaces@.drop_last() =~= old(self).surfaces@);
        }
    }

    /// Opens the list of models, or says that there are none. `selected` is the one
    /// that a setting has.
    pub fn open_model_surface_for_target(
        &mut self,
        rows: Vec<ModelRow>,
        target: ModelSelectionTarget,
        setting: Option<(String, String)>,
        selected: usize,
    )
        ensures
            old(self).observer ==> *final(self) == *old(self),
            !old(self).observer && rows@.len() == 0 && target == ModelSelectionTarget::Setting ==> {
                &&& final(self).surfaces@ == old(self).surfaces@
                &&& final(self).notice is Some
                &&& final(self).notice->0@ == "no enabled provider models available"@
                &&& same_but_surfaces(
                    App { notice: None, ..*old(self) },
                    App { notice: None, ..*final(self) },
                )
            },
            !old(self).observer && rows@.len() == 0 && target != ModelSelectionTarget::Setting ==> {
                &&& final(self).surfaces@ == old(self).surfaces@.push(Surface::ModelsUnavailable)
                &&& same_but_surfaces(*old(self), *final(self))
            },
            !old(self).observer && rows@.len() > 0 ==> {
                &&& same_but_surfaces(*old(self), *final(self))
                &&& final(self).surfaces@.len() == old(self).surfaces@.len() + 1
                &&& final(self).surfaces@.drop_last() == old(self).surfaces@
                &&& final(self).surfaces@.last() matches Surface::Models { models, setting: texts }
                    && models.rows == rows && models.query@.len() == 0 && models.query_cursor == 0
                    && texts == setting && models.for_setting == (target
                    == ModelSelectionTarget::Setting) && models.list == settled(
                    rows@.len() as int,
                    if target == ModelSelectionTarget::Setting { selected as int } else { 0 },
                    0,
                    VISIBLE_MENU_ITEMS as int,
                )
            },
    {
        if self.observer {
            return;
        }
        let for_setting: bool = target == ModelSelectionTarget::Setting;
        if rows.len() == 0 {
            if for_setting {
                self.set_notice("no enabled provider models available".to_owned());
            } else {
                self.push(Surface::ModelsUnavailable);
            }
            return;
        }
        let count: usize = rows.len();
        let at: usize = if for_setting {
            selected
        } else {
            0
        };
        self.push(
            Surface::Models {
                models: Models {
                    rows,
                    list: ListState::selectable_at(count, at, VISIBLE_MENU_ITEMS),
                    query: String::new(),
                    query_cursor: 0,
                    for_setting,
                },
                setting,
            },
        );
        proof {
            assert(self.surfaces@.drop_last() =~= old(self).surfaces@);
        }
    }

    /// Opens a tree of messages, unless the user only looks on. The messages are
    /// loaded afterwards.
    pub fn open_history_surface(&mut self, purpose: TreePurpose, opened_at_millis: u64)
        ensures
            old(self).observer ==> *final(self) == *old(self),
            !old(self).observer ==> {
                &&& final(self).pending_action == Some(AppAction::LoadHistory(purpose))
                &&& same_but_surfaces(
                    App { pending_action: None, ..*old(self) },
                    App { pending_action: None, ..*final(self) },
                )
                &&& final(self).surfaces@.len() == old(self).surfaces@.len() + 1
                &&& final(self).surfaces@.drop_last() == old(self).surfaces@
                &&& final(self).surfaces@.last() matches Surface::HistoryTree(tree)
                    && tree.rows@.len() == 0 && tree.list == settled(0, 0, 0, 1) && tree.purpose
                    == purpose && tree.loading && tree.revision is None && tree.query@.len() == 0
                    && tree.query_cursor == 0 && tree.opened_at_millis == opened_at_millis
            },
    {
        if self.observer {
            return;
        }
        self.push(
            Surface::HistoryTree(
                HistoryTree {
                    rows: Vec::new(),
                    list: ListState::selectable(0),
                    purpose,
                    loading: true,
                    revision: None,
                    query: String::new(),
                    query_cursor: 0,
                    opened_at_millis,
                },
            ),
        );
        self.pending_action = Some(AppAction::LoadHistory(purpose));
        proof {
            assert(self.surfaces@.drop_last() =~= old(self).surfaces@);
        }
    }

    /// What the topmost tree of messages is for.
    pub fn open_history_purpose(&self) -> (purpose: Option<TreePurpose>)
        ensures
            purpose == tree_purpose(self.surfaces@),
    {
        let mut i: usize = self.surfaces.len();
        proof {
            assert(self.surfaces@.take(i as int) =~= self.surfaces@);
        }
        while i > 0
            invariant
                i <= self.surfaces@.len(),
                tree_purpose(self.surfaces@) == tree_purpose(self.surfaces@.take(i as int)),
            decreases i,
        {
            proof {
                assert(self.surfaces@.take(i as int).drop_last() =~= self.surfaces@.take(i - 1));
                assert(self.surfaces@.take(i as int).last() == self.surfaces@[i - 1]);
            }
            if let Surface::HistoryTree(tree) = &self.surfaces[i - 1] {
                return Some(tree.purpose);
            }
            i -= 1;
        }
        None
    }

    /// Closes the trees of messages.
    pub fn close_history_surface(&mut self)
        ensures
            final(self).surfaces@ == without_trees(old(self).surfaces@),
            same_but_surfaces(*old(self), *final(self)),
    {
        let ghost all = self.surfaces@;
        let mut kept: Vec<Surface> = Vec::new();
        proof {
            assert(all.take(all.len() as int) =~= all);
        }
        loop
            invariant
                same_but_surfaces(*old(self), *self),
                self.surfaces@.len() <= all.len(),
                self.surfaces@ == all.take(self.surfaces@.len() as int),
                without_trees(self.surfaces@) + kept@.reverse() == without_trees(all),
            ensures
                kept@.reverse() == without_trees(all),
                self.surfaces@.len() == 0,
                same_but_surfaces(*old(self), *self),
            decreases self.surfaces@.len(),
        {
            let ghost before = self.surfaces@;
            match self.surfaces.pop() {
                None => {
                    proof {
                        assert(without_trees(before) + kept@.reverse() =~= kept@.reverse());
                    }
                    break;
                },
                Some(top) => {
                    let tree: bool = match &top {
                        Surface::HistoryTree(_) => true,
                        _ => false,
                    };
                    proof {
                        assert(before.drop_last() =~= self.surfaces@);
                        assert(self.surfaces@ =~= all.take(self.surfaces@.len() as int));
                    }
                    if !tree {
                        let ghost kept_before = kept@;
                        kept.push(top);
                        proof {
                            assert(kept@.reverse() =~= seq![top] + kept_before.reverse());
                            assert(without_trees(before) + kept_before.reverse()
                                =~= without_trees(self.surfaces@) + kept@.reverse());
                        }
                    }
                },
            }
        }
        let ghost target = without_trees(all);
        proof {
            assert(self.surfaces@ =~= Seq::empty());
        }
        loop
            invariant
                same_but_surfaces(*old(self), *self),
                self.surfaces@ + kept@.reverse() == target,
            ensures
                self.surfaces@ == target,
                same_but_surfaces(*old(self), *self),
            decreases kept@.len(),
        {
            let ghost before = kept@;
            match kept.pop() {
                None => {
                    proof {
                        assert(self.surfaces@ + before.reverse() =~= self.surfaces@);
                    }
                    break;
                },
                Some(surface) => {
                    let ghost open = self.surfaces@;
                    self.surfaces.push(surface);
                    proof {
                        assert(before.reverse() =~= seq![surface] + kept@.reverse());
                        assert(open + before.reverse() =~= self.surfaces@ + kept@.reverse());
                    }
                },
            }
        }
    }

    /// Ends the look at an earlier message; the result is the conversation that is
    /// to be shown again.
    pub fn close_history_preview(&mut self) -> (live: Option<u64>)
        ensures
            leaves_preview(*old(self), *final(self), live),
    {
        match self.history_preview {
            None => None,
            Some(preview) => {
                self.history_preview = None;
                self.observer_command = String::new();
                Some(preview.latest_live)
            },
        }
    }

    /// Shows how the logins of the providers changed.
    pub fn apply_provider_auth_update(
        &mut self,
        providers: &[ProviderAvailability],
        rows: &[ProviderRow],
    )
        ensures
            final(self).surfaces@.len() == old(self).surfaces@.len(),
            forall|i: int|
                0 <= i < old(self).surfaces@.len() ==> surface_updated(
                    old(self).surfaces@[i],
                    #[trigger] final(self).surfaces@[i],
                    providers@,
                    rows@,
                ),
            same_but_surfaces(
                App { notice: None, ..*old(self) },
                App { notice: None, ..*final(self) },
            ),
            match notice_after(
                old(self).surfaces@,
                providers@,
                old(self).surfaces@.len() as int,
            ) {
                None => final(self).notice == old(self).notice,
                Some(notice) => final(self).notice is Some && final(self).notice->0@ == notice,
            },
    {
        let ghost before = self.surfaces@;
        let count: usize = self.surfaces.len();
        let mut notice: Option<String> = None;
        let mut i: usize = 0;
        while i < count
            invariant
                i <= count,
                count == before.len(),
                self.surfaces@.len() == count,
                before == old(self).surfaces@,
                same_but_surfaces(*old(self), *self),
                text_view(notice) == notice_after(before, providers@, i as int),
                forall|k: int|
                    0 <= k < i ==> surface_updated(
                        before[k],
                        #[trigger] self.surfaces@[k],
                        providers@,
                        rows@,
                    ),
                forall|k: int| i <= k < count ==> #[trigger] self.surfaces@[k] == before[k],
            decreases count - i,
        {
            let surface: &mut Surface = &mut self.surfaces[i];
            match surface {
                Surface::Providers(listed) => {
                    listed.rows = copy_providers(rows);
                },
                Surface::ProviderSetup(setup) => {
                    if setup.managed_auth {
                        if let Some(at) = find_provider(providers, setup.provider_id.as_str()) {
                            let said: Option<String> = update_setup(setup, &providers[at].auth);
                            if said.is_some() {
                                notice = said;
                            }
                        }
                    }
                },
                _ => {},
            }
            i += 1;
        }
        if let Some(notice) = notice {
            self.set_notice(notice);
        }
    }

    /// Shows the messages of a tree. `visible_before` and `visible` are the messages
    /// that its search leaves of the old and of the new ones, and `initial` is the
    /// message that is selected where the selected one is gone.
    pub fn apply_history_snapshot(
        &mut self,
        purpose: TreePurpose,
        rows: Vec<HistoryRow>,
        revision: Option<u64>,
        visible_before: &[usize],
        visible: &[usize],
        initial: usize,
    )
        requires
            indices_valid(rows@, visible@),
        ensures
            same_but_surfaces(*old(self), *final(self)),
            final(self).surfaces@.len() == old(self).surfaces@.len(),
            match tree_index(old(self).surfaces@, purpose) {
                None => final(self).surfaces@ == old(self).surfaces@,
                Some(index) => {
                    &&& forall|i: int|
                        0 <= i < old(self).surfaces@.len() && i != index
                            ==> #[trigger] final(self).surfaces@[i] == old(self).surfaces@[i]
                    &&& old(self).surfaces@[index] matches Surface::HistoryTree(before) && final(self).surfaces@[index] matches Surface::HistoryTree(after) && after.rows == rows
                        && after.revision == revision && !after.loading && after.purpose
                        == before.purpose && after.query == before.query && after.query_cursor
                        == before.query_cursor && after.opened_at_millis
                        == before.opened_at_millis && ({
                        let source = message_selected(
                            rows@,
                            selected_message(before, visible_before@),
                            initial as int,
                        ) as usize;
                        after.list == settled(
                            visible@.len() as int,
                            if visible_position(visible@, source) < visible@.len() {
                                visible_position(visible@, source)
                            } else if next_selectable(rows@, visible@, 0) < visible@.len() {
                                next_selectable(rows@, visible@, 0)
                            } else {
                                0
                            },
                            0,
                            VISIBLE_MENU_ITEMS as int,
                        )
                    })
                },
            },
    {
        let ghost before = self.surfaces@;
        let mut i: usize = self.surfaces.len();
        let mut found: Option<usize> = None;
        proof {
            assert(before.take(i as int) =~= before);
        }
        while i > 0 && found.is_none()
            invariant
                i <= self.surfaces@.len(),
                self.surfaces@ == before,
                match found {
                    None => tree_index(before, purpose) == tree_index(
                        before.take(i as int),
                        purpose,
                    ),
                    Some(at) => tree_index(before, purpose) == Some(at as int) && at
                        < before.len() && before[at as int] is HistoryTree,
                },
            decreases i,
        {
            proof {
                assert(before.take(i as int).drop_last() =~= before.take(i - 1));
                assert(before.take(i as int).last() == before[i - 1]);
            }
            if let Surface::HistoryTree(tree) = &self.surfaces[i - 1] {
                if tree.purpose == purpose {
                    found = Some(i - 1);
                }
            }
            i -= 1;
        }
        let index: usize = match found {
            None => {
                return;
            },
            Some(index) => index,
        };
        let surface: &mut Surface = &mut self.surfaces[index];
        if let Surface::HistoryTree(tree) = surface {
            let id: Option<u128> = match tree.list.selected {
                Some(at) => if at < visible_before.len() && visible_before[at] < tree.rows.len() {
                    Some(tree.rows[visible_before[at]].id)
                } else {
                    None
                },
                None => None,
            };
            let source: usize = match id {
                Some(id) => match find_message(rows.as_slice(), id) {
                    Some(at) => at,
                    None => initial,
                },
                None => initial,
            };
            tree.list = history_list(rows.as_slice(), visible, source);
            tree.rows = rows;
            tree.revision = revision;
            tree.loading = false;
        }
    }

    /// Shows other conversations, if they are on top. The selection stays with its
    /// conversation, or goes to the one at `initial`.
    pub fn refresh_conversation_surface(&mut self, rows: Vec<ConversationRow>, initial: usize)
        ensures
            same_but_surfaces(*old(self), *final(self)),
            final(self).surfaces@.len() == old(self).surfaces@.len(),
            old(self).surfaces@.len() > 0 ==> final(self).surfaces@.drop_last() == old(
                self,
            ).surfaces@.drop_last(),
            old(self).surfaces@.len() > 0 ==> match old(self).surfaces@.last() {
                Surface::Conversations(before) => final(self).surfaces@.last() matches Surface::Conversations(
                    after,
                ) && after.rows == rows && after.query == before.query && after.query_cursor
                    == before.query_cursor && after.opened_at_millis == before.opened_at_millis
                    && after.include_archived == before.include_archived && ({
                    let visible = conversation_indices(rows@, before.query@);
                    let selected = match selected_conversation(before) {
                        Some(id) => if conversation_position(rows@, visible, id)
                            < visible.len() {
                            conversation_position(rows@, visible, id)
                        } else {
                            initial as int
                        },
                        None => initial as int,
                    };
                    after.list == settled(
                        visible.len() as int,
                        selected,
                        0,
                        VISIBLE_MENU_ITEMS as int,
                    )
                }),
                _ => final(self).surfaces@.last() == old(self).surfaces@.last(),
            },
    {
        let count: usize = self.surfaces.len();
        if count == 0 {
            return;
        }
        let ghost before = self.surfaces@;
        let surface: &mut Surface = &mut self.surfaces[count - 1];
        if let Surface::Conversations(picker) = surface {
            let shown = conversation_picker_indexes(
                picker.rows.as_slice(),
                picker.query.as_str(),
            );
            let id: Option<u128> = match picker.list.selected {
                Some(at) => if at < shown.len() {
                    Some(picker.rows[shown[at]].id)
                } else {
                    None
                },
                None => None,
            };
            let visible = conversation_picker_indexes(rows.as_slice(), picker.query.as_str());
            let selected: usize = match id {
                Some(id) => match find_conversation(rows.as_slice(), visible.as_slice(), id) {
                    Some(at) => at,
                    None => initial,
                },
                None => initial,
            };
            picker.list = ListState::selectable_at(visible.len(), selected, VISIBLE_MENU_ITEMS);
            picker.rows = rows;
        }
        proof {
            assert(self.surfaces@.drop_last() =~= before.drop_last());
        }
    }

    /// The name of the server that is open on top.
    pub fn open_mcp_server(&self) -> (name: Option<String>)
        ensures
            text_view(name) == open_server(self.surfaces@),
    {
        let mut i: usize = self.surfaces.len();
        proof {
            assert(self.surfaces@.take(i as int) =~= self.surfaces@);
        }
        while i > 0
            invariant
                i <= self.surfaces@.len(),
                open_server(self.surfaces@) == open_server(self.surfaces@.take(i as int)),
            decreases i,
        {
            proof {
                assert(self.surfaces@.take(i as int).drop_last() =~= self.surfaces@.take(i - 1));
                assert(self.surfaces@.take(i as int).last() == self.surfaces@[i - 1]);
            }
            match &self.surfaces[i - 1] {
                Surface::McpOAuth { server, .. } => {
                    return Some(server.clone());
                },
                Surface::McpServer { server, .. } => {
                    return Some(server.name.clone());
                },
                _ => {},
            }
            i -= 1;
        }
        None
    }

    /// Shows a server anew wherever it is shown; `connected` says whether the user is
    /// logged in to it.
    pub fn refresh_open_mcp_server(&mut self, name: &str, refreshed: &McpServerRow, connected: bool)
        ensures
            same_but_surfaces(*old(self), *final(self)),
            final(self).surfaces@.len() == old(self).surfaces@.len(),
            forall|i: int|
                0 <= i < old(self).surfaces@.len() ==> server_refreshed(
                    old(self).surfaces@[i],
                    #[trigger] final(self).surfaces@[i],
                    name@,
                    *refreshed,
                    connected,
                ),
    {
        let ghost before = self.surfaces@;
        let count: usize = self.surfaces.len();
        let mut i: usize = 0;
        while i < count
            invariant
                i <= count,
                count == before.len(),
                self.surfaces@.len() == count,
                before == old(self).surfaces@,
                same_but_surfaces(*old(self), *self),
                forall|k: int|
                    0 <= k < i ==> server_refreshed(
                        before[k],
                        #[trigger] self.surfaces@[k],
                        name@,
                        *refreshed,
                        connected,
                    ),
                forall|k: int| i <= k < count ==> #[trigger] self.surfaces@[k] == before[k],
            decreases count - i,
        {
            let surface: &mut Surface = &mut self.surfaces[i];
            match surface {
                Surface::McpServer { server, oauth_connected, .. } => {
                    if same_text(server.name.as_str(), name) {
                        *server = copy_server(refreshed);
                        *oauth_connected = connected;
                    }
                },
                Surface::McpServers { rows, .. } => {
                    if let Some(at) = find_server(rows, name) {
                        rows.set(at, copy_server(refreshed));
                    }
                },
                _ => {},
            }
            i += 1;
        }
    }

    /// Shows the tools of the server whose tools are being loaded, once it is
    /// started. `message` says why it failed, if it did.
    pub fn refresh_loading_mcp_tools(
        &mut self,
        status: McpRuntimeStatus,
        message: String,
        tools: Vec<McpToolRow>,
    )
        ensures
            same_but_surfaces(*old(self), *final(self)),
            final(self).surfaces@.len() == old(self).surfaces@.len(),
            old(self).surfaces@.len() > 0 ==> final(self).surfaces@.drop_last() == old(
                self,
            ).surfaces@.drop_last(),
            old(self).surfaces@.len() > 0 ==> match old(self).surfaces@.last() {
                Surface::McpTools(before) => if before.loading && !is_starting(status) {
                    final(self).surfaces@.last() matches Surface::McpTools(after) && after.server
                        == before.server && after.tools == tools && !after.loading && after.list
                        == before.list.reconciled(
                        tools@.len() as int,
                        VISIBLE_MENU_ITEMS as int,
                    ) && text_view(after.failure) == tools_failure(status, message@)
                } else {
                    final(self).surfaces@.last() == old(self).surfaces@.last()
                },
                _ => final(self).surfaces@.last() == old(self).surfaces@.last(),
            },
    {
        let count: usize = self.surfaces.len();
        if count == 0 || status == McpRuntimeStatus::Starting || status
            == McpRuntimeStatus::NotStarted {
            return;
        }
        let ghost before = self.surfaces@;
        let surface: &mut Surface = &mut self.surfaces[count - 1];
        if let Surface::McpTools(shown) = surface {
            if shown.loading {
                shown.list.reconcile(tools.len(), VISIBLE_MENU_ITEMS);
                shown.tools = tools;
                shown.loading = false;
                shown.failure =
                match status {
                    McpRuntimeStatus::Failed => Some(message),
                    McpRuntimeStatus::AuthenticationRequired => Some(
                        "Login required \u{b7} choose Login with OAuth in the server menu".to_owned(),
                    ),
                    _ => None,
                };
            }
        }
        proof {
            assert(self.surfaces@.drop_last() =~= before.drop_last());
        }
    }

    /// What is to be done once the providers are closed. `current` is the provider in
    /// use, if there is one.
    pub fn reconcile_after_provider_close(&self, current: Option<&str>) -> (step: ProviderCloseStep)
        ensures
            step == if self.observer {
                ProviderCloseStep::Nothing
            } else {
                match current {
                    Some(provider) => if self.enabled_providers@.contains(provider@) {
                        ProviderCloseStep::Nothing
                    } else {
                        ProviderCloseStep::ReplaceModel
                    },
                    None => if self.enabled_providers@ == Set::<Seq<char>>::empty() {
                        ProviderCloseStep::Nothing
                    } else {
                        ProviderCloseStep::ChooseModel
                    },
                }
            },
    {
        if self.observer {
            return ProviderCloseStep::Nothing;
        }
        match current {
            Some(provider) => if self.enabled_providers.contains(provider) {
                ProviderCloseStep::Nothing
            } else {
                ProviderCloseStep::ReplaceModel
            },
            None => if self.enabled_providers.is_empty() {
                ProviderCloseStep::Nothing
            } else {
                ProviderCloseStep::ChooseModel
            },
        }
    }

    /// No model is left: none is in use.
    pub fn forget_model(&mut self)
        ensures
            final(self).provider_model@.len() == 0,
            *final(self) == (App {
                provider_model: final(self).provider_model,
                effort: None,
                ..*old(self)
            }),
    {
        self.provider_model = String::new();
        self.effort = None;
    }

    /// The request that is to be shown now: the one that waits, once no surface is open.
    pub open spec fn deferred_spec(self) -> Option<u128> {
        if self.surfaces@.len() == 0 { self.pending_interaction } else { None }
    }

    pub fn deferred(&self) -> (request: Option<u128>)
        ensures
            request == self.deferred_spec(),
    {
        if self.surfaces.len() == 0 {
            self.pending_interaction
        } else {
            None
        }
    }

    /// Takes a model that was chosen. For a mode, the list of models closes and the
    /// plan below it shows the model.
    pub fn apply_model_selection(
        &mut self,
        target: ModelSelectionTarget,
        provider: &str,
        model: &str,
    ) -> (step: ModelSelectionStep)
        ensures
            ({
                let name = provider@ + "/"@ + model@;
                let before = old(self).surfaces@;
                let below = if before.len() > 0 && before.last() is Models {
                    before.drop_last()
                } else {
                    before
                };
                if old(self).observer {
                    step is Nothing && *final(self) == *old(self)
                } else {
                    match target {
                        ModelSelectionTarget::Mode => {
                            &&& step is ModeSaved
                            &&& final(self).provider_model@ == name
                            &&& same_but_surfaces(
                                App { provider_model: final(self).provider_model, ..*old(self) },
                                *final(self),
                            )
                            &&& final(self).surfaces@.len() == below.len()
                            &&& forall|i: int|
                                0 <= i < below.len() - 1 ==> #[trigger] final(self).surfaces@[i]
                                    == below[i]
                            &&& below.len() > 0 ==> match below.last() {
                                Surface::PlanCompletion {
                                    plan,
                                    modes,
                                    colors,
                                    model: shown,
                                    context_percent,
                                } => final(self).surfaces@.last() matches Surface::PlanCompletion {
                                    plan: plan_after,
                                    modes: modes_after,
                                    colors: colors_after,
                                    model: model_after,
                                    context_percent: percent_after,
                                } && plan_after == plan && modes_after == modes && colors_after
                                    == colors && percent_after == context_percent && model_after@
                                    == name,
                                _ => final(self).surfaces@.last() == below.last(),
                            }
                        },
                        ModelSelectionTarget::Setting => {
                            &&& step matches ModelSelectionStep::SaveSetting(value) && value@
                                == name
                            &&& *final(self) == *old(self)
                        },
                        ModelSelectionTarget::Conversation => {
                            &&& step is ChangeModel
                            &&& *final(self) == *old(self)
                        },
                    }
                }
            }),
    {
        if self.observer {
            return ModelSelectionStep::Nothing;
        }
        match target {
            ModelSelectionTarget::Mode => {
                self.provider_model = concat3(provider, "/", model);
                let ghost before = self.surfaces@;
                let count: usize = self.surfaces.len();
                let on_top: bool = if count > 0 {
                    match &self.surfaces[count - 1] {
                        Surface::Models { .. } => true,
                        _ => false,
                    }
                } else {
                    false
                };
                if on_top {
                    let _ = self.surfaces.pop();
                    proof {
                        assert(self.surfaces@ =~= before.drop_last());
                    }
                }
                let left: usize = self.surfaces.len();
                if left > 0 {
                    let name: String = self.provider_model.clone();
                    let surface: &mut Surface = &mut self.surfaces[left - 1];
                    if let Surface::PlanCompletion { model: shown, .. } = surface {
                        *shown = name;
                    }
                }
                ModelSelectionStep::ModeSaved
            },
            ModelSelectionTarget::Setting => ModelSelectionStep::SaveSetting(
                concat3(provider, "/", model),
            ),
            ModelSelectionTarget::Conversation => ModelSelectionStep::ChangeModel,
        }
    }

    /// The conversation goes on with the model that was chosen: all surfaces close.
    pub fn model_changed(&mut self)
        ensures
            final(self).surfaces@.len() == 0,
            !final(self).onboarding,
            same_but_surfaces(App { onboarding: false, ..*old(self) }, *final(self)),
    {
        self.surfaces = Vec::new();
        self.onboarding = false;
    }

    /// Closes the surface on top, and says what that asks for. Some surfaces lead back
    /// to the one that they were opened from.
    pub fn close_surface(&mut self) -> (step: CloseStep)
        ensures
            same_but_surfaces(*old(self), *final(self)),
            ({
                let before = old(self).surfaces@;
                let after = final(self).surfaces@;
                if before.len() == 0 {
                    step is Nothing && after == before
                } else {
                    closes(before.last(), before.drop_last(), after, step, old(self).onboarding)
                }
            }),
    {
        let ghost before = self.surfaces@;
        let top: Surface = match self.surfaces.pop() {
            None => {
                return CloseStep::Nothing;
            },
            Some(top) => top,
        };
        proof {
            assert(self.surfaces@ =~= before.drop_last());
        }
        let ghost below = self.surfaces@;
        match top {
            Surface::Question(question) => CloseStep::CancelQuestion(question),
            Surface::Permission { prompt, request, choices, answers } => {
                let reason: Option<String> = given_note(prompt.denial_note.as_str());
                CloseStep::DenyPermission {
                    surface: Surface::Permission { prompt, request, choices, answers },
                    reason,
                }
            },
            Surface::PlanCompletion { plan, modes, colors, model, context_percent } => {
                CloseStep::KeepPlanning(
                    Surface::PlanCompletion { plan, modes, colors, model, context_percent },
                )
            },
            Surface::Onboarding => CloseStep::DismissOnboarding,
            Surface::AgentEdit { .. } => CloseStep::OpenAgents,
            Surface::AgentWizard(wizard) => {
                if wizard.editing {
                    self.surfaces.push(
                        Surface::AgentEdit { name: wizard.name, list: agent_edit_list(0) },
                    );
                    proof {
                        assert(self.surfaces@.drop_last() =~= below);
                    }
                    CloseStep::Nothing
                } else {
                    CloseStep::OpenAgents
                }
            },
            Surface::SkillWizard(wizard) => match wizard.step.previous() {
                Some(step) => {
                    let mut wizard = wizard;
                    wizard.step = step;
                    self.surfaces.push(Surface::SkillWizard(wizard));
                    proof {
                        assert(self.surfaces@.drop_last() =~= below);
                    }
                    CloseStep::Nothing
                },
                None => CloseStep::OpenSkills,
            },
            Surface::Providers(providers) => {
                if !providers.model_configuration_follows {
                    CloseStep::ReconcileProviders
                } else if self.onboarding {
                    CloseStep::DismissOnboarding
                } else {
                    CloseStep::Nothing
                }
            },
            Surface::Models { .. } => {
                if self.onboarding {
                    CloseStep::DismissOnboarding
                } else {
                    CloseStep::Nothing
                }
            },
            Surface::ModelsUnavailable => {
                if self.onboarding {
                    CloseStep::DismissOnboarding
                } else {
                    CloseStep::Nothing
                }
            },
            Surface::Effort { .. } => {
                if self.onboarding {
                    CloseStep::DismissOnboarding
                } else {
                    CloseStep::Nothing
                }
            },
            Surface::ProviderSetup(setup) => {
                if setup.managed_auth && !setup.authenticated {
                    CloseStep::CancelProviderAuth(setup.provider_id)
                } else {
                    CloseStep::Nothing
                }
            },
            Surface::McpOAuth { .. } => CloseStep::RefreshMcpServer,
            Surface::StatusLine(editor) => {
                let modules: bool = match &editor.mode {
                    StatusLineEditorMode::Modules => true,
                    _ => false,
                };
                if modules {
                    CloseStep::SaveStatusLine(editor)
                } else {
                    let mut editor = editor;
                    editor.mode = StatusLineEditorMode::Modules;
                    self.surfaces.push(Surface::StatusLine(editor));
                    proof {
                        assert(self.surfaces@.drop_last() =~= below);
                    }
                    CloseStep::Nothing
                }
            },
            _ => CloseStep::Nothing,
        }
    }
}

/// What closing a surface does to the surfaces below it, and what it asks for.
pub open spec fn closes(
    top: Surface,
    below: Seq<Surface>,
    after: Seq<Surface>,
    step: CloseStep,
    onboarding: bool,
) -> bool {
    match top {
        Surface::Question(question) => after == below && step == CloseStep::CancelQuestion(
            question,
        ),
        Surface::Permission { prompt, request, choices, answers } => {
            &&& after == below
            &&& step matches CloseStep::DenyPermission { surface, reason } && surface == top
                && text_view(reason) == given(prompt.denial_note@)
        },
        Surface::PlanCompletion { plan, modes, colors, model, context_percent } => after == below
            && step == CloseStep::KeepPlanning(top),
        Surface::Onboarding => after == below && step is DismissOnboarding,
        Surface::AgentEdit { name, list } => after == below && step is OpenAgents,
        Surface::AgentWizard(wizard) => if wizard.editing {
            step is Nothing && after == below.push(
                Surface::AgentEdit {
                    name: wizard.name,
                    list: settled(5, 0, 0, VISIBLE_MENU_ITEMS as int),
                },
            )
        } else {
            after == below && step is OpenAgents
        },
        Surface::SkillWizard(wizard) => match wizard.step.previous_spec() {
            Some(previous) => step is Nothing && after == below.push(
                Surface::SkillWizard(SkillWizard { step: previous, ..wizard }),
            ),
            None => after == below && step is OpenSkills,
        },
        Surface::Providers(providers) => after == below
            && if !providers.model_configuration_follows {
            step is ReconcileProviders
        } else if onboarding {
            step is DismissOnboarding
        } else {
            step is Nothing
        },
        Surface::Models { .. } | Surface::ModelsUnavailable | Surface::Effort { .. } => after
            == below && if onboarding { step is DismissOnboarding } else { step is Nothing },
        Surface::ProviderSetup(setup) => after == below && if setup.managed_auth
            && !setup.authenticated {
            step == CloseStep::CancelProviderAuth(setup.provider_id)
        } else {
            step is Nothing
        },
        Surface::McpOAuth { server, label, prompt, completion } => after == below
            && step is RefreshMcpServer,
        Surface::StatusLine(editor) => if editor.mode is Modules {
            after == below && step == CloseStep::SaveStatusLine(editor)
        } else {
            step is Nothing && after == below.push(
                Surface::StatusLine(
                    StatusLineEditor { mode: StatusLineEditorMode::Modules, ..editor },
                ),
            )
        },
        _ => after == below && step is Nothing,
    }
}

/// A question that could not be cancelled, from its start.
pub fn question_again(question: Question) -> (again: Question)
    ensures
        again == (Question {
            question_index: 0,
            option_index: 0,
            editing_note: false,
            note_cursor: 0,
            ..question
        }),
{
    Question {
        question_index: 0,
        option_index: 0,
        editing_note: false,
        note_cursor: 0,
        ..question
    }
}

/// Closing never leaves more surfaces open than there were, and what was below the
/// closed surface stays as it is.
pub proof fn law_closing_keeps_what_is_below(
    top: Surface,
    below: Seq<Surface>,
    after: Seq<Surface>,
    step: CloseStep,
    onboarding: bool,
)
    requires
        closes(top, below, after, step, onboarding),
    ensures
        below.len() <= after.len() <= below.len() + 1,
        after.take(below.len() as int) == below,
{
    assert(after.take(below.len() as int) =~= below);
}

} // verus!
