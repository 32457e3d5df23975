//! Choosing and setting up providers, models and web search.

use vstd::prelude::*;
use vstd::string::*;
use crate::control::{
    action_of, cursor_at_end, edit_field, field_after, field_is, field_takes, list_after, move_list,
    SurfaceKey,
};
use crate::key::KeyCode;
use crate::list::{min, settled, VISIBLE_MENU_ITEMS, ListState};
use crate::menu::less;
use crate::render::{concat, concat3};
use crate::search::{contains, contains_text};
use crate::single_line_input::InputView;
use crate::text::utf8_len;
use crate::unicode::{is_whitespace, lower_case, to_lower_case, trim, trimmed, whitespace};

verus! {

/// Where web searches go.
#[derive(Clone, Copy, Debug, PartialEq, Eq, Structural)]
pub enum WebSearchProvider {
    Searxng,
    Exa,
    Chatgpt,
}

/// A web search provider that can be chosen.
#[derive(Clone, Debug)]
pub struct WebSearchRow {
    pub provider: WebSearchProvider,
    /// What a query is compared with.
    pub label: String,
    pub display_name: String,
    pub active: bool,
    pub ready: bool,
}

/// Choosing a web search provider.
#[derive(Debug)]
pub struct WebSearchPicker {
    pub rows: Vec<WebSearchRow>,
    pub list: ListState,
    pub query: String,
    pub query_cursor: usize,
}

/// What is to be done after a key in the web search picker. The numbers are
/// indices of rows.
#[derive(Clone, Copy, Debug, PartialEq, Eq, Structural)]
pub enum WebSearchStep {
    Stay,
    Close,
    /// Search with this provider from now on.
    Use(usize),
    /// Tell where a ChatGPT subscription is connected.
    AskToConnect,
    SetUp(usize),
    /// Forget how the provider is reached.
    Remove(usize),
}

/// Whether a row is shown for a query.
pub open spec fn web_row_matches(row: WebSearchRow, query: Seq<char>) -> bool {
    contains(row.label@, lower_case(query))
}

/// The rows that are shown for a query, as indices.
pub open spec fn web_rows(rows: Seq<WebSearchRow>, query: Seq<char>) -> Seq<usize>
    decreases rows.len(),
{
    if rows.len() == 0 {
        Seq::empty()
    } else if web_row_matches(rows.last(), query) {
        web_rows(rows.drop_last(), query).push((rows.len() - 1) as usize)
    } else {
        web_rows(rows.drop_last(), query)
    }
}

pub proof fn lemma_web_rows(rows: Seq<WebSearchRow>, query: Seq<char>)
    ensures
        web_rows(rows, query).len() <= rows.len(),
        forall|i: int|
            0 <= i < web_rows(rows, query).len() ==> (#[trigger] web_rows(rows, query)[i])
                < rows.len() || rows.len() > usize::MAX,
    decreases rows.len(),
{
    if rows.len() > 0 {
        lemma_web_rows(rows.drop_last(), query);
    }
}

/// The rows that are shown for a query, as indices.
pub fn visible_web_rows(rows: &[WebSearchRow], query: &str) -> (visible: Vec<usize>)
    ensures
        visible@ == web_rows(rows@, query@),
        visible@.len() <= rows@.len(),
        forall|i: int| 0 <= i < visible@.len() ==> #[trigger] visible@[i] < rows@.len(),
{
    let wanted: String = to_lower_case(query);
    let mut visible: Vec<usize> = Vec::new();
    let mut i: usize = 0;
    proof {
        assert(rows@.take(0) =~= Seq::empty());
    }
    while i < rows.len()
        invariant
            i <= rows@.len(),
            wanted@ == lower_case(query@),
            visible@ == web_rows(rows@.take(i as int), query@),
        decreases rows@.len() - i,
    {
        if contains_text(rows[i].label.as_str(), wanted.as_str()) {
            visible.push(i);
        }
        i += 1;
        proof {
            assert(rows@.take(i as int).drop_last() =~= rows@.take(i - 1));
        }
    }
    proof {
        assert(rows@.take(i as int) =~= rows@);
        lemma_web_rows(rows@, query@);
    }
    visible
}

impl WebSearchPicker {
    /// The list before the key is looked at: one item to leave, and the rows
    /// that are shown.
    pub open spec fn settled_list(self) -> ListState {
        self.list.reconciled(web_rows(self.rows@, self.query@).len() as int + 1, VISIBLE_MENU_ITEMS as int)
    }

    /// The row under the cursor.
    pub open spec fn row_spec(self) -> Option<usize> {
        let at = self.settled_list().at_spec();
        let visible = web_rows(self.rows@, self.query@);
        if 1 <= at <= visible.len() { Some(visible[at - 1]) } else { None }
    }

    /// What a key that is neither a movement nor typed asks for.
    pub open spec fn command(self, code: KeyCode) -> WebSearchStep {
        match self.row_spec() {
            None => if code == KeyCode::Enter && self.settled_list().selected == Some(0usize) {
                WebSearchStep::Close
            } else {
                WebSearchStep::Stay
            },
            Some(index) => {
                let row = self.rows@[index as int];
                let connect = row.provider == WebSearchProvider::Chatgpt;
                if code == KeyCode::Enter && row.ready {
                    WebSearchStep::Use(index)
                } else if code == KeyCode::Char('d') {
                    if row.ready { WebSearchStep::Remove(index) } else { WebSearchStep::Stay }
                } else if connect {
                    WebSearchStep::AskToConnect
                } else {
                    WebSearchStep::SetUp(index)
                }
            },
        }
    }

    /// Whether a key is a command rather than part of a query.
    pub open spec fn is_command(code: KeyCode) -> bool {
        code == KeyCode::Enter || code == KeyCode::Char('r') || code == KeyCode::Char('d')
    }

    /// The effect of `key`.
    pub open spec fn key_effect(
        before: Self,
        after: Self,
        key: SurfaceKey,
        step: WebSearchStep,
    ) -> bool {
        &&& (after.rows == before.rows)
        &&& (action_of(key.code) is Some ==> {
                &&& step == WebSearchStep::Stay
                &&& after.list == list_after(
                    before.list,
                    web_rows(before.rows@, before.query@).len() as int + 1,
                    VISIBLE_MENU_ITEMS as int,
                    key.code,
                )
                &&& field_is(
                    after.query@,
                    after.query_cursor as int,
                    InputView::of(before.query@, before.query_cursor as int),
                )
            })
        &&& (action_of(key.code) is None && Self::is_command(key.code) ==> {
                &&& step == before.command(key.code)
                &&& after.list == before.settled_list()
                &&& after.query@ == before.query@
                &&& if before.row_spec() is Some {
                    after.query_cursor == utf8_len(before.query@)
                } else {
                    field_is(
                        after.query@,
                        after.query_cursor as int,
                        InputView::of(before.query@, before.query_cursor as int),
                    )
                }
            })
        &&& (action_of(key.code) is None && !Self::is_command(key.code) ==> {
                &&& step == WebSearchStep::Stay
                &&& field_is(
                    after.query@,
                    after.query_cursor as int,
                    field_after(before.query@, before.query_cursor as int, key.key),
                )
                &&& after.list == settled(
                    web_rows(before.rows@, after.query@).len() as int + 1,
                    0,
                    0,
                    1,
                )
            })
    }

    pub fn key(&mut self, key: SurfaceKey) -> (step: WebSearchStep)
        requires
            old(self).rows@.len() < usize::MAX,
        ensures
            Self::key_effect(*old(self), *final(self), key, step),
    {
        let visible: Vec<usize> = visible_web_rows(self.rows.as_slice(), self.query.as_str());
        let moved: bool = move_list(
            &mut self.list,
            visible.len() + 1,
            VISIBLE_MENU_ITEMS,
            key.code,
        );
        let command: bool = key.code == KeyCode::Enter || key.code == KeyCode::Char('r') || key.code
            == KeyCode::Char('d');
        if moved || command {
            self.query_cursor = normalized(self.query.as_str(), self.query_cursor);
        }
        if moved {
            return WebSearchStep::Stay;
        }
        if !command {
            edit_field(&mut self.query, &mut self.query_cursor, key.key);
            let count: usize = visible_web_rows(self.rows.as_slice(), self.query.as_str()).len();
            self.list.reset(count + 1);
            return WebSearchStep::Stay;
        }
        let at: usize = self.list.at();
        if at == 0 {
            return if key.code == KeyCode::Enter {
                WebSearchStep::Close
            } else {
                WebSearchStep::Stay
            };
        }
        let index: usize = visible[at - 1];
        self.query_cursor = cursor_at_end(self.query.as_str());
        let ready: bool = self.rows[index].ready;
        if key.code == KeyCode::Enter && ready {
            WebSearchStep::Use(index)
        } else if key.code == KeyCode::Char('d') {
            if ready {
                WebSearchStep::Remove(index)
            } else {
                WebSearchStep::Stay
            }
        } else if self.rows[index].provider == WebSearchProvider::Chatgpt {
            WebSearchStep::AskToConnect
        } else {
            WebSearchStep::SetUp(index)
        }
    }

    /// Shows other rows, after a provider was removed.
    pub fn refresh(&mut self, rows: Vec<WebSearchRow>)
        requires
            rows@.len() < usize::MAX,
        ensures
            final(self).rows == rows,
            final(self).query == old(self).query,
            final(self).query_cursor == old(self).query_cursor,
            final(self).list == old(self).list.reconciled(
                web_rows(rows@, old(self).query@).len() as int + 1,
                VISIBLE_MENU_ITEMS as int,
            ),
    {
        let count: usize = visible_web_rows(rows.as_slice(), self.query.as_str()).len();
        self.rows = rows;
        self.list.reconcile(count + 1, VISIBLE_MENU_ITEMS);
    }
}

/// The cursor of a field that no key has touched.
pub fn normalized(value: &str, cursor: usize) -> (at: usize)
    ensures
        field_is(value@, at as int, InputView::of(value@, cursor as int)),
{
    let input = crate::single_line_input::SingleLineInput::new(value.to_owned(), cursor);
    input.cursor()
}

/// A field that is submitted as a whole, such as a title or a URL.
#[derive(Debug)]
pub struct TextField {
    pub value: String,
    pub cursor: usize,
}

impl TextField {
    /// The effect of `key`.
    pub open spec fn key_effect(
        before: Self,
        after: Self,
        key: SurfaceKey,
        submitted: bool,
    ) -> bool {
        &&& (submitted == key.submit)
        &&& (field_is(
                after.value@,
                after.cursor as int,
                if submitted {
                    InputView::of(before.value@, before.cursor as int)
                } else {
                    field_after(before.value@, before.cursor as int, key.key)
                },
            ))
    }

    /// A key in the field; the result says whether the field is submitted.
    pub fn key(&mut self, key: SurfaceKey) -> (submitted: bool)
        ensures
            Self::key_effect(*old(self), *final(self), key, submitted),
    {
        if key.submit {
            self.cursor = normalized(self.value.as_str(), self.cursor);
            return true;
        }
        edit_field(&mut self.value, &mut self.cursor, key.key);
        false
    }
}

/// How a provider is logged in to.
#[derive(Clone, Copy, Debug, PartialEq, Eq, Structural)]
pub enum AuthFlow {
    Browser,
    DeviceCode,
}

/// A login that waits for the user.
#[derive(Debug)]
pub enum AuthChallenge {
    Browser { authorization_url: String },
    Device { verification_url: String, user_code: String },
}

/// Setting up a provider.
#[derive(Debug)]
pub struct ProviderSetup {
    pub provider_id: String,
    pub provider: String,
    pub instructions: String,
    pub credential_environment_variable: Option<String>,
    pub auth_challenge: Option<AuthChallenge>,
    pub managed_auth: bool,
    pub api_key_auth: bool,
    pub api_key: String,
    pub api_key_cursor: usize,
    pub auth_flows: Vec<AuthFlow>,
    pub authenticated: bool,
}

/// What is to be done after a key in a provider's setup.
#[derive(Clone, Copy, Debug, PartialEq, Eq, Structural)]
pub enum ProviderSetupStep {
    Stay,
    Close,
    SaveApiKey,
    /// Copy the code of a device login.
    CopyCode,
    /// Copy the URL of a login, on a device or in a browser.
    CopyUrl { device: bool },
    /// Open the URL of the login again.
    OpenBrowser,
    /// Begin a login; `launch` says whether a browser is opened for it, and
    /// `clear` whether the notice goes first.
    Begin { flow: AuthFlow, launch: bool, clear: bool },
}

/// Whether `flow` is among `flows`.
pub fn has_flow(flows: &[AuthFlow], flow: AuthFlow) -> (has: bool)
    ensures
        has == flows@.contains(flow),
{
    let mut i: usize = 0;
    while i < flows.len()
        invariant
            i <= flows@.len(),
            forall|k: int| 0 <= k < i ==> flows@[k] != flow,
        decreases flows@.len() - i,
    {
        if flows[i] == flow {
            return true;
        }
        i += 1;
    }
    false
}

impl ProviderSetup {
    /// What a key asks for where the provider is logged in to. `preferred` is
    /// the flow to use where there is a choice.
    pub open spec fn login_step(self, key: SurfaceKey, preferred: Option<AuthFlow>)
        -> ProviderSetupStep {
        let code = key.key.code;
        let flow = match preferred {
            None => AuthFlow::DeviceCode,
            Some(flow) => flow,
        };
        let in_browser = match self.auth_challenge {
            Some(AuthChallenge::Browser { .. }) => true,
            _ => false,
        };
        let on_device = match self.auth_challenge {
            Some(AuthChallenge::Device { .. }) => true,
            _ => false,
        };
        if key.submit && (!self.managed_auth || self.authenticated) {
            ProviderSetupStep::Close
        } else if !self.managed_auth {
            ProviderSetupStep::Stay
        } else if code == KeyCode::Char('C') && on_device {
            ProviderSetupStep::CopyCode
        } else if code == KeyCode::Char('c') {
            if self.auth_challenge is Some {
                ProviderSetupStep::CopyUrl { device: on_device }
            } else if self.auth_flows@ == seq![AuthFlow::DeviceCode] {
                ProviderSetupStep::Stay
            } else {
                ProviderSetupStep::Begin { flow, launch: false, clear: false }
            }
        } else if code == KeyCode::Char('d') && !self.auth_flows@.contains(AuthFlow::DeviceCode) {
            ProviderSetupStep::Stay
        } else if key.submit && in_browser {
            ProviderSetupStep::OpenBrowser
        } else if key.submit || code == KeyCode::Char('d') {
            ProviderSetupStep::Begin {
                flow: if key.submit { flow } else { AuthFlow::DeviceCode },
                launch: true,
                clear: code == KeyCode::Char('d'),
            }
        } else {
            ProviderSetupStep::Stay
        }
    }

    /// The effect of `key`.
    pub open spec fn key_effect(
        before: Self,
        after: Self,
        key: SurfaceKey,
        preferred: Option<AuthFlow>,
        step: ProviderSetupStep,
    ) -> bool {
        &&& (!before.api_key_auth ==> after == before && step == before.login_step(
                key,
                preferred,
            ))
        &&& (before.api_key_auth && (key.submit || key.key.code == KeyCode::Esc) ==> {
                &&& after == before
                &&& step == if key.submit {
                    ProviderSetupStep::SaveApiKey
                } else {
                    ProviderSetupStep::Close
                }
            })
        &&& (before.api_key_auth && !key.submit && key.key.code != KeyCode::Esc ==> {
                &&& step == ProviderSetupStep::Stay
                &&& field_is(
                    after.api_key@,
                    after.api_key_cursor as int,
                    field_after(before.api_key@, before.api_key_cursor as int, key.key),
                )
                &&& after == (ProviderSetup {
                    api_key: after.api_key,
                    api_key_cursor: after.api_key_cursor,
                    ..before
                })
            })
    }

    pub fn key(&mut self, key: SurfaceKey, preferred: Option<AuthFlow>) -> (step: ProviderSetupStep)
        ensures
            Self::key_effect(*old(self), *final(self), key, preferred, step),
    {
        if self.api_key_auth {
            if key.submit {
                return ProviderSetupStep::SaveApiKey;
            }
            if key.key.code == KeyCode::Esc {
                return ProviderSetupStep::Close;
            }
            edit_field(&mut self.api_key, &mut self.api_key_cursor, key.key);
            return ProviderSetupStep::Stay;
        }
        if key.submit && (!self.managed_auth || self.authenticated) {
            return ProviderSetupStep::Close;
        }
        if !self.managed_auth {
            return ProviderSetupStep::Stay;
        }
        let flow: AuthFlow = match preferred {
            None => AuthFlow::DeviceCode,
            Some(flow) => flow,
        };
        let waiting: bool = self.auth_challenge.is_some();
        let on_device: bool = match &self.auth_challenge {
            Some(AuthChallenge::Device { .. }) => true,
            _ => false,
        };
        let device: bool = key.key.code == KeyCode::Char('d');
        if key.key.code == KeyCode::Char('C') && on_device {
            return ProviderSetupStep::CopyCode;
        }
        if key.key.code == KeyCode::Char('c') {
            if waiting {
                return ProviderSetupStep::CopyUrl { device: on_device };
            }
            let only_device: bool = self.auth_flows.len() == 1 && self.auth_flows[0]
                == AuthFlow::DeviceCode;
            proof {
                if only_device {
                    assert(self.auth_flows@ =~= seq![AuthFlow::DeviceCode]);
                } else {
                    assert(seq![AuthFlow::DeviceCode][0] == AuthFlow::DeviceCode);
                }
            }
            return if only_device {
                ProviderSetupStep::Stay
            } else {
                ProviderSetupStep::Begin { flow, launch: false, clear: false }
            };
        }
        if device && !has_flow(self.auth_flows.as_slice(), AuthFlow::DeviceCode) {
            return ProviderSetupStep::Stay;
        }
        if key.submit && waiting && !on_device {
            return ProviderSetupStep::OpenBrowser;
        }
        if key.submit || device {
            return ProviderSetupStep::Begin {
                flow: if key.submit {
                    flow
                } else {
                    AuthFlow::DeviceCode
                },
                launch: true,
                clear: device,
            };
        }
        ProviderSetupStep::Stay
    }

    /// What is reported once an API key is saved: an empty one is removed.
    pub fn api_key_notice(&self) -> (notice: String)
        ensures
            notice@ == self.provider@ + (if trimmed(self.api_key@).len() == 0 {
                " API key removed"@
            } else {
                " API key saved"@
            }),
    {
        if trim(self.api_key.as_str()).as_str().is_empty() {
            concat(self.provider.as_str(), " API key removed")
        } else {
            concat(self.provider.as_str(), " API key saved")
        }
    }
}

/// What is reported of a login that was begun: `opened` and `copied` say
/// whether a browser could be opened and the clipboard be written.
pub open spec fn login_notice(
    challenge: AuthChallenge,
    provider: Seq<char>,
    launch: bool,
    opened: bool,
    copied: bool,
) -> Option<Seq<char>> {
    match challenge {
        AuthChallenge::Browser { authorization_url } => Some(
            if !launch {
                if copied {
                    "copied "@ + provider + " authentication URL"@
                } else {
                    "clipboard unavailable"@
                }
            } else if opened {
                "complete "@ + provider + " authentication in your browser"@
            } else {
                "open this URL to connect "@ + provider + ": "@ + authorization_url@
            },
        ),
        AuthChallenge::Device { verification_url, user_code } => if !launch {
            None
        } else {
            Some(
                if opened && copied {
                    "opened "@ + provider + " device login \u{b7} copied code "@ + user_code@
                } else if opened {
                    "opened "@ + provider + " device login \u{b7} copy code "@ + user_code@
                } else if copied {
                    "copied code "@ + user_code@ + " \u{b7} open "@ + verification_url@
                } else {
                    "open "@ + verification_url@ + " and enter code "@ + user_code@
                },
            )
        },
    }
}

/// What is reported of a login that was begun.
pub fn start_managed_provider_auth(
    challenge: &AuthChallenge,
    provider: &str,
    launch: bool,
    opened: bool,
    copied: bool,
) -> (notice: Option<String>)
    ensures
        (match notice {
            None => None,
            Some(notice) => Some(notice@),
        }) == login_notice(*challenge, provider@, launch, opened, copied),
{
    match challenge {
        AuthChallenge::Browser { authorization_url } => {
            if !launch {
                if copied {
                    Some(concat3("copied ", provider, " authentication URL"))
                } else {
                    Some("clipboard unavailable".to_owned())
                }
            } else if opened {
                Some(concat3("complete ", provider, " authentication in your browser"))
            } else {
                let head = concat3("open this URL to connect ", provider, ": ");
                Some(concat(head.as_str(), authorization_url.as_str()))
            }
        },
        AuthChallenge::Device { verification_url, user_code } => {
            if !launch {
                None
            } else if opened && copied {
                let head = concat3("opened ", provider, " device login \u{b7} copied code ");
                Some(concat(head.as_str(), user_code.as_str()))
            } else if opened {
                let head = concat3("opened ", provider, " device login \u{b7} copy code ");
                Some(concat(head.as_str(), user_code.as_str()))
            } else if copied {
                let head = concat3("copied code ", user_code.as_str(), " \u{b7} open ");
                Some(concat(head.as_str(), verification_url.as_str()))
            } else {
                let head = concat3("open ", verification_url.as_str(), " and enter code ");
                Some(concat(head.as_str(), user_code.as_str()))
            }
        },
    }
}

/// A provider that can be chosen.
#[derive(Debug)]
pub struct ProviderRow {
    pub id: String,
    pub label: String,
    pub status: String,
    pub enabled: bool,
    pub managed_auth: bool,
    pub api_key_auth: bool,
    pub has_managed_api_key: bool,
    /// What is still to be done before the provider can be used.
    pub setup_instructions: Option<String>,
    pub configuration_instructions: String,
    pub credential_environment_variable: Option<String>,
    pub auth_flows: Vec<AuthFlow>,
}

impl ProviderRow {
    /// Whether there is a login or an API key to remove.
    pub open spec fn removable_spec(self) -> bool {
        (self.managed_auth && self.setup_instructions is None) || (self.api_key_auth
            && self.has_managed_api_key)
    }

    /// Whether the provider can be set up again.
    pub open spec fn reconfigurable_spec(self) -> bool {
        (self.managed_auth && self.setup_instructions is None) || self.api_key_auth
    }

    /// The row once its login or API key is removed.
    pub fn removed(&mut self)
        ensures
            final(self).id == old(self).id,
            final(self).label == old(self).label,
            final(self).managed_auth == old(self).managed_auth,
            final(self).api_key_auth == old(self).api_key_auth,
            final(self).configuration_instructions == old(self).configuration_instructions,
            final(self).credential_environment_variable == old(
                self,
            ).credential_environment_variable,
            final(self).auth_flows == old(self).auth_flows,
            !final(self).enabled,
            !final(self).has_managed_api_key,
            final(self).status@ == "not setup"@,
            final(self).setup_instructions matches Some(text) && text@ == if old(
                self,
            ).api_key_auth {
                old(self).configuration_instructions@
            } else {
                "Connect your "@ + old(self).label@ + " account."@
            },
    {
        self.enabled = false;
        self.status = "not setup".to_owned();
        self.setup_instructions =
        Some(
            if self.api_key_auth {
                self.configuration_instructions.clone()
            } else {
                concat3("Connect your ", self.label.as_str(), " account.")
            },
        );
        self.has_managed_api_key = false;
    }
}

/// Choosing providers.
#[derive(Debug)]
pub struct Providers {
    pub rows: Vec<ProviderRow>,
    pub list: ListState,
    pub query: String,
    pub query_cursor: usize,
    /// Whether a model is chosen next.
    pub model_configuration_follows: bool,
}

/// What is to be done after a key in the provider picker. The numbers are
/// indices of rows.
#[derive(Clone, Copy, Debug, PartialEq, Eq, Structural)]
pub enum ProvidersStep {
    Stay,
    Close,
    /// Remove the login or the API key.
    Remove(usize),
    /// Set up again what is set up.
    Reconfigure(usize),
    SetUp(usize),
    /// Enable the provider, or disable it.
    Toggle(usize),
}

/// Whether a key is typed white space.
pub open spec fn types_whitespace(code: KeyCode) -> bool {
    code matches KeyCode::Char(c) && whitespace(c)
}

/// Whether a key is typed white space.
pub fn is_typed_whitespace(code: KeyCode) -> (yes: bool)
    ensures
        yes == types_whitespace(code),
{
    match code {
        KeyCode::Char(c) => is_whitespace(c),
        _ => false,
    }
}

impl Providers {
    /// The selection before the key is looked at.
    pub open spec fn at(self, visible: Seq<usize>) -> int {
        self.list.reconciled(visible.len() as int + 1, VISIBLE_MENU_ITEMS as int).at_spec()
    }

    /// What a key asks for, other than a movement or an edit.
    pub open spec fn command(self, key: SurfaceKey, visible: Seq<usize>, any_enabled: bool)
        -> ProvidersStep {
        let at = self.at(visible);
        if key.code == KeyCode::Up || key.code == KeyCode::Down {
            ProvidersStep::Stay
        } else if at == 0 {
            if key.code == KeyCode::Enter && !(self.model_configuration_follows && !any_enabled) {
                ProvidersStep::Close
            } else {
                ProvidersStep::Stay
            }
        } else {
            let index = visible[at - 1];
            let row = self.rows@[index as int];
            if key.code == KeyCode::Char('d') {
                if row.removable_spec() { ProvidersStep::Remove(index) } else { ProvidersStep::Stay }
            } else if key.code == KeyCode::Char('r') {
                if row.reconfigurable_spec() {
                    ProvidersStep::Reconfigure(index)
                } else {
                    ProvidersStep::Stay
                }
            } else if key.submit {
                if row.setup_instructions is Some {
                    ProvidersStep::SetUp(index)
                } else {
                    ProvidersStep::Toggle(index)
                }
            } else {
                ProvidersStep::Stay
            }
        }
    }

    /// Whether a key edits the query.
    pub open spec fn edits(self, key: SurfaceKey, visible: Seq<usize>) -> bool {
        let at = self.at(visible);
        &&& key.code != KeyCode::Up
        &&& key.code != KeyCode::Down
        &&& !(key.code == KeyCode::Enter && at == 0)
        &&& !((key.code == KeyCode::Char('d') || key.code == KeyCode::Char('r')) && at > 0)
        &&& !(key.submit && at > 0)
        &&& !types_whitespace(key.key.code)
        &&& field_takes(self.query@, self.query_cursor as int, key.key)
    }

    /// The effect of `key`.
    pub open spec fn key_effect(
        before: Self,
        after: Self,
        key: SurfaceKey,
        visible: Seq<usize>,
        any_enabled: bool,
        step: ProvidersStep,
    ) -> bool {
        &&& (after.rows == before.rows)
        &&& (after.model_configuration_follows == before.model_configuration_follows)
        &&& (step == before.command(key, visible, any_enabled))
        &&& (field_is(
                after.query@,
                after.query_cursor as int,
                if before.edits(key, visible) {
                    field_after(before.query@, before.query_cursor as int, key.key)
                } else {
                    InputView::of(before.query@, before.query_cursor as int)
                },
            ))
        &&& (after.list == if before.edits(key, visible) {
                settled(visible.len() as int + 1, 0, 0, 1).selecting(0, VISIBLE_MENU_ITEMS as int)
            } else {
                let at = before.at(visible);
                before.list.reconciled(
                    visible.len() as int + 1,
                    VISIBLE_MENU_ITEMS as int,
                ).selecting(
                    if key.code == KeyCode::Up {
                        less(at, 1)
                    } else if key.code == KeyCode::Down {
                        min(at + 1, visible.len() as int)
                    } else {
                        at
                    },
                    VISIBLE_MENU_ITEMS as int,
                )
            })
    }

    /// A key in the provider picker. `visible` are the rows that are shown for
    /// the query, and `any_enabled` says whether any provider is enabled.
    pub fn key(&mut self, key: SurfaceKey, visible: &[usize], any_enabled: bool) -> (step:
        ProvidersStep)
        requires
            visible@.len() < usize::MAX,
            forall|i: int| 0 <= i < visible@.len() ==> #[trigger] visible@[i] < old(
                self,
            ).rows@.len(),
        ensures
            Self::key_effect(*old(self), *final(self), key, visible@, any_enabled, step),
    {
        self.list.reconcile(visible.len() + 1, VISIBLE_MENU_ITEMS);
        let at: usize = self.list.at();
        let mut step: ProvidersStep = ProvidersStep::Stay;
        let mut selected: usize = at;
        let mut touched: bool = false;
        if key.code == KeyCode::Up {
            selected = at.saturating_sub(1);
        } else if key.code == KeyCode::Down {
            selected = if at + 1 <= visible.len() {
                at + 1
            } else {
                visible.len()
            };
        } else if key.code == KeyCode::Enter && at == 0 {
            if !(self.model_configuration_follows && !any_enabled) {
                step = ProvidersStep::Close;
            }
        } else if key.code == KeyCode::Char('d') && at > 0 {
            let row = &self.rows[visible[at - 1]];
            if (row.managed_auth && row.setup_instructions.is_none()) || (row.api_key_auth
                && row.has_managed_api_key) {
                step = ProvidersStep::Remove(visible[at - 1]);
            }
        } else if key.code == KeyCode::Char('r') && at > 0 {
            let row = &self.rows[visible[at - 1]];
            if (row.managed_auth && row.setup_instructions.is_none()) || row.api_key_auth {
                step = ProvidersStep::Reconfigure(visible[at - 1]);
            }
        } else if key.submit && at > 0 {
            if self.rows[visible[at - 1]].setup_instructions.is_some() {
                step = ProvidersStep::SetUp(visible[at - 1]);
            } else {
                step = ProvidersStep::Toggle(visible[at - 1]);
            }
        } else if !is_typed_whitespace(key.key.code) {
            touched = true;
            if edit_field(&mut self.query, &mut self.query_cursor, key.key) {
                selected = 0;
                self.list.reset(visible.len() + 1);
            }
        }
        if !touched {
            self.query_cursor = normalized(self.query.as_str(), self.query_cursor);
        }
        self.list.select(selected, VISIBLE_MENU_ITEMS);
        step
    }
}

/// A model that can be chosen.
#[derive(Debug)]
pub struct ModelRow {
    pub provider: String,
    pub id: String,
    pub label: String,
    /// What is shown beside the label, without the marks of a current or a
    /// favourite model.
    pub detail: String,
    pub efforts: Vec<String>,
    pub current: bool,
    pub favourite: bool,
}

/// Choosing a model.
#[derive(Debug)]
pub struct Models {
    pub rows: Vec<ModelRow>,
    pub list: ListState,
    pub query: String,
    pub query_cursor: usize,
    /// Whether the model is chosen for a setting.
    pub for_setting: bool,
}

/// What is to be done after a key in the model picker. The numbers are indices
/// of rows.
#[derive(Clone, Copy, Debug, PartialEq, Eq, Structural)]
pub enum ModelsStep {
    Stay,
    Select(usize),
    ToggleFavourite(usize),
    /// Use the model that the agent comes with.
    UseAgentDefault,
    /// Start over with the models that are shown for the edited query.
    Filter,
}

impl Models {
    /// The row under the cursor.
    pub open spec fn row_spec(self, visible: Seq<usize>) -> Option<usize> {
        let at = self.list.reconciled(
            visible.len() as int,
            VISIBLE_MENU_ITEMS as int,
        ).at_spec();
        if at < visible.len() { Some(visible[at]) } else { None }
    }

    pub open spec fn step(self, key: SurfaceKey, visible: Seq<usize>) -> ModelsStep {
        if action_of(key.code) is Some {
            ModelsStep::Stay
        } else if key.code == KeyCode::Enter {
            match self.row_spec(visible) {
                None => ModelsStep::Stay,
                Some(row) => ModelsStep::Select(row),
            }
        } else if key.code == KeyCode::Char('f') && key.key.modifiers.is_empty()
            && !self.for_setting {
            match self.row_spec(visible) {
                None => ModelsStep::Stay,
                Some(row) => ModelsStep::ToggleFavourite(row),
            }
        } else if !self.for_setting && key.exit {
            ModelsStep::UseAgentDefault
        } else if !types_whitespace(key.key.code) && field_takes(
            self.query@,
            self.query_cursor as int,
            key.key,
        ) {
            ModelsStep::Filter
        } else {
            ModelsStep::Stay
        }
    }

    /// The effect of `key`.
    pub open spec fn key_effect(
        before: Self,
        after: Self,
        key: SurfaceKey,
        visible: Seq<usize>,
        step: ModelsStep,
    ) -> bool {
        &&& (after.rows == before.rows)
        &&& (after.for_setting == before.for_setting)
        &&& (step == before.step(key, visible))
        &&& (after.list == list_after(
                before.list,
                visible.len() as int,
                VISIBLE_MENU_ITEMS as int,
                key.code,
            ))
        &&& (field_is(
                after.query@,
                after.query_cursor as int,
                if step == ModelsStep::Filter {
                    field_after(before.query@, before.query_cursor as int, key.key)
                } else {
                    InputView::of(before.query@, before.query_cursor as int)
                },
            ))
    }

    /// A key in the model picker. `visible` are the rows that are shown for the
    /// query.
    pub fn key(&mut self, key: SurfaceKey, visible: &[usize]) -> (step: ModelsStep)
        ensures
            Self::key_effect(*old(self), *final(self), key, visible@, step),
    {
        let moved: bool = move_list(&mut self.list, visible.len(), VISIBLE_MENU_ITEMS, key.code);
        let mut step: ModelsStep = ModelsStep::Stay;
        let mut touched: bool = false;
        if moved {
        } else if key.code == KeyCode::Enter {
            let at: usize = self.list.at();
            if at < visible.len() {
                step = ModelsStep::Select(visible[at]);
            }
        } else if key.code == KeyCode::Char('f') && key.key.modifiers.is_empty()
            && !self.for_setting {
            let at: usize = self.list.at();
            if at < visible.len() {
                step = ModelsStep::ToggleFavourite(visible[at]);
            }
        } else if !self.for_setting && key.exit {
            step = ModelsStep::UseAgentDefault;
        } else if !is_typed_whitespace(key.key.code) {
            touched = true;
            if edit_field(&mut self.query, &mut self.query_cursor, key.key) {
                step = ModelsStep::Filter;
            }
        }
        if !touched {
            self.query_cursor = normalized(self.query.as_str(), self.query_cursor);
        }
        step
    }
}

/// How the effort of a model is chosen.
#[derive(Clone, Copy, Debug, PartialEq, Eq, Structural)]
pub enum EffortFlow {
    Choose,
    NoneSupported,
    /// The only effort that there is.
    Automatic,
}

/// What is to be done with a model that was selected.
#[derive(Clone, Copy, Debug, PartialEq, Eq, Structural)]
pub enum ModelStep {
    /// Choose an effort, with this one selected.
    ChooseEffort(usize),
    /// Use the model without an effort.
    Apply,
    /// Use the model with its only effort.
    ApplyAutomatic,
}

/// The position of a text among some, or the number of them.
pub open spec fn position_of(texts: Seq<String>, wanted: Seq<char>) -> int
    decreases texts.len(),
{
    if texts.len() == 0 {
        0
    } else if texts[0]@ == wanted {
        0
    } else {
        1 + position_of(texts.drop_first(), wanted)
    }
}

pub proof fn lemma_position_of(texts: Seq<String>, wanted: Seq<char>)
    ensures
        0 <= position_of(texts, wanted) <= texts.len(),
    decreases texts.len(),
{
    if texts.len() > 0 {
        lemma_position_of(texts.drop_first(), wanted);
    }
}

/// The position of a text among some.
pub fn find_position(texts: &[String], wanted: &str) -> (at: Option<usize>)
    ensures
        match at {
            None => position_of(texts@, wanted@) == texts@.len(),
            Some(at) => at == position_of(texts@, wanted@) && at < texts@.len(),
        },
{
    let mut i: usize = 0;
    proof {
        assert(texts@.skip(0) =~= texts@);
    }
    while i < texts.len()
        invariant
            i <= texts@.len(),
            position_of(texts@, wanted@) == i + position_of(texts@.skip(i as int), wanted@),
        decreases texts@.len() - i,
    {
        proof {
            assert(texts@.skip(i as int).drop_first() =~= texts@.skip(i + 1));
        }
        if crate::menu::same_text(texts[i].as_str(), wanted) {
            return Some(i);
        }
        i += 1;
    }
    None
}

/// What is to be done with a model that was selected: for a setting it is used
/// as it is, else its effort is chosen where there is a choice. The effort in
/// use is selected first, if the model has it.
pub fn select_model_row(
    row: &ModelRow,
    for_setting: bool,
    flow: EffortFlow,
    effort: &Option<String>,
) -> (step: ModelStep)
    ensures
        step == if for_setting || flow == EffortFlow::NoneSupported {
            ModelStep::Apply
        } else if flow == EffortFlow::Automatic {
            ModelStep::ApplyAutomatic
        } else {
            ModelStep::ChooseEffort(
                match *effort {
                    None => 0,
                    Some(effort) => if position_of(row.efforts@, effort@) < row.efforts@.len() {
                        position_of(row.efforts@, effort@) as usize
                    } else {
                        0
                    },
                },
            )
        },
{
    if for_setting {
        return ModelStep::Apply;
    }
    match flow {
        EffortFlow::NoneSupported => ModelStep::Apply,
        EffortFlow::Automatic => ModelStep::ApplyAutomatic,
        EffortFlow::Choose => {
            let selected: usize = match effort {
                None => 0,
                Some(effort) => match find_position(row.efforts.as_slice(), effort.as_str()) {
                    None => 0,
                    Some(at) => at,
                },
            };
            ModelStep::ChooseEffort(selected)
        },
    }
}

/// The effect of `pick_key`.
pub open spec fn pick_key_effect(
    list: ListState,
    new_list: ListState,
    count: usize,
    code: KeyCode,
    picked: Option<usize>,
) -> bool {
    &&& (new_list == list_after(list, count as int, VISIBLE_MENU_ITEMS as int, code))
    &&& (picked == if code == KeyCode::Enter && count > 0 {
            Some(
                list.reconciled(count as int, VISIBLE_MENU_ITEMS as int).at_spec() as usize,
            )
        } else {
            None
        })
    &&& (picked matches Some(index) ==> index < count)
}

/// A key in a list from which one item is taken: the item that Enter takes.
pub fn pick_key(list: &mut ListState, count: usize, code: KeyCode) -> (picked: Option<usize>)
    ensures
        pick_key_effect(*old(list), *final(list), count, code, picked),
{
    let moved: bool = move_list(list, count, VISIBLE_MENU_ITEMS, code);
    if !moved && code == KeyCode::Enter {
        list.selected
    } else {
        None
    }
}

} // verus!
