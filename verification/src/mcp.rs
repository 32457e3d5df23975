//! The form of an MCP server, and the setup of a packaged one.

use vstd::prelude::*;
use vstd::string::*;
use crate::control::copy_text;
use crate::copies::copy_definition;
use crate::interaction::text_view;
use crate::json::{
    array_in, array_text, entry_views, in_key_order, json_array, json_object, object_in,
    object_text, parse_array, parse_object,
};
use crate::menu::{less, same_text};
use crate::number::{parse_unsigned, unsigned_in};
use crate::render::{concat, concat3, decimal, decimal_text, ellipsized, truncate_with_ellipsis};
use crate::text::utf8_len;
use crate::unicode::{display_width, text_width, trim, trimmed, views};

verus! {

/// How a server is reached.
#[derive(Debug)]
pub enum McpTransportConfig {
    Stdio {
        command: String,
        args: Vec<String>,
        cwd: Option<String>,
        env: Vec<(String, String)>,
        env_remove: Vec<String>,
        inherit_env: bool,
    },
    StreamableHttp { url: String, headers: Vec<(String, String)>, allow_insecure: bool },
}

/// A server as it is configured.
#[derive(Debug)]
pub struct McpServerDefinition {
    pub transport: McpTransportConfig,
    pub enabled: bool,
    pub agents: Vec<String>,
    pub eager: bool,
    pub startup_timeout_seconds: u64,
    pub request_timeout_seconds: u64,
    pub read_only_tools: Vec<String>,
    /// The package that the server comes from.
    pub package: Option<String>,
}

/// The content of a [`McpTransportConfig`].
#[verifier::ext_equal]
pub enum TransportView {
    Stdio {
        command: Seq<char>,
        args: Seq<Seq<char>>,
        cwd: Option<Seq<char>>,
        env: Seq<(Seq<char>, Seq<char>)>,
        env_remove: Seq<Seq<char>>,
        inherit_env: bool,
    },
    StreamableHttp {
        url: Seq<char>,
        headers: Seq<(Seq<char>, Seq<char>)>,
        allow_insecure: bool,
    },
}

impl View for McpTransportConfig {
    type V = TransportView;

    open spec fn view(&self) -> TransportView {
        match *self {
            McpTransportConfig::Stdio { command, args, cwd, env, env_remove, inherit_env } => {
                TransportView::Stdio {
                    command: command@,
                    args: views(args@),
                    cwd: text_view(cwd),
                    env: entry_views(env@),
                    env_remove: views(env_remove@),
                    inherit_env,
                }
            },
            McpTransportConfig::StreamableHttp { url, headers, allow_insecure } => {
                TransportView::StreamableHttp {
                    url: url@,
                    headers: entry_views(headers@),
                    allow_insecure,
                }
            },
        }
    }
}

/// The content of a [`McpServerDefinition`].
#[verifier::ext_equal]
pub struct DefinitionView {
    pub transport: TransportView,
    pub enabled: bool,
    pub agents: Seq<Seq<char>>,
    pub eager: bool,
    pub startup_timeout_seconds: u64,
    pub request_timeout_seconds: u64,
    pub read_only_tools: Seq<Seq<char>>,
    pub package: Option<Seq<char>>,
}

impl View for McpServerDefinition {
    type V = DefinitionView;

    open spec fn view(&self) -> DefinitionView {
        DefinitionView {
            transport: self.transport@,
            enabled: self.enabled,
            agents: views(self.agents@),
            eager: self.eager,
            startup_timeout_seconds: self.startup_timeout_seconds,
            request_timeout_seconds: self.request_timeout_seconds,
            read_only_tools: views(self.read_only_tools@),
            package: text_view(self.package),
        }
    }
}

/// Where a server is configured.
#[derive(Clone, Copy, Debug, PartialEq, Eq, Structural)]
pub enum McpScope {
    Global,
    Project,
    Agent,
}

/// Where a server is configured, and for which agent.
#[derive(Debug)]
pub struct McpLocation {
    pub scope: McpScope,
    pub agent: Option<String>,
}

/// A server that is being edited.
#[derive(Debug)]
pub struct McpFormDraft {
    /// Where the server was, and its name, unless it is new.
    pub original: Option<(McpLocation, String)>,
    pub location: McpLocation,
    pub name: String,
    pub definition: McpServerDefinition,
}

/// A field of the form that is edited as text.
#[derive(Clone, Copy, Debug, PartialEq, Eq, Structural)]
pub enum McpFormField {
    Name,
    Agents,
    StartupTimeout,
    RequestTimeout,
    ReadOnlyTools,
    Command,
    Arguments,
    Cwd,
    Environment,
    RemovedEnvironment,
    Url,
    Headers,
}

/// A change of the configuration.
#[derive(Debug)]
pub enum McpMutation {
    /// Configure a server under a name.
    Put { location: McpLocation, name: String, definition: McpServerDefinition },
    /// Rename a server, or configure it elsewhere.
    Move { from: McpLocation, name: String, to: McpLocation, new_name: String },
}

impl McpServerDefinition {
    pub open spec fn is_stdio(self) -> bool {
        self.transport is Stdio
    }

    fn stdio(&self) -> (yes: bool)
        ensures
            yes == self.is_stdio(),
    {
        match &self.transport {
            McpTransportConfig::Stdio { .. } => true,
            _ => false,
        }
    }
}

/// Whether a definition is that of a new server, which runs as a process if `transport`
/// is the first choice and is reached over HTTP otherwise.
pub open spec fn is_template(definition: McpServerDefinition, transport: usize) -> bool {
    &&& match definition.transport {
        McpTransportConfig::Stdio { command, args, cwd, env, env_remove, inherit_env } => {
            &&& transport == 1
            &&& command@ == Seq::<char>::empty()
            &&& args@ == Seq::<String>::empty()
            &&& cwd is None
            &&& env@ == Seq::<(String, String)>::empty()
            &&& env_remove@ == Seq::<String>::empty()
            &&& inherit_env
        },
        McpTransportConfig::StreamableHttp { url, headers, allow_insecure } => {
            &&& transport != 1
            &&& url@ == "https://"@
            &&& headers@ == Seq::<(String, String)>::empty()
            &&& !allow_insecure
        },
    }
    &&& definition.enabled
    &&& definition.agents@ == Seq::<String>::empty()
    &&& !definition.eager
    &&& definition.startup_timeout_seconds == 10
    &&& definition.request_timeout_seconds == 60
    &&& definition.read_only_tools@ == Seq::<String>::empty()
    &&& definition.package is None
}

/// A new server.
pub fn mcp_definition_template(transport: usize) -> (definition: McpServerDefinition)
    ensures
        is_template(definition, transport),
{
    let transport = if transport == 1 {
        McpTransportConfig::Stdio {
            command: String::new(),
            args: Vec::new(),
            cwd: None,
            env: Vec::new(),
            env_remove: Vec::new(),
            inherit_env: true,
        }
    } else {
        McpTransportConfig::StreamableHttp {
            url: "https://".to_owned(),
            headers: Vec::new(),
            allow_insecure: false,
        }
    };
    McpServerDefinition {
        transport,
        enabled: true,
        agents: Vec::new(),
        eager: false,
        startup_timeout_seconds: 10,
        request_timeout_seconds: 60,
        read_only_tools: Vec::new(),
        package: None,
    }
}

/// The last item of the form.
pub open spec fn form_maximum(definition: McpServerDefinition) -> int {
    if definition.is_stdio() { 14 } else { 11 }
}

pub fn mcp_form_maximum(definition: &McpServerDefinition) -> (maximum: usize)
    ensures
        maximum == form_maximum(*definition),
{
    if definition.stdio() {
        14
    } else {
        11
    }
}

/// The number of items of the form.
pub fn mcp_form_item_count(draft: &McpFormDraft) -> (count: usize)
    ensures
        count == form_maximum(draft.definition) + 1,
{
    if draft.definition.stdio() {
        15
    } else {
        12
    }
}

/// The field that an item of the form is.
pub open spec fn form_field(
    definition: McpServerDefinition,
    selected: int,
) -> Option<McpFormField> {
    if selected == 2 {
        Some(McpFormField::Name)
    } else if selected == 5 {
        Some(McpFormField::Agents)
    } else if selected == 6 {
        Some(McpFormField::StartupTimeout)
    } else if selected == 7 {
        Some(McpFormField::RequestTimeout)
    } else if selected == 8 {
        Some(McpFormField::ReadOnlyTools)
    } else if selected == 9 {
        Some(if definition.is_stdio() { McpFormField::Command } else { McpFormField::Url })
    } else if selected == 10 {
        Some(if definition.is_stdio() { McpFormField::Arguments } else { McpFormField::Headers })
    } else if selected == 11 && definition.is_stdio() {
        Some(McpFormField::Cwd)
    } else if selected == 12 {
        Some(McpFormField::Environment)
    } else if selected == 13 {
        Some(McpFormField::RemovedEnvironment)
    } else {
        None
    }
}

pub fn mcp_form_field(definition: &McpServerDefinition, selected: usize) -> (field: Option<
    McpFormField,
>)
    ensures
        field == form_field(*definition, selected as int),
{
    let stdio: bool = definition.stdio();
    match selected {
        2 => Some(McpFormField::Name),
        5 => Some(McpFormField::Agents),
        6 => Some(McpFormField::StartupTimeout),
        7 => Some(McpFormField::RequestTimeout),
        8 => Some(McpFormField::ReadOnlyTools),
        9 => Some(
            if stdio {
                McpFormField::Command
            } else {
                McpFormField::Url
            },
        ),
        10 => Some(
            if stdio {
                McpFormField::Arguments
            } else {
                McpFormField::Headers
            },
        ),
        11 => if stdio {
            Some(McpFormField::Cwd)
        } else {
            None
        },
        12 => Some(McpFormField::Environment),
        13 => Some(McpFormField::RemovedEnvironment),
        _ => None,
    }
}

/// The item of the form that a field is.
pub open spec fn field_index(field: McpFormField) -> int {
    match field {
        McpFormField::Name => 2,
        McpFormField::Agents => 5,
        McpFormField::StartupTimeout => 6,
        McpFormField::RequestTimeout => 7,
        McpFormField::ReadOnlyTools => 8,
        McpFormField::Command | McpFormField::Url => 9,
        McpFormField::Arguments | McpFormField::Headers => 10,
        McpFormField::Cwd => 11,
        McpFormField::Environment => 12,
        McpFormField::RemovedEnvironment => 13,
    }
}

pub fn mcp_form_field_index(field: McpFormField) -> (index: usize)
    ensures
        index == field_index(field),
{
    match field {
        McpFormField::Name => 2,
        McpFormField::Agents => 5,
        McpFormField::StartupTimeout => 6,
        McpFormField::RequestTimeout => 7,
        McpFormField::ReadOnlyTools => 8,
        McpFormField::Command | McpFormField::Url => 9,
        McpFormField::Arguments | McpFormField::Headers => 10,
        McpFormField::Cwd => 11,
        McpFormField::Environment => 12,
        McpFormField::RemovedEnvironment => 13,
    }
}

/// Whether a field belongs to the transport of a server, or to any server.
pub open spec fn field_fits(definition: McpServerDefinition, field: McpFormField) -> bool {
    match field {
        McpFormField::Command
        | McpFormField::Arguments
        | McpFormField::Cwd
        | McpFormField::Environment
        | McpFormField::RemovedEnvironment => definition.is_stdio(),
        McpFormField::Url | McpFormField::Headers => !definition.is_stdio(),
        _ => true,
    }
}

/// Returning from a field selects the item that opened it, and each field that
/// fits the transport has an item.
pub proof fn law_form_items_and_fields_agree(
    definition: McpServerDefinition,
    selected: int,
    field: McpFormField,
)
    ensures
        form_field(definition, selected) matches Some(found) ==> field_index(found) == selected,
        field_fits(definition, field) ==> form_field(definition, field_index(field)) == Some(field),
        field_fits(definition, field) ==> 2 <= field_index(field) < form_maximum(definition),
{
}

/// Whether a field is edited as JSON.
pub open spec fn uses_json(field: McpFormField) -> bool {
    match field {
        McpFormField::Agents
        | McpFormField::ReadOnlyTools
        | McpFormField::Arguments
        | McpFormField::Environment
        | McpFormField::RemovedEnvironment
        | McpFormField::Headers => true,
        _ => false,
    }
}

pub fn mcp_field_uses_json(field: McpFormField) -> (yes: bool)
    ensures
        yes == uses_json(field),
{
    match field {
        McpFormField::Agents
        | McpFormField::ReadOnlyTools
        | McpFormField::Arguments
        | McpFormField::Environment
        | McpFormField::RemovedEnvironment
        | McpFormField::Headers => true,
        _ => false,
    }
}

pub open spec fn field_label(field: McpFormField) -> Seq<char> {
    match field {
        McpFormField::Name => "name"@,
        McpFormField::Agents => "assigned agents JSON array"@,
        McpFormField::StartupTimeout => "startup timeout seconds"@,
        McpFormField::RequestTimeout => "request timeout seconds"@,
        McpFormField::ReadOnlyTools => "read-only tools JSON array"@,
        McpFormField::Command => "command"@,
        McpFormField::Arguments => "arguments JSON array"@,
        McpFormField::Cwd => "working directory"@,
        McpFormField::Environment => "environment JSON object"@,
        McpFormField::RemovedEnvironment => "removed variables JSON array"@,
        McpFormField::Url => "URL"@,
        McpFormField::Headers => "headers JSON object"@,
    }
}

pub fn mcp_field_label(field: McpFormField) -> (label: &'static str)
    ensures
        label@ == field_label(field),
{
    match field {
        McpFormField::Name => "name",
        McpFormField::Agents => "assigned agents JSON array",
        McpFormField::StartupTimeout => "startup timeout seconds",
        McpFormField::RequestTimeout => "request timeout seconds",
        McpFormField::ReadOnlyTools => "read-only tools JSON array",
        McpFormField::Command => "command",
        McpFormField::Arguments => "arguments JSON array",
        McpFormField::Cwd => "working directory",
        McpFormField::Environment => "environment JSON object",
        McpFormField::RemovedEnvironment => "removed variables JSON array",
        McpFormField::Url => "URL",
        McpFormField::Headers => "headers JSON object",
    }
}

/// Whether an item of the form is switched on and off by Enter.
pub fn is_mcp_form_boolean(definition: &McpServerDefinition, selected: usize) -> (yes: bool)
    ensures
        yes == (selected == form_maximum(*definition)),
{
    if definition.stdio() {
        selected == 14
    } else {
        selected == 11
    }
}

/// The transport with its last item switched.
pub open spec fn toggled(transport: McpTransportConfig) -> McpTransportConfig {
    match transport {
        McpTransportConfig::Stdio { command, args, cwd, env, env_remove, inherit_env } =>
            McpTransportConfig::Stdio {
                command,
                args,
                cwd,
                env,
                env_remove,
                inherit_env: !inherit_env,
            },
        McpTransportConfig::StreamableHttp { url, headers, allow_insecure } =>
            McpTransportConfig::StreamableHttp { url, headers, allow_insecure: !allow_insecure },
    }
}

/// Switches the item, if it is the last of the form.
pub fn toggle_mcp_form_boolean(definition: &mut McpServerDefinition, selected: usize)
    ensures
        *final(definition) == if selected == form_maximum(*old(definition)) {
            McpServerDefinition { transport: toggled(old(definition).transport), ..*old(definition) }
        } else {
            *old(definition)
        },
{
    match &mut definition.transport {
        McpTransportConfig::Stdio { inherit_env, .. } => {
            if selected == 14 {
                *inherit_env = !*inherit_env;
            }
        },
        McpTransportConfig::StreamableHttp { allow_insecure, .. } => {
            if selected == 11 {
                *allow_insecure = !*allow_insecure;
            }
        },
    }
}

/// A second switch undoes the first.
pub proof fn law_toggle_undoes_itself(transport: McpTransportConfig)
    ensures
        toggled(toggled(transport)) == transport,
        toggled(transport) != transport,
{
}

/// The next place to configure a server: global, project, agent, and again.
pub fn next_mcp_location(location: &McpLocation, active_agent: String) -> (next: McpLocation)
    ensures
        next == match location.scope {
            McpScope::Global => McpLocation { scope: McpScope::Project, agent: None },
            McpScope::Project => McpLocation { scope: McpScope::Agent, agent: Some(active_agent) },
            McpScope::Agent => McpLocation { scope: McpScope::Global, agent: None },
        },
        next.scope == next_scope(location.scope),
{
    match location.scope {
        McpScope::Global => McpLocation { scope: McpScope::Project, agent: None },
        McpScope::Project => McpLocation { scope: McpScope::Agent, agent: Some(active_agent) },
        McpScope::Agent => McpLocation { scope: McpScope::Global, agent: None },
    }
}

pub open spec fn next_scope(scope: McpScope) -> McpScope {
    match scope {
        McpScope::Global => McpScope::Project,
        McpScope::Project => McpScope::Agent,
        McpScope::Agent => McpScope::Global,
    }
}

/// Three steps lead back to the same scope, and no fewer.
pub proof fn law_scopes_form_a_ring(scope: McpScope)
    ensures
        next_scope(next_scope(next_scope(scope))) == scope,
        next_scope(scope) != scope,
        next_scope(next_scope(scope)) != scope,
{
}

/// What a field holds.
#[verifier::ext_equal]
pub enum FieldContent {
    Text(Seq<char>),
    Number(u64),
    List(Seq<Seq<char>>),
    Table(Seq<(Seq<char>, Seq<char>)>),
    /// The field belongs to another transport.
    Missing,
}

/// What a field of a draft holds. A missing working directory is an empty text.
pub open spec fn field_content(draft: McpFormDraft, field: McpFormField) -> FieldContent {
    match field {
        McpFormField::Name => FieldContent::Text(draft.name@),
        McpFormField::Agents => FieldContent::List(views(draft.definition.agents@)),
        McpFormField::StartupTimeout => FieldContent::Number(
            draft.definition.startup_timeout_seconds,
        ),
        McpFormField::RequestTimeout => FieldContent::Number(
            draft.definition.request_timeout_seconds,
        ),
        McpFormField::ReadOnlyTools => FieldContent::List(views(draft.definition.read_only_tools@)),
        _ => transport_content(draft.definition.transport, field),
    }
}

/// What a field of a transport holds.
pub open spec fn transport_content(transport: McpTransportConfig, field: McpFormField)
    -> FieldContent {
    match transport {
        McpTransportConfig::Stdio { command, args, cwd, env, env_remove, .. } => match field {
            McpFormField::Command => FieldContent::Text(command@),
            McpFormField::Arguments => FieldContent::List(views(args@)),
            McpFormField::Cwd => FieldContent::Text(
                match cwd {
                    None => Seq::empty(),
                    Some(cwd) => cwd@,
                },
            ),
            McpFormField::Environment => FieldContent::Table(entry_views(env@)),
            McpFormField::RemovedEnvironment => FieldContent::List(views(env_remove@)),
            _ => FieldContent::Missing,
        },
        McpTransportConfig::StreamableHttp { url, headers, .. } => match field {
            McpFormField::Url => FieldContent::Text(url@),
            McpFormField::Headers => FieldContent::Table(entry_views(headers@)),
            _ => FieldContent::Missing,
        },
    }
}

/// The text in which a field is edited.
pub open spec fn shown_content(content: FieldContent) -> Seq<char> {
    match content {
        FieldContent::Text(text) => text,
        FieldContent::Number(value) => decimal(value as nat),
        FieldContent::List(items) => json_array(items),
        FieldContent::Table(entries) => json_object(entries),
        FieldContent::Missing => Seq::empty(),
    }
}

/// The text in which a field is edited.
pub fn mcp_form_field_value(draft: &McpFormDraft, field: McpFormField) -> (value: String)
    ensures
        value@ == shown_content(field_content(*draft, field)),
{
    match field {
        McpFormField::Name => draft.name.clone(),
        McpFormField::Agents => array_text(&draft.definition.agents),
        McpFormField::StartupTimeout => decimal_text(draft.definition.startup_timeout_seconds),
        McpFormField::RequestTimeout => decimal_text(draft.definition.request_timeout_seconds),
        McpFormField::ReadOnlyTools => array_text(&draft.definition.read_only_tools),
        _ => match &draft.definition.transport {
            McpTransportConfig::Stdio { command, args, cwd, env, env_remove, .. } => match field {
                McpFormField::Command => command.clone(),
                McpFormField::Arguments => array_text(args),
                McpFormField::Cwd => match cwd {
                    None => String::new(),
                    Some(cwd) => cwd.clone(),
                },
                McpFormField::Environment => object_text(env),
                McpFormField::RemovedEnvironment => array_text(env_remove),
                _ => String::new(),
            },
            McpTransportConfig::StreamableHttp { url, headers, .. } => match field {
                McpFormField::Url => url.clone(),
                McpFormField::Headers => object_text(headers),
                _ => String::new(),
            },
        },
    }
}

/// What an edited text stands for in a field, if it can stand there.
pub open spec fn content_in(field: McpFormField, value: Seq<char>) -> Option<FieldContent> {
    match field {
        McpFormField::Name => Some(FieldContent::Text(trimmed(value))),
        McpFormField::Command | McpFormField::Url => Some(FieldContent::Text(value)),
        McpFormField::Cwd => Some(
            FieldContent::Text(if trimmed(value).len() == 0 { Seq::empty() } else { value }),
        ),
        McpFormField::StartupTimeout | McpFormField::RequestTimeout => match unsigned_in(
            trimmed(value),
        ) {
            None => None,
            Some(number) => Some(FieldContent::Number(number)),
        },
        McpFormField::Agents
        | McpFormField::ReadOnlyTools
        | McpFormField::Arguments
        | McpFormField::RemovedEnvironment => match array_in(value) {
            None => None,
            Some(items) => Some(FieldContent::List(items)),
        },
        McpFormField::Environment | McpFormField::Headers => match object_in(value) {
            None => None,
            Some(entries) => Some(FieldContent::Table(entries)),
        },
    }
}

/// What is said of a field that belongs to another transport.
pub open spec fn misplaced(field: McpFormField) -> Seq<char> {
    match field {
        McpFormField::Command => "command is only valid for stdio"@,
        McpFormField::Arguments => "arguments are only valid for stdio"@,
        McpFormField::Cwd => "working directory is only valid for stdio"@,
        McpFormField::Environment => "environment is only valid for stdio"@,
        McpFormField::RemovedEnvironment => "removed variables are only valid for stdio"@,
        McpFormField::Url => "URL is only valid for HTTP"@,
        McpFormField::Headers => "headers are only valid for HTTP"@,
        _ => Seq::empty(),
    }
}

/// What a text that cannot stand in a field is told to be: the whole message
/// for a number, and the start of it for JSON.
pub open spec fn expectation(field: McpFormField) -> Seq<char> {
    match field {
        McpFormField::StartupTimeout => "startup timeout must be a positive integer"@,
        McpFormField::RequestTimeout => "request timeout must be a positive integer"@,
        McpFormField::Agents => "expected "@ + "array of assigned agents"@ + ": "@,
        McpFormField::ReadOnlyTools => "expected "@ + "array of tool names"@ + ": "@,
        McpFormField::Arguments => "expected "@ + "array of arguments"@ + ": "@,
        McpFormField::Environment => "expected "@ + "object of environment variables"@ + ": "@,
        McpFormField::RemovedEnvironment => "expected "@ + "array of variable names"@ + ": "@,
        McpFormField::Headers => "expected "@ + "object of HTTP headers"@ + ": "@,
        _ => Seq::empty(),
    }
}

/// What is switched on and off in a transport.
pub open spec fn flag(transport: McpTransportConfig) -> bool {
    match transport {
        McpTransportConfig::Stdio { inherit_env, .. } => inherit_env,
        McpTransportConfig::StreamableHttp { allow_insecure, .. } => allow_insecure,
    }
}

/// Whether two drafts agree on everything but what `field` holds.
pub open spec fn same_but(old: McpFormDraft, new: McpFormDraft, field: McpFormField) -> bool {
    &&& new.original == old.original
    &&& new.location == old.location
    &&& new.definition.enabled == old.definition.enabled
    &&& new.definition.eager == old.definition.eager
    &&& new.definition.package == old.definition.package
    &&& new.definition.is_stdio() == old.definition.is_stdio()
    &&& flag(new.definition.transport) == flag(old.definition.transport)
    &&& forall|other: McpFormField|
        other != field ==> #[trigger] field_content(new, other) == field_content(old, other)
}

/// The message of a refused JSON text.
fn json_error(expected: &str, error: &str) -> (message: String)
    ensures
        message@ == "expected "@ + expected@ + ": "@ + error@,
{
    let head: String = concat3("expected ", expected, ": ");
    concat(head.as_str(), error)
}

/// Whether a message tells why a text is refused. What follows the expectation of a
/// JSON text is the parser's.
pub open spec fn refused_for(
    definition: McpServerDefinition,
    field: McpFormField,
    message: Seq<char>,
) -> bool {
    if !field_fits(definition, field) {
        message == misplaced(field)
    } else if uses_json(field) {
        expectation(field).is_prefix_of(message)
    } else {
        message == expectation(field)
    }
}

/// Whether the text in which a field is edited can stand for what the field
/// holds. White space around a name and a blank working directory get lost, a
/// table is read in the order of its keys, and JSON is read up to a limit.
pub open spec fn is_readable(draft: McpFormDraft, field: McpFormField) -> bool {
    let content = field_content(draft, field);
    let shown = shown_content(content);
    &&& field_fits(draft.definition, field)
    &&& field == McpFormField::Name ==> trimmed(shown) == shown
    &&& field == McpFormField::Cwd && shown.len() > 0 ==> trimmed(shown).len() > 0
    &&& uses_json(field) ==> utf8_len(shown) <= u32::MAX
    &&& content is Table ==> in_key_order(content->Table_0)
}

/// Puts an edited text into a field. It is refused where the field belongs to
/// another transport or the text cannot stand there; the draft then stays as it
/// is. The text in which a readable field is shown is taken, and the field then
/// holds what it held. Of a refused JSON text the message tells what was expected; what follows
/// the colon is the parser's.
pub fn apply_mcp_form_field(draft: &mut McpFormDraft, field: McpFormField, value: &str) -> (result:
    Result<(), String>)
    ensures
        result is Ok <==> field_fits(old(draft).definition, field) && content_in(field, value@)
            is Some,
        result is Ok ==> Some(field_content(*final(draft), field)) == content_in(field, value@)
            && same_but(*old(draft), *final(draft), field),
        result is Err ==> *final(draft) == *old(draft),
        result matches Err(message) ==> refused_for(old(draft).definition, field, message@),
        is_readable(*old(draft), field) && value@ == shown_content(
            field_content(*old(draft), field),
        ) ==> result is Ok && field_content(*final(draft), field) == field_content(
            *old(draft),
            field,
        ),
{
    proof {
        if is_readable(*draft, field) && !uses_json(field) {
            law_unchanged_fields_are_kept(*draft, field);
        }
    }
    match field {
        McpFormField::Name => {
            draft.name = trim(value);
        },
        McpFormField::Agents => match parse_array(value) {
            Ok(items) => {
                draft.definition.agents = items;
            },
            Err(error) => {
                return Err(json_error("array of assigned agents", error.as_str()));
            },
        },
        McpFormField::StartupTimeout => match parse_unsigned(trim(value).as_str()) {
            Some(seconds) => {
                draft.definition.startup_timeout_seconds = seconds;
            },
            None => {
                return Err("startup timeout must be a positive integer".to_owned());
            },
        },
        McpFormField::RequestTimeout => match parse_unsigned(trim(value).as_str()) {
            Some(seconds) => {
                draft.definition.request_timeout_seconds = seconds;
            },
            None => {
                return Err("request timeout must be a positive integer".to_owned());
            },
        },
        McpFormField::ReadOnlyTools => match parse_array(value) {
            Ok(items) => {
                draft.definition.read_only_tools = items;
            },
            Err(error) => {
                return Err(json_error("array of tool names", error.as_str()));
            },
        },
        McpFormField::Command => match &mut draft.definition.transport {
            McpTransportConfig::Stdio { command, .. } => {
                *command = value.to_owned();
            },
            _ => {
                return Err("command is only valid for stdio".to_owned());
            },
        },
        McpFormField::Arguments => match &mut draft.definition.transport {
            McpTransportConfig::Stdio { args, .. } => match parse_array(value) {
                Ok(items) => {
                    *args = items;
                },
                Err(error) => {
                    return Err(json_error("array of arguments", error.as_str()));
                },
            },
            _ => {
                return Err("arguments are only valid for stdio".to_owned());
            },
        },
        McpFormField::Cwd => match &mut draft.definition.transport {
            McpTransportConfig::Stdio { cwd, .. } => {
                *cwd =
                if trim(value).as_str().is_empty() {
                    None
                } else {
                    Some(value.to_owned())
                };
            },
            _ => {
                return Err("working directory is only valid for stdio".to_owned());
            },
        },
        McpFormField::Environment => match &mut draft.definition.transport {
            McpTransportConfig::Stdio { env, .. } => match parse_object(value) {
                Ok(entries) => {
                    *env = entries;
                },
                Err(error) => {
                    return Err(json_error("object of environment variables", error.as_str()));
                },
            },
            _ => {
                return Err("environment is only valid for stdio".to_owned());
            },
        },
        McpFormField::RemovedEnvironment => match &mut draft.definition.transport {
            McpTransportConfig::Stdio { env_remove, .. } => match parse_array(value) {
                Ok(items) => {
                    *env_remove = items;
                },
                Err(error) => {
                    return Err(json_error("array of variable names", error.as_str()));
                },
            },
            _ => {
                return Err("removed variables are only valid for stdio".to_owned());
            },
        },
        McpFormField::Url => match &mut draft.definition.transport {
            McpTransportConfig::StreamableHttp { url, .. } => {
                *url = value.to_owned();
            },
            _ => {
                return Err("URL is only valid for HTTP".to_owned());
            },
        },
        McpFormField::Headers => match &mut draft.definition.transport {
            McpTransportConfig::StreamableHttp { headers, .. } => match parse_object(value) {
                Ok(entries) => {
                    *headers = entries;
                },
                Err(error) => {
                    return Err(json_error("object of HTTP headers", error.as_str()));
                },
            },
            _ => {
                return Err("headers are only valid for HTTP".to_owned());
            },
        },
    }
    Ok(())
}

/// Saving a field that was not changed changes nothing: what a field shows
/// stands for what it holds. It holds of the readable fields that are not JSON;
/// of those that are, `apply_mcp_form_field` states it.
pub proof fn law_unchanged_fields_are_kept(draft: McpFormDraft, field: McpFormField)
    requires
        is_readable(draft, field),
        !uses_json(field),
    ensures
        content_in(field, shown_content(field_content(draft, field))) == Some(
            field_content(draft, field),
        ),
{
    let shown = shown_content(field_content(draft, field));
    match field {
        McpFormField::StartupTimeout => {
            lemma_decimal_is_trimmed(draft.definition.startup_timeout_seconds as nat);
            crate::number::law_numbers_are_read_back(draft.definition.startup_timeout_seconds);
        },
        McpFormField::RequestTimeout => {
            lemma_decimal_is_trimmed(draft.definition.request_timeout_seconds as nat);
            crate::number::law_numbers_are_read_back(draft.definition.request_timeout_seconds);
        },
        McpFormField::Cwd => {
            if shown.len() == 0 {
                assert(shown =~= Seq::empty());
            }
        },
        _ => {},
    }
}

proof fn lemma_decimal_is_trimmed(value: nat)
    ensures
        trimmed(decimal(value)) == decimal(value),
{
    let text = decimal(value);
    crate::number::lemma_decimal(value);
    assert(crate::number::is_digit(text.last()));
    assert(crate::number::is_digit(text[0]));
    assert(text.take(text.len() as int) =~= text);
    assert(text.skip(0) =~= text);
}

/// Whether two places are the same.
fn same_location(left: &McpLocation, right: &McpLocation) -> (same: bool)
    ensures
        same == location_eq(*left, *right),
{
    if left.scope != right.scope {
        return false;
    }
    match (&left.agent, &right.agent) {
        (None, None) => true,
        (Some(a), Some(b)) => same_text(a.as_str(), b.as_str()),
        _ => false,
    }
}

pub open spec fn location_eq(left: McpLocation, right: McpLocation) -> bool {
    left.scope == right.scope && match (left.agent, right.agent) {
        (None, None) => true,
        (Some(a), Some(b)) => a@ == b@,
        _ => false,
    }
}

pub fn copy_location(location: &McpLocation) -> (copy: McpLocation)
    ensures
        copy == *location,
{
    McpLocation { scope: location.scope, agent: copy_text(&location.agent) }
}

/// Whether a draft has another place or another name than the server had.
pub open spec fn moved(draft: McpFormDraft) -> bool {
    match draft.original {
        None => false,
        Some((location, name)) => !(location_eq(location, draft.location) && name@ == draft.name@),
    }
}

/// Whether a change puts a server where a draft says, as the draft defines it.
pub open spec fn puts(mutation: McpMutation, draft: McpFormDraft) -> bool {
    mutation matches McpMutation::Put { location, name, definition } && location == draft.location
        && name == draft.name && definition@ == draft.definition@
}

/// The changes that save a draft: the server is put where the draft says, and
/// moved there first if it was elsewhere or named otherwise.
pub fn mcp_form_mutations(draft: &McpFormDraft) -> (mutations: Vec<McpMutation>)
    ensures
        mutations@.len() == if moved(*draft) { 2int } else { 1 },
        puts(mutations@.last(), *draft),
        moved(*draft) ==> mutations@[0] == (McpMutation::Move {
            from: draft.original->Some_0.0,
            name: draft.original->Some_0.1,
            to: draft.location,
            new_name: draft.name,
        }),
{
    let put = McpMutation::Put {
        location: copy_location(&draft.location),
        name: draft.name.clone(),
        definition: copy_definition(&draft.definition),
    };
    let mut mutations: Vec<McpMutation> = Vec::new();
    if let Some((location, name)) = &draft.original {
        if !(same_location(location, &draft.location) && same_text(
            name.as_str(),
            draft.name.as_str(),
        )) {
            mutations.push(
                McpMutation::Move {
                    from: copy_location(location),
                    name: name.clone(),
                    to: copy_location(&draft.location),
                    new_name: draft.name.clone(),
                },
            );
        }
    }
    mutations.push(put);
    mutations
}

/// A truth value as text.
pub open spec fn truth(value: bool) -> Seq<char> {
    if value { "true"@ } else { "false"@ }
}

fn truth_text(value: bool) -> (text: String)
    ensures
        text@ == truth(value),
{
    if value {
        "true".to_owned()
    } else {
        "false".to_owned()
    }
}

/// The items of the form: their labels and what they show.
pub open spec fn form_rows(draft: McpFormDraft) -> Seq<(Seq<char>, Seq<char>)> {
    let shown = |field: McpFormField| shown_content(field_content(draft, field));
    let common = seq![
        ("Close"@, Seq::empty()),
        ("Preview and save"@, "validate before writing"@),
        ("Name"@, draft.name@),
        (
            "Scope"@,
            match draft.location.scope {
                McpScope::Global => "global"@,
                McpScope::Project => "project"@,
                McpScope::Agent => "removed agent scope"@,
            },
        ),
        ("Enabled"@, truth(draft.definition.enabled)),
        ("Assigned agents"@, shown(McpFormField::Agents)),
        (
            "Startup timeout"@,
            decimal(draft.definition.startup_timeout_seconds as nat) + " seconds"@,
        ),
        (
            "Request timeout"@,
            decimal(draft.definition.request_timeout_seconds as nat) + " seconds"@,
        ),
        ("Read-only tools"@, shown(McpFormField::ReadOnlyTools)),
    ];
    let last = truth(flag(draft.definition.transport));
    if draft.definition.is_stdio() {
        common + seq![
            ("Command"@, shown(McpFormField::Command)),
            ("Arguments"@, shown(McpFormField::Arguments)),
            ("Working directory"@, shown(McpFormField::Cwd)),
            ("Environment"@, shown(McpFormField::Environment)),
            ("Removed variables"@, shown(McpFormField::RemovedEnvironment)),
            ("Inherit environment"@, last),
        ]
    } else {
        common + seq![
            ("URL"@, shown(McpFormField::Url)),
            ("Headers"@, shown(McpFormField::Headers)),
            ("Allow insecure"@, last),
        ]
    }
}

/// An item of the form as it is shown in `width` columns.
pub open spec fn form_choice(row: (Seq<char>, Seq<char>), width: int) -> (Seq<char>, Seq<char>) {
    (row.0, ellipsized(row.1, less(less(less(width, 2), display_width(row.0) as int), 2)))
}

fn push_row(rows: &mut Vec<(String, String)>, label: &str, detail: String, width: u16)
    ensures
        entry_views(final(rows)@) == entry_views(old(rows)@).push(
            form_choice((label@, detail@), width as int),
        ),
{
    let available: usize = (width as usize).saturating_sub(2).saturating_sub(
        text_width(label),
    ).saturating_sub(2);
    rows.push((label.to_owned(), truncate_with_ellipsis(detail.as_str(), available)));
    proof {
        assert(entry_views(rows@) =~= entry_views(old(rows)@).push(
            form_choice((label@, detail@), width as int),
        ));
    }
}

/// The items of the form as they are shown in `width` columns.
pub fn mcp_form_choices(draft: &McpFormDraft, width: u16) -> (rows: Vec<(String, String)>)
    ensures
        entry_views(rows@) == form_rows(*draft).map_values(
            |row: (Seq<char>, Seq<char>)| form_choice(row, width as int),
        ),
        rows@.len() == form_maximum(draft.definition) + 1,
{
    let mut rows: Vec<(String, String)> = Vec::new();
    push_row(&mut rows, "Close", String::new(), width);
    push_row(&mut rows, "Preview and save", "validate before writing".to_owned(), width);
    push_row(&mut rows, "Name", draft.name.clone(), width);
    let scope: &str = match draft.location.scope {
        McpScope::Global => "global",
        McpScope::Project => "project",
        McpScope::Agent => "removed agent scope",
    };
    push_row(&mut rows, "Scope", scope.to_owned(), width);
    push_row(&mut rows, "Enabled", truth_text(draft.definition.enabled), width);
    push_row(
        &mut rows,
        "Assigned agents",
        mcp_form_field_value(draft, McpFormField::Agents),
        width,
    );
    push_row(
        &mut rows,
        "Startup timeout",
        concat(decimal_text(draft.definition.startup_timeout_seconds).as_str(), " seconds"),
        width,
    );
    push_row(
        &mut rows,
        "Request timeout",
        concat(decimal_text(draft.definition.request_timeout_seconds).as_str(), " seconds"),
        width,
    );
    push_row(
        &mut rows,
        "Read-only tools",
        mcp_form_field_value(draft, McpFormField::ReadOnlyTools),
        width,
    );
    match &draft.definition.transport {
        McpTransportConfig::Stdio { inherit_env, .. } => {
            push_row(
                &mut rows,
                "Command",
                mcp_form_field_value(draft, McpFormField::Command),
                width,
            );
            push_row(
                &mut rows,
                "Arguments",
                mcp_form_field_value(draft, McpFormField::Arguments),
                width,
            );
            push_row(
                &mut rows,
                "Working directory",
                mcp_form_field_value(draft, McpFormField::Cwd),
                width,
            );
            push_row(
                &mut rows,
                "Environment",
                mcp_form_field_value(draft, McpFormField::Environment),
                width,
            );
            push_row(
                &mut rows,
                "Removed variables",
                mcp_form_field_value(draft, McpFormField::RemovedEnvironment),
                width,
            );
            push_row(&mut rows, "Inherit environment", truth_text(*inherit_env), width);
        },
        McpTransportConfig::StreamableHttp { allow_insecure, .. } => {
            push_row(&mut rows, "URL", mcp_form_field_value(draft, McpFormField::Url), width);
            push_row(
                &mut rows,
                "Headers",
                mcp_form_field_value(draft, McpFormField::Headers),
                width,
            );
            push_row(&mut rows, "Allow insecure", truth_text(*allow_insecure), width);
        },
    }
    proof {
        assert(entry_views(rows@) =~= form_rows(*draft).map_values(
            |row: (Seq<char>, Seq<char>)| form_choice(row, width as int),
        ));
        assert(entry_views(rows@).len() == rows@.len());
    }
    rows
}

} // verus!
