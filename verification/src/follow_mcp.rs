//! What becomes of the surfaces of servers when a key asks for something.

use vstd::prelude::*;
use vstd::string::*;
use crate::app::{copy_server, same_server};
use crate::control::cursor_at_end;
use crate::copies::{copy_form, copy_setup, same_form, same_setup};
use crate::follow::{Change, Consequence, Said};
use crate::list::{settled, ListState};
use crate::mcp::{is_template, mcp_definition_template, McpFormDraft, McpLocation, McpScope};
use crate::mcp_control::{
    AddScopeStep, ListStep, McpFormStep, McpOAuthStep, McpServerStep, McpServersStep,
    PackageSetupStep, TransportStep,
};
use crate::mcp_package::McpPackageDraft;
use crate::multiline_input::MultilineInput;
use crate::providers::TextField;
use crate::render_mcp::{McpServerRow, McpTools};
use crate::single_line_input::InputView;
use crate::surface::Surface;
use crate::text::utf8_len;

verus! {

/// What a step on the list of servers leads to.
pub open spec fn servers_follow(step: McpServersStep, consequence: Consequence) -> bool {
    match step {
        McpServersStep::Stay => consequence.stays(),
        McpServersStep::Close => consequence.closes(),
        McpServersStep::Add => consequence.opened() == Some(Surface::McpAddScope { selected: 0 }),
        _ => consequence.waits(),
    }
}

pub fn follow_servers(step: &McpServersStep) -> (consequence: Consequence)
    ensures
        servers_follow(*step, consequence),
{
    match step {
        McpServersStep::Stay => Consequence::stay(),
        McpServersStep::Close => Consequence::close(),
        McpServersStep::Add => Consequence::open(Surface::McpAddScope { selected: 0 }),
        _ => Consequence::wait(),
    }
}

/// What a step on the list of packages leads to.
pub open spec fn catalog_follows(step: ListStep, consequence: Consequence) -> bool {
    match step {
        ListStep::Stay => consequence.stays(),
        ListStep::Close => consequence.closes(),
        ListStep::Open(_) => consequence.waits(),
    }
}

pub fn follow_catalog(step: &ListStep) -> (consequence: Consequence)
    ensures
        catalog_follows(*step, consequence),
{
    match step {
        ListStep::Stay => Consequence::stay(),
        ListStep::Close => Consequence::close(),
        ListStep::Open(_) => Consequence::wait(),
    }
}

/// What a step on a server leads to. The list of its tools is opened at once, for the
/// client to load, and its removal is confirmed first.
pub open spec fn server_follows(server: McpServerRow, step: McpServerStep, consequence: Consequence)
    -> bool {
    match step {
        McpServerStep::Stay => consequence.stays(),
        McpServerStep::Close => consequence.closes(),
        McpServerStep::Tools => {
            &&& consequence.perform
            &&& consequence.said is Nothing
            &&& consequence.change matches Change::Open(Surface::McpTools(tools)) && {
                &&& tools.server == server.name
                &&& tools.tools@.len() == 0
                &&& tools.list == settled(0, 0, 0, 1)
                &&& tools.loading
                &&& tools.failure is None
            }
        },
        McpServerStep::Remove => consequence.opened() matches Some(
            Surface::McpRemoveConfirm { server: removed, selected },
        ) && same_server(removed, server) && selected == 0,
        _ => consequence.waits(),
    }
}

pub fn follow_server(server: &McpServerRow, step: &McpServerStep) -> (consequence: Consequence)
    ensures
        server_follows(*server, *step, consequence),
{
    match step {
        McpServerStep::Stay => Consequence::stay(),
        McpServerStep::Close => Consequence::close(),
        McpServerStep::Tools => Consequence {
            change: Change::Open(
                Surface::McpTools(
                    McpTools {
                        server: server.name.clone(),
                        tools: Vec::new(),
                        list: ListState::selectable(0),
                        loading: true,
                        failure: None,
                    },
                ),
            ),
            said: Said::Nothing,
            perform: true,
        },
        McpServerStep::Remove => Consequence::open(
            Surface::McpRemoveConfirm { server: copy_server(server), selected: 0 },
        ),
        _ => Consequence::wait(),
    }
}

/// What a step on a login leads to.
pub open spec fn oauth_follows(step: McpOAuthStep, consequence: Consequence) -> bool {
    match step {
        McpOAuthStep::Stay => consequence.stays(),
        McpOAuthStep::Close => consequence.closes_and_acts(),
        _ => consequence.waits(),
    }
}

pub fn follow_oauth(step: &McpOAuthStep) -> (consequence: Consequence)
    ensures
        oauth_follows(*step, consequence),
{
    match step {
        McpOAuthStep::Stay => Consequence::stay(),
        McpOAuthStep::Close => Consequence::close_and_act(),
        _ => Consequence::wait(),
    }
}

/// What the choice of a place for a new server leads to.
pub open spec fn add_scope_follows(step: AddScopeStep, consequence: Consequence) -> bool {
    match step {
        AddScopeStep::Stay => consequence.stays(),
        AddScopeStep::Close => consequence.closes(),
        AddScopeStep::Global => consequence.opened() == Some(
            Surface::McpTransport { scope: McpScope::Global, selected: 0 },
        ),
        AddScopeStep::Project => consequence.opened() == Some(
            Surface::McpTransport { scope: McpScope::Project, selected: 0 },
        ),
    }
}

pub fn follow_add_scope(step: &AddScopeStep) -> (consequence: Consequence)
    ensures
        add_scope_follows(*step, consequence),
{
    match step {
        AddScopeStep::Stay => Consequence::stay(),
        AddScopeStep::Close => Consequence::close(),
        AddScopeStep::Global => Consequence::open(
            Surface::McpTransport { scope: McpScope::Global, selected: 0 },
        ),
        AddScopeStep::Project => Consequence::open(
            Surface::McpTransport { scope: McpScope::Project, selected: 0 },
        ),
    }
}

/// Whether an editor shows a text as JSON, with the cursor behind it.
pub open spec fn edits_json(editor: MultilineInput, text: Seq<char>) -> bool {
    editor@ == (InputView {
        language: Some("json"@),
        ..InputView::of(text, utf8_len(text) as int)
    })
}

/// An editor of a JSON text.
pub fn json_editor(text: String) -> (editor: MultilineInput)
    ensures
        edits_json(editor, text@),
{
    let cursor: usize = cursor_at_end(text.as_str());
    MultilineInput::new(text, cursor).with_syntax_language("json".to_owned())
}

/// What the choice of a transport leads to: the form of a new server, or an editor for
/// one that is written down in JSON.
pub open spec fn transport_follows(
    scope: McpScope,
    selected: usize,
    step: TransportStep,
    consequence: Consequence,
) -> bool {
    match step {
        TransportStep::Stay => consequence.stays(),
        TransportStep::Close => consequence.closes(),
        TransportStep::Form(first) => consequence.opened() matches Some(
            Surface::McpForm { draft, list },
        ) && {
            &&& draft.original is None
            &&& draft.location == (McpLocation { scope, agent: None })
            &&& draft.name@.len() == 0
            &&& is_template(draft.definition, selected)
            &&& list == first
        },
        TransportStep::Json => consequence.opened() matches Some(
            Surface::McpJsonEdit { location, separate_name, editor, tokens },
        ) && {
            &&& location == (McpLocation { scope, agent: None })
            &&& separate_name is None
            &&& edits_json(editor, "{\n  \n}"@)
            &&& tokens@.len() == 0
        },
    }
}

pub fn follow_transport(scope: McpScope, selected: usize, step: &TransportStep) -> (consequence:
    Consequence)
    ensures
        transport_follows(scope, selected, *step, consequence),
{
    match step {
        TransportStep::Stay => Consequence::stay(),
        TransportStep::Close => Consequence::close(),
        TransportStep::Form(list) => Consequence::open(
            Surface::McpForm {
                draft: McpFormDraft {
                    original: None,
                    location: McpLocation { scope, agent: None },
                    name: String::new(),
                    definition: mcp_definition_template(selected),
                },
                list: *list,
            },
        ),
        TransportStep::Json => Consequence::open(
            Surface::McpJsonEdit {
                location: McpLocation { scope, agent: None },
                separate_name: None,
                editor: json_editor("{\n  \n}".to_owned()),
                tokens: Vec::new(),
            },
        ),
    }
}

/// What a step on the form of a server leads to: a field is edited in a copy of the
/// draft.
pub open spec fn form_follows(draft: McpFormDraft, step: McpFormStep, consequence: Consequence)
    -> bool {
    match step {
        McpFormStep::Stay => consequence.stays(),
        McpFormStep::Close => consequence.closes(),
        McpFormStep::Edit { field: wanted, value, cursor } => consequence.opened() matches Some(
            Surface::McpFieldEdit { draft: copy, field, input, tokens },
        ) && {
            &&& same_form(copy, draft)
            &&& field == wanted
            &&& input.value == value
            &&& input.cursor == cursor
            &&& tokens@.len() == 0
        },
        _ => consequence.waits(),
    }
}

pub fn follow_form(draft: &McpFormDraft, step: &McpFormStep) -> (consequence: Consequence)
    ensures
        form_follows(*draft, *step, consequence),
{
    match step {
        McpFormStep::Stay => Consequence::stay(),
        McpFormStep::Close => Consequence::close(),
        McpFormStep::Edit { field, value, cursor } => Consequence::open(
            Surface::McpFieldEdit {
                draft: copy_form(draft),
                field: *field,
                input: TextField { value: value.clone(), cursor: *cursor },
                tokens: Vec::new(),
            },
        ),
        _ => Consequence::wait(),
    }
}

/// What a step on the setup of a package leads to: a value is edited in a copy of the
/// draft.
pub open spec fn package_follows(
    draft: McpPackageDraft,
    step: PackageSetupStep,
    consequence: Consequence,
) -> bool {
    match step {
        PackageSetupStep::Stay => consequence.stays(),
        PackageSetupStep::Save => consequence.waits(),
        PackageSetupStep::Edit { field: wanted, value, cursor } => consequence.opened() matches Some(
            Surface::McpPackageValueEdit { draft: copy, field, input },
        ) && {
            &&& same_setup(copy, draft)
            &&& field == wanted
            &&& input.value == value
            &&& input.cursor == cursor
        },
    }
}

pub fn follow_package(draft: &McpPackageDraft, step: &PackageSetupStep) -> (consequence:
    Consequence)
    ensures
        package_follows(*draft, *step, consequence),
{
    match step {
        PackageSetupStep::Stay => Consequence::stay(),
        PackageSetupStep::Save => Consequence::wait(),
        PackageSetupStep::Edit { field, value, cursor } => Consequence::open(
            Surface::McpPackageValueEdit {
                draft: copy_setup(draft),
                field: *field,
                input: TextField { value: value.clone(), cursor: *cursor },
            },
        ),
    }
}

} // verus!
