//! Keys in the surfaces of MCP servers.

use vstd::prelude::*;
use vstd::string::*;
use crate::control::{
    action_of, cursor_at_end, edit_field, field_after, field_is, list_after, move_list, SurfaceKey,
};
use crate::key::KeyCode;
use crate::list::{min, settled, VISIBLE_HELP_ITEMS, VISIBLE_MENU_ITEMS, ListAction, ListState};
use crate::mcp::{
    apply_mcp_form_field, content_in, field_content, field_fits, field_index, form_field,
    form_maximum, is_mcp_form_boolean, mcp_form_field, mcp_form_field_index, mcp_form_field_value,
    mcp_form_maximum, refused_for, same_but, shown_content, toggle_mcp_form_boolean, toggled,
    McpFormDraft, McpFormField, McpServerDefinition,
};
use crate::mcp_package::{
    apply_package_field, field_value, has_field, is_on, package_field_index, package_field_value,
    package_setup_count, package_setup_field, setup_count, setup_field, setup_index,
    toggle_parameter, value_error, value_in, McpPackageDraft, McpPackageField,
    McpPackageParameterType,
};
use crate::menu::less;
use crate::render::concat;
use crate::scroll::{ScrollViewAction, ScrollViewState};
use crate::text::utf8_len;

verus! {

/// Whether a key moves a selection in a short menu.
pub open spec fn steps(code: KeyCode) -> bool {
    action_of(code) is Some
}

/// The selection of a short menu after a key; `last` is its last item.
pub open spec fn stepped(selected: int, last: int, code: KeyCode) -> int {
    match code {
        KeyCode::Up => less(selected, 1),
        KeyCode::Down => min(selected + 1, last),
        KeyCode::PageUp | KeyCode::Home => 0,
        KeyCode::PageDown | KeyCode::End => last,
        _ => selected,
    }
}

/// Moves the selection of a short menu; the result says whether the key does.
pub fn step_index(selected: &mut usize, last: usize, code: KeyCode) -> (moved: bool)
    ensures
        *final(selected) == stepped(*old(selected) as int, last as int, code),
        moved == steps(code),
{
    match code {
        KeyCode::Up => {
            *selected = selected.saturating_sub(1);
            true
        },
        KeyCode::Down => {
            let next: usize = selected.saturating_add(1);
            *selected = if next <= last {
                next
            } else {
                last
            };
            true
        },
        KeyCode::PageUp | KeyCode::Home => {
            *selected = 0;
            true
        },
        KeyCode::PageDown | KeyCode::End => {
            *selected = last;
            true
        },
        _ => false,
    }
}

/// Moving in a short menu never leaves it.
pub proof fn law_short_menus_keep_their_selection(selected: int, last: int, code: KeyCode)
    requires
        0 <= selected <= last,
    ensures
        0 <= stepped(selected, last, code) <= last,
{
}

/// What is to be done after a key in the list of servers.
#[derive(Clone, Copy, Debug, PartialEq, Eq, Structural)]
pub enum McpServersStep {
    Stay,
    Close,
    Add,
    Catalog,
    /// Open the server with this index.
    Open(usize),
}

pub open spec fn servers_step(selected: int) -> McpServersStep {
    if selected == 0 {
        McpServersStep::Close
    } else if selected == 1 {
        McpServersStep::Add
    } else if selected == 2 {
        McpServersStep::Catalog
    } else {
        McpServersStep::Open((selected - 3) as usize)
    }
}

/// The effect of `mcp_servers_key`.
pub open spec fn mcp_servers_key_effect(
    list: ListState,
    new_list: ListState,
    servers: usize,
    code: KeyCode,
    step: McpServersStep,
) -> bool {
    &&& (new_list == list_after(list, servers + 3, VISIBLE_MENU_ITEMS as int, code))
    &&& (step == if code == KeyCode::Enter {
            servers_step(new_list.at_spec())
        } else {
            McpServersStep::Stay
        })
    &&& (step matches McpServersStep::Open(index) ==> index < servers)
}

/// A key in the list of servers: leave, add, take from the catalog, or open
/// one.
pub fn mcp_servers_key(list: &mut ListState, servers: usize, code: KeyCode) -> (step: McpServersStep)
    requires
        servers <= usize::MAX - 3,
    ensures
        mcp_servers_key_effect(*old(list), *final(list), servers, code, step),
{
    let moved: bool = move_list(list, servers + 3, VISIBLE_MENU_ITEMS, code);
    if moved || code != KeyCode::Enter {
        return McpServersStep::Stay;
    }
    match list.at() {
        0 => McpServersStep::Close,
        1 => McpServersStep::Add,
        2 => McpServersStep::Catalog,
        selected => McpServersStep::Open(selected - 3),
    }
}

/// What is to be done after a key in a list whose first item leaves it.
#[derive(Clone, Copy, Debug, PartialEq, Eq, Structural)]
pub enum ListStep {
    Stay,
    Close,
    /// Open the item with this index.
    Open(usize),
}

/// The effect of `mcp_catalog_key`.
pub open spec fn mcp_catalog_key_effect(
    list: ListState,
    new_list: ListState,
    items: usize,
    code: KeyCode,
    step: ListStep,
) -> bool {
    &&& (new_list == list_after(list, items + 1, VISIBLE_MENU_ITEMS as int, code))
    &&& (step == if code != KeyCode::Enter {
            ListStep::Stay
        } else if new_list.at_spec() == 0 {
            ListStep::Close
        } else {
            ListStep::Open((new_list.at_spec() - 1) as usize)
        })
    &&& (step matches ListStep::Open(index) ==> index < items)
}

/// A key in a list of `items` behind an item that leaves it, as in the catalog
/// of packages.
pub fn mcp_catalog_key(list: &mut ListState, items: usize, code: KeyCode) -> (step: ListStep)
    requires
        items < usize::MAX,
    ensures
        mcp_catalog_key_effect(*old(list), *final(list), items, code, step),
{
    let moved: bool = move_list(list, items + 1, VISIBLE_MENU_ITEMS, code);
    if moved || code != KeyCode::Enter {
        return ListStep::Stay;
    }
    let selected: usize = list.at();
    if selected == 0 {
        ListStep::Close
    } else {
        ListStep::Open(selected - 1)
    }
}

/// What is to be done after a key in the menu of a server.
#[derive(Clone, Copy, Debug, PartialEq, Eq, Structural)]
pub enum McpServerStep {
    Stay,
    Close,
    /// Enable the server, or disable it.
    ToggleEnabled,
    Form,
    Json,
    Tools,
    Login,
    Logout,
    PackageSetup,
    Remove,
}

/// The last item of the menu of a server: to remove it.
pub open spec fn remove_index(has_oauth: bool, has_package: bool) -> int {
    5 + (if has_oauth { 1int } else { 0 }) + (if has_package { 1int } else { 0 })
}

/// What an item of the menu of a server does.
pub open spec fn server_item(
    selected: int,
    has_oauth: bool,
    has_package: bool,
    connected: bool,
) -> McpServerStep {
    if selected == 0 {
        McpServerStep::Close
    } else if selected == 1 {
        McpServerStep::ToggleEnabled
    } else if selected == 2 {
        McpServerStep::Form
    } else if selected == 3 {
        McpServerStep::Json
    } else if selected == 4 {
        McpServerStep::Tools
    } else if selected == remove_index(has_oauth, has_package) {
        McpServerStep::Remove
    } else if has_oauth && selected == 5 {
        if connected { McpServerStep::Logout } else { McpServerStep::Login }
    } else if has_package && selected == remove_index(has_oauth, has_package) - 1 {
        McpServerStep::PackageSetup
    } else {
        McpServerStep::Stay
    }
}

/// The number of items in the menu of a server.
pub fn mcp_server_menu_item_count(has_oauth: bool, has_package: bool) -> (count: usize)
    ensures
        count == remove_index(has_oauth, has_package) + 1,
{
    let mut count: usize = 6;
    if has_oauth {
        count = count + 1;
    }
    if has_package {
        count = count + 1;
    }
    count
}

/// The effect of `mcp_server_key`.
pub open spec fn mcp_server_key_effect(
    selected: usize,
    new_selected: usize,
    has_oauth: bool,
    has_package: bool,
    connected: bool,
    code: KeyCode,
    step: McpServerStep,
) -> bool {
    &&& (new_selected == stepped(
            selected as int,
            remove_index(has_oauth, has_package),
            code,
        ))
    &&& (step == if code == KeyCode::Enter {
            server_item(selected as int, has_oauth, has_package, connected)
        } else {
            McpServerStep::Stay
        })
}

/// A key in the menu of a server.
pub fn mcp_server_key(
    selected: &mut usize,
    has_oauth: bool,
    has_package: bool,
    connected: bool,
    code: KeyCode,
) -> (step: McpServerStep)
    ensures
        mcp_server_key_effect(
            *old(selected),
            *final(selected),
            has_oauth,
            has_package,
            connected,
            code,
            step,
        ),
{
    let last: usize = mcp_server_menu_item_count(has_oauth, has_package) - 1;
    if step_index(selected, last, code) || code != KeyCode::Enter {
        return McpServerStep::Stay;
    }
    let at: usize = *selected;
    match at {
        0 => McpServerStep::Close,
        1 => McpServerStep::ToggleEnabled,
        2 => McpServerStep::Form,
        3 => McpServerStep::Json,
        4 => McpServerStep::Tools,
        _ => if at == last {
            McpServerStep::Remove
        } else if has_oauth && at == 5 {
            if connected {
                McpServerStep::Logout
            } else {
                McpServerStep::Login
            }
        } else if has_package && at == last - 1 {
            McpServerStep::PackageSetup
        } else {
            McpServerStep::Stay
        },
    }
}

/// Each item of a server's menu does something, and no two do the same.
pub proof fn law_server_menu_items_differ(
    first: int,
    second: int,
    has_oauth: bool,
    has_package: bool,
    connected: bool,
)
    requires
        0 <= first < second <= remove_index(has_oauth, has_package),
    ensures
        server_item(first, has_oauth, has_package, connected) != McpServerStep::Stay,
        server_item(first, has_oauth, has_package, connected) != server_item(
            second,
            has_oauth,
            has_package,
            connected,
        ),
{
}

/// What is reported of an MCP login that was begun.
pub open spec fn oauth_notice(opened: bool, copied: bool, what: Seq<char>) -> Seq<char> {
    if opened && copied {
        "opened MCP authentication \u{b7} copied "@ + what
    } else if opened {
        "opened MCP authentication \u{b7} could not copy "@ + what
    } else if copied {
        "browser unavailable \u{b7} copied MCP "@ + what
    } else {
        "browser and clipboard unavailable \u{b7} use the value shown"@
    }
}

/// What is reported of an MCP login that was begun: in a browser its URL is
/// copied, on a device its code.
pub fn mcp_login_notice(opened: bool, copied: bool, device: bool) -> (notice: String)
    ensures
        notice@ == oauth_notice(
            opened,
            copied,
            if device { "device code"@ } else { "login URL"@ },
        ),
{
    let what: &str = if device {
        "device code"
    } else {
        "login URL"
    };
    if opened && copied {
        concat("opened MCP authentication \u{b7} copied ", what)
    } else if opened {
        concat("opened MCP authentication \u{b7} could not copy ", what)
    } else if copied {
        concat("browser unavailable \u{b7} copied MCP ", what)
    } else {
        "browser and clipboard unavailable \u{b7} use the value shown".to_owned()
    }
}

/// What is to be done after a key during a login.
#[derive(Clone, Copy, Debug, PartialEq, Eq, Structural)]
pub enum McpOAuthStep {
    Stay,
    /// The login is done.
    Close,
    OpenBrowser,
    CopyUrl,
    CopyCode,
}

/// The effect of `mcp_oauth_key`.
pub open spec fn mcp_oauth_key_effect(
    key: SurfaceKey,
    connected: bool,
    device: bool,
    step: McpOAuthStep,
) -> bool {
    &&& (step == if connected && key.submit {
            McpOAuthStep::Close
        } else if key.code == KeyCode::Enter || key.code == KeyCode::Char('o') {
            McpOAuthStep::OpenBrowser
        } else if key.code == KeyCode::Char('c') {
            McpOAuthStep::CopyUrl
        } else if key.code == KeyCode::Char('C') && device {
            McpOAuthStep::CopyCode
        } else {
            McpOAuthStep::Stay
        })
}

/// A key during a login.
pub fn mcp_oauth_key(key: SurfaceKey, connected: bool, device: bool) -> (step: McpOAuthStep)
    ensures
        mcp_oauth_key_effect(key, connected, device, step),
{
    if connected && key.submit {
        return McpOAuthStep::Close;
    }
    match key.code {
        KeyCode::Enter => McpOAuthStep::OpenBrowser,
        KeyCode::Char('o') => McpOAuthStep::OpenBrowser,
        KeyCode::Char('c') => McpOAuthStep::CopyUrl,
        KeyCode::Char('C') => if device {
            McpOAuthStep::CopyCode
        } else {
            McpOAuthStep::Stay
        },
        _ => McpOAuthStep::Stay,
    }
}

/// What is to be done after a key in the setup of a package.
#[derive(Debug)]
pub enum PackageSetupStep {
    Stay,
    Save,
    /// Edit a field, starting from a text with the cursor at its end.
    Edit { field: McpPackageField, value: String, cursor: usize },
}

/// Whether an item of the setup is switched by Enter.
pub open spec fn switches(draft: McpPackageDraft, selected: int) -> Option<usize> {
    match setup_field(draft, selected) {
        Some(McpPackageField::Parameter(index)) => if draft.parameters@[index as int].kind
            == McpPackageParameterType::Boolean {
            Some(index)
        } else {
            None
        },
        _ => None,
    }
}

/// The effect of `package_setup_key`.
pub open spec fn package_setup_key_effect(
    draft: McpPackageDraft,
    new_draft: McpPackageDraft,
    selected: usize,
    new_selected: usize,
    code: KeyCode,
    step: PackageSetupStep,
) -> bool {
    &&& (new_draft.valid())
    &&& (new_draft.same_package(draft))
    &&& (new_draft.secret_updates == draft.secret_updates)
    &&& (new_selected == stepped(
            selected as int,
            setup_count(draft) - 1,
            code,
        ))
    &&& (code != KeyCode::Enter ==> step is Stay && new_draft == draft)
    &&& (code == KeyCode::Enter ==> {
            let at = selected as int;
            if at == 0 {
                step is Save && new_draft == draft
            } else {
                match switches(draft, at) {
                    Some(index) => {
                        &&& step is Stay
                        &&& new_draft.values@.len() == draft.values@.len()
                        &&& is_on(new_draft.values@[index as int]) != is_on(
                            draft.values@[index as int],
                        )
                        &&& forall|i: int|
                            0 <= i < draft.values@.len() && i != index ==>
                                new_draft.values@[i] == #[trigger] draft.values@[i]
                    },
                    None => {
                        &&& new_draft == draft
                        &&& match setup_field(draft, at) {
                            None => step is Stay,
                            Some(wanted) => step matches PackageSetupStep::Edit {
                                field,
                                value,
                                cursor,
                            } && field == wanted && value@ == field_value(draft, wanted)
                                && cursor == utf8_len(value@),
                        }
                    },
                }
            }
        })
}

/// A key in the setup of a package.
pub fn package_setup_key(draft: &mut McpPackageDraft, selected: &mut usize, code: KeyCode) -> (step:
    PackageSetupStep)
    requires
        old(draft).valid(),
    ensures
        package_setup_key_effect(
            *old(draft),
            *final(draft),
            *old(selected),
            *final(selected),
            code,
            step,
        ),
{
    let last: usize = package_setup_count(draft) - 1;
    if step_index(selected, last, code) || code != KeyCode::Enter {
        return PackageSetupStep::Stay;
    }
    if *selected == 0 {
        return PackageSetupStep::Save;
    }
    match package_setup_field(draft, *selected) {
        None => PackageSetupStep::Stay,
        Some(field) => {
            if let McpPackageField::Parameter(index) = field {
                if draft.parameters[index].kind == McpPackageParameterType::Boolean {
                    toggle_parameter(draft, index);
                    return PackageSetupStep::Stay;
                }
            }
            let value: String = package_field_value(draft, &field);
            let cursor: usize = cursor_at_end(value.as_str());
            PackageSetupStep::Edit { field, value, cursor }
        },
    }
}

/// What is to be done after a key in a field of a package.
#[derive(Debug)]
pub enum FieldStep {
    Stay,
    /// The field is saved: return to the item with this index.
    Saved(usize),
    /// The text is refused, for the reason given.
    Refused(String),
}

/// The effect of `package_value_key`.
pub open spec fn package_value_key_effect(
    draft: McpPackageDraft,
    new_draft: McpPackageDraft,
    field: McpPackageField,
    value: String,
    new_value: String,
    cursor: usize,
    new_cursor: usize,
    key: SurfaceKey,
    step: FieldStep,
) -> bool {
    &&& (new_draft.valid())
    &&& (new_draft.same_package(draft))
    &&& (!key.submit ==> {
            &&& step is Stay
            &&& new_draft == draft
            &&& field_is(
                new_value@,
                new_cursor as int,
                field_after(value@, cursor as int, key.key),
            )
        })
    &&& (key.submit ==> {
            &&& new_value == value
            &&& new_cursor == cursor
            &&& match field {
                McpPackageField::Secret(index) => {
                    &&& step == FieldStep::Saved(setup_index(draft, field) as usize)
                    &&& new_draft.values == draft.values
                    &&& new_draft.secret_updates@ == draft.secret_updates@.update(
                        index as int,
                        Some(value),
                    )
                },
                McpPackageField::Parameter(index) => {
                    let kind = draft.parameters@[index as int].kind;
                    match value_in(kind, value@) {
                        None => {
                            &&& new_draft == draft
                            &&& step matches FieldStep::Refused(reason) && reason@ == value_error(
                                kind,
                            )
                        },
                        Some(content) => {
                            &&& step == FieldStep::Saved(setup_index(draft, field) as usize)
                            &&& new_draft.secret_updates == draft.secret_updates
                            &&& new_draft.values@[index as int] matches Some(stored)
                                && stored@ == content
                            &&& forall|i: int|
                                0 <= i < draft.values@.len() && i != index ==>
                                    new_draft.values@[i] == #[trigger] draft.values@[i]
                        },
                    }
                },
            }
        })
}

/// A key in a field of a package.
pub fn package_value_key(
    draft: &mut McpPackageDraft,
    field: McpPackageField,
    value: &mut String,
    cursor: &mut usize,
    key: SurfaceKey,
) -> (step: FieldStep)
    requires
        old(draft).valid(),
        has_field(*old(draft), field),
    ensures
        package_value_key_effect(
            *old(draft),
            *final(draft),
            field,
            *old(value),
            *final(value),
            *old(cursor),
            *final(cursor),
            key,
            step,
        ),
{
    if !key.submit {
        edit_field(value, cursor, key.key);
        return FieldStep::Stay;
    }
    match apply_package_field(draft, &field, value.clone()) {
        Ok(()) => FieldStep::Saved(package_field_index(draft, field)),
        Err(reason) => FieldStep::Refused(reason),
    }
}

/// The effect of `mcp_tools_key`.
pub open spec fn mcp_tools_key_effect(
    list: ListState,
    new_list: ListState,
    tools: usize,
    code: KeyCode,
    close: bool,
) -> bool {
    &&& (new_list == list_after(list, tools as int, VISIBLE_MENU_ITEMS as int, code))
    &&& (close == (code == KeyCode::Enter))
}

/// A key in the list of a server's tools; the result says whether it is left.
pub fn mcp_tools_key(list: &mut ListState, tools: usize, code: KeyCode) -> (close: bool)
    ensures
        mcp_tools_key_effect(*old(list), *final(list), tools, code, close),
{
    let moved: bool = move_list(list, tools, VISIBLE_MENU_ITEMS, code);
    !moved && code == KeyCode::Enter
}

/// What is to be done after a key in a question with a way out.
#[derive(Clone, Copy, Debug, PartialEq, Eq, Structural)]
pub enum ConfirmStep {
    Stay,
    Cancel,
    Confirm,
}

/// The effect of `confirm_key`.
pub open spec fn confirm_key_effect(
    selected: usize,
    new_selected: usize,
    code: KeyCode,
    step: ConfirmStep,
) -> bool {
    &&& (new_selected == stepped(selected as int, 1, code))
    &&& (step == if code != KeyCode::Enter {
            ConfirmStep::Stay
        } else if selected == 0 {
            ConfirmStep::Cancel
        } else {
            ConfirmStep::Confirm
        })
}

/// A key where something is confirmed: the first item cancels, the second
/// confirms.
pub fn confirm_key(selected: &mut usize, code: KeyCode) -> (step: ConfirmStep)
    ensures
        confirm_key_effect(*old(selected), *final(selected), code, step),
{
    if step_index(selected, 1, code) || code != KeyCode::Enter {
        ConfirmStep::Stay
    } else if *selected == 0 {
        ConfirmStep::Cancel
    } else {
        ConfirmStep::Confirm
    }
}

/// What is to be done after a key where the scope of a new server is chosen.
#[derive(Clone, Copy, Debug, PartialEq, Eq, Structural)]
pub enum AddScopeStep {
    Stay,
    Close,
    Global,
    Project,
}

/// The effect of `mcp_add_scope_key`.
pub open spec fn mcp_add_scope_key_effect(
    selected: usize,
    new_selected: usize,
    code: KeyCode,
    step: AddScopeStep,
) -> bool {
    &&& (new_selected == stepped(selected as int, 2, code))
    &&& (step == if code != KeyCode::Enter {
            AddScopeStep::Stay
        } else if selected == 0 {
            AddScopeStep::Close
        } else if selected == 1 {
            AddScopeStep::Global
        } else {
            AddScopeStep::Project
        })
}

/// A key where the scope of a new server is chosen.
pub fn mcp_add_scope_key(selected: &mut usize, code: KeyCode) -> (step: AddScopeStep)
    ensures
        mcp_add_scope_key_effect(*old(selected), *final(selected), code, step),
{
    if step_index(selected, 2, code) || code != KeyCode::Enter {
        return AddScopeStep::Stay;
    }
    match *selected {
        0 => AddScopeStep::Close,
        1 => AddScopeStep::Global,
        _ => AddScopeStep::Project,
    }
}

/// What is to be done after a key where the transport of a new server is
/// chosen.
#[derive(Clone, Copy, Debug, PartialEq, Eq, Structural)]
pub enum TransportStep {
    Stay,
    Close,
    /// Fill in the form of a new server, starting at its name.
    Form(ListState),
    /// Write the server down in JSON.
    Json,
}

/// The effect of `mcp_transport_key`.
pub open spec fn mcp_transport_key_effect(
    selected: usize,
    new_selected: usize,
    code: KeyCode,
    step: TransportStep,
) -> bool {
    &&& (new_selected == stepped(selected as int, 3, code))
    &&& (step == if code != KeyCode::Enter {
            TransportStep::Stay
        } else if selected == 0 {
            TransportStep::Close
        } else if selected == 3 {
            TransportStep::Json
        } else {
            TransportStep::Form(
                settled(
                    if selected == 1 { 15 } else { 12 },
                    2,
                    0,
                    VISIBLE_MENU_ITEMS as int,
                ),
            )
        })
}

/// A key where the transport of a new server is chosen.
pub fn mcp_transport_key(selected: &mut usize, code: KeyCode) -> (step: TransportStep)
    ensures
        mcp_transport_key_effect(*old(selected), *final(selected), code, step),
{
    if step_index(selected, 3, code) || code != KeyCode::Enter {
        return TransportStep::Stay;
    }
    if *selected == 0 {
        TransportStep::Close
    } else if *selected == 3 {
        TransportStep::Json
    } else {
        let definition = crate::mcp::mcp_definition_template(*selected);
        let count: usize = mcp_form_maximum(&definition) + 1;
        TransportStep::Form(ListState::selectable_at(count, 2, VISIBLE_MENU_ITEMS))
    }
}

/// What is to be done after a key in the form of a server.
#[derive(Debug)]
pub enum McpFormStep {
    Stay,
    Close,
    Preview,
    /// Configure the server elsewhere.
    NextLocation,
    /// Edit a field, starting from a text with the cursor at its end.
    Edit { field: McpFormField, value: String, cursor: usize },
}

/// What Enter makes of a definition: it switches the item, if it is a switch.
pub open spec fn definition_after(definition: McpServerDefinition, selected: int)
    -> McpServerDefinition {
    if selected == 4 {
        McpServerDefinition { enabled: !definition.enabled, ..definition }
    } else if selected == 5 {
        McpServerDefinition { eager: !definition.eager, ..definition }
    } else if selected == form_maximum(definition) {
        McpServerDefinition { transport: toggled(definition.transport), ..definition }
    } else {
        definition
    }
}

/// The effect of `mcp_form_key`.
pub open spec fn mcp_form_key_effect(
    draft: McpFormDraft,
    new_draft: McpFormDraft,
    list: ListState,
    new_list: ListState,
    code: KeyCode,
    step: McpFormStep,
) -> bool {
    &&& (new_list == list_after(
            list,
            form_maximum(draft.definition) + 1,
            VISIBLE_MENU_ITEMS as int,
            code,
        ))
    &&& (new_draft.original == draft.original)
    &&& (new_draft.location == draft.location)
    &&& (new_draft.name == draft.name)
    &&& (code != KeyCode::Enter ==> step is Stay && new_draft.definition == draft.definition)
    &&& (code == KeyCode::Enter ==> {
            let at = new_list.at_spec();
            &&& new_draft.definition == definition_after(draft.definition, at)
            &&& if at == 0 {
                step is Close
            } else if at == 1 {
                step is Preview
            } else if at == 3 {
                step is NextLocation
            } else if at == 4 || at == 5 || at == form_maximum(draft.definition) {
                step is Stay
            } else {
                match form_field(draft.definition, at) {
                    None => step is Stay,
                    Some(wanted) => step matches McpFormStep::Edit { field, value, cursor }
                        && field == wanted && value@ == shown_content(
                        field_content(draft, wanted),
                    ) && cursor == utf8_len(value@),
                }
            }
        })
}

/// A key in the form of a server.
pub fn mcp_form_key(draft: &mut McpFormDraft, list: &mut ListState, code: KeyCode) -> (step:
    McpFormStep)
    ensures
        mcp_form_key_effect(*old(draft), *final(draft), *old(list), *final(list), code, step),
{
    let count: usize = mcp_form_maximum(&draft.definition) + 1;
    let moved: bool = move_list(list, count, VISIBLE_MENU_ITEMS, code);
    if moved || code != KeyCode::Enter {
        return McpFormStep::Stay;
    }
    let selected: usize = list.at();
    if selected == 0 {
        return McpFormStep::Close;
    }
    if selected == 1 {
        return McpFormStep::Preview;
    }
    if selected == 3 {
        return McpFormStep::NextLocation;
    }
    if selected == 4 {
        draft.definition.enabled = !draft.definition.enabled;
        return McpFormStep::Stay;
    }
    if selected == 5 {
        draft.definition.eager = !draft.definition.eager;
        return McpFormStep::Stay;
    }
    if is_mcp_form_boolean(&draft.definition, selected) {
        toggle_mcp_form_boolean(&mut draft.definition, selected);
        return McpFormStep::Stay;
    }
    match mcp_form_field(&draft.definition, selected) {
        None => McpFormStep::Stay,
        Some(field) => {
            let value: String = mcp_form_field_value(draft, field);
            let cursor: usize = cursor_at_end(value.as_str());
            McpFormStep::Edit { field, value, cursor }
        },
    }
}

/// The effect of `mcp_field_key`.
pub open spec fn mcp_field_key_effect(
    draft: McpFormDraft,
    new_draft: McpFormDraft,
    field: McpFormField,
    value: String,
    new_value: String,
    cursor: usize,
    new_cursor: usize,
    key: SurfaceKey,
    step: FieldStep,
) -> bool {
    &&& (!key.submit ==> {
            &&& step is Stay
            &&& new_draft == draft
            &&& field_is(
                new_value@,
                new_cursor as int,
                field_after(value@, cursor as int, key.key),
            )
        })
    &&& (key.submit ==> {
            &&& new_value == value
            &&& new_cursor == cursor
            &&& if field_fits(draft.definition, field) && content_in(field, value@)
                is Some {
                &&& step == FieldStep::Saved(field_index(field) as usize)
                &&& Some(field_content(new_draft, field)) == content_in(field, value@)
                &&& same_but(draft, new_draft, field)
            } else {
                &&& new_draft == draft
                &&& step matches FieldStep::Refused(reason) && refused_for(
                    draft.definition,
                    field,
                    reason@,
                )
            }
        })
}

/// A key in a field of the form of a server.
pub fn mcp_field_key(
    draft: &mut McpFormDraft,
    field: McpFormField,
    value: &mut String,
    cursor: &mut usize,
    key: SurfaceKey,
) -> (step: FieldStep)
    ensures
        mcp_field_key_effect(
            *old(draft),
            *final(draft),
            field,
            *old(value),
            *final(value),
            *old(cursor),
            *final(cursor),
            key,
            step,
        ),
{
    if !key.submit {
        edit_field(value, cursor, key.key);
        return FieldStep::Stay;
    }
    match apply_mcp_form_field(draft, field, value.as_str()) {
        Ok(()) => FieldStep::Saved(mcp_form_field_index(field)),
        Err(reason) => FieldStep::Refused(reason),
    }
}

/// The details after a key where changes are confirmed.
pub open spec fn details_after(details: ScrollViewState, rows: int, code: KeyCode)
    -> ScrollViewState {
    let settled = details.reconciled(rows, VISIBLE_HELP_ITEMS as int);
    match code {
        KeyCode::PageUp => settled.applied(ScrollViewAction::PagePrevious, VISIBLE_HELP_ITEMS as int),
        KeyCode::PageDown => settled.applied(ScrollViewAction::PageNext, VISIBLE_HELP_ITEMS as int),
        KeyCode::Home => settled.applied(ScrollViewAction::Home, VISIBLE_HELP_ITEMS as int),
        KeyCode::End => settled.applied(ScrollViewAction::End, VISIBLE_HELP_ITEMS as int),
        _ => settled,
    }
}

/// The effect of `mcp_mutation_key`.
pub open spec fn mcp_mutation_key_effect(
    list: ListState,
    new_list: ListState,
    details: ScrollViewState,
    new_details: ScrollViewState,
    rows: usize,
    code: KeyCode,
    step: ConfirmStep,
) -> bool {
    &&& (new_list == {
            let settled = list.reconciled(2, VISIBLE_MENU_ITEMS as int);
            match code {
                KeyCode::Up => settled.applied(ListAction::Previous, VISIBLE_MENU_ITEMS as int),
                KeyCode::Down => settled.applied(ListAction::Next, VISIBLE_MENU_ITEMS as int),
                _ => settled,
            }
        })
    &&& (new_details == details_after(details, rows as int, code))
    &&& (step == if code != KeyCode::Enter {
            ConfirmStep::Stay
        } else if list.reconciled(2, VISIBLE_MENU_ITEMS as int).at_spec() == 0 {
            ConfirmStep::Cancel
        } else {
            ConfirmStep::Confirm
        })
}

/// A key where changes are confirmed: the arrows move the selection, the paging
/// keys scroll the details.
pub fn mcp_mutation_key(
    list: &mut ListState,
    details: &mut ScrollViewState,
    rows: usize,
    code: KeyCode,
) -> (step: ConfirmStep)
    ensures
        mcp_mutation_key_effect(
            *old(list),
            *final(list),
            *old(details),
            *final(details),
            rows,
            code,
            step,
        ),
{
    list.reconcile(2, VISIBLE_MENU_ITEMS);
    details.reconcile(rows, VISIBLE_HELP_ITEMS);
    match code {
        KeyCode::Up => {
            list.apply(ListAction::Previous, VISIBLE_MENU_ITEMS);
            ConfirmStep::Stay
        },
        KeyCode::Down => {
            list.apply(ListAction::Next, VISIBLE_MENU_ITEMS);
            ConfirmStep::Stay
        },
        KeyCode::PageUp => {
            details.apply(ScrollViewAction::PagePrevious, VISIBLE_HELP_ITEMS);
            ConfirmStep::Stay
        },
        KeyCode::PageDown => {
            details.apply(ScrollViewAction::PageNext, VISIBLE_HELP_ITEMS);
            ConfirmStep::Stay
        },
        KeyCode::Home => {
            details.apply(ScrollViewAction::Home, VISIBLE_HELP_ITEMS);
            ConfirmStep::Stay
        },
        KeyCode::End => {
            details.apply(ScrollViewAction::End, VISIBLE_HELP_ITEMS);
            ConfirmStep::Stay
        },
        KeyCode::Enter => if list.at() == 0 {
            ConfirmStep::Cancel
        } else {
            ConfirmStep::Confirm
        },
        _ => ConfirmStep::Stay,
    }
}

} // verus!
