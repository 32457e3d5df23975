//! What the menus and forms of servers do: each item does what it says.

use vstd::prelude::*;
use vstd::string::*;
use crate::agents::switch_key_effect;
use crate::control::SurfaceKey;
use crate::json::{array_in, entry_views, object_in};
use crate::key::KeyCode;
use crate::list::{VISIBLE_MENU_ITEMS, ListState};
use crate::mcp::{
    field_content, form_rows, is_template, moved, puts, McpFormDraft, McpFormField, McpMutation,
    McpScope, McpServerDefinition, McpTransportConfig,
};
use crate::mcp_control::{
    confirm_key_effect, mcp_add_scope_key_effect, mcp_catalog_key_effect, mcp_field_key_effect,
    mcp_form_key_effect, mcp_mutation_key_effect, mcp_oauth_key_effect, mcp_server_key_effect,
    mcp_servers_key_effect, mcp_tools_key_effect, mcp_transport_key_effect,
    package_setup_key_effect, package_value_key_effect, AddScopeStep, ConfirmStep, FieldStep,
    ListStep, McpFormStep, McpOAuthStep, McpServerStep, McpServersStep, PackageSetupStep,
    TransportStep,
};
use crate::mcp_package::{
    McpPackageDraft, McpPackageField, McpPackageParameterType, McpParameterValue,
};
use crate::menu_laws::{menu_marks, menu_offers};
use crate::moving_laws::{law_keys_move_the_selection, under_cursor};
use crate::render_mcp::{
    add_scope_rows, catalog_items, mutation_menu, remove_rows, server_choices, server_items,
    setup_choices, transport_rows, McpCatalogRow, McpMutationPreview, McpServerRow,
};
use crate::render_menus::{skill_delete_rows, usage_reset_rows};
use crate::scroll::ScrollViewState;
use crate::shown::{lemma_span_said, row_text, says};
use crate::unicode::{trimmed, views};

verus! {

/// The items of the form of a server, the last of which is a switch.
pub open spec fn last_item(definition: McpServerDefinition) -> int {
    if definition.transport is Stdio { 14 } else { 11 }
}

/// The switch that a transport has of its own.
pub open spec fn own_switch(transport: McpTransportConfig) -> bool {
    match transport {
        McpTransportConfig::Stdio { inherit_env, .. } => inherit_env,
        McpTransportConfig::StreamableHttp { allow_insecure, .. } => allow_insecure,
    }
}

/// Enter on a switch of the form turns exactly that switch, and the form then shows the
/// other state. On any other item, and by any other key, nothing that is to be saved
/// changes.
pub proof fn law_switches_are_turned(
    draft: McpFormDraft,
    new_draft: McpFormDraft,
    list: ListState,
    new_list: ListState,
    code: KeyCode,
    step: McpFormStep,
)
    requires
        mcp_form_key_effect(draft, new_draft, list, new_list, code, step),
    ensures
        ({
            let at = under_cursor(list, last_item(draft.definition) + 1);
            let last = last_item(draft.definition);
            let before = draft.definition;
            let after = new_draft.definition;
            &&& new_draft.name == draft.name && new_draft.location == draft.location
                && new_draft.original == draft.original
            &&& after.agents == before.agents && after.package == before.package
                && after.read_only_tools == before.read_only_tools
                && after.startup_timeout_seconds == before.startup_timeout_seconds
                && after.request_timeout_seconds == before.request_timeout_seconds
            &&& (after.transport is Stdio) == (before.transport is Stdio)
            &&& after.enabled != before.enabled <==> code == KeyCode::Enter && at == 4
            &&& after.eager != before.eager <==> code == KeyCode::Enter && at == 5
            &&& own_switch(after.transport) != own_switch(before.transport) <==> code
                == KeyCode::Enter && at == last
            &&& !(code == KeyCode::Enter && at == last) ==> after.transport == before.transport
            &&& code == KeyCode::Enter && (at == 4 || at == 5 || at == last) ==> step is Stay
            &&& form_rows(draft)[4].0 == "Enabled"@
            &&& form_rows(new_draft)[4].1 == (if after.enabled { "true"@ } else { "false"@ })
            &&& form_rows(new_draft)[last].1 == (if own_switch(after.transport) {
                "true"@
            } else {
                "false"@
            })
            &&& form_rows(draft)[last].0 == (if before.transport is Stdio {
                "Inherit environment"@
            } else {
                "Allow insecure"@
            })
        }),
{
    assert(form_rows(draft).len() == last_item(draft.definition) + 1);
}

/// Enter on the same item twice gives back the definition.
pub proof fn law_switches_turn_back(
    first: McpFormDraft,
    second: McpFormDraft,
    third: McpFormDraft,
    list: ListState,
    next: ListState,
    last: ListState,
    step: McpFormStep,
    again: McpFormStep,
)
    requires
        mcp_form_key_effect(first, second, list, next, KeyCode::Enter, step),
        mcp_form_key_effect(second, third, next, last, KeyCode::Enter, again),
    ensures
        third.definition == first.definition,
        next.selected == last.selected,
{
}

/// Each item of the form does what it says: the first leaves it, the second previews what
/// is to be saved, the scope goes on to the next one, and the others are edited as they
/// are shown. Nothing but Enter does any of this.
pub proof fn law_form_items_do_what_they_say(
    draft: McpFormDraft,
    new_draft: McpFormDraft,
    list: ListState,
    new_list: ListState,
    code: KeyCode,
    step: McpFormStep,
)
    requires
        mcp_form_key_effect(draft, new_draft, list, new_list, code, step),
    ensures
        ({
            let at = under_cursor(list, last_item(draft.definition) + 1);
            let item = form_rows(draft)[at];
            &&& code != KeyCode::Enter ==> step is Stay
            &&& step is Close <==> code == KeyCode::Enter && at == 0
            &&& step is Preview <==> code == KeyCode::Enter && at == 1
            &&& step is NextLocation <==> code == KeyCode::Enter && at == 3
            &&& at == 0 ==> item.0 == "Close"@
            &&& at == 1 ==> item.0 == "Preview and save"@
            &&& at == 3 ==> item.0 == "Scope"@
            &&& step matches McpFormStep::Edit { field, value, cursor } ==> {
                &&& code == KeyCode::Enter
                &&& field == McpFormField::Name ==> item.0 == "Name"@ && value@ == draft.name@
                &&& field == McpFormField::Command ==> item.0 == "Command"@ && value@ == item.1
                &&& field == McpFormField::Url ==> item.0 == "URL"@ && value@ == item.1
                &&& field == McpFormField::Arguments ==> item.0 == "Arguments"@ && value@ == item.1
                &&& field == McpFormField::Headers ==> item.0 == "Headers"@ && value@ == item.1
                &&& field == McpFormField::Cwd ==> item.0 == "Working directory"@ && value@
                    == item.1
                &&& field == McpFormField::Environment ==> item.0 == "Environment"@ && value@
                    == item.1
                &&& field == McpFormField::RemovedEnvironment ==> item.0 == "Removed variables"@
                    && value@ == item.1
                &&& field == McpFormField::ReadOnlyTools ==> item.0 == "Read-only tools"@ && value@
                    == item.1
                &&& field == McpFormField::StartupTimeout ==> item.0 == "Startup timeout"@ && item.1
                    == value@ + " seconds"@
                &&& field == McpFormField::RequestTimeout ==> item.0 == "Request timeout"@ && item.1
                    == value@ + " seconds"@
                &&& field != McpFormField::Agents
            }
        }),
{
    assert(form_rows(draft).len() == last_item(draft.definition) + 1);
}

/// The form shows what the draft holds.
pub proof fn law_forms_show_the_draft(draft: McpFormDraft)
    ensures
        form_rows(draft)[2] == ("Name"@, draft.name@),
        form_rows(draft)[3].1 == (match draft.location.scope {
            McpScope::Global => "global"@,
            McpScope::Project => "project"@,
            McpScope::Agent => "removed agent scope"@,
        }),
        draft.definition.transport matches McpTransportConfig::Stdio { command, .. }
            ==> form_rows(draft)[9] == ("Command"@, command@),
        draft.definition.transport matches McpTransportConfig::StreamableHttp { url, .. }
            ==> form_rows(draft)[9] == ("URL"@, url@),
        form_rows(draft).len() == last_item(draft.definition) + 1,
{
}

/// A field that is saved holds what was written, and no other part of the draft changes.
pub proof fn law_fields_hold_what_was_written(
    draft: McpFormDraft,
    new_draft: McpFormDraft,
    field: McpFormField,
    value: String,
    new_value: String,
    cursor: usize,
    new_cursor: usize,
    key: SurfaceKey,
    step: FieldStep,
)
    requires
        mcp_field_key_effect(
            draft,
            new_draft,
            field,
            value,
            new_value,
            cursor,
            new_cursor,
            key,
            step,
        ),
    ensures
        !key.submit ==> step is Stay && new_draft == draft,
        key.submit ==> !(step is Stay) && new_value == value,
        step is Refused ==> new_draft == draft,
        new_draft.original == draft.original,
        new_draft.location == draft.location,
        new_draft.definition.enabled == draft.definition.enabled,
        new_draft.definition.eager == draft.definition.eager,
        new_draft.definition.package == draft.definition.package,
        (new_draft.definition.transport is Stdio) == (draft.definition.transport is Stdio),
        own_switch(new_draft.definition.transport) == own_switch(draft.definition.transport),
        step is Saved ==> {
            let transport = new_draft.definition.transport;
            &&& field == McpFormField::Name ==> new_draft.name@ == trimmed(value@)
            &&& field == McpFormField::Command ==> transport is Stdio && transport->command@
                == value@
            &&& field == McpFormField::Url ==> transport is StreamableHttp && transport->url@
                == value@
            &&& field == McpFormField::Arguments ==> array_in(value@) == Some(
                views(transport->args@),
            )
            &&& field == McpFormField::RemovedEnvironment ==> array_in(value@) == Some(
                views(transport->env_remove@),
            )
            &&& field == McpFormField::Environment ==> object_in(value@) == Some(
                entry_views(transport->env@),
            )
            &&& field == McpFormField::Headers ==> object_in(value@) == Some(
                entry_views(transport->headers@),
            )
            &&& field == McpFormField::Agents ==> array_in(value@) == Some(
                views(new_draft.definition.agents@),
            )
            &&& field == McpFormField::ReadOnlyTools ==> array_in(value@) == Some(
                views(new_draft.definition.read_only_tools@),
            )
        },
        step is Saved && field != McpFormField::Name ==> new_draft.name@ == draft.name@,
        step is Saved && field != McpFormField::StartupTimeout
            ==> new_draft.definition.startup_timeout_seconds
            == draft.definition.startup_timeout_seconds,
        step is Saved && field != McpFormField::RequestTimeout
            ==> new_draft.definition.request_timeout_seconds
            == draft.definition.request_timeout_seconds,
{
    assert(field_content(new_draft, McpFormField::Name) == field_content(
        draft,
        McpFormField::Name,
    ) || field == McpFormField::Name || step is Refused || !key.submit);
    assert(field_content(new_draft, McpFormField::StartupTimeout) == field_content(
        draft,
        McpFormField::StartupTimeout,
    ) || field == McpFormField::StartupTimeout || step is Refused || !key.submit);
    assert(field_content(new_draft, McpFormField::RequestTimeout) == field_content(
        draft,
        McpFormField::RequestTimeout,
    ) || field == McpFormField::RequestTimeout || step is Refused || !key.submit);
}

/// Each item of the menu of a server does what it says, and there are as many as can be
/// chosen.
pub proof fn law_server_items_do_what_they_say(
    server: McpServerRow,
    selected: usize,
    new_selected: usize,
    connected: bool,
    code: KeyCode,
    step: McpServerStep,
)
    requires
        mcp_server_key_effect(
            selected,
            new_selected,
            server.over_http,
            server.packaged,
            connected,
            code,
            step,
        ),
        selected < server_choices(server, connected).len(),
    ensures
        ({
            let label = server_choices(server, connected)[selected as int].0;
            let entered = code == KeyCode::Enter;
            &&& new_selected < server_choices(server, connected).len()
            &&& step is Stay <==> !entered
            &&& step is Close ==> label == "Close"@
            &&& step is ToggleEnabled ==> label == (if server.enabled {
                "Disable"@
            } else {
                "Enable"@
            })
            &&& step is Form ==> label == "Edit"@
            &&& step is Json ==> label == "Edit JSON"@
            &&& step is Tools ==> label == "View tools"@
            &&& step is Login ==> label == "Login with OAuth"@ && server.over_http && !connected
            &&& step is Logout ==> label == "Log out OAuth"@ && server.over_http && connected
            &&& step is PackageSetup ==> label == "Configure package"@ && server.packaged
            &&& step is Remove ==> label == "Remove"@
        }),
{
}

/// A server is removed only by Enter on "Remove"; "Cancel" is the other choice.
pub proof fn law_remove_is_what_it_says(
    server: McpServerRow,
    selected: usize,
    new_selected: usize,
    code: KeyCode,
    step: ConfirmStep,
    width: int,
)
    requires
        confirm_key_effect(selected, new_selected, code, step),
        selected <= 1,
    ensures
        step is Confirm <==> code == KeyCode::Enter && selected == 1,
        step is Cancel <==> code == KeyCode::Enter && selected == 0,
        menu_offers(remove_rows(server, selected as int, width), 0, "Cancel"@, width),
        menu_offers(remove_rows(server, selected as int, width), 1, "Remove"@, width),
        menu_marks(remove_rows(server, selected as int, width), selected as int, width),
        new_selected <= 1,
{
}

/// A skill is deleted, and the usage reset, only by Enter on the item that says so; moving
/// up selects to cancel, and moving down to go on.
pub proof fn law_confirmations_are_what_they_say(
    name: Seq<char>,
    selected: usize,
    new_selected: usize,
    code: KeyCode,
    step: ConfirmStep,
    width: int,
)
    requires
        switch_key_effect(selected, new_selected, code, step),
        selected <= 1,
    ensures
        step is Confirm <==> code == KeyCode::Enter && selected == 1,
        step is Cancel <==> code == KeyCode::Enter && selected == 0,
        menu_offers(skill_delete_rows(name, selected as int, width), 0, "Cancel"@, width),
        menu_offers(skill_delete_rows(name, selected as int, width), 1, "Delete"@, width),
        menu_marks(skill_delete_rows(name, selected as int, width), selected as int, width),
        menu_offers(usage_reset_rows(selected as int, width), 0, "Cancel"@, width),
        menu_offers(
            usage_reset_rows(selected as int, width),
            1,
            "Reset all global usage"@,
            width,
        ),
        menu_marks(usage_reset_rows(selected as int, width), selected as int, width),
        code == KeyCode::Up || code == KeyCode::Home || code == KeyCode::PageUp ==> new_selected
            == 0,
        code == KeyCode::Down || code == KeyCode::End || code == KeyCode::PageDown
            ==> new_selected == 1,
        code == KeyCode::Enter ==> new_selected == selected,
{
}

/// A change is applied only by Enter on "Apply".
pub proof fn law_changes_are_applied_on_purpose(
    preview: McpMutationPreview,
    list: ListState,
    new_list: ListState,
    details: ScrollViewState,
    new_details: ScrollViewState,
    rows: usize,
    code: KeyCode,
    step: ConfirmStep,
    width: int,
)
    requires
        mcp_mutation_key_effect(list, new_list, details, new_details, rows, code, step),
    ensures
        step is Confirm <==> code == KeyCode::Enter && under_cursor(list, 2) == 1,
        step is Cancel <==> code == KeyCode::Enter && under_cursor(list, 2) == 0,
        menu_offers(mutation_menu(preview, list, width), 0, "Cancel"@, width),
        menu_offers(mutation_menu(preview, list, width), 1, "Apply"@, width),
        menu_marks(mutation_menu(preview, list, width), under_cursor(list, 2), width),
        code == KeyCode::Up ==> new_list.selected == Some(0usize),
        code == KeyCode::Down ==> new_list.selected == Some(1usize),
        code == KeyCode::PageUp || code == KeyCode::PageDown || code == KeyCode::Home || code
            == KeyCode::End ==> under_cursor(new_list, 2) == under_cursor(list, 2),
        code == KeyCode::Home ==> new_details.offset == 0,
        code != KeyCode::PageUp && code != KeyCode::PageDown && code != KeyCode::Home && code
            != KeyCode::End && details.offset + 12 <= rows ==> new_details.offset
            == details.offset,
{
}

/// A new server is put where the item says that was chosen.
pub proof fn law_scopes_are_what_they_say(
    selected: usize,
    new_selected: usize,
    code: KeyCode,
    step: AddScopeStep,
    width: int,
)
    requires
        mcp_add_scope_key_effect(selected, new_selected, code, step),
        selected <= 2,
    ensures
        step is Close <==> code == KeyCode::Enter && selected == 0,
        step is Global <==> code == KeyCode::Enter && selected == 1,
        step is Project <==> code == KeyCode::Enter && selected == 2,
        menu_offers(add_scope_rows(selected as int, width), 0, "Close"@, width),
        menu_offers(add_scope_rows(selected as int, width), 1, "Global"@, width),
        menu_offers(add_scope_rows(selected as int, width), 2, "Project"@, width),
        menu_marks(add_scope_rows(selected as int, width), selected as int, width),
{
}

/// A new server gets the transport that the item says, or is written as JSON.
pub proof fn law_transports_are_what_they_say(
    selected: usize,
    new_selected: usize,
    code: KeyCode,
    step: TransportStep,
    width: int,
)
    requires
        mcp_transport_key_effect(selected, new_selected, code, step),
        selected <= 3,
    ensures
        step is Close <==> code == KeyCode::Enter && selected == 0,
        step is Json <==> code == KeyCode::Enter && selected == 3,
        step is Form <==> code == KeyCode::Enter && (selected == 1 || selected == 2),
        step matches TransportStep::Form(list) ==> list.selected == Some(2usize)
            && list.item_count == (if selected == 1 { 15 } else { 12int }),
        menu_offers(transport_rows(selected as int, width), 0, "Close"@, width),
        menu_offers(transport_rows(selected as int, width), 1, "Stdio"@, width),
        menu_offers(transport_rows(selected as int, width), 2, "Streamable HTTP"@, width),
        menu_offers(transport_rows(selected as int, width), 3, "Import JSON"@, width),
        menu_marks(transport_rows(selected as int, width), selected as int, width),
{
}

/// The first items of the list of servers lead away, to a new one and to the catalogue; each
/// other one opens the server whose name it says.
pub proof fn law_server_lists_open_what_they_say(
    rows: Seq<McpServerRow>,
    list: ListState,
    new_list: ListState,
    code: KeyCode,
    step: McpServersStep,
)
    requires
        rows.len() + 3 <= usize::MAX,
        mcp_servers_key_effect(list, new_list, rows.len() as usize, code, step),
    ensures
        ({
            let at = under_cursor(list, rows.len() as int + 3);
            let item = row_text(server_items(rows, new_list.selected)[at]);
            &&& step is Stay <==> code != KeyCode::Enter
            &&& step is Close ==> at == 0 && says(item, crate::render::safe("Close"@))
            &&& step is Add ==> at == 1 && says(item, crate::render::safe("Add"@))
            &&& step is Catalog ==> at == 2 && says(item, crate::render::safe("Add from catalog"@))
            &&& step matches McpServersStep::Open(index) ==> index == at - 3 && index < rows.len()
                && says(item, rows[index as int].name@)
        }),
{
    let at = under_cursor(list, rows.len() as int + 3);
    let spans = server_items(rows, new_list.selected)[at].spans;
    lemma_span_said(spans, 1);
}

/// An item of the catalogue opens the package whose name it says.
pub proof fn law_catalogues_open_what_they_say(
    rows: Seq<McpCatalogRow>,
    list: ListState,
    new_list: ListState,
    code: KeyCode,
    step: ListStep,
)
    requires
        rows.len() + 1 <= usize::MAX,
        mcp_catalog_key_effect(list, new_list, rows.len() as usize, code, step),
    ensures
        ({
            let at = under_cursor(list, rows.len() as int + 1);
            let item = row_text(catalog_items(rows, new_list.selected)[at]);
            &&& step is Stay <==> code != KeyCode::Enter
            &&& step is Close ==> at == 0 && says(item, crate::render::safe("Close"@))
            &&& step matches ListStep::Open(index) ==> index == at - 1 && index < rows.len()
                && says(item, crate::render::safe(rows[index as int].name@))
        }),
{
    let at = under_cursor(list, rows.len() as int + 1);
    lemma_span_said(catalog_items(rows, new_list.selected)[at].spans, 1);
}

/// The setup of a package saves by its first item, and edits or switches the item that is
/// under the cursor: a switch is turned and turned back, and a value is edited as it is.
pub proof fn law_package_items_do_what_they_say(
    draft: McpPackageDraft,
    new_draft: McpPackageDraft,
    selected: usize,
    new_selected: usize,
    code: KeyCode,
    step: PackageSetupStep,
)
    requires
        draft.valid(),
        package_setup_key_effect(draft, new_draft, selected, new_selected, code, step),
        selected < 1 + draft.secrets@.len() + draft.parameters@.len(),
    ensures
        ({
            let item = setup_choices(draft)[selected as int].0;
            let secrets = draft.secrets@.len();
            &&& step is Save <==> code == KeyCode::Enter && selected == 0
            &&& selected == 0 ==> item == (if draft.installed {
                "Save changes"@
            } else {
                "Install"@
            })
            &&& code != KeyCode::Enter ==> new_draft == draft && step is Stay
            &&& step matches PackageSetupStep::Edit { field, value, cursor } ==> {
                &&& new_draft == draft
                &&& field matches McpPackageField::Secret(index) ==> index == selected - 1 && index
                    < secrets && item == draft.secrets@[index as int].label@
                &&& field matches McpPackageField::Parameter(index) ==> index == selected - 1
                    - secrets && item == draft.parameters@[index as int].label@
                    && draft.parameters@[index as int].kind != McpPackageParameterType::Boolean
            }
            &&& code == KeyCode::Enter && 0 < selected <= secrets ==> step is Edit
            &&& code == KeyCode::Enter && secrets < selected && draft.parameters@[selected - 1
                - secrets].kind == McpPackageParameterType::Boolean ==> {
                let at = selected - 1 - secrets;
                &&& step is Stay
                &&& (new_draft.values@[at] == Some(McpParameterValue::Boolean(true))) != (
                draft.values@[at] == Some(McpParameterValue::Boolean(true)))
            }
            &&& new_draft.secret_updates == draft.secret_updates
        }),
{
}

/// A secret that is written becomes the new secret of its entry, and a value that is
/// written the new value; no other entry changes, and what is refused changes nothing.
pub proof fn law_package_values_are_kept_apart(
    draft: McpPackageDraft,
    new_draft: McpPackageDraft,
    field: McpPackageField,
    value: String,
    new_value: String,
    cursor: usize,
    new_cursor: usize,
    key: SurfaceKey,
    step: FieldStep,
    other: int,
)
    requires
        draft.valid(),
        crate::mcp_package::has_field(draft, field),
        package_value_key_effect(
            draft,
            new_draft,
            field,
            value,
            new_value,
            cursor,
            new_cursor,
            key,
            step,
        ),
    ensures
        !key.submit ==> new_draft == draft && step is Stay,
        key.submit ==> new_value == value,
        step is Refused ==> new_draft == draft,
        field matches McpPackageField::Secret(index) ==> (key.submit ==> {
            &&& new_draft.secret_updates@[index as int] == Some(value)
            &&& new_draft.values == draft.values
            &&& 0 <= other < draft.secrets@.len() && other != index
                ==> new_draft.secret_updates@[other] == draft.secret_updates@[other]
        }),
        field matches McpPackageField::Parameter(index) ==> {
            &&& new_draft.secret_updates == draft.secret_updates
            &&& 0 <= other < draft.values@.len() && other != index ==> new_draft.values@[other]
                == draft.values@[other]
            &&& key.submit && draft.parameters@[index as int].kind == McpPackageParameterType::Text
                ==> (new_draft.values@[index as int] matches Some(McpParameterValue::Text(text))
                && text@ == value@)
        },
{
    if let McpPackageField::Parameter(index) = field {
        if 0 <= other < draft.values@.len() && other != index {
            assert(draft.values@[other] == draft.values@[other]);
        }
    }
}

/// Where a login waits, `o` and Enter open it, `c` copies its address and `C` its code; a
/// login that is done with is left by what submits.
pub proof fn law_logins_do_what_is_asked(
    key: SurfaceKey,
    connected: bool,
    device: bool,
    step: McpOAuthStep,
)
    requires
        mcp_oauth_key_effect(key, connected, device, step),
    ensures
        step is Close ==> connected && key.submit,
        connected && key.submit ==> step is Close,
        step is OpenBrowser ==> key.code == KeyCode::Enter || key.code == KeyCode::Char('o'),
        step is CopyUrl ==> key.code == KeyCode::Char('c'),
        step is CopyCode ==> key.code == KeyCode::Char('C') && device,
        !connected && key.code == KeyCode::Char('o') ==> step is OpenBrowser,
        !connected && key.code == KeyCode::Enter ==> step is OpenBrowser,
        !connected && key.code == KeyCode::Char('c') ==> step is CopyUrl,
        !connected && device && key.code == KeyCode::Char('C') ==> step is CopyCode,
{
}

/// A draft is saved by putting it where it says, under its name and with its definition; a
/// server that was elsewhere, or named otherwise, is moved there.
pub proof fn law_saving_puts_the_draft(draft: McpFormDraft, mutation: McpMutation)
    ensures
        puts(mutation, draft) ==> mutation is Put && mutation->location == draft.location
            && mutation->Put_name == draft.name && mutation->definition@ == draft.definition@,
        draft.original is None ==> !moved(draft),
        draft.original matches Some((location, name)) ==> {
            &&& name@ != draft.name@ ==> moved(draft)
            &&& location.scope != draft.location.scope ==> moved(draft)
            &&& name == draft.name && location == draft.location ==> !moved(draft)
        },
{
}

/// The list of tools is left by Enter, and by no other key.
pub proof fn law_tools_are_left_by_enter(
    list: ListState,
    new_list: ListState,
    tools: usize,
    code: KeyCode,
    close: bool,
)
    requires
        mcp_tools_key_effect(list, new_list, tools, code, close),
    ensures
        close <==> code == KeyCode::Enter,
        tools > 0 && code == KeyCode::Enter ==> new_list.selected == Some(
            under_cursor(list, tools as int) as usize,
        ),
{
    if tools > 0 {
        law_keys_move_the_selection(list, tools as int, VISIBLE_MENU_ITEMS as int, code);
    }
}

/// A new server is turned on, belongs to no agent yet and starts when it is needed; one that
/// is reached over the network asks for a safe address, and one that is started has no
/// command yet.
pub proof fn law_new_servers_are_blank(definition: McpServerDefinition, transport: usize)
    requires
        is_template(definition, transport),
    ensures
        definition.enabled,
        !definition.eager,
        definition.agents@.len() == 0,
        definition.read_only_tools@.len() == 0,
        definition.package is None,
        definition.startup_timeout_seconds < definition.request_timeout_seconds,
        0 < definition.startup_timeout_seconds,
        transport == 1 <==> definition.transport is Stdio,
        definition.transport matches McpTransportConfig::StreamableHttp {
            url,
            headers,
            allow_insecure,
        } ==> url@ == "https://"@ && !allow_insecure && headers@.len() == 0,
        definition.transport matches McpTransportConfig::Stdio {
            command,
            args,
            cwd,
            env,
            env_remove,
            inherit_env,
        } ==> command@.len() == 0 && args@.len() == 0 && env@.len() == 0 && env_remove@.len() == 0
            && inherit_env,
{
}

} // verus!
