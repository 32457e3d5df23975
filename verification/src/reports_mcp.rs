//! What becomes of the surfaces of servers once the client has done what a step asked
//! for.

use vstd::prelude::*;
use vstd::string::*;
use crate::app::{same_but_surfaces, App};
use crate::follow_mcp::{edits_json, json_editor};
use crate::list::{settled, ListState};
use crate::mcp::{
    copy_location, form_maximum, mcp_form_maximum, next_mcp_location, McpFormDraft, McpLocation,
    McpScope, McpServerDefinition,
};
use crate::mcp_control::{mcp_login_notice, oauth_notice};
use crate::mcp_package::McpPackageDraft;
use crate::render_mcp::{
    McpCatalogRow, McpMutationPreview, McpOAuthCompletion, McpOAuthPrompt, McpServerRow,
};
use crate::reports::{failure, only_said, only_shown, shown_and_said};
use crate::scroll::ScrollViewState;
use crate::surface::Surface;

verus! {

/// What the servers were changed by.
#[derive(Clone, Copy, Debug, PartialEq, Eq, Structural)]
pub enum ServerChange {
    /// A server was enabled, or disabled.
    Enabled,
    Removed,
    /// Servers that were written down in JSON were taken.
    Imported,
    /// A form was saved.
    Saved,
    /// A package was set up.
    SetUp,
}

impl ServerChange {
    /// What is said of a change that was not made.
    pub open spec fn failed_spec(self) -> Seq<char> {
        match self {
            ServerChange::Enabled | ServerChange::Saved => "MCP update failed"@,
            ServerChange::Removed => "MCP removal failed"@,
            ServerChange::Imported => "MCP import failed"@,
            ServerChange::SetUp => "MCP package setup failed"@,
        }
    }

    fn failed(self) -> (what: &'static str)
        ensures
            what@ == self.failed_spec(),
    {
        match self {
            ServerChange::Enabled | ServerChange::Saved => "MCP update failed",
            ServerChange::Removed => "MCP removal failed",
            ServerChange::Imported => "MCP import failed",
            ServerChange::SetUp => "MCP package setup failed",
        }
    }

    /// The items beside the servers that the list is counted with. The list has three;
    /// where it is counted with two, the next key counts it anew.
    pub open spec fn extra_spec(self) -> int {
        if self == ServerChange::SetUp { 3 } else { 2 }
    }

    fn extra(self) -> (extra: usize)
        ensures
            extra == self.extra_spec(),
    {
        match self {
            ServerChange::SetUp => 3,
            _ => 2,
        }
    }
}

impl App {
    /// The servers were changed: they are listed, and nothing else is open. Where that
    /// failed, the surface stays.
    pub fn servers_changed(&mut self, change: ServerChange, result: Result<
        Vec<McpServerRow>,
        String,
    >)
        requires
            result matches Ok(rows) ==> rows@.len() <= usize::MAX - 3,
        ensures
            match result {
                Ok(rows) => only_shown(
                    *old(self),
                    *final(self),
                    seq![
                        Surface::McpServers {
                            rows,
                            list: settled(rows@.len() as int + change.extra_spec(), 0, 0, 1),
                        },
                    ],
                ),
                Err(error) => only_said(
                    *old(self),
                    *final(self),
                    failure(change.failed_spec(), error@),
                ),
            },
    {
        match result {
            Ok(rows) => {
                let list: ListState = ListState::selectable(rows.len() + change.extra());
                self.surfaces.clear();
                self.surfaces.push(Surface::McpServers { rows, list });
                proof {
                    assert(self.surfaces@.len() == 1);
                    assert(self.surfaces@ =~= seq![self.surfaces@[0]]);
                }
            },
            Err(error) => self.fail(change.failed(), error.as_str()),
        }
    }

    /// What was written down in JSON is refused.
    pub fn import_refused(&mut self, error: &str)
        ensures
            only_said(*old(self), *final(self), failure("Invalid MCP JSON"@, error@)),
    {
        self.fail("Invalid MCP JSON", error);
    }

    /// Opens the list of packages.
    pub fn open_catalog(&mut self, rows: Vec<McpCatalogRow>)
        requires
            rows@.len() < usize::MAX,
        ensures
            only_shown(
                *old(self),
                *final(self),
                old(self).surfaces@.push(
                    Surface::McpCatalog { rows, list: settled(rows@.len() as int + 1, 0, 0, 1) },
                ),
            ),
    {
        let list: ListState = ListState::selectable(rows.len() + 1);
        self.surfaces.push(Surface::McpCatalog { rows, list });
    }

    /// Opens a server; `oauth_connected` says whether there is a login to it.
    pub fn open_server(&mut self, server: McpServerRow, oauth_connected: bool)
        ensures
            only_shown(
                *old(self),
                *final(self),
                old(self).surfaces@.push(
                    Surface::McpServer { server, selected: 0, oauth_connected },
                ),
            ),
    {
        self.surfaces.push(Surface::McpServer { server, selected: 0, oauth_connected });
    }

    /// Opens the setup of a package.
    pub fn open_package(&mut self, draft: McpPackageDraft)
        ensures
            only_shown(
                *old(self),
                *final(self),
                old(self).surfaces@.push(Surface::McpPackageSetup { draft, selected: 0 }),
            ),
    {
        self.surfaces.push(Surface::McpPackageSetup { draft, selected: 0 });
    }

    /// The setup of the package that a server comes from was read, if there is one.
    pub fn package_read(&mut self, result: Result<Option<McpPackageDraft>, String>)
        ensures
            match result {
                Ok(Some(draft)) => only_shown(
                    *old(self),
                    *final(self),
                    old(self).surfaces@.push(Surface::McpPackageSetup { draft, selected: 0 }),
                ),
                Ok(None) => only_said(
                    *old(self),
                    *final(self),
                    "package setup is unavailable"@,
                ),
                Err(error) => only_said(
                    *old(self),
                    *final(self),
                    failure("MCP package setup failed"@, error@),
                ),
            },
    {
        match result {
            Ok(Some(draft)) => self.open_package(draft),
            Ok(None) => {
                self.notice = Some("package setup is unavailable".to_owned());
            },
            Err(error) => self.fail("MCP package setup failed", error.as_str()),
        }
    }

    /// Opens the form of a server that is configured.
    pub fn open_form(&mut self, location: McpLocation, name: String, definition: McpServerDefinition)
        ensures
            only_shown(
                *old(self),
                *final(self),
                old(self).surfaces@.push(
                    Surface::McpForm {
                        draft: McpFormDraft {
                            original: Some((location, name)),
                            location,
                            name,
                            definition,
                        },
                        list: settled(form_maximum(definition) + 1, 0, 0, 1),
                    },
                ),
            ),
    {
        let list: ListState = ListState::selectable(mcp_form_maximum(&definition) + 1);
        let original = Some((copy_location(&location), name.clone()));
        self.surfaces.push(
            Surface::McpForm {
                draft: McpFormDraft { original, location, name, definition },
                list,
            },
        );
    }

    /// Opens a server as JSON; `source` is its text.
    pub fn open_json(&mut self, location: McpLocation, name: String, source: String)
        ensures
            same_but_surfaces(*old(self), *final(self)),
            final(self).surfaces@.len() == old(self).surfaces@.len() + 1,
            final(self).surfaces@.drop_last() == old(self).surfaces@,
            final(self).surfaces@.last() matches Surface::McpJsonEdit {
                location: place,
                separate_name,
                editor,
                tokens,
            } && place == location && separate_name == Some(name) && edits_json(editor, source@)
                && tokens@.len() == 0,
    {
        let ghost before = self.surfaces@;
        self.surfaces.push(
            Surface::McpJsonEdit {
                location,
                separate_name: Some(name),
                editor: json_editor(source),
                tokens: Vec::new(),
            },
        );
        proof {
            assert(self.surfaces@.drop_last() =~= before);
        }
    }

    /// What saving a form would change was worked out: it is shown to be confirmed.
    pub fn mutation_previewed(&mut self, result: Result<McpMutationPreview, String>)
        ensures
            match result {
                Ok(preview) => only_shown(
                    *old(self),
                    *final(self),
                    old(self).surfaces@.push(
                        Surface::McpMutationPreview {
                            preview,
                            list: settled(2, 0, 0, 1),
                            details: ScrollViewState { offset: 0, content_rows: 0 },
                        },
                    ),
                ),
                Err(error) => only_said(
                    *old(self),
                    *final(self),
                    failure("MCP draft is invalid"@, error@),
                ),
            },
    {
        match result {
            Ok(preview) => {
                self.surfaces.push(
                    Surface::McpMutationPreview {
                        preview,
                        list: ListState::selectable(2),
                        details: ScrollViewState { offset: 0, content_rows: 0 },
                    },
                );
            },
            Err(error) => self.fail("MCP draft is invalid", error.as_str()),
        }
    }

    /// Configures the server of the form on top elsewhere: for the agent in use where the
    /// place is one agent's.
    pub fn form_moved(&mut self, active_agent: String)
        requires
            old(self).surfaces@.len() > 0,
        ensures
            same_but_surfaces(*old(self), *final(self)),
            final(self).surfaces@.len() == old(self).surfaces@.len(),
            final(self).surfaces@.drop_last() == old(self).surfaces@.drop_last(),
            match old(self).surfaces@.last() {
                Surface::McpForm { draft, list } => final(self).surfaces@.last() == (
                Surface::McpForm {
                    draft: McpFormDraft {
                        location: match draft.location.scope {
                            McpScope::Global => McpLocation {
                                scope: McpScope::Project,
                                agent: None,
                            },
                            McpScope::Project => McpLocation {
                                scope: McpScope::Agent,
                                agent: Some(active_agent),
                            },
                            McpScope::Agent => McpLocation {
                                scope: McpScope::Global,
                                agent: None,
                            },
                        },
                        ..draft
                    },
                    list,
                }),
                other => final(self).surfaces@.last() == other,
            },
    {
        let ghost before = self.surfaces@;
        let top: usize = self.surfaces.len() - 1;
        let surface: &mut Surface = &mut self.surfaces[top];
        if let Surface::McpForm { draft, .. } = surface {
            draft.location = next_mcp_location(&draft.location, active_agent);
        }
        proof {
            assert(self.surfaces@.drop_last() =~= before.drop_last());
        }
    }

    /// The login to the server on top was removed, or it was not; what the server is
    /// like now is shown.
    pub fn logged_out(&mut self, result: Result<(), String>, refreshed: McpServerRow)
        requires
            old(self).surfaces@.len() > 0,
        ensures
            match old(self).surfaces@.last() {
                Surface::McpServer { server, selected, oauth_connected } => shown_and_said(
                    *old(self),
                    *final(self),
                    old(self).surfaces@.drop_last().push(
                        Surface::McpServer {
                            server: refreshed,
                            selected,
                            oauth_connected: oauth_connected && result is Err,
                        },
                    ),
                    match result {
                        Ok(_) => "MCP OAuth credentials removed"@,
                        Err(error) => failure("MCP logout failed"@, error@),
                    },
                ),
                _ => only_shown(*old(self), *final(self), old(self).surfaces@),
            },
    {
        let ghost before = self.surfaces@;
        let top: usize = self.surfaces.len() - 1;
        let failed: bool = result.is_err();
        let surface: &mut Surface = &mut self.surfaces[top];
        let is_server: bool = match surface {
            Surface::McpServer { server, oauth_connected, .. } => {
                *server = refreshed;
                *oauth_connected = *oauth_connected && failed;
                true
            },
            _ => false,
        };
        if !is_server {
            proof {
                assert(self.surfaces@ =~= before);
            }
            return;
        }
        proof {
            assert(self.surfaces@ =~= before.drop_last().push(self.surfaces@.last()));
        }
        match result {
            Ok(_) => {
                self.notice = Some("MCP OAuth credentials removed".to_owned());
            },
            Err(error) => self.fail("MCP logout failed", error.as_str()),
        }
    }

    /// A login to a server was begun: it is shown under the server's `label`, and it is
    /// said whether a browser was opened for it and its URL or code copied.
    pub fn logged_in(
        &mut self,
        server: String,
        label: String,
        result: Result<McpOAuthPrompt, String>,
        opened: bool,
        copied: bool,
    )
        ensures
            match result {
                Ok(prompt) => shown_and_said(
                    *old(self),
                    *final(self),
                    old(self).surfaces@.push(
                        Surface::McpOAuth {
                            server,
                            label,
                            prompt,
                            completion: McpOAuthCompletion::Waiting,
                        },
                    ),
                    oauth_notice(
                        opened,
                        copied,
                        if prompt is Device { "device code"@ } else { "login URL"@ },
                    ),
                ),
                Err(error) => only_said(
                    *old(self),
                    *final(self),
                    failure("MCP login failed"@, error@),
                ),
            },
    {
        match result {
            Ok(prompt) => {
                let device: bool = match &prompt {
                    McpOAuthPrompt::Device { .. } => true,
                    McpOAuthPrompt::Browser { .. } => false,
                };
                self.notice = Some(mcp_login_notice(opened, copied, device));
                self.surfaces.push(
                    Surface::McpOAuth {
                        server,
                        label,
                        prompt,
                        completion: McpOAuthCompletion::Waiting,
                    },
                );
            },
            Err(error) => self.fail("MCP login failed", error.as_str()),
        }
    }

    /// The browser was to be opened for a login.
    pub fn browser_opened(&mut self, opened: bool)
        ensures
            if opened {
                *final(self) == *old(self)
            } else {
                only_said(*old(self), *final(self), "browser unavailable"@)
            },
    {
        if !opened {
            self.notice = Some("browser unavailable".to_owned());
        }
    }

    /// The URL of a login, or its `code`, was to be copied.
    pub fn login_copied(&mut self, code: bool, copied: bool)
        ensures
            only_said(
                *old(self),
                *final(self),
                if !copied {
                    "clipboard unavailable"@
                } else if code {
                    "MCP OAuth device code copied"@
                } else {
                    "MCP OAuth URL copied"@
                },
            ),
    {
        self.notice = Some(
            if !copied {
                "clipboard unavailable".to_owned()
            } else if code {
                "MCP OAuth device code copied".to_owned()
            } else {
                "MCP OAuth URL copied".to_owned()
            },
        );
    }
}

} // verus!
