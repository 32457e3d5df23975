//! What becomes of the open surfaces once the client has done what a step asked for.

use vstd::prelude::*;
use vstd::string::*;
use crate::agent_drafts::{
    edit_agent_wizard, edits, follows_saving, surface_after_saving, AgentDraft,
};
use crate::agents::{AgentAvailability, AgentWizardOutcome, SkillRow};
use crate::app::{same_but_surfaces, App};
use crate::follow::{below_two, sets_up_search, web_search_setup};
use crate::interaction::{text_view, PermissionScope};
use crate::list::{settled, VISIBLE_MENU_ITEMS, ListState};
use crate::render::concat3;
use crate::render_menus::{PermissionMenuRow, UsageOverview};
use crate::render_pickers::{UsageBreakdown, UsageBreakdownKind};
use crate::surface::Surface;

verus! {

/// What is said of something that failed.
pub open spec fn failure(what: Seq<char>, error: Seq<char>) -> Seq<char> {
    what + " \u{b7} "@ + error
}

/// Nothing but the notice differs, which is `text` afterwards.
pub open spec fn only_said(before: App, after: App, text: Seq<char>) -> bool {
    &&& text_view(after.notice) == Some(text)
    &&& after == (App { notice: after.notice, ..before })
}

/// Nothing but the surfaces and the notice differ, which are `surfaces` and `text`
/// afterwards.
pub open spec fn shown_and_said(before: App, after: App, surfaces: Seq<Surface>, text: Seq<char>)
    -> bool {
    &&& after.surfaces@ == surfaces
    &&& text_view(after.notice) == Some(text)
    &&& same_but_surfaces(after, App { notice: after.notice, ..before })
}

/// Nothing but the surfaces differ, which are `surfaces` afterwards.
pub open spec fn only_shown(before: App, after: App, surfaces: Seq<Surface>) -> bool {
    after.surfaces@ == surfaces && same_but_surfaces(before, after)
}

/// What a surface asks for an answer to.
#[derive(Clone, Copy, Debug, PartialEq, Eq, Structural)]
pub enum Inquiry {
    Question,
    Permission,
    Plan,
}

impl Inquiry {
    /// What is said of an answer that could not be sent.
    pub open spec fn failed_spec(self) -> Seq<char> {
        match self {
            Inquiry::Question => "question response failed"@,
            Inquiry::Permission => "approval response failed"@,
            Inquiry::Plan => "plan response failed"@,
        }
    }

    fn failed(self) -> (what: &'static str)
        ensures
            what@ == self.failed_spec(),
    {
        match self {
            Inquiry::Question => "question response failed",
            Inquiry::Permission => "approval response failed",
            Inquiry::Plan => "plan response failed",
        }
    }
}

/// The surfaces below the one on top, and below another if that is one that shows the
/// usage.
pub open spec fn below_usage(surfaces: Seq<Surface>) -> Seq<Surface> {
    let below = surfaces.drop_last();
    if below.len() > 0 && below.last() is Usage { below.drop_last() } else { below }
}

impl App {
    /// Says that something failed.
    pub fn fail(&mut self, what: &str, error: &str)
        ensures
            only_said(*old(self), *final(self), failure(what@, error@)),
    {
        self.notice = Some(concat3(what, " \u{b7} ", error));
    }

    /// Closes the surface on top.
    fn close_top(&mut self)
        requires
            old(self).surfaces@.len() > 0,
        ensures
            only_shown(*old(self), *final(self), old(self).surfaces@.drop_last()),
    {
        let ghost before = self.surfaces@;
        let _ = self.surfaces.pop();
        proof {
            assert(self.surfaces@ =~= before.drop_last());
        }
    }

    /// Closes the two surfaces on top.
    fn close_two(&mut self)
        ensures
            only_shown(*old(self), *final(self), below_two(old(self).surfaces@)),
    {
        let ghost before = self.surfaces@;
        let _ = self.surfaces.pop();
        let _ = self.surfaces.pop();
        proof {
            assert(self.surfaces@ =~= below_two(before));
        }
    }

    /// An answer was sent, and its surface closes; or it could not be sent, and the
    /// surface stays. No request waits once a plan was answered.
    pub fn answered(&mut self, inquiry: Inquiry, result: Result<(), String>)
        requires
            old(self).surfaces@.len() > 0,
        ensures
            match result {
                Ok(_) => only_shown(
                    App {
                        pending_interaction: if inquiry == Inquiry::Plan {
                            None
                        } else {
                            old(self).pending_interaction
                        },
                        ..*old(self)
                    },
                    *final(self),
                    old(self).surfaces@.drop_last(),
                ),
                Err(error) => only_said(
                    *old(self),
                    *final(self),
                    failure(inquiry.failed_spec(), error@),
                ),
            },
    {
        match result {
            Ok(_) => {
                self.close_top();
                if inquiry == Inquiry::Plan {
                    self.pending_interaction = None;
                }
            },
            Err(error) => self.fail(inquiry.failed(), error.as_str()),
        }
    }

    /// An edited rule was sent: its editor closes with the permission that it was for.
    pub fn rule_sent(&mut self, scope: PermissionScope, result: Result<(), String>)
        ensures
            match result {
                Ok(_) => shown_and_said(
                    *old(self),
                    *final(self),
                    below_two(old(self).surfaces@),
                    scope.saved_notice_spec(),
                ),
                Err(error) => only_said(
                    *old(self),
                    *final(self),
                    failure(Inquiry::Permission.failed_spec(), error@),
                ),
            },
    {
        match result {
            Ok(_) => {
                self.close_two();
                self.notice = Some(scope.saved_notice().to_owned());
            },
            Err(error) => self.fail(Inquiry::Permission.failed(), error.as_str()),
        }
    }

    /// A permission was deleted, or `edited`: the list shows what there is, with the same
    /// item selected as far as there is one.
    pub fn permissions_changed(
        &mut self,
        edited: bool,
        selected: usize,
        result: Result<Vec<PermissionMenuRow>, String>,
    )
        requires
            old(self).surfaces@.len() > 0,
            result matches Ok(rows) ==> rows@.len() < usize::MAX,
        ensures
            match result {
                Ok(rows) => shown_and_said(
                    *old(self),
                    *final(self),
                    (if edited {
                        below_two(old(self).surfaces@)
                    } else {
                        old(self).surfaces@.drop_last()
                    }).push(
                        Surface::Permissions {
                            rows,
                            list: settled(
                                rows@.len() as int + 1,
                                if selected <= rows@.len() {
                                    selected as int
                                } else {
                                    rows@.len() as int
                                },
                                0,
                                VISIBLE_MENU_ITEMS as int,
                            ),
                        },
                    ),
                    if edited { "permission updated"@ } else { "permission deleted"@ },
                ),
                Err(error) => only_said(
                    *old(self),
                    *final(self),
                    failure(
                        if edited {
                            "permission update failed"@
                        } else {
                            "permission delete failed"@
                        },
                        error@,
                    ),
                ),
            },
    {
        match result {
            Ok(rows) => {
                let count: usize = rows.len();
                let at: usize = if selected <= count {
                    selected
                } else {
                    count
                };
                if edited {
                    self.close_two();
                } else {
                    self.close_top();
                }
                let list: ListState = ListState::selectable_at(count + 1, at, VISIBLE_MENU_ITEMS);
                self.surfaces.push(Surface::Permissions { rows, list });
                self.notice = Some(
                    if edited {
                        "permission updated".to_owned()
                    } else {
                        "permission deleted".to_owned()
                    },
                );
            },
            Err(error) => self.fail(
                if edited {
                    "permission update failed"
                } else {
                    "permission delete failed"
                },
                error.as_str(),
            ),
        }
    }

    /// The usage was asked for by project or by model.
    pub fn usage_broken_down(
        &mut self,
        kind: UsageBreakdownKind,
        result: Result<Vec<UsageBreakdown>, String>,
    )
        ensures
            match result {
                Ok(rows) => only_shown(
                    *old(self),
                    *final(self),
                    old(self).surfaces@.push(
                        Surface::UsageBreakdown {
                            kind,
                            rows,
                            list: settled(rows@.len() as int, 0, 0, 1),
                        },
                    ),
                ),
                Err(error) => only_said(
                    *old(self),
                    *final(self),
                    failure("usage breakdown unavailable"@, error@),
                ),
            },
    {
        match result {
            Ok(rows) => {
                let list: ListState = ListState::selectable(rows.len());
                self.surfaces.push(Surface::UsageBreakdown { kind, rows, list });
            },
            Err(error) => self.fail("usage breakdown unavailable", error.as_str()),
        }
    }

    /// The usage was reset: it is shown anew.
    pub fn usage_reset(&mut self, overview: UsageOverview)
        requires
            old(self).surfaces@.len() > 0,
        ensures
            shown_and_said(
                *old(self),
                *final(self),
                below_usage(old(self).surfaces@).push(
                    Surface::Usage { overview, list: settled(4, 0, 0, 1) },
                ),
                "global usage reset"@,
            ),
    {
        self.close_top();
        let count: usize = self.surfaces.len();
        let shown: bool = count > 0 && match &self.surfaces[count - 1] {
            Surface::Usage { .. } => true,
            _ => false,
        };
        if shown {
            self.close_top();
        }
        self.surfaces.push(Surface::Usage { overview, list: ListState::selectable(4) });
        self.notice = Some("global usage reset".to_owned());
    }

    /// A worktree was made, and is worked in with no surface open; or it was not.
    pub fn worktree_created(&mut self, result: Result<(), String>)
        ensures
            match result {
                Ok(_) => only_shown(*old(self), *final(self), Seq::empty()),
                Err(error) => only_said(
                    *old(self),
                    *final(self),
                    failure("worktree failed"@, error@),
                ),
            },
    {
        match result {
            Ok(_) => {
                self.surfaces.clear();
                proof {
                    assert(self.surfaces@ =~= Seq::empty());
                }
            },
            Err(error) => self.fail("worktree failed", error.as_str()),
        }
    }

    /// The conversation was renamed, and the surface closes; or it was not.
    pub fn renamed(&mut self, result: Result<(), String>)
        requires
            old(self).surfaces@.len() > 0,
        ensures
            match result {
                Ok(_) => only_shown(
                    *old(self),
                    *final(self),
                    old(self).surfaces@.drop_last(),
                ),
                Err(error) => only_said(*old(self), *final(self), error@),
            },
    {
        match result {
            Ok(_) => self.close_top(),
            Err(error) => {
                self.notice = Some(error);
            },
        }
    }

    /// All surfaces are closed, once an agent or a mode was changed to.
    pub fn profile_changed(&mut self)
        ensures
            only_shown(*old(self), *final(self), Seq::empty()),
    {
        self.surfaces.clear();
        proof {
            assert(self.surfaces@ =~= Seq::empty());
        }
    }

    /// The model that the agent comes with is used from now on.
    pub fn agent_default_used(&mut self)
        ensures
            shown_and_said(
                App { onboarding: false, ..*old(self) },
                *final(self),
                Seq::empty(),
                "using agent model default"@,
            ),
    {
        self.surfaces.clear();
        self.onboarding = false;
        self.notice = Some("using agent model default".to_owned());
        proof {
            assert(self.surfaces@ =~= Seq::empty());
        }
    }

    /// A skill was deleted: the skills that are left are listed, and nothing else is
    /// open.
    pub fn skill_deleted(&mut self, rows: Vec<SkillRow>)
        requires
            rows@.len() <= usize::MAX - 2,
        ensures
            only_shown(
                *old(self),
                *final(self),
                seq![Surface::Skills { rows, list: settled(rows@.len() as int + 2, 0, 0, 1) }],
            ),
    {
        self.surfaces.clear();
        let list: ListState = ListState::selectable(rows.len() + 2);
        self.surfaces.push(Surface::Skills { rows, list });
        proof {
            assert(self.surfaces@.len() == 1);
            assert(self.surfaces@ =~= seq![self.surfaces@[0]]);
        }
    }

    /// A skill was made: the skills are listed in place of the wizard.
    pub fn skill_created(&mut self, rows: Vec<SkillRow>)
        requires
            old(self).surfaces@.len() > 0,
            rows@.len() <= usize::MAX - 2,
        ensures
            only_shown(
                *old(self),
                *final(self),
                old(self).surfaces@.drop_last().push(
                    Surface::Skills { rows, list: settled(rows@.len() as int + 2, 0, 0, 1) },
                ),
            ),
    {
        self.close_top();
        let list: ListState = ListState::selectable(rows.len() + 2);
        self.surfaces.push(Surface::Skills { rows, list });
    }

    /// What the configuration says of an agent was read: the step that was chosen in its
    /// edit menu takes the place of the menu.
    pub fn agent_draft_read(
        &mut self,
        name: String,
        draft: &AgentDraft,
        otherwise: AgentAvailability,
        profiles: &[String],
        selected: usize,
    )
        requires
            old(self).surfaces@.len() > 0,
        ensures
            same_but_surfaces(*old(self), *final(self)),
            final(self).surfaces@.len() == old(self).surfaces@.len(),
            final(self).surfaces@.drop_last() == old(self).surfaces@.drop_last(),
            final(self).surfaces@.last() matches Surface::AgentWizard(wizard) && edits(
                wizard,
                name@,
                *draft,
                otherwise,
                profiles@,
                selected as int,
            ),
    {
        self.close_top();
        let ghost below = self.surfaces@;
        self.surfaces.push(
            Surface::AgentWizard(edit_agent_wizard(name, draft, otherwise, profiles, selected)),
        );
        proof {
            assert(self.surfaces@.drop_last() =~= below);
        }
    }

    /// An agent was saved: what follows takes the place of the wizard, and where nothing
    /// does, all surfaces close and the agents are to be listed.
    pub fn agent_saved(&mut self, outcome: AgentWizardOutcome, result: Result<(), String>)
        requires
            old(self).surfaces@.len() > 0,
        ensures
            match (result, old(self).surfaces@.last()) {
                (Err(error), _) => only_said(
                    *old(self),
                    *final(self),
                    failure("Agent update failed"@, error@),
                ),
                (Ok(_), Surface::AgentWizard(wizard)) => {
                    &&& same_but_surfaces(*old(self), *final(self))
                    &&& if wizard.editing {
                        &&& final(self).surfaces@.len() == old(self).surfaces@.len()
                        &&& final(self).surfaces@.drop_last() == old(self).surfaces@.drop_last()
                        &&& follows_saving(wizard, outcome, Some(final(self).surfaces@.last()))
                    } else {
                        final(self).surfaces@.len() == 0
                    }
                },
                (Ok(_), _) => only_shown(*old(self), *final(self), old(self).surfaces@),
            },
    {
        let ghost before = self.surfaces@;
        match result {
            Err(error) => self.fail("Agent update failed", error.as_str()),
            Ok(_) => match self.surfaces.pop() {
                Some(Surface::AgentWizard(wizard)) => {
                    match surface_after_saving(wizard, outcome) {
                        None => {
                            self.surfaces.clear();
                        },
                        Some(surface) => {
                            self.surfaces.push(surface);
                            proof {
                                assert(self.surfaces@.drop_last() =~= before.drop_last());
                            }
                        },
                    }
                },
                Some(other) => {
                    self.surfaces.push(other);
                    proof {
                        assert(self.surfaces@ =~= before);
                    }
                },
                None => {},
            },
        }
    }

    /// A search provider was chosen, and the list closes. Where it could not be used, its
    /// setup is opened.
    pub fn web_search_used(&mut self, at: usize, result: Result<(), String>)
        requires
            old(self).surfaces@.len() > 0,
        ensures
            match (result, old(self).surfaces@.last()) {
                (Ok(_), _) => only_shown(
                    *old(self),
                    *final(self),
                    old(self).surfaces@.drop_last(),
                ),
                (Err(error), Surface::WebSearchPicker(picker)) => if at < picker.rows@.len() {
                    &&& text_view(final(self).notice) == Some(error@)
                    &&& same_but_surfaces(
                        *final(self),
                        App { notice: final(self).notice, ..*old(self) },
                    )
                    &&& final(self).surfaces@.len() == old(self).surfaces@.len() + 1
                    &&& final(self).surfaces@.drop_last() == old(self).surfaces@
                    &&& sets_up_search(final(self).surfaces@.last(), picker.rows@[at as int])
                } else {
                    only_said(*old(self), *final(self), error@)
                },
                (Err(error), _) => only_said(*old(self), *final(self), error@),
            },
    {
        match result {
            Ok(_) => self.close_top(),
            Err(error) => {
                self.notice = Some(error);
                let ghost before = self.surfaces@;
                let top: usize = self.surfaces.len() - 1;
                let setup: Option<Surface> = match &self.surfaces[top] {
                    Surface::WebSearchPicker(picker) => if at < picker.rows.len() {
                        Some(web_search_setup(&picker.rows[at]))
                    } else {
                        None
                    },
                    _ => None,
                };
                if let Some(setup) = setup {
                    self.surfaces.push(setup);
                    proof {
                        assert(self.surfaces@.drop_last() =~= before);
                    }
                }
            },
        }
    }
}

} // verus!
