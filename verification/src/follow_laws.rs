//! What a step leads to: what is asked about first, what is handed to the client, and which
//! surface is on top afterwards.

use vstd::prelude::*;
use vstd::string::*;
use crate::agents::{AgentWizardOutcome, AgentWizardStep, ProfilesStep, SkillsStep};
use crate::app::App;
use crate::follow::followed;
use crate::interaction::QuestionStep;
use crate::mcp::McpScope;
use crate::mcp_control::{ConfirmStep, FieldStep, McpFormStep, McpServerStep, PackageSetupStep};
use crate::pickers::UsageStep;
use crate::providers::{ProvidersStep, WebSearchStep};
use crate::settings::{SettingStep, SettingsStep};
use crate::supervised_work::{BackgroundStep, SupervisedWork, SupervisedWorkTarget};
use crate::surface::Surface;
use crate::surface_key::SurfaceStep;

verus! {

/// Whether nothing changed but that a surface was put on top.
pub open spec fn opened_on_top(before: App, after: App) -> bool {
    &&& after.surfaces@.len() == before.surfaces@.len() + 1
    &&& after.surfaces@.drop_last() == before.surfaces@
    &&& after.notice == before.notice
}

/// Whether nothing changed at all.
pub open spec fn left_alone(before: App, after: App) -> bool {
    after.surfaces@ == before.surfaces@ && after.notice == before.notice
}

/// Whether nothing changed but that the surface on top was closed.
pub open spec fn only_closed(before: App, after: App) -> bool {
    after.surfaces@ == before.surfaces@.drop_last() && after.notice == before.notice
}

/// Nothing is stopped, deleted, removed or reset at once: a surface is opened that asks about
/// it, names it, and has nothing selected but to leave it; the client is not asked to act.
pub proof fn law_stopping_asks_first(
    before: App,
    after: App,
    step: SurfaceStep,
    names: Seq<String>,
    perform: bool,
)
    requires
        before.surfaces@.len() > 0,
        followed(before, after, step, names, perform),
    ensures
        before.surfaces@.last() matches Surface::SupervisedWork(work) ==> (
        step matches SurfaceStep::Background(BackgroundStep::Kill(at)) ==> (at < work.rows@.len()
            ==> {
            &&& !perform
            &&& opened_on_top(before, after)
            &&& after.surfaces@.last() matches Surface::KillSupervisedWork { target, selected }
                && selected == 0 && (work.rows@[at as int] matches SupervisedWork::Agent { run }
                ==> target == SupervisedWorkTarget::Agent(run.id)) && (
            work.rows@[at as int] matches SupervisedWork::Terminal { terminal } ==> target
                == SupervisedWorkTarget::Terminal(terminal.id))
        })),
        before.surfaces@.last() matches Surface::Skills { rows, list } ==> (
        step matches SurfaceStep::Skills(SkillsStep::Delete(at)) ==> (at < rows@.len() ==> {
            &&& !perform
            &&& opened_on_top(before, after)
            &&& after.surfaces@.last() matches Surface::SkillDeleteConfirm { name, selected }
                && selected == 0 && name == rows@[at as int].name
        })),
        before.surfaces@.last() matches Surface::McpServer { server, selected, oauth_connected }
            ==> (step == SurfaceStep::McpServer(McpServerStep::Remove) ==> {
            &&& !perform
            &&& opened_on_top(before, after)
            &&& after.surfaces@.last() matches Surface::McpRemoveConfirm {
                server: removed,
                selected,
            } && selected == 0 && removed.name == server.name && removed.scope == server.scope
        }),
        step == SurfaceStep::Usage(UsageStep::Reset) ==> !perform && opened_on_top(before, after)
            && after.surfaces@.last() == (Surface::UsageResetConfirm { selected: 0 }),
{
    assert forall|surface: Surface| #[trigger]
        before.surfaces@.push(surface).drop_last() == before.surfaces@ by {
        assert(before.surfaces@.push(surface).drop_last() =~= before.surfaces@);
    }
    assert forall|surface: Surface| #[trigger]
        before.surfaces@.drop_last().push(surface).drop_last()
            == before.surfaces@.drop_last() by {
        assert(before.surfaces@.drop_last().push(surface).drop_last()
            =~= before.surfaces@.drop_last());
    }
}

/// What was asked about is handed to the client when it is confirmed, and left when it is
/// not; the surface that asked closes only then.
pub proof fn law_confirmations_act_or_leave(
    before: App,
    after: App,
    step: SurfaceStep,
    names: Seq<String>,
    perform: bool,
)
    requires
        before.surfaces@.len() > 0,
        followed(before, after, step, names, perform),
    ensures
        step == SurfaceStep::Confirm(ConfirmStep::Confirm) ==> perform && left_alone(before, after),
        step == SurfaceStep::Confirm(ConfirmStep::Cancel) ==> !perform && only_closed(
            before,
            after,
        ),
        step == SurfaceStep::Confirm(ConfirmStep::Stay) ==> !perform && left_alone(before, after),
{
    assert forall|surface: Surface| #[trigger]
        before.surfaces@.push(surface).drop_last() == before.surfaces@ by {
        assert(before.surfaces@.push(surface).drop_last() =~= before.surfaces@);
    }
    assert forall|surface: Surface| #[trigger]
        before.surfaces@.drop_last().push(surface).drop_last()
            == before.surfaces@.drop_last() by {
        assert(before.surfaces@.drop_last().push(surface).drop_last()
            =~= before.surfaces@.drop_last());
    }
}

/// An answer to a question, a permission or a plan is handed to the client, and the surface
/// stays until the client has sent it; a key that answers nothing hands nothing on.
pub proof fn law_answers_are_handed_on(
    before: App,
    after: App,
    step: SurfaceStep,
    names: Seq<String>,
    perform: bool,
)
    requires
        before.surfaces@.len() > 0,
        followed(before, after, step, names, perform),
    ensures
        step matches SurfaceStep::Question(answer) ==> perform == (answer == QuestionStep::Respond)
            && left_alone(before, after),
        step matches SurfaceStep::Permission(answer) ==> perform == !(answer is Stay)
            && left_alone(before, after),
        step matches SurfaceStep::Plan(answer) ==> perform == !(answer is Stay) && left_alone(
            before,
            after,
        ),
{
    assert forall|surface: Surface| #[trigger]
        before.surfaces@.push(surface).drop_last() == before.surfaces@ by {
        assert(before.surfaces@.push(surface).drop_last() =~= before.surfaces@);
    }
    assert forall|surface: Surface| #[trigger]
        before.surfaces@.drop_last().push(surface).drop_last()
            == before.surfaces@.drop_last() by {
        assert(before.surfaces@.drop_last().push(surface).drop_last()
            =~= before.surfaces@.drop_last());
    }
}

/// What is picked is handed to the client. A conversation that is resumed, a message that is
/// scrolled to or forked from for good, and a path that is completed close their picker; a
/// conversation that is archived, deleted or made a favourite keeps it open.
pub proof fn law_picks_are_handed_on(
    before: App,
    after: App,
    step: SurfaceStep,
    names: Seq<String>,
    perform: bool,
)
    requires
        before.surfaces@.len() > 0,
        followed(before, after, step, names, perform),
    ensures
        step matches SurfaceStep::Conversations(picked) ==> {
            &&& perform == !(picked is Stay)
            &&& picked is Resume ==> only_closed(before, after)
            &&& !(picked is Resume) ==> left_alone(before, after)
        },
        step matches SurfaceStep::History(picked) ==> {
            &&& perform == !(picked is Stay)
            &&& picked is ScrollTo || picked is HardFork ==> only_closed(before, after)
            &&& picked is Fork || picked is Preview || picked is Filter || picked is Stay
                ==> left_alone(before, after)
        },
        step matches SurfaceStep::Paths(picked) ==> {
            &&& perform == (picked is Complete)
            &&& picked is Complete ==> only_closed(before, after)
            &&& picked is Stay ==> left_alone(before, after)
        },
        step matches SurfaceStep::Models(picked) ==> perform == !(picked is Stay) && left_alone(
            before,
            after,
        ),
        step matches SurfaceStep::Permissions(picked) ==> {
            &&& perform == (picked is Delete || picked is Edit)
            &&& picked is Close ==> only_closed(before, after)
            &&& picked is Delete || picked is Edit || picked is Stay ==> left_alone(before, after)
            &&& picked is NotEditable ==> after.surfaces@ == before.surfaces@ && after.notice
                is Some
        },
        step matches SurfaceStep::Worktrees(picked) ==> {
            &&& perform == (picked is Switch)
            &&& picked is Switch ==> after.surfaces@.len() == 0
            &&& picked is New ==> after.surfaces@.drop_last() == before.surfaces@.drop_last()
                && after.surfaces@.last() is WorktreeNew
        },
        step matches SurfaceStep::WorktreeNew(picked) ==> perform == (picked is Create)
            && after.surfaces@ == before.surfaces@,
{
    assert forall|surface: Surface| #[trigger]
        before.surfaces@.push(surface).drop_last() == before.surfaces@ by {
        assert(before.surfaces@.push(surface).drop_last() =~= before.surfaces@);
    }
    assert forall|surface: Surface| #[trigger]
        before.surfaces@.drop_last().push(surface).drop_last()
            == before.surfaces@.drop_last() by {
        assert(before.surfaces@.drop_last().push(surface).drop_last()
            =~= before.surfaces@.drop_last());
    }
}

/// A setting that is opened is edited on top of the settings, under its own key; one that is
/// chosen or written is handed to the client to be saved or reset.
pub proof fn law_settings_lead_to_their_editor(
    before: App,
    after: App,
    step: SurfaceStep,
    names: Seq<String>,
    perform: bool,
)
    requires
        before.surfaces@.len() > 0,
        followed(before, after, step, names, perform),
    ensures
        before.surfaces@.last() matches Surface::Settings(settings) ==> (
        step matches SurfaceStep::Settings(picked) ==> {
            &&& picked is Reset ==> perform && left_alone(before, after)
            &&& picked is Stay ==> !perform && left_alone(before, after)
            &&& picked matches SettingsStep::Open(at) ==> (at < settings.rows@.len() ==> {
                let row = settings.rows@[at as int];
                &&& row.definition.kind is ModelPicker ==> perform && left_alone(before, after)
                &&& !(row.definition.kind is ModelPicker) ==> {
                    &&& !perform
                    &&& opened_on_top(before, after)
                    &&& (after.surfaces@.last() matches Surface::SettingChoices {
                        setting,
                        choices,
                        list,
                        custom,
                    } && setting.key == row.definition.key) || (
                    after.surfaces@.last() matches Surface::SettingInput { setting, input, tokens }
                        && setting.key == row.definition.key)
                }
            })
        }),
        before.surfaces@.last() is SettingChoices || before.surfaces@.last() is SettingInput ==> (
        step matches SurfaceStep::Setting(done) ==> {
            &&& perform == (done is Save || done is Reset)
            &&& done is Save || done is Reset || done is Stay ==> left_alone(before, after)
            &&& done is Close ==> only_closed(before, after)
            &&& done matches SettingStep::Custom { value, cursor } ==> (
            after.surfaces@.last() matches Surface::SettingInput { setting, input, tokens }
                && input.value == value && input.cursor == cursor) && after.surfaces@.drop_last()
                == before.surfaces@.drop_last()
        }),
{
    assert forall|surface: Surface| #[trigger]
        before.surfaces@.push(surface).drop_last() == before.surfaces@ by {
        assert(before.surfaces@.push(surface).drop_last() =~= before.surfaces@);
    }
    assert forall|surface: Surface| #[trigger]
        before.surfaces@.drop_last().push(surface).drop_last()
            == before.surfaces@.drop_last() by {
        assert(before.surfaces@.drop_last().push(surface).drop_last()
            =~= before.surfaces@.drop_last());
    }
}

/// A new server begins with where it is put, then how it is reached; a form is edited field by
/// field on top of it, and what is to be saved is handed to the client.
pub proof fn law_servers_lead_to_their_surfaces(
    before: App,
    after: App,
    step: SurfaceStep,
    names: Seq<String>,
    perform: bool,
)
    requires
        before.surfaces@.len() > 0,
        followed(before, after, step, names, perform),
    ensures
        step matches SurfaceStep::McpServers(picked) ==> {
            &&& picked is Add ==> !perform && opened_on_top(before, after) && after.surfaces@.last()
                == (Surface::McpAddScope { selected: 0 })
            &&& picked is Close ==> !perform && only_closed(before, after)
            &&& picked is Open || picked is Catalog ==> perform && left_alone(before, after)
        },
        step matches SurfaceStep::AddScope(picked) ==> {
            &&& !perform
            &&& picked is Global ==> after.surfaces@.last() == (Surface::McpTransport {
                scope: McpScope::Global,
                selected: 0,
            })
            &&& picked is Project ==> after.surfaces@.last() == (Surface::McpTransport {
                scope: McpScope::Project,
                selected: 0,
            })
            &&& picked is Close ==> only_closed(before, after)
        },
        before.surfaces@.last() matches Surface::McpForm { draft, list } ==> (
        step matches SurfaceStep::McpForm(picked) ==> {
            &&& perform == (picked is Preview || picked is NextLocation)
            &&& picked is Close ==> only_closed(before, after)
            &&& picked is Preview || picked is NextLocation || picked is Stay ==> left_alone(
                before,
                after,
            )
            &&& picked matches McpFormStep::Edit { field, value, cursor } ==> opened_on_top(
                before,
                after,
            ) && (after.surfaces@.last() matches Surface::McpFieldEdit {
                draft: copy,
                field: edited,
                input,
                tokens,
            } && edited == field && input.value == value && copy.name == draft.name
                && copy.definition@ == draft.definition@)
        }),
        before.surfaces@.last() matches Surface::McpTransport { scope, selected } ==> (
        step matches SurfaceStep::Transport(picked) ==> {
            &&& !perform
            &&& picked is Form ==> (after.surfaces@.last() matches Surface::McpForm { draft, list }
                && draft.location.scope == scope && draft.original is None && draft.name@.len()
                == 0 && draft.definition.enabled && (draft.definition.transport is Stdio) == (
            selected == 1))
            &&& picked is Json ==> (after.surfaces@.last() matches Surface::McpJsonEdit {
                location,
                separate_name,
                editor,
                tokens,
            } && location.scope == scope && separate_name is None)
        }),
        before.surfaces@.last() matches Surface::McpPackageSetup { draft, selected } ==> (
        step matches SurfaceStep::PackageSetup(picked) ==> {
            &&& perform == (picked is Save)
            &&& picked matches PackageSetupStep::Edit { field, value, cursor } ==> (
            after.surfaces@.last() matches Surface::McpPackageValueEdit {
                draft: copy,
                field: edited,
                input,
            } && edited == field && input.value == value)
        }),
{
    assert forall|surface: Surface| #[trigger]
        before.surfaces@.push(surface).drop_last() == before.surfaces@ by {
        assert(before.surfaces@.push(surface).drop_last() =~= before.surfaces@);
    }
    assert forall|surface: Surface| #[trigger]
        before.surfaces@.drop_last().push(surface).drop_last()
            == before.surfaces@.drop_last() by {
        assert(before.surfaces@.drop_last().push(surface).drop_last()
            =~= before.surfaces@.drop_last());
    }
}

/// A field that is saved returns to the form that it belongs to, with what was saved, and the
/// cursor on the field; the two surfaces on top make way for it.
pub proof fn law_saved_fields_return_to_their_form(
    before: App,
    after: App,
    step: SurfaceStep,
    names: Seq<String>,
    perform: bool,
)
    requires
        before.surfaces@.len() > 0,
        before.surfaces@.len() >= 2,
        followed(before, after, step, names, perform),
    ensures
        step matches SurfaceStep::Field(FieldStep::Saved(at)) ==> {
            &&& !perform
            &&& after.notice == before.notice
            &&& before.surfaces@.last() matches Surface::McpFieldEdit {
                draft,
                field,
                input,
                tokens,
            } ==> after.surfaces@.len() == before.surfaces@.len() - 1 && (
            after.surfaces@.last() matches Surface::McpForm { draft: saved, list } && saved == draft
                && (at < 12 ==> list.selected == Some(at)))
            &&& before.surfaces@.last() matches Surface::McpPackageValueEdit {
                draft,
                field,
                input,
            } ==> after.surfaces@.len() == before.surfaces@.len() - 1 && after.surfaces@.last() == (
            Surface::McpPackageSetup { draft, selected: at })
        },
        step matches SurfaceStep::Field(FieldStep::Refused(reason)) ==> !perform && after.surfaces@
            == before.surfaces@ && after.notice is Some && (exists|head: Seq<char>|
            #[trigger] (head + reason@) == after.notice->0@),
{
    assert forall|surface: Surface| #[trigger]
        before.surfaces@.push(surface).drop_last() == before.surfaces@ by {
        assert(before.surfaces@.push(surface).drop_last() =~= before.surfaces@);
    }
    assert forall|surface: Surface| #[trigger]
        before.surfaces@.drop_last().push(surface).drop_last()
            == before.surfaces@.drop_last() by {
        assert(before.surfaces@.drop_last().push(surface).drop_last()
            =~= before.surfaces@.drop_last());
    }
}

/// A provider that is set up is the one that was picked, and nothing is written for it yet;
/// one that is turned on or off, or removed, is handed to the client. Agents and skills are
/// likewise handed on, or edited on a surface of their own.
pub proof fn law_setups_lead_to_their_provider(
    before: App,
    after: App,
    step: SurfaceStep,
    names: Seq<String>,
    perform: bool,
)
    requires
        before.surfaces@.len() > 0,
        followed(before, after, step, names, perform),
    ensures
        before.surfaces@.last() matches Surface::Providers(providers) ==> (
        step matches SurfaceStep::Providers(picked) ==> {
            &&& picked is Toggle || picked is Remove ==> perform && left_alone(before, after)
            &&& picked is Close ==> perform && only_closed(before, after)
            &&& picked is Stay ==> !perform && left_alone(before, after)
            &&& picked matches ProvidersStep::SetUp(at) ==> (at < providers.rows@.len() ==> !perform
                && opened_on_top(before, after) && (
            after.surfaces@.last() matches Surface::ProviderSetup(setup) && setup.provider_id
                == providers.rows@[at as int].id && setup.api_key@.len() == 0))
            &&& picked matches ProvidersStep::Reconfigure(at) ==> (at < providers.rows@.len()
                ==> !perform && opened_on_top(before, after) && (
            after.surfaces@.last() matches Surface::ProviderSetup(setup) && setup.provider_id
                == providers.rows@[at as int].id && setup.api_key@.len() == 0))
        }),
        before.surfaces@.last() matches Surface::WebSearchPicker(picker) ==> (
        step matches SurfaceStep::WebSearch(picked) ==> {
            &&& picked is Use || picked is Remove ==> perform && left_alone(before, after)
            &&& picked is Close ==> !perform && only_closed(before, after)
            &&& picked matches WebSearchStep::SetUp(at) ==> (at < picker.rows@.len() ==> (
            after.surfaces@.last() matches Surface::WebSearchSetup { provider, label, field }
                && provider == picker.rows@[at as int].provider && field.value@.len() == 0))
        }),
        before.surfaces@.last() matches Surface::Skills { rows, list } ==> (
        step matches SurfaceStep::Skills(picked) ==> {
            &&& picked is Toggle || picked is Edit ==> perform && left_alone(before, after)
            &&& picked is Close ==> !perform && only_closed(before, after)
            &&& picked is New ==> !perform && (after.surfaces@.last() matches Surface::SkillWizard(
                wizard,
            ) && wizard.name@.text.len() == 0 && wizard.content@.text.len() == 0)
        }),
        before.surfaces@.last() matches Surface::Profiles { kind, rows, list } ==> (
        step matches SurfaceStep::Profiles(picked) ==> {
            &&& picked is Change ==> perform && left_alone(before, after)
            &&& picked is Add ==> (after.surfaces@.last() matches Surface::AgentWizard(wizard)
                && !wizard.editing && wizard.name@.len() == 0 && wizard.step
                == AgentWizardStep::Name)
            &&& picked matches ProfilesStep::Edit(at) ==> (at < rows@.len() ==> (
            after.surfaces@.last() matches Surface::AgentEdit { name, list: items } && name
                == rows@[at as int].name))
        }),
        step matches SurfaceStep::AgentWizard(outcome) ==> {
            &&& after.surfaces@ == before.surfaces@
            &&& perform == (outcome != AgentWizardOutcome::Stay && outcome
                != AgentWizardOutcome::NameRequired && outcome != AgentWizardOutcome::NameTaken)
            &&& outcome == AgentWizardOutcome::NameRequired || outcome
                == AgentWizardOutcome::NameTaken ==> after.notice is Some
        },
        step matches SurfaceStep::Written(done) ==> (!done ==> !perform && left_alone(
            before,
            after,
        )) && (done && !(before.surfaces@.last() is WebSearchSetup) ==> perform && left_alone(
            before,
            after,
        )),
{
    assert forall|surface: Surface| #[trigger]
        before.surfaces@.push(surface).drop_last() == before.surfaces@ by {
        assert(before.surfaces@.push(surface).drop_last() =~= before.surfaces@);
    }
    assert forall|surface: Surface| #[trigger]
        before.surfaces@.drop_last().push(surface).drop_last()
            == before.surfaces@.drop_last() by {
        assert(before.surfaces@.drop_last().push(surface).drop_last()
            =~= before.surfaces@.drop_last());
    }
}

} // verus!
