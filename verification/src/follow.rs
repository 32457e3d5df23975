//! What becomes of the open surfaces when a key asks for something.

use vstd::prelude::*;
use vstd::string::*;
use crate::agent_drafts::{adds, new_agent_wizard};
use crate::agents::{
    agent_edit_list, AgentWizardOutcome, ProfileRow, ProfilesStep, SkillRow, SkillWizard,
    SkillWizardStep, SkillsStep,
};
use crate::app::{copy_provider, same_but_surfaces, App};
use crate::copies::{copy_setting, same_setting};
use crate::follow_mcp::{
    add_scope_follows, catalog_follows, follow_add_scope, follow_catalog, follow_form, follow_oauth,
    follow_package, follow_server, follow_servers, follow_transport, form_follows, oauth_follows,
    package_follows, server_follows, servers_follow, transport_follows,
};
use crate::interaction::{PermissionStep, PlanStep, QuestionStep};
use crate::list::{settled, VISIBLE_MENU_ITEMS, ListState};
use crate::mcp::{form_maximum, mcp_form_maximum};
use crate::mcp_control::{ConfirmStep, FieldStep};
use crate::multiline_input::MultilineInput;
use crate::pickers::{
    ConversationsStep, HistoryStep, PathsStep, PermissionsStep, UsageStep, WorktreeNew,
    WorktreeNewStep, WorktreesStep,
};
use crate::providers::{
    ModelsStep, ProviderRow, ProviderSetup, ProviderSetupStep, ProvidersStep, TextField,
    WebSearchProvider, WebSearchRow, WebSearchStep,
};
use crate::render::concat;
use crate::settings::{
    edited_by, setting_editor, SettingDefinition, SettingEditor, SettingRow, SettingStep,
    SettingsStep,
};
use crate::single_line_input::{InputView, SingleLineInput};
use crate::supervised_work::{BackgroundStep, SupervisedWork, SupervisedWorkTarget};
use crate::surface::Surface;
use crate::surface_key::SurfaceStep;

verus! {

/// What becomes of the open surfaces.
#[derive(Debug)]
pub enum Change {
    Keep,
    /// The surface on top is closed.
    Close,
    CloseAll,
    /// A surface is opened on top of the others.
    Open(Surface),
    /// A surface takes the place of the one on top.
    Replace(Surface),
}

/// What becomes of the notice.
#[derive(Debug)]
pub enum Said {
    Nothing,
    Cleared,
    Text(String),
}

/// What a step leads to. Where `perform` is set, the step asks for something that only
/// the client can do.
#[derive(Debug)]
pub struct Consequence {
    pub change: Change,
    pub said: Said,
    pub perform: bool,
}

/// The open surfaces after a change.
pub open spec fn surfaces_after(before: Seq<Surface>, change: Change) -> Seq<Surface> {
    match change {
        Change::Keep => before,
        Change::Close => before.drop_last(),
        Change::CloseAll => Seq::empty(),
        Change::Open(surface) => before.push(surface),
        Change::Replace(surface) => before.drop_last().push(surface),
    }
}

/// The notice after something was said.
pub open spec fn notice_after(before: Option<String>, said: Said) -> Option<String> {
    match said {
        Said::Nothing => before,
        Said::Cleared => None,
        Said::Text(text) => Some(text),
    }
}

impl Consequence {
    /// Nothing happens.
    pub open spec fn stays(self) -> bool {
        self.change is Keep && self.said is Nothing && !self.perform
    }

    /// The client acts, and the surfaces stay as they are for the time being.
    pub open spec fn waits(self) -> bool {
        self.change is Keep && self.said is Nothing && self.perform
    }

    /// The surface on top is closed, and that is all.
    pub open spec fn closes(self) -> bool {
        self.change is Close && self.said is Nothing && !self.perform
    }

    /// The surface on top is closed, and the client acts.
    pub open spec fn closes_and_acts(self) -> bool {
        self.change is Close && self.said is Nothing && self.perform
    }

    /// Something is said, and that is all.
    pub open spec fn says(self, text: Seq<char>) -> bool {
        &&& self.change is Keep
        &&& !self.perform
        &&& self.said matches Said::Text(said) && said@ == text
    }

    /// The surface that is opened on top of the others, if that is all.
    pub open spec fn opened(self) -> Option<Surface> {
        match self.change {
            Change::Open(surface) => if self.said is Nothing && !self.perform {
                Some(surface)
            } else {
                None
            },
            _ => None,
        }
    }

    /// The surface that takes the place of the one on top, if that is all.
    pub open spec fn replacement(self) -> Option<Surface> {
        match self.change {
            Change::Replace(surface) => if self.said is Nothing && !self.perform {
                Some(surface)
            } else {
                None
            },
            _ => None,
        }
    }

    pub fn stay() -> (consequence: Self)
        ensures
            consequence.stays(),
    {
        Consequence { change: Change::Keep, said: Said::Nothing, perform: false }
    }

    pub fn wait() -> (consequence: Self)
        ensures
            consequence.waits(),
    {
        Consequence { change: Change::Keep, said: Said::Nothing, perform: true }
    }

    pub fn close() -> (consequence: Self)
        ensures
            consequence.closes(),
    {
        Consequence { change: Change::Close, said: Said::Nothing, perform: false }
    }

    pub fn close_and_act() -> (consequence: Self)
        ensures
            consequence.closes_and_acts(),
    {
        Consequence { change: Change::Close, said: Said::Nothing, perform: true }
    }

    pub fn say(text: String) -> (consequence: Self)
        ensures
            consequence.says(text@),
    {
        Consequence { change: Change::Keep, said: Said::Text(text), perform: false }
    }

    pub fn open(surface: Surface) -> (consequence: Self)
        ensures
            consequence.opened() == Some(surface),
    {
        Consequence { change: Change::Open(surface), said: Said::Nothing, perform: false }
    }

    pub fn replace(surface: Surface) -> (consequence: Self)
        ensures
            consequence.replacement() == Some(surface),
    {
        Consequence { change: Change::Replace(surface), said: Said::Nothing, perform: false }
    }
}

/// Whether a setup is that of a provider: `fresh` for one that is not set up, else for
/// one that is set up again.
pub open spec fn sets_up(setup: ProviderSetup, row: ProviderRow, fresh: bool) -> bool {
    let by_login = row.managed_auth && row.setup_instructions is None;
    &&& setup.provider_id == row.id
    &&& setup.provider == row.label
    &&& setup.instructions@ == (match row.setup_instructions {
        Some(instructions) => if fresh {
            instructions@
        } else {
            row.configuration_instructions@
        },
        None => row.configuration_instructions@,
    })
    &&& setup.credential_environment_variable == if !fresh && by_login {
        None
    } else {
        row.credential_environment_variable
    }
    &&& setup.auth_challenge is None
    &&& setup.managed_auth == if fresh { row.managed_auth } else { by_login }
    &&& setup.api_key_auth == if fresh { row.api_key_auth } else { !by_login }
    &&& setup.api_key@.len() == 0
    &&& setup.api_key_cursor == 0
    &&& setup.auth_flows@ == row.auth_flows@
    &&& !setup.authenticated
}

fn provider_setup(row: &ProviderRow, fresh: bool) -> (setup: ProviderSetup)
    ensures
        sets_up(setup, *row, fresh),
{
    let by_login: bool = row.managed_auth && row.setup_instructions.is_none();
    let copy: ProviderRow = copy_provider(row);
    let instructions: String = match copy.setup_instructions {
        Some(instructions) => if fresh {
            instructions
        } else {
            copy.configuration_instructions
        },
        None => copy.configuration_instructions,
    };
    ProviderSetup {
        provider_id: copy.id,
        provider: copy.label,
        instructions,
        credential_environment_variable: if !fresh && by_login {
            None
        } else {
            copy.credential_environment_variable
        },
        auth_challenge: None,
        managed_auth: if fresh {
            row.managed_auth
        } else {
            by_login
        },
        api_key_auth: if fresh {
            row.api_key_auth
        } else {
            !by_login
        },
        api_key: String::new(),
        api_key_cursor: 0,
        auth_flows: copy.auth_flows,
        authenticated: false,
    }
}

/// Whether the setup of a provider is opened.
pub open spec fn opens_setup(
    rows: Seq<ProviderRow>,
    at: usize,
    fresh: bool,
    consequence: Consequence,
) -> bool {
    if at < rows.len() {
        consequence.opened() matches Some(
            Surface::ProviderSetup(setup),
        ) && sets_up(setup, rows[at as int], fresh)
    } else {
        consequence.stays()
    }
}

/// What a step on the list of providers leads to.
pub open spec fn providers_follow(
    rows: Seq<ProviderRow>,
    step: ProvidersStep,
    consequence: Consequence,
) -> bool {
    match step {
        ProvidersStep::Stay => consequence.stays(),
        ProvidersStep::Close => consequence.closes_and_acts(),
        ProvidersStep::Reconfigure(at) => opens_setup(rows, at, false, consequence),
        ProvidersStep::SetUp(at) => opens_setup(rows, at, true, consequence),
        _ => consequence.waits(),
    }
}

fn follow_providers(rows: &[ProviderRow], step: &ProvidersStep) -> (consequence: Consequence)
    ensures
        providers_follow(rows@, *step, consequence),
{
    match step {
        ProvidersStep::Stay => Consequence::stay(),
        ProvidersStep::Close => Consequence::close_and_act(),
        ProvidersStep::Reconfigure(at) => if *at < rows.len() {
            Consequence::open(Surface::ProviderSetup(provider_setup(&rows[*at], false)))
        } else {
            Consequence::stay()
        },
        ProvidersStep::SetUp(at) => if *at < rows.len() {
            Consequence::open(Surface::ProviderSetup(provider_setup(&rows[*at], true)))
        } else {
            Consequence::stay()
        },
        _ => Consequence::wait(),
    }
}

/// What a step on the setup of a provider leads to: a device login that is begun on
/// demand clears the notice first.
pub open spec fn provider_setup_follows(step: ProviderSetupStep, consequence: Consequence) -> bool {
    match step {
        ProviderSetupStep::Stay => consequence.stays(),
        ProviderSetupStep::Close => consequence.closes(),
        ProviderSetupStep::Begin { flow, launch, clear } => consequence.perform
            && consequence.change is Keep && if clear {
            consequence.said is Cleared
        } else {
            consequence.said is Nothing
        },
        _ => consequence.waits(),
    }
}

fn follow_provider_setup(step: &ProviderSetupStep) -> (consequence: Consequence)
    ensures
        provider_setup_follows(*step, consequence),
{
    match step {
        ProviderSetupStep::Stay => Consequence::stay(),
        ProviderSetupStep::Close => Consequence::close(),
        ProviderSetupStep::Begin { clear, .. } => Consequence {
            change: Change::Keep,
            said: if *clear {
                Said::Cleared
            } else {
                Said::Nothing
            },
            perform: true,
        },
        _ => Consequence::wait(),
    }
}

/// Whether a surface sets up a web search provider that has nothing set yet.
pub open spec fn sets_up_search(surface: Surface, row: WebSearchRow) -> bool {
    surface matches Surface::WebSearchSetup { provider, label, field } && provider == row.provider
        && label == row.label && field.value@.len() == 0 && field.cursor == 0
}

/// What a step on the list of web search providers leads to.
pub open spec fn web_search_follows(
    rows: Seq<WebSearchRow>,
    step: WebSearchStep,
    consequence: Consequence,
) -> bool {
    match step {
        WebSearchStep::Stay => consequence.stays(),
        WebSearchStep::Close => consequence.closes(),
        WebSearchStep::AskToConnect => consequence.says(
            "connect a ChatGPT subscription in /providers"@,
        ),
        WebSearchStep::SetUp(at) => if at < rows.len() {
            consequence.opened() matches Some(surface)
                && sets_up_search(surface, rows[at as int])
        } else {
            consequence.stays()
        },
        _ => consequence.waits(),
    }
}

/// The setup of a web search provider.
pub fn web_search_setup(row: &WebSearchRow) -> (surface: Surface)
    ensures
        sets_up_search(surface, *row),
{
    Surface::WebSearchSetup {
        provider: row.provider,
        label: row.label.clone(),
        field: TextField { value: String::new(), cursor: 0 },
    }
}

fn follow_web_search(rows: &[WebSearchRow], step: &WebSearchStep) -> (consequence: Consequence)
    ensures
        web_search_follows(rows@, *step, consequence),
{
    match step {
        WebSearchStep::Stay => Consequence::stay(),
        WebSearchStep::Close => Consequence::close(),
        WebSearchStep::AskToConnect => Consequence::say(
            "connect a ChatGPT subscription in /providers".to_owned(),
        ),
        WebSearchStep::SetUp(at) => if *at < rows.len() {
            Consequence::open(web_search_setup(&rows[*at]))
        } else {
            Consequence::stay()
        },
        _ => Consequence::wait(),
    }
}

/// What a step on the list of permissions leads to.
pub open spec fn permissions_follow(step: PermissionsStep, consequence: Consequence) -> bool {
    match step {
        PermissionsStep::Stay => consequence.stays(),
        PermissionsStep::Close => consequence.closes(),
        PermissionsStep::NotEditable => consequence.says(
            "this permission has no editable path or command matcher"@,
        ),
        _ => consequence.waits(),
    }
}

fn follow_permissions(step: &PermissionsStep) -> (consequence: Consequence)
    ensures
        permissions_follow(*step, consequence),
{
    match step {
        PermissionsStep::Stay => Consequence::stay(),
        PermissionsStep::Close => Consequence::close(),
        PermissionsStep::NotEditable => Consequence::say(
            "this permission has no editable path or command matcher".to_owned(),
        ),
        _ => Consequence::wait(),
    }
}

/// What a step on the usage leads to: a reset is confirmed first.
pub open spec fn usage_follows(step: UsageStep, consequence: Consequence) -> bool {
    match step {
        UsageStep::Stay => consequence.stays(),
        UsageStep::Close => consequence.closes(),
        UsageStep::Reset => consequence.opened() == Some(
            Surface::UsageResetConfirm { selected: 0 },
        ),
        _ => consequence.waits(),
    }
}

fn follow_usage(step: &UsageStep) -> (consequence: Consequence)
    ensures
        usage_follows(*step, consequence),
{
    match step {
        UsageStep::Stay => Consequence::stay(),
        UsageStep::Close => Consequence::close(),
        UsageStep::Reset => Consequence::open(Surface::UsageResetConfirm { selected: 0 }),
        _ => Consequence::wait(),
    }
}

/// What an answer to a question about a change leads to.
pub open spec fn confirm_follows(step: ConfirmStep, consequence: Consequence) -> bool {
    match step {
        ConfirmStep::Stay => consequence.stays(),
        ConfirmStep::Cancel => consequence.closes(),
        ConfirmStep::Confirm => consequence.waits(),
    }
}

fn follow_confirm(step: &ConfirmStep) -> (consequence: Consequence)
    ensures
        confirm_follows(*step, consequence),
{
    match step {
        ConfirmStep::Stay => Consequence::stay(),
        ConfirmStep::Cancel => Consequence::close(),
        ConfirmStep::Confirm => Consequence::wait(),
    }
}

/// What a step on the list of worktrees leads to: a new one is described in place of
/// the list, and a worktree that is switched to is worked in with no surface open.
pub open spec fn worktrees_follow(step: WorktreesStep, consequence: Consequence) -> bool {
    match step {
        WorktreesStep::Stay => consequence.stays(),
        WorktreesStep::New => consequence.replacement() matches Some(
            Surface::WorktreeNew(worktree),
        ) && worktree.name@.len() == 0 && worktree.base@.len() == 0 && worktree.cursor == 0
            && !worktree.editing_base,
        WorktreesStep::Switch(_) => consequence.change is CloseAll && consequence.said is Nothing
            && consequence.perform,
    }
}

fn follow_worktrees(step: &WorktreesStep) -> (consequence: Consequence)
    ensures
        worktrees_follow(*step, consequence),
{
    match step {
        WorktreesStep::Stay => Consequence::stay(),
        WorktreesStep::New => Consequence::replace(
            Surface::WorktreeNew(
                WorktreeNew {
                    name: String::new(),
                    base: String::new(),
                    cursor: 0,
                    editing_base: false,
                },
            ),
        ),
        WorktreesStep::Switch(_) => Consequence {
            change: Change::CloseAll,
            said: Said::Nothing,
            perform: true,
        },
    }
}

/// What a step on a new worktree leads to.
pub open spec fn worktree_new_follows(step: WorktreeNewStep, consequence: Consequence) -> bool {
    match step {
        WorktreeNewStep::Stay => consequence.stays(),
        WorktreeNewStep::NameRequired => consequence.says("worktree name is required"@),
        WorktreeNewStep::Create { name, base } => consequence.waits(),
    }
}

fn follow_worktree_new(step: &WorktreeNewStep) -> (consequence: Consequence)
    ensures
        worktree_new_follows(*step, consequence),
{
    match step {
        WorktreeNewStep::Stay => Consequence::stay(),
        WorktreeNewStep::NameRequired => Consequence::say("worktree name is required".to_owned()),
        WorktreeNewStep::Create { .. } => Consequence::wait(),
    }
}

/// What a step on the list of agents or modes leads to. An agent is added or edited in
/// place of the list; `names` are the names of the agents.
pub open spec fn profiles_follow(
    rows: Seq<ProfileRow>,
    step: ProfilesStep,
    names: Seq<String>,
    consequence: Consequence,
) -> bool {
    match step {
        ProfilesStep::Stay => consequence.stays(),
        ProfilesStep::Add => consequence.replacement() matches Some(
            Surface::AgentWizard(wizard),
        ) && adds(wizard, names),
        ProfilesStep::Edit(at) => if at < rows.len() {
            consequence.replacement() matches Some(
                Surface::AgentEdit { name, list },
            ) && name == rows[at as int].name && list == settled(
                5,
                0,
                0,
                VISIBLE_MENU_ITEMS as int,
            )
        } else {
            consequence.stays()
        },
        ProfilesStep::Change(_) => consequence.waits(),
    }
}

fn follow_profiles(rows: &[ProfileRow], step: &ProfilesStep, names: &[String]) -> (consequence:
    Consequence)
    ensures
        profiles_follow(rows@, *step, names@, consequence),
{
    match step {
        ProfilesStep::Stay => Consequence::stay(),
        ProfilesStep::Add => Consequence::replace(Surface::AgentWizard(new_agent_wizard(names))),
        ProfilesStep::Edit(at) => if *at < rows.len() {
            Consequence::replace(
                Surface::AgentEdit { name: rows[*at].name.clone(), list: agent_edit_list(0) },
            )
        } else {
            Consequence::stay()
        },
        ProfilesStep::Change(_) => Consequence::wait(),
    }
}

/// What a step on the list of skills leads to. A skill is described in place of the
/// list, and deleted when that is confirmed.
pub open spec fn skills_follow(rows: Seq<SkillRow>, step: SkillsStep, consequence: Consequence)
    -> bool {
    match step {
        SkillsStep::Stay => consequence.stays(),
        SkillsStep::Close => consequence.closes(),
        SkillsStep::New => consequence.replacement() matches Some(
            Surface::SkillWizard(wizard),
        ) && {
            &&& wizard.project
            &&& wizard.scope_list == settled(2, 0, 0, 1)
            &&& wizard.name@ == InputView::of(Seq::empty(), 0)
            &&& wizard.description@ == InputView::of(Seq::empty(), 0)
            &&& wizard.content@ == InputView::of(Seq::empty(), 0)
            &&& wizard.step == SkillWizardStep::Scope
        },
        SkillsStep::Delete(at) => if at < rows.len() {
            consequence.opened() matches Some(
                Surface::SkillDeleteConfirm { name, selected },
            ) && name == rows[at as int].name && selected == 0
        } else {
            consequence.stays()
        },
        _ => consequence.waits(),
    }
}

fn empty_text() -> (text: String)
    ensures
        text@ == Seq::<char>::empty(),
{
    let text: String = String::new();
    proof {
        assert(text@ =~= Seq::empty());
    }
    text
}

fn follow_skills(rows: &[SkillRow], step: &SkillsStep) -> (consequence: Consequence)
    ensures
        skills_follow(rows@, *step, consequence),
{
    match step {
        SkillsStep::Stay => Consequence::stay(),
        SkillsStep::Close => Consequence::close(),
        SkillsStep::New => Consequence::replace(
            Surface::SkillWizard(
                SkillWizard {
                    project: true,
                    scope_list: ListState::selectable(2),
                    name: SingleLineInput::new(empty_text(), 0),
                    description: SingleLineInput::new(empty_text(), 0),
                    content: MultilineInput::new(empty_text(), 0),
                    step: SkillWizardStep::Scope,
                },
            ),
        ),
        SkillsStep::Delete(at) => if *at < rows.len() {
            Consequence::open(
                Surface::SkillDeleteConfirm { name: rows[*at].name.clone(), selected: 0 },
            )
        } else {
            Consequence::stay()
        },
        _ => Consequence::wait(),
    }
}

/// What an outcome of the agent wizard leads to.
pub open spec fn agent_wizard_follows(outcome: AgentWizardOutcome, consequence: Consequence)
    -> bool {
    match outcome {
        AgentWizardOutcome::Stay => consequence.stays(),
        AgentWizardOutcome::NameRequired => consequence.says("agent name required"@),
        AgentWizardOutcome::NameTaken => consequence.says("agent name taken"@),
        _ => consequence.waits(),
    }
}

fn follow_agent_wizard(outcome: &AgentWizardOutcome) -> (consequence: Consequence)
    ensures
        agent_wizard_follows(*outcome, consequence),
{
    match outcome {
        AgentWizardOutcome::Stay => Consequence::stay(),
        AgentWizardOutcome::NameRequired => Consequence::say("agent name required".to_owned()),
        AgentWizardOutcome::NameTaken => Consequence::say("agent name taken".to_owned()),
        _ => Consequence::wait(),
    }
}

/// Whether a surface edits a setting.
pub open spec fn edits_setting(surface: Surface, row: SettingRow) -> bool {
    match surface {
        Surface::SettingChoices { setting, choices, list, custom } => same_setting(
            setting,
            row.definition,
        ) && edited_by(row, SettingEditor::Choices { choices, list, custom }),
        Surface::SettingInput { setting, input, tokens } => same_setting(setting, row.definition)
            && edited_by(row, SettingEditor::Input { value: input.value, cursor: input.cursor })
            && tokens@.len() == 0,
        _ => false,
    }
}

/// What a step on the settings leads to: a setting is edited, except that a model is
/// chosen from a list that the client has.
pub open spec fn settings_follow(rows: Seq<SettingRow>, step: SettingsStep, consequence: Consequence)
    -> bool {
    match step {
        SettingsStep::Stay => consequence.stays(),
        SettingsStep::Open(at) => if at >= rows.len() {
            consequence.stays()
        } else if rows[at as int].definition.kind is ModelPicker {
            consequence.waits()
        } else {
            consequence.opened() matches Some(surface) && edits_setting(surface, rows[at as int])
        },
        _ => consequence.waits(),
    }
}

fn follow_settings(rows: &[SettingRow], step: &SettingsStep) -> (consequence: Consequence)
    ensures
        settings_follow(rows@, *step, consequence),
{
    match step {
        SettingsStep::Stay => Consequence::stay(),
        SettingsStep::Open(at) => {
            if *at >= rows.len() {
                return Consequence::stay();
            }
            let setting: SettingDefinition = copy_setting(&rows[*at].definition);
            match setting_editor(&rows[*at]) {
                SettingEditor::Models => Consequence::wait(),
                SettingEditor::Choices { choices, list, custom } => Consequence::open(
                    Surface::SettingChoices { setting, choices, list, custom },
                ),
                SettingEditor::Input { value, cursor } => Consequence::open(
                    Surface::SettingInput {
                        setting,
                        input: TextField { value, cursor },
                        tokens: Vec::new(),
                    },
                ),
            }
        },
        _ => Consequence::wait(),
    }
}

/// What a step on the editor of a setting leads to: a custom value is written in place
/// of the choices.
pub open spec fn setting_follows(
    edited: SettingDefinition,
    step: SettingStep,
    consequence: Consequence,
) -> bool {
    match step {
        SettingStep::Stay => consequence.stays(),
        SettingStep::Close => consequence.closes(),
        SettingStep::Custom { value, cursor } => consequence.replacement() matches Some(
            Surface::SettingInput { setting, input, tokens },
        ) && {
            &&& same_setting(setting, edited)
            &&& input.value == value
            &&& input.cursor == cursor
            &&& tokens@.len() == 0
        },
        _ => consequence.waits(),
    }
}

fn follow_setting(edited: &SettingDefinition, step: &SettingStep) -> (consequence: Consequence)
    ensures
        setting_follows(*edited, *step, consequence),
{
    match step {
        SettingStep::Stay => Consequence::stay(),
        SettingStep::Close => Consequence::close(),
        SettingStep::Custom { value, cursor } => Consequence::replace(
            Surface::SettingInput {
                setting: copy_setting(edited),
                input: TextField { value: value.clone(), cursor: *cursor },
                tokens: Vec::new(),
            },
        ),
        _ => Consequence::wait(),
    }
}

/// What is stopped to stop some work.
pub open spec fn target_of(work: SupervisedWork) -> SupervisedWorkTarget {
    match work {
        SupervisedWork::Agent { run } => SupervisedWorkTarget::Agent(run.id),
        SupervisedWork::Terminal { terminal } => SupervisedWorkTarget::Terminal(terminal.id),
    }
}

/// What a step on the background work leads to: work is stopped when that is confirmed.
pub open spec fn background_follows(
    rows: Seq<SupervisedWork>,
    step: BackgroundStep,
    consequence: Consequence,
) -> bool {
    match step {
        BackgroundStep::Stay => consequence.stays(),
        BackgroundStep::Close => consequence.closes(),
        BackgroundStep::Kill(at) => if at < rows.len() {
            consequence.opened() == Some(
                Surface::KillSupervisedWork { target: target_of(rows[at as int]), selected: 0 },
            )
        } else {
            consequence.stays()
        },
        BackgroundStep::Open(_) => consequence.waits(),
    }
}

fn follow_background(rows: &[SupervisedWork], step: &BackgroundStep) -> (consequence: Consequence)
    ensures
        background_follows(rows@, *step, consequence),
{
    match step {
        BackgroundStep::Stay => Consequence::stay(),
        BackgroundStep::Close => Consequence::close(),
        BackgroundStep::Kill(at) => if *at < rows.len() {
            let target: SupervisedWorkTarget = match &rows[*at] {
                SupervisedWork::Agent { run } => SupervisedWorkTarget::Agent(run.id),
                SupervisedWork::Terminal { terminal } => SupervisedWorkTarget::Terminal(
                    terminal.id,
                ),
            };
            Consequence::open(Surface::KillSupervisedWork { target, selected: 0 })
        } else {
            Consequence::stay()
        },
        BackgroundStep::Open(_) => Consequence::wait(),
    }
}

/// What a step on the tree of messages leads to: the tree is closed to scroll to a
/// message or to fork into another conversation.
pub open spec fn history_follows(step: HistoryStep, consequence: Consequence) -> bool {
    match step {
        HistoryStep::Stay => consequence.stays(),
        HistoryStep::ScrollTo(_) | HistoryStep::HardFork(_) => consequence.closes_and_acts(),
        _ => consequence.waits(),
    }
}

fn follow_history(step: &HistoryStep) -> (consequence: Consequence)
    ensures
        history_follows(*step, consequence),
{
    match step {
        HistoryStep::Stay => Consequence::stay(),
        HistoryStep::ScrollTo(_) | HistoryStep::HardFork(_) => Consequence::close_and_act(),
        _ => Consequence::wait(),
    }
}

/// What a step on the list of conversations leads to.
pub open spec fn conversations_follow(step: ConversationsStep, consequence: Consequence) -> bool {
    match step {
        ConversationsStep::Stay => consequence.stays(),
        ConversationsStep::Resume(_) => consequence.closes_and_acts(),
        _ => consequence.waits(),
    }
}

fn follow_conversations(step: &ConversationsStep) -> (consequence: Consequence)
    ensures
        conversations_follow(*step, consequence),
{
    match step {
        ConversationsStep::Stay => Consequence::stay(),
        ConversationsStep::Resume(_) => Consequence::close_and_act(),
        _ => Consequence::wait(),
    }
}

/// What a text that was written leads to. There is nothing to set up for ChatGPT, which
/// is connected among the providers.
pub open spec fn written_follows(surface: Surface, done: bool, consequence: Consequence) -> bool {
    if !done {
        consequence.stays()
    } else {
        match surface {
            Surface::WebSearchSetup { provider, label, field } => if provider
                == WebSearchProvider::Chatgpt {
                &&& consequence.change is Close
                &&& !consequence.perform
                &&& consequence.said matches Said::Text(said) && said@
                    == "connect ChatGPT from /providers"@
            } else {
                consequence.waits()
            },
            _ => consequence.waits(),
        }
    }
}

fn follow_written(surface: &Surface, done: bool) -> (consequence: Consequence)
    ensures
        written_follows(*surface, done, consequence),
{
    if !done {
        return Consequence::stay();
    }
    match surface {
        Surface::WebSearchSetup { provider, .. } => if *provider == WebSearchProvider::Chatgpt {
            Consequence {
                change: Change::Close,
                said: Said::Text("connect ChatGPT from /providers".to_owned()),
                perform: false,
            }
        } else {
            Consequence::wait()
        },
        _ => Consequence::wait(),
    }
}

/// What a step on a surface leads to, where the surface it is a step on is open.
/// `names` are the names of the agents.
pub open spec fn follows(
    surface: Surface,
    step: SurfaceStep,
    names: Seq<String>,
    consequence: Consequence,
) -> bool {
    match (surface, step) {
        (_, SurfaceStep::OpenProviders { .. }) => consequence.closes_and_acts(),
        (_, SurfaceStep::OpenModels) => consequence.closes_and_acts(),
        (_, SurfaceStep::Written(done)) => written_follows(surface, done, consequence),
        (_, SurfaceStep::Refused(refused)) => if refused {
            consequence.says("enter a color as #RRGGBB"@)
        } else {
            consequence.stays()
        },
        (_, SurfaceStep::Picked(picked)) => if picked is None {
            consequence.stays()
        } else if surface is Effort {
            consequence.closes_and_acts()
        } else {
            consequence.waits()
        },
        (_, SurfaceStep::Done(done)) => if !done {
            consequence.stays()
        } else if surface is McpTools {
            consequence.closes()
        } else {
            consequence.waits()
        },
        (_, SurfaceStep::Directory) => consequence.waits(),
        (_, SurfaceStep::Question(step)) => if step is Stay {
            consequence.stays()
        } else {
            consequence.waits()
        },
        (_, SurfaceStep::Permission(step)) => if step is Stay {
            consequence.stays()
        } else {
            consequence.waits()
        },
        (_, SurfaceStep::Plan(step)) => if step is Stay {
            consequence.stays()
        } else {
            consequence.waits()
        },
        (_, SurfaceStep::Permissions(step)) => permissions_follow(step, consequence),
        (_, SurfaceStep::Usage(step)) => usage_follows(step, consequence),
        (_, SurfaceStep::Confirm(step)) => confirm_follows(step, consequence),
        (_, SurfaceStep::Worktrees(step)) => worktrees_follow(step, consequence),
        (_, SurfaceStep::WorktreeNew(step)) => worktree_new_follows(step, consequence),
        (Surface::WebSearchPicker(picker), SurfaceStep::WebSearch(step)) => web_search_follows(
            picker.rows@,
            step,
            consequence,
        ),
        (Surface::Providers(providers), SurfaceStep::Providers(step)) => providers_follow(
            providers.rows@,
            step,
            consequence,
        ),
        (_, SurfaceStep::ProviderSetup(step)) => provider_setup_follows(step, consequence),
        (_, SurfaceStep::Models(step)) => if step is Stay {
            consequence.stays()
        } else {
            consequence.waits()
        },
        (Surface::Profiles { kind, rows, list }, SurfaceStep::Profiles(step)) => profiles_follow(
            rows@,
            step,
            names,
            consequence,
        ),
        (Surface::Skills { rows, list }, SurfaceStep::Skills(step)) => skills_follow(
            rows@,
            step,
            consequence,
        ),
        (_, SurfaceStep::AgentWizard(outcome)) => agent_wizard_follows(outcome, consequence),
        (_, SurfaceStep::McpServers(step)) => servers_follow(step, consequence),
        (_, SurfaceStep::McpCatalog(step)) => catalog_follows(step, consequence),
        (Surface::McpServer { server, selected, oauth_connected }, SurfaceStep::McpServer(step)) => {
            server_follows(server, step, consequence)
        },
        (_, SurfaceStep::McpOAuth(step)) => oauth_follows(step, consequence),
        (Surface::McpPackageSetup { draft, selected }, SurfaceStep::PackageSetup(step)) => {
            package_follows(draft, step, consequence)
        },
        (_, SurfaceStep::Field(FieldStep::Refused(reason))) => consequence.says(
            (if surface is McpFieldEdit {
                "Invalid MCP field \u{b7} "@
            } else {
                "Invalid package value \u{b7} "@
            }) + reason@,
        ),
        (_, SurfaceStep::AddScope(step)) => add_scope_follows(step, consequence),
        (Surface::McpTransport { scope, selected }, SurfaceStep::Transport(step)) => {
            transport_follows(scope, selected, step, consequence)
        },
        (Surface::McpForm { draft, list }, SurfaceStep::McpForm(step)) => form_follows(
            draft,
            step,
            consequence,
        ),
        (Surface::Settings(settings), SurfaceStep::Settings(step)) => settings_follow(
            settings.rows@,
            step,
            consequence,
        ),
        (
            Surface::SettingChoices { setting, choices, list, custom },
            SurfaceStep::Setting(step),
        ) => setting_follows(setting, step, consequence),
        (Surface::SettingInput { setting, input, tokens }, SurfaceStep::Setting(step)) => {
            setting_follows(setting, step, consequence)
        },
        (Surface::SupervisedWork(work), SurfaceStep::Background(step)) => background_follows(
            work.rows@,
            step,
            consequence,
        ),
        (_, SurfaceStep::Paths(step)) => if step is Stay {
            consequence.stays()
        } else {
            consequence.closes_and_acts()
        },
        (_, SurfaceStep::History(step)) => history_follows(step, consequence),
        (_, SurfaceStep::Conversations(step)) => conversations_follow(step, consequence),
        _ => consequence.stays(),
    }
}

/// Acts where `acts` is set.
fn wait_if(acts: bool) -> (consequence: Consequence)
    ensures
        if acts {
            consequence.waits()
        } else {
            consequence.stays()
        },
{
    if acts {
        Consequence::wait()
    } else {
        Consequence::stay()
    }
}

/// What a step on a surface leads to.
#[verifier::rlimit(60)]
pub fn consequence_of(surface: &Surface, step: &SurfaceStep, names: &[String]) -> (consequence:
    Consequence)
    ensures
        follows(*surface, *step, names@, consequence),
{
    match (surface, step) {
        (_, SurfaceStep::OpenProviders { .. }) => Consequence::close_and_act(),
        (_, SurfaceStep::OpenModels) => Consequence::close_and_act(),
        (_, SurfaceStep::Written(done)) => follow_written(surface, *done),
        (_, SurfaceStep::Refused(refused)) => if *refused {
            Consequence::say("enter a color as #RRGGBB".to_owned())
        } else {
            Consequence::stay()
        },
        (Surface::Effort { .. }, SurfaceStep::Picked(picked)) => if picked.is_some() {
            Consequence::close_and_act()
        } else {
            Consequence::stay()
        },
        (_, SurfaceStep::Picked(picked)) => wait_if(picked.is_some()),
        (Surface::McpTools(_), SurfaceStep::Done(done)) => if *done {
            Consequence::close()
        } else {
            Consequence::stay()
        },
        (_, SurfaceStep::Done(done)) => wait_if(*done),
        (_, SurfaceStep::Directory) => Consequence::wait(),
        (_, SurfaceStep::Question(QuestionStep::Stay)) => Consequence::stay(),
        (_, SurfaceStep::Question(_)) => Consequence::wait(),
        (_, SurfaceStep::Permission(PermissionStep::Stay)) => Consequence::stay(),
        (_, SurfaceStep::Permission(_)) => Consequence::wait(),
        (_, SurfaceStep::Plan(PlanStep::Stay)) => Consequence::stay(),
        (_, SurfaceStep::Plan(_)) => Consequence::wait(),
        (_, SurfaceStep::Permissions(step)) => follow_permissions(step),
        (_, SurfaceStep::Usage(step)) => follow_usage(step),
        (_, SurfaceStep::Confirm(step)) => follow_confirm(step),
        (_, SurfaceStep::Worktrees(step)) => follow_worktrees(step),
        (_, SurfaceStep::WorktreeNew(step)) => follow_worktree_new(step),
        (Surface::WebSearchPicker(picker), SurfaceStep::WebSearch(step)) => follow_web_search(
            picker.rows.as_slice(),
            step,
        ),
        (Surface::Providers(providers), SurfaceStep::Providers(step)) => follow_providers(
            providers.rows.as_slice(),
            step,
        ),
        (_, SurfaceStep::ProviderSetup(step)) => follow_provider_setup(step),
        (_, SurfaceStep::Models(ModelsStep::Stay)) => Consequence::stay(),
        (_, SurfaceStep::Models(_)) => Consequence::wait(),
        (Surface::Profiles { rows, .. }, SurfaceStep::Profiles(step)) => follow_profiles(
            rows.as_slice(),
            step,
            names,
        ),
        (Surface::Skills { rows, .. }, SurfaceStep::Skills(step)) => follow_skills(
            rows.as_slice(),
            step,
        ),
        (_, SurfaceStep::AgentWizard(outcome)) => follow_agent_wizard(outcome),
        (_, SurfaceStep::McpServers(step)) => follow_servers(step),
        (_, SurfaceStep::McpCatalog(step)) => follow_catalog(step),
        (Surface::McpServer { server, .. }, SurfaceStep::McpServer(step)) => follow_server(
            server,
            step,
        ),
        (_, SurfaceStep::McpOAuth(step)) => follow_oauth(step),
        (Surface::McpPackageSetup { draft, .. }, SurfaceStep::PackageSetup(step)) => {
            follow_package(draft, step)
        },
        (Surface::McpFieldEdit { .. }, SurfaceStep::Field(FieldStep::Refused(reason))) => {
            Consequence::say(concat("Invalid MCP field \u{b7} ", reason.as_str()))
        },
        (_, SurfaceStep::Field(FieldStep::Refused(reason))) => Consequence::say(
            concat("Invalid package value \u{b7} ", reason.as_str()),
        ),
        (_, SurfaceStep::AddScope(step)) => follow_add_scope(step),
        (Surface::McpTransport { scope, selected }, SurfaceStep::Transport(step)) => {
            follow_transport(*scope, *selected, step)
        },
        (Surface::McpForm { draft, .. }, SurfaceStep::McpForm(step)) => follow_form(draft, step),
        (Surface::Settings(settings), SurfaceStep::Settings(step)) => follow_settings(
            settings.rows.as_slice(),
            step,
        ),
        (Surface::SettingChoices { setting, .. }, SurfaceStep::Setting(step)) => follow_setting(
            setting,
            step,
        ),
        (Surface::SettingInput { setting, .. }, SurfaceStep::Setting(step)) => follow_setting(
            setting,
            step,
        ),
        (Surface::SupervisedWork(work), SurfaceStep::Background(step)) => follow_background(
            work.rows.as_slice(),
            step,
        ),
        (_, SurfaceStep::Paths(PathsStep::Stay)) => Consequence::stay(),
        (_, SurfaceStep::Paths(_)) => Consequence::close_and_act(),
        (_, SurfaceStep::History(step)) => follow_history(step),
        (_, SurfaceStep::Conversations(step)) => follow_conversations(step),
        _ => Consequence::stay(),
    }
}

/// The surfaces below the two on top.
pub open spec fn below_two(surfaces: Seq<Surface>) -> Seq<Surface> {
    if surfaces.len() >= 2 { surfaces.take(surfaces.len() - 2) } else { Seq::empty() }
}

/// The surfaces once a field was saved: what it belongs to takes the place of its editor
/// and of what was below, with the item of the field selected.
pub open spec fn field_saved(before: Seq<Surface>, at: usize) -> Seq<Surface> {
    match before.last() {
        Surface::McpFieldEdit { draft, field, input, tokens } => below_two(before).push(
            Surface::McpForm {
                draft,
                list: settled(
                    form_maximum(draft.definition) + 1,
                    at as int,
                    0,
                    VISIBLE_MENU_ITEMS as int,
                ),
            },
        ),
        Surface::McpPackageValueEdit { draft, field, input } => below_two(before).push(
            Surface::McpPackageSetup { draft, selected: at },
        ),
        _ => before,
    }
}

/// Whether a step on the surface on top was followed.
pub open spec fn followed(
    before: App,
    after: App,
    step: SurfaceStep,
    names: Seq<String>,
    perform: bool,
) -> bool {
    match step {
        SurfaceStep::Field(FieldStep::Saved(at)) => {
            &&& !perform
            &&& after.surfaces@ == field_saved(before.surfaces@, at)
            &&& same_but_surfaces(before, after)
        },
        _ => exists|consequence: Consequence|
            {
                &&& #[trigger] follows(before.surfaces@.last(), step, names, consequence)
                &&& perform == consequence.perform
                &&& after.surfaces@ == surfaces_after(before.surfaces@, consequence.change)
                &&& after.notice == notice_after(before.notice, consequence.said)
                &&& same_but_surfaces(after, App { notice: after.notice, ..before })
            },
    }
}

impl App {
    /// Takes what a step leads to; the result says whether the client acts.
    pub fn take(&mut self, consequence: Consequence) -> (perform: bool)
        ensures
            perform == consequence.perform,
            old(self).surfaces@.len() > 0 ==> final(self).surfaces@ == surfaces_after(
                old(self).surfaces@,
                consequence.change,
            ),
            final(self).notice == notice_after(old(self).notice, consequence.said),
            same_but_surfaces(
                *final(self),
                App { notice: final(self).notice, ..*old(self) },
            ),
    {
        let ghost before = self.surfaces@;
        match consequence.change {
            Change::Keep => {},
            Change::Close => {
                let _ = self.surfaces.pop();
            },
            Change::CloseAll => {
                self.surfaces.clear();
            },
            Change::Open(surface) => {
                self.surfaces.push(surface);
            },
            Change::Replace(surface) => {
                let _ = self.surfaces.pop();
                self.surfaces.push(surface);
            },
        }
        proof {
            if before.len() > 0 {
                assert(self.surfaces@ =~= surfaces_after(before, consequence.change));
            }
        }
        match consequence.said {
            Said::Nothing => {},
            Said::Cleared => {
                self.notice = None;
            },
            Said::Text(text) => {
                self.notice = Some(text);
            },
        }
        consequence.perform
    }

    /// Returns to what a field belongs to, now that it was saved.
    fn leave_field(&mut self, at: usize)
        requires
            old(self).surfaces@.len() > 0,
        ensures
            final(self).surfaces@ == field_saved(old(self).surfaces@, at),
            same_but_surfaces(*old(self), *final(self)),
    {
        let ghost before = self.surfaces@;
        match self.surfaces.pop() {
            None => {},
            Some(Surface::McpFieldEdit { draft, .. }) => {
                let _ = self.surfaces.pop();
                let list: ListState = ListState::selectable_at(
                    mcp_form_maximum(&draft.definition) + 1,
                    at,
                    VISIBLE_MENU_ITEMS,
                );
                proof {
                    assert(self.surfaces@ =~= below_two(before));
                }
                self.surfaces.push(Surface::McpForm { draft, list });
            },
            Some(Surface::McpPackageValueEdit { draft, .. }) => {
                let _ = self.surfaces.pop();
                proof {
                    assert(self.surfaces@ =~= below_two(before));
                }
                self.surfaces.push(Surface::McpPackageSetup { draft, selected: at });
            },
            Some(other) => {
                self.surfaces.push(other);
                proof {
                    assert(self.surfaces@ =~= before);
                }
            },
        }
    }

    /// Follows a step on the surface on top; the result says whether the step asks for
    /// something that only the client can do. `names` are the names of the agents.
    pub fn follow(&mut self, step: &SurfaceStep, names: &[String]) -> (perform: bool)
        requires
            old(self).surfaces@.len() > 0,
        ensures
            followed(*old(self), *final(self), *step, names@, perform),
    {
        if let SurfaceStep::Field(FieldStep::Saved(at)) = step {
            self.leave_field(*at);
            return false;
        }
        let top: usize = self.surfaces.len() - 1;
        let consequence: Consequence = consequence_of(&self.surfaces[top], step, names);
        let ghost taken = consequence;
        let ghost surface = self.surfaces@.last();
        let perform: bool = self.take(consequence);
        proof {
            assert(follows(surface, *step, names@, taken));
        }
        perform
    }
}

/// A step that does nothing leaves every surface and the notice as they are, and nothing
/// is opened while the client is asked to act, but for the tools of a server.
pub proof fn law_following_is_orderly(
    surface: Surface,
    step: SurfaceStep,
    names: Seq<String>,
    consequence: Consequence,
    surfaces: Seq<Surface>,
)
    requires
        follows(surface, step, names, consequence),
        surfaces.len() > 0,
        surfaces.last() == surface,
    ensures
        step is Stay ==> surfaces_after(surfaces, consequence.change) == surfaces
            && consequence.said is Nothing && !consequence.perform,
        consequence.perform && consequence.change is Open ==> surface is McpServer
            && consequence.change->Open_0 is McpTools,
        !(consequence.change is CloseAll) ==> surfaces.drop_last().is_prefix_of(
            surfaces_after(surfaces, consequence.change),
        ),
{
    let after = surfaces_after(surfaces, consequence.change);
    if !(consequence.change is CloseAll) {
        assert(surfaces.drop_last() =~= after.take(surfaces.len() - 1));
    }
}

} // verus!
