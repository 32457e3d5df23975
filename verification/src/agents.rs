//! Skills, agent profiles and modes.

use vstd::prelude::*;
use vstd::string::*;
use crate::control::{
    action_of, edit_field, field_after, field_is, list_after, move_list, SurfaceKey,
};
use crate::key::{KeyCode, KeyEvent};
use crate::list::{settled, VISIBLE_MENU_ITEMS, ListAction, ListState};
use crate::mcp_control::{step_index, stepped, ConfirmStep};
use crate::menu::same_text;
use crate::multiline_input::{editor_after, MultilineInput};
use crate::providers::normalized;
use crate::render::{concat, concat3};
use crate::single_line_input::{InputView, SingleLineInput};
use crate::text::{byte_len, utf8_len};
use crate::unicode::{trim, trimmed};

verus! {

/// A skill.
#[derive(Debug)]
pub struct SkillRow {
    pub name: String,
    pub description: String,
    /// Where the skill comes from.
    pub source: String,
    pub enabled: bool,
    /// Whether the skill comes with the program: such a skill is neither edited
    /// nor deleted.
    pub system: bool,
}

/// What is to be done after a key in the list of skills. The numbers are
/// indices of rows.
#[derive(Clone, Copy, Debug, PartialEq, Eq, Structural)]
pub enum SkillsStep {
    Stay,
    Close,
    New,
    /// Enable the skill, or disable it.
    Toggle(usize),
    Edit(usize),
    Delete(usize),
}

/// What a key other than a movement asks for in the list of skills.
pub open spec fn skills_command(rows: Seq<SkillRow>, at: int, key: KeyEvent) -> SkillsStep {
    let command = key.modifiers.is_empty() && at >= 2 && !rows[at - 2].system;
    if key.code == KeyCode::Enter {
        if at == 0 {
            SkillsStep::Close
        } else if at == 1 {
            SkillsStep::New
        } else {
            SkillsStep::Toggle((at - 2) as usize)
        }
    } else if key.code == KeyCode::Char('e') && command {
        SkillsStep::Edit((at - 2) as usize)
    } else if key.code == KeyCode::Char('d') && command {
        SkillsStep::Delete((at - 2) as usize)
    } else {
        SkillsStep::Stay
    }
}

/// The effect of `skills_key`.
pub open spec fn skills_key_effect(
    list: ListState,
    new_list: ListState,
    rows: Seq<SkillRow>,
    key: SurfaceKey,
    step: SkillsStep,
) -> bool {
    &&& (new_list == list_after(
            list,
            rows.len() + 2int,
            VISIBLE_MENU_ITEMS as int,
            key.code,
        ))
    &&& (step == if action_of(key.code) is Some {
            SkillsStep::Stay
        } else {
            skills_command(rows, new_list.at_spec(), key.key)
        })
}

/// A key in the list of skills: leave, add one, or do something with one.
pub fn skills_key(list: &mut ListState, rows: &[SkillRow], key: SurfaceKey) -> (step: SkillsStep)
    requires
        rows@.len() <= usize::MAX - 2,
    ensures
        skills_key_effect(*old(list), *final(list), rows@, key, step),
{
    let moved: bool = move_list(list, rows.len() + 2, VISIBLE_MENU_ITEMS, key.code);
    if moved {
        return SkillsStep::Stay;
    }
    let at: usize = list.at();
    if key.key.code == KeyCode::Enter {
        return if at == 0 {
            SkillsStep::Close
        } else if at == 1 {
            SkillsStep::New
        } else {
            SkillsStep::Toggle(at - 2)
        };
    }
    if key.key.modifiers.is_empty() && at >= 2 && !rows[at - 2].system {
        if key.key.code == KeyCode::Char('e') {
            return SkillsStep::Edit(at - 2);
        }
        if key.key.code == KeyCode::Char('d') {
            return SkillsStep::Delete(at - 2);
        }
    }
    SkillsStep::Stay
}

/// Shows that the skills of a name are enabled, or disabled.
pub fn set_skill_enabled(rows: &mut Vec<SkillRow>, name: &str, enabled: bool)
    ensures
        final(rows)@.len() == old(rows)@.len(),
        forall|i: int|
            0 <= i < old(rows)@.len() ==> #[trigger] final(rows)@[i] == (SkillRow {
                enabled: if old(rows)@[i].name@ == name@ { enabled } else { old(rows)@[i].enabled },
                ..old(rows)@[i]
            }),
{
    let mut i: usize = 0;
    let ghost before = rows@;
    while i < rows.len()
        invariant
            i <= rows@.len() == before.len(),
            forall|k: int| i <= k < before.len() ==> rows@[k] == #[trigger] before[k],
            forall|k: int|
                0 <= k < i ==> #[trigger] rows@[k] == (SkillRow {
                    enabled: if before[k].name@ == name@ { enabled } else { before[k].enabled },
                    ..before[k]
                }),
        decreases rows@.len() - i,
    {
        proof {
            assert(rows@[i as int] == before[i as int]);
        }
        if same_text(rows[i].name.as_str(), name) {
            let row = SkillRow {
                name: rows[i].name.clone(),
                description: rows[i].description.clone(),
                source: rows[i].source.clone(),
                enabled,
                system: rows[i].system,
            };
            rows.set(i, row);
        }
        i += 1;
    }
}

/// The effect of `switch_key`.
pub open spec fn switch_key_effect(
    selected: usize,
    new_selected: usize,
    code: KeyCode,
    step: ConfirmStep,
) -> bool {
    &&& (new_selected == match code {
            KeyCode::Up | KeyCode::PageUp | KeyCode::Home => 0,
            KeyCode::Down | KeyCode::PageDown | KeyCode::End => 1,
            _ => selected,
        })
    &&& (step == if code != KeyCode::Enter {
            ConfirmStep::Stay
        } else if selected == 0 {
            ConfirmStep::Cancel
        } else {
            ConfirmStep::Confirm
        })
}

/// A key where something is confirmed: upwards selects to cancel, downwards to
/// confirm.
pub fn switch_key(selected: &mut usize, code: KeyCode) -> (step: ConfirmStep)
    ensures
        switch_key_effect(*old(selected), *final(selected), code, step),
{
    match code {
        KeyCode::Up | KeyCode::PageUp | KeyCode::Home => {
            *selected = 0;
            ConfirmStep::Stay
        },
        KeyCode::Down | KeyCode::PageDown | KeyCode::End => {
            *selected = 1;
            ConfirmStep::Stay
        },
        KeyCode::Enter => if *selected == 0 {
            ConfirmStep::Cancel
        } else {
            ConfirmStep::Confirm
        },
        _ => ConfirmStep::Stay,
    }
}

/// What a new skill is asked for.
#[derive(Clone, Copy, Debug, PartialEq, Eq, Structural)]
pub enum SkillWizardStep {
    Scope,
    Name,
    Description,
    Content,
}

impl SkillWizardStep {
    pub open spec fn previous_spec(self) -> Option<SkillWizardStep> {
        match self {
            SkillWizardStep::Content => Some(SkillWizardStep::Description),
            SkillWizardStep::Description => Some(SkillWizardStep::Name),
            SkillWizardStep::Name => Some(SkillWizardStep::Scope),
            SkillWizardStep::Scope => None,
        }
    }

    /// The step to go back to; the first has none.
    pub fn previous(self) -> (step: Option<SkillWizardStep>)
        ensures
            step == self.previous_spec(),
    {
        match self {
            SkillWizardStep::Content => Some(SkillWizardStep::Description),
            SkillWizardStep::Description => Some(SkillWizardStep::Name),
            SkillWizardStep::Name => Some(SkillWizardStep::Scope),
            SkillWizardStep::Scope => None,
        }
    }

    /// The step that Enter goes to; the last has none.
    pub open spec fn next_spec(self) -> Option<SkillWizardStep> {
        match self {
            SkillWizardStep::Scope => Some(SkillWizardStep::Name),
            SkillWizardStep::Name => Some(SkillWizardStep::Description),
            SkillWizardStep::Description => Some(SkillWizardStep::Content),
            SkillWizardStep::Content => None,
        }
    }
}

/// Going on in the skill wizard and back returns to the same step.
pub proof fn law_skill_steps_go_back(step: SkillWizardStep)
    ensures
        step.next_spec() matches Some(next) ==> next.previous_spec() == Some(step),
        step.previous_spec() matches Some(previous) ==> previous.next_spec() == Some(step),
{
}

/// A new skill.
#[derive(Debug)]
pub struct SkillWizard {
    pub project: bool,
    pub scope_list: ListState,
    pub name: SingleLineInput,
    pub description: SingleLineInput,
    pub content: MultilineInput,
    pub step: SkillWizardStep,
}

/// Whether a key is Enter with control.
pub open spec fn control_enter(key: KeyEvent) -> bool {
    key.code == KeyCode::Enter && key.modifiers.control
}

/// What an input becomes by a key.
pub open spec fn input_after(input: InputView, key: KeyEvent) -> InputView {
    match input.edited(key) {
        None => input,
        Some(edited) => edited,
    }
}

impl SkillWizard {
    /// Whether Enter goes on from the step.
    pub open spec fn can_go_on(self) -> bool {
        match self.step {
            SkillWizardStep::Scope => true,
            SkillWizardStep::Name => trimmed(self.name@.text).len() > 0,
            SkillWizardStep::Description => trimmed(self.description@.text).len() > 0,
            SkillWizardStep::Content => false,
        }
    }

    /// Whether a key ends a line of the content.
    pub open spec fn ends_line(self, key: KeyEvent) -> bool {
        self.step == SkillWizardStep::Content && key.code == KeyCode::Enter
            && (key.modifiers.control || key.modifiers.shift)
    }

    /// Whether a key moves the selection of the scope.
    pub open spec fn moves_scope(self, key: KeyEvent) -> bool {
        self.step == SkillWizardStep::Scope && (key.code == KeyCode::Up || key.code
            == KeyCode::Down)
    }

    /// The effect of `key`.
    pub open spec fn key_effect(
        before: Self,
        after: Self,
        key: KeyEvent,
        width: u16,
        capacity: usize,
        complete: bool,
    ) -> bool {
        &&& (complete == (before.step == SkillWizardStep::Content && key.code == KeyCode::Enter
                && !before.ends_line(key)))
        &&& (after.step == if key.code == KeyCode::Enter && before.can_go_on() {
                before.step.next_spec()->0
            } else {
                before.step
            })
        &&& (after.scope_list == if before.moves_scope(key) {
                before.scope_list.applied(
                    if key.code == KeyCode::Up { ListAction::Previous } else { ListAction::Next },
                    VISIBLE_MENU_ITEMS as int,
                )
            } else {
                before.scope_list
            })
        &&& (after.project == if before.moves_scope(key) {
                after.scope_list.at_spec() == 0
            } else {
                before.project
            })
        &&& (after.name@ == if before.step == SkillWizardStep::Name && key.code
                != KeyCode::Enter {
                input_after(before.name@, key)
            } else {
                before.name@
            })
        &&& (after.description@ == if before.step == SkillWizardStep::Description
                && key.code != KeyCode::Enter {
                input_after(before.description@, key)
            } else {
                before.description@
            })
        &&& (after.content@ == if before.ends_line(key) {
                before.content@.insert("\n"@)
            } else if before.step == SkillWizardStep::Content && key.code != KeyCode::Enter {
                editor_after(before.content@, key, width as int, capacity as int)
            } else {
                before.content@
            })
    }

    /// A key in the wizard, whose content is edited in `capacity` rows of `width` columns;
    /// the result says whether the skill is complete.
    pub fn key(&mut self, key: KeyEvent, width: u16, capacity: usize) -> (complete: bool)
        ensures
            Self::key_effect(*old(self), *final(self), key, width, capacity, complete),
    {
        match self.step {
            SkillWizardStep::Scope => {
                if key.code == KeyCode::Up || key.code == KeyCode::Down {
                    self.scope_list.apply(
                        if key.code == KeyCode::Up {
                            ListAction::Previous
                        } else {
                            ListAction::Next
                        },
                        VISIBLE_MENU_ITEMS,
                    );
                    self.project = self.scope_list.at() == 0;
                } else if key.code == KeyCode::Enter {
                    self.step = SkillWizardStep::Name;
                }
                false
            },
            SkillWizardStep::Name => {
                if key.code != KeyCode::Enter {
                    self.name.handle_key(key);
                } else if !trim(self.name.text()).as_str().is_empty() {
                    self.step = SkillWizardStep::Description;
                }
                false
            },
            SkillWizardStep::Description => {
                if key.code != KeyCode::Enter {
                    self.description.handle_key(key);
                } else if !trim(self.description.text()).as_str().is_empty() {
                    self.step = SkillWizardStep::Content;
                }
                false
            },
            SkillWizardStep::Content => {
                if key.code != KeyCode::Enter {
                    self.content.handle_key_in_view(key, width, capacity);
                    false
                } else if key.modifiers.control || key.modifiers.shift {
                    self.content.insert_text("\n");
                    false
                } else {
                    true
                }
            },
        }
    }
}

/// Whether a list of profiles is one of agents or of modes.
#[derive(Clone, Copy, Debug, PartialEq, Eq, Structural)]
pub enum ProfileKind {
    Agent,
    Mode,
}

/// A profile that can be chosen.
#[derive(Debug)]
pub struct ProfileRow {
    pub name: String,
    pub detail: String,
    pub selectable: bool,
}

/// What is to be done after a key in a list of profiles. The numbers are
/// indices of rows.
#[derive(Clone, Copy, Debug, PartialEq, Eq, Structural)]
pub enum ProfilesStep {
    Stay,
    /// Create an agent profile.
    Add,
    Change(usize),
    Edit(usize),
}

/// What a key other than a movement asks for of a profile.
pub open spec fn profile_command(kind: ProfileKind, row: ProfileRow, index: usize, key: SurfaceKey)
    -> ProfilesStep {
    let agent = kind == ProfileKind::Agent;
    if key.code == KeyCode::Enter {
        if agent && !row.selectable {
            ProfilesStep::Stay
        } else if agent && row.name@ == "Add"@ {
            ProfilesStep::Add
        } else {
            ProfilesStep::Change(index)
        }
    } else if key.code == KeyCode::Char('e') && key.key.modifiers.is_empty() && agent && row.name@
        != "Add"@ {
        ProfilesStep::Edit(index)
    } else if key.code == KeyCode::Char(' ') && key.key.modifiers.is_empty() && !(agent
        && !row.selectable) {
        ProfilesStep::Change(index)
    } else {
        ProfilesStep::Stay
    }
}

/// The effect of `profiles_key`.
pub open spec fn profiles_key_effect(
    kind: ProfileKind,
    rows: Seq<ProfileRow>,
    list: ListState,
    new_list: ListState,
    key: SurfaceKey,
    step: ProfilesStep,
) -> bool {
    &&& (new_list == list_after(
            list,
            rows.len() as int,
            VISIBLE_MENU_ITEMS as int,
            key.code,
        ))
    &&& (step == if action_of(key.code) is Some || rows.len() == 0 {
            ProfilesStep::Stay
        } else {
            let at = new_list.at_spec();
            profile_command(kind, rows[at], at as usize, key)
        })
}

/// A key in a list of profiles.
pub fn profiles_key(
    kind: ProfileKind,
    rows: &[ProfileRow],
    list: &mut ListState,
    key: SurfaceKey,
) -> (step: ProfilesStep)
    ensures
        profiles_key_effect(kind, rows@, *old(list), *final(list), key, step),
{
    let moved: bool = move_list(list, rows.len(), VISIBLE_MENU_ITEMS, key.code);
    if moved || rows.len() == 0 {
        return ProfilesStep::Stay;
    }
    let at: usize = list.at();
    let row = &rows[at];
    let agent: bool = kind == ProfileKind::Agent;
    let plain: bool = key.key.modifiers.is_empty();
    if key.code == KeyCode::Enter {
        if agent && !row.selectable {
            ProfilesStep::Stay
        } else if agent && same_text(row.name.as_str(), "Add") {
            ProfilesStep::Add
        } else {
            ProfilesStep::Change(at)
        }
    } else if key.code == KeyCode::Char('e') && plain && agent && !same_text(
        row.name.as_str(),
        "Add",
    ) {
        ProfilesStep::Edit(at)
    } else if key.code == KeyCode::Char(' ') && plain && !(agent && !row.selectable) {
        ProfilesStep::Change(at)
    } else {
        ProfilesStep::Stay
    }
}

/// Who may use an agent.
#[derive(Clone, Copy, Debug, PartialEq, Eq, Structural)]
pub enum AgentAvailability {
    User,
    Subagent,
    Both,
}

/// An agent profile.
#[derive(Debug)]
pub struct AgentProfile {
    pub name: String,
    pub description: String,
    pub enabled: bool,
    pub availability: AgentAvailability,
}

pub open spec fn availability_label(availability: AgentAvailability) -> Seq<char> {
    match availability {
        AgentAvailability::User => "user"@,
        AgentAvailability::Subagent => "delegate"@,
        AgentAvailability::Both => "both"@,
    }
}

/// What is shown beside the name of an agent.
pub open spec fn agent_detail(profile: AgentProfile) -> Seq<char> {
    let label = availability_label(profile.availability);
    let detail = if profile.description@.len() == 0 {
        label
    } else {
        label + " \u{b7} "@ + profile.description@
    };
    if profile.enabled { detail } else { "disabled \u{b7} "@ + detail }
}

/// Whether an agent can be chosen.
pub open spec fn agent_selectable(profile: AgentProfile) -> bool {
    profile.enabled && profile.availability != AgentAvailability::Subagent
}

/// Whether a row shows a profile.
pub open spec fn shows_agent(row: ProfileRow, profile: AgentProfile) -> bool {
    &&& row.name@ == profile.name@
    &&& row.detail@ == agent_detail(profile)
    &&& row.selectable == agent_selectable(profile)
}

/// The row of an agent.
pub fn agent_menu_row(profile: &AgentProfile) -> (row: ProfileRow)
    ensures
        shows_agent(row, *profile),
{
    let label: &str = match profile.availability {
        AgentAvailability::User => "user",
        AgentAvailability::Subagent => "delegate",
        AgentAvailability::Both => "both",
    };
    let detail: String = if profile.description.as_str().is_empty() {
        label.to_owned()
    } else {
        concat3(label, " \u{b7} ", profile.description.as_str())
    };
    let detail: String = if profile.enabled {
        detail
    } else {
        concat("disabled \u{b7} ", detail.as_str())
    };
    ProfileRow {
        name: profile.name.clone(),
        detail,
        selectable: profile.enabled && profile.availability != AgentAvailability::Subagent,
    }
}

/// The indices of the profiles that can be chosen, or of those that cannot.
pub open spec fn agent_indices(profiles: Seq<AgentProfile>, selectable: bool) -> Seq<int>
    decreases profiles.len(),
{
    if profiles.len() == 0 {
        Seq::empty()
    } else if agent_selectable(profiles.last()) == selectable {
        agent_indices(profiles.drop_last(), selectable).push(profiles.len() - 1)
    } else {
        agent_indices(profiles.drop_last(), selectable)
    }
}

/// The order in which profiles are listed: those that can be chosen first.
pub open spec fn agent_order(profiles: Seq<AgentProfile>) -> Seq<int> {
    agent_indices(profiles, true) + agent_indices(profiles, false)
}

proof fn lemma_agent_indices(profiles: Seq<AgentProfile>, selectable: bool)
    ensures
        agent_indices(profiles, selectable).len() <= profiles.len(),
        forall|i: int|
            0 <= i < agent_indices(profiles, selectable).len() ==> 0 <= #[trigger] agent_indices(
                profiles,
                selectable,
            )[i] < profiles.len(),
    decreases profiles.len(),
{
    if profiles.len() > 0 {
        lemma_agent_indices(profiles.drop_last(), selectable);
    }
}

fn push_agents(rows: &mut Vec<ProfileRow>, profiles: &[AgentProfile], selectable: bool)
    ensures
        final(rows)@.len() == old(rows)@.len() + agent_indices(profiles@, selectable).len(),
        forall|i: int| 0 <= i < old(rows)@.len() ==> final(rows)@[i] == #[trigger] old(rows)@[i],
        forall|i: int|
            0 <= i < agent_indices(profiles@, selectable).len() ==> shows_agent(
                #[trigger] final(rows)@[old(rows)@.len() + i],
                profiles@[agent_indices(profiles@, selectable)[i]],
            ),
{
    let ghost before = rows@;
    let mut k: usize = 0;
    proof {
        assert(profiles@.take(0) =~= Seq::empty());
    }
    while k < profiles.len()
        invariant
            k <= profiles@.len(),
            rows@.len() == before.len() + agent_indices(
                profiles@.take(k as int),
                selectable,
            ).len(),
            forall|i: int| 0 <= i < before.len() ==> rows@[i] == #[trigger] before[i],
            forall|i: int|
                0 <= i < agent_indices(profiles@.take(k as int), selectable).len() ==> shows_agent(
                    #[trigger] rows@[before.len() + i],
                    profiles@[agent_indices(profiles@.take(k as int), selectable)[i]],
                ),
        decreases profiles@.len() - k,
    {
        let row: ProfileRow = agent_menu_row(&profiles[k]);
        proof {
            assert(profiles@.take(k + 1).drop_last() =~= profiles@.take(k as int));
            assert(profiles@.take(k + 1).last() == profiles@[k as int]);
        }
        if row.selectable == selectable {
            rows.push(row);
        }
        k += 1;
    }
    proof {
        assert(profiles@.take(k as int) =~= profiles@);
    }
}

/// The rows of the agent menu: the agents that can be chosen, the others, and
/// one to create an agent.
pub fn agent_rows(profiles: &[AgentProfile]) -> (rows: Vec<ProfileRow>)
    ensures
        rows@.len() == agent_order(profiles@).len() + 1,
        forall|i: int|
            0 <= i < agent_order(profiles@).len() ==> shows_agent(
                #[trigger] rows@[i],
                profiles@[agent_order(profiles@)[i]],
            ),
        rows@.last().name@ == "Add"@,
        rows@.last().detail@ == "create an agent profile"@,
        rows@.last().selectable,
{
    let mut rows: Vec<ProfileRow> = Vec::new();
    push_agents(&mut rows, profiles, true);
    let ghost first = agent_indices(profiles@, true);
    let ghost after = rows@;
    push_agents(&mut rows, profiles, false);
    proof {
        let order = agent_order(profiles@);
        assert forall|i: int| 0 <= i < order.len() implies shows_agent(
            #[trigger] rows@[i],
            profiles@[order[i]],
        ) by {
            if i < first.len() {
                assert(rows@[i] == after[i]);
                assert(after[0 + i] == after[i]);
            } else {
                assert(rows@[after.len() + (i - first.len())] == rows@[i]);
            }
        }
    }
    rows.push(
        ProfileRow {
            name: "Add".to_owned(),
            detail: "create an agent profile".to_owned(),
            selectable: true,
        },
    );
    rows
}

/// Every agent is listed once, and those that can be chosen come first.
pub proof fn law_agents_are_all_listed(profiles: Seq<AgentProfile>)
    ensures
        agent_order(profiles).len() == profiles.len(),
        forall|i: int, j: int|
            0 <= i < j < agent_order(profiles).len() && agent_selectable(
                profiles[#[trigger] agent_order(profiles)[j]],
            ) ==> agent_selectable(profiles[#[trigger] agent_order(profiles)[i]]),
{
    lemma_agents_split(profiles);
    lemma_agents_kept(profiles, true);
    lemma_agents_kept(profiles, false);
    let first = agent_indices(profiles, true);
    let order = agent_order(profiles);
    assert forall|i: int, j: int|
        0 <= i < j < order.len() && agent_selectable(profiles[#[trigger] order[j]]) implies
        agent_selectable(profiles[#[trigger] order[i]]) by {
        if i >= first.len() {
            assert(order[j] == agent_indices(profiles, false)[j - first.len()]);
        } else {
            assert(order[i] == first[i]);
        }
    }
}

proof fn lemma_agents_split(profiles: Seq<AgentProfile>)
    ensures
        agent_indices(profiles, true).len() + agent_indices(profiles, false).len()
            == profiles.len(),
    decreases profiles.len(),
{
    if profiles.len() > 0 {
        lemma_agents_split(profiles.drop_last());
    }
}

proof fn lemma_agents_kept(profiles: Seq<AgentProfile>, selectable: bool)
    ensures
        forall|i: int|
            0 <= i < agent_indices(profiles, selectable).len() ==> agent_selectable(
                profiles[#[trigger] agent_indices(profiles, selectable)[i]],
            ) == selectable,
    decreases profiles.len(),
{
    if profiles.len() > 0 {
        let before = profiles.drop_last();
        lemma_agents_kept(before, selectable);
        lemma_agent_indices(before, selectable);
        assert forall|i: int|
            0 <= i < agent_indices(profiles, selectable).len() implies agent_selectable(
            profiles[#[trigger] agent_indices(profiles, selectable)[i]],
        ) == selectable by {
            if i < agent_indices(before, selectable).len() {
                assert(agent_indices(profiles, selectable)[i] == agent_indices(
                    before,
                    selectable,
                )[i]);
            }
        }
    }
}

/// What an agent profile is asked for.
#[derive(Clone, Copy, Debug, PartialEq, Eq, Structural)]
pub enum AgentWizardStep {
    Name,
    Description,
    Parent,
    Prompt,
    Availability,
}

impl AgentWizardStep {
    pub open spec fn index_spec(self) -> int {
        match self {
            AgentWizardStep::Name => 0,
            AgentWizardStep::Description => 1,
            AgentWizardStep::Parent => 2,
            AgentWizardStep::Prompt => 3,
            AgentWizardStep::Availability => 4,
        }
    }

    pub fn index(self) -> (index: usize)
        ensures
            index == self.index_spec(),
    {
        match self {
            AgentWizardStep::Name => 0,
            AgentWizardStep::Description => 1,
            AgentWizardStep::Parent => 2,
            AgentWizardStep::Prompt => 3,
            AgentWizardStep::Availability => 4,
        }
    }

    pub open spec fn at_spec(index: int) -> AgentWizardStep {
        if index == 0 {
            AgentWizardStep::Name
        } else if index == 1 {
            AgentWizardStep::Description
        } else if index == 2 {
            AgentWizardStep::Parent
        } else if index == 3 {
            AgentWizardStep::Prompt
        } else {
            AgentWizardStep::Availability
        }
    }

    /// The step that an item of the edit menu opens.
    pub fn at(index: usize) -> (step: AgentWizardStep)
        ensures
            step == Self::at_spec(index as int),
    {
        match index {
            0 => AgentWizardStep::Name,
            1 => AgentWizardStep::Description,
            2 => AgentWizardStep::Parent,
            3 => AgentWizardStep::Prompt,
            _ => AgentWizardStep::Availability,
        }
    }

    pub open spec fn title_spec(self) -> Seq<char> {
        match self {
            AgentWizardStep::Name => "name"@,
            AgentWizardStep::Description => "description"@,
            AgentWizardStep::Parent => "parent"@,
            AgentWizardStep::Prompt => "prompt"@,
            AgentWizardStep::Availability => "availability"@,
        }
    }

    pub fn title(self) -> (title: &'static str)
        ensures
            title@ == self.title_spec(),
    {
        match self {
            AgentWizardStep::Name => "name",
            AgentWizardStep::Description => "description",
            AgentWizardStep::Parent => "parent",
            AgentWizardStep::Prompt => "prompt",
            AgentWizardStep::Availability => "availability",
        }
    }

    pub open spec fn next_spec(self) -> AgentWizardStep {
        Self::at_spec(self.index_spec() + 1)
    }

    pub fn next_step(self) -> (step: AgentWizardStep)
        ensures
            step == self.next_spec(),
    {
        AgentWizardStep::at(self.index() + 1)
    }

    pub open spec fn input_cursor_spec(self, name: Seq<char>, description: Seq<char>) -> int {
        match self {
            AgentWizardStep::Name => utf8_len(name) as int,
            AgentWizardStep::Description => utf8_len(description) as int,
            _ => 0,
        }
    }

    /// Where the cursor stands when the step begins.
    pub fn input_cursor(self, name: &str, description: &str) -> (cursor: usize)
        ensures
            cursor == self.input_cursor_spec(name@, description@),
    {
        match self {
            AgentWizardStep::Name => byte_len(name),
            AgentWizardStep::Description => byte_len(description),
            _ => 0,
        }
    }
}

/// The items of the edit menu are the steps of the wizard.
pub proof fn law_edit_items_are_wizard_steps(step: AgentWizardStep, index: int)
    ensures
        AgentWizardStep::at_spec(step.index_spec()) == step,
        0 <= index < 5 ==> AgentWizardStep::at_spec(index).index_spec() == index,
{
}

/// The list of the edit menu.
pub fn agent_edit_list(selected: usize) -> (list: ListState)
    ensures
        list == settled(5, selected as int, 0, VISIBLE_MENU_ITEMS as int),
        list.valid(VISIBLE_MENU_ITEMS as int),
{
    ListState::selectable_at(5, selected, VISIBLE_MENU_ITEMS)
}

/// An agent profile that is being created or edited.
#[derive(Debug)]
pub struct AgentWizard {
    pub name: String,
    pub description: String,
    pub parent: String,
    pub parents: Vec<String>,
    pub parent_list: ListState,
    pub prompt: MultilineInput,
    pub availability: usize,
    pub step: AgentWizardStep,
    pub cursor: usize,
    pub editing: bool,
    pub original_name: Option<String>,
}

/// What is to be done after a key in the agent wizard.
#[derive(Clone, Copy, Debug, PartialEq, Eq, Structural)]
pub enum AgentWizardOutcome {
    Stay,
    /// Save the parent of an edited profile.
    SaveParent,
    /// Save the prompt of an edited profile.
    SavePrompt,
    /// Save the whole profile.
    SaveAll,
    /// A profile needs a name.
    NameRequired,
    /// Another profile has the name.
    NameTaken,
    /// Rename an edited profile.
    Rename,
    /// Save the description of an edited profile.
    SaveDescription,
}

/// Whether a text is among some.
pub open spec fn named(names: Seq<String>, name: Seq<char>) -> bool {
    exists|i: int| 0 <= i < names.len() && (#[trigger] names[i])@ == name
}

fn is_named(names: &[String], name: &str) -> (yes: bool)
    ensures
        yes == named(names@, name@),
{
    let mut i: usize = 0;
    while i < names.len()
        invariant
            i <= names@.len(),
            forall|k: int| 0 <= k < i ==> (#[trigger] names@[k])@ != name@,
        decreases names@.len() - i,
    {
        if same_text(names[i].as_str(), name) {
            return true;
        }
        i += 1;
    }
    false
}

impl AgentWizard {
    /// The name that an edited profile has so far.
    pub open spec fn current_name(self) -> Seq<char> {
        match self.original_name {
            None => self.name@,
            Some(original) => original@,
        }
    }

    /// Whether another profile has the name.
    pub open spec fn taken(self, names: Seq<String>) -> bool {
        named(names, self.name@) && !(self.original_name matches Some(original) && original@
            == self.name@)
    }

    /// Nothing changes but the parent, the step and the cursor of the prompt.
    pub open spec fn same_but_parent(self, other: AgentWizard) -> bool {
        &&& self.name == other.name
        &&& self.description == other.description
        &&& self.parents == other.parents
        &&& self.availability == other.availability
        &&& self.cursor == other.cursor
        &&& self.editing == other.editing
        &&& self.original_name == other.original_name
    }

    /// Nothing changes but the text of the name and of the description, the
    /// cursor and the step.
    pub open spec fn same_but_texts(self, other: AgentWizard) -> bool {
        &&& self.parent == other.parent
        &&& self.parents == other.parents
        &&& self.parent_list == other.parent_list
        &&& self.prompt@ == other.prompt@
        &&& self.availability == other.availability
        &&& self.editing == other.editing
        &&& self.original_name == other.original_name
    }

    /// The effect of `parent_key`.
    pub open spec fn parent_key_effect(
        before: Self,
        after: Self,
        code: KeyCode,
        outcome: AgentWizardOutcome,
    ) -> bool {
        &&& (after.same_but_parent(before))
        &&& (after.parent_list == list_after(
                before.parent_list,
                before.parents@.len() as int,
                VISIBLE_MENU_ITEMS as int,
                code,
            ))
        &&& (code != KeyCode::Enter ==> outcome == AgentWizardOutcome::Stay && after.parent
                == before.parent && after.step == before.step && after.prompt == before.prompt)
        &&& (code == KeyCode::Enter ==> {
                let at = after.parent_list.at_spec();
                &&& after.parent@ == if at == 0 {
                    Seq::empty()
                } else {
                    before.parents@[at]@
                }
                &&& outcome == if before.editing {
                    AgentWizardOutcome::SaveParent
                } else {
                    AgentWizardOutcome::Stay
                }
                &&& after.step == if before.editing {
                    AgentWizardStep::Parent
                } else {
                    AgentWizardStep::Prompt
                }
                &&& after.prompt@ == if before.editing {
                    before.prompt@
                } else {
                    before.prompt@.at_end()
                }
            })
    }

    /// A key where the parent is chosen: the first item is no parent. The prompt
    /// comes next, and is written on at its end.
    pub fn parent_key(&mut self, code: KeyCode) -> (outcome: AgentWizardOutcome)
        requires
            old(self).step == AgentWizardStep::Parent,
        ensures
            Self::parent_key_effect(*old(self), *final(self), code, outcome),
    {
        let moved: bool = move_list(
            &mut self.parent_list,
            self.parents.len(),
            VISIBLE_MENU_ITEMS,
            code,
        );
        if moved || code != KeyCode::Enter {
            return AgentWizardOutcome::Stay;
        }
        let selected: usize = self.parent_list.at();
        self.parent =
        if selected == 0 {
            String::new()
        } else {
            self.parents[selected].clone()
        };
        if self.editing {
            AgentWizardOutcome::SaveParent
        } else {
            self.step = AgentWizardStep::Prompt;
            self.prompt.move_to_end();
            AgentWizardOutcome::Stay
        }
    }

    /// Whether a key ends a line of the prompt.
    pub open spec fn ends_line(key: KeyEvent) -> bool {
        key.code == KeyCode::Enter && (key.modifiers.control || key.modifiers.shift)
    }

    /// The effect of `prompt_key`.
    pub open spec fn prompt_key_effect(
        before: Self,
        after: Self,
        key: SurfaceKey,
        width: u16,
        capacity: usize,
        outcome: AgentWizardOutcome,
    ) -> bool {
        &&& (after.name == before.name)
        &&& (after.description == before.description)
        &&& (after.parent == before.parent)
        &&& (after.parents == before.parents)
        &&& (after.parent_list == before.parent_list)
        &&& (after.availability == before.availability)
        &&& (after.editing == before.editing)
        &&& (after.original_name == before.original_name)
        &&& (after.prompt@ == if Self::ends_line(key.key) {
                before.prompt@.insert("\n"@)
            } else if key.submit {
                before.prompt@
            } else {
                editor_after(before.prompt@, key.key, width as int, capacity as int)
            })
        &&& (({
                let submitted = key.submit && !Self::ends_line(key.key);
                &&& outcome == if submitted && before.editing {
                    AgentWizardOutcome::SavePrompt
                } else {
                    AgentWizardOutcome::Stay
                }
                &&& after.step == if submitted && !before.editing {
                    AgentWizardStep::Availability
                } else {
                    AgentWizardStep::Prompt
                }
                &&& after.cursor == if submitted && !before.editing {
                    0
                } else {
                    before.cursor
                }
            }))
    }

    /// A key where the prompt is written, in `capacity` rows of `width` columns.
    pub fn prompt_key(&mut self, key: SurfaceKey, width: u16, capacity: usize) -> (outcome:
        AgentWizardOutcome)
        requires
            old(self).step == AgentWizardStep::Prompt,
        ensures
            Self::prompt_key_effect(*old(self), *final(self), key, width, capacity, outcome),
    {
        if key.key.code == KeyCode::Enter && (key.key.modifiers.control || key.key.modifiers.shift) {
            self.prompt.insert_text("\n");
            AgentWizardOutcome::Stay
        } else if key.submit {
            if self.editing {
                return AgentWizardOutcome::SavePrompt;
            }
            self.step = AgentWizardStep::Availability;
            self.cursor = 0;
            AgentWizardOutcome::Stay
        } else {
            self.prompt.handle_key_in_view(key.key, width, capacity);
            AgentWizardOutcome::Stay
        }
    }

    /// The effect of `availability_key`.
    pub open spec fn availability_key_effect(
        before: Self,
        after: Self,
        code: KeyCode,
        outcome: AgentWizardOutcome,
    ) -> bool {
        &&& (after == (AgentWizard {
                availability: stepped(before.availability as int, 2, code) as usize,
                ..before
            }))
        &&& (outcome == if code == KeyCode::Enter {
                AgentWizardOutcome::SaveAll
            } else {
                AgentWizardOutcome::Stay
            })
    }

    /// A key where the availability is chosen.
    pub fn availability_key(&mut self, code: KeyCode) -> (outcome: AgentWizardOutcome)
        requires
            old(self).step == AgentWizardStep::Availability,
        ensures
            Self::availability_key_effect(*old(self), *final(self), code, outcome),
    {
        if step_index(&mut self.availability, 2, code) || code != KeyCode::Enter {
            AgentWizardOutcome::Stay
        } else {
            AgentWizardOutcome::SaveAll
        }
    }

    /// The effect of `text_key`.
    pub open spec fn text_key_effect(
        before: Self,
        after: Self,
        key: SurfaceKey,
        names: Seq<String>,
        outcome: AgentWizardOutcome,
    ) -> bool {
        &&& (after.same_but_texts(before))
        &&& (!key.submit ==> {
                &&& outcome == AgentWizardOutcome::Stay
                &&& after.step == before.step
                &&& if before.step == AgentWizardStep::Name {
                    &&& after.description == before.description
                    &&& field_is(
                        after.name@,
                        after.cursor as int,
                        field_after(before.name@, before.cursor as int, key.key),
                    )
                } else {
                    &&& after.name == before.name
                    &&& field_is(
                        after.description@,
                        after.cursor as int,
                        field_after(before.description@, before.cursor as int, key.key),
                    )
                }
            })
        &&& (key.submit ==> {
                let at_name = before.step == AgentWizardStep::Name;
                &&& after.name == before.name
                &&& after.description == before.description
                &&& if at_name && trimmed(before.name@).len() == 0 {
                    &&& outcome == AgentWizardOutcome::NameRequired
                    &&& after.step == AgentWizardStep::Name
                    &&& field_is(
                        after.name@,
                        after.cursor as int,
                        InputView::of(before.name@, before.cursor as int),
                    )
                } else if at_name && before.taken(names) {
                    &&& outcome == AgentWizardOutcome::NameTaken
                    &&& after.step == AgentWizardStep::Name
                    &&& field_is(
                        after.name@,
                        after.cursor as int,
                        InputView::of(before.name@, before.cursor as int),
                    )
                } else {
                    &&& outcome == if !before.editing {
                        AgentWizardOutcome::Stay
                    } else if at_name && before.current_name() != before.name@ {
                        AgentWizardOutcome::Rename
                    } else {
                        AgentWizardOutcome::SaveDescription
                    }
                    &&& after.step == before.step.next_spec()
                    &&& after.cursor == after.step.input_cursor_spec(
                        before.name@,
                        before.description@,
                    )
                }
            })
    }

    /// A key where the name or the description is written. `names` are the names
    /// of all profiles.
    pub fn text_key(&mut self, key: SurfaceKey, names: &[String]) -> (outcome: AgentWizardOutcome)
        requires
            old(self).step == AgentWizardStep::Name || old(self).step
                == AgentWizardStep::Description,
        ensures
            Self::text_key_effect(*old(self), *final(self), key, names@, outcome),
    {
        let at_name: bool = self.step == AgentWizardStep::Name;
        if !key.submit {
            if at_name {
                edit_field(&mut self.name, &mut self.cursor, key.key);
            } else {
                edit_field(&mut self.description, &mut self.cursor, key.key);
            }
            return AgentWizardOutcome::Stay;
        }
        if at_name {
            if trim(self.name.as_str()).as_str().is_empty() {
                self.cursor = normalized(self.name.as_str(), self.cursor);
                return AgentWizardOutcome::NameRequired;
            }
            let own: bool = match &self.original_name {
                None => false,
                Some(original) => same_text(original.as_str(), self.name.as_str()),
            };
            if !own && is_named(names, self.name.as_str()) {
                self.cursor = normalized(self.name.as_str(), self.cursor);
                return AgentWizardOutcome::NameTaken;
            }
        }
        self.step = self.step.next_step();
        self.cursor = self.step.input_cursor(self.name.as_str(), self.description.as_str());
        if !self.editing {
            return AgentWizardOutcome::Stay;
        }
        let renamed: bool = match &self.original_name {
            None => false,
            Some(original) => !same_text(original.as_str(), self.name.as_str()),
        };
        if at_name && renamed {
            AgentWizardOutcome::Rename
        } else {
            AgentWizardOutcome::SaveDescription
        }
    }
}

} // verus!
