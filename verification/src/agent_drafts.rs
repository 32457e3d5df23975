//! Agent profiles as they are configured: how they enter the wizard and what it saves.

use vstd::prelude::*;
use vstd::string::*;
use crate::agents::{
    agent_edit_list, AgentAvailability, AgentWizard, AgentWizardOutcome, AgentWizardStep,
};
use crate::interaction::text_view;
use crate::list::{settled, VISIBLE_MENU_ITEMS, ListState};
use crate::menu::same_text;
use crate::multiline_input::MultilineInput;
use crate::providers::{find_position, position_of};
use crate::single_line_input::InputView;
use crate::surface::Surface;
use crate::text::{byte_len, utf8_len};
use crate::unicode::{trim, trimmed, views};

verus! {

/// What the configuration says of an agent profile.
#[derive(Debug)]
pub struct AgentDraft {
    /// The parent of the profile.
    pub extends: Option<String>,
    pub description: Option<String>,
    pub prompt: Option<String>,
    /// Whether it is said that the prompt follows that of the parent.
    pub appends_prompt: bool,
    pub availability: Option<AgentAvailability>,
}

/// The item of an availability in the wizard.
pub open spec fn availability_item(availability: AgentAvailability) -> int {
    match availability {
        AgentAvailability::User => 0,
        AgentAvailability::Subagent => 1,
        AgentAvailability::Both => 2,
    }
}

/// The availability of an item in the wizard.
pub open spec fn item_availability(item: int) -> AgentAvailability {
    if item == 1 {
        AgentAvailability::Subagent
    } else if item == 2 {
        AgentAvailability::Both
    } else {
        AgentAvailability::User
    }
}

/// The availabilities and the items of the wizard stand for each other.
pub proof fn law_availabilities_are_found(availability: AgentAvailability, item: int)
    ensures
        item_availability(availability_item(availability)) == availability,
        0 <= item < 3 ==> availability_item(item_availability(item)) == item,
{
}

/// The profiles that a profile can extend, behind the choice of none: all but the
/// profile itself.
pub open spec fn parent_names(profiles: Seq<String>, own: Option<Seq<char>>) -> Seq<Seq<char>>
    decreases profiles.len(),
{
    if profiles.len() == 0 {
        seq!["None"@]
    } else {
        let before = parent_names(profiles.drop_last(), own);
        if own == Some(profiles.last()@) {
            before
        } else {
            before.push(profiles.last()@)
        }
    }
}

fn parents_of(profiles: &[String], own: Option<&str>) -> (parents: Vec<String>)
    ensures
        views(parents@) == parent_names(
            profiles@,
            match own {
                None => None,
                Some(own) => Some(own@),
            },
        ),
{
    let ghost wanted = match own {
        None => None,
        Some(own) => Some(own@),
    };
    let mut parents: Vec<String> = Vec::new();
    parents.push("None".to_owned());
    let mut i: usize = 0;
    proof {
        assert(profiles@.take(0) =~= Seq::empty());
        assert(views(parents@) =~= parent_names(profiles@.take(0), wanted));
    }
    while i < profiles.len()
        invariant
            i <= profiles@.len(),
            wanted == (match own {
                None => None,
                Some(own) => Some(own@),
            }),
            views(parents@) == parent_names(profiles@.take(i as int), wanted),
            decreases profiles@.len() - i,
    {
        let ghost before = parents@;
        let is_own: bool = match own {
            None => false,
            Some(own) => same_text(profiles[i].as_str(), own),
        };
        if !is_own {
            parents.push(profiles[i].clone());
        }
        proof {
            let taken = profiles@.take(i + 1);
            assert(taken.drop_last() =~= profiles@.take(i as int));
            assert(views(before.push(profiles@[i as int])) =~= views(before).push(
                profiles@[i as int]@,
            ));
        }
        i += 1;
    }
    proof {
        assert(profiles@.take(profiles@.len() as int) =~= profiles@);
    }
    parents
}

/// A text that may be missing, as it is edited.
pub open spec fn shown_text(text: Option<String>) -> Seq<char> {
    match text {
        None => Seq::empty(),
        Some(text) => text@,
    }
}

fn text_or_empty(text: &Option<String>) -> (shown: String)
    ensures
        shown@ == shown_text(*text),
{
    match text {
        None => {
            proof {
                reveal_strlit("");
            }
            let empty: String = "".to_owned();
            proof {
                assert(empty@ =~= Seq::empty());
            }
            empty
        },
        Some(text) => text.clone(),
    }
}

/// An edited text as it is configured: an empty one is missing.
pub open spec fn kept_text(text: Seq<char>) -> Option<Seq<char>> {
    if text.len() == 0 { None } else { Some(text) }
}

fn text_to_keep(text: &str) -> (kept: Option<String>)
    ensures
        text_view(kept) == kept_text(text@),
{
    if text.is_empty() {
        None
    } else {
        Some(text.to_owned())
    }
}

/// Whether `wizard` adds a profile beside others.
pub open spec fn adds(wizard: AgentWizard, profiles: Seq<String>) -> bool {
    &&& wizard.name@.len() == 0
    &&& wizard.description@.len() == 0
    &&& wizard.parent@.len() == 0
    &&& views(wizard.parents@) == parent_names(profiles, None)
    &&& wizard.parent_list == settled(wizard.parents@.len() as int, 0, 0, 1)
    &&& wizard.prompt@ == InputView::of(Seq::empty(), 0)
    &&& wizard.availability == 0
    &&& wizard.step == AgentWizardStep::Name
    &&& wizard.cursor == 0
    &&& !wizard.editing
    &&& wizard.original_name is None
}

/// The wizard that adds a profile. `profiles` are the names of those there are.
pub fn new_agent_wizard(profiles: &[String]) -> (wizard: AgentWizard)
    ensures
        adds(wizard, profiles@),
{
    let parents: Vec<String> = parents_of(profiles, None);
    let parent_list: ListState = ListState::selectable(parents.len());
    let prompt: String = String::new();
    proof {
        assert(prompt@ =~= Seq::empty());
    }
    AgentWizard {
        name: String::new(),
        description: String::new(),
        parent: String::new(),
        parents,
        parent_list,
        prompt: MultilineInput::new(prompt, 0),
        availability: 0,
        step: AgentWizardStep::Name,
        cursor: 0,
        editing: false,
        original_name: None,
    }
}

/// The availability of a profile for which the configuration need not say it.
pub open spec fn effective_availability(draft: AgentDraft, otherwise: AgentAvailability)
    -> AgentAvailability {
    match draft.availability {
        None => otherwise,
        Some(availability) => availability,
    }
}

/// Whether `wizard` edits one step of a configured profile.
pub open spec fn edits(
    wizard: AgentWizard,
    name: Seq<char>,
    draft: AgentDraft,
    otherwise: AgentAvailability,
    profiles: Seq<String>,
    selected: int,
) -> bool {
    let position = position_of(wizard.parents@, shown_text(draft.extends));
    &&& wizard.name@ == name
    &&& wizard.description@ == shown_text(draft.description)
    &&& wizard.parent@ == shown_text(draft.extends)
    &&& views(wizard.parents@) == parent_names(profiles, Some(name))
    &&& wizard.parent_list == settled(
        wizard.parents@.len() as int,
        if position < wizard.parents@.len() { position } else { 0 },
        0,
        VISIBLE_MENU_ITEMS as int,
    )
    &&& wizard.prompt@ == InputView::of(
        shown_text(draft.prompt),
        utf8_len(shown_text(draft.prompt)) as int,
    )
    &&& wizard.availability == availability_item(effective_availability(draft, otherwise))
    &&& wizard.step == AgentWizardStep::at_spec(selected)
    &&& wizard.cursor == wizard.step.input_cursor_spec(name, wizard.description@)
    &&& wizard.editing
    &&& text_view(wizard.original_name) == Some(name)
}

/// The wizard that edits one step of a configured profile: the one of the item that
/// is selected in the edit menu. `profiles` are the names of all profiles.
pub fn edit_agent_wizard(
    name: String,
    draft: &AgentDraft,
    otherwise: AgentAvailability,
    profiles: &[String],
    selected: usize,
) -> (wizard: AgentWizard)
    ensures
        edits(wizard, name@, *draft, otherwise, profiles@, selected as int),
{
    let parent: String = text_or_empty(&draft.extends);
    let parents: Vec<String> = parents_of(profiles, Some(name.as_str()));
    let at: usize = match find_position(parents.as_slice(), parent.as_str()) {
        None => 0,
        Some(at) => at,
    };
    let parent_list: ListState = ListState::selectable_at(parents.len(), at, VISIBLE_MENU_ITEMS);
    let description: String = text_or_empty(&draft.description);
    let prompt: String = text_or_empty(&draft.prompt);
    let step: AgentWizardStep = AgentWizardStep::at(selected);
    let cursor: usize = step.input_cursor(name.as_str(), description.as_str());
    let end: usize = byte_len(prompt.as_str());
    let availability: AgentAvailability = match draft.availability {
        None => otherwise,
        Some(availability) => availability,
    };
    AgentWizard {
        original_name: Some(name.clone()),
        name,
        description,
        parent,
        parents,
        parent_list,
        prompt: MultilineInput::new(prompt, end),
        availability: match availability {
            AgentAvailability::User => 0,
            AgentAvailability::Subagent => 1,
            AgentAvailability::Both => 2,
        },
        step,
        cursor,
        editing: true,
    }
}

/// What the wizard makes of a draft: the parts that the outcome saves are those of
/// the wizard, the others stay. Empty texts are missing, and blanks around the name
/// of the parent are left out.
pub open spec fn draft_after(
    before: AgentDraft,
    after: AgentDraft,
    wizard: AgentWizard,
    outcome: AgentWizardOutcome,
) -> bool {
    let all = outcome == AgentWizardOutcome::SaveAll;
    &&& text_view(after.extends) == if all || outcome == AgentWizardOutcome::SaveParent {
        kept_text(trimmed(wizard.parent@))
    } else {
        text_view(before.extends)
    }
    &&& text_view(after.description) == if all || outcome == AgentWizardOutcome::SaveDescription {
        kept_text(wizard.description@)
    } else {
        text_view(before.description)
    }
    &&& text_view(after.prompt) == if all || outcome == AgentWizardOutcome::SavePrompt {
        kept_text(wizard.prompt@.text)
    } else {
        text_view(before.prompt)
    }
    &&& after.appends_prompt == (before.appends_prompt || all || outcome
        == AgentWizardOutcome::SavePrompt)
    &&& after.availability == if all {
        Some(item_availability(wizard.availability as int))
    } else {
        before.availability
    }
}

/// Puts what the wizard saves into a draft.
pub fn save_agent_draft(draft: &mut AgentDraft, wizard: &AgentWizard, outcome: AgentWizardOutcome)
    ensures
        draft_after(*old(draft), *final(draft), *wizard, outcome),
{
    let all: bool = outcome == AgentWizardOutcome::SaveAll;
    if all || outcome == AgentWizardOutcome::SaveParent {
        draft.extends = text_to_keep(trim(wizard.parent.as_str()).as_str());
    }
    if all || outcome == AgentWizardOutcome::SaveDescription {
        draft.description = text_to_keep(wizard.description.as_str());
    }
    if all || outcome == AgentWizardOutcome::SavePrompt {
        draft.prompt = text_to_keep(wizard.prompt.text());
        draft.appends_prompt = true;
    }
    if all {
        draft.availability = Some(
            match wizard.availability {
                1 => AgentAvailability::Subagent,
                2 => AgentAvailability::Both,
                _ => AgentAvailability::User,
            },
        );
    }
}

/// The profile whose draft the wizard saves: a whole profile is saved under the name
/// that it has in the wizard, a part of one under the name that it is known by.
pub open spec fn saved_name(wizard: AgentWizard, outcome: AgentWizardOutcome) -> Seq<char> {
    if outcome == AgentWizardOutcome::SaveAll {
        wizard.name@
    } else {
        wizard.current_name()
    }
}

pub fn draft_name(wizard: &AgentWizard, outcome: AgentWizardOutcome) -> (name: &str)
    ensures
        name@ == saved_name(*wizard, outcome),
{
    match &wizard.original_name {
        Some(original) => if outcome == AgentWizardOutcome::SaveAll {
            wizard.name.as_str()
        } else {
            original.as_str()
        },
        None => wizard.name.as_str(),
    }
}

/// The item of the edit menu to return to.
pub open spec fn item_after(wizard: AgentWizard, outcome: AgentWizardOutcome) -> int {
    match outcome {
        AgentWizardOutcome::SaveParent => 2,
        AgentWizardOutcome::SavePrompt => 3,
        AgentWizardOutcome::SaveAll => 4,
        _ => if wizard.step.index_spec() == 0 { 0 } else { wizard.step.index_spec() - 1 },
    }
}

/// Whether `surface` is what follows when an outcome was saved: the edit menu of an
/// edited profile, and nothing for one that was added, after which the list of
/// profiles is opened anew.
pub open spec fn follows_saving(
    wizard: AgentWizard,
    outcome: AgentWizardOutcome,
    surface: Option<Surface>,
) -> bool {
    if wizard.editing {
        surface matches Some(Surface::AgentEdit { name, list }) && name@ == wizard.name@ && list
            == settled(5, item_after(wizard, outcome), 0, VISIBLE_MENU_ITEMS as int)
    } else {
        surface is None
    }
}

pub fn surface_after_saving(wizard: AgentWizard, outcome: AgentWizardOutcome) -> (surface: Option<
    Surface,
>)
    ensures
        follows_saving(wizard, outcome, surface),
{
    if !wizard.editing {
        return None;
    }
    let item: usize = match outcome {
        AgentWizardOutcome::SaveParent => 2,
        AgentWizardOutcome::SavePrompt => 3,
        AgentWizardOutcome::SaveAll => 4,
        _ => wizard.step.index().saturating_sub(1),
    };
    Some(Surface::AgentEdit { name: wizard.name, list: agent_edit_list(item) })
}

/// Whether the texts of a draft are as the wizard saves them: none is empty, and no
/// blanks stand around the name of the parent.
pub open spec fn is_tidy(draft: AgentDraft) -> bool {
    &&& draft.extends matches Some(parent) ==> parent@.len() > 0 && trimmed(parent@) == parent@
    &&& draft.description matches Some(description) ==> description@.len() > 0
    &&& draft.prompt matches Some(prompt) ==> prompt@.len() > 0
}

/// A tidy draft whose profile is edited without a change stays tidy and keeps its
/// texts and its availability, whichever part is saved.
pub proof fn law_unchanged_agents_are_kept(
    wizard: AgentWizard,
    name: Seq<char>,
    before: AgentDraft,
    after: AgentDraft,
    otherwise: AgentAvailability,
    profiles: Seq<String>,
    selected: int,
    outcome: AgentWizardOutcome,
)
    requires
        is_tidy(before),
        edits(wizard, name, before, otherwise, profiles, selected),
        draft_after(before, after, wizard, outcome),
    ensures
        is_tidy(after),
        text_view(after.extends) == text_view(before.extends),
        text_view(after.description) == text_view(before.description),
        text_view(after.prompt) == text_view(before.prompt),
        effective_availability(after, otherwise) == effective_availability(before, otherwise),
        saved_name(wizard, outcome) == name,
{
    assert(trimmed(Seq::<char>::empty()) =~= Seq::empty());
}

} // verus!
