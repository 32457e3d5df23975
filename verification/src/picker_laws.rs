//! What the pickers do: a key does one thing only, to the row that is under the cursor.

use vstd::prelude::*;
use vstd::string::*;
use crate::agents::{
    profiles_key_effect, skills_key_effect, AgentWizard, AgentWizardOutcome, AgentWizardStep,
    ProfileKind, ProfileRow, ProfilesStep, SkillRow, SkillWizard, SkillWizardStep, SkillsStep,
};
use crate::control::SurfaceKey;
use crate::key::{KeyCode, KeyEvent};
use crate::list::ListState;
use crate::moving_laws::{law_contained_text_stands_between, under_cursor};
use crate::pickers::{
    conversation_indices, paths_key_effect, permissions_key_effect, usage_key_effect,
    worktrees_key_effect, ConversationRow, Conversations, ConversationsStep, Help, HistoryStep,
    HistoryTree, PathsStep, PermissionsStep, UsageStep, WorktreeNew, WorktreeNewStep, WorktreesStep,
};
use crate::providers::{
    pick_key_effect, web_rows, AuthFlow, Models, ModelsStep, ProviderSetup, ProviderSetupStep,
    Providers, ProvidersStep, WebSearchPicker, WebSearchProvider, WebSearchRow, WebSearchStep,
};
use crate::shown::says;
use crate::unicode::{lower_case, trimmed};

verus! {

/// Whether a conversation is found by a query: it has a title, and the title says what is
/// looked for, whatever the case.
pub open spec fn is_found(row: ConversationRow, query: Seq<char>) -> bool {
    row.title@.len() > 0 && says(lower_case(row.title@), lower_case(query))
}

/// A search shows the conversations that it finds, each once and in their order, and no
/// others.
pub proof fn law_searches_show_what_they_find(
    rows: Seq<ConversationRow>,
    query: Seq<char>,
    i: int,
)
    requires
        rows.len() <= usize::MAX,
    ensures
        0 <= i < rows.len() ==> (conversation_indices(rows, query).contains(i as usize)
            <==> is_found(rows[i], query)),
        forall|j: int|
            0 <= j < conversation_indices(rows, query).len() ==> #[trigger] conversation_indices(
                rows,
                query,
            )[j] < rows.len(),
        forall|j: int, k: int|
            0 <= j < k < conversation_indices(rows, query).len() ==> #[trigger] conversation_indices(
                rows,
                query,
            )[j] < #[trigger] conversation_indices(rows, query)[k],
    decreases rows.len(),
{
    if rows.len() > 0 {
        let before = conversation_indices(rows.drop_last(), query);
        let after = conversation_indices(rows, query);
        let last = (rows.len() - 1) as usize;
        law_searches_show_what_they_find(rows.drop_last(), query, i);
        law_contained_text_stands_between(lower_case(rows.last().title@), lower_case(query));
        if is_found(rows.last(), query) {
            assert(after == before.push(last));
            assert(after[before.len() as int] == last);
            if before.contains(i as usize) {
                let j = choose|j: int| 0 <= j < before.len() && before[j] == i as usize;
                assert(after[j] == i as usize);
            }
            if 0 <= i < rows.len() - 1 && after.contains(i as usize) {
                let j = choose|j: int| 0 <= j < after.len() && after[j] == i as usize;
                assert(before[j] == i as usize);
            }
        }
        if 0 <= i < rows.len() - 1 {
            assert(rows.drop_last()[i] == rows[i]);
        }
    }
}

/// In the resume picker a conversation is deleted by `D` only and archived by `A` only, made
/// a favourite by `f` only and resumed by Enter only; each time it is the one under the
/// cursor. `a` shows or hides what is archived.
pub proof fn law_conversations_are_picked_on_purpose(
    before: Conversations,
    after: Conversations,
    key: SurfaceKey,
    rows: usize,
    step: ConversationsStep,
)
    requires
        before.rows@.len() <= usize::MAX,
        Conversations::key_effect(before, after, key, rows, step),
    ensures
        ({
            let found = conversation_indices(before.rows@, before.query@);
            let row = found[under_cursor(before.list, found.len() as int)];
            &&& step matches ConversationsStep::Delete(at) ==> key.code == KeyCode::Char('D')
                && found.len() > 0 && at == row
            &&& step matches ConversationsStep::Archive(at) ==> key.code == KeyCode::Char('A')
                && found.len() > 0 && at == row
            &&& step matches ConversationsStep::Resume(at) ==> key.code == KeyCode::Enter
                && found.len() > 0 && at == row
            &&& step matches ConversationsStep::ToggleFavourite(at) ==> key.code == KeyCode::Char(
                'f',
            ) && key.key.modifiers.is_empty() && found.len() > 0 && at == row
            &&& step is ToggleArchived <==> key.code == KeyCode::Char('a')
            &&& found.len() > 0 ==> {
                &&& key.code == KeyCode::Char('D') ==> step is Delete
                &&& key.code == KeyCode::Char('A') ==> step is Archive
                &&& key.code == KeyCode::Enter ==> step is Resume
                &&& key.code == KeyCode::Char('f') && key.key.modifiers.is_empty() ==> step
                    is ToggleFavourite
                &&& 0 <= row < before.rows@.len()
                &&& is_found(before.rows@[row as int], before.query@)
            }
            &&& after.rows@ == before.rows@
            &&& after.include_archived != before.include_archived <==> key.code == KeyCode::Char(
                'a',
            )
            &&& !(step is Search) ==> after.query@ == before.query@
        }),
{
    let found = conversation_indices(before.rows@, before.query@);
    if found.len() > 0 {
        let row = found[under_cursor(before.list, found.len() as int)];
        law_searches_show_what_they_find(before.rows@, before.query@, row as int);
        assert(found.contains(row));
    }
}

/// In the tree of messages Enter forks, shift and `f` forks into another conversation, and
/// `p` previews; each time it is the message under the cursor, which can be selected.
pub proof fn law_messages_are_picked_on_purpose(
    before: HistoryTree,
    after: HistoryTree,
    key: SurfaceKey,
    scroll_to_message: bool,
    visible: Seq<usize>,
    capacity: usize,
    step: HistoryStep,
)
    requires
        0 < visible.len() <= usize::MAX,
        HistoryTree::key_effect(
            before,
            after,
            key,
            scroll_to_message,
            visible,
            capacity,
            step,
        ),
    ensures
        ({
            let row = visible[under_cursor(before.list, visible.len() as int)];
            let selectable = before.rows@[row as int].selectable;
            &&& step matches HistoryStep::Fork(at) ==> key.code == KeyCode::Enter && at == row
                && selectable && !scroll_to_message
            &&& step matches HistoryStep::HardFork(at) ==> (key.key.code == KeyCode::Char('f')
                || key.key.code == KeyCode::Char('F')) && key.key.modifiers.shift
                && !key.key.modifiers.control && at == row && selectable && !scroll_to_message
            &&& step matches HistoryStep::Preview(at) ==> key.key.code == KeyCode::Char('p')
                && key.key.modifiers.is_empty() && at == row && selectable && !scroll_to_message
            &&& step matches HistoryStep::ScrollTo(at) ==> scroll_to_message && at == row
                && before.rows@[row as int].has_target
            &&& scroll_to_message ==> step is Stay || step is ScrollTo
            &&& !scroll_to_message && selectable && key.code == KeyCode::Enter && key.key.code
                == KeyCode::Enter ==> step is Fork
            &&& after.rows == before.rows && after.purpose == before.purpose && after.revision
                == before.revision
            &&& !(step is Filter) ==> after.query@ == before.query@
        }),
{
}

/// A model is chosen by Enter only and made a favourite by `f` only; it is the one under the
/// cursor. Where a model is chosen for a setting, neither favourites nor the default of the
/// agent can be chosen.
pub proof fn law_models_are_picked_on_purpose(
    before: Models,
    after: Models,
    key: SurfaceKey,
    visible: Seq<usize>,
    step: ModelsStep,
)
    requires
        visible.len() <= usize::MAX,
        Models::key_effect(before, after, key, visible, step),
    ensures
        step matches ModelsStep::Select(row) ==> key.code == KeyCode::Enter && visible.len() > 0
            && row == visible[under_cursor(before.list, visible.len() as int)],
        step matches ModelsStep::ToggleFavourite(row) ==> key.code == KeyCode::Char('f')
            && key.key.modifiers.is_empty() && !before.for_setting && visible.len() > 0 && row
            == visible[under_cursor(before.list, visible.len() as int)],
        step is UseAgentDefault ==> key.exit && !before.for_setting,
        key.code == KeyCode::Enter && visible.len() > 0 ==> step is Select,
        key.code == KeyCode::Char('f') && key.key.modifiers.is_empty() && !before.for_setting
            && visible.len() > 0 ==> step is ToggleFavourite,
        after.rows == before.rows,
        !(step is Filter) ==> after.query@ == before.query@,
{
}

/// A provider is removed by `d` only and set up again by `r` only, where it can be; Enter
/// sets up one that needs it and turns on or off any other. It is the one under the cursor.
/// The first item leaves, unless a model is to be chosen next and no provider is enabled.
pub proof fn law_providers_are_picked_on_purpose(
    before: Providers,
    after: Providers,
    key: SurfaceKey,
    visible: Seq<usize>,
    any_enabled: bool,
    step: ProvidersStep,
)
    requires
        visible.len() < usize::MAX,
        Providers::key_effect(before, after, key, visible, any_enabled, step),
    ensures
        ({
            let at = under_cursor(before.list, visible.len() as int + 1);
            let row = visible[at - 1];
            let provider = before.rows@[row as int];
            &&& step matches ProvidersStep::Remove(index) ==> key.code == KeyCode::Char('d') && at
                > 0 && index == row && ((provider.managed_auth && provider.setup_instructions
                is None) || (provider.api_key_auth && provider.has_managed_api_key))
            &&& step matches ProvidersStep::Reconfigure(index) ==> key.code == KeyCode::Char('r')
                && at > 0 && index == row
            &&& step matches ProvidersStep::Toggle(index) ==> key.submit && at > 0 && index == row
                && provider.setup_instructions is None
            &&& step matches ProvidersStep::SetUp(index) ==> key.submit && at > 0 && index == row
                && provider.setup_instructions is Some
            &&& step is Close ==> key.code == KeyCode::Enter && at == 0 && (
            before.model_configuration_follows ==> any_enabled)
            &&& at == 0 && key.code == KeyCode::Enter && (before.model_configuration_follows
                ==> any_enabled) ==> step is Close
            &&& at > 0 && key.submit && key.code == KeyCode::Enter ==> step is Toggle || step
                is SetUp
            &&& after.rows == before.rows
        }),
{
}

/// Whether a provider of web search is found by a query.
pub open spec fn is_offered(row: WebSearchRow, query: Seq<char>) -> bool {
    says(row.label@, lower_case(query))
}

/// A search shows the providers that it finds, each once and in their order.
pub proof fn law_web_searches_show_what_they_find(
    rows: Seq<WebSearchRow>,
    query: Seq<char>,
    i: int,
)
    requires
        rows.len() <= usize::MAX,
    ensures
        0 <= i < rows.len() ==> (web_rows(rows, query).contains(i as usize) <==> is_offered(
            rows[i],
            query,
        )),
        forall|j: int|
            0 <= j < web_rows(rows, query).len() ==> #[trigger] web_rows(rows, query)[j]
                < rows.len(),
        forall|j: int, k: int|
            0 <= j < k < web_rows(rows, query).len() ==> #[trigger] web_rows(rows, query)[j]
                < #[trigger] web_rows(rows, query)[k],
    decreases rows.len(),
{
    if rows.len() > 0 {
        let before = web_rows(rows.drop_last(), query);
        let after = web_rows(rows, query);
        let last = (rows.len() - 1) as usize;
        law_web_searches_show_what_they_find(rows.drop_last(), query, i);
        law_contained_text_stands_between(rows.last().label@, lower_case(query));
        if is_offered(rows.last(), query) {
            assert(after == before.push(last));
            assert(after[before.len() as int] == last);
            if before.contains(i as usize) {
                let j = choose|j: int| 0 <= j < before.len() && before[j] == i as usize;
                assert(after[j] == i as usize);
            }
            if 0 <= i < rows.len() - 1 && after.contains(i as usize) {
                let j = choose|j: int| 0 <= j < after.len() && after[j] == i as usize;
                assert(before[j] == i as usize);
            }
        }
        if 0 <= i < rows.len() - 1 {
            assert(rows.drop_last()[i] == rows[i]);
        }
    }
}

/// A provider of web search is used by Enter where it is ready, and forgotten by `d` only;
/// one that is not ready is set up, or its subscription connected.
pub proof fn law_web_searches_are_picked_on_purpose(
    before: WebSearchPicker,
    after: WebSearchPicker,
    key: SurfaceKey,
    step: WebSearchStep,
)
    requires
        before.rows@.len() < usize::MAX,
        WebSearchPicker::key_effect(before, after, key, step),
    ensures
        ({
            let found = web_rows(before.rows@, before.query@);
            let at = under_cursor(before.list, found.len() as int + 1);
            let row = found[at - 1];
            let provider = before.rows@[row as int];
            &&& step matches WebSearchStep::Use(index) ==> key.code == KeyCode::Enter && at > 0
                && index == row && provider.ready
            &&& step matches WebSearchStep::Remove(index) ==> key.code == KeyCode::Char('d') && at
                > 0 && index == row && provider.ready
            &&& step matches WebSearchStep::SetUp(index) ==> at > 0 && index == row
                && provider.provider != WebSearchProvider::Chatgpt && (key.code == KeyCode::Char(
                'r',
            ) || (key.code == KeyCode::Enter && !provider.ready))
            &&& step is AskToConnect ==> at > 0 && provider.provider == WebSearchProvider::Chatgpt
                && (key.code == KeyCode::Char('r') || (key.code == KeyCode::Enter
                && !provider.ready))
            &&& step is Close <==> key.code == KeyCode::Enter && at == 0
            &&& at > 0 && key.code == KeyCode::Enter && provider.ready ==> step is Use
            &&& at > 0 && key.code == KeyCode::Char('d') && provider.ready ==> step is Remove
            &&& after.rows == before.rows
        }),
{
    let found = web_rows(before.rows@, before.query@);
    lemma_fewer(before.rows@, before.query@);
}

proof fn lemma_fewer(rows: Seq<WebSearchRow>, query: Seq<char>)
    ensures
        web_rows(rows, query).len() <= rows.len(),
    decreases rows.len(),
{
    if rows.len() > 0 {
        lemma_fewer(rows.drop_last(), query);
    }
}

/// What submits saves the key of a provider, and Escape leaves it; nothing else does either.
/// A login is begun, opened or copied by the keys that are told.
pub proof fn law_keys_of_providers_are_saved_on_purpose(
    before: ProviderSetup,
    after: ProviderSetup,
    key: SurfaceKey,
    preferred: Option<AuthFlow>,
    step: ProviderSetupStep,
)
    requires
        ProviderSetup::key_effect(before, after, key, preferred, step),
    ensures
        step is SaveApiKey <==> before.api_key_auth && key.submit,
        before.api_key_auth && !key.submit && key.key.code == KeyCode::Esc ==> step is Close,
        before.api_key_auth && key.submit ==> after.api_key == before.api_key,
        !before.api_key_auth ==> after == before,
        !before.api_key_auth && step is Close ==> key.submit && (!before.managed_auth
            || before.authenticated),
        step is CopyCode ==> key.key.code == KeyCode::Char('C') && before.auth_challenge is Some,
        step is CopyUrl ==> key.key.code == KeyCode::Char('c') && before.auth_challenge is Some,
        step is OpenBrowser ==> key.submit,
        step matches ProviderSetupStep::Begin { flow, launch, clear } ==> {
            &&& key.submit || key.key.code == KeyCode::Char('d') || key.key.code == KeyCode::Char(
                'c',
            )
            &&& key.key.code == KeyCode::Char('d') && !key.submit ==> flow == AuthFlow::DeviceCode
            &&& !launch ==> key.key.code == KeyCode::Char('c')
        },
{
}

/// Enter picks the item under the cursor, and no other key picks any.
pub proof fn law_enter_picks_the_item(
    list: ListState,
    new_list: ListState,
    count: usize,
    code: KeyCode,
    picked: Option<usize>,
)
    requires
        pick_key_effect(list, new_list, count, code, picked),
    ensures
        picked is Some <==> code == KeyCode::Enter && count > 0,
        picked matches Some(index) ==> index == under_cursor(list, count as int),
{
}

/// The first item of the worktrees makes a new one, each other switches to the worktree that
/// it shows; only Enter does.
pub proof fn law_worktrees_are_picked_on_purpose(
    list: ListState,
    new_list: ListState,
    rows: usize,
    code: KeyCode,
    step: WorktreesStep,
)
    requires
        rows < usize::MAX,
        worktrees_key_effect(list, new_list, rows, code, step),
    ensures
        step is Stay <==> code != KeyCode::Enter,
        step is New <==> code == KeyCode::Enter && under_cursor(list, rows + 1) == 0,
        step matches WorktreesStep::Switch(index) ==> index == under_cursor(list, rows + 1) - 1
            && index < rows,
{
}

/// A worktree is made only by Enter on its base and under the name that was written, without
/// the white space around it; an empty base is none.
pub proof fn law_worktrees_are_made_as_written(
    before: WorktreeNew,
    after: WorktreeNew,
    key: SurfaceKey,
    step: WorktreeNewStep,
)
    requires
        WorktreeNew::key_effect(before, after, key, step),
    ensures
        step matches WorktreeNewStep::Create { name, base } ==> {
            &&& key.key.code == KeyCode::Enter
            &&& before.editing_base
            &&& name@ == trimmed(before.name@)
            &&& name@.len() > 0
            &&& base matches Some(text) ==> text@ == trimmed(before.base@)
            &&& base is None <==> trimmed(before.base@).len() == 0
        },
        step is NameRequired ==> key.key.code == KeyCode::Enter && trimmed(before.name@).len()
            == 0,
        key.key.code == KeyCode::Enter && before.editing_base && trimmed(before.name@).len() > 0
            ==> step is Create,
        key.key.code == KeyCode::Tab || key.key.code == KeyCode::BackTab ==> after.editing_base
            != before.editing_base && after.name == before.name && after.base == before.base,
        before.editing_base && after.editing_base ==> after.name == before.name,
        !before.editing_base && !after.editing_base ==> after.base == before.base,
{
}

/// A rule is deleted by `d` only and edited by `e` only; it is the one under the cursor, and
/// one that has nothing to edit is told so.
pub proof fn law_rules_are_picked_on_purpose(
    list: ListState,
    new_list: ListState,
    editable: Seq<bool>,
    key: SurfaceKey,
    step: PermissionsStep,
)
    requires
        editable.len() < usize::MAX,
        permissions_key_effect(list, new_list, editable, key, step),
    ensures
        ({
            let at = under_cursor(list, editable.len() as int + 1);
            &&& step matches PermissionsStep::Delete(index) ==> key.key.code == KeyCode::Char('d')
                && index == at - 1 && index < editable.len()
            &&& step matches PermissionsStep::Edit(index) ==> key.key.code == KeyCode::Char('e')
                && index == at - 1 && index < editable.len() && editable[index as int]
            &&& step is NotEditable ==> key.key.code == KeyCode::Char('e') && at > 0 && !editable[at
                - 1]
            &&& step is Close ==> key.submit && at == 0
            &&& at > 0 && key.key.code == KeyCode::Char('d') && key.code == KeyCode::Char('d')
                ==> step is Delete
            &&& at == 0 && key.submit && key.code == KeyCode::Enter ==> step is Close
        }),
{
}

/// What submits on the usage page leaves it, asks whether to reset it, or shows it by
/// project or by model, in the order in which these are offered.
pub proof fn law_usage_items_do_what_they_say(
    list: ListState,
    new_list: ListState,
    key: SurfaceKey,
    step: UsageStep,
)
    requires
        usage_key_effect(list, new_list, key, step),
    ensures
        step is Close ==> key.submit && under_cursor(list, 4) == 0,
        step is Reset ==> key.submit && under_cursor(list, 4) == 1,
        step is ByProject ==> key.submit && under_cursor(list, 4) == 2,
        step is ByModel ==> key.submit && under_cursor(list, 4) == 3,
        key.submit && key.code == KeyCode::Enter ==> !(step is Stay),
        !key.submit ==> step is Stay,
{
}

/// Enter completes the path that is under the cursor, and no other key does.
pub proof fn law_paths_are_completed_on_purpose(
    list: ListState,
    new_list: ListState,
    rows: usize,
    code: KeyCode,
    step: PathsStep,
)
    requires
        paths_key_effect(list, new_list, rows, code, step),
    ensures
        step is Complete <==> code == KeyCode::Enter,
        rows > 0 && code == KeyCode::Enter ==> step == PathsStep::Complete(
            Some(under_cursor(list, rows as int) as usize),
        ),
        rows == 0 && code == KeyCode::Enter ==> step == PathsStep::Complete(None),
{
}

/// The arrows to the side show the other tab of the help from its start; twice shows the
/// first again.
pub proof fn law_help_tabs_are_turned(first: Help, second: Help, third: Help, code: KeyCode)
    requires
        Help::key_effect(first, second, code),
        Help::key_effect(second, third, code),
    ensures
        code == KeyCode::Left || code == KeyCode::Right ==> second.tab != first.tab && third.tab
            == first.tab && second.list.offset == 0,
        code != KeyCode::Left && code != KeyCode::Right ==> second.tab == first.tab,
        second.command_rows == first.command_rows,
        second.key_rows == first.key_rows,
        code == KeyCode::Home ==> second.list.offset == 0,
{
}

/// A skill is deleted by `d` only and edited by `e` only, and never one that comes with the
/// program; Enter turns it on or off. It is the one under the cursor.
pub proof fn law_skills_are_picked_on_purpose(
    list: ListState,
    new_list: ListState,
    rows: Seq<SkillRow>,
    key: SurfaceKey,
    step: SkillsStep,
)
    requires
        rows.len() + 2 <= usize::MAX,
        skills_key_effect(list, new_list, rows, key, step),
    ensures
        ({
            let at = under_cursor(list, rows.len() as int + 2);
            &&& step matches SkillsStep::Delete(index) ==> key.key.code == KeyCode::Char('d')
                && key.key.modifiers.is_empty() && index == at - 2 && index < rows.len()
                && !rows[index as int].system
            &&& step matches SkillsStep::Edit(index) ==> key.key.code == KeyCode::Char('e')
                && key.key.modifiers.is_empty() && index == at - 2 && index < rows.len()
                && !rows[index as int].system
            &&& step matches SkillsStep::Toggle(index) ==> key.key.code == KeyCode::Enter && index
                == at - 2 && index < rows.len()
            &&& step is Close ==> key.key.code == KeyCode::Enter && at == 0
            &&& step is New ==> key.key.code == KeyCode::Enter && at == 1
            &&& key.key.code == KeyCode::Enter && key.code == KeyCode::Enter ==> !(step is Stay)
            &&& at >= 2 && !rows[at - 2].system && key.key.code == KeyCode::Char('d') && key.code
                == KeyCode::Char('d') && key.key.modifiers.is_empty() ==> step is Delete
        }),
{
}

/// A profile is changed to by Enter or the space bar, and an agent edited by `e`; an agent
/// that cannot be selected is never changed to. It is the one under the cursor.
pub proof fn law_profiles_are_picked_on_purpose(
    kind: ProfileKind,
    rows: Seq<ProfileRow>,
    list: ListState,
    new_list: ListState,
    key: SurfaceKey,
    step: ProfilesStep,
)
    requires
        0 < rows.len() <= usize::MAX,
        profiles_key_effect(kind, rows, list, new_list, key, step),
    ensures
        ({
            let at = under_cursor(list, rows.len() as int);
            &&& step matches ProfilesStep::Change(index) ==> index == at && (key.code
                == KeyCode::Enter || key.code == KeyCode::Char(' ')) && (kind
                == ProfileKind::Agent ==> rows[at].selectable)
            &&& step matches ProfilesStep::Edit(index) ==> index == at && key.code
                == KeyCode::Char('e') && kind == ProfileKind::Agent && rows[at].name@ != "Add"@
            &&& step is Add ==> key.code == KeyCode::Enter && kind == ProfileKind::Agent
                && rows[at].name@ == "Add"@
            &&& key.code == KeyCode::Enter && kind == ProfileKind::Mode ==> step
                == ProfilesStep::Change(at as usize)
            &&& key.code == KeyCode::Enter && kind == ProfileKind::Agent && rows[at].selectable
                && rows[at].name@ != "Add"@ ==> step == ProfilesStep::Change(at as usize)
        }),
{
}

/// A skill is complete only by Enter in its content, and each step is gone on from by Enter
/// once something is written in it. What is written in one step leaves the others.
pub proof fn law_skills_are_written_step_by_step(
    before: SkillWizard,
    after: SkillWizard,
    key: KeyEvent,
    width: u16,
    capacity: usize,
    complete: bool,
)
    requires
        SkillWizard::key_effect(before, after, key, width, capacity, complete),
    ensures
        complete <==> before.step == SkillWizardStep::Content && key.code == KeyCode::Enter
            && !key.modifiers.control && !key.modifiers.shift,
        after.step != before.step ==> key.code == KeyCode::Enter,
        before.step == SkillWizardStep::Scope && key.code == KeyCode::Enter ==> after.step
            == SkillWizardStep::Name,
        before.step == SkillWizardStep::Name && key.code == KeyCode::Enter ==> after.step == (if
            trimmed(before.name@.text).len() > 0 {
            SkillWizardStep::Description
        } else {
            SkillWizardStep::Name
        }),
        before.step == SkillWizardStep::Description && key.code == KeyCode::Enter ==> after.step
            == (if trimmed(before.description@.text).len() > 0 {
            SkillWizardStep::Content
        } else {
            SkillWizardStep::Description
        }),
        before.step != SkillWizardStep::Name ==> after.name@ == before.name@,
        before.step != SkillWizardStep::Description ==> after.description@
            == before.description@,
        before.step != SkillWizardStep::Content ==> after.content@ == before.content@,
        before.step != SkillWizardStep::Scope ==> after.project == before.project,
        before.step == SkillWizardStep::Scope && before.scope_list.item_count == 2
            && before.scope_list.selected is Some && before.scope_list.selected->0 < 2 && key.code
            == KeyCode::Up ==> after.project,
        before.step == SkillWizardStep::Scope && before.scope_list.item_count == 2
            && before.scope_list.selected is Some && key.code == KeyCode::Down
            ==> !after.project,
{
}

/// The parent of an agent is the item that Enter is pressed on, or none for the first.
pub proof fn law_parents_are_what_was_chosen(
    before: AgentWizard,
    after: AgentWizard,
    code: KeyCode,
    outcome: AgentWizardOutcome,
)
    requires
        AgentWizard::parent_key_effect(before, after, code, outcome),
    ensures
        code != KeyCode::Enter ==> after.parent == before.parent && outcome
            == AgentWizardOutcome::Stay && after.step == before.step,
        code == KeyCode::Enter && before.parents@.len() > 0 ==> {
            let at = under_cursor(before.parent_list, before.parents@.len() as int);
            &&& at == 0 ==> after.parent@ == Seq::<char>::empty()
            &&& at > 0 ==> after.parent@ == before.parents@[at]@
            &&& before.editing <==> outcome == AgentWizardOutcome::SaveParent
            &&& !before.editing <==> after.step == AgentWizardStep::Prompt
        },
        after.name == before.name,
        after.description == before.description,
        after.availability == before.availability,
        after.prompt@.text == before.prompt@.text,
{
}

/// A name that is missing or taken is refused, and keeps the wizard where it is; otherwise
/// what submits goes on, and saves what was edited: another name by renaming, anything else
/// as the description. Typing leaves the text that is not edited.
pub proof fn law_agents_are_named(
    before: AgentWizard,
    after: AgentWizard,
    key: SurfaceKey,
    names: Seq<String>,
    outcome: AgentWizardOutcome,
    i: int,
)
    requires
        before.step == AgentWizardStep::Name || before.step == AgentWizardStep::Description,
        AgentWizard::text_key_effect(before, after, key, names, outcome),
    ensures
        !key.submit ==> outcome == AgentWizardOutcome::Stay && after.step == before.step,
        key.submit ==> after.name == before.name && after.description == before.description,
        before.step == AgentWizardStep::Description ==> after.name == before.name,
        before.step == AgentWizardStep::Name ==> after.description == before.description,
        outcome == AgentWizardOutcome::NameRequired <==> key.submit && before.step
            == AgentWizardStep::Name && trimmed(before.name@).len() == 0,
        outcome == AgentWizardOutcome::NameTaken || outcome == AgentWizardOutcome::NameRequired
            ==> after.step == AgentWizardStep::Name,
        key.submit && before.step == AgentWizardStep::Name && trimmed(before.name@).len() > 0 && 0
            <= i < names.len() && names[i]@ == before.name@ && (before.original_name is None
            || before.original_name->0@ != before.name@) ==> outcome
            == AgentWizardOutcome::NameTaken,
        outcome == AgentWizardOutcome::NameTaken ==> before.step == AgentWizardStep::Name
            && exists|j: int| 0 <= j < names.len() && (#[trigger] names[j])@ == before.name@,
        outcome == AgentWizardOutcome::Rename ==> before.editing && before.step
            == AgentWizardStep::Name && before.original_name is Some
            && before.original_name->0@ != before.name@,
        outcome == AgentWizardOutcome::SaveDescription ==> before.editing,
        key.submit && before.step == AgentWizardStep::Description ==> after.step
            == AgentWizardStep::Parent,
        key.submit && before.step == AgentWizardStep::Name && outcome
            != AgentWizardOutcome::NameRequired && outcome != AgentWizardOutcome::NameTaken
            ==> after.step == AgentWizardStep::Description,
{
}

/// The prompt of an agent is gone on from, or saved, by what submits; Enter with control or
/// shift begins a line instead. Whom the agent is for is saved by Enter only.
pub proof fn law_agents_are_saved_on_purpose(
    before: AgentWizard,
    after: AgentWizard,
    key: SurfaceKey,
    width: u16,
    capacity: usize,
    outcome: AgentWizardOutcome,
    saved: AgentWizard,
    code: KeyCode,
    last: AgentWizardOutcome,
)
    requires
        AgentWizard::prompt_key_effect(before, after, key, width, capacity, outcome),
        AgentWizard::availability_key_effect(after, saved, code, last),
    ensures
        outcome == AgentWizardOutcome::SavePrompt ==> key.submit && before.editing && !(
        key.key.code == KeyCode::Enter && (key.key.modifiers.control
            || key.key.modifiers.shift)),
        key.submit && before.editing && key.key.modifiers.is_empty() ==> outcome
            == AgentWizardOutcome::SavePrompt,
        key.submit && !before.editing && key.key.modifiers.is_empty() ==> after.step
            == AgentWizardStep::Availability,
        key.submit && key.key.modifiers.is_empty() ==> after.prompt@ == before.prompt@,
        key.key.code == KeyCode::Enter && key.key.modifiers.shift && 0 <= before.prompt@.at
            <= before.prompt@.text.len() ==> after.prompt@.text.len()
            == before.prompt@.text.len() + 1 && after.prompt@.text[before.prompt@.at] == '\n'
            && outcome == AgentWizardOutcome::Stay,
        last == AgentWizardOutcome::SaveAll <==> code == KeyCode::Enter,
        code == KeyCode::Enter ==> saved.availability == after.availability,
        saved.name == after.name,
        saved.parent == after.parent,
{
    reveal_strlit("\n");
}

} // verus!
