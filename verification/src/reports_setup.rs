//! What becomes of the surfaces of providers, models, settings, skills and background
//! work once the client has done what a step asked for.

use vstd::prelude::*;
use vstd::string::*;
use crate::agents::{set_skill_enabled, SkillRow};
use crate::app::{question_again, same_but_surfaces, App, CloseStep};
use crate::copies::copy_texts;
use crate::interaction::{text_view, Question};
use crate::list::{settled, VISIBLE_MENU_ITEMS, ListState};
use crate::menu::same_text;
use crate::providers::{
    lemma_position_of, login_notice, position_of, select_model_row, start_managed_provider_auth,
    web_rows, AuthChallenge, EffortFlow, ModelRow, ModelStep, Models, ProviderRow, ProviderSetup,
    ProviderSetupStep, Providers, WebSearchPicker, WebSearchRow,
};
use crate::render::{concat, concat3};
use crate::reports::{failure, only_said, only_shown, Inquiry};
use crate::settings::{concise_error, concise_setting_error, item_capacity, SettingRow, Settings};
use crate::supervised_work::{
    background_work_remains_after_kill, survives, target_listed, SupervisedWork,
    SupervisedWorkTarget,
};
use crate::surface::Surface;
use crate::unicode::trimmed;

verus! {

/// Nothing but the surface on top and the notice differ.
pub open spec fn same_below(before: App, after: App) -> bool {
    &&& after.surfaces@.len() == before.surfaces@.len()
    &&& after.surfaces@.drop_last() == before.surfaces@.drop_last()
    &&& same_but_surfaces(after, App { notice: after.notice, ..before })
}

/// Nothing but the surface on top, the notice and the enabled providers differ.
pub open spec fn same_but_enabled(before: App, after: App) -> bool {
    &&& after.surfaces@.len() == before.surfaces@.len()
    &&& after.surfaces@.drop_last() == before.surfaces@.drop_last()
    &&& same_but_surfaces(
        after,
        App { notice: after.notice, enabled_providers: after.enabled_providers, ..before },
    )
}

/// Whether the rows of a list of web search providers were replaced, and the list
/// adapted to them.
pub open spec fn search_refreshed(
    before: WebSearchPicker,
    after: WebSearchPicker,
    rows: Vec<WebSearchRow>,
) -> bool {
    &&& after.rows == rows
    &&& after.query == before.query
    &&& after.query_cursor == before.query_cursor
    &&& after.list == before.list.reconciled(
        web_rows(rows@, before.query@).len() as int + 1,
        VISIBLE_MENU_ITEMS as int,
    )
}

/// The row of a provider once its login or API key was removed.
pub open spec fn provider_gone(before: ProviderRow, after: ProviderRow) -> bool {
    &&& after.id == before.id
    &&& after.label == before.label
    &&& after.managed_auth == before.managed_auth
    &&& after.api_key_auth == before.api_key_auth
    &&& after.configuration_instructions == before.configuration_instructions
    &&& after.credential_environment_variable == before.credential_environment_variable
    &&& after.auth_flows == before.auth_flows
    &&& !after.enabled
    &&& !after.has_managed_api_key
    &&& after.status@ == "not setup"@
    &&& after.setup_instructions matches Some(text) && text@ == if before.api_key_auth {
        before.configuration_instructions@
    } else {
        "Connect your "@ + before.label@ + " account."@
    }
}

/// Nothing but one row of a list of providers differs.
pub open spec fn same_but_row(before: Providers, after: Providers, at: int) -> bool {
    &&& after.list == before.list
    &&& after.query == before.query
    &&& after.query_cursor == before.query_cursor
    &&& after.model_configuration_follows == before.model_configuration_follows
    &&& after.rows@.len() == before.rows@.len()
    &&& forall|i: int| 0 <= i < before.rows@.len() && i != at ==> #[trigger] after.rows@[i]
        == before.rows@[i]
}

/// The rows of a list of providers were replaced, and nothing else.
pub open spec fn providers_refreshed(before: Surface, after: Surface, rows: Vec<ProviderRow>)
    -> bool {
    match before {
        Surface::Providers(list) => after == Surface::Providers(Providers { rows, ..list }),
        _ => after == before,
    }
}

/// The rows of a list of web search providers were replaced, and nothing else.
pub open spec fn search_rows_replaced(before: Surface, after: Surface, rows: Vec<WebSearchRow>)
    -> bool {
    match before {
        Surface::WebSearchPicker(picker) => after == Surface::WebSearchPicker(
            WebSearchPicker { rows, ..picker },
        ),
        _ => after == before,
    }
}

/// The settings show other values, `shown` of them.
pub open spec fn refreshes_settings(
    before: Surface,
    after: Surface,
    rows: Vec<SettingRow>,
    shown: usize,
) -> bool {
    match before {
        Surface::Settings(settings) => after == Surface::Settings(
            Settings {
                rows,
                list: settings.list.reconciled(
                    shown as int,
                    item_capacity(settings.query@.len() > 0),
                ),
                ..settings
            },
        ),
        _ => after == before,
    }
}

/// The position among the models that are shown of one, or how many are shown.
pub open spec fn model_position(
    rows: Seq<ModelRow>,
    visible: Seq<usize>,
    provider: Seq<char>,
    id: Seq<char>,
) -> int
    decreases visible.len(),
{
    if visible.len() == 0 {
        0
    } else if rows[visible[0] as int].provider@ == provider && rows[visible[0] as int].id@ == id {
        0
    } else {
        1 + model_position(rows, visible.drop_first(), provider, id)
    }
}

fn find_model(rows: &[ModelRow], visible: &[usize], provider: &str, id: &str) -> (at: usize)
    requires
        forall|i: int| 0 <= i < visible@.len() ==> #[trigger] visible@[i] < rows@.len(),
    ensures
        at == ({
            let found = model_position(rows@, visible@, provider@, id@);
            if found < visible@.len() {
                found
            } else {
                0
            }
        }),
{
    let mut i: usize = 0;
    proof {
        assert(visible@.skip(0) =~= visible@);
    }
    while i < visible.len()
        invariant
            i <= visible@.len(),
            forall|k: int| 0 <= k < visible@.len() ==> #[trigger] visible@[k] < rows@.len(),
            model_position(rows@, visible@, provider@, id@) == i + model_position(
                rows@,
                visible@.skip(i as int),
                provider@,
                id@,
            ),
        decreases visible@.len() - i,
    {
        proof {
            assert(visible@.skip(i as int).drop_first() =~= visible@.skip(i + 1));
        }
        let row = &rows[visible[i]];
        if same_text(row.provider.as_str(), provider) && same_text(row.id.as_str(), id) {
            return i;
        }
        i += 1;
    }
    0
}

impl App {
    /// How a web search provider is reached was forgotten, or it could not be; either way
    /// the list shows what there is now.
    pub fn web_search_removed(&mut self, rows: Vec<WebSearchRow>, result: Result<(), String>)
        requires
            old(self).surfaces@.len() > 0,
            rows@.len() < usize::MAX,
        ensures
            same_below(*old(self), *final(self)),
            match old(self).surfaces@.last() {
                Surface::WebSearchPicker(picker) => final(self).surfaces@.last() matches
                    Surface::WebSearchPicker(refreshed) && search_refreshed(picker, refreshed, rows),
                other => final(self).surfaces@.last() == other,
            },
            match result {
                Ok(_) => final(self).notice == old(self).notice,
                Err(error) => final(self).notice == Some(error),
            },
    {
        let ghost before = self.surfaces@;
        let top: usize = self.surfaces.len() - 1;
        let surface: &mut Surface = &mut self.surfaces[top];
        if let Surface::WebSearchPicker(picker) = surface {
            picker.refresh(rows);
        }
        if let Err(error) = result {
            self.notice = Some(error);
        }
        proof {
            assert(self.surfaces@.drop_last() =~= before.drop_last());
        }
    }

    /// How a web search provider is reached was saved: its setup closes, and the list
    /// below shows what there is now.
    pub fn web_search_saved(&mut self, result: Result<Vec<WebSearchRow>, String>)
        requires
            old(self).surfaces@.len() > 0,
        ensures
            match result {
                Ok(rows) => {
                    let below = old(self).surfaces@.drop_last();
                    &&& same_but_surfaces(*old(self), *final(self))
                    &&& final(self).surfaces@.len() == below.len()
                    &&& below.len() > 0 ==> final(self).surfaces@.drop_last() == below.drop_last()
                        && search_rows_replaced(below.last(), final(self).surfaces@.last(), rows)
                },
                Err(error) => only_said(*old(self), *final(self), error@),
            },
    {
        match result {
            Ok(rows) => {
                let _ = self.surfaces.pop();
                let ghost below = self.surfaces@;
                proof {
                    assert(below =~= old(self).surfaces@.drop_last());
                }
                let count: usize = self.surfaces.len();
                if count > 0 {
                    let surface: &mut Surface = &mut self.surfaces[count - 1];
                    if let Surface::WebSearchPicker(picker) = surface {
                        picker.rows = rows;
                    }
                    proof {
                        assert(self.surfaces@.drop_last() =~= below.drop_last());
                    }
                }
            },
            Err(error) => {
                self.notice = Some(error);
            },
        }
    }

    /// The API key of a provider was saved: its setup closes, and the list below shows
    /// what there is now.
    pub fn api_key_saved(&mut self, result: Result<Vec<ProviderRow>, String>)
        requires
            old(self).surfaces@.len() > 0,
        ensures
            match (result, old(self).surfaces@.last()) {
                (Ok(rows), Surface::ProviderSetup(setup)) => {
                    let below = old(self).surfaces@.drop_last();
                    &&& text_view(final(self).notice) == Some(
                        setup.provider@ + (if trimmed(setup.api_key@).len() == 0 {
                            " API key removed"@
                        } else {
                            " API key saved"@
                        }),
                    )
                    &&& same_but_surfaces(
                        *final(self),
                        App { notice: final(self).notice, ..*old(self) },
                    )
                    &&& final(self).surfaces@.len() == below.len()
                    &&& below.len() > 0 ==> final(self).surfaces@.drop_last() == below.drop_last()
                        && providers_refreshed(below.last(), final(self).surfaces@.last(), rows)
                },
                (Ok(_), _) => only_shown(*old(self), *final(self), old(self).surfaces@),
                (Err(error), _) => only_said(*old(self), *final(self), error@),
            },
    {
        let ghost before = self.surfaces@;
        match result {
            Ok(rows) => match self.surfaces.pop() {
                Some(Surface::ProviderSetup(setup)) => {
                    let ghost below = self.surfaces@;
                    proof {
                        assert(below =~= before.drop_last());
                    }
                    self.notice = Some(setup.api_key_notice());
                    let count: usize = self.surfaces.len();
                    if count > 0 {
                        let surface: &mut Surface = &mut self.surfaces[count - 1];
                        if let Surface::Providers(list) = surface {
                            list.rows = rows;
                        }
                        proof {
                            assert(self.surfaces@.drop_last() =~= below.drop_last());
                        }
                    }
                },
                Some(other) => {
                    self.surfaces.push(other);
                    proof {
                        assert(self.surfaces@ =~= before);
                    }
                },
                None => {},
            },
            Err(error) => {
                self.notice = Some(error);
            },
        }
    }

    /// A login to the provider on top was begun: it is waited for, and what was done for
    /// it is said. `opened` and `copied` say whether a browser could be opened and the
    /// clipboard be written.
    pub fn provider_login_begun(
        &mut self,
        result: Result<AuthChallenge, String>,
        launch: bool,
        opened: bool,
        copied: bool,
    )
        requires
            old(self).surfaces@.len() > 0,
        ensures
            match (result, old(self).surfaces@.last()) {
                (Ok(challenge), Surface::ProviderSetup(setup)) => {
                    &&& same_below(*old(self), *final(self))
                    &&& final(self).surfaces@.last() == Surface::ProviderSetup(
                        ProviderSetup { auth_challenge: Some(challenge), ..setup },
                    )
                    &&& match login_notice(challenge, setup.provider@, launch, opened, copied) {
                        Some(text) => text_view(final(self).notice) == Some(text),
                        None => final(self).notice == old(self).notice,
                    }
                },
                (Ok(_), _) => only_shown(*old(self), *final(self), old(self).surfaces@),
                (Err(error), _) => only_said(*old(self), *final(self), error@),
            },
    {
        match result {
            Ok(challenge) => {
                let ghost before = self.surfaces@;
                let top: usize = self.surfaces.len() - 1;
                let mut said: Option<String> = None;
                let surface: &mut Surface = &mut self.surfaces[top];
                if let Surface::ProviderSetup(setup) = surface {
                    said =
                    start_managed_provider_auth(
                        &challenge,
                        setup.provider.as_str(),
                        launch,
                        opened,
                        copied,
                    );
                    setup.auth_challenge = Some(challenge);
                }
                proof {
                    assert(self.surfaces@.drop_last() =~= before.drop_last());
                    if !(before.last() is ProviderSetup) {
                        assert(self.surfaces@ =~= before);
                    }
                }
                if said.is_some() {
                    self.notice = said;
                }
            },
            Err(error) => {
                self.notice = Some(error);
            },
        }
    }

    /// The code or the URL of a login was to be copied.
    pub fn provider_login_copied(&mut self, step: ProviderSetupStep, copied: bool)
        requires
            old(self).surfaces@.len() > 0,
            step is CopyCode || step is CopyUrl,
        ensures
            match old(self).surfaces@.last() {
                Surface::ProviderSetup(setup) => only_said(
                    *old(self),
                    *final(self),
                    if !copied {
                        "clipboard unavailable"@
                    } else {
                        "copied "@ + setup.provider@ + match step {
                            ProviderSetupStep::CopyUrl { device } => if device {
                                " device login URL"@
                            } else {
                                " authentication URL"@
                            },
                            _ => " device code"@,
                        }
                    },
                ),
                _ => *final(self) == *old(self),
            },
    {
        let top: usize = self.surfaces.len() - 1;
        if let Surface::ProviderSetup(setup) = &self.surfaces[top] {
            let what: &str = match step {
                ProviderSetupStep::CopyUrl { device } => if device {
                    " device login URL"
                } else {
                    " authentication URL"
                },
                _ => " device code",
            };
            let said: String = if copied {
                concat3("copied ", setup.provider.as_str(), what)
            } else {
                "clipboard unavailable".to_owned()
            };
            self.notice = Some(said);
        }
    }

    /// The browser was opened once more for the login on top, or it could not be.
    pub fn provider_browser_opened(&mut self, opened: bool)
        requires
            old(self).surfaces@.len() > 0,
        ensures
            match old(self).surfaces@.last() {
                Surface::ProviderSetup(setup) => if opened {
                    only_said(
                        *old(self),
                        *final(self),
                        "complete "@ + setup.provider@ + " authentication in your browser"@,
                    )
                } else {
                    *final(self) == *old(self)
                },
                _ => *final(self) == *old(self),
            },
    {
        let top: usize = self.surfaces.len() - 1;
        if let Surface::ProviderSetup(setup) = &self.surfaces[top] {
            if opened {
                let said: String = concat3(
                    "complete ",
                    setup.provider.as_str(),
                    " authentication in your browser",
                );
                self.notice = Some(said);
            }
        }
    }

    /// The login or the API key of a provider was removed, or it could not be.
    pub fn provider_removed(&mut self, at: usize, result: Result<(), String>)
        requires
            old(self).surfaces@.len() > 0,
        ensures
            match (result, old(self).surfaces@.last()) {
                (Err(error), _) => only_said(*old(self), *final(self), error@),
                (Ok(_), Surface::Providers(list)) => if at < list.rows@.len() {
                    &&& same_but_enabled(*old(self), *final(self))
                    &&& final(self).enabled_providers@ == old(self).enabled_providers@.remove(
                        list.rows@[at as int].id@,
                    )
                    &&& text_view(final(self).notice) == Some(
                        list.rows@[at as int].label@ + " disconnected"@,
                    )
                    &&& final(self).surfaces@.last() matches Surface::Providers(left)
                        && same_but_row(list, left, at as int) && provider_gone(
                        list.rows@[at as int],
                        left.rows@[at as int],
                    )
                } else {
                    only_shown(*old(self), *final(self), old(self).surfaces@)
                },
                (Ok(_), _) => only_shown(*old(self), *final(self), old(self).surfaces@),
            },
    {
        let ghost before = self.surfaces@;
        match result {
            Err(error) => {
                self.notice = Some(error);
            },
            Ok(_) => {
                let top: usize = self.surfaces.len() - 1;
                let mut said: Option<(String, String)> = None;
                let surface: &mut Surface = &mut self.surfaces[top];
                if let Surface::Providers(list) = surface {
                    if at < list.rows.len() {
                        said = Some(
                            (
                                list.rows[at].id.clone(),
                                concat(list.rows[at].label.as_str(), " disconnected"),
                            ),
                        );
                        list.rows[at].removed();
                    }
                }
                match said {
                    Some((id, said)) => {
                        self.notice = Some(said);
                        self.enabled_providers.remove(id.as_str());
                        proof {
                            assert(self.surfaces@.drop_last() =~= before.drop_last());
                        }
                    },
                    None => {
                        proof {
                            assert(self.surfaces@ =~= before);
                        }
                    },
                }
            },
        }
    }

    /// A provider was enabled, or disabled: the result says which it is now, and how it
    /// stands.
    pub fn provider_toggled(&mut self, at: usize, result: Result<(bool, String), String>)
        requires
            old(self).surfaces@.len() > 0,
        ensures
            match (result, old(self).surfaces@.last()) {
                (Err(error), _) => only_said(*old(self), *final(self), error@),
                (Ok((enabled, status)), Surface::Providers(list)) => if at < list.rows@.len() {
                    let id = list.rows@[at as int].id@;
                    &&& same_but_enabled(*old(self), *final(self))
                    &&& final(self).enabled_providers@ == if enabled {
                        old(self).enabled_providers@.insert(id)
                    } else {
                        old(self).enabled_providers@.remove(id)
                    }
                    &&& final(self).notice == old(self).notice
                    &&& final(self).surfaces@.last() matches Surface::Providers(left)
                        && same_but_row(list, left, at as int) && left.rows@[at as int] == (
                    ProviderRow { enabled, status, ..list.rows@[at as int] })
                } else {
                    only_shown(*old(self), *final(self), old(self).surfaces@)
                },
                (Ok(_), _) => only_shown(*old(self), *final(self), old(self).surfaces@),
            },
    {
        let ghost before = self.surfaces@;
        match result {
            Err(error) => {
                self.notice = Some(error);
            },
            Ok((enabled, status)) => {
                let top: usize = self.surfaces.len() - 1;
                let mut listed: Option<String> = None;
                let surface: &mut Surface = &mut self.surfaces[top];
                if let Surface::Providers(list) = surface {
                    if at < list.rows.len() {
                        listed = Some(list.rows[at].id.clone());
                        list.rows[at].enabled = enabled;
                        list.rows[at].status = status;
                    }
                }
                proof {
                    if listed is Some {
                        assert(self.surfaces@.drop_last() =~= before.drop_last());
                    } else {
                        assert(self.surfaces@ =~= before);
                    }
                }
                if let Some(id) = listed {
                    if enabled {
                        self.enabled_providers.insert(id);
                    } else {
                        self.enabled_providers.remove(id.as_str());
                    }
                }
            },
        }
    }

    /// A model was selected on top: where an effort is to be chosen, the efforts are
    /// listed above the models, and otherwise the models close for the model to be
    /// applied. `toggle` says whether the effort can only be switched.
    pub fn model_selected(&mut self, at: usize, flow: EffortFlow, toggle: bool) -> (step: Option<
        ModelStep,
    >)
        requires
            old(self).surfaces@.len() > 0,
        ensures
            same_but_surfaces(*old(self), *final(self)),
            match old(self).surfaces@.last() {
                Surface::Models { models, setting } => if at < models.rows@.len() {
                    let row = models.rows@[at as int];
                    if !models.for_setting && flow == EffortFlow::Choose {
                        let position = match old(self).effort {
                            None => 0,
                            Some(effort) => position_of(row.efforts@, effort@),
                        };
                        let first = if position < row.efforts@.len() {
                            position
                        } else {
                            0
                        };
                        &&& step == Some(ModelStep::ChooseEffort(first as usize))
                        &&& final(self).surfaces@.len() == old(self).surfaces@.len() + 1
                        &&& final(self).surfaces@.drop_last() == old(self).surfaces@
                        &&& final(self).surfaces@.last() matches Surface::Effort {
                            model,
                            rows,
                            toggle: toggles,
                            list,
                        } && model == row.id && rows@ == row.efforts@ && toggles == toggle && list
                            == settled(
                            row.efforts@.len() as int,
                            first,
                            0,
                            VISIBLE_MENU_ITEMS as int,
                        )
                    } else {
                        &&& step == Some(
                            if !models.for_setting && flow == EffortFlow::Automatic {
                                ModelStep::ApplyAutomatic
                            } else {
                                ModelStep::Apply
                            },
                        )
                        &&& final(self).surfaces@ == old(self).surfaces@.drop_last()
                    }
                } else {
                    step is None && final(self).surfaces@ == old(self).surfaces@
                },
                _ => step is None && final(self).surfaces@ == old(self).surfaces@,
            },
    {
        let ghost before = self.surfaces@;
        let top: usize = self.surfaces.len() - 1;
        let mut found: Option<ModelStep> = None;
        let mut efforts: Option<Surface> = None;
        if let Surface::Models { models, .. } = &self.surfaces[top] {
            if at < models.rows.len() {
                let row = &models.rows[at];
                let step: ModelStep = select_model_row(row, models.for_setting, flow, &self.effort);
                proof {
                    if self.effort is Some {
                        lemma_position_of(row.efforts@, self.effort->Some_0@);
                    }
                    assert(row.efforts@.len() == row.efforts.len());
                }
                if let ModelStep::ChooseEffort(first) = step {
                    let rows: Vec<String> = copy_texts(&row.efforts);
                    let list: ListState = ListState::selectable_at(
                        rows.len(),
                        first,
                        VISIBLE_MENU_ITEMS,
                    );
                    efforts = Some(Surface::Effort { model: row.id.clone(), rows, toggle, list });
                }
                found = Some(step);
            }
        }
        if found.is_some() {
            match efforts {
                Some(surface) => {
                    self.surfaces.push(surface);
                    proof {
                        assert(self.surfaces@.drop_last() =~= before);
                    }
                },
                None => {
                    let _ = self.surfaces.pop();
                    proof {
                        assert(self.surfaces@ =~= before.drop_last());
                    }
                },
            }
        }
        found
    }

    /// A model became a favourite, or it is none any more: the models are listed in their
    /// new order, and the same one stays selected.
    pub fn model_favoured(
        &mut self,
        rows: Vec<ModelRow>,
        visible: &[usize],
        provider: &str,
        id: &str,
    )
        requires
            old(self).surfaces@.len() > 0,
            forall|i: int| 0 <= i < visible@.len() ==> #[trigger] visible@[i] < rows@.len(),
        ensures
            same_but_surfaces(*old(self), *final(self)),
            same_below(*old(self), *final(self)),
            match old(self).surfaces@.last() {
                Surface::Models { models, setting } => {
                    let position = model_position(rows@, visible@, provider@, id@);
                    final(self).surfaces@.last() == (Surface::Models {
                        models: Models {
                            rows,
                            list: models.list.selecting(
                                if position < visible@.len() {
                                    position
                                } else {
                                    0
                                },
                                VISIBLE_MENU_ITEMS as int,
                            ),
                            ..models
                        },
                        setting,
                    })
                },
                other => final(self).surfaces@.last() == other,
            },
    {
        let ghost before = self.surfaces@;
        let at: usize = find_model(rows.as_slice(), visible, provider, id);
        let top: usize = self.surfaces.len() - 1;
        let surface: &mut Surface = &mut self.surfaces[top];
        if let Surface::Models { models, .. } = surface {
            models.rows = rows;
            models.list.select(at, VISIBLE_MENU_ITEMS);
        }
        proof {
            assert(self.surfaces@.drop_last() =~= before.drop_last());
        }
    }

    /// The query of the models or the settings on top was edited: the list starts over
    /// with what is shown for it, `shown` of it.
    pub fn list_searched(&mut self, shown: usize)
        requires
            old(self).surfaces@.len() > 0,
        ensures
            same_but_surfaces(*old(self), *final(self)),
            same_below(*old(self), *final(self)),
            match old(self).surfaces@.last() {
                Surface::Models { models, setting } => final(self).surfaces@.last() == (
                Surface::Models {
                    models: Models { list: settled(shown as int, 0, 0, 1), ..models },
                    setting,
                }),
                Surface::Settings(settings) => final(self).surfaces@.last() == Surface::Settings(
                    Settings { list: settled(shown as int, 0, 0, 1), ..settings },
                ),
                other => final(self).surfaces@.last() == other,
            },
    {
        let ghost before = self.surfaces@;
        let top: usize = self.surfaces.len() - 1;
        let surface: &mut Surface = &mut self.surfaces[top];
        match surface {
            Surface::Models { models, .. } => {
                models.list.reset(shown);
            },
            Surface::Settings(settings) => {
                settings.list.reset(shown);
            },
            _ => {},
        }
        proof {
            assert(self.surfaces@.drop_last() =~= before.drop_last());
        }
    }

    /// A skill was enabled, or disabled.
    pub fn skill_toggled(&mut self, name: &str, enabled: bool)
        requires
            old(self).surfaces@.len() > 0,
        ensures
            same_but_surfaces(*old(self), *final(self)),
            same_below(*old(self), *final(self)),
            match old(self).surfaces@.last() {
                Surface::Skills { rows, list } => final(self).surfaces@.last() matches
                    Surface::Skills { rows: shown, list: same } && same == list && shown@.len()
                    == rows@.len() && forall|i: int|
                    0 <= i < rows@.len() ==> #[trigger] shown@[i] == (SkillRow {
                        enabled: if rows@[i].name@ == name@ {
                            enabled
                        } else {
                            rows@[i].enabled
                        },
                        ..rows@[i]
                    }),
                other => final(self).surfaces@.last() == other,
            },
    {
        let ghost before = self.surfaces@;
        let top: usize = self.surfaces.len() - 1;
        let surface: &mut Surface = &mut self.surfaces[top];
        if let Surface::Skills { rows, .. } = surface {
            set_skill_enabled(rows, name, enabled);
        }
        proof {
            assert(self.surfaces@.drop_last() =~= before.drop_last());
        }
    }

    /// A setting that was selected in the list was reset: the list shows what there is
    /// now, `shown` of it.
    pub fn setting_reset(&mut self, result: Result<Vec<SettingRow>, String>, shown: usize)
        requires
            old(self).surfaces@.len() > 0,
        ensures
            match result {
                Ok(rows) => {
                    &&& same_but_surfaces(*old(self), *final(self))
                    &&& same_below(*old(self), *final(self))
                    &&& refreshes_settings(
                        old(self).surfaces@.last(),
                        final(self).surfaces@.last(),
                        rows,
                        shown,
                    )
                },
                Err(error) => only_said(
                    *old(self),
                    *final(self),
                    failure("setting could not be reset"@, concise_error(error@)),
                ),
            },
    {
        match result {
            Ok(rows) => {
                let ghost before = self.surfaces@;
                let top: usize = self.surfaces.len() - 1;
                let surface: &mut Surface = &mut self.surfaces[top];
                if let Surface::Settings(settings) = surface {
                    settings.refresh(rows, shown);
                }
                proof {
                    assert(self.surfaces@.drop_last() =~= before.drop_last());
                }
            },
            Err(error) => {
                let line: String = concise_setting_error(error.as_str());
                self.fail("setting could not be reset", line.as_str());
            },
        }
    }

    /// A setting was saved in its editor, or `reset`: the editor closes, and the settings
    /// below show what there is now, `shown` of it.
    pub fn setting_saved(
        &mut self,
        reset: bool,
        result: Result<Vec<SettingRow>, String>,
        shown: usize,
    )
        requires
            old(self).surfaces@.len() > 0,
        ensures
            match result {
                Ok(rows) => {
                    let below = old(self).surfaces@.drop_last();
                    &&& same_but_surfaces(*old(self), *final(self))
                    &&& final(self).surfaces@.len() == below.len()
                    &&& below.len() > 0 ==> final(self).surfaces@.drop_last() == below.drop_last()
                        && refreshes_settings(
                        below.last(),
                        final(self).surfaces@.last(),
                        rows,
                        shown,
                    )
                },
                Err(error) => only_said(
                    *old(self),
                    *final(self),
                    failure(
                        if reset {
                            "setting could not be reset"@
                        } else {
                            "invalid setting"@
                        },
                        concise_error(error@),
                    ),
                ),
            },
    {
        match result {
            Ok(rows) => {
                let _ = self.surfaces.pop();
                let ghost below = self.surfaces@;
                proof {
                    assert(below =~= old(self).surfaces@.drop_last());
                }
                let count: usize = self.surfaces.len();
                if count > 0 {
                    let surface: &mut Surface = &mut self.surfaces[count - 1];
                    if let Surface::Settings(settings) = surface {
                        settings.refresh(rows, shown);
                    }
                    proof {
                        assert(self.surfaces@.drop_last() =~= below.drop_last());
                    }
                }
            },
            Err(error) => {
                let line: String = concise_setting_error(error.as_str());
                self.fail(
                    if reset {
                        "setting could not be reset"
                    } else {
                        "invalid setting"
                    },
                    line.as_str(),
                );
            },
        }
    }

    /// Whether a surface lists background work of which nothing goes on once `target` is
    /// stopped.
    pub open spec fn is_emptied(surface: Surface, target: SupervisedWorkTarget) -> bool {
        match surface {
            Surface::SupervisedWork(work) => forall|i: int|
                0 <= i < work.rows@.len() ==> !survives(
                    #[trigger] work.rows@[i],
                    target,
                    target_listed(work.rows@, target),
                ),
            _ => false,
        }
    }

    /// Work was stopped: the question closes, and so does the list below it if nothing
    /// goes on.
    pub fn work_killed(&mut self, target: SupervisedWorkTarget, result: Result<(), String>)
        requires
            old(self).surfaces@.len() > 0,
        ensures
            match result {
                Ok(_) => {
                    let below = old(self).surfaces@.drop_last();
                    only_shown(
                        *old(self),
                        *final(self),
                        if below.len() > 0 && Self::is_emptied(below.last(), target) {
                            below.drop_last()
                        } else {
                            below
                        },
                    )
                },
                Err(error) => only_said(
                    *old(self),
                    *final(self),
                    failure("could not kill background work"@, error@),
                ),
            },
    {
        match result {
            Ok(_) => {
                let _ = self.surfaces.pop();
                let ghost below = self.surfaces@;
                proof {
                    assert(below =~= old(self).surfaces@.drop_last());
                }
                let count: usize = self.surfaces.len();
                let emptied: bool = count > 0 && match &self.surfaces[count - 1] {
                    Surface::SupervisedWork(work) => !background_work_remains_after_kill(
                        work.rows.as_slice(),
                        target,
                    ),
                    _ => false,
                };
                if emptied {
                    let _ = self.surfaces.pop();
                    proof {
                        assert(self.surfaces@ =~= below.drop_last());
                    }
                }
            },
            Err(error) => self.fail("could not kill background work", error.as_str()),
        }
    }

    /// The surface that comes back when what closing it asked for has failed, and what is
    /// then said to have failed. A question starts over.
    pub open spec fn restored(step: CloseStep) -> Option<(Surface, Seq<char>)> {
        match step {
            CloseStep::CancelQuestion(question) => Some(
                (
                    Surface::Question(
                        Question {
                            question_index: 0,
                            option_index: 0,
                            editing_note: false,
                            note_cursor: 0,
                            ..question
                        },
                    ),
                    Inquiry::Question.failed_spec(),
                ),
            ),
            CloseStep::DenyPermission { surface, reason } => Some(
                (surface, Inquiry::Permission.failed_spec()),
            ),
            CloseStep::KeepPlanning(surface) => Some((surface, Inquiry::Plan.failed_spec())),
            CloseStep::SaveStatusLine(editor) => Some(
                (Surface::StatusLine(editor), "statusline could not be saved"@),
            ),
            _ => None,
        }
    }

    /// What closing a surface asked for was done. No request waits once planning is known
    /// to go on.
    pub fn close_performed(&mut self, step: &CloseStep)
        ensures
            *final(self) == (App {
                pending_interaction: if step is KeepPlanning {
                    None
                } else {
                    old(self).pending_interaction
                },
                ..*old(self)
            }),
    {
        if let CloseStep::KeepPlanning(_) = step {
            self.pending_interaction = None;
        }
    }

    /// What closing a surface asked for has failed.
    pub fn close_failed(&mut self, step: CloseStep, error: &str)
        ensures
            match Self::restored(step) {
                Some((surface, what)) => {
                    &&& final(self).surfaces@ == old(self).surfaces@.push(surface)
                    &&& text_view(final(self).notice) == Some(failure(what, error@))
                    &&& same_but_surfaces(
                        *final(self),
                        App { notice: final(self).notice, ..*old(self) },
                    )
                },
                None => *final(self) == *old(self),
            },
    {
        match step {
            CloseStep::CancelQuestion(question) => {
                self.surfaces.push(Surface::Question(question_again(question)));
                self.fail("question response failed", error);
            },
            CloseStep::DenyPermission { surface, .. } => {
                self.surfaces.push(surface);
                self.fail("approval response failed", error);
            },
            CloseStep::KeepPlanning(surface) => {
                self.surfaces.push(surface);
                self.fail("plan response failed", error);
            },
            CloseStep::SaveStatusLine(editor) => {
                self.surfaces.push(Surface::StatusLine(editor));
                self.fail("statusline could not be saved", error);
            },
            _ => {},
        }
    }
}

/// Where a surface is closed in vain, all surfaces come back as they were, but for a
/// question, which starts over.
pub proof fn law_vain_closing_changes_nothing(surfaces: Seq<Surface>, step: CloseStep, onboarding: bool)
    requires
        surfaces.len() > 0,
        crate::app::closes(
            surfaces.last(),
            surfaces.drop_last(),
            surfaces.drop_last(),
            step,
            onboarding,
        ),
        App::restored(step) is Some,
    ensures
        !(surfaces.last() is Question) ==> surfaces.drop_last().push(
            App::restored(step)->Some_0.0,
        ) == surfaces,
        surfaces.last() is Question ==> App::restored(step)->Some_0.0 is Question,
{
    let (surface, what) = App::restored(step)->Some_0;
    if !(surfaces.last() is Question) {
        assert(surface == surfaces.last());
        assert(surfaces.drop_last().push(surface) =~= surfaces);
    }
}

} // verus!
