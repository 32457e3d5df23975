//! What holds when a surface is closed and when the outcome of an action is reported.

use vstd::prelude::*;
use vstd::string::*;
use crate::agent_log::{log_tail, task_rows};
use crate::app::{
    auth_notice, closes, conversation_position, message_position, provider_index, server_index,
    setup_updated, App, AuthState, CloseStep, ProviderAvailability,
};
use crate::expanded_content::{log_body, LogSource};
use crate::follow::below_two;
use crate::interaction::{text_view, PermissionScope};
use crate::pickers::{ConversationRow, HistoryRow};
use crate::providers::{login_notice, AuthChallenge, ProviderSetup};
use crate::render::{safe, wrapped_line};
use crate::render_mcp::McpServerRow;
use crate::reports::{failure, only_said, only_shown, shown_and_said, Inquiry};
use crate::shown::{
    law_wrapped_lines_say_the_same, lemma_one_span, lemma_row_said, lemma_rows_text_concat,
    lemma_said_within, row_text, rows_text, says, whole,
};
use crate::style::{line, span, Role, Style};
use crate::surface::Surface;
use crate::unicode::trimmed;

verus! {

/// Closing denies a permission, cancels a question and keeps planning, each for the surface
/// that was closed and no other; nothing else does.
pub proof fn law_closed_requests_are_answered(
    top: Surface,
    below: Seq<Surface>,
    after: Seq<Surface>,
    step: CloseStep,
    onboarding: bool,
)
    requires
        closes(top, below, after, step, onboarding),
    ensures
        step is DenyPermission <==> top is Permission,
        step is CancelQuestion <==> top is Question,
        step is KeepPlanning <==> top is PlanCompletion,
        step matches CloseStep::DenyPermission { surface, reason } ==> surface == top && (
        top matches Surface::Permission { prompt, request, choices, answers }
            && if trimmed(prompt.denial_note@).len() == 0 {
            reason is None
        } else {
            text_view(reason) == Some(trimmed(prompt.denial_note@))
        }),
        step matches CloseStep::CancelQuestion(question) ==> top == Surface::Question(question),
        step matches CloseStep::KeepPlanning(surface) ==> surface == top,
        top is Permission || top is Question || top is PlanCompletion ==> after == below,
{
}

/// Closing takes away one surface and leaves those below, or puts one of the same work in
/// its place: an editor goes back a step before it closes.
pub proof fn law_closing_goes_back_one_step(
    top: Surface,
    below: Seq<Surface>,
    after: Seq<Surface>,
    step: CloseStep,
    onboarding: bool,
)
    requires
        closes(top, below, after, step, onboarding),
    ensures
        after == below || (after.drop_last() == below && step is Nothing),
        after != below ==> (top is AgentWizard && after.last() is AgentEdit) || (top is SkillWizard
            && after.last() is SkillWizard) || (top is StatusLine && after.last() is StatusLine),
        top matches Surface::StatusLine(editor) ==> if editor.mode is Modules {
            after == below && step == CloseStep::SaveStatusLine(editor)
        } else {
            after.last() matches Surface::StatusLine(kept) && kept.mode is Modules && kept.config
                == editor.config
        },
        step is SaveStatusLine ==> top is StatusLine,
        step matches CloseStep::CancelProviderAuth(provider) ==> (
        top matches Surface::ProviderSetup(setup) && setup.provider_id == provider
            && setup.managed_auth && !setup.authenticated),
        step is DismissOnboarding ==> top is Onboarding || onboarding,
        top is Onboarding ==> step is DismissOnboarding,
        top is Help || top is Conversations || top is Settings || top is SupervisedWork
            || top is Permissions || top is Usage ==> after == below && step is Nothing,
{
    if after != below {
        assert(after.drop_last() =~= below);
    }
}

/// A failure says what failed and why.
pub proof fn law_failures_say_why(what: Seq<char>, error: Seq<char>)
    ensures
        says(failure(what, error), what),
        says(failure(what, error), error),
{
    assert(failure(what, error) =~= Seq::<char>::empty() + what + (" \u{b7} "@ + error));
    assert(failure(what, error) =~= (what + " \u{b7} "@) + error + Seq::<char>::empty());
}

/// What is only said changes no surface, and what is only shown says nothing new.
pub proof fn law_notices_and_surfaces_are_apart(
    before: App,
    after: App,
    surfaces: Seq<Surface>,
    text: Seq<char>,
)
    ensures
        only_said(before, after, text) ==> after.surfaces@ == before.surfaces@ && text_view(
            after.notice,
        ) == Some(text) && after.pending_interaction == before.pending_interaction
            && after.pending_action == before.pending_action && after.provider_model
            == before.provider_model && after.effort == before.effort,
        only_shown(before, after, surfaces) ==> after.surfaces@ == surfaces && after.notice
            == before.notice && after.pending_interaction == before.pending_interaction
            && after.provider_model == before.provider_model,
        shown_and_said(before, after, surfaces, text) ==> after.surfaces@ == surfaces && text_view(
            after.notice,
        ) == Some(text) && after.pending_interaction == before.pending_interaction
            && after.provider_model == before.provider_model,
{
}

/// Of two surfaces that close together, all below them stay as they are.
pub proof fn law_two_surfaces_close(surfaces: Seq<Surface>, i: int)
    requires
        0 <= i < surfaces.len() - 2,
    ensures
        below_two(surfaces).len() == surfaces.len() - 2,
        below_two(surfaces)[i] == surfaces[i],
{
}

/// What a failed answer says names the kind of the request, and a rule that was saved is said
/// to hold where it holds.
pub proof fn law_answers_are_told_apart(inquiry: Inquiry, scope: PermissionScope)
    ensures
        inquiry == Inquiry::Question ==> says(inquiry.failed_spec(), "question"@),
        inquiry == Inquiry::Permission ==> says(inquiry.failed_spec(), "approval"@),
        inquiry == Inquiry::Plan ==> says(inquiry.failed_spec(), "plan"@),
        scope == PermissionScope::Conversation ==> says(
            scope.saved_notice_spec(),
            "for this conversation"@,
        ),
        scope == PermissionScope::Project ==> says(scope.saved_notice_spec(), "for this project"@),
        scope == PermissionScope::Global || scope == PermissionScope::ConversationGlobal ==> says(
            scope.saved_notice_spec(),
            "globally"@,
        ),
{
    reveal_strlit("question");
    reveal_strlit("question response failed");
    reveal_strlit("approval");
    reveal_strlit("approval response failed");
    reveal_strlit("plan");
    reveal_strlit("plan response failed");
    reveal_strlit("edited permission applied for this conversation");
    reveal_strlit("for this conversation");
    reveal_strlit("edited permission saved for this project");
    reveal_strlit("for this project");
    reveal_strlit("edited permission saved globally");
    reveal_strlit("globally");
    reveal_strlit(" response failed");
    reveal_strlit("edited permission applied ");
    reveal_strlit("edited permission saved ");
    let nothing = Seq::<char>::empty();
    match inquiry {
        Inquiry::Question => {
            assert(inquiry.failed_spec() =~= nothing + "question"@ + " response failed"@);
        },
        Inquiry::Permission => {
            assert(inquiry.failed_spec() =~= nothing + "approval"@ + " response failed"@);
        },
        Inquiry::Plan => {
            assert(inquiry.failed_spec() =~= nothing + "plan"@ + " response failed"@);
        },
    }
    match scope {
        PermissionScope::Conversation => {
            assert(scope.saved_notice_spec() =~= "edited permission applied "@
                + "for this conversation"@ + nothing);
        },
        PermissionScope::Project => {
            assert(scope.saved_notice_spec() =~= "edited permission saved "@ + "for this project"@
                + nothing);
        },
        _ => {
            assert(scope.saved_notice_spec() =~= "edited permission saved "@ + "globally"@
                + nothing);
        },
    }
}

/// Widening a scope changes whether it holds everywhere, and nothing about how long it
/// holds; lengthening it changes how long, and not where.
pub proof fn law_scopes_turn_one_way(scope: PermissionScope)
    ensures
        ({
            let everywhere = |s: PermissionScope|
                s == PermissionScope::ConversationGlobal || s == PermissionScope::Global;
            let kept = |s: PermissionScope|
                s == PermissionScope::Project || s == PermissionScope::Global;
            &&& everywhere(scope.wider_spec()) == !everywhere(scope)
            &&& kept(scope.wider_spec()) == kept(scope)
            &&& kept(scope.longer_spec()) == !kept(scope)
            &&& everywhere(scope.longer_spec()) == everywhere(scope)
        }),
{
}

/// A provider is looked up by its name: the first of that name is found, or none is there.
pub proof fn law_providers_are_found(providers: Seq<ProviderAvailability>, id: Seq<char>, i: int)
    requires
        0 <= i < providers.len(),
    ensures
        provider_index(providers, id) <= providers.len(),
        provider_index(providers, id) < providers.len() ==> providers[provider_index(
            providers,
            id,
        )].id@ == id,
        i < provider_index(providers, id) ==> providers[i].id@ != id,
        0 <= provider_index(providers, id),
    decreases providers.len(),
{
    let rest = providers.drop_first();
    if providers[0].id@ != id {
        if i > 0 {
            law_providers_are_found(rest, id, i - 1);
        } else if rest.len() > 0 {
            law_providers_are_found(rest, id, 0);
        } else {
            assert(provider_index(rest, id) == 0);
        }
    }
}

/// A server is looked up by its name: the first of that name is found, or none is there.
pub proof fn law_servers_are_found(rows: Seq<McpServerRow>, name: Seq<char>, i: int)
    requires
        0 <= i < rows.len(),
    ensures
        0 <= server_index(rows, name) <= rows.len(),
        server_index(rows, name) < rows.len() ==> rows[server_index(rows, name)].name@ == name,
        i < server_index(rows, name) ==> rows[i].name@ != name,
    decreases rows.len(),
{
    let rest = rows.drop_first();
    if rows[0].name@ != name {
        if i > 0 {
            law_servers_are_found(rest, name, i - 1);
        } else if rest.len() > 0 {
            law_servers_are_found(rest, name, 0);
        } else {
            assert(server_index(rest, name) == 0);
        }
    }
}

/// A message is looked up by its number: the first with it is found, or none is there.
pub proof fn law_messages_are_found(rows: Seq<HistoryRow>, id: u128, i: int)
    requires
        0 <= i < rows.len(),
    ensures
        0 <= message_position(rows, id) <= rows.len(),
        message_position(rows, id) < rows.len() ==> rows[message_position(rows, id)].id == id,
        i < message_position(rows, id) ==> rows[i].id != id,
    decreases rows.len(),
{
    let rest = rows.drop_first();
    if rows[0].id != id {
        if i > 0 {
            law_messages_are_found(rest, id, i - 1);
        } else if rest.len() > 0 {
            law_messages_are_found(rest, id, 0);
        } else {
            assert(message_position(rest, id) == 0);
        }
    }
}

/// A conversation is looked up among those that are shown: the first with its number is
/// found, or none is there.
pub proof fn law_conversations_are_found(
    rows: Seq<ConversationRow>,
    visible: Seq<usize>,
    id: u128,
    i: int,
)
    requires
        0 <= i < visible.len(),
    ensures
        ({
            let at = conversation_position(rows, visible, id);
            &&& 0 <= at <= visible.len()
            &&& at < visible.len() ==> rows[visible[at] as int].id == id
            &&& i < at ==> rows[visible[i] as int].id != id
        }),
    decreases visible.len(),
{
    let rest = visible.drop_first();
    if rows[visible[0] as int].id != id {
        if i > 0 {
            law_conversations_are_found(rows, rest, id, i - 1);
        } else if rest.len() > 0 {
            law_conversations_are_found(rows, rest, id, 0);
        } else {
            assert(conversation_position(rows, rest, id) == 0);
        }
    }
}

/// A login that went well is said to be connected; one that failed says why, and one that ran
/// out says so; nothing is said of a login that is missing.
pub proof fn law_logins_are_told(provider: Seq<char>, auth: AuthState)
    ensures
        auth_notice(provider, auth) is None <==> auth is Missing,
        auth is Connected || auth is Available ==> auth_notice(provider, auth) == Some(
            provider + " connected"@,
        ),
        auth matches AuthState::Error { message } ==> auth_notice(provider, auth) == Some(message@),
        auth matches AuthState::Expired { detail } ==> says(
            auth_notice(provider, auth)->0,
            provider,
        ) && says(auth_notice(provider, auth)->0, detail@) && says(
            auth_notice(provider, auth)->0,
            " authentication expired"@,
        ),
{
    reveal_strlit(" authentication expired \u{b7} ");
    reveal_strlit(" authentication expired");
    reveal_strlit(" \u{b7} ");
    if let AuthState::Expired { detail } = auth {
        let text = auth_notice(provider, auth)->0;
        let nothing = Seq::<char>::empty();
        assert(text =~= nothing + provider + (" authentication expired \u{b7} "@ + detail@));
        assert(text =~= (provider + " authentication expired \u{b7} "@) + detail@ + nothing);
        assert(text =~= provider + " authentication expired"@ + (" \u{b7} "@ + detail@));
    }
}

/// A setup counts as authenticated where its provider is connected or available, and in no
/// other state; the challenge is over, and the key that was written stays.
pub proof fn law_setups_follow_the_login(
    before: ProviderSetup,
    after: ProviderSetup,
    auth: AuthState,
)
    requires
        setup_updated(before, after, auth),
    ensures
        after.authenticated <==> auth is Connected || auth is Available,
        after.auth_challenge is None,
        after.provider_id == before.provider_id,
        after.api_key == before.api_key,
        !after.authenticated ==> after.instructions == before.instructions,
        after.authenticated ==> after.instructions@ == before.provider@ + " connected."@,
{
}

/// Where the browser cannot be opened, what is said gives the address; a device login always
/// gives the code when it starts.
pub proof fn law_login_addresses_are_told(
    challenge: AuthChallenge,
    provider: Seq<char>,
    opened: bool,
    copied: bool,
)
    ensures
        login_notice(challenge, provider, true, opened, copied) is Some,
        challenge matches AuthChallenge::Browser { authorization_url } ==> (!opened ==> says(
            login_notice(challenge, provider, true, opened, copied)->0,
            authorization_url@,
        )),
        challenge matches AuthChallenge::Device { verification_url, user_code } ==> says(
            login_notice(challenge, provider, true, opened, copied)->0,
            user_code@,
        ),
        challenge matches AuthChallenge::Device { verification_url, user_code } ==> (!opened
            ==> says(
            login_notice(challenge, provider, true, opened, copied)->0,
            verification_url@,
        )),
{
    let text = login_notice(challenge, provider, true, opened, copied)->0;
    let nothing = Seq::<char>::empty();
    match challenge {
        AuthChallenge::Browser { authorization_url } => {
            if !opened {
                assert(text =~= ("open this URL to connect "@ + provider + ": "@)
                    + authorization_url@ + nothing);
            }
        },
        AuthChallenge::Device { verification_url, user_code } => {
            if opened && copied {
                assert(text =~= ("opened "@ + provider + " device login \u{b7} copied code "@)
                    + user_code@ + nothing);
            } else if opened {
                assert(text =~= ("opened "@ + provider + " device login \u{b7} copy code "@)
                    + user_code@ + nothing);
            } else if copied {
                assert(text =~= "copied code "@ + user_code@ + (" \u{b7} open "@
                    + verification_url@));
                assert(text =~= ("copied code "@ + user_code@ + " \u{b7} open "@)
                    + verification_url@ + nothing);
            } else {
                assert(text =~= "open "@ + verification_url@ + (" and enter code "@ + user_code@));
                assert(text =~= ("open "@ + verification_url@ + " and enter code "@) + user_code@
                    + nothing);
            }
        },
    }
}

/// The log of an agent starts with its task, and ends with its error where there is one; one
/// without an entry says so once it is over.
pub proof fn law_logs_say_their_task_and_error(
    task: Seq<char>,
    log: LogSource,
    error: Option<Seq<char>>,
    streaming: bool,
    width: int,
)
    requires
        error matches Some(error) ==> whole("  Error  "@ + safe(error)),
    ensures
        task_rows(task, width).is_prefix_of(log_body(task, log, error, streaming, width)),
        error matches Some(error) ==> says(
            rows_text(log_body(task, log, Some(error), streaming, width)),
            safe(error),
        ),
        error is None && !streaming && log.items(false, false).len() == 0 ==> says(
            rows_text(log_body(task, log, error, streaming, width)),
            "No activity yet."@,
        ),
{
    let rows = log_body(task, log, error, streaming, width);
    let head = task_rows(task, width);
    assert(rows.take(head.len() as int) =~= head);
    let none = log.items(streaming, error is Some).len() == 0;
    let tail = log_tail(error, none, streaming, width);
    let before = rows.take(rows.len() - tail.len());
    assert(rows =~= before + tail);
    lemma_rows_text_concat(before, tail);
    assert(rows_text(rows) =~= rows_text(before) + rows_text(tail) + Seq::<char>::empty());
    if let Some(error) = error {
        let said = line(seq![span("  Error  "@ + safe(error), Style::of(Role::Error))]);
        lemma_one_span(said.spans[0]);
        assert(said.spans =~= seq![said.spans[0]]);
        law_wrapped_lines_say_the_same(said, width);
        let body = wrapped_line(said, width);
        let from: int = if none { 0 } else { 1 };
        assert(tail =~= tail.take(from) + body + tail.skip(from + body.len()));
        lemma_rows_text_concat(tail.take(from) + body, tail.skip(from + body.len()));
        lemma_rows_text_concat(tail.take(from), body);
        assert(rows_text(tail) =~= (rows_text(tail.take(from)) + "  Error  "@) + safe(error)
            + rows_text(tail.skip(from + body.len())));
        lemma_said_within(rows_text(rows), rows_text(tail), safe(error));
    } else if !streaming && none {
        reveal_strlit("  No activity yet.");
        reveal_strlit("No activity yet.");
        lemma_row_said(tail, 0);
        let row = tail[0];
        assert(row.spans =~= seq![row.spans[0]]);
        lemma_one_span(row.spans[0]);
        assert(row_text(row) =~= seq![' ', ' '] + "No activity yet."@ + Seq::<char>::empty());
        lemma_said_within(rows_text(tail), row_text(row), "No activity yet."@);
        lemma_said_within(rows_text(rows), rows_text(tail), "No activity yet."@);
    }
}

} // verus!
