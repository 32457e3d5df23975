//! What surfaces tell in words: their titles, and the keys that do something on them.

use vstd::prelude::*;
use vstd::string::*;
use crate::agents::ProfileKind;
use crate::pickers::TreePurpose;
use crate::render::safe;
use crate::shown::{lemma_span_said, row_text, says};
use crate::surface::{surface_rows, Surface, SurfaceContext};
use crate::surface_status::status_of;

verus! {

/// What can be done is told by the key that does it.
pub proof fn law_keys_are_told(surface: Surface, visible: Seq<usize>)
    ensures
        surface is Conversations ==> says(status_of(surface, visible), "Enter resume"@),
        surface is Conversations ==> says(status_of(surface, visible), "f favourite"@),
        surface is Conversations ==> says(status_of(surface, visible), "A archive"@),
        surface is Conversations ==> says(status_of(surface, visible), "D delete"@),
        surface is Skills ==> says(status_of(surface, visible), "Enter toggle"@),
        surface is Skills ==> says(status_of(surface, visible), "e edit"@),
        surface is Skills ==> says(status_of(surface, visible), "d delete"@),
        surface is Permissions ==> says(status_of(surface, visible), "e edit"@),
        surface is Permissions ==> says(status_of(surface, visible), "d delete"@),
        (surface matches Surface::SupervisedWork(work) && !work.show_past)
            ==> says(status_of(surface, visible), "k kill"@),
        (surface matches Surface::SupervisedWork(work) && !work.show_past)
            ==> says(status_of(surface, visible), "p show past"@),
        (surface matches Surface::SupervisedWork(work) && !work.show_past)
            ==> says(status_of(surface, visible), "Enter expand"@),
        (surface matches Surface::SupervisedWork(work) && work.show_past)
            ==> says(status_of(surface, visible), "p show active"@),
        (surface matches Surface::SupervisedWork(work) && work.show_past)
            ==> says(status_of(surface, visible), "Enter expand"@),
        surface is McpJsonEdit ==> says(status_of(surface, visible), "Ctrl+Enter submit"@),
        (surface matches Surface::StatusLine(editor) && editor.mode is Modules)
            ==> says(status_of(surface, visible), "Enter toggle"@),
        (surface matches Surface::StatusLine(editor) && editor.mode is Modules)
            ==> says(status_of(surface, visible), "c color"@),
        (surface matches Surface::StatusLine(editor) && editor.mode is Modules)
            ==> says(status_of(surface, visible), "r reset"@),
        (surface matches Surface::StatusLine(editor) && editor.mode is Modules)
            ==> says(status_of(surface, visible), "Esc save"@),
        (surface matches Surface::Models { models, setting } && !models.for_setting)
            ==> says(status_of(surface, visible), "Enter select"@),
        (surface matches Surface::Models { models, setting } && !models.for_setting)
            ==> says(status_of(surface, visible), "f favourite"@),
{
    if surface is Conversations {
        reveal_strlit(
            "type to search \u{b7} \u{2191}/\u{2193} conversations \u{b7} Enter resume \u{b7} f favourite \u{b7} a archived \u{b7} Shift+A archive \u{b7} Shift+D delete \u{b7} Esc close",
        );
        reveal_strlit("Enter resume");
        lemma_literal_said(
            "type to search \u{b7} \u{2191}/\u{2193} conversations \u{b7} Enter resume \u{b7} f favourite \u{b7} a archived \u{b7} Shift+A archive \u{b7} Shift+D delete \u{b7} Esc close"@,
            "Enter resume"@,
            37,
        );
        reveal_strlit("f favourite");
        lemma_literal_said(
            "type to search \u{b7} \u{2191}/\u{2193} conversations \u{b7} Enter resume \u{b7} f favourite \u{b7} a archived \u{b7} Shift+A archive \u{b7} Shift+D delete \u{b7} Esc close"@,
            "f favourite"@,
            52,
        );
        reveal_strlit("A archive");
        lemma_literal_said(
            "type to search \u{b7} \u{2191}/\u{2193} conversations \u{b7} Enter resume \u{b7} f favourite \u{b7} a archived \u{b7} Shift+A archive \u{b7} Shift+D delete \u{b7} Esc close"@,
            "A archive"@,
            85,
        );
        reveal_strlit("D delete");
        lemma_literal_said(
            "type to search \u{b7} \u{2191}/\u{2193} conversations \u{b7} Enter resume \u{b7} f favourite \u{b7} a archived \u{b7} Shift+A archive \u{b7} Shift+D delete \u{b7} Esc close"@,
            "D delete"@,
            103,
        );
    }
    if surface is Skills {
        reveal_strlit(
            "\u{2191}/\u{2193} navigate \u{b7} Enter toggle \u{b7} e edit \u{b7} d delete \u{b7} Esc close",
        );
        reveal_strlit("Enter toggle");
        lemma_literal_said(
            "\u{2191}/\u{2193} navigate \u{b7} Enter toggle \u{b7} e edit \u{b7} d delete \u{b7} Esc close"@,
            "Enter toggle"@,
            15,
        );
        reveal_strlit("e edit");
        lemma_literal_said(
            "\u{2191}/\u{2193} navigate \u{b7} Enter toggle \u{b7} e edit \u{b7} d delete \u{b7} Esc close"@,
            "e edit"@,
            30,
        );
        reveal_strlit("d delete");
        lemma_literal_said(
            "\u{2191}/\u{2193} navigate \u{b7} Enter toggle \u{b7} e edit \u{b7} d delete \u{b7} Esc close"@,
            "d delete"@,
            39,
        );
    }
    if surface is Permissions {
        reveal_strlit(
            "\u{2191}/\u{2193} navigate \u{b7} Enter close \u{b7} e edit \u{b7} d delete \u{b7} Esc close",
        );
        reveal_strlit("e edit");
        lemma_literal_said(
            "\u{2191}/\u{2193} navigate \u{b7} Enter close \u{b7} e edit \u{b7} d delete \u{b7} Esc close"@,
            "e edit"@,
            29,
        );
        reveal_strlit("d delete");
        lemma_literal_said(
            "\u{2191}/\u{2193} navigate \u{b7} Enter close \u{b7} e edit \u{b7} d delete \u{b7} Esc close"@,
            "d delete"@,
            38,
        );
    }
    if (surface matches Surface::SupervisedWork(work) && !work.show_past) {
        reveal_strlit(
            "\u{2191}/\u{2193} navigate \u{b7} Enter expand \u{b7} k kill \u{b7} p show past \u{b7} Esc close",
        );
        reveal_strlit("k kill");
        lemma_literal_said(
            "\u{2191}/\u{2193} navigate \u{b7} Enter expand \u{b7} k kill \u{b7} p show past \u{b7} Esc close"@,
            "k kill"@,
            30,
        );
        reveal_strlit("p show past");
        lemma_literal_said(
            "\u{2191}/\u{2193} navigate \u{b7} Enter expand \u{b7} k kill \u{b7} p show past \u{b7} Esc close"@,
            "p show past"@,
            39,
        );
        reveal_strlit("Enter expand");
        lemma_literal_said(
            "\u{2191}/\u{2193} navigate \u{b7} Enter expand \u{b7} k kill \u{b7} p show past \u{b7} Esc close"@,
            "Enter expand"@,
            15,
        );
    }
    if (surface matches Surface::SupervisedWork(work) && work.show_past) {
        reveal_strlit(
            "\u{2191}/\u{2193} navigate \u{b7} Enter expand \u{b7} p show active \u{b7} Esc close",
        );
        reveal_strlit("p show active");
        lemma_literal_said(
            "\u{2191}/\u{2193} navigate \u{b7} Enter expand \u{b7} p show active \u{b7} Esc close"@,
            "p show active"@,
            30,
        );
        reveal_strlit("Enter expand");
        lemma_literal_said(
            "\u{2191}/\u{2193} navigate \u{b7} Enter expand \u{b7} p show active \u{b7} Esc close"@,
            "Enter expand"@,
            15,
        );
    }
    if surface is McpJsonEdit {
        reveal_strlit("Ctrl+Enter submit \u{b7} Esc back");
        reveal_strlit("Ctrl+Enter submit");
        lemma_literal_said("Ctrl+Enter submit \u{b7} Esc back"@, "Ctrl+Enter submit"@, 0);
    }
    if (surface matches Surface::StatusLine(editor) && editor.mode is Modules) {
        reveal_strlit(
            "\u{2191}/\u{2193} navigate \u{b7} Enter toggle \u{b7} \u{2190}/\u{2192} reorder \u{b7} c color \u{b7} r reset \u{b7} Esc save",
        );
        reveal_strlit("Enter toggle");
        lemma_literal_said(
            "\u{2191}/\u{2193} navigate \u{b7} Enter toggle \u{b7} \u{2190}/\u{2192} reorder \u{b7} c color \u{b7} r reset \u{b7} Esc save"@,
            "Enter toggle"@,
            15,
        );
        reveal_strlit("c color");
        lemma_literal_said(
            "\u{2191}/\u{2193} navigate \u{b7} Enter toggle \u{b7} \u{2190}/\u{2192} reorder \u{b7} c color \u{b7} r reset \u{b7} Esc save"@,
            "c color"@,
            44,
        );
        reveal_strlit("r reset");
        lemma_literal_said(
            "\u{2191}/\u{2193} navigate \u{b7} Enter toggle \u{b7} \u{2190}/\u{2192} reorder \u{b7} c color \u{b7} r reset \u{b7} Esc save"@,
            "r reset"@,
            54,
        );
        reveal_strlit("Esc save");
        lemma_literal_said(
            "\u{2191}/\u{2193} navigate \u{b7} Enter toggle \u{b7} \u{2190}/\u{2192} reorder \u{b7} c color \u{b7} r reset \u{b7} Esc save"@,
            "Esc save"@,
            64,
        );
    }
    if (surface matches Surface::Models { models, setting } && !models.for_setting) {
        reveal_strlit(
            "\u{2191}/\u{2193} navigate \u{b7} Enter select \u{b7} f favourite \u{b7} Ctrl+D agent default \u{b7} Esc back",
        );
        reveal_strlit("Enter select");
        lemma_literal_said(
            "\u{2191}/\u{2193} navigate \u{b7} Enter select \u{b7} f favourite \u{b7} Ctrl+D agent default \u{b7} Esc back"@,
            "Enter select"@,
            15,
        );
        reveal_strlit("f favourite");
        lemma_literal_said(
            "\u{2191}/\u{2193} navigate \u{b7} Enter select \u{b7} f favourite \u{b7} Ctrl+D agent default \u{b7} Esc back"@,
            "f favourite"@,
            30,
        );
    }
}

proof fn lemma_literal_said(text: Seq<char>, part: Seq<char>, at: int)
    requires
        0 <= at,
        at + part.len() <= text.len(),
        text.subrange(at, at + part.len()) =~= part,
    ensures
        says(text, part),
{
    assert(text =~= text.take(at) + part + text.skip(at + part.len()));
}

/// The first row of a dialog says what it is, and what it is about.
#[verifier::rlimit(60)]
pub proof fn law_dialog_titles_are_told(
    surface: Surface,
    context: SurfaceContext,
    width: int,
    viewport_rows: int,
)
    requires
        surface is Onboarding || surface is PlanCompletion || surface is Question
            || surface is PermissionRuleEdit || surface is PersistentPermissionEdit,
    ensures
        surface is Onboarding
            ==> says(
                row_text(surface_rows(surface, context, width, viewport_rows)[0]),
                "Welcome to Cagent!"@,
            ),
        surface is PlanCompletion
            ==> says(row_text(surface_rows(surface, context, width, viewport_rows)[0]), "Plan"@),
        surface is Question
            ==> says(
                row_text(surface_rows(surface, context, width, viewport_rows)[0]),
                "Questions"@,
            ),
        surface is PermissionRuleEdit
            ==> says(
                row_text(surface_rows(surface, context, width, viewport_rows)[0]),
                "Permission rule"@,
            ),
        surface is PersistentPermissionEdit
            ==> says(
                row_text(surface_rows(surface, context, width, viewport_rows)[0]),
                "Permission rule"@,
            ),
{
    let spans = surface_rows(surface, context, width, viewport_rows)[0].spans;
    lemma_span_said(spans, 1);
}

/// The first row of a list says what it is, and what it is about.
#[verifier::rlimit(60)]
pub proof fn law_usage_titles_are_told(
    surface: Surface,
    context: SurfaceContext,
    width: int,
    viewport_rows: int,
)
    requires
        surface is Permissions || surface is Usage || surface is UsageResetConfirm
            || surface is Rename || surface is Worktrees || surface is WorktreeNew,
    ensures
        surface is Permissions
            ==> says(
                row_text(surface_rows(surface, context, width, viewport_rows)[0]),
                "Permissions"@,
            ),
        surface is Usage
            ==> says(row_text(surface_rows(surface, context, width, viewport_rows)[0]), "Usage"@),
        surface is UsageResetConfirm
            ==> says(
                row_text(surface_rows(surface, context, width, viewport_rows)[0]),
                "Reset usage"@,
            ),
        surface is Rename
            ==> says(
                row_text(surface_rows(surface, context, width, viewport_rows)[0]),
                "Rename conversation"@,
            ),
        surface is Worktrees
            ==> says(
                row_text(surface_rows(surface, context, width, viewport_rows)[0]),
                "Worktrees"@,
            ),
        surface is WorktreeNew
            ==> says(
                row_text(surface_rows(surface, context, width, viewport_rows)[0]),
                "New worktree"@,
            ),
{
    let spans = surface_rows(surface, context, width, viewport_rows)[0].spans;
    lemma_span_said(spans, 1);
}

/// The first row of what sets up web search says what it is, and what it is about.
#[verifier::rlimit(60)]
pub proof fn law_web_titles_are_told(
    surface: Surface,
    context: SurfaceContext,
    width: int,
    viewport_rows: int,
)
    requires
        surface is WebSearchPicker || surface is WebSearchSetup,
    ensures
        surface is WebSearchPicker
            ==> says(
                row_text(surface_rows(surface, context, width, viewport_rows)[0]),
                "Web search"@,
            ),
        surface is WebSearchSetup
            ==> says(
                row_text(surface_rows(surface, context, width, viewport_rows)[0]),
                "Set up web search"@,
            ),
        surface is WebSearchSetup
            ==> says(
                row_text(surface_rows(surface, context, width, viewport_rows)[0]),
                safe(surface->WebSearchSetup_label@),
            ),
{
    let spans = surface_rows(surface, context, width, viewport_rows)[0].spans;
    lemma_span_said(spans, 1);
    if surface is WebSearchSetup {
        lemma_span_said(spans, 3);
    }
}

/// The first row of what sets a provider up says what it is, and what it is about.
#[verifier::rlimit(60)]
pub proof fn law_setup_titles_are_told(
    surface: Surface,
    context: SurfaceContext,
    width: int,
    viewport_rows: int,
)
    requires
        surface is Providers || surface is ProviderSetup || surface is Models,
    ensures
        surface is Providers
            ==> says(
                row_text(surface_rows(surface, context, width, viewport_rows)[0]),
                "Providers"@,
            ),
        surface is ProviderSetup
            ==> says(
                row_text(surface_rows(surface, context, width, viewport_rows)[0]),
                "Configure provider"@,
            ),
        surface is ProviderSetup
            ==> says(
                row_text(surface_rows(surface, context, width, viewport_rows)[0]),
                safe(surface->ProviderSetup_0.provider@),
            ),
        (surface is Models && surface->Models_setting is None)
            ==> says(row_text(surface_rows(surface, context, width, viewport_rows)[0]), "Models"@),
{
    let spans = surface_rows(surface, context, width, viewport_rows)[0].spans;
    lemma_span_said(spans, 1);
    if surface is ProviderSetup {
        lemma_span_said(spans, 3);
    }
}

/// The first row of what is about agents and skills says what it is, and what it is about.
#[verifier::rlimit(60)]
pub proof fn law_agent_titles_are_told(
    surface: Surface,
    context: SurfaceContext,
    width: int,
    viewport_rows: int,
)
    requires
        surface is Effort || surface is Profiles || surface is Skills
            || surface is SkillDeleteConfirm || surface is SkillWizard,
    ensures
        (surface is Effort && surface->Effort_toggle)
            ==> says(
                row_text(surface_rows(surface, context, width, viewport_rows)[0]),
                "Reasoning"@,
            ),
        (surface is Effort && surface->Effort_toggle)
            ==> says(
                row_text(surface_rows(surface, context, width, viewport_rows)[0]),
                safe(surface->Effort_model@),
            ),
        (surface is Effort && !surface->Effort_toggle)
            ==> says(row_text(surface_rows(surface, context, width, viewport_rows)[0]), "Effort"@),
        (surface is Effort && !surface->Effort_toggle)
            ==> says(
                row_text(surface_rows(surface, context, width, viewport_rows)[0]),
                safe(surface->Effort_model@),
            ),
        (surface is Profiles && surface->Profiles_kind == ProfileKind::Agent)
            ==> says(row_text(surface_rows(surface, context, width, viewport_rows)[0]), "Agents"@),
        (surface is Profiles && surface->Profiles_kind == ProfileKind::Mode)
            ==> says(row_text(surface_rows(surface, context, width, viewport_rows)[0]), "Modes"@),
        surface is Skills
            ==> says(row_text(surface_rows(surface, context, width, viewport_rows)[0]), "Skills"@),
        surface is SkillDeleteConfirm
            ==> says(
                row_text(surface_rows(surface, context, width, viewport_rows)[0]),
                "Delete skill"@,
            ),
        surface is SkillDeleteConfirm
            ==> says(
                row_text(surface_rows(surface, context, width, viewport_rows)[0]),
                safe(surface->SkillDeleteConfirm_name@),
            ),
        surface is SkillWizard
            ==> says(
                row_text(surface_rows(surface, context, width, viewport_rows)[0]),
                "Add skill"@,
            ),
{
    let spans = surface_rows(surface, context, width, viewport_rows)[0].spans;
    lemma_span_said(spans, 1);
    if (surface is Effort && surface->Effort_toggle)
        || (surface is Effort && !surface->Effort_toggle) || surface is SkillDeleteConfirm {
        lemma_span_said(spans, 3);
    }
}

/// The first row of what is about servers says what it is, and what it is about.
#[verifier::rlimit(60)]
pub proof fn law_server_titles_are_told(
    surface: Surface,
    context: SurfaceContext,
    width: int,
    viewport_rows: int,
)
    requires
        surface is McpServers || surface is McpCatalog || surface is McpServer
            || surface is McpOAuth || surface is McpTools,
    ensures
        surface is McpServers
            ==> says(row_text(surface_rows(surface, context, width, viewport_rows)[0]), "MCP"@),
        surface is McpCatalog
            ==> says(
                row_text(surface_rows(surface, context, width, viewport_rows)[0]),
                "Add MCP from catalog"@,
            ),
        surface is McpServer
            ==> says(
                row_text(surface_rows(surface, context, width, viewport_rows)[0]),
                "MCP server"@,
            ),
        surface is McpServer
            ==> says(
                row_text(surface_rows(surface, context, width, viewport_rows)[0]),
                safe(surface->McpServer_server.name@),
            ),
        surface is McpOAuth
            ==> says(
                row_text(surface_rows(surface, context, width, viewport_rows)[0]),
                "Configure MCP"@,
            ),
        surface is McpOAuth
            ==> says(
                row_text(surface_rows(surface, context, width, viewport_rows)[0]),
                safe(surface->McpOAuth_label@),
            ),
        surface is McpTools
            ==> says(
                row_text(surface_rows(surface, context, width, viewport_rows)[0]),
                "MCP tools"@,
            ),
        surface is McpTools
            ==> says(
                row_text(surface_rows(surface, context, width, viewport_rows)[0]),
                safe(surface->McpTools_0.server@),
            ),
{
    let spans = surface_rows(surface, context, width, viewport_rows)[0].spans;
    lemma_span_said(spans, 1);
    if surface is McpServer || surface is McpOAuth || surface is McpTools {
        lemma_span_said(spans, 3);
    }
}

/// The first row of a form of a server says what it is, and what it is about.
#[verifier::rlimit(60)]
pub proof fn law_form_titles_are_told(
    surface: Surface,
    context: SurfaceContext,
    width: int,
    viewport_rows: int,
)
    requires
        surface is McpRemoveConfirm || surface is McpAddScope || surface is McpTransport
            || surface is McpForm || surface is McpFieldEdit || surface is McpMutationPreview,
    ensures
        surface is McpRemoveConfirm
            ==> says(
                row_text(surface_rows(surface, context, width, viewport_rows)[0]),
                "Remove MCP server"@,
            ),
        surface is McpRemoveConfirm
            ==> says(
                row_text(surface_rows(surface, context, width, viewport_rows)[0]),
                safe(surface->McpRemoveConfirm_server.name@),
            ),
        surface is McpAddScope
            ==> says(row_text(surface_rows(surface, context, width, viewport_rows)[0]), "Add MCP"@),
        surface is McpTransport
            ==> says(row_text(surface_rows(surface, context, width, viewport_rows)[0]), "Add MCP"@),
        (surface is McpForm && surface->McpForm_draft.original is None)
            ==> says(
                row_text(surface_rows(surface, context, width, viewport_rows)[0]),
                "Add MCP server"@,
            ),
        (surface is McpForm && surface->McpForm_draft.original is None)
            ==> says(
                row_text(surface_rows(surface, context, width, viewport_rows)[0]),
                safe(surface->McpForm_draft.name@),
            ),
        (surface is McpForm && surface->McpForm_draft.original is Some)
            ==> says(
                row_text(surface_rows(surface, context, width, viewport_rows)[0]),
                "Edit MCP server"@,
            ),
        (surface is McpForm && surface->McpForm_draft.original is Some)
            ==> says(
                row_text(surface_rows(surface, context, width, viewport_rows)[0]),
                safe(surface->McpForm_draft.name@),
            ),
        surface is McpFieldEdit
            ==> says(
                row_text(surface_rows(surface, context, width, viewport_rows)[0]),
                "MCP field"@,
            ),
        surface is McpMutationPreview
            ==> says(
                row_text(surface_rows(surface, context, width, viewport_rows)[0]),
                "MCP change preview"@,
            ),
{
    let spans = surface_rows(surface, context, width, viewport_rows)[0].spans;
    lemma_span_said(spans, 1);
    if surface is McpRemoveConfirm
        || (surface is McpForm && surface->McpForm_draft.original is None)
        || (surface is McpForm && surface->McpForm_draft.original is Some) {
        lemma_span_said(spans, 3);
    }
}

/// The first row of a package says what it is, and what it is about.
#[verifier::rlimit(60)]
pub proof fn law_package_titles_are_told(
    surface: Surface,
    context: SurfaceContext,
    width: int,
    viewport_rows: int,
)
    requires
        surface is McpPackageSetup || surface is McpPackageValueEdit,
    ensures
        (surface is McpPackageSetup && surface->McpPackageSetup_draft.installed)
            ==> says(
                row_text(surface_rows(surface, context, width, viewport_rows)[0]),
                "Configure MCP package"@,
            ),
        (surface is McpPackageSetup && surface->McpPackageSetup_draft.installed)
            ==> says(
                row_text(surface_rows(surface, context, width, viewport_rows)[0]),
                safe(surface->McpPackageSetup_draft.package_name@),
            ),
        (surface is McpPackageSetup && !surface->McpPackageSetup_draft.installed)
            ==> says(
                row_text(surface_rows(surface, context, width, viewport_rows)[0]),
                "Install MCP package"@,
            ),
        (surface is McpPackageSetup && !surface->McpPackageSetup_draft.installed)
            ==> says(
                row_text(surface_rows(surface, context, width, viewport_rows)[0]),
                safe(surface->McpPackageSetup_draft.package_name@),
            ),
        surface is McpPackageValueEdit
            ==> says(
                row_text(surface_rows(surface, context, width, viewport_rows)[0]),
                "MCP package value"@,
            ),
{
    let spans = surface_rows(surface, context, width, viewport_rows)[0].spans;
    lemma_span_said(spans, 1);
    if (surface is McpPackageSetup && surface->McpPackageSetup_draft.installed)
        || (surface is McpPackageSetup && !surface->McpPackageSetup_draft.installed) {
        lemma_span_said(spans, 3);
    }
}

/// The first row of settings and work says what it is, and what it is about.
#[verifier::rlimit(60)]
pub proof fn law_view_titles_are_told(
    surface: Surface,
    context: SurfaceContext,
    width: int,
    viewport_rows: int,
)
    requires
        surface is StatusLine || surface is Settings || surface is SupervisedWork
            || surface is KillSupervisedWork || surface is Paths,
    ensures
        surface is StatusLine
            ==> says(
                row_text(surface_rows(surface, context, width, viewport_rows)[0]),
                "Statusline"@,
            ),
        surface is Settings
            ==> says(row_text(surface_rows(surface, context, width, viewport_rows)[0]), "Settings"@),
        (surface is SupervisedWork && surface->SupervisedWork_0.show_past)
            ==> says(
                row_text(surface_rows(surface, context, width, viewport_rows)[0]),
                "Background work"@,
            ),
        (surface is SupervisedWork && surface->SupervisedWork_0.show_past)
            ==> says(
                row_text(surface_rows(surface, context, width, viewport_rows)[0]),
                safe("past"@),
            ),
        (surface is SupervisedWork && !surface->SupervisedWork_0.show_past)
            ==> says(
                row_text(surface_rows(surface, context, width, viewport_rows)[0]),
                "Background work"@,
            ),
        (surface is SupervisedWork && !surface->SupervisedWork_0.show_past)
            ==> says(
                row_text(surface_rows(surface, context, width, viewport_rows)[0]),
                safe("active"@),
            ),
        surface is KillSupervisedWork
            ==> says(
                row_text(surface_rows(surface, context, width, viewport_rows)[0]),
                "Kill background work"@,
            ),
        surface is Paths
            ==> says(row_text(surface_rows(surface, context, width, viewport_rows)[0]), "Path"@),
{
    let spans = surface_rows(surface, context, width, viewport_rows)[0].spans;
    lemma_span_said(spans, 1);
    if (surface is SupervisedWork && surface->SupervisedWork_0.show_past)
        || (surface is SupervisedWork && !surface->SupervisedWork_0.show_past) {
        lemma_span_said(spans, 3);
    }
}

/// The first row of a picker says what it is, and what it is about.
#[verifier::rlimit(60)]
pub proof fn law_picker_titles_are_told(
    surface: Surface,
    context: SurfaceContext,
    width: int,
    viewport_rows: int,
)
    requires
        surface is HistoryTree || surface is Conversations || surface is Help,
    ensures
        (surface is HistoryTree && surface->HistoryTree_0.purpose == TreePurpose::Fork)
            ==> says(row_text(surface_rows(surface, context, width, viewport_rows)[0]), "Fork"@),
        (surface is HistoryTree && surface->HistoryTree_0.purpose != TreePurpose::Fork)
            ==> says(
                row_text(surface_rows(surface, context, width, viewport_rows)[0]),
                "Conversation tree"@,
            ),
        surface is Conversations
            ==> says(row_text(surface_rows(surface, context, width, viewport_rows)[0]), "Resume"@),
        surface is Help
            ==> says(row_text(surface_rows(surface, context, width, viewport_rows)[0]), "Help"@),
{
    let spans = surface_rows(surface, context, width, viewport_rows)[0].spans;
    lemma_span_said(spans, 1);
}

} // verus!
