//! What the rows of lists say of what they stand for.

use vstd::prelude::*;
use vstd::string::*;
use crate::agents::{ProfileRow, SkillRow};
use crate::interaction::PermissionScope;
use crate::mcp::McpScope;
use crate::mcp_package::{McpPackageSecret, McpParameterValue};
use crate::menu::{option_line, single_line_choice};
use crate::pickers::ConversationRow;
use crate::providers::{ModelRow, WebSearchProvider, WebSearchRow};
use crate::render::{ellipsized, safe};
use crate::render_mcp::{
    login_line, parameter_status, scope_name, secret_status, server_line, tool_line, McpOAuthPrompt,
    McpServerRow, McpToolRow,
};
use crate::render_menus::{
    effect_label, profile_line, rule_line, skill_line, usage_line, work_line, PermissionEffect,
    PermissionMenuRow, UsageSummary,
};
use crate::render_pickers::{
    breakdown_item, conversation_items, conversation_line, help_line, UsageBreakdown,
};
use crate::render_settings::{module_line, setting_item, StatusLineTexts};
use crate::render_setup::{effort_label, fallback_line, model_items, model_line, web_choice};
use crate::settings::SettingRow;
use crate::shown::{
    lemma_one_span, lemma_said_within, lemma_span_said, lemma_spans_text_concat, row_text, says,
    spans_text,
};
use crate::status_line::{StatusLineCatalog, StatusLineConfig, StatusLineModule};
use crate::style::{LineView, SpanView};
use crate::supervised_work::SupervisedWork;
use crate::unicode::display_width;

verus! {

/// Whether a row is marked as the selected one.
pub open spec fn marked(row: LineView) -> bool {
    row_text(row).len() > 0 && row_text(row)[0] == '\u{203a}'
}

/// What stands in the middle of a span is said by the row.
pub proof fn lemma_part_said(
    spans: Seq<SpanView>,
    at: int,
    head: Seq<char>,
    part: Seq<char>,
    tail: Seq<char>,
)
    requires
        0 <= at < spans.len(),
        spans[at].text == head + part + tail,
    ensures
        says(spans_text(spans), part),
{
    lemma_span_said(spans, at);
    assert(says(spans[at].text, part));
    lemma_said_within(spans_text(spans), spans[at].text, part);
}

/// A row starts with what its first span says.
pub proof fn lemma_starts_with(spans: Seq<SpanView>)
    requires
        spans.len() > 0,
    ensures
        spans[0].text.is_prefix_of(spans_text(spans)),
{
    let rest = spans.skip(1);
    assert(spans =~= seq![spans[0]] + rest);
    lemma_spans_text_concat(seq![spans[0]], rest);
    lemma_one_span(spans[0]);
    assert(spans[0].text =~= spans_text(spans).take(spans[0].text.len() as int));
}

proof fn lemma_marked(row: LineView, selected: bool)
    requires
        row.spans.len() > 0,
        row.spans[0].text == (if selected { "\u{203a} "@ } else { "  "@ }),
    ensures
        marked(row) == selected,
{
    reveal_strlit("\u{203a} ");
    reveal_strlit("  ");
    lemma_starts_with(row.spans);
    assert(row_text(row)[0] == row.spans[0].text[0]);
}

/// A model is listed under its label and detail, with what is in use and what is a
/// favourite told apart from the rest.
pub proof fn law_models_are_told(selected: bool, row: ModelRow)
    ensures
        says(row_text(model_line(selected, row)), safe(row.label@)),
        says(row_text(model_line(selected, row)), safe(row.detail@)),
        row.current ==> says(row_text(model_line(selected, row)), "current"@),
        row.favourite ==> says(row_text(model_line(selected, row)), "\u{2605}"@),
        marked(model_line(selected, row)) == selected,
        !row.current && !row.favourite ==> model_line(selected, row).spans.len() == 3,
        row.current != row.favourite ==> model_line(selected, row).spans.len() == 5,
        row.current && row.favourite ==> model_line(selected, row).spans.len() == 7,
{
    let spans = model_line(selected, row).spans;
    lemma_span_said(spans, 1);
    lemma_part_said(spans, 2, "  "@, safe(row.detail@), Seq::empty());
    lemma_marked(model_line(selected, row), selected);
    if row.current {
        lemma_span_said(spans, 4);
    }
    if row.favourite {
        lemma_span_said(spans, spans.len() - 1);
    }
}

/// Each model that a search leaves is listed at its place, and the one under the cursor is
/// marked.
pub proof fn law_found_models_are_listed(
    rows: Seq<ModelRow>,
    visible: Seq<usize>,
    selected: Option<usize>,
    i: int,
)
    requires
        0 <= i < visible.len() <= usize::MAX,
    ensures
        model_items(rows, visible, selected).len() == visible.len(),
        says(
            row_text(model_items(rows, visible, selected)[i]),
            safe(rows[visible[i] as int].label@),
        ),
        marked(model_items(rows, visible, selected)[i]) == (selected == Some(i as usize)),
{
    law_models_are_told(selected == Some(i as usize), rows[visible[i] as int]);
}

/// A conversation is listed with its age, its title as far as there is room, how many
/// messages it has, and its model; an archived one is told to be archived, and a favourite
/// has a star.
pub proof fn law_conversations_are_told(
    row: ConversationRow,
    position: int,
    selected: bool,
    width: int,
)
    ensures
        ({
            let spans = conversation_line(row, position, selected, width).spans;
            let text = spans_text(spans);
            &&& row.favourite ==> spans.len() == 6 && spans[4].text == " \u{2605}"@
            &&& !row.favourite ==> spans.len() == 5
            &&& row.model matches Some(model) ==> spans[3].text == model@
            &&& row.model is None ==> spans[3].text == "no model"@
            &&& says(text, crate::render::decimal(row.message_count as nat))
            &&& says(spans[0].text, row.timestamp@)
            &&& text.len() > 1
            &&& (text[1] == '\u{203a}') == selected
            &&& row.archived ==> exists|limit: int|
                spans[1].text == #[trigger] ellipsized(row.title@ + " (archived)"@, limit) + "  "@
            &&& !row.archived ==> exists|limit: int|
                spans[1].text == #[trigger] ellipsized(row.title@, limit) + "  "@
        }),
{
    reveal_strlit("\u{203a}");
    reveal_strlit(" ");
    let spans = conversation_line(row, position, selected, width).spans;
    lemma_starts_with(spans);
    let count = crate::render::decimal(row.message_count as nat);
    let unit = if row.message_count == 1 { " message"@ } else { " messages"@ };
    assert(spans[2].text =~= Seq::<char>::empty() + count + (unit + "  "@));
    lemma_part_said(spans, 2, Seq::empty(), count, unit + "  "@);
    let head = spans[0].text;
    assert(head[1] == (if selected { '\u{203a}' } else { ' ' }));
    assert(spans_text(spans)[1] == head[1]);
    let filled = crate::render_pickers::right_aligned(row.timestamp@, 7);
    let pad = filled.take(filled.len() - row.timestamp@.len());
    assert(filled =~= pad + row.timestamp@);
    let start = " "@ + (if selected { "\u{203a}"@ } else { " "@ }) + " "@;
    assert(head =~= (start + pad) + row.timestamp@ + "  "@);
}

/// Each conversation that a search finds is listed at its place, and the one under the cursor
/// is marked.
pub proof fn law_found_conversations_are_listed(
    rows: Seq<ConversationRow>,
    visible: Seq<usize>,
    selected: Option<usize>,
    width: int,
    i: int,
)
    requires
        0 <= i < visible.len() <= usize::MAX,
    ensures
        conversation_items(rows, visible, selected, width).len() == visible.len(),
        says(
            spans_text(conversation_items(rows, visible, selected, width)[i].spans),
            rows[visible[i] as int].timestamp@,
        ),
        (row_text(conversation_items(rows, visible, selected, width)[i])[1] == '\u{203a}') == (
        selected == Some(i as usize)),
{
    let row = rows[visible[i] as int];
    law_conversations_are_told(row, i, selected == Some(i as usize), width);
    let spans = conversation_items(rows, visible, selected, width)[i].spans;
    lemma_span_said(spans, 0);
    lemma_said_within(spans_text(spans), spans[0].text, row.timestamp@);
}

/// A setting is listed with its label and the value that holds, and on the row below with
/// what it is for; one that differs from its default is told to be overridden.
pub proof fn law_settings_are_told(row: SettingRow, selected: bool)
    ensures
        setting_item(row, selected).len() == 2,
        says(row_text(setting_item(row, selected)[0]), row.definition.label@),
        says(row_text(setting_item(row, selected)[0]), row.display_value@),
        says(row_text(setting_item(row, selected)[1]), safe(row.definition.description@)),
        row.explicit_value is Some ==> says(
            row_text(setting_item(row, selected)[1]),
            "overridden"@,
        ),
        row.explicit_value is None ==> setting_item(row, selected)[1].spans.len() == 2,
        says(
            row_text(setting_item(row, selected)[0]),
            if selected { "\u{25cf}"@ } else { "\u{25cb}"@ },
        ),
{
    let first = setting_item(row, selected)[0].spans;
    let second = setting_item(row, selected)[1].spans;
    let mark = if selected { "\u{25cf}"@ } else { "\u{25cb}"@ };
    assert(first[1].text =~= (mark + " "@) + row.definition.label@ + Seq::<char>::empty());
    lemma_part_said(first, 1, mark + " "@, row.definition.label@, Seq::empty());
    assert(first[1].text =~= Seq::<char>::empty() + mark + (" "@ + row.definition.label@));
    lemma_part_said(first, 1, Seq::empty(), mark, " "@ + row.definition.label@);
    lemma_span_said(first, 3);
    lemma_span_said(second, second.len() - 1);
    if row.explicit_value is Some {
        lemma_span_said(second, 1);
    }
}

/// A module of the status line is listed with its name, and told to be shown or not.
pub proof fn law_modules_are_told(
    texts: StatusLineTexts,
    config: StatusLineConfig,
    catalog: StatusLineCatalog,
    module: StatusLineModule,
    selected: bool,
)
    ensures
        ({
            let row = module_line(texts, config, catalog, module, selected);
            &&& says(row_text(row), texts.names@[module.index as int]@)
            &&& says(row_text(row), texts.descriptions@[module.index as int]@)
            &&& (row.spans[1].text == "\u{25cf}"@) == config.modules@.contains(module)
        }),
{
    reveal_strlit("\u{25cf}");
    reveal_strlit("\u{25cb}");
    assert("\u{25cf}"@[0] == '\u{25cf}' && "\u{25cb}"@[0] == '\u{25cb}');
    let spans = module_line(texts, config, catalog, module, selected).spans;
    lemma_span_said(spans, 3);
    lemma_span_said(spans, 5);
}

/// A piece of work is listed with who does it and how far it is, as far as there is room, and
/// with its task or command.
pub proof fn law_work_is_told(work: SupervisedWork, selected: bool, width: int)
    ensures
        marked(work_line(work, selected, width)) == selected,
        work matches SupervisedWork::Agent { run } ==> exists|label: Seq<char>|
            work_line(work, selected, width) == #[trigger] single_line_choice(
                selected,
                label,
                run.task@,
                width,
            ),
        work matches SupervisedWork::Terminal { terminal } ==> exists|label: Seq<char>|
            work_line(work, selected, width) == #[trigger] single_line_choice(
                selected,
                label,
                terminal.command@,
                width,
            ),
{
    lemma_marked(work_line(work, selected, width), selected);
}

/// A choice on one row says its label and its detail where there is room for both.
pub proof fn law_single_rows_say_their_labels(
    selected: bool,
    label: Seq<char>,
    detail: Seq<char>,
    width: int,
)
    requires
        detail.len() > 0,
        safe(detail).len() > 0,
        display_width("  "@) == 2,
        display_width("\u{203a} "@) == 2,
        display_width(safe(label)) + display_width(safe(detail)) + 16 <= width,
    ensures
        says(row_text(single_line_choice(selected, label, detail, width)), safe(label)),
        says(row_text(single_line_choice(selected, label, detail, width)), safe(detail)),
        marked(single_line_choice(selected, label, detail, width)) == selected,
{
    let row = single_line_choice(selected, label, detail, width);
    lemma_span_said(row.spans, 1);
    lemma_part_said(row.spans, 2, "  "@, safe(detail), Seq::empty());
    lemma_marked(row, selected);
}

/// An agent or a mode is listed with its name and what it is for.
pub proof fn law_profiles_are_told(row: ProfileRow, selected: bool)
    ensures
        says(row_text(profile_line(row, selected)), safe(row.name@)),
        row.detail@.len() > 0 ==> says(row_text(profile_line(row, selected)), safe(row.detail@)),
        marked(profile_line(row, selected)) == selected,
{
    let spans = profile_line(row, selected).spans;
    lemma_span_said(spans, 1);
    if row.detail@.len() > 0 {
        lemma_part_said(spans, 2, "  "@, safe(row.detail@), Seq::empty());
    }
    lemma_marked(profile_line(row, selected), selected);
}

/// A skill is listed with its name, where it comes from, and what it is for.
pub proof fn law_skills_are_told(row: SkillRow, selected: bool)
    ensures
        says(row_text(skill_line(row, selected)), safe(row.name@)),
        says(row_text(skill_line(row, selected)), row.source@),
        says(row_text(skill_line(row, selected)), safe(row.description@)),
        marked(skill_line(row, selected)) == selected,
{
    let spans = skill_line(row, selected).spans;
    lemma_span_said(spans, 1);
    let text = spans[2].text;
    assert(text =~= "  "@ + row.source@ + (" \u{b7} "@ + safe(row.description@)));
    lemma_part_said(spans, 2, "  "@, row.source@, " \u{b7} "@ + safe(row.description@));
    assert(text =~= ("  "@ + row.source@ + " \u{b7} "@) + safe(row.description@)
        + Seq::<char>::empty());
    lemma_part_said(
        spans,
        2,
        "  "@ + row.source@ + " \u{b7} "@,
        safe(row.description@),
        Seq::empty(),
    );
    lemma_marked(skill_line(row, selected), selected);
}

/// A rule is listed with how far it reaches, what it does and what it is about.
pub proof fn law_rules_are_told(row: PermissionMenuRow, selected: bool)
    ensures
        says(row_text(rule_line(row, selected)), effect_label(row.effect)),
        row.pattern is Some ==> says(row_text(rule_line(row, selected)), row.pattern->0@),
        row.scope == PermissionScope::Project ==> says(
            row_text(rule_line(row, selected)),
            "project"@,
        ),
        row.scope == PermissionScope::Global ==> says(
            row_text(rule_line(row, selected)),
            "global"@,
        ),
        !row.external && row.tool is Some ==> says(
            row_text(rule_line(row, selected)),
            row.tool->0@,
        ),
        marked(rule_line(row, selected)) == selected,
        effect_label(PermissionEffect::Allow) == "allow"@,
        effect_label(PermissionEffect::Deny) == "deny"@,
        effect_label(PermissionEffect::Ask) == "ask"@,
{
    let spans = rule_line(row, selected).spans;
    let reach = row.scope.label_spec();
    let effect = effect_label(row.effect);
    let about = crate::render_menus::rule_resource(row);
    let dot = " \u{b7} "@;
    let text = spans[1].text;
    assert(text =~= (reach + dot) + effect + (dot + about));
    lemma_part_said(spans, 1, reach + dot, effect, dot + about);
    assert(text =~= Seq::<char>::empty() + reach + (dot + effect + dot + about));
    lemma_part_said(spans, 1, Seq::empty(), reach, dot + effect + dot + about);
    assert(text =~= (reach + dot + effect + dot) + about + Seq::<char>::empty());
    lemma_part_said(spans, 1, reach + dot + effect + dot, about, Seq::empty());
    if row.pattern is Some {
        lemma_part_said(spans, 2, "  "@, row.pattern->0@, Seq::empty());
    }
    lemma_marked(rule_line(row, selected), selected);
}

/// A server is listed with its name, where it is set up, for whom, and how it fares; a tool
/// with its name and whether it only reads.
pub proof fn law_servers_are_told(row: McpServerRow, selected: bool)
    ensures
        says(row_text(server_line(row, selected)), row.name@),
        says(row_text(server_line(row, selected)), scope_name(row.scope)),
        says(row_text(server_line(row, selected)), row.status_text@),
        row.agents@.len() == 0 ==> says(row_text(server_line(row, selected)), "All"@),
        marked(server_line(row, selected)) == selected,
        scope_name(McpScope::Global) == "Global"@,
        scope_name(McpScope::Project) == "Project"@,
        scope_name(McpScope::Agent) == "Agent"@,
{
    let spans = server_line(row, selected).spans;
    let dot = " \u{b7} "@;
    let scope = scope_name(row.scope);
    let whom = crate::render_mcp::assignments(row.agents@);
    lemma_span_said(spans, 1);
    lemma_span_said(spans, 3);
    assert(spans[2].text =~= "  "@ + scope + (dot + whom + dot));
    lemma_part_said(spans, 2, "  "@, scope, dot + whom + dot);
    assert(spans[2].text =~= ("  "@ + scope + dot) + whom + dot);
    lemma_part_said(spans, 2, "  "@ + scope + dot, whom, dot);
    lemma_marked(server_line(row, selected), selected);
}

/// A tool of a server is listed with its name and what it is for, and told to be read-only
/// if and only if it is.
pub proof fn law_tools_are_told(tool: McpToolRow, selected: bool)
    ensures
        says(row_text(tool_line(tool, selected)), tool.name@),
        tool.description@.len() > 0 ==> says(row_text(tool_line(tool, selected)), tool.description@),
        tool.read_only ==> says(row_text(tool_line(tool, selected)), " \u{b7} read-only"@),
        !tool.read_only ==> tool_line(tool, selected).spans.len() <= 2,
{
    let spans = tool_line(tool, selected).spans;
    let pointer = if selected { "\u{203a}"@ } else { " "@ };
    assert(spans[0].text =~= (pointer + " "@) + tool.name@ + Seq::<char>::empty());
    lemma_part_said(spans, 0, pointer + " "@, tool.name@, Seq::empty());
    if tool.description@.len() > 0 {
        lemma_part_said(spans, 1, "  "@, tool.description@, Seq::empty());
    }
    if tool.read_only {
        lemma_span_said(spans, spans.len() - 1);
    }
}

/// A provider of web search is listed with its name, and told to be active, ready, or not
/// set up.
pub proof fn law_web_searches_are_told(row: WebSearchRow, selected: bool)
    ensures
        says(row_text(web_choice(row, selected)), row.display_name@),
        row.active ==> says(row_text(web_choice(row, selected)), "  active"@),
        row.ready && !row.active ==> says(row_text(web_choice(row, selected)), "  ready"@),
        !row.ready && row.provider != WebSearchProvider::Chatgpt ==> says(
            row_text(web_choice(row, selected)),
            " \u{b7} not setup"@,
        ),
        !row.ready && row.provider == WebSearchProvider::Chatgpt ==> says(
            row_text(web_choice(row, selected)),
            " \u{b7} subscription required"@,
        ),
        marked(web_choice(row, selected)) == selected,
{
    let spans = web_choice(row, selected).spans;
    lemma_span_said(spans, 1);
    lemma_span_said(spans, spans.len() - 1);
    if row.active {
        lemma_span_said(spans, 2);
    }
    lemma_marked(web_choice(row, selected), selected);
}

/// Where a login waits, its address is told, and the code where one is to be entered.
pub proof fn law_logins_are_told(prompt: McpOAuthPrompt)
    ensures
        prompt matches McpOAuthPrompt::Device { verification_url, user_code } ==> says(
            row_text(login_line(prompt)),
            safe(verification_url@),
        ) && says(row_text(login_line(prompt)), safe(user_code@)),
        prompt matches McpOAuthPrompt::Browser { authorization_url } ==> says(
            row_text(login_line(prompt)),
            safe(authorization_url@),
        ),
{
    let spans = login_line(prompt).spans;
    lemma_span_said(spans, 1);
    if prompt is Device {
        lemma_span_said(spans, 3);
    }
}

/// A secret of a package is told to be configured or not, and never shown; a value is shown
/// as it is.
pub proof fn law_secrets_are_not_told(
    secret: McpPackageSecret,
    update: Option<String>,
    other: Option<String>,
    value: Option<McpParameterValue>,
)
    ensures
        update matches Some(text) ==> (secret_status(secret, update) == "Configured"@) == (
        text@.len() > 0),
        update is None ==> (secret_status(secret, update) == "Configured"@) == secret.configured,
        update is Some && other is Some && (update->0@.len() > 0) == (other->0@.len() > 0)
            ==> secret_status(secret, update) == secret_status(secret, other),
        value is None ==> parameter_status(value) == "Not set"@,
        value matches Some(McpParameterValue::Text(text)) ==> parameter_status(value) == text@,
        value matches Some(McpParameterValue::Boolean(on)) ==> parameter_status(value) == (if on {
            "true"@
        } else {
            "false"@
        }),
{
    reveal_strlit("Configured");
    reveal_strlit("Not configured");
    assert("Configured"@.len() == 10 && "Not configured"@.len() == 14);
}

/// How much was used stands behind what it is told of.
pub proof fn law_usage_is_told(label: Seq<char>, usage: UsageSummary, row: UsageBreakdown)
    ensures
        says(row_text(usage_line(label, usage)), label),
        says(row_text(usage_line(label, usage)), crate::render::decimal(usage.calls as nat)),
        breakdown_item(row, true).len() == 2,
        says(row_text(breakdown_item(row, true)[0]), row.label@),
        says(row_text(breakdown_item(row, false)[0]), row.label@),
        marked(breakdown_item(row, true)[0]),
        !marked(breakdown_item(row, false)[0]),
        usage.input is Some ==> says(row_text(usage_line(label, usage)), usage.input->0@),
        usage.output is Some ==> says(row_text(usage_line(label, usage)), usage.output->0@),
        usage.cost matches Some((amount, currency)) ==> says(
            row_text(usage_line(label, usage)),
            amount@,
        ),
{
    let spans = usage_line(label, usage).spans;
    let fill = crate::render::spaces(crate::menu::less(20, label.len() as int));
    assert(spans[0].text =~= "  "@ + label + fill);
    lemma_part_said(spans, 0, "  "@, label, fill);
    let text = crate::render_menus::usage_text(usage);
    let calls = crate::render::decimal(usage.calls as nat);
    lemma_part_said(spans, 1, "  "@, text, Seq::empty());
    assert(text =~= Seq::<char>::empty() + calls + text.skip(calls.len() as int));
    lemma_said_within(spans_text(spans), text, calls);
    lemma_usage_parts(usage);
    if usage.input is Some {
        lemma_said_within(spans_text(spans), text, usage.input->0@);
    }
    if usage.output is Some {
        lemma_said_within(spans_text(spans), text, usage.output->0@);
    }
    if let Some((amount, currency)) = usage.cost {
        lemma_said_within(spans_text(spans), text, amount@);
    }
    lemma_span_said(breakdown_item(row, true)[0].spans, 1);
    lemma_span_said(breakdown_item(row, false)[0].spans, 1);
    lemma_marked(breakdown_item(row, true)[0], true);
    lemma_marked(breakdown_item(row, false)[0], false);
}

proof fn lemma_usage_parts(usage: UsageSummary)
    ensures
        usage.input is Some ==> says(crate::render_menus::usage_text(usage), usage.input->0@),
        usage.output is Some ==> says(crate::render_menus::usage_text(usage), usage.output->0@),
        usage.cost matches Some((amount, currency)) ==> says(
            crate::render_menus::usage_text(usage),
            amount@,
        ),
{
    let text = crate::render_menus::usage_text(usage);
    let calls = crate::render::decimal(usage.calls as nat);
    let a = calls + " calls \u{b7} in "@;
    let input = crate::render_menus::known_or_dash(usage.input);
    let b = " \u{b7} cache r:"@ + crate::render_menus::known_or_dash(usage.cache_read) + " w:"@
        + crate::render_menus::known_or_dash(usage.cache_write) + " \u{b7} out "@;
    let output = crate::render_menus::known_or_dash(usage.output);
    let counts = a + input + b + output;
    let rest = text.skip(counts.len() as int);
    assert(text =~= a + input + (b + output + rest));
    assert(text =~= (a + input + b) + output + rest);
    if let Some((amount, currency)) = usage.cost {
        if currency@ == "USD"@ {
            assert(text =~= (counts + " \u{b7} $"@) + amount@ + Seq::<char>::empty());
        } else {
            assert(text =~= (counts + " \u{b7} "@) + amount@ + (" "@ + currency@));
        }
    }
}

/// A line of the help says the command or the key, and what it does where there is room.
pub proof fn law_help_is_told(row: (String, String), width: int)
    ensures
        says(row_text(help_line(row, width)), safe(row.0@)),
        0 <= width && display_width(safe(row.0@)) + display_width(safe(row.1@)) + 4 <= width
            <= usize::MAX ==> says(row_text(help_line(row, width)), safe(row.1@)),
{
    let spans = help_line(row, width).spans;
    lemma_span_said(spans, 1);
    lemma_span_said(spans, 3);
}

/// An option of a question says its label on its first row, and is marked there if and only
/// if it is selected.
pub proof fn law_options_are_told(
    selected: bool,
    label: Seq<char>,
    description: Seq<char>,
    label_width: int,
)
    ensures
        says(row_text(option_line(selected, true, label, description, label_width)), label),
        says(row_text(option_line(selected, true, label, description, label_width)), description),
        says(row_text(option_line(selected, false, label, description, label_width)), description),
        marked(option_line(selected, true, label, description, label_width)) == selected,
{
    let first = option_line(selected, true, label, description, label_width);
    let rest = option_line(selected, false, label, description, label_width);
    lemma_span_said(first.spans, 1);
    lemma_span_said(first.spans, 3);
    lemma_span_said(rest.spans, 1);
    lemma_marked(first, selected);
}

/// An effort is told by its own name, but for being on or off; and a variable that stands in
/// for what is not configured is named.
pub proof fn law_efforts_are_told(effort: Seq<char>, variable: Seq<char>)
    ensures
        effort != "off"@ && effort != "on"@ ==> effort_label(effort) == effort,
        effort_label("off"@) == "Off"@,
        effort_label("on"@) == "On"@,
        says(row_text(fallback_line(variable)), variable),
{
    reveal_strlit("off");
    reveal_strlit("on");
    assert("off"@.len() == 3 && "on"@.len() == 2);
    lemma_span_said(fallback_line(variable).spans, 1);
}

} // verus!
