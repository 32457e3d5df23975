//! What a permission prompt tells: who asks, what is to be run, and what can be answered.

use vstd::prelude::*;
use vstd::string::*;
use crate::code_lines::{line_tokens, token_spans, tokens_end, TokenView};
use crate::control::SurfaceKey;
use crate::file_rows::{lemma_source_len, source_of};
use crate::input_syntax::CodeToken;
use crate::interaction::{
    given, text_view, ApprovalChoice, Decision, Permission, PermissionScope, PermissionStep,
};
use crate::key::KeyCode;
use crate::lines::{lemma_before_first_char, lines_of, parts, without_return};
use crate::list::{indicator_line, settled};
use crate::menu::choices_of;
use crate::menu_laws::{
    items_text, law_choices_say_their_labels, law_lists_say_their_items, lemma_item_said,
};
use crate::multiline_input::{first_char, lemma_first_char};
use crate::permission::{
    choice_rows, choices_widget, command_line, command_rows, permission_prefix, permission_rows,
    permission_suffix, prompt_line, request_detail, PermissionRequest,
};
use crate::render::{safe, wrapped_line};
use crate::shown::{
    law_safe_texts_join, law_wrapped_lines_say_the_same, lemma_one_span, lemma_rows_text_concat,
    lemma_said_within, lemma_span_said, lemma_spans_text_concat, row_text, rows_text, says,
    spans_text, whole,
};
use crate::style::{blank_line, LineView};

verus! {

/// Lines with a line feed behind each.
pub open spec fn ended(lines: Seq<Seq<char>>) -> Seq<char>
    decreases lines.len(),
{
    if lines.len() == 0 {
        Seq::empty()
    } else {
        ended(lines.drop_last()) + lines.last() + seq!['\n']
    }
}

proof fn lemma_ended_first(first: Seq<char>, rest: Seq<Seq<char>>)
    ensures
        ended(seq![first] + rest) == first + seq!['\n'] + ended(rest),
    decreases rest.len(),
{
    let all = seq![first] + rest;
    if rest.len() == 0 {
        assert(all.drop_last() =~= Seq::empty());
        assert(ended(all.drop_last()) =~= Seq::empty());
        assert(ended(all) =~= first + seq!['\n'] + ended(rest));
    } else {
        lemma_ended_first(first, rest.drop_last());
        assert(all.drop_last() =~= seq![first] + rest.drop_last());
        assert(ended(all) =~= first + seq!['\n'] + ended(rest));
    }
}

proof fn lemma_parts_ended(text: Seq<char>)
    ensures
        ended(parts(text)) == text + seq!['\n'],
        parts(text).len() > 0,
    decreases text.len(),
{
    let at = first_char(text, '\n');
    lemma_first_char(text, '\n');
    lemma_before_first_char(text, '\n');
    if at < text.len() {
        lemma_parts_ended(text.skip(at + 1));
        lemma_ended_first(text.take(at), parts(text.skip(at + 1)));
        assert(text + seq!['\n'] =~= text.take(at) + seq!['\n'] + (text.skip(at + 1) + seq!['\n']));
    } else {
        assert(seq![text].drop_last() =~= Seq::empty());
        assert(ended(seq![text].drop_last()) =~= Seq::empty());
        assert(ended(seq![text]) =~= text + seq!['\n']);
    }
}

/// The lines of a text make up the text: each with a line feed behind it, and a line feed
/// only the last line may lack.
pub proof fn law_lines_make_up_the_text(text: Seq<char>)
    requires
        !text.contains('\r'),
    ensures
        ended(lines_of(text)) == (if text.len() == 0 || text.last() == '\n' {
            text
        } else {
            text + seq!['\n']
        }),
{
    let rows = parts(text);
    lemma_parts_ended(text);
    assert forall|i: int| 0 <= i < rows.len() implies without_return(#[trigger] rows[i])
        == rows[i] by {
        lemma_part_of(text, i);
    }
    let whole_rows = rows.drop_last();
    assert(whole_rows.map_values(|row: Seq<char>| without_return(row)) =~= whole_rows) by {
        assert forall|i: int| 0 <= i < whole_rows.len() implies without_return(whole_rows[i])
            == whole_rows[i] by {
            assert(whole_rows[i] == rows[i]);
        }
    }
    assert(rows =~= whole_rows.push(rows.last()));
    assert(ended(rows) == ended(whole_rows) + rows.last() + seq!['\n']);
    if rows.last().len() == 0 {
        assert(rows.last() =~= Seq::empty());
        assert(ended(whole_rows) =~= text) by {
            assert(ended(whole_rows) + seq!['\n'] =~= text + seq!['\n']);
            assert((ended(whole_rows) + seq!['\n']).drop_last() =~= ended(whole_rows));
            assert((text + seq!['\n']).drop_last() =~= text);
        }
        lemma_ends_with_feed(whole_rows);
    } else {
        lemma_part_of(text, rows.len() - 1);
        assert(text =~= ended(whole_rows) + rows.last()) by {
            let all = ended(whole_rows) + rows.last();
            assert(ended(rows) =~= all + seq!['\n']);
            assert((all + seq!['\n']).drop_last() =~= all);
            assert((text + seq!['\n']).drop_last() =~= text);
        }
        assert(text.last() == rows.last().last());
        assert(rows.last()[rows.last().len() - 1] != '\n');
    }
}

proof fn lemma_ends_with_feed(lines: Seq<Seq<char>>)
    ensures
        ended(lines).len() == 0 || ended(lines).last() == '\n',
{
}

/// A part of a text holds only what the text holds, and no line feed.
proof fn lemma_part_of(text: Seq<char>, index: int)
    requires
        0 <= index < parts(text).len(),
        !text.contains('\r'),
    ensures
        without_return(parts(text)[index]) == parts(text)[index],
        forall|i: int| 0 <= i < parts(text)[index].len() ==> parts(text)[index][i] != '\n',
    decreases text.len(),
{
    let at = first_char(text, '\n');
    lemma_first_char(text, '\n');
    lemma_before_first_char(text, '\n');
    if at < text.len() {
        let rest = text.skip(at + 1);
        assert(!rest.contains('\r')) by {
            assert forall|i: int| 0 <= i < rest.len() implies rest[i] != '\r' by {
                assert(rest[i] == text[i + at + 1]);
                assert(text.contains(text[i + at + 1]));
            }
        }
        if index > 0 {
            lemma_part_of(rest, index - 1);
            assert(parts(text)[index] == parts(rest)[index - 1]);
        } else {
            assert(parts(text)[0] == text.take(at));
            assert forall|i: int| 0 <= i < at implies text.take(at)[i] != '\r' by {
                assert(text.contains(text[i]));
            }
        }
    } else {
        assert forall|i: int| 0 <= i < text.len() implies text[i] != '\r' by {
            assert(text.contains(text[i]));
        }
    }
}

/// Whether the tokens of each line of a text make up the line.
pub open spec fn tokens_tell(tokens: Seq<Vec<CodeToken>>, texts: Seq<Seq<char>>) -> bool {
    forall|i: int|
        0 <= i < texts.len() ==> source_of(line_tokens(tokens, i, #[trigger] texts[i])) == texts[i]
}

/// Some lines as a command is told: each behind a bar, and safe to show.
pub open spec fn told(texts: Seq<Seq<char>>, count: int) -> Seq<char>
    decreases count,
{
    if count <= 0 {
        Seq::empty()
    } else {
        told(texts, count - 1) + ("  \u{2502} "@ + safe(texts[count - 1]))
    }
}

/// Tokens that are shown whole say their text.
pub proof fn lemma_tokens_say(tokens: Seq<TokenView>, count: int, end: int)
    requires
        0 <= count <= tokens.len(),
        tokens_end(tokens, count) <= end,
    ensures
        spans_text(token_spans(tokens, count, 0, end, false)) == safe(
            source_of(tokens.take(count)),
        ),
    decreases count,
{
    if count > 0 {
        lemma_ends_grow(tokens, count - 1);
        lemma_tokens_say(tokens, count - 1, end);
        let token = tokens[count - 1];
        let before = token_spans(tokens, count - 1, 0, end, false);
        assert(tokens.take(count).drop_last() =~= tokens.take(count - 1));
        law_safe_texts_join(source_of(tokens.take(count - 1)), token.text);
        assert(token.text.subrange(0, token.text.len() as int) =~= token.text);
        let spans = token_spans(tokens, count, 0, end, false);
        if token.text.len() > 0 {
            assert(spans.drop_last() =~= before);
        } else {
            assert(safe(token.text) =~= Seq::empty());
            assert(spans == before);
            assert(spans_text(before) + safe(token.text) =~= spans_text(before));
        }
    } else {
        assert(tokens.take(0) =~= Seq::empty());
    }
}

proof fn lemma_ends_grow(tokens: Seq<TokenView>, count: int)
    requires
        0 <= count,
    ensures
        tokens_end(tokens, count) >= 0,
    decreases count,
{
    if count > 0 {
        lemma_ends_grow(tokens, count - 1);
    }
}

proof fn lemma_command_line_says(texts: Seq<Seq<char>>, tokens: Seq<Vec<CodeToken>>, index: int)
    requires
        0 <= index < texts.len(),
        tokens_tell(tokens, texts),
    ensures
        row_text(command_line(texts, tokens, index)) == "  \u{2502} "@ + safe(texts[index]),
{
    let all = line_tokens(tokens, index, texts[index]);
    let count = all.len() as int;
    lemma_source_len(all, count);
    assert(all.take(count) =~= all);
    lemma_tokens_say(all, count, texts[index].len() as int);
    let row = command_line(texts, tokens, index);
    let head = seq![row.spans[0]];
    let rest = token_spans(all, count, 0, texts[index].len() as int, false);
    assert(row.spans =~= head + rest);
    lemma_spans_text_concat(head, rest);
    lemma_one_span(row.spans[0]);
}

proof fn lemma_command_rows_say(
    texts: Seq<Seq<char>>,
    tokens: Seq<Vec<CodeToken>>,
    count: int,
    width: int,
)
    requires
        0 <= count <= texts.len(),
        tokens_tell(tokens, texts),
        forall|i: int|
            0 <= i < texts.len() ==> whole("  \u{2502} "@ + safe(#[trigger] texts[i])),
    ensures
        rows_text(command_rows(texts, tokens, count, width)) == told(texts, count),
    decreases count,
{
    if count > 0 {
        lemma_command_rows_say(texts, tokens, count - 1, width);
        lemma_command_line_says(texts, tokens, count - 1);
        assert(whole("  \u{2502} "@ + safe(texts[count - 1])));
        law_wrapped_lines_say_the_same(command_line(texts, tokens, count - 1), width);
        lemma_rows_text_concat(
            command_rows(texts, tokens, count - 1, width),
            wrapped_line(command_line(texts, tokens, count - 1), width),
        );
    }
}

/// Whoever asks to run a command, the prompt asks whether to run the following, and what
/// follows below a free row is every line of the command, in order.
pub proof fn law_commands_are_told(
    request: PermissionRequest,
    preview: bool,
    width: int,
)
    requires
        request.tool@ == "bash"@,
        request.read_path is None,
        request.raw_command is Some,
        tokens_tell(request.command_tokens@, lines_of(request.raw_command->0@)),
        forall|i: int|
            0 <= i < lines_of(request.raw_command->0@).len() ==> whole(
                "  \u{2502} "@ + safe(#[trigger] lines_of(request.raw_command->0@)[i]),
            ),
    ensures
        ({
            let rows = permission_prefix(request, preview, width);
            let texts = lines_of(request.raw_command->0@);
            exists|at: int|
                0 <= at && at + 1 < rows.len() && row_text(#[trigger] rows[at])
                    == "  Allow running the following?"@ && rows[at + 1] == blank_line()
                    && told(texts, texts.len() as int).is_prefix_of(rows_text(rows.skip(at + 2)))
        }),
{
    reveal_strlit("bash");
    reveal_strlit("web_fetch");
    reveal_strlit("web_search");
    reveal_strlit("enter_worktree");
    assert("bash"@.len() == 4 && "web_fetch"@.len() == 9 && "web_search"@.len() == 10
        && "enter_worktree"@.len() == 14);
    let texts = lines_of(request.raw_command->0@);
    let tokens = request.command_tokens@;
    let rows = permission_prefix(request, preview, width);
    let at: int = if request.origin is Some { 4 } else { 2 };
    let commands = command_rows(texts, tokens, texts.len() as int, width);
    lemma_command_rows_say(texts, tokens, texts.len() as int, width);
    let rest = rows.skip(at + 2 + commands.len());
    assert(rows.skip(at + 2) =~= commands + rest);
    lemma_rows_text_concat(commands, rest);
    lemma_one_span(rows[at].spans[0]);
    assert(rows[at].spans =~= seq![rows[at].spans[0]]);
    assert(rows[at] == prompt_line(request));
    assert(rows[at + 1] == blank_line());
    assert(row_text(rows[at]) == "  Allow running the following?"@);
}

/// The prompt says who asks: the profile and the number of a sub-agent, behind the title and
/// on a row of its own; and nothing of the kind where no sub-agent asks.
pub proof fn law_prompts_say_who_asks(request: PermissionRequest, preview: bool, width: int)
    ensures
        request.origin matches Some((profile, id)) ==> {
            let rows = permission_prefix(request, preview, width);
            &&& rows.len() > 2
            &&& says(row_text(rows[2]), profile@)
            &&& says(row_text(rows[2]), id@)
            &&& says(row_text(rows[2]), "  Requested by  "@)
            &&& says(request_detail(request), profile@)
        },
        request.origin is None ==> permission_prefix(request, preview, width)[2] == prompt_line(
            request,
        ) && request_detail(request) == request.tool_label@,
        says(request_detail(request), request.tool_label@),
        request.origin is Some ==> permission_prefix(request, preview, width)[4] == prompt_line(
            request,
        ),
{
    let rows = permission_prefix(request, preview, width);
    let empty = Seq::<char>::empty();
    if let Some((profile, id)) = request.origin {
        let spans = rows[2].spans;
        lemma_span_said(spans, 0);
        lemma_span_said(spans, 1);
        let text = spans[1].text;
        assert(text =~= empty + profile@ + (" sub-agent \u{b7} "@ + id@));
        assert(text =~= (profile@ + " sub-agent \u{b7} "@) + id@ + empty);
        lemma_said_within(spans_text(spans), text, profile@);
        lemma_said_within(spans_text(spans), text, id@);
        assert(request_detail(request) =~= empty + profile@ + (" sub-agent \u{b7} "@
            + request.tool_label@));
        assert(request_detail(request) =~= (profile@ + " sub-agent \u{b7} "@)
            + request.tool_label@ + empty);
    } else {
        assert(request_detail(request) =~= empty + request.tool_label@ + empty);
    }
}

/// The question names what it is about: the page, the words that are looked for, the path
/// that is read from, or the worktree; and otherwise it is the message.
pub proof fn law_questions_name_their_subject(request: PermissionRequest)
    ensures
        (request.tool@ == "web_fetch"@ || request.tool@ == "web_search"@ || (request.tool@
            == "enter_worktree"@ && request.read_path is None)) && request.command@.len() > 0
            ==> says(row_text(prompt_line(request)), safe(request.command@[0]@)),
        request.tool@ != "web_fetch"@ && request.tool@ != "web_search"@ && request.read_path is Some
            ==> says(row_text(prompt_line(request)), safe(request.read_path->0@)),
        request.tool@ != "web_fetch"@ && request.tool@ != "web_search"@ && request.read_path is None
            && request.tool@ != "enter_worktree"@ && !(request.tool@ == "bash"@
            && request.raw_command is Some) ==> says(
            row_text(prompt_line(request)),
            safe(request.message@),
        ),
{
    reveal_strlit("web_fetch");
    reveal_strlit("web_search");
    reveal_strlit("enter_worktree");
    reveal_strlit("bash");
    let spans = prompt_line(request).spans;
    if request.tool@ == "web_fetch"@ || request.tool@ == "web_search"@ || request.read_path is Some
        || request.tool@ == "enter_worktree"@ {
        lemma_span_said(spans, 1);
    } else {
        lemma_span_said(spans, 0);
        assert("  "@ + safe(request.message@) =~= "  "@ + safe(request.message@)
            + Seq::<char>::empty());
        if !(request.tool@ == "bash"@ && request.raw_command is Some) {
            lemma_said_within(
                spans_text(spans),
                "  "@ + safe(request.message@),
                safe(request.message@),
            );
        }
    }
}

/// The verdict of the automatic check is told where there is one.
pub proof fn law_verdicts_are_told(request: PermissionRequest, preview: bool, width: int)
    requires
        request.auto_review is Some,
        whole("  Auto review  "@ + safe(request.auto_review->0@)),
    ensures
        says(
            rows_text(permission_prefix(request, preview, width)),
            safe(request.auto_review->0@),
        ),
{
    let rows = permission_prefix(request, preview, width);
    let text = "  Auto review  "@ + safe(request.auto_review->0@);
    let row = crate::render_setup::dim_line(text);
    lemma_one_span(row.spans[0]);
    assert(row.spans =~= seq![row.spans[0]]);
    law_wrapped_lines_say_the_same(row, width);
    let told = wrapped_line(row, width);
    let tail: int = if preview { 1 } else { 0 };
    let start = rows.len() - tail - told.len();
    let before = rows.take(start);
    let after = rows.skip(rows.len() - tail);
    assert(rows =~= before + told + after);
    lemma_rows_text_concat(before + told, after);
    lemma_rows_text_concat(before, told);
    assert(rows_text(rows) == rows_text(before) + text + rows_text(after));
    assert(text =~= "  Auto review  "@ + safe(request.auto_review->0@) + Seq::<char>::empty());
    lemma_said_within(rows_text(rows), text, safe(request.auto_review->0@));
}

/// Every choice is offered, with its label and its detail, and the selected one is marked.
pub proof fn law_every_choice_is_offered(
    permission: Permission,
    choices: Seq<(String, String)>,
    selected: int,
    width: int,
    at: int,
)
    requires
        0 <= at < choices.len() <= usize::MAX,
        0 <= selected < choices.len(),
        forall|i: int|
            0 <= i < choices.len() ==> whole(
                #[trigger] row_text(
                    choices_of(crate::json::entry_views(choices), Some(selected as usize))[i],
                ),
            ),
    ensures
        ({
            let rows = permission_suffix(permission, choices, selected, width);
            let item = row_text(
                choices_of(crate::json::entry_views(choices), Some(selected as usize))[at],
            );
            &&& says(rows_text(rows), item)
            &&& says(item, safe(choices[at].0@))
            &&& says(item, safe(choices[at].1@))
            &&& (item[0] == '\u{203a}') == (at == selected)
        }),
{
    let count = choices.len() as int;
    let entries = crate::json::entry_views(choices);
    let state = settled(count, selected, 0, count);
    let items = choices_of(entries, Some(selected as usize));
    let widget = choices_widget(count);
    assert(state.selected == Some(selected as usize));
    assert(state.offset == 0);
    law_lists_say_their_items(items, Seq::empty(), state, widget, width);
    let list = choice_rows(choices, selected, width);
    let shown = items_text(items, 0, count);
    let above = row_text(indicator_line(true, false));
    assert(rows_text(list) =~= above + shown + Seq::<char>::empty());
    lemma_item_said(items, 0, count, at);
    lemma_said_within(rows_text(list), shown, row_text(items[at]));
    let rest = crate::permission::denial_rows(permission, width);
    lemma_rows_text_concat(list, rest);
    let text = rows_text(permission_suffix(permission, choices, selected, width));
    assert(text =~= Seq::<char>::empty() + rows_text(list) + rows_text(rest));
    lemma_said_within(text, rows_text(list), row_text(items[at]));
    law_choices_say_their_labels(at == selected, choices[at].0@, choices[at].1@);
}

/// Where there is room, nothing that is asked is left out: the prompt starts with it, but
/// for a last free row that the preview takes.
pub proof fn law_prompts_start_with_what_is_asked(
    prefix: Seq<LineView>,
    preview: Option<Seq<LineView>>,
    suffix: Seq<LineView>,
    scroll: int,
    viewport_rows: int,
)
    requires
        prefix.len() > 0,
        suffix.len() > 0,
        prefix.len() + suffix.len() <= viewport_rows <= usize::MAX,
    ensures
        ({
            let rows = permission_rows(prefix, preview, suffix, scroll, viewport_rows);
            &&& prefix.drop_last().is_prefix_of(rows)
            &&& suffix.skip(1).is_suffix_of(rows)
            &&& preview is None ==> rows == prefix + suffix
        }),
{
    let rows = permission_rows(prefix, preview, suffix, scroll, viewport_rows);
    assert(prefix.drop_last() =~= rows.take(prefix.len() - 1));
    assert(suffix.skip(1) =~= rows.skip(rows.len() - suffix.len() + 1));
}

/// A permission is answered by Enter only, and then by the choice that is submitted: a rule
/// for the conversation or a prepared one goes with it where it has one, and a reason only
/// where it denies. Nothing that is not asked for is sent, and the note is kept.
pub proof fn law_permissions_are_answered_on_purpose(
    before: Permission,
    after: Permission,
    key: SurfaceKey,
    rows: usize,
    last: usize,
    choices: Seq<ApprovalChoice>,
    submission: ApprovalChoice,
    editable: bool,
    step: PermissionStep,
)
    requires
        Permission::menu_key_effect(
            before,
            after,
            key,
            rows,
            last,
            choices,
            submission,
            editable,
            step,
        ),
        choices.len() <= usize::MAX,
    ensures
        !(step is Deny),
        step is Send || step is SendSessionRule || step is SendPreparedRule ==> key.code
            == KeyCode::Enter,
        key.code == KeyCode::Enter && key.key.code == KeyCode::Enter ==> step is Send || step
            is SendSessionRule || step is SendPreparedRule,
        step is SendSessionRule ==> submission.decision == Decision::AllowSession
            && submission.session_rule,
        step is SendPreparedRule ==> submission.decision != Decision::AllowSession
            && submission.prepared_rule,
        step is Send ==> !(submission.decision == Decision::AllowSession
            && submission.session_rule) && !(submission.decision != Decision::AllowSession
            && submission.prepared_rule),
        step matches PermissionStep::Send(Some(reason)) ==> submission.decision == Decision::Deny
            && reason@.len() > 0 && text_view(Some(reason)) == given(before.denial_note@),
        step matches PermissionStep::EditRule(scope) ==> editable && (key.key.code
            == KeyCode::Char('e') || key.key.code == KeyCode::Char('E'))
            && (key.key.modifiers.shift ==> scope == PermissionScope::Global),
        step matches PermissionStep::EditRule(scope) ==> !key.key.modifiers.shift && key.code
            != KeyCode::Tab ==> scope == before.scope,
        after.denial_note == before.denial_note,
        key.key.code == KeyCode::Home ==> after.diff_scroll == 0,
        key.key.code == KeyCode::End ==> after.diff_scroll == last,
        key.key.code == KeyCode::PageUp ==> after.diff_scroll <= before.diff_scroll,
        key.key.code == KeyCode::PageDown && before.diff_scroll <= last ==> before.diff_scroll
            <= after.diff_scroll <= last,
        key.code == KeyCode::Up && key.key.code == KeyCode::Up ==> after.selected == (if
            before.selected > 0 {
            before.selected - 1
        } else {
            0
        }),
        key.code == KeyCode::Down && key.key.code == KeyCode::Down && before.selected
            < choices.len() ==> after.selected == (if before.selected + 1 < choices.len() {
            before.selected + 1
        } else {
            before.selected as int
        }),
        after.selected != before.selected ==> key.code == KeyCode::Up || key.code
            == KeyCode::Down,
        after.scope != before.scope ==> key.code == KeyCode::Tab && before.selected
            < choices.len() && choices[before.selected as int].decision != Decision::Deny,
        after.editing_note && !before.editing_note ==> key.code == KeyCode::Tab
            && before.selected < choices.len() && choices[before.selected as int].decision
            == Decision::Deny,
        key.code == KeyCode::Tab && key.key.code == KeyCode::Tab && before.selected
            < choices.len() && choices[before.selected as int].decision == Decision::Deny
            ==> after.editing_note && after.scope == before.scope,
{
}

/// While the reason of a denial is written, what submits denies, with the reason that was
/// written; Escape forgets the reason, and Tab leaves it as it is.
pub proof fn law_denials_give_the_reason(
    before: Permission,
    after: Permission,
    key: SurfaceKey,
    width: u16,
    step: PermissionStep,
)
    requires
        before.editing_note,
        Permission::note_key_effect(before, after, key, width, step),
    ensures
        step is Deny <==> key.submit,
        !key.submit ==> step is Stay,
        step matches PermissionStep::Deny(reason) ==> text_view(reason) == given(
            before.denial_note@,
        ) && after.denial_note == before.denial_note,
        !key.submit && !key.insert_newline && key.key.code == KeyCode::Esc
            ==> after.denial_note@.len() == 0 && !after.editing_note,
        !key.submit && !key.insert_newline && key.key.code == KeyCode::Tab ==> after.denial_note
            == before.denial_note && !after.editing_note,
        key.insert_newline && !key.submit ==> after.editing_note && after.denial_note@.len()
            == before.denial_note@.len() + 1,
        after.selected == before.selected,
        after.scope == before.scope,
{
    reveal_strlit("\n");
    if key.insert_newline && !key.submit {
        let input = crate::single_line_input::InputView::of(
            before.denial_note@,
            before.note_cursor as int,
        );
        lemma_input_within(before.denial_note@, before.note_cursor as int);
    }
}

pub proof fn lemma_input_within(text: Seq<char>, cursor: int)
    requires
        0 <= cursor,
    ensures
        0 <= crate::single_line_input::InputView::of(text, cursor).at <= text.len(),
{
    let within = if cursor <= crate::text::utf8_len(text) {
        cursor
    } else {
        crate::text::utf8_len(text) as int
    };
    crate::text::lemma_floor_boundary(text, within);
    crate::text::lemma_boundary(text, crate::text::floor_boundary(text, within));
}

/// A scope reaches as far as its name says, and the decision that it stands for reaches as
/// far; what denies is told apart from everything that allows.
pub proof fn law_decisions_are_told_apart(scope: PermissionScope, decision: Decision)
    ensures
        (decision.name_spec() == "deny"@) == (decision == Decision::Deny),
        decision == Decision::Allow <==> decision.name_spec() == "allow"@,
        decision == Decision::AllowSession <==> decision.name_spec() == "allow_session"@,
        decision == Decision::AllowProject <==> decision.name_spec() == "allow_project"@,
        decision == Decision::AllowGlobal <==> decision.name_spec() == "allow_global"@,
        scope.decision_spec() != Decision::Deny,
        scope.decision_spec() == Decision::AllowSession <==> scope
            == PermissionScope::Conversation,
        scope.decision_spec() == Decision::AllowProject <==> scope == PermissionScope::Project,
        scope == PermissionScope::Global || scope == PermissionScope::ConversationGlobal
            <==> scope.label_spec() == "global"@,
        scope == PermissionScope::Project <==> scope.label_spec() == "project"@,
{
    reveal_strlit("deny");
    reveal_strlit("allow");
    reveal_strlit("allow_session");
    reveal_strlit("allow_project");
    reveal_strlit("allow_global");
    reveal_strlit("global");
    reveal_strlit("project");
    reveal_strlit("conversation");
    assert("deny"@.len() == 4 && "allow"@.len() == 5 && "allow_session"@.len() == 13
        && "allow_project"@.len() == 13 && "allow_global"@.len() == 12);
    assert("allow_session"@[6] == 's' && "allow_project"@[6] == 'p' && "allow_global"@[6] == 'g');
    assert("global"@[0] == 'g' && "project"@[0] == 'p' && "conversation"@[0] == 'c');
}

} // verus!
