//! What holds of the settings and of the editor of the status line: what is chosen is what
//! is saved.

use vstd::prelude::*;
use vstd::string::*;
use crate::control::SurfaceKey;
use crate::json::json_string;
use crate::key::KeyCode;
use crate::list::VISIBLE_MENU_ITEMS;
use crate::list::ListState;
use crate::moving_laws::{law_keys_move_the_selection, under_cursor};
use crate::settings::{
    choice_list, choice_position, edited_by, input_description, section_count,
    setting_choices_key_effect, setting_input_key_effect, SettingDefinition, SettingEditor,
    SettingKind, SettingRow, SettingStep, Settings, SettingsStep,
};
use crate::shown::says;
use crate::status_line::{
    color_of, colors_without, hex_color, hex_text, law_enabling_affects_one_module,
    lemma_only_position, ModuleCommand, StatusLineCatalog, StatusLineEditor, StatusLineEditorMode,
    StatusLineModule,
};
use crate::style::StatusLineColor;
use crate::unicode::trimmed;

verus! {

/// What is saved for a choice is the choice that is under the cursor, as the configuration
/// writes a value of its type: a name of a list as a string in quotes, anything else, such as
/// a truth value, as it is. Only Enter saves, and a choice of one's own is written instead.
pub proof fn law_choices_are_saved_as_values(
    kind: SettingKind,
    choices: Seq<(String, String)>,
    list: ListState,
    new_list: ListState,
    custom: Option<String>,
    code: KeyCode,
    step: SettingStep,
)
    requires
        choices.len() <= usize::MAX,
        setting_choices_key_effect(kind, choices, list, new_list, custom, code, step),
    ensures
        code != KeyCode::Enter ==> step is Stay,
        code == KeyCode::Enter && choices.len() == 0 ==> step is Close,
        choices.len() > 0 ==> {
            let chosen = choices[under_cursor(list, choices.len() as int)].0@;
            &&& kind is List && code == KeyCode::Enter ==> (step matches SettingStep::Save(raw)
                && raw@ == json_string(chosen))
            &&& kind is Boolean && code == KeyCode::Enter ==> (step matches SettingStep::Save(raw)
                && raw@ == chosen)
            &&& kind is DefaultAgentPicker && code == KeyCode::Enter ==> (
            step matches SettingStep::Save(raw) && raw@ == chosen)
            &&& kind is TomlChoices && code == KeyCode::Enter && chosen != "custom"@ ==> (
            step matches SettingStep::Save(raw) && raw@ == chosen)
            &&& step is Custom <==> code == KeyCode::Enter && kind is TomlChoices && chosen
                == "custom"@
            &&& step matches SettingStep::Custom { value, cursor } ==> (custom is Some ==> value@
                == custom->0@)
        },
        !(step is Reset),
{
}

/// A setting that is true or false offers these two, starts at the one that holds, and saves
/// exactly "true" or "false", whichever is under the cursor.
pub proof fn law_truth_values_are_saved(
    row: SettingRow,
    editor: SettingEditor,
    new_list: ListState,
    step: SettingStep,
)
    requires
        row.definition.kind is Boolean,
        edited_by(row, editor),
        editor is Choices,
        setting_choices_key_effect(
            row.definition.kind,
            editor->choices@,
            editor->list,
            new_list,
            editor->custom,
            KeyCode::Enter,
            step,
        ),
    ensures
        step is Save,
        row.effective_value@ == "true"@ ==> step->Save_0@ == "true"@,
        row.effective_value@ == "false"@ ==> step->Save_0@ == "false"@,
        step->Save_0@ == "true"@ || step->Save_0@ == "false"@,
        editor->choices@[0].0@ == "true"@,
        editor->choices@[1].0@ == "false"@,
{
    reveal_strlit("true");
    reveal_strlit("false");
}

/// A list of choices starts at the value that holds, so that Enter alone saves what holds
/// already.
pub proof fn law_choices_start_at_the_value(choices: Seq<(String, String)>, value: Seq<char>)
    requires
        choices.len() <= usize::MAX,
        exists|i: int| 0 <= i < choices.len() && (#[trigger] choices[i]).0@ == value,
    ensures
        choice_list(choices, value).selected is Some,
        choices[choice_list(choices, value).selected->0 as int].0@ == value,
{
    lemma_choice_position(choices, value);
}

proof fn lemma_choice_position(choices: Seq<(String, String)>, value: Seq<char>)
    ensures
        0 <= choice_position(choices, value) <= choices.len(),
        choice_position(choices, value) < choices.len() ==> choices[choice_position(
            choices,
            value,
        )].0@ == value,
        (exists|i: int| 0 <= i < choices.len() && (#[trigger] choices[i]).0@ == value)
            ==> choice_position(choices, value) < choices.len(),
    decreases choices.len(),
{
    if choices.len() > 0 && choices[0].0@ != value {
        let rest = choices.drop_first();
        lemma_choice_position(rest, value);
        if exists|i: int| 0 <= i < choices.len() && (#[trigger] choices[i]).0@ == value {
            let i = choose|i: int| 0 <= i < choices.len() && (#[trigger] choices[i]).0@ == value;
            assert(rest[i - 1].0@ == value);
        }
    }
}

/// What is written for a setting is saved as it is, a text as a string in quotes; nothing
/// written resets the setting. In a whole number no key writes anything but digits.
pub proof fn law_written_settings_are_saved(
    kind: SettingKind,
    value: String,
    new_value: String,
    cursor: usize,
    new_cursor: usize,
    key: SurfaceKey,
    step: SettingStep,
    c: char,
)
    requires
        setting_input_key_effect(kind, value, new_value, cursor, new_cursor, key, step),
    ensures
        !key.submit ==> step is Stay,
        key.submit ==> new_value@ == value@,
        step is Reset ==> key.submit && trimmed(value@).len() == 0,
        key.submit && trimmed(value@).len() == 0 ==> step is Reset,
        key.submit && trimmed(value@).len() > 0 ==> step is Save && step->Save_0@ == (if kind
            is Text {
            json_string(value@)
        } else {
            value@
        }),
        (kind is PositiveInteger || kind is NonNegativeInteger) && key.key.code == KeyCode::Char(c)
            && key.key.modifiers.is_empty() && !('0' <= c && c <= '9') ==> new_value@ == value@,
{
}

/// A key among the settings opens the one under the cursor, by Enter, or resets it, by
/// control and `r`; neither happens otherwise. The sections are turned by the arrows while
/// nothing is searched for.
pub proof fn law_settings_are_opened_and_reset_on_purpose(
    before: Settings,
    after: Settings,
    key: SurfaceKey,
    visible: Seq<usize>,
    sections: usize,
    step: SettingsStep,
)
    requires
        visible.len() <= usize::MAX,
        before.section < sections,
        Settings::key_effect(before, after, key, visible, sections, step),
    ensures
        step matches SettingsStep::Reset(row) ==> (key.code == KeyCode::Char('r') || key.code
            == KeyCode::Char('R')) && key.key.modifiers.control && visible.len() > 0 && row
            == visible[under_cursor(before.list, visible.len() as int)],
        step matches SettingsStep::Open(row) ==> key.code == KeyCode::Enter && visible.len() > 0
            && row == visible[under_cursor(before.list, visible.len() as int)],
        key.code == KeyCode::Enter && visible.len() > 0 ==> step is Open,
        key.code == KeyCode::Char('r') && key.key.modifiers.control && visible.len() > 0 ==> step
            is Reset,
        after.rows == before.rows,
        step is Open || step is Reset ==> after.query@ == before.query@ && after.section
            == before.section,
        key.code == KeyCode::Right && before.query@.len() == 0 ==> after.section == (if
            before.section + 1 == sections {
            0
        } else {
            before.section + 1
        }),
        key.code == KeyCode::Left && before.query@.len() == 0 ==> after.section == (if
            before.section == 0 {
            sections - 1
        } else {
            before.section - 1
        }),
        before.query@.len() > 0 || (key.code != KeyCode::Left && key.code != KeyCode::Right)
            ==> after.section == before.section,
{
}

/// A section has as many settings as there are rows of it.
pub proof fn law_sections_are_counted(rows: Seq<SettingRow>, section: int)
    ensures
        section_count(rows, section) == rows.filter(
            |row: SettingRow| row.definition.section == section,
        ).len(),
    decreases rows.len(),
{
    reveal(Seq::filter);
    if rows.len() > 0 {
        law_sections_are_counted(rows.drop_last(), section);
    }
}

/// Whatever is written about a setting, its default is told.
pub proof fn law_defaults_are_told(setting: SettingDefinition)
    ensures
        says(input_description(setting), setting.default_value@),
{
    let text = input_description(setting);
    let tail = setting.default_value@ + ")"@;
    let head = text.take(text.len() - tail.len());
    assert(text =~= head + setting.default_value@ + ")"@);
}

/// A key in the editor of the status line that moves the selection, or that means nothing,
/// leaves the modules and the colours; only Enter shows or hides a module, which is the one
/// under the cursor, and only `r` takes its colour back.
pub proof fn law_modules_change_on_purpose(
    before: StatusLineEditor,
    after: StatusLineEditor,
    key: SurfaceKey,
    catalog: StatusLineCatalog,
)
    requires
        before.mode is Modules,
        before.rows@.len() <= usize::MAX,
        StatusLineEditor::modules_key_effect(before, after, key, catalog),
    ensures
        after.config.modules@ != before.config.modules@ ==> key.code == KeyCode::Left || key.code
            == KeyCode::Right || (key.key.modifiers.is_empty() && (key.code == KeyCode::Enter
            || key.code == KeyCode::Char('r'))),
        after.config.colors@ != before.config.colors@ ==> key.key.modifiers.is_empty() && key.code
            == KeyCode::Char('r'),
        after.mode is Colors ==> key.key.modifiers.is_empty() && key.code == KeyCode::Char('c'),
        after.mode matches StatusLineEditorMode::Colors { module, list } ==> before.rows@.len() > 0
            && module == before.rows@[under_cursor(before.list, before.rows@.len() as int)]
            && module != catalog.mode,
        !(after.mode is Hex),
        before.rows@.len() == 0 ==> after.config == before.config,
        key.code == KeyCode::Char('r') && key.key.modifiers.is_empty() && before.rows@.len() > 0
            ==> color_of(
            after.config.colors@,
            catalog,
            before.rows@[under_cursor(before.list, before.rows@.len() as int)],
        ) == catalog.default_colors@[before.rows@[under_cursor(
            before.list,
            before.rows@.len() as int,
        )].index as int],
{
    if before.rows@.len() > 0 {
        lemma_color_gone(
            before.config.colors@,
            catalog,
            before.rows@[under_cursor(before.list, before.rows@.len() as int)],
        );
    }
}

proof fn lemma_color_gone(
    colors: Seq<(StatusLineModule, StatusLineColor)>,
    catalog: StatusLineCatalog,
    module: StatusLineModule,
)
    ensures
        color_of(colors_without(colors, module), catalog, module)
            == catalog.default_colors@[module.index as int],
    decreases colors.len(),
{
    if colors.len() > 0 {
        lemma_color_gone(colors.drop_last(), catalog, module);
        let rest = colors_without(colors.drop_last(), module);
        if colors.last().0 != module {
            assert(rest.push(colors.last()).drop_last() =~= rest);
        }
    }
}

/// A module has one colour: the one that was set for it last. Setting the colour of another
/// module leaves it.
pub proof fn law_modules_keep_their_colors(
    colors: Seq<(StatusLineModule, StatusLineColor)>,
    catalog: StatusLineCatalog,
    module: StatusLineModule,
    color: StatusLineColor,
    other: StatusLineModule,
)
    ensures
        color_of(colors_without(colors, module).push((module, color)), catalog, module) == color,
        other != module ==> color_of(
            colors_without(colors, module).push((module, color)),
            catalog,
            other,
        ) == color_of(colors, catalog, other),
    decreases colors.len(),
{
    let rest = colors_without(colors, module);
    assert(rest.push((module, color)).drop_last() =~= rest);
    if other != module {
        lemma_other_color(colors, catalog, module, other);
    }
}

/// Enter turns the module under the cursor on and off, and resetting turns it on; no other
/// module is turned.
pub proof fn law_modules_are_turned(
    before: StatusLineEditor,
    after: StatusLineEditor,
    key: SurfaceKey,
    catalog: StatusLineCatalog,
    other: StatusLineModule,
)
    requires
        before.mode is Modules,
        0 < before.rows@.len() <= usize::MAX,
        key.key.modifiers.is_empty(),
        key.code == KeyCode::Enter || key.code == KeyCode::Char('r'),
        StatusLineEditor::modules_key_effect(before, after, key, catalog),
    ensures
        ({
            let module = before.rows@[under_cursor(before.list, before.rows@.len() as int)];
            &&& after.config.modules@.contains(module) == (key.code == KeyCode::Char('r')
                || !before.config.modules@.contains(module))
            &&& other != module ==> after.config.modules@.contains(other)
                == before.config.modules@.contains(other)
        }),
{
    let module = before.rows@[under_cursor(before.list, before.rows@.len() as int)];
    let shown = before.config.modules@;
    assert(before.module_spec() == Some(module));
    let enabled = key.code == KeyCode::Char('r') || !shown.contains(module);
    let command = if key.code == KeyCode::Enter {
        ModuleCommand::Toggle
    } else {
        ModuleCommand::Reset
    };
    let rows = before.rows_after_command(command, module, catalog.hint);
    law_enabling_affects_one_module(shown, rows, module, enabled, other);
}

/// Left moves the module under the cursor one place forward and Right one place back, past
/// the module that stood there; every other module keeps its place.
pub proof fn law_arrows_move_modules(
    before: StatusLineEditor,
    after: StatusLineEditor,
    key: SurfaceKey,
    catalog: StatusLineCatalog,
    at: int,
)
    requires
        before.mode is Modules,
        0 < before.rows@.len() <= usize::MAX,
        key.code == KeyCode::Left || key.code == KeyCode::Right,
        StatusLineEditor::modules_key_effect(before, after, key, catalog),
        before.config.modules@.no_duplicates(),
        0 <= at < before.config.modules@.len(),
        before.config.modules@[at] == before.rows@[under_cursor(
            before.list,
            before.rows@.len() as int,
        )],
    ensures
        ({
            let shown = before.config.modules@;
            let to = if key.code == KeyCode::Left { at - 1 } else { at + 1 };
            &&& after.config.modules@.len() == shown.len()
            &&& 0 <= to < shown.len() ==> after.config.modules@ == shown.update(
                at,
                shown[to],
            ).update(to, shown[at])
            &&& !(0 <= to < shown.len()) ==> after.config.modules@ == shown
        }),
{
    let shown = before.config.modules@;
    let module = shown[at];
    assert(before.module_spec() == Some(module));
    lemma_only_position(shown, at);
    let to = if key.code == KeyCode::Left { at - 1 } else { at + 1 };
    if 0 <= to < shown.len() {
        assert(after.config.modules@ =~= shown.update(at, shown[to]).update(to, shown[at]));
    }
}

/// A colour changes only by Enter, and only that of the module whose colours are open: the
/// first item gives the default colour, the last leads to a colour of one's own, and those
/// between give the named colours in their order.
pub proof fn law_colors_are_picked_on_purpose(
    before: StatusLineEditor,
    after: StatusLineEditor,
    key: SurfaceKey,
    catalog: StatusLineCatalog,
    module: StatusLineModule,
    list: ListState,
    other: StatusLineModule,
)
    requires
        before.mode == (StatusLineEditorMode::Colors { module, list }),
        StatusLineEditor::colors_key_effect(before, after, key, catalog),
    ensures
        after.config.modules@ == before.config.modules@,
        other != module ==> color_of(after.config.colors@, catalog, other) == color_of(
            before.config.colors@,
            catalog,
            other,
        ),
        after.config.colors@ != before.config.colors@ || !(after.mode is Colors) ==> key.code
            == KeyCode::Enter && key.key.modifiers.is_empty(),
        key.code == KeyCode::Enter && key.key.modifiers.is_empty() ==> ({
            let at = under_cursor(list, catalog.named_colors + 2);
            let chosen = color_of(after.config.colors@, catalog, module);
            &&& at == 0 ==> after.mode is Modules && chosen
                == catalog.default_colors@[module.index as int]
            &&& 0 < at <= catalog.named_colors ==> after.mode is Modules && chosen
                == StatusLineColor::Named((at - 1) as u8)
            &&& at == catalog.named_colors + 1 ==> after.config.colors == before.config.colors
                && (after.mode matches StatusLineEditorMode::Hex { module: edited, input, cursor }
                && edited == module)
        }),
{
    law_keys_move_the_selection(
        list,
        catalog.named_colors + 2,
        VISIBLE_MENU_ITEMS as int,
        key.code,
    );
    let before_colors = before.config.colors@;
    law_modules_keep_their_colors(
        before_colors,
        catalog,
        module,
        catalog.default_colors@[module.index as int],
        other,
    );
    let at = under_cursor(list, catalog.named_colors + 2);
    if 0 < at <= catalog.named_colors {
        law_modules_keep_their_colors(
            before_colors,
            catalog,
            module,
            StatusLineColor::Named((at - 1) as u8),
            other,
        );
    }
}

/// A colour that is written takes effect by Enter, where it is a sharp and six digits of
/// base sixteen; otherwise it is refused and nothing is lost.
pub proof fn law_written_colors_are_taken(
    before: StatusLineEditor,
    after: StatusLineEditor,
    key: SurfaceKey,
    refused: bool,
    catalog: StatusLineCatalog,
    module: StatusLineModule,
    input: String,
    cursor: usize,
    other: StatusLineModule,
)
    requires
        before.mode == (StatusLineEditorMode::Hex { module, input, cursor }),
        StatusLineEditor::hex_key_effect(before, after, key, refused),
    ensures
        other != module ==> color_of(after.config.colors@, catalog, other) == color_of(
            before.config.colors@,
            catalog,
            other,
        ),
        after.config.colors@ != before.config.colors@ || after.mode is Modules || refused
            ==> key.key.code == KeyCode::Enter && key.key.modifiers.is_empty(),
        refused ==> after.config == before.config && (
        after.mode matches StatusLineEditorMode::Hex { module: edited, input: kept, cursor: at }
            && edited == module && kept@ == input@),
        refused ==> hex_color(input@) is None,
        key.key.code == KeyCode::Enter && key.key.modifiers.is_empty() && !refused
            ==> after.mode is Modules && input@.len() == 7 && input@[0] == '#' && hex_text(
            color_of(after.config.colors@, catalog, module),
        ).len() == 7 && Some(color_of(after.config.colors@, catalog, module)) == hex_color(input@),
{
    if let Some(color) = hex_color(input@) {
        law_modules_keep_their_colors(before.config.colors@, catalog, module, color, other);
    }
}

proof fn lemma_other_color(
    colors: Seq<(StatusLineModule, StatusLineColor)>,
    catalog: StatusLineCatalog,
    module: StatusLineModule,
    other: StatusLineModule,
)
    requires
        other != module,
    ensures
        color_of(colors_without(colors, module), catalog, other) == color_of(
            colors,
            catalog,
            other,
        ),
    decreases colors.len(),
{
    if colors.len() > 0 {
        lemma_other_color(colors.drop_last(), catalog, module, other);
        let rest = colors_without(colors.drop_last(), module);
        if colors.last().0 != module {
            assert(rest.push(colors.last()).drop_last() =~= rest);
        }
    }
}

} // verus!
