//! Settings: finding them, and editing their values.

use vstd::prelude::*;
use vstd::string::*;
use crate::control::{
    action_of, copy_text, cursor_at_end, edit_field, field_after, field_is, field_takes, list_after,
    move_list, SurfaceKey,
};
use crate::copies::copy_pairs;
use crate::json::{json_string, string_text};
use crate::key::KeyCode;
use crate::list::{settled, VISIBLE_MENU_ITEMS, ListState};
use crate::menu::same_text;
use crate::multiline_input::{find_char, first_char, lemma_first_char};
use crate::providers::{is_typed_whitespace, normalized, types_whitespace};
use crate::render::{concat, concat3};
use crate::single_line_input::InputView;
use crate::text::{chars_of, utf8_len};
use crate::unicode::{lemma_trimmed_start, start_of_content, trim, trimmed, trimmed_start};

verus! {

/// What a setting takes. The choices come with descriptions.
#[derive(Debug)]
pub enum SettingKind {
    Boolean,
    List(Vec<(String, String)>),
    /// Named choices, or a TOML value.
    TomlChoices(Vec<(String, String)>),
    DefaultAgentPicker(Vec<(String, String)>),
    ModelPicker,
    TomlArray,
    KeyBindings,
    PositiveInteger,
    NonNegativeInteger,
    Text,
}

/// A setting.
#[derive(Debug)]
pub struct SettingDefinition {
    pub key: String,
    pub label: String,
    pub description: String,
    pub kind: SettingKind,
    /// The position of the setting's section among all sections.
    pub section: usize,
    pub default_value: String,
}

/// A setting with its value.
#[derive(Debug)]
pub struct SettingRow {
    pub definition: SettingDefinition,
    pub effective_value: String,
    pub explicit_value: Option<String>,
    pub display_value: String,
}

/// The items that are shown at once. A setting takes two rows; a search gains
/// the rows of the tabs.
pub open spec fn item_capacity(searching: bool) -> int {
    if searching { 5 } else { 4 }
}

pub fn settings_item_capacity(query: &str) -> (capacity: usize)
    ensures
        capacity == item_capacity(query@.len() > 0),
{
    if query.is_empty() {
        4
    } else {
        5
    }
}

/// The section before or behind one; the sections form a ring.
pub open spec fn adjacent(section: int, sections: int, forward: bool) -> int {
    if forward {
        if section + 1 < sections { section + 1 } else { 0 }
    } else {
        if section > 0 { section - 1 } else { sections - 1 }
    }
}

pub fn adjacent_setting_section(section: usize, sections: usize, forward: bool) -> (next: usize)
    requires
        section < sections,
    ensures
        next == adjacent(section as int, sections as int, forward),
        next < sections,
{
    if forward {
        if section + 1 < sections {
            section + 1
        } else {
            0
        }
    } else if section > 0 {
        section - 1
    } else {
        sections - 1
    }
}

/// Going to a neighbouring section and back returns to the same section.
pub proof fn law_sections_form_a_ring(section: int, sections: int, forward: bool)
    requires
        0 <= section < sections,
    ensures
        0 <= adjacent(section, sections, forward) < sections,
        adjacent(adjacent(section, sections, forward), sections, !forward) == section,
{
}

/// The settings of a section.
pub open spec fn section_count(rows: Seq<SettingRow>, section: int) -> int
    decreases rows.len(),
{
    if rows.len() == 0 {
        0
    } else {
        section_count(rows.drop_last(), section) + if rows.last().definition.section == section {
            1int
        } else {
            0
        }
    }
}

/// Shows another section, from its start; the result says whether it is
/// another.
pub fn change_settings_section(
    rows: &[SettingRow],
    section: &mut usize,
    list: &mut ListState,
    next: usize,
) -> (changed: bool)
    ensures
        changed == (*old(section) != next),
        *final(section) == next,
        *final(list) == if changed {
            settled(section_count(rows@, next as int), 0, 0, 1)
        } else {
            *old(list)
        },
{
    if *section == next {
        return false;
    }
    *section = next;
    let mut count: usize = 0;
    let mut i: usize = 0;
    proof {
        assert(rows@.take(0) =~= Seq::empty());
    }
    while i < rows.len()
        invariant
            i <= rows@.len(),
            count <= i,
            count == section_count(rows@.take(i as int), next as int),
        decreases rows@.len() - i,
    {
        if rows[i].definition.section == next {
            count = count + 1;
        }
        i += 1;
        proof {
            assert(rows@.take(i as int).drop_last() =~= rows@.take(i - 1));
        }
    }
    proof {
        assert(rows@.take(i as int) =~= rows@);
    }
    list.reset(count);
    true
}

/// The settings surface.
#[derive(Debug)]
pub struct Settings {
    pub rows: Vec<SettingRow>,
    pub section: usize,
    pub list: ListState,
    pub query: String,
    pub query_cursor: usize,
}

/// What is to be done after a key among the settings. The numbers are indices
/// of rows.
#[derive(Clone, Copy, Debug, PartialEq, Eq, Structural)]
pub enum SettingsStep {
    Stay,
    /// Reset a setting to its default.
    Reset(usize),
    Open(usize),
    /// Start over with the settings that are shown for the edited query.
    Filter,
}

impl Settings {
    /// The list before the key is looked at.
    pub open spec fn settled_list(self, visible: Seq<usize>) -> ListState {
        self.list.reconciled(visible.len() as int, item_capacity(self.query@.len() > 0))
    }

    /// The row under the cursor.
    pub open spec fn row_spec(self, visible: Seq<usize>) -> Option<usize> {
        let at = self.settled_list(visible).at_spec();
        if at < visible.len() { Some(visible[at]) } else { None }
    }

    /// Whether a key changes the section.
    pub open spec fn turns(self, code: KeyCode) -> bool {
        (code == KeyCode::Left || code == KeyCode::Right) && self.query@.len() == 0
    }

    /// Whether a key resets a setting.
    pub open spec fn resets(key: SurfaceKey) -> bool {
        (key.code == KeyCode::Char('r') || key.code == KeyCode::Char('R'))
            && key.key.modifiers.control
    }

    pub open spec fn step(self, key: SurfaceKey, visible: Seq<usize>) -> SettingsStep {
        if action_of(key.code) is Some || self.turns(key.code) {
            SettingsStep::Stay
        } else if Self::resets(key) {
            match self.row_spec(visible) {
                None => SettingsStep::Stay,
                Some(row) => SettingsStep::Reset(row),
            }
        } else if key.code == KeyCode::Enter {
            match self.row_spec(visible) {
                None => SettingsStep::Stay,
                Some(row) => SettingsStep::Open(row),
            }
        } else if !types_whitespace(key.key.code) && field_takes(
            self.query@,
            self.query_cursor as int,
            key.key,
        ) {
            SettingsStep::Filter
        } else {
            SettingsStep::Stay
        }
    }

    /// The effect of `key`.
    pub open spec fn key_effect(
        before: Self,
        after: Self,
        key: SurfaceKey,
        visible: Seq<usize>,
        sections: usize,
        step: SettingsStep,
    ) -> bool {
        &&& (after.rows == before.rows)
        &&& (after.section < sections)
        &&& (step == before.step(key, visible))
        &&& (after.section == if before.turns(key.code) {
                adjacent(before.section as int, sections as int, key.code == KeyCode::Right)
            } else {
                before.section as int
            })
        &&& (after.list == if before.turns(key.code) && after.section != before.section {
                settled(
                    section_count(before.rows@, after.section as int),
                    0,
                    0,
                    1,
                )
            } else {
                list_after(
                    before.list,
                    visible.len() as int,
                    item_capacity(before.query@.len() > 0),
                    key.code,
                )
            })
        &&& (field_is(
                after.query@,
                after.query_cursor as int,
                if step == SettingsStep::Filter {
                    field_after(before.query@, before.query_cursor as int, key.key)
                } else {
                    InputView::of(before.query@, before.query_cursor as int)
                },
            ))
    }

    /// A key among the settings. `visible` are the rows that are shown, and
    /// `sections` is the number of sections.
    pub fn key(&mut self, key: SurfaceKey, visible: &[usize], sections: usize) -> (step: SettingsStep)
        requires
            old(self).section < sections,
        ensures
            Self::key_effect(*old(self), *final(self), key, visible@, sections, step),
    {
        let capacity: usize = settings_item_capacity(self.query.as_str());
        let moved: bool = move_list(&mut self.list, visible.len(), capacity, key.code);
        let at: usize = self.list.at();
        let mut step: SettingsStep = SettingsStep::Stay;
        let mut touched: bool = false;
        if moved {
        } else if (key.code == KeyCode::Left || key.code == KeyCode::Right)
            && self.query.as_str().is_empty() {
            let next: usize = adjacent_setting_section(
                self.section,
                sections,
                key.code == KeyCode::Right,
            );
            change_settings_section(
                self.rows.as_slice(),
                &mut self.section,
                &mut self.list,
                next,
            );
        } else if (key.code == KeyCode::Char('r') || key.code == KeyCode::Char('R'))
            && key.key.modifiers.control {
            if at < visible.len() {
                step = SettingsStep::Reset(visible[at]);
            }
        } else if key.code == KeyCode::Enter {
            if at < visible.len() {
                step = SettingsStep::Open(visible[at]);
            }
        } else if !is_typed_whitespace(key.key.code) {
            touched = true;
            if edit_field(&mut self.query, &mut self.query_cursor, key.key) {
                step = SettingsStep::Filter;
            }
        }
        if !touched {
            self.query_cursor = normalized(self.query.as_str(), self.query_cursor);
        }
        step
    }

    /// Shows other values, `shown` of them.
    pub fn refresh(&mut self, rows: Vec<SettingRow>, shown: usize)
        ensures
            final(self).rows == rows,
            final(self).section == old(self).section,
            final(self).query == old(self).query,
            final(self).query_cursor == old(self).query_cursor,
            final(self).list == old(self).list.reconciled(
                shown as int,
                item_capacity(old(self).query@.len() > 0),
            ),
    {
        self.rows = rows;
        self.list.reconcile(shown, settings_item_capacity(self.query.as_str()));
    }
}

/// Whether a value is written out rather than named: it starts with a bracket
/// or a brace.
pub open spec fn written_out(value: Seq<char>) -> bool {
    let rest = value.skip(trimmed_start(value));
    rest.len() > 0 && (rest[0] == '[' || rest[0] == '{')
}

/// The value that a custom editor starts with: the one that was written out
/// before, or an empty list.
pub fn custom_setting_value(explicit: Option<String>) -> (value: String)
    ensures
        value@ == match explicit {
            Some(text) => if written_out(text@) { text@ } else { "[]"@ },
            None => "[]"@,
        },
{
    match explicit {
        None => "[]".to_owned(),
        Some(text) => {
            let chars: Vec<char> = chars_of(text.as_str());
            let start: usize = start_of_content(chars.as_slice());
            proof {
                lemma_trimmed_start(chars@);
            }
            if start < chars.len() && (chars[start] == '[' || chars[start] == '{') {
                text
            } else {
                "[]".to_owned()
            }
        },
    }
}

/// The first line of a message, without white space around it.
pub open spec fn concise_error(message: Seq<char>) -> Seq<char> {
    trimmed(message.take(first_char(message, '\n')))
}

pub fn concise_setting_error(message: &str) -> (line: String)
    ensures
        line@ == concise_error(message@),
{
    let mut chars: Vec<char> = chars_of(message);
    proof {
        assert(chars@.skip(0) =~= chars@);
        lemma_first_char(message@, '\n');
    }
    let end: usize = find_char(chars.as_slice(), 0, '\n');
    chars.truncate(end);
    proof {
        assert(chars@ =~= message@.take(end as int));
    }
    trim(crate::text::string_of(chars.as_slice()).as_str())
}

/// Whether the setting has the given key.
pub open spec fn has_key(setting: SettingDefinition, key: Seq<char>) -> bool {
    setting.key@ == key
}

/// Whether a setting takes a whole number.
pub open spec fn is_integer(kind: SettingKind) -> bool {
    kind is PositiveInteger || kind is NonNegativeInteger
}

fn takes_integer(kind: &SettingKind) -> (yes: bool)
    ensures
        yes == is_integer(*kind),
{
    match kind {
        SettingKind::PositiveInteger | SettingKind::NonNegativeInteger => true,
        _ => false,
    }
}

/// What is said above the input of a setting.
pub open spec fn input_description(setting: SettingDefinition) -> Seq<char> {
    let default = setting.default_value@ + ")"@;
    if has_key(setting, "ui.title.requested_input"@) {
        "JSON-compatible array of strings to show before the title, e.g. [\"!\", \" \"] (default: "@
            + default
    } else if has_key(setting, "ui.title.progress"@) {
        "JSON-compatible array of strings to cycle in the title, e.g. [\".\", \"..\", \"...\"] (default: "@
            + default
    } else if has_key(setting, "ui.editor"@) {
        "TOML command array (foreground) or { command = [...], mode = \"foreground\" | \"background\" } (default: "@
            + default
    } else if is_integer(setting.kind) {
        setting.description@ + " (int, default: "@ + default
    } else {
        setting.description@ + " (default: "@ + default
    }
}

pub fn setting_input_description(setting: &SettingDefinition) -> (description: String)
    ensures
        description@ == input_description(*setting),
{
    let default: String = concat(setting.default_value.as_str(), ")");
    if same_text(setting.key.as_str(), "ui.title.requested_input") {
        concat(
            "JSON-compatible array of strings to show before the title, e.g. [\"!\", \" \"] (default: ",
            default.as_str(),
        )
    } else if same_text(setting.key.as_str(), "ui.title.progress") {
        concat(
            "JSON-compatible array of strings to cycle in the title, e.g. [\".\", \"..\", \"...\"] (default: ",
            default.as_str(),
        )
    } else if same_text(setting.key.as_str(), "ui.editor") {
        concat(
            "TOML command array (foreground) or { command = [...], mode = \"foreground\" | \"background\" } (default: ",
            default.as_str(),
        )
    } else if takes_integer(&setting.kind) {
        concat3(setting.description.as_str(), " (int, default: ", default.as_str())
    } else {
        concat3(setting.description.as_str(), " (default: ", default.as_str())
    }
}

/// The language in which a setting's value is highlighted.
pub open spec fn syntax_language(setting: SettingDefinition) -> Option<Seq<char>> {
    if has_key(setting, "ui.editor"@) {
        Some("toml"@)
    } else if setting.kind is KeyBindings || setting.kind is TomlChoices {
        Some("json"@)
    } else {
        None
    }
}

pub fn setting_syntax_language(setting: &SettingDefinition) -> (language: Option<&'static str>)
    ensures
        (match language {
            None => None,
            Some(language) => Some(language@),
        }) == syntax_language(*setting),
{
    if same_text(setting.key.as_str(), "ui.editor") {
        return Some("toml");
    }
    match &setting.kind {
        SettingKind::KeyBindings | SettingKind::TomlChoices(_) => Some("json"),
        _ => None,
    }
}

/// What stands in the empty input of a setting.
pub open spec fn input_placeholder(setting: SettingDefinition) -> Seq<char> {
    match setting.kind {
        SettingKind::KeyBindings => "e.g. [\"ctrl+v\"]"@,
        SettingKind::TomlArray => "e.g. [\"provider/model\", \"provider/model\"]"@,
        SettingKind::TomlChoices(_) => if has_key(setting, "ui.title.requested_input"@) {
            "e.g. [\"(!)\", \"(.)\"]"@
        } else if has_key(setting, "ui.title.progress"@) {
            "e.g. [\".\", \"..\", \"...\"]"@
        } else if has_key(setting, "ui.editor"@) {
            "e.g. { command = [\"nvim\"], mode = \"foreground\" }"@
        } else {
            "e.g. [\"one\", \"two\"]"@
        },
        _ => "enter a value"@,
    }
}

pub fn setting_placeholder(setting: &SettingDefinition) -> (placeholder: &'static str)
    ensures
        placeholder@ == input_placeholder(*setting),
{
    match &setting.kind {
        SettingKind::KeyBindings => "e.g. [\"ctrl+v\"]",
        SettingKind::TomlArray => "e.g. [\"provider/model\", \"provider/model\"]",
        SettingKind::TomlChoices(_) => {
            if same_text(setting.key.as_str(), "ui.title.requested_input") {
                "e.g. [\"(!)\", \"(.)\"]"
            } else if same_text(setting.key.as_str(), "ui.title.progress") {
                "e.g. [\".\", \"..\", \"...\"]"
            } else if same_text(setting.key.as_str(), "ui.editor") {
                "e.g. { command = [\"nvim\"], mode = \"foreground\" }"
            } else {
                "e.g. [\"one\", \"two\"]"
            }
        },
        _ => "enter a value",
    }
}

/// How a setting is edited.
#[derive(Debug)]
pub enum SettingEditor {
    /// Choose a model.
    Models,
    /// Choose a value; `custom` is what a custom editor starts with.
    Choices { choices: Vec<(String, String)>, list: ListState, custom: Option<String> },
    Input { value: String, cursor: usize },
}

/// The position of a choice, or the number of them.
pub open spec fn choice_position(choices: Seq<(String, String)>, value: Seq<char>) -> int
    decreases choices.len(),
{
    if choices.len() == 0 {
        0
    } else if choices[0].0@ == value {
        0
    } else {
        1 + choice_position(choices.drop_first(), value)
    }
}

/// The list of some choices, with the one in use selected.
pub open spec fn choice_list(choices: Seq<(String, String)>, value: Seq<char>) -> ListState {
    let at = choice_position(choices, value);
    settled(
        choices.len() as int,
        if at < choices.len() { at } else { 0 },
        0,
        VISIBLE_MENU_ITEMS as int,
    )
}

fn list_of_choices(choices: &Vec<(String, String)>, value: &str) -> (list: ListState)
    ensures
        list == choice_list(choices@, value@),
{
    let mut i: usize = 0;
    proof {
        assert(choices@.skip(0) =~= choices@);
    }
    while i < choices.len()
        invariant
            i <= choices@.len(),
            choice_position(choices@, value@) == i + choice_position(
                choices@.skip(i as int),
                value@,
            ),
        decreases choices@.len() - i,
    {
        proof {
            assert(choices@.skip(i as int).drop_first() =~= choices@.skip(i + 1));
        }
        if same_text(choices[i].0.as_str(), value) {
            return ListState::selectable_at(choices.len(), i, VISIBLE_MENU_ITEMS);
        }
        i += 1;
    }
    ListState::selectable_at(choices.len(), 0, VISIBLE_MENU_ITEMS)
}

/// The choices that a kind of setting offers by itself.
pub open spec fn own_choices(kind: SettingKind) -> Option<Seq<(String, String)>> {
    match kind {
        SettingKind::List(choices) => Some(choices@),
        SettingKind::TomlChoices(choices) => Some(choices@),
        SettingKind::DefaultAgentPicker(choices) => Some(choices@),
        _ => None,
    }
}

/// The text that the input of a setting starts with.
pub open spec fn initial_input(row: SettingRow) -> Seq<char> {
    match row.definition.kind {
        SettingKind::TomlArray | SettingKind::KeyBindings => match row.explicit_value {
            Some(value) => value@,
            None => row.effective_value@,
        },
        _ => if (has_key(row.definition, "ui.composer_max_rows"@) || has_key(
            row.definition,
            "ui.colors.background"@,
        )) && row.explicit_value is None {
            Seq::empty()
        } else {
            row.effective_value@
        },
    }
}

/// Whether a setting is edited in this way.
pub open spec fn edited_by(row: SettingRow, editor: SettingEditor) -> bool {
    match row.definition.kind {
        SettingKind::ModelPicker => editor is Models,
        SettingKind::Boolean => editor matches SettingEditor::Choices { choices, list, custom }
            && {
            &&& choices@.len() == 2
            &&& choices@[0].0@ == "true"@
            &&& choices@[0].1@ == row.definition.description@
            &&& choices@[1].0@ == "false"@
            &&& choices@[1].1@ == "do not "@ + row.definition.description@
            &&& list == settled(
                2,
                if row.effective_value@ == "true"@ { 0 } else { 1 },
                0,
                VISIBLE_MENU_ITEMS as int,
            )
            &&& custom is None
        },
        _ => match own_choices(row.definition.kind) {
            Some(own) => editor matches SettingEditor::Choices { choices, list, custom } && {
                &&& choices@ == own
                &&& list == choice_list(own, row.effective_value@)
                &&& if row.definition.kind is TomlChoices {
                    custom matches Some(value) && value@ == match row.explicit_value {
                        Some(text) => if written_out(text@) { text@ } else { "[]"@ },
                        None => "[]"@,
                    }
                } else {
                    custom is None
                }
            },
            None => editor matches SettingEditor::Input { value, cursor } && value@
                == initial_input(row) && cursor == utf8_len(value@),
        },
    }
}

/// How a setting is edited.
pub fn setting_editor(row: &SettingRow) -> (editor: SettingEditor)
    ensures
        edited_by(*row, editor),
{
    match &row.definition.kind {
        SettingKind::ModelPicker => SettingEditor::Models,
        SettingKind::Boolean => {
            let description = row.definition.description.as_str();
            let mut choices: Vec<(String, String)> = Vec::new();
            choices.push(("true".to_owned(), description.to_owned()));
            choices.push(("false".to_owned(), concat("do not ", description)));
            let selected: usize = if same_text(row.effective_value.as_str(), "true") {
                0
            } else {
                1
            };
            SettingEditor::Choices {
                choices,
                list: ListState::selectable_at(2, selected, VISIBLE_MENU_ITEMS),
                custom: None,
            }
        },
        SettingKind::List(choices) => SettingEditor::Choices {
            choices: copy_pairs(choices),
            list: list_of_choices(choices, row.effective_value.as_str()),
            custom: None,
        },
        SettingKind::TomlChoices(choices) => SettingEditor::Choices {
            choices: copy_pairs(choices),
            list: list_of_choices(choices, row.effective_value.as_str()),
            custom: Some(custom_setting_value(copy_text(&row.explicit_value))),
        },
        SettingKind::DefaultAgentPicker(choices) => SettingEditor::Choices {
            choices: copy_pairs(choices),
            list: list_of_choices(choices, row.effective_value.as_str()),
            custom: None,
        },
        SettingKind::TomlArray | SettingKind::KeyBindings => {
            let value: String = match &row.explicit_value {
                Some(value) => value.clone(),
                None => row.effective_value.clone(),
            };
            let cursor: usize = cursor_at_end(value.as_str());
            SettingEditor::Input { value, cursor }
        },
        _ => {
            let key = row.definition.key.as_str();
            let value: String = if row.explicit_value.is_none() && (same_text(
                key,
                "ui.composer_max_rows",
            ) || same_text(key, "ui.colors.background")) {
                String::new()
            } else {
                row.effective_value.clone()
            };
            let cursor: usize = cursor_at_end(value.as_str());
            SettingEditor::Input { value, cursor }
        },
    }
}

/// What is to be done after a key in the editor of a setting.
#[derive(Debug)]
pub enum SettingStep {
    Stay,
    Close,
    /// Write the value out, starting from a text with the cursor at its end.
    Custom { value: String, cursor: usize },
    /// Save a value, as it is written in the configuration.
    Save(String),
    Reset,
}

/// The effect of `setting_choices_key`.
pub open spec fn setting_choices_key_effect(
    kind: SettingKind,
    choices: Seq<(String, String)>,
    list: ListState,
    new_list: ListState,
    custom: Option<String>,
    code: KeyCode,
    step: SettingStep,
) -> bool {
    &&& (new_list == list_after(
            list,
            choices.len() as int,
            VISIBLE_MENU_ITEMS as int,
            code,
        ))
    &&& (if code != KeyCode::Enter {
            step is Stay
        } else if choices.len() == 0 {
            step is Close
        } else {
            let chosen = choices[new_list.at_spec()].0@;
            if kind is TomlChoices && chosen == "custom"@ {
                step matches SettingStep::Custom { value, cursor } && value@ == match custom {
                    None => "[]"@,
                    Some(text) => text@,
                } && cursor == utf8_len(value@)
            } else {
                step matches SettingStep::Save(raw) && raw@ == if kind is List {
                    json_string(chosen)
                } else {
                    chosen
                }
            }
        })
}

/// A key where a value is chosen.
pub fn setting_choices_key(
    kind: &SettingKind,
    choices: &Vec<(String, String)>,
    list: &mut ListState,
    custom: &Option<String>,
    code: KeyCode,
) -> (step: SettingStep)
    ensures
        setting_choices_key_effect(*kind, choices@, *old(list), *final(list), *custom, code, step),
{
    let moved: bool = move_list(list, choices.len(), VISIBLE_MENU_ITEMS, code);
    if moved || code != KeyCode::Enter {
        return SettingStep::Stay;
    }
    if choices.len() == 0 {
        return SettingStep::Close;
    }
    let chosen = choices[list.at()].0.as_str();
    match kind {
        SettingKind::TomlChoices(_) => {
            if same_text(chosen, "custom") {
                let value: String = match custom {
                    None => "[]".to_owned(),
                    Some(text) => text.clone(),
                };
                let cursor: usize = cursor_at_end(value.as_str());
                return SettingStep::Custom { value, cursor };
            }
            SettingStep::Save(chosen.to_owned())
        },
        SettingKind::List(_) => SettingStep::Save(string_text(chosen)),
        _ => SettingStep::Save(chosen.to_owned()),
    }
}

/// Whether a key types something that cannot stand in a whole number.
pub open spec fn types_no_digit(key: crate::key::KeyEvent) -> bool {
    key.modifiers.is_empty() && (key.code matches KeyCode::Char(c) && !crate::number::is_digit(c))
}

/// The effect of `setting_input_key`.
pub open spec fn setting_input_key_effect(
    kind: SettingKind,
    value: String,
    new_value: String,
    cursor: usize,
    new_cursor: usize,
    key: SurfaceKey,
    step: SettingStep,
) -> bool {
    &&& (field_is(
            new_value@,
            new_cursor as int,
            if key.submit || (is_integer(kind) && types_no_digit(key.key)) {
                InputView::of(value@, cursor as int)
            } else {
                field_after(value@, cursor as int, key.key)
            },
        ))
    &&& (if !key.submit {
            step is Stay
        } else if trimmed(value@).len() == 0 {
            step is Reset
        } else {
            step matches SettingStep::Save(raw) && raw@ == if kind is Text {
                json_string(value@)
            } else {
                value@
            }
        })
}

/// A key where a value is written out: an empty one resets the setting.
pub fn setting_input_key(
    kind: &SettingKind,
    value: &mut String,
    cursor: &mut usize,
    key: SurfaceKey,
) -> (step: SettingStep)
    ensures
        setting_input_key_effect(
            *kind,
            *old(value),
            *final(value),
            *old(cursor),
            *final(cursor),
            key,
            step,
        ),
{
    if key.submit {
        *cursor = normalized(value.as_str(), *cursor);
        if trim(value.as_str()).as_str().is_empty() {
            return SettingStep::Reset;
        }
        return match kind {
            SettingKind::Text => SettingStep::Save(string_text(value.as_str())),
            _ => SettingStep::Save(value.clone()),
        };
    }
    let refused: bool = takes_integer(kind) && key.key.modifiers.is_empty() && match key.key.code {
        KeyCode::Char(c) => {
            let u: u32 = c as u32;
            u < 48 || u > 57
        },
        _ => false,
    };
    if refused {
        *cursor = normalized(value.as_str(), *cursor);
    } else {
        edit_field(value, cursor, key.key);
    }
    SettingStep::Stay
}

} // verus!
