//! Setting up a packaged MCP server: its secrets and its parameters.

use vstd::prelude::*;
use vstd::string::*;
use crate::mcp::{truth, McpLocation, McpScope};
use crate::number::{is_digit, lemma_decimal, parse_signed, signed_in};
use crate::render::{concat, decimal, decimal_text};
use crate::text::chars_of;
use crate::unicode::{
    lemma_trimmed_end, lemma_trimmed_start, trim, trimmed, trimmed_end, trimmed_start, views,
    whitespace,
};

verus! {

/// What a parameter takes.
#[derive(Clone, Copy, Debug, PartialEq, Eq, Structural)]
pub enum McpPackageParameterType {
    Text,
    TextList,
    Integer,
    Boolean,
}

/// The value of a parameter.
#[derive(Debug)]
pub enum McpParameterValue {
    Text(String),
    Texts(Vec<String>),
    Integer(i64),
    Boolean(bool),
}

/// The content of a [`McpParameterValue`].
#[verifier::ext_equal]
pub enum ParameterView {
    Text(Seq<char>),
    Texts(Seq<Seq<char>>),
    Integer(i64),
    Boolean(bool),
}

impl View for McpParameterValue {
    type V = ParameterView;

    open spec fn view(&self) -> ParameterView {
        match *self {
            McpParameterValue::Text(text) => ParameterView::Text(text@),
            McpParameterValue::Texts(texts) => ParameterView::Texts(views(texts@)),
            McpParameterValue::Integer(value) => ParameterView::Integer(value),
            McpParameterValue::Boolean(value) => ParameterView::Boolean(value),
        }
    }
}

/// A parameter of a package.
#[derive(Debug)]
pub struct McpPackageParameter {
    pub id: String,
    pub label: String,
    pub kind: McpPackageParameterType,
    pub description: Option<String>,
}

/// A secret of a package.
#[derive(Debug)]
pub struct McpPackageSecret {
    pub id: String,
    pub label: String,
    pub description: Option<String>,
    pub configured: bool,
}

/// A package that is being set up. What is given for a secret or a parameter
/// stands at the position of the secret or the parameter.
#[derive(Debug)]
pub struct McpPackageDraft {
    pub package_id: String,
    pub package_name: String,
    pub server_name: String,
    pub location: McpLocation,
    pub secrets: Vec<McpPackageSecret>,
    pub parameters: Vec<McpPackageParameter>,
    pub values: Vec<Option<McpParameterValue>>,
    pub secret_updates: Vec<Option<String>>,
    pub installed: bool,
}

/// A field of the setup.
#[derive(Clone, Copy, Debug, PartialEq, Eq, Structural)]
pub enum McpPackageField {
    Parameter(usize),
    Secret(usize),
}

impl McpPackageDraft {
    /// There is a place for a value of each secret and each parameter.
    pub open spec fn valid(self) -> bool {
        &&& self.values@.len() == self.parameters@.len()
        &&& self.secret_updates@.len() == self.secrets@.len()
        &&& 1 + self.parameters@.len() + self.secrets@.len() <= usize::MAX
    }

    /// Nothing changes but the values that are given.
    pub open spec fn same_package(self, other: McpPackageDraft) -> bool {
        &&& self.package_id == other.package_id
        &&& self.package_name == other.package_name
        &&& self.server_name == other.server_name
        &&& self.location == other.location
        &&& self.secrets == other.secrets
        &&& self.parameters == other.parameters
        &&& self.installed == other.installed
    }
}

/// The draft of a package that is not installed: globally, under its own id,
/// with its default values and without secrets.
pub fn package_draft(
    package_id: String,
    package_name: String,
    secrets: Vec<McpPackageSecret>,
    parameters: Vec<McpPackageParameter>,
    defaults: Vec<Option<McpParameterValue>>,
) -> (draft: McpPackageDraft)
    requires
        defaults@.len() == parameters@.len(),
        1 + parameters@.len() + secrets@.len() <= usize::MAX,
    ensures
        draft.valid(),
        draft.package_id == package_id,
        draft.package_name == package_name,
        draft.server_name@ == package_id@,
        draft.location == (McpLocation { scope: McpScope::Global, agent: None }),
        draft.secrets == secrets,
        draft.parameters == parameters,
        draft.values == defaults,
        forall|i: int| 0 <= i < secrets@.len() ==> #[trigger] draft.secret_updates@[i] is None,
        !draft.installed,
{
    let mut secret_updates: Vec<Option<String>> = Vec::new();
    let mut i: usize = 0;
    while i < secrets.len()
        invariant
            i <= secrets@.len(),
            secret_updates@.len() == i,
            forall|k: int| 0 <= k < i ==> #[trigger] secret_updates@[k] is None,
        decreases secrets@.len() - i,
    {
        secret_updates.push(None);
        i += 1;
    }
    McpPackageDraft {
        server_name: package_id.clone(),
        package_id,
        package_name,
        location: McpLocation { scope: McpScope::Global, agent: None },
        secrets,
        parameters,
        values: defaults,
        secret_updates,
        installed: false,
    }
}

/// The items of the setup: one to save it, the secrets, and the parameters.
pub open spec fn setup_count(draft: McpPackageDraft) -> int {
    1 + draft.parameters@.len() as int + draft.secrets@.len() as int
}

pub fn package_setup_count(draft: &McpPackageDraft) -> (count: usize)
    requires
        draft.valid(),
    ensures
        count == setup_count(*draft),
{
    1 + draft.parameters.len() + draft.secrets.len()
}

/// The field that an item of the setup is.
pub open spec fn setup_field(draft: McpPackageDraft, selected: int) -> Option<McpPackageField> {
    if selected <= 0 {
        None
    } else if selected - 1 < draft.secrets@.len() {
        Some(McpPackageField::Secret((selected - 1) as usize))
    } else if selected - 1 - draft.secrets@.len() < draft.parameters@.len() {
        Some(McpPackageField::Parameter((selected - 1 - draft.secrets@.len()) as usize))
    } else {
        None
    }
}

pub fn package_setup_field(draft: &McpPackageDraft, selected: usize) -> (field: Option<
    McpPackageField,
>)
    ensures
        field == setup_field(*draft, selected as int),
{
    if selected == 0 {
        return None;
    }
    let index: usize = selected - 1;
    if index < draft.secrets.len() {
        return Some(McpPackageField::Secret(index));
    }
    let index: usize = index - draft.secrets.len();
    if index < draft.parameters.len() {
        Some(McpPackageField::Parameter(index))
    } else {
        None
    }
}

/// The item of the setup that a field is.
pub open spec fn setup_index(draft: McpPackageDraft, field: McpPackageField) -> int {
    match field {
        McpPackageField::Secret(index) => index + 1,
        McpPackageField::Parameter(index) => 1 + draft.secrets@.len() + index,
    }
}

/// Whether a field belongs to the package.
pub open spec fn has_field(draft: McpPackageDraft, field: McpPackageField) -> bool {
    match field {
        McpPackageField::Secret(index) => index < draft.secrets@.len(),
        McpPackageField::Parameter(index) => index < draft.parameters@.len(),
    }
}

/// The item to return to from a field.
pub fn package_field_index(draft: &McpPackageDraft, field: McpPackageField) -> (index: usize)
    requires
        draft.valid(),
        has_field(*draft, field),
    ensures
        index == setup_index(*draft, field),
{
    match field {
        McpPackageField::Secret(index) => index + 1,
        McpPackageField::Parameter(index) => {
            let secrets: usize = draft.secrets.len();
            let parameters: usize = draft.parameters.len();
            1 + secrets + index
        },
    }
}

/// Each item but the first is a field of the package, each field is an item,
/// and returning from a field selects the item that opened it.
pub proof fn law_setup_items_and_fields_agree(
    draft: McpPackageDraft,
    selected: int,
    field: McpPackageField,
)
    requires
        draft.valid(),
    ensures
        setup_field(draft, selected) is Some <==> 0 < selected < setup_count(draft),
        setup_field(draft, selected) matches Some(found) ==> has_field(draft, found) && setup_index(
            draft,
            found,
        ) == selected,
        has_field(draft, field) ==> setup_field(draft, setup_index(draft, field)) == Some(field),
{
}

/// Some texts with a separator between them.
pub open spec fn separated(texts: Seq<Seq<char>>, separator: Seq<char>) -> Seq<char>
    decreases texts.len(),
{
    if texts.len() == 0 {
        Seq::empty()
    } else if texts.len() == 1 {
        texts[0]
    } else {
        separated(texts.drop_last(), separator) + separator + texts.last()
    }
}

/// Some texts with a separator between them.
pub fn separate(texts: &[String], separator: &str) -> (text: String)
    ensures
        text@ == separated(views(texts@), separator@),
{
    let mut text: String = String::new();
    let mut i: usize = 0;
    while i < texts.len()
        invariant
            i <= texts@.len(),
            text@ == separated(views(texts@).take(i as int), separator@),
        decreases texts@.len() - i,
    {
        let ghost before = text@;
        if i > 0 {
            text.append(separator);
        }
        text.append(texts[i].as_str());
        i += 1;
        proof {
            let now = views(texts@).take(i as int);
            assert(now.drop_last() =~= views(texts@).take(i - 1));
            assert(now.last() == texts@[i - 1]@);
            if i == 1 {
                assert(text@ =~= now[0]);
            }
        }
    }
    proof {
        assert(views(texts@).take(i as int) =~= views(texts@));
    }
    text
}

/// A number with its sign, if it is negative.
pub open spec fn signed_decimal(value: i64) -> Seq<char> {
    if value < 0 { "-"@ + decimal((-(value as int)) as nat) } else { decimal(value as nat) }
}

fn signed_text(value: i64) -> (text: String)
    ensures
        text@ == signed_decimal(value),
{
    if value == i64::MIN {
        concat("-", decimal_text(0x8000_0000_0000_0000u64).as_str())
    } else if value < 0 {
        concat("-", decimal_text((-value) as u64).as_str())
    } else {
        decimal_text(value as u64)
    }
}

/// The text in which a value is edited.
pub open spec fn shown_value(value: ParameterView) -> Seq<char> {
    match value {
        ParameterView::Text(text) => text,
        ParameterView::Texts(texts) => separated(texts, ", "@),
        ParameterView::Integer(value) => signed_decimal(value),
        ParameterView::Boolean(value) => truth(value),
    }
}

impl McpParameterValue {
    /// The text in which the value is edited.
    pub fn to_text(&self) -> (text: String)
        ensures
            text@ == shown_value(self@),
    {
        match self {
            McpParameterValue::Text(text) => text.clone(),
            McpParameterValue::Texts(texts) => separate(texts.as_slice(), ", "),
            McpParameterValue::Integer(value) => signed_text(*value),
            McpParameterValue::Boolean(value) => if *value {
                "true".to_owned()
            } else {
                "false".to_owned()
            },
        }
    }
}

/// The text in which a field is edited.
pub open spec fn field_value(draft: McpPackageDraft, field: McpPackageField) -> Seq<char> {
    match field {
        McpPackageField::Parameter(index) => match draft.values@[index as int] {
            None => Seq::empty(),
            Some(value) => shown_value(value@),
        },
        McpPackageField::Secret(index) => match draft.secret_updates@[index as int] {
            None => Seq::empty(),
            Some(secret) => secret@,
        },
    }
}

pub fn package_field_value(draft: &McpPackageDraft, field: &McpPackageField) -> (value: String)
    requires
        draft.valid(),
        has_field(*draft, *field),
    ensures
        value@ == field_value(*draft, *field),
{
    match field {
        McpPackageField::Parameter(index) => match &draft.values[*index] {
            None => String::new(),
            Some(value) => value.to_text(),
        },
        McpPackageField::Secret(index) => match &draft.secret_updates[*index] {
            None => String::new(),
            Some(secret) => secret.clone(),
        },
    }
}

/// The index of the first comma, or the length.
pub open spec fn first_comma(text: Seq<char>) -> int
    decreases text.len(),
{
    if text.len() == 0 || text[0] == ',' { 0 } else { 1 + first_comma(text.drop_first()) }
}

/// The parts of a text between commas, without white space around them and
/// without blank ones.
pub open spec fn comma_parts(text: Seq<char>) -> Seq<Seq<char>>
    decreases text.len(),
{
    let end = first_comma(text);
    let part = trimmed(text.take(end));
    let here = if part.len() == 0 { Seq::empty() } else { seq![part] };
    if end < 0 || end >= text.len() {
        here
    } else {
        here + comma_parts(text.skip(end + 1))
    }
}

proof fn lemma_first_comma(text: Seq<char>)
    ensures
        0 <= first_comma(text) <= text.len(),
        first_comma(text) < text.len() ==> text[first_comma(text)] == ',',
        forall|i: int| 0 <= i < first_comma(text) ==> #[trigger] text[i] != ',',
    decreases text.len(),
{
    if text.len() > 0 && text[0] != ',' {
        let rest = text.drop_first();
        lemma_first_comma(rest);
        assert forall|i: int| 0 <= i < first_comma(text) implies #[trigger] text[i] != ',' by {
            if i > 0 {
                assert(rest[i - 1] == text[i]);
            }
        }
        if first_comma(text) < text.len() {
            assert(rest[first_comma(rest)] == text[first_comma(text)]);
        }
    }
}

/// Splits a text at its commas.
pub fn split_commas(text: &str) -> (parts: Vec<String>)
    ensures
        views(parts@) == comma_parts(text@),
{
    let chars: Vec<char> = chars_of(text);
    let mut parts: Vec<String> = Vec::new();
    let mut start: usize = 0;
    let mut more: bool = true;
    proof {
        assert(text@.skip(0) =~= text@);
        assert(views(parts@) =~= Seq::empty());
        assert(Seq::<Seq<char>>::empty() + comma_parts(text@) =~= comma_parts(text@));
    }
    while more
        invariant
            start <= chars@.len(),
            chars@ == text@,
            more ==> comma_parts(text@) == views(parts@) + comma_parts(text@.skip(start as int)),
            !more ==> comma_parts(text@) == views(parts@),
        decreases chars@.len() - start + if more { 1int } else { 0 },
    {
        let ghost rest = text@.skip(start as int);
        let mut end: usize = start;
        proof {
            assert(rest.skip(0) =~= rest);
        }
        while end < chars.len() && chars[end] != ','
            invariant
                start <= end <= chars@.len(),
                chars@ == text@,
                rest == text@.skip(start as int),
                first_comma(rest) == end - start + first_comma(rest.skip(end - start)),
            decreases chars@.len() - end,
        {
            proof {
                let tail = rest.skip(end - start);
                assert(tail[0] == chars@[end as int]);
                assert(tail.drop_first() =~= rest.skip(end - start + 1));
            }
            end += 1;
        }
        proof {
            let tail = rest.skip(end - start);
            if end < chars@.len() {
                assert(tail[0] == chars@[end as int]);
            }
            assert(first_comma(tail) == 0);
            assert(rest.take(end - start) =~= text@.subrange(start as int, end as int));
        }
        let part: String = trim(
            crate::menu::text_part(chars.as_slice(), start, end).as_str(),
        );
        let ghost before = views(parts@);
        let ghost shown = part@;
        let blank: bool = part.as_str().is_empty();
        if !blank {
            parts.push(part);
            proof {
                assert(views(parts@) =~= before + seq![shown]);
            }
        }
        proof {
            let here = if shown.len() == 0 { Seq::empty() } else { seq![shown] };
            assert(views(parts@) =~= before + here);
        }
        if end < chars.len() {
            start = end + 1;
            proof {
                let next = comma_parts(text@.skip(start as int));
                assert(rest.skip(first_comma(rest) + 1) =~= text@.skip(start as int));
                let here = if shown.len() == 0 { Seq::empty() } else { seq![shown] };
                assert(views(parts@) + next =~= before + (here + next));
            }
        } else {
            more = false;
        }
    }
    parts
}

/// What an edited text stands for in a parameter, if it can stand there.
pub open spec fn value_in(
    kind: McpPackageParameterType,
    value: Seq<char>,
) -> Option<ParameterView> {
    match kind {
        McpPackageParameterType::Text => Some(ParameterView::Text(value)),
        McpPackageParameterType::TextList => Some(ParameterView::Texts(comma_parts(value))),
        McpPackageParameterType::Integer => match signed_in(value) {
            None => None,
            Some(number) => Some(ParameterView::Integer(number)),
        },
        McpPackageParameterType::Boolean => None,
    }
}

/// What is said of a text that cannot stand in a parameter.
pub open spec fn value_error(kind: McpPackageParameterType) -> Seq<char> {
    if kind == McpPackageParameterType::Boolean {
        "boolean parameters are toggled from the setup menu"@
    } else {
        "expected an integer"@
    }
}

/// Puts an edited text into a field. A refused text leaves the draft as it is.
pub fn apply_package_field(draft: &mut McpPackageDraft, field: &McpPackageField, value: String)
    -> (result: Result<(), String>)
    requires
        old(draft).valid(),
        match *field {
            McpPackageField::Secret(index) => index < old(draft).secrets@.len(),
            McpPackageField::Parameter(_) => true,
        },
    ensures
        final(draft).valid(),
        final(draft).same_package(*old(draft)),
        match *field {
            McpPackageField::Secret(index) => {
                &&& result is Ok
                &&& final(draft).values == old(draft).values
                &&& final(draft).secret_updates@ == old(draft).secret_updates@.update(
                    index as int,
                    Some(value),
                )
            },
            McpPackageField::Parameter(index) => {
                if index >= old(draft).parameters@.len() {
                    &&& result matches Err(message) && message@ == "unknown package parameter"@
                    &&& *final(draft) == *old(draft)
                } else {
                    let kind = old(draft).parameters@[index as int].kind;
                    &&& final(draft).secret_updates == old(draft).secret_updates
                    &&& match value_in(kind, value@) {
                        None => {
                            &&& result matches Err(message) && message@ == value_error(kind)
                            &&& *final(draft) == *old(draft)
                        },
                        Some(content) => {
                            &&& result is Ok
                            &&& final(draft).values@[index as int] matches Some(stored)
                                && stored@ == content
                            &&& forall|i: int|
                                0 <= i < old(draft).values@.len() && i != index ==>
                                    final(draft).values@[i] == #[trigger] old(draft).values@[i]
                        },
                    }
                }
            },
        },
{
    match field {
        McpPackageField::Secret(index) => {
            draft.secret_updates.set(*index, Some(value));
            Ok(())
        },
        McpPackageField::Parameter(index) => {
            if *index >= draft.parameters.len() {
                return Err("unknown package parameter".to_owned());
            }
            let stored: McpParameterValue = match draft.parameters[*index].kind {
                McpPackageParameterType::Text => McpParameterValue::Text(value),
                McpPackageParameterType::TextList => McpParameterValue::Texts(
                    split_commas(value.as_str()),
                ),
                McpPackageParameterType::Integer => match parse_signed(value.as_str()) {
                    None => {
                        return Err("expected an integer".to_owned());
                    },
                    Some(number) => McpParameterValue::Integer(number),
                },
                McpPackageParameterType::Boolean => {
                    return Err("boolean parameters are toggled from the setup menu".to_owned());
                },
            };
            draft.values.set(*index, Some(stored));
            Ok(())
        },
    }
}

/// Whether a parameter is on.
pub open spec fn is_on(value: Option<McpParameterValue>) -> bool {
    match value {
        Some(McpParameterValue::Boolean(true)) => true,
        _ => false,
    }
}

/// Switches a parameter on, or off if it is on.
pub fn toggle_parameter(draft: &mut McpPackageDraft, index: usize)
    requires
        old(draft).valid(),
        index < old(draft).parameters@.len(),
    ensures
        final(draft).valid(),
        final(draft).same_package(*old(draft)),
        final(draft).secret_updates == old(draft).secret_updates,
        final(draft).values@ == old(draft).values@.update(
            index as int,
            Some(McpParameterValue::Boolean(!is_on(old(draft).values@[index as int]))),
        ),
{
    let on: bool = match &draft.values[index] {
        Some(McpParameterValue::Boolean(value)) => *value,
        _ => false,
    };
    draft.values.set(index, Some(McpParameterValue::Boolean(!on)));
}

/// Whether a value is one that a parameter takes, written so that it can be read again:
/// the texts of a list are not blank, have no white space around them and no commas.
pub open spec fn is_written(kind: McpPackageParameterType, value: ParameterView) -> bool {
    match value {
        ParameterView::Text(_) => kind == McpPackageParameterType::Text,
        ParameterView::Texts(texts) => kind == McpPackageParameterType::TextList && forall|i: int|
            0 <= i < texts.len() ==> is_list_item(#[trigger] texts[i]),
        ParameterView::Integer(_) => kind == McpPackageParameterType::Integer,
        ParameterView::Boolean(_) => false,
    }
}

/// Whether a text can stand in a list of texts.
pub open spec fn is_list_item(text: Seq<char>) -> bool {
    text.len() > 0 && trimmed(text) == text && !text.contains(',')
}

proof fn lemma_indented_end(text: Seq<char>)
    ensures
        trimmed_end(seq![' '] + text) == if trimmed_end(text) > 0 {
            1 + trimmed_end(text)
        } else {
            0
        },
    decreases text.len(),
{
    let indented = seq![' '] + text;
    lemma_trimmed_end(text);
    assert(whitespace(' '));
    if text.len() == 0 {
        assert(indented.last() == ' ');
        assert(indented.drop_last() =~= Seq::empty());
        assert(trimmed_end(Seq::<char>::empty()) == 0);
    } else {
        assert(indented.last() == text.last());
        assert(indented.drop_last() =~= seq![' '] + text.drop_last());
        lemma_indented_end(text.drop_last());
    }
}

proof fn lemma_indented_trimmed(text: Seq<char>)
    ensures
        trimmed(seq![' '] + text) == trimmed(text),
{
    let indented = seq![' '] + text;
    let end = trimmed_end(text);
    lemma_trimmed_end(text);
    lemma_indented_end(text);
    let head = text.take(end);
    lemma_trimmed_start(head);
    if end > 0 {
        let longer = indented.take(1 + end);
        assert(longer =~= seq![' '] + head);
        assert(longer.drop_first() =~= head);
        assert(longer.skip(1 + trimmed_start(head)) =~= head.skip(trimmed_start(head)));
    } else {
        assert(indented.take(0) =~= head);
    }
}

proof fn lemma_indented_parts(text: Seq<char>)
    ensures
        comma_parts(seq![' '] + text) == comma_parts(text),
{
    let indented = seq![' '] + text;
    let end = first_comma(text);
    lemma_first_comma(text);
    assert(indented.drop_first() =~= text);
    assert(first_comma(indented) == 1 + end);
    assert(indented.take(1 + end) =~= seq![' '] + text.take(end));
    lemma_indented_trimmed(text.take(end));
    if end < text.len() {
        assert(indented.skip(1 + end + 1) =~= text.skip(end + 1));
    }
}

proof fn lemma_separated_first(texts: Seq<Seq<char>>, separator: Seq<char>)
    requires
        texts.len() >= 2,
    ensures
        separated(texts, separator) == texts[0] + separator + separated(
            texts.drop_first(),
            separator,
        ),
    decreases texts.len(),
{
    let rest = texts.drop_first();
    assert(rest.last() == texts.last());
    if texts.len() == 2 {
        assert(texts.drop_last() =~= seq![texts[0]]);
        assert(rest =~= seq![texts[1]]);
        assert(separated(texts.drop_last(), separator) == texts[0]);
        assert(separated(rest, separator) == texts[1]);
    } else {
        lemma_separated_first(texts.drop_last(), separator);
        assert(texts.drop_last().drop_first() =~= rest.drop_last());
        assert(separated(texts, separator) =~= texts[0] + separator + separated(rest, separator));
    }
}

proof fn lemma_lists_are_read_back(texts: Seq<Seq<char>>)
    requires
        forall|i: int| 0 <= i < texts.len() ==> is_list_item(#[trigger] texts[i]),
    ensures
        comma_parts(separated(texts, ", "@)) == texts,
    decreases texts.len(),
{
    let text = separated(texts, ", "@);
    lemma_first_comma(text);
    if texts.len() == 0 {
        assert(text.take(0) =~= Seq::empty());
        assert(trimmed(Seq::<char>::empty()) =~= Seq::empty());
        assert(comma_parts(text) =~= texts);
    } else if texts.len() == 1 {
        assert(is_list_item(texts[0]));
        assert(text.take(text.len() as int) =~= text);
        assert(first_comma(text) == text.len());
        assert(comma_parts(text) =~= texts);
    } else {
        let first = texts[0];
        let rest = texts.drop_first();
        assert(is_list_item(first));
        reveal_strlit(", ");
        lemma_separated_first(texts, ", "@);
        let tail = separated(rest, ", "@);
        assert(text =~= first + seq![','] + (seq![' '] + tail));
        assert(text[first.len() as int] == ',');
        if first_comma(text) < first.len() {
            assert(text[first_comma(text)] == first[first_comma(text)]);
        }
        assert(first_comma(text) == first.len());
        assert(text.take(first.len() as int) =~= first);
        assert(text.skip(first.len() as int + 1) =~= seq![' '] + tail);
        lemma_indented_parts(tail);
        assert forall|i: int| 0 <= i < rest.len() implies is_list_item(#[trigger] rest[i]) by {
            assert(rest[i] == texts[i + 1]);
        }
        lemma_lists_are_read_back(rest);
        assert(seq![first] + rest =~= texts);
    }
}

/// Saving a value that was not changed changes nothing: what a parameter shows stands
/// for what it holds.
pub proof fn law_unchanged_values_are_kept(kind: McpPackageParameterType, value: ParameterView)
    requires
        is_written(kind, value),
    ensures
        value_in(kind, shown_value(value)) == Some(value),
{
    match value {
        ParameterView::Texts(texts) => lemma_lists_are_read_back(texts),
        ParameterView::Integer(number) => law_signed_numbers_are_read_back(number),
        _ => {},
    }
}

/// A signed number is read back from its text.
pub proof fn law_signed_numbers_are_read_back(value: i64)
    ensures
        signed_in(signed_decimal(value)) == Some(value),
{
    if value < 0 {
        let digits = decimal((-(value as int)) as nat);
        reveal_strlit("-");
        lemma_decimal((-(value as int)) as nat);
        assert(signed_decimal(value).skip(1) =~= digits);
        assert(signed_decimal(value)[0] == '-');
    } else {
        lemma_decimal(value as nat);
        assert(is_digit(decimal(value as nat)[0]));
    }
}

} // verus!
