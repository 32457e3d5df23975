//! Requests that wait for an answer: questions, permissions and plans.

use vstd::prelude::*;
use vstd::string::*;
use crate::control::{copy_text, cursor_at_end, edit_field, field_after, field_is, SurfaceKey};
use crate::dialogs::{note_columns, note_input_capacity, note_input_width, note_rows_shown};
use crate::key::KeyCode;
use crate::list::{max, min};
use crate::menu::{less, same_text};
use crate::multiline_input::{editor_after, MultilineInput};
use crate::single_line_input::InputView;
use crate::text::utf8_len;
use crate::unicode::{trim, trimmed};

verus! {

/// What a key made of a note that is being written.
#[derive(Clone, Copy, Debug, PartialEq, Eq, Structural)]
pub enum NoteOutcome {
    Edited,
    /// The note is left as it is.
    Closed,
    /// The note is left and forgotten.
    Discarded,
    Submit,
}

/// What a key asks of a note: a submission comes first, then a line ending,
/// then leaving the note.
pub open spec fn note_outcome(key: SurfaceKey) -> NoteOutcome {
    if key.submit {
        NoteOutcome::Submit
    } else if key.insert_newline {
        NoteOutcome::Edited
    } else if key.key.code == KeyCode::Esc {
        NoteOutcome::Discarded
    } else if key.cancel || key.key.code == KeyCode::Tab {
        NoteOutcome::Closed
    } else {
        NoteOutcome::Edited
    }
}

/// Whether a key leaves a note.
pub open spec fn leaves_note(key: SurfaceKey) -> bool {
    note_outcome(key) == NoteOutcome::Closed || note_outcome(key) == NoteOutcome::Discarded
}

/// What a key makes of a note that is shown in `width` columns.
pub open spec fn note_after(note: Seq<char>, cursor: int, key: SurfaceKey, width: int) -> InputView {
    let input = InputView::of(note, cursor);
    if key.insert_newline {
        input.insert("\n"@)
    } else {
        editor_after(input, key.key, note_columns(width), note_rows_shown(note, width))
    }
}

fn edit_note(note: &mut String, cursor: &mut usize, key: SurfaceKey, width: u16)
    ensures
        field_is(
            final(note)@,
            *final(cursor) as int,
            note_after(old(note)@, *old(cursor) as int, key, width as int),
        ),
{
    let mut input = MultilineInput::new(note.clone(), *cursor);
    if key.insert_newline {
        input.insert_text("\n");
    } else {
        let capacity: usize = note_input_capacity(&input, width);
        input.handle_key_in_view(key.key, note_input_width(width), capacity);
    }
    let parts = input.into_parts();
    *note = parts.0;
    *cursor = parts.1;
}

/// The effect of `note_key`.
pub open spec fn note_key_effect(
    note: String,
    new_note: String,
    editing: bool,
    new_editing: bool,
    cursor: usize,
    new_cursor: usize,
    key: SurfaceKey,
    width: u16,
    outcome: NoteOutcome,
) -> bool {
    &&& (outcome == note_outcome(key))
    &&& (new_editing == (editing && !leaves_note(key)))
    &&& (outcome == NoteOutcome::Discarded ==> new_note@ == Seq::<char>::empty() && new_cursor
            == 0)
    &&& (outcome == NoteOutcome::Edited ==> field_is(
            new_note@,
            new_cursor as int,
            note_after(note@, cursor as int, key, width as int),
        ))
    &&& (outcome == NoteOutcome::Closed || outcome == NoteOutcome::Submit ==> new_note == note
        && new_cursor == cursor)
}

/// Applies a key to a note.
pub fn note_key(
    note: &mut String,
    editing: &mut bool,
    cursor: &mut usize,
    key: SurfaceKey,
    width: u16,
) -> (outcome: NoteOutcome)
    ensures
        note_key_effect(
            *old(note),
            *final(note),
            *old(editing),
            *final(editing),
            *old(cursor),
            *final(cursor),
            key,
            width,
            outcome,
        ),
{
    if key.submit {
        NoteOutcome::Submit
    } else if key.insert_newline {
        edit_note(note, cursor, key, width);
        NoteOutcome::Edited
    } else if key.key.code == KeyCode::Esc {
        *note = String::new();
        *cursor = 0;
        *editing = false;
        NoteOutcome::Discarded
    } else if key.cancel || key.key.code == KeyCode::Tab {
        *editing = false;
        NoteOutcome::Closed
    } else {
        edit_note(note, cursor, key, width);
        NoteOutcome::Edited
    }
}

/// A note without white space around it, if anything is left.
pub open spec fn given(note: Seq<char>) -> Option<Seq<char>> {
    if trimmed(note).len() == 0 { None } else { Some(trimmed(note)) }
}

/// A note without white space around it, if anything is left.
pub fn given_note(note: &str) -> (text: Option<String>)
    ensures
        (match text {
            None => None,
            Some(text) => Some(text@),
        }) == given(note@),
{
    let text: String = trim(note);
    if text.as_str().is_empty() {
        None
    } else {
        Some(text)
    }
}

/// An option of a question.
#[derive(Clone, Debug)]
pub struct QuestionOption {
    pub label: String,
    pub description: String,
}

/// A question.
#[derive(Clone, Debug)]
pub struct QuestionPrompt {
    pub header: String,
    pub question: String,
    pub options: Vec<QuestionOption>,
}

/// The answer to a question. Without a selection it is none of the options.
#[derive(Clone, Debug)]
pub struct QuestionAnswer {
    pub selection: Option<String>,
    pub note: Option<String>,
}

/// Some questions that wait for answers.
#[derive(Debug)]
pub struct Question {
    /// The request that asks.
    pub request: u128,
    pub questions: Vec<QuestionPrompt>,
    /// The sub-agent that asks: its profile and its id.
    pub origin: Option<(String, String)>,
    pub question_index: usize,
    /// The option under the cursor; the one behind the last is none of them.
    pub option_index: usize,
    pub answers: Vec<QuestionAnswer>,
    pub answered: Vec<bool>,
    pub editing_note: bool,
    pub note_cursor: usize,
}

/// What is to be done after a key in a question.
#[derive(Clone, Copy, Debug, PartialEq, Eq, Structural)]
pub enum QuestionStep {
    Stay,
    /// All questions are answered: send the answers.
    Respond,
}

/// The position of the option with the given label, or the number of options.
pub open spec fn option_with_label(options: Seq<QuestionOption>, label: Seq<char>) -> int
    decreases options.len(),
{
    if options.len() == 0 {
        0
    } else if options[0].label@ == label {
        0
    } else {
        1 + option_with_label(options.drop_first(), label)
    }
}

/// The option that the cursor starts at when a question is shown.
pub open spec fn initial_option(
    index: int,
    questions: Seq<QuestionPrompt>,
    answers: Seq<QuestionAnswer>,
    answered: Seq<bool>,
) -> int {
    if index >= questions.len() || !answered[index] {
        0
    } else {
        match answers[index].selection {
            None => questions[index].options@.len() as int,
            Some(label) => option_with_label(questions[index].options@, label@),
        }
    }
}

/// The option that the cursor starts at when a question is shown.
pub fn question_option_index(
    question_index: usize,
    questions: &[QuestionPrompt],
    answers: &[QuestionAnswer],
    answered: &[bool],
) -> (option: usize)
    requires
        questions@.len() == answers@.len() == answered@.len(),
    ensures
        option == initial_option(question_index as int, questions@, answers@, answered@),
{
    if question_index >= questions.len() || !answered[question_index] {
        return 0;
    }
    let options = &questions[question_index].options;
    match &answers[question_index].selection {
        None => options.len(),
        Some(label) => {
            let mut i: usize = 0;
            proof {
                assert(options@.skip(0) =~= options@);
            }
            while i < options.len()
                invariant
                    i <= options@.len(),
                    initial_option(question_index as int, questions@, answers@, answered@)
                        == option_with_label(options@, label@),
                    option_with_label(options@, label@) == i + option_with_label(
                        options@.skip(i as int),
                        label@,
                    ),
                decreases options@.len() - i,
            {
                proof {
                    assert(options@.skip(i as int).drop_first() =~= options@.skip(i + 1));
                }
                if same_text(options[i].label.as_str(), label.as_str()) {
                    return i;
                }
                i += 1;
            }
            i
        },
    }
}

/// The label of an option, or nothing for none of them.
pub open spec fn label_of(question: QuestionPrompt, option: int) -> Option<String> {
    if option < question.options@.len() { Some(question.options@[option].label) } else { None }
}

impl Question {
    /// There is an answer to each question, and one of them is shown.
    pub open spec fn valid(self) -> bool {
        &&& self.questions@.len() == self.answers@.len() == self.answered@.len()
        &&& self.question_index < self.questions@.len()
    }

    /// The options of the question that is shown.
    pub open spec fn option_count(self) -> int {
        self.questions@[self.question_index as int].options@.len() as int
    }

    /// Nothing but the position changes.
    pub open spec fn same_answers(self, other: Question) -> bool {
        &&& self.request == other.request
        &&& self.questions == other.questions
        &&& self.origin == other.origin
        &&& self.answers == other.answers
        &&& self.answered == other.answered
        &&& self.editing_note == other.editing_note
        &&& self.note_cursor == other.note_cursor
    }

    /// The answers with the option under the cursor chosen.
    pub open spec fn chosen(self) -> Seq<QuestionAnswer> {
        let at = self.question_index as int;
        self.answers@.update(
            at,
            QuestionAnswer {
                selection: label_of(self.questions@[at], self.option_index as int),
                note: self.answers@[at].note,
            },
        )
    }

    /// Chooses the option under the cursor and goes on to the next question, if
    /// there is one.
    fn answer(&mut self) -> (step: QuestionStep)
        requires
            old(self).valid(),
        ensures
            final(self).request == old(self).request,
            final(self).questions == old(self).questions,
            final(self).origin == old(self).origin,
            final(self).editing_note == old(self).editing_note,
            final(self).note_cursor == old(self).note_cursor,
            final(self).valid(),
            final(self).answers@ == old(self).chosen(),
            final(self).answered@ == old(self).answered@.update(
                old(self).question_index as int,
                true,
            ),
            (step == QuestionStep::Respond) == (old(self).question_index + 1 == old(
                self,
            ).questions@.len()),
            step == QuestionStep::Respond ==> final(self).question_index == old(
                self,
            ).question_index && final(self).option_index == old(self).option_index,
            step == QuestionStep::Stay ==> final(self).question_index == old(self).question_index
                + 1 && final(self).option_index == initial_option(
                old(self).question_index + 1,
                old(self).questions@,
                final(self).answers@,
                final(self).answered@,
            ),
    {
        let at: usize = self.question_index;
        let total: usize = self.questions.len();
        let selection: Option<String> = if self.option_index < self.questions[at].options.len() {
            Some(self.questions[at].options[self.option_index].label.clone())
        } else {
            None
        };
        let note: Option<String> = copy_text(&self.answers[at].note);
        self.answers.set(at, QuestionAnswer { selection, note });
        self.answered.set(at, true);
        if at + 1 == total {
            return QuestionStep::Respond;
        }
        self.question_index = at + 1;
        self.option_index = question_option_index(
            at + 1,
            self.questions.as_slice(),
            self.answers.as_slice(),
            self.answered.as_slice(),
        );
        QuestionStep::Stay
    }

    /// The effect of `note_key`.
    pub open spec fn note_key_effect(
        before: Self,
        after: Self,
        key: SurfaceKey,
        width: u16,
        step: QuestionStep,
    ) -> bool {
        &&& (after.valid())
        &&& (after.request == before.request)
        &&& (after.questions == before.questions)
        &&& (after.origin == before.origin)
        &&& (after.editing_note == (note_outcome(key) == NoteOutcome::Edited))
        &&& (note_outcome(key) == NoteOutcome::Submit ==> {
                &&& after.answers@ == before.chosen()
                &&& after.answered@ == before.answered@.update(
                    before.question_index as int,
                    true,
                )
                &&& after.note_cursor == before.note_cursor
                &&& (step == QuestionStep::Respond) == (before.question_index + 1
                    == before.questions@.len())
                &&& step == QuestionStep::Respond ==> after.question_index == before.question_index
                    && after.option_index == before.option_index
                &&& step == QuestionStep::Stay ==> after.question_index == before.question_index + 1
                    && after.option_index == initial_option(
                    before.question_index + 1,
                    before.questions@,
                    after.answers@,
                    after.answered@,
                )
            })
        &&& (note_outcome(key) != NoteOutcome::Submit ==> {
                let at = before.question_index as int;
                &&& step == QuestionStep::Stay
                &&& after.question_index == at
                &&& after.option_index == before.option_index
                &&& after.answered == before.answered
                &&& after.answers@.len() == before.answers@.len()
                &&& forall|i: int|
                    0 <= i < before.answers@.len() && i != at ==> after.answers@[i]
                        == #[trigger] before.answers@[i]
                &&& after.answers@[at].selection == before.answers@[at].selection
                &&& note_outcome(key) == NoteOutcome::Closed ==> after.answers@ == before.answers@
                    && after.note_cursor == before.note_cursor
                &&& note_outcome(key) == NoteOutcome::Discarded ==> after.answers@[at].note
                    is None && after.note_cursor == 0
                &&& note_outcome(key) == NoteOutcome::Edited ==> field_is(
                    note_text(after.answers@[at].note),
                    after.note_cursor as int,
                    note_after(note_text(before.answers@[at].note), before.note_cursor as int, key, width as int),
                )
            })
    }

    /// A key while a note is written. A submitted note answers the question.
    pub fn note_key(&mut self, key: SurfaceKey, width: u16) -> (step: QuestionStep)
        requires
            old(self).valid(),
            old(self).editing_note,
        ensures
            Self::note_key_effect(*old(self), *final(self), key, width, step),
    {
        let at: usize = self.question_index;
        let mut note: String = match &self.answers[at].note {
            None => String::new(),
            Some(note) => note.clone(),
        };
        let mut editing: bool = true;
        let mut cursor: usize = self.note_cursor;
        let outcome: NoteOutcome = note_key(&mut note, &mut editing, &mut cursor, key, width);
        match outcome {
            NoteOutcome::Submit => {
                self.editing_note = false;
                self.answer()
            },
            NoteOutcome::Closed => {
                self.editing_note = false;
                QuestionStep::Stay
            },
            NoteOutcome::Discarded => {
                self.editing_note = false;
                self.note_cursor = 0;
                let selection: Option<String> = copy_text(&self.answers[at].selection);
                self.answers.set(at, QuestionAnswer { selection, note: None });
                QuestionStep::Stay
            },
            NoteOutcome::Edited => {
                self.note_cursor = cursor;
                let selection: Option<String> = copy_text(&self.answers[at].selection);
                let note: Option<String> = if note.as_str().is_empty() {
                    proof {
                        assert(note@ =~= Seq::empty());
                    }
                    None
                } else {
                    Some(note)
                };
                self.answers.set(at, QuestionAnswer { selection, note });
                QuestionStep::Stay
            },
        }
    }

    /// The effect of `menu_key`.
    pub open spec fn menu_key_effect(
        before: Self,
        after: Self,
        code: KeyCode,
        step: QuestionStep,
    ) -> bool {
        &&& (after.valid())
        &&& (after.request == before.request)
        &&& (after.questions == before.questions)
        &&& (after.origin == before.origin)
        &&& (code == KeyCode::Left ==> {
                &&& after.same_answers(before)
                &&& after.question_index == less(before.question_index as int, 1)
                &&& after.option_index == initial_option(
                    after.question_index as int,
                    before.questions@,
                    before.answers@,
                    before.answered@,
                )
            })
        &&& (code == KeyCode::Right ==> {
                &&& after.same_answers(before)
                &&& after.question_index == min(
                    before.question_index + 1,
                    before.questions@.len() - 1,
                )
                &&& after.option_index == initial_option(
                    after.question_index as int,
                    before.questions@,
                    before.answers@,
                    before.answered@,
                )
            })
        &&& (code == KeyCode::Up ==> {
                &&& after.same_answers(before)
                &&& after.question_index == before.question_index
                &&& after.option_index == min(
                    less(before.option_index as int, 1),
                    before.option_count(),
                )
            })
        &&& (code == KeyCode::Down ==> {
                &&& after.same_answers(before)
                &&& after.question_index == before.question_index
                &&& after.option_index == min(
                    before.option_index + 1,
                    before.option_count(),
                )
            })
        &&& (code == KeyCode::Tab ==> {
                &&& after.answers == before.answers
                &&& after.answered == before.answered
                &&& after.question_index == before.question_index
                &&& after.option_index == before.option_index
                &&& after.editing_note
                &&& after.note_cursor == utf8_len(
                    note_text(before.answers@[before.question_index as int].note),
                )
            })
        &&& (code == KeyCode::Enter ==> {
                &&& after.answers@ == before.chosen()
                &&& after.answered@ == before.answered@.update(
                    before.question_index as int,
                    true,
                )
                &&& !after.editing_note
                &&& after.note_cursor == before.note_cursor
                &&& (step == QuestionStep::Respond) == (before.question_index + 1
                    == before.questions@.len())
                &&& step == QuestionStep::Respond ==> after.question_index == before.question_index
                    && after.option_index == before.option_index
                &&& step == QuestionStep::Stay ==> after.question_index == before.question_index + 1
                    && after.option_index == initial_option(
                    before.question_index + 1,
                    before.questions@,
                    after.answers@,
                    after.answered@,
                )
            })
        &&& (code != KeyCode::Enter ==> step == QuestionStep::Stay)
        &&& (!(code == KeyCode::Left || code == KeyCode::Right || code == KeyCode::Up || code
                == KeyCode::Down || code == KeyCode::Tab || code == KeyCode::Enter) ==> after
                == before)
    }

    /// A key while no note is written.
    pub fn menu_key(&mut self, code: KeyCode) -> (step: QuestionStep)
        requires
            old(self).valid(),
            !old(self).editing_note,
        ensures
            Self::menu_key_effect(*old(self), *final(self), code, step),
    {
        let at: usize = self.question_index;
        let total: usize = self.questions.len();
        let count: usize = self.questions[at].options.len();
        match code {
            KeyCode::Left => {
                self.question_index = at.saturating_sub(1);
                self.option_index = question_option_index(
                    self.question_index,
                    self.questions.as_slice(),
                    self.answers.as_slice(),
                    self.answered.as_slice(),
                );
                QuestionStep::Stay
            },
            KeyCode::Right => {
                if at + 1 < total {
                    self.question_index = at + 1;
                }
                self.option_index = question_option_index(
                    self.question_index,
                    self.questions.as_slice(),
                    self.answers.as_slice(),
                    self.answered.as_slice(),
                );
                QuestionStep::Stay
            },
            KeyCode::Up => {
                let next: usize = self.option_index.saturating_sub(1);
                self.option_index = if next <= count {
                    next
                } else {
                    count
                };
                QuestionStep::Stay
            },
            KeyCode::Down => {
                let next: usize = self.option_index.saturating_add(1);
                self.option_index = if next <= count {
                    next
                } else {
                    count
                };
                QuestionStep::Stay
            },
            KeyCode::Tab => {
                self.editing_note = true;
                self.note_cursor = match &self.answers[at].note {
                    None => {
                        proof {
                            assert(utf8_len(Seq::empty()) == 0);
                        }
                        0
                    },
                    Some(note) => cursor_at_end(note.as_str()),
                };
                QuestionStep::Stay
            },
            KeyCode::Enter => self.answer(),
            _ => QuestionStep::Stay,
        }
    }
}

/// The text of a note, which may be missing.
pub open spec fn note_text(note: Option<String>) -> Seq<char> {
    match note {
        None => Seq::empty(),
        Some(note) => note@,
    }
}

/// Where a permission rule holds.
#[derive(Clone, Copy, Debug, PartialEq, Eq, Structural)]
pub enum PermissionScope {
    Conversation,
    ConversationGlobal,
    Project,
    Global,
}

/// What is decided of a permission request.
#[derive(Clone, Copy, Debug, PartialEq, Eq, Structural)]
pub enum Decision {
    Allow,
    AllowSession,
    AllowProject,
    AllowGlobal,
    Deny,
}

/// A choice that a permission request offers in a scope.
#[derive(Clone, Copy, Debug, PartialEq, Eq, Structural)]
pub struct ApprovalChoice {
    pub decision: Decision,
    /// Whether the choice lasts: it is saved for a project or globally.
    pub persistent: bool,
    /// Whether the choice can be kept to the conversation.
    pub supports_session: bool,
    /// Whether there is a rule for the conversation.
    pub session_rule: bool,
    /// Whether there is a rule that was prepared for the choice.
    pub prepared_rule: bool,
}

impl PermissionScope {
    /// The same kind of scope, within the project or everywhere.
    pub open spec fn wider_spec(self) -> PermissionScope {
        match self {
            PermissionScope::Conversation => PermissionScope::ConversationGlobal,
            PermissionScope::ConversationGlobal => PermissionScope::Conversation,
            PermissionScope::Project => PermissionScope::Global,
            PermissionScope::Global => PermissionScope::Project,
        }
    }

    #[verifier::when_used_as_spec(wider_spec)]
    pub fn wider(self) -> (scope: PermissionScope)
        ensures
            scope == self.wider_spec(),
    {
        match self {
            PermissionScope::Conversation => PermissionScope::ConversationGlobal,
            PermissionScope::ConversationGlobal => PermissionScope::Conversation,
            PermissionScope::Project => PermissionScope::Global,
            PermissionScope::Global => PermissionScope::Project,
        }
    }

    /// The same reach, for the conversation or for good.
    pub open spec fn longer_spec(self) -> PermissionScope {
        match self {
            PermissionScope::Conversation => PermissionScope::Project,
            PermissionScope::ConversationGlobal => PermissionScope::Global,
            PermissionScope::Global => PermissionScope::ConversationGlobal,
            PermissionScope::Project => PermissionScope::Conversation,
        }
    }

    #[verifier::when_used_as_spec(longer_spec)]
    pub fn longer(self) -> (scope: PermissionScope)
        ensures
            scope == self.longer_spec(),
    {
        match self {
            PermissionScope::Conversation => PermissionScope::Project,
            PermissionScope::ConversationGlobal => PermissionScope::Global,
            PermissionScope::Global => PermissionScope::ConversationGlobal,
            PermissionScope::Project => PermissionScope::Conversation,
        }
    }

    /// The decision that an edited rule in this scope stands for.
    pub open spec fn decision_spec(self) -> Decision {
        match self {
            PermissionScope::Conversation => Decision::AllowSession,
            PermissionScope::ConversationGlobal => Decision::AllowGlobal,
            PermissionScope::Project => Decision::AllowProject,
            PermissionScope::Global => Decision::AllowGlobal,
        }
    }

    #[verifier::when_used_as_spec(decision_spec)]
    pub fn decision(self) -> (decision: Decision)
        ensures
            decision == self.decision_spec(),
    {
        match self {
            PermissionScope::Conversation => Decision::AllowSession,
            PermissionScope::ConversationGlobal => Decision::AllowGlobal,
            PermissionScope::Project => Decision::AllowProject,
            PermissionScope::Global => Decision::AllowGlobal,
        }
    }

    /// What is reported once an edited rule is saved.
    pub open spec fn saved_notice_spec(self) -> Seq<char> {
        match self {
            PermissionScope::Conversation => "edited permission applied for this conversation"@,
            PermissionScope::ConversationGlobal => "edited permission saved globally"@,
            PermissionScope::Project => "edited permission saved for this project"@,
            PermissionScope::Global => "edited permission saved globally"@,
        }
    }

    pub fn saved_notice(self) -> (notice: &'static str)
        ensures
            notice@ == self.saved_notice_spec(),
    {
        match self {
            PermissionScope::Conversation => "edited permission applied for this conversation",
            PermissionScope::ConversationGlobal => "edited permission saved globally",
            PermissionScope::Project => "edited permission saved for this project",
            PermissionScope::Global => "edited permission saved globally",
        }
    }

    pub open spec fn label_spec(self) -> Seq<char> {
        match self {
            PermissionScope::Conversation => "conversation"@,
            PermissionScope::ConversationGlobal => "global"@,
            PermissionScope::Project => "project"@,
            PermissionScope::Global => "global"@,
        }
    }

    pub fn label(self) -> (label: &'static str)
        ensures
            label@ == self.label_spec(),
    {
        match self {
            PermissionScope::Conversation => "conversation",
            PermissionScope::ConversationGlobal => "global",
            PermissionScope::Project => "project",
            PermissionScope::Global => "global",
        }
    }
}

impl Decision {
    pub open spec fn name_spec(self) -> Seq<char> {
        match self {
            Decision::Allow => "allow"@,
            Decision::AllowSession => "allow_session"@,
            Decision::AllowProject => "allow_project"@,
            Decision::AllowGlobal => "allow_global"@,
            Decision::Deny => "deny"@,
        }
    }

    /// The name under which the decision is sent.
    pub fn name(self) -> (name: &'static str)
        ensures
            name@ == self.name_spec(),
    {
        match self {
            Decision::Allow => "allow",
            Decision::AllowSession => "allow_session",
            Decision::AllowProject => "allow_project",
            Decision::AllowGlobal => "allow_global",
            Decision::Deny => "deny",
        }
    }
}

/// Both switches of a scope undo themselves, and neither changes what the other
/// decides.
pub proof fn law_scope_switches_undo_themselves(scope: PermissionScope)
    ensures
        scope.wider().wider() == scope,
        scope.longer().longer() == scope,
        scope.wider().longer() == scope.longer().wider(),
        scope.wider() != scope,
        scope.longer() != scope,
{
}

/// A permission request that waits for a decision.
#[derive(Debug)]
pub struct Permission {
    pub selected: usize,
    pub scope: PermissionScope,
    pub diff_scroll: usize,
    pub denial_note: String,
    pub editing_note: bool,
    pub note_cursor: usize,
}

/// What is to be done after a key in a permission request.
#[derive(Debug)]
pub enum PermissionStep {
    Stay,
    /// Deny the request, for the reason if one was given.
    Deny(Option<String>),
    /// Send the submitted choice with the rule for the conversation.
    SendSessionRule,
    /// Send the submitted choice with the prepared rule.
    SendPreparedRule,
    /// Send the submitted choice, with a reason if it denies and one was given.
    Send(Option<String>),
    /// Edit the rule of the selected choice, for the given scope.
    EditRule(PermissionScope),
}

/// A text that may be missing, as its characters.
pub open spec fn text_view(text: Option<String>) -> Option<Seq<char>> {
    match text {
        None => None,
        Some(text) => Some(text@),
    }
}

impl Permission {
    /// Nothing changes but the selection, the scope and the scroll position.
    pub open spec fn same_note(self, other: Permission) -> bool {
        &&& self.denial_note == other.denial_note
        &&& self.editing_note == other.editing_note
        &&& self.note_cursor == other.note_cursor
    }

    /// The effect of `note_key`.
    pub open spec fn note_key_effect(
        before: Self,
        after: Self,
        key: SurfaceKey,
        width: u16,
        step: PermissionStep,
    ) -> bool {
        &&& (after.selected == before.selected)
        &&& (after.scope == before.scope)
        &&& (after.diff_scroll == before.diff_scroll)
        &&& (after.editing_note == !leaves_note(key))
        &&& (note_outcome(key) == NoteOutcome::Edited ==> field_is(
                after.denial_note@,
                after.note_cursor as int,
                note_after(before.denial_note@, before.note_cursor as int, key, width as int),
            ))
        &&& (note_outcome(key) == NoteOutcome::Discarded ==> after.denial_note@
                == Seq::<char>::empty() && after.note_cursor == 0)
        &&& (note_outcome(key) == NoteOutcome::Closed || note_outcome(key) == NoteOutcome::Submit
                ==> after.denial_note == before.denial_note && after.note_cursor
                == before.note_cursor)
        &&& (note_outcome(key) == NoteOutcome::Submit ==> (step matches PermissionStep::Deny(reason)
                && text_view(reason) == given(before.denial_note@)))
        &&& (note_outcome(key) != NoteOutcome::Submit ==> step is Stay)
    }

    /// A key while the reason of a denial is written.
    pub fn note_key(&mut self, key: SurfaceKey, width: u16) -> (step: PermissionStep)
        requires
            old(self).editing_note,
        ensures
            Self::note_key_effect(*old(self), *final(self), key, width, step),
    {
        let outcome: NoteOutcome = note_key(
            &mut self.denial_note,
            &mut self.editing_note,
            &mut self.note_cursor,
            key,
            width,
        );
        match outcome {
            NoteOutcome::Submit => PermissionStep::Deny(given_note(self.denial_note.as_str())),
            _ => PermissionStep::Stay,
        }
    }

    /// Where the diff is scrolled to by a key, if the key scrolls it.
    pub open spec fn scrolled(self, code: KeyCode, rows: int, last: int) -> Option<int> {
        let page = max(rows, 1);
        match code {
            KeyCode::PageUp => Some(less(self.diff_scroll as int, page)),
            KeyCode::PageDown => Some(min(self.diff_scroll + page, last)),
            KeyCode::Home => Some(0),
            KeyCode::End => Some(last),
            _ => None,
        }
    }

    /// The scope after a switch: between the project and everywhere for a
    /// choice that lasts, else between the conversation and for good.
    pub open spec fn switched(self, choices: Seq<ApprovalChoice>) -> PermissionScope {
        if self.selected >= choices.len() || choices[self.selected as int].decision
            == Decision::Deny {
            self.scope
        } else if choices[self.selected as int].persistent {
            self.scope.wider()
        } else if choices[self.selected as int].supports_session {
            self.scope.longer()
        } else {
            self.scope
        }
    }

    /// The effect of `menu_key`.
    pub open spec fn menu_key_effect(
        before: Self,
        after: Self,
        key: SurfaceKey,
        rows: usize,
        last: usize,
        choices: Seq<ApprovalChoice>,
        submission: ApprovalChoice,
        editable: bool,
        step: PermissionStep,
    ) -> bool {
        &&& (match before.scrolled(key.key.code, rows as int, last as int) {
                Some(offset) => {
                    &&& after.diff_scroll == offset
                    &&& after.selected == before.selected
                    &&& after.scope == before.scope
                    &&& after.same_note(before)
                    &&& step is Stay
                },
                None => {
                    &&& after.diff_scroll == before.diff_scroll
                    &&& after.denial_note == before.denial_note
                    &&& after.selected == match key.code {
                        KeyCode::Up => less(before.selected as int, 1),
                        KeyCode::Down => min(
                            before.selected + 1,
                            less(choices.len() as int, 1),
                        ),
                        _ => before.selected as int,
                    }
                    &&& after.scope == if key.code == KeyCode::Tab {
                        before.switched(choices)
                    } else {
                        before.scope
                    }
                    &&& after.editing_note == (key.code == KeyCode::Tab && before.selected
                        < choices.len() && choices[before.selected as int].decision
                        == Decision::Deny)
                    &&& after.note_cursor == if after.editing_note {
                        utf8_len(before.denial_note@) as int
                    } else {
                        before.note_cursor as int
                    }
                    &&& if key.code == KeyCode::Enter {
                        if submission.decision == Decision::AllowSession
                            && submission.session_rule {
                            step is SendSessionRule
                        } else if submission.decision != Decision::AllowSession
                            && submission.prepared_rule {
                            step is SendPreparedRule
                        } else {
                            step matches PermissionStep::Send(reason) && text_view(reason)
                                == if submission.decision == Decision::Deny {
                                given(before.denial_note@)
                            } else {
                                None
                            }
                        }
                    } else if (key.key.code == KeyCode::Char('e') || key.key.code
                        == KeyCode::Char('E')) && editable {
                        step == PermissionStep::EditRule(
                            if key.key.modifiers.shift {
                                PermissionScope::Global
                            } else {
                                after.scope
                            },
                        )
                    } else {
                        step is Stay
                    }
                },
            })
    }

    /// A key while no reason is written. `choices` are what the request offers
    /// in the scope, `submission` is the choice that Enter submits, and
    /// `editable` says whether the selected choice has a rule to edit.
    pub fn menu_key(
        &mut self,
        key: SurfaceKey,
        rows: usize,
        last: usize,
        choices: &[ApprovalChoice],
        submission: ApprovalChoice,
        editable: bool,
    ) -> (step: PermissionStep)
        requires
            !old(self).editing_note,
        ensures
            Self::menu_key_effect(
                *old(self),
                *final(self),
                key,
                rows,
                last,
                choices@,
                submission,
                editable,
                step,
            ),
    {
        let page: usize = if rows == 0 {
            1
        } else {
            rows
        };
        match key.key.code {
            KeyCode::PageUp => {
                self.diff_scroll = self.diff_scroll.saturating_sub(page);
                return PermissionStep::Stay;
            },
            KeyCode::PageDown => {
                let next: usize = self.diff_scroll.saturating_add(page);
                self.diff_scroll = if next <= last {
                    next
                } else {
                    last
                };
                return PermissionStep::Stay;
            },
            KeyCode::Home => {
                self.diff_scroll = 0;
                return PermissionStep::Stay;
            },
            KeyCode::End => {
                self.diff_scroll = last;
                return PermissionStep::Stay;
            },
            _ => {},
        }
        match key.code {
            KeyCode::Up => {
                self.selected = self.selected.saturating_sub(1);
            },
            KeyCode::Down => {
                let next: usize = self.selected.saturating_add(1);
                let end: usize = choices.len().saturating_sub(1);
                self.selected = if next <= end {
                    next
                } else {
                    end
                };
            },
            KeyCode::Enter => {
                if submission.decision == Decision::AllowSession {
                    if submission.session_rule {
                        return PermissionStep::SendSessionRule;
                    }
                } else if submission.prepared_rule {
                    return PermissionStep::SendPreparedRule;
                }
                return PermissionStep::Send(
                    if submission.decision == Decision::Deny {
                        given_note(self.denial_note.as_str())
                    } else {
                        None
                    },
                );
            },
            KeyCode::Tab => {
                if self.selected < choices.len() {
                    let choice: ApprovalChoice = choices[self.selected];
                    if choice.decision == Decision::Deny {
                        self.editing_note = true;
                        self.note_cursor = cursor_at_end(self.denial_note.as_str());
                    } else if choice.persistent {
                        self.scope = self.scope.wider();
                    } else if choice.supports_session {
                        self.scope = self.scope.longer();
                    }
                }
            },
            _ => {},
        }
        if editable && (key.key.code == KeyCode::Char('e') || key.key.code == KeyCode::Char('E')) {
            return PermissionStep::EditRule(
                if key.key.modifiers.shift {
                    PermissionScope::Global
                } else {
                    self.scope
                },
            );
        }
        PermissionStep::Stay
    }
}

/// A rule's pattern that is being edited.
#[derive(Debug)]
pub struct PatternEdit {
    pub pattern: String,
    pub cursor: usize,
}

impl PatternEdit {
    /// The effect of `key`.
    pub open spec fn key_effect(
        before: Self,
        after: Self,
        key: SurfaceKey,
        submitted: bool,
    ) -> bool {
        &&& (submitted == key.submit)
        &&& (submitted ==> after == before)
        &&& (!submitted ==> field_is(
                after.pattern@,
                after.cursor as int,
                field_after(before.pattern@, before.cursor as int, key.key),
            ))
    }

    /// A key in the pattern; the result says whether the pattern is submitted.
    pub fn key(&mut self, key: SurfaceKey) -> (submitted: bool)
        ensures
            Self::key_effect(*old(self), *final(self), key, submitted),
    {
        if key.submit {
            return true;
        }
        edit_field(&mut self.pattern, &mut self.cursor, key.key);
        false
    }
}

/// What becomes of the context when a plan is implemented.
#[derive(Clone, Copy, Debug, PartialEq, Eq, Structural)]
pub enum ContextAction {
    Keep,
    Clear,
    Compact,
}

impl ContextAction {
    pub open spec fn of(selected: int) -> ContextAction {
        if selected == 1 {
            ContextAction::Clear
        } else if selected == 2 {
            ContextAction::Compact
        } else {
            ContextAction::Keep
        }
    }

    fn selected(selected: usize) -> (action: ContextAction)
        ensures
            action == ContextAction::of(selected as int),
    {
        if selected == 1 {
            ContextAction::Clear
        } else if selected == 2 {
            ContextAction::Compact
        } else {
            ContextAction::Keep
        }
    }

    pub open spec fn name_spec(self) -> Seq<char> {
        match self {
            ContextAction::Keep => "keep"@,
            ContextAction::Clear => "clear"@,
            ContextAction::Compact => "compact"@,
        }
    }

    /// The name under which the action is sent.
    pub fn name(self) -> (name: &'static str)
        ensures
            name@ == self.name_spec(),
    {
        match self {
            ContextAction::Keep => "keep",
            ContextAction::Clear => "clear",
            ContextAction::Compact => "compact",
        }
    }
}

/// A plan that waits for a decision.
#[derive(Debug)]
pub struct PlanCompletion {
    pub selected: usize,
    pub note: String,
    pub editing_note: bool,
    pub note_cursor: usize,
    pub mode_index: usize,
}

/// What is to be done after a key in a plan.
#[derive(Debug)]
pub enum PlanStep {
    Stay,
    /// Show the model of another mode.
    ShowMode(usize),
    /// Choose another model for the mode.
    PickModel(usize),
    /// Implement the plan in a mode, or decline it; with a note, if there is
    /// one.
    Respond { mode: Option<usize>, context: ContextAction, note: Option<String> },
}

/// What a plan's decision is sent as.
pub open spec fn plan_response(
    step: PlanStep,
    mode: Option<usize>,
    context: ContextAction,
    note: Option<Seq<char>>,
) -> bool {
    match step {
        PlanStep::Respond { mode: sent, context: action, note: text } => sent == mode && action
            == context && text_view(text) == note,
        _ => false,
    }
}

impl PlanCompletion {
    /// Nothing changes but the note.
    pub open spec fn same_choice(self, other: PlanCompletion) -> bool {
        self.selected == other.selected && self.mode_index == other.mode_index
    }

    /// Nothing changes but the choice.
    pub open spec fn same_note(self, other: PlanCompletion) -> bool {
        &&& self.note == other.note
        &&& self.editing_note == other.editing_note
        &&& self.note_cursor == other.note_cursor
    }

    /// The effect of `note_key`.
    pub open spec fn note_key_effect(
        before: Self,
        after: Self,
        key: SurfaceKey,
        width: u16,
        step: PlanStep,
    ) -> bool {
        &&& (after.same_choice(before))
        &&& (after.editing_note == !leaves_note(key))
        &&& (note_outcome(key) == NoteOutcome::Edited ==> field_is(
                after.note@,
                after.note_cursor as int,
                note_after(before.note@, before.note_cursor as int, key, width as int),
            ))
        &&& (note_outcome(key) == NoteOutcome::Discarded ==> after.note@
                == Seq::<char>::empty() && after.note_cursor == 0)
        &&& (note_outcome(key) == NoteOutcome::Closed || note_outcome(key) == NoteOutcome::Submit
                ==> after.note == before.note && after.note_cursor == before.note_cursor)
        &&& (note_outcome(key) == NoteOutcome::Submit ==> plan_response(
                step,
                Some(before.mode_index),
                ContextAction::of(before.selected as int),
                given(before.note@),
            ))
        &&& (note_outcome(key) != NoteOutcome::Submit ==> step is Stay)
    }

    /// A key while a note is written.
    pub fn note_key(&mut self, key: SurfaceKey, width: u16) -> (step: PlanStep)
        requires
            old(self).editing_note,
        ensures
            Self::note_key_effect(*old(self), *final(self), key, width, step),
    {
        let outcome: NoteOutcome = note_key(
            &mut self.note,
            &mut self.editing_note,
            &mut self.note_cursor,
            key,
            width,
        );
        match outcome {
            NoteOutcome::Submit => PlanStep::Respond {
                mode: Some(self.mode_index),
                context: ContextAction::selected(self.selected),
                note: given_note(self.note.as_str()),
            },
            _ => PlanStep::Stay,
        }
    }

    /// The mode before or behind the current one; the modes form a ring.
    pub open spec fn neighbour(self, modes: int, previous: bool) -> int {
        let at = min(self.mode_index as int, modes - 1);
        if previous {
            if at == 0 { modes - 1 } else { at - 1 }
        } else {
            if at + 1 == modes { 0 } else { at + 1 }
        }
    }

    /// The effect of `menu_key`.
    pub open spec fn menu_key_effect(
        before: Self,
        after: Self,
        key: SurfaceKey,
        modes: usize,
        step: PlanStep,
    ) -> bool {
        &&& (if key.previous_mode || key.next_mode {
                &&& after.same_note(before)
                &&& after.selected == before.selected
                &&& if modes == 0 {
                    after.mode_index == before.mode_index && step is Stay
                } else {
                    &&& after.mode_index == before.neighbour(
                        modes as int,
                        key.previous_mode,
                    )
                    &&& step == PlanStep::ShowMode(after.mode_index)
                }
            } else if key.model_picker || (key.key.modifiers.is_empty() && (key.key.code
                == KeyCode::Char('p') || key.key.code == KeyCode::Char('m'))) {
                &&& after == before
                &&& step == PlanStep::PickModel(before.mode_index)
            } else {
                &&& after.mode_index == before.mode_index
                &&& after.note == before.note
                &&& after.selected == match key.code {
                    KeyCode::Up => less(before.selected as int, 1),
                    KeyCode::Down => min(before.selected + 1, 3),
                    _ => before.selected as int,
                }
                &&& after.editing_note == (key.code == KeyCode::Tab && before.selected < 3)
                &&& after.note_cursor == if after.editing_note {
                    utf8_len(before.note@) as int
                } else {
                    before.note_cursor as int
                }
                &&& if key.code == KeyCode::Enter {
                    plan_response(
                        step,
                        if before.selected < 3 { Some(before.mode_index) } else { None },
                        ContextAction::of(before.selected as int),
                        if before.selected < 3 { given(before.note@) } else { None },
                    )
                } else {
                    step is Stay
                }
            })
    }

    /// A key while no note is written.
    pub fn menu_key(&mut self, key: SurfaceKey, modes: usize) -> (step: PlanStep)
        requires
            !old(self).editing_note,
        ensures
            Self::menu_key_effect(*old(self), *final(self), key, modes, step),
    {
        if key.previous_mode || key.next_mode {
            if modes == 0 {
                return PlanStep::Stay;
            }
            let at: usize = if self.mode_index < modes {
                self.mode_index
            } else {
                modes - 1
            };
            self.mode_index = if key.previous_mode {
                if at == 0 {
                    modes - 1
                } else {
                    at - 1
                }
            } else {
                if at + 1 == modes {
                    0
                } else {
                    at + 1
                }
            };
            return PlanStep::ShowMode(self.mode_index);
        }
        if key.model_picker || (key.key.modifiers.is_empty() && (key.key.code == KeyCode::Char('p')
            || key.key.code == KeyCode::Char('m'))) {
            return PlanStep::PickModel(self.mode_index);
        }
        match key.code {
            KeyCode::Up => {
                self.selected = self.selected.saturating_sub(1);
                PlanStep::Stay
            },
            KeyCode::Down => {
                self.selected = if self.selected < 3 {
                    self.selected + 1
                } else {
                    3
                };
                PlanStep::Stay
            },
            KeyCode::Enter => {
                let accepted: bool = self.selected < 3;
                PlanStep::Respond {
                    mode: if accepted {
                        Some(self.mode_index)
                    } else {
                        None
                    },
                    context: ContextAction::selected(self.selected),
                    note: if accepted {
                        given_note(self.note.as_str())
                    } else {
                        None
                    },
                }
            },
            KeyCode::Tab => {
                if self.selected < 3 {
                    self.editing_note = true;
                    self.note_cursor = cursor_at_end(self.note.as_str());
                }
                PlanStep::Stay
            },
            _ => PlanStep::Stay,
        }
    }
}

/// Going to the next mode and back returns to the same mode.
pub proof fn law_plan_modes_form_a_ring(plan: PlanCompletion, there: PlanCompletion, modes: int)
    requires
        plan.mode_index < modes <= usize::MAX,
        there.mode_index == plan.neighbour(modes, false),
    ensures
        there.neighbour(modes, true) == plan.mode_index,
        0 <= plan.neighbour(modes, true) < modes,
        0 <= plan.neighbour(modes, false) < modes,
{
}

} // verus!
