//! The state of the interactive screen and what keys do to it.

use vstd::prelude::*;
use vstd::string::*;
use crate::rebase::{RebaseAction, RebaseCommit};
use crate::text::{
    decimal_text, join_from, joined_with, lines_of, text_lines, texts, to_decimal, trim, trimmed,
};

verus! {

/// What the screen is doing.
#[derive(Debug, PartialEq, Eq, Clone, Copy, Structural)]
pub enum Mode {
    Normal,
    EditingMessage,
    EditingInstructions,
    Generating,
    Help,
    RebaseList,
    RebaseEdit,
    Completing,
    ContextSelection,
}

/// What a key asks of the program.
#[derive(Debug)]
pub enum InputResult {
    Continue,
    Exit,
    Commit(String),
}

/// A commit message as it was generated.
#[derive(Debug, Clone)]
pub struct GeneratedMessage {
    pub emoji: Option<String>,
    pub title: String,
    pub message: String,
}

/// The program behind the screen.
pub trait TuiApp {
    /// The state of the screen.
    fn get_state(&mut self) -> &mut TuiState;

    /// Starts generating the current message again.
    fn handle_regenerate(&mut self);
}

/// The action that follows `action` when the suggestion for a commit is
/// toggled.
pub open spec fn next_action(action: RebaseAction) -> RebaseAction {
    match action {
        RebaseAction::Pick => RebaseAction::Reword,
        RebaseAction::Reword => RebaseAction::Squash,
        RebaseAction::Squash => RebaseAction::Fixup,
        RebaseAction::Fixup => RebaseAction::Drop,
        RebaseAction::Drop => RebaseAction::Pick,
        RebaseAction::Edit => RebaseAction::Pick,
    }
}

/// The state of the screen. The text areas are held by their texts.
pub struct TuiState {
    pub messages: Vec<GeneratedMessage>,
    pub current_index: usize,
    pub custom_instructions: String,
    pub status: String,
    pub mode: Mode,
    pub message_text: String,
    pub instructions_text: String,
    pub rebase_text: String,
    pub spinner: bool,
    pub dirty: bool,
    pub instructions_visible: bool,
    pub nav_bar_visible: bool,
    pub rebase_commits: Vec<RebaseCommit>,
    pub rebase_current_index: usize,
    pub completion_suggestions: Vec<String>,
    pub completion_index: usize,
    pub pending_completion_prefix: Option<String>,
}

impl TuiState {
    /// Shows `new_status` and stops the spinner.
    pub fn set_status(&mut self, new_status: String)
        ensures
            final(self).status == new_status,
            !final(self).spinner,
            final(self).dirty,
            final(self).messages == old(self).messages,
            final(self).current_index == old(self).current_index,
            final(self).custom_instructions == old(self).custom_instructions,
            final(self).mode == old(self).mode,
            final(self).message_text == old(self).message_text,
            final(self).instructions_text == old(self).instructions_text,
            final(self).rebase_text == old(self).rebase_text,
            final(self).instructions_visible == old(self).instructions_visible,
            final(self).nav_bar_visible == old(self).nav_bar_visible,
            final(self).rebase_commits == old(self).rebase_commits,
            final(self).rebase_current_index == old(self).rebase_current_index,
            final(self).completion_suggestions == old(self).completion_suggestions,
            final(self).completion_index == old(self).completion_index,
            final(self).pending_completion_prefix == old(self).pending_completion_prefix,
    {
        self.status = new_status;
        self.spinner = false;
        self.dirty = true;
    }

    /// Takes the commits of a rebase and goes to the first.
    pub fn set_rebase_commits(&mut self, commits: Vec<RebaseCommit>)
        ensures
            final(self).rebase_commits == commits,
            final(self).rebase_current_index == 0,
            final(self).rebase_text == old(self).rebase_text,
            final(self)@ == (Screen { dirty: true, ..old(self)@ }),
    {
        self.rebase_commits = commits;
        self.rebase_current_index = 0;
        self.dirty = true;
    }

    /// Goes to the next commit of the rebase, if there is one.
    pub fn next_rebase_commit(&mut self)
        ensures
            final(self).rebase_commits == old(self).rebase_commits,
            final(self).rebase_text == old(self).rebase_text,
            final(self)@ == (Screen { dirty: final(self).dirty, ..old(self)@ }),
            if old(self).rebase_current_index + 1 < old(self).rebase_commits.len() {
                final(self).rebase_current_index == old(self).rebase_current_index + 1 && final(self).dirty
            } else {
                final(self).rebase_current_index == old(self).rebase_current_index && final(self).dirty == old(self).dirty
            },
    {
        let last: usize = if self.rebase_commits.len() > 0 {
            self.rebase_commits.len() - 1
        } else {
            0
        };
        if self.rebase_current_index < last {
            self.rebase_current_index += 1;
            self.dirty = true;
        }
    }

    /// Goes to the commit before, if there is one.
    pub fn prev_rebase_commit(&mut self)
        ensures
            final(self).rebase_commits == old(self).rebase_commits,
            final(self).rebase_text == old(self).rebase_text,
            final(self)@ == (Screen { dirty: final(self).dirty, ..old(self)@ }),
            if old(self).rebase_current_index > 0 {
                final(self).rebase_current_index == old(self).rebase_current_index - 1 && final(self).dirty
            } else {
                final(self).rebase_current_index == 0 && final(self).dirty == old(self).dirty
            },
    {
        if self.rebase_current_index > 0 {
            self.rebase_current_index = self.rebase_current_index - 1;
            self.dirty = true;
        }
    }

    /// Moves the suggestion for the current commit on to the next action.
    /// Nothing changes where there is no current commit.
    pub fn toggle_rebase_action(&mut self)
        ensures
            final(self).rebase_current_index == old(self).rebase_current_index,
            final(self).rebase_text == old(self).rebase_text,
            final(self)@ == (Screen { dirty: final(self).dirty, ..old(self)@ }),
            final(self).rebase_commits.len() == old(self).rebase_commits.len(),
            forall|i: int|
                0 <= i < old(self).rebase_commits.len() && i != old(self).rebase_current_index
                    ==> final(self).rebase_commits[i] == old(self).rebase_commits[i],
            old(self).rebase_current_index < old(self).rebase_commits.len() ==> {
                let before = old(self).rebase_commits[old(self).rebase_current_index as int];
                let after = final(self).rebase_commits[old(self).rebase_current_index as int];
                &&& after.suggested_action == next_action(before.suggested_action)
                &&& after.hash == before.hash
                &&& after.message == before.message
                &&& after.author == before.author
                &&& after.date == before.date
                &&& after.confidence == before.confidence
                &&& after.reasoning == before.reasoning
                &&& final(self).dirty
            },
            old(self).rebase_current_index >= old(self).rebase_commits.len() ==> final(self).dirty
                == old(self).dirty,
    {
        if self.rebase_current_index < self.rebase_commits.len() {
            let at = self.rebase_current_index;
            let next = match self.rebase_commits[at].suggested_action {
                RebaseAction::Pick => RebaseAction::Reword,
                RebaseAction::Reword => RebaseAction::Squash,
                RebaseAction::Squash => RebaseAction::Fixup,
                RebaseAction::Fixup => RebaseAction::Drop,
                RebaseAction::Drop => RebaseAction::Pick,
                RebaseAction::Edit => RebaseAction::Pick,
            };
            self.rebase_commits[at].suggested_action = next;
            self.dirty = true;
        }
    }

    /// Puts the message of the current commit of the rebase into the text
    /// area for it. Nothing changes where there is no current commit.
    pub fn update_rebase_textarea(&mut self)
        ensures
            final(self).rebase_commits == old(self).rebase_commits,
            final(self).rebase_current_index == old(self).rebase_current_index,
            final(self)@ == (Screen { dirty: final(self).dirty, ..old(self)@ }),
            if old(self).rebase_current_index < old(self).rebase_commits.len() {
                final(self).rebase_text@ == old(self).rebase_commits[old(self).rebase_current_index as int].message@ && final(self).dirty
            } else {
                final(self).rebase_text == old(self).rebase_text && final(self).dirty == old(self).dirty
            },
    {
        if self.rebase_current_index < self.rebase_commits.len() {
            self.rebase_text = self.rebase_commits[self.rebase_current_index].message.clone();
            self.dirty = true;
        }
    }
}

/// A key as the screen sees it.
#[derive(Debug, Clone, Copy, PartialEq, Eq, Structural)]
pub enum Key {
    Char(char),
    Left,
    Right,
    Up,
    Down,
    Enter,
    Esc,
    Tab,
    BackTab,
    Other,
}

/// What is left to do for the program once the state has taken a key.
#[derive(Debug, Clone, Copy, PartialEq, Eq, Structural)]
pub enum Effect {
    /// Nothing.
    Nothing,
    /// Generate the current message again.
    Regenerate,
    /// Hand the key to the text area of the message.
    EditMessage,
    /// Hand the key to the text area of the instructions.
    EditInstructions,
    /// Move the selection of the context up.
    SelectionUp,
    /// Move the selection of the context down.
    SelectionDown,
    /// Toggle the selected piece of context.
    SelectionToggle,
    /// Go to the next category of context.
    SelectionNextCategory,
}

/// What a key did: the answer for the program and what is left to do.
#[derive(Debug)]
pub struct Handled {
    pub result: InputResult,
    pub effect: Effect,
}

/// A generated message as a mathematical value.
pub struct MessageText {
    pub emoji: Option<Seq<char>>,
    pub title: Seq<char>,
    pub message: Seq<char>,
}

impl View for GeneratedMessage {
    type V = MessageText;

    open spec fn view(&self) -> MessageText {
        MessageText {
            emoji: match self.emoji {
                Some(e) => Some(e@),
                None => None,
            },
            title: self.title@,
            message: self.message@,
        }
    }
}

/// The answer of a key as a mathematical value.
pub enum Outcome {
    Continue,
    Exit,
    Commit(Seq<char>),
}

impl View for InputResult {
    type V = Outcome;

    open spec fn view(&self) -> Outcome {
        match self {
            InputResult::Continue => Outcome::Continue,
            InputResult::Exit => Outcome::Exit,
            InputResult::Commit(message) => Outcome::Commit(message@),
        }
    }
}

/// The part of the state that keys act on, as a mathematical value.
pub struct Screen {
    pub messages: Seq<MessageText>,
    pub current_index: int,
    pub custom_instructions: Seq<char>,
    pub status: Seq<char>,
    pub mode: Mode,
    pub message_text: Seq<char>,
    pub instructions_text: Seq<char>,
    pub spinner: bool,
    pub dirty: bool,
    pub instructions_visible: bool,
    pub nav_bar_visible: bool,
    pub completion_suggestions: Seq<Seq<char>>,
    pub completion_index: int,
    pub pending_completion_prefix: Option<Seq<char>>,
}

impl View for TuiState {
    type V = Screen;

    open spec fn view(&self) -> Screen {
        Screen {
            messages: Seq::new(self.messages.len() as nat, |i: int| self.messages[i]@),
            current_index: self.current_index as int,
            custom_instructions: self.custom_instructions@,
            status: self.status@,
            mode: self.mode,
            message_text: self.message_text@,
            instructions_text: self.instructions_text@,
            spinner: self.spinner,
            dirty: self.dirty,
            instructions_visible: self.instructions_visible,
            nav_bar_visible: self.nav_bar_visible,
            completion_suggestions: texts(self.completion_suggestions@),
            completion_index: self.completion_index as int,
            pending_completion_prefix: match self.pending_completion_prefix {
                Some(p) => Some(p@),
                None => None,
            },
        }
    }
}

impl Screen {
    /// There is a current message, and a current suggestion where there
    /// are suggestions.
    pub open spec fn wf(self) -> bool {
        &&& 0 <= self.current_index < self.messages.len()
        &&& 0 <= self.completion_index
        &&& self.completion_suggestions.len() == 0 || self.completion_index
            < self.completion_suggestions.len()
    }

    /// The screen that shows `text` as its status.
    pub open spec fn said(self, text: Seq<char>) -> Screen {
        Screen { status: text, spinner: false, dirty: true, ..self }
    }

    /// The screen with the current message in the text area.
    pub open spec fn refreshed(self) -> Screen {
        Screen { message_text: shown(self.messages[self.current_index]), dirty: true, ..self }
    }

    /// The screen in another mode.
    pub open spec fn in_mode(self, mode: Mode) -> Screen {
        Screen { mode, ..self }
    }

    /// The screen at another message.
    pub open spec fn at_message(self, index: int) -> Screen {
        Screen { current_index: index, ..self }
    }

    /// The status that tells which message is shown.
    pub open spec fn viewing(self) -> Seq<char> {
        "Viewing commit message "@ + decimal_text((self.current_index + 1) as nat) + "/"@
            + decimal_text(self.messages.len())
    }

    /// The status that tells which suggestion is selected.
    pub open spec fn selected(self) -> Seq<char> {
        "Selected: "@ + self.completion_suggestions[self.completion_index]
    }
}

/// A message as the text area shows it: the title, an empty line, and the
/// body without the white space around it.
pub open spec fn shown(m: MessageText) -> Seq<char> {
    m.title + "\n\n"@ + trimmed(m.message)
}

/// A message as it is committed: the emoji if there is one, the title, an
/// empty line, and the body.
pub open spec fn formatted(m: MessageText) -> Seq<char> {
    match m.emoji {
        Some(e) => e + " "@ + m.title + "\n\n"@ + m.message,
        None => m.title + "\n\n"@ + m.message,
    }
}

/// The title that an edited text gives: its first line without the white
/// space around it.
pub open spec fn edited_title(text: Seq<char>) -> Seq<char> {
    let lines = text_lines(text);
    if lines.len() > 0 {
        trimmed(lines[0])
    } else {
        Seq::empty()
    }
}

/// How many of the lines from `from` on are blank, up to the first that is
/// not.
pub open spec fn blank_lines(lines: Seq<Seq<char>>, from: int) -> int
    decreases lines.len() - from,
{
    if 0 <= from < lines.len() && trimmed(lines[from]).len() == 0 {
        blank_lines(lines, from + 1)
    } else {
        from
    }
}

/// The body that an edited text gives: the lines after the first, without
/// the blank lines at their start.
pub open spec fn edited_body(text: Seq<char>) -> Seq<char> {
    let lines = text_lines(text);
    if lines.len() > 0 {
        joined_with(lines.skip(blank_lines(lines, 1)), "\n"@)
    } else {
        Seq::empty()
    }
}

/// The first line of a text as it stands, for a completion to start from.
pub open spec fn first_line(text: Seq<char>) -> Seq<char> {
    let lines = text_lines(text);
    if lines.len() > 0 {
        lines[0]
    } else {
        Seq::empty()
    }
}

/// What a key does in normal mode.
pub open spec fn normal_key(s: Screen, key: Key) -> (Screen, Outcome, Effect) {
    let last = s.messages.len() - 1;
    match key {
        Key::Char('e') => (
            s.in_mode(Mode::EditingMessage).said("Editing commit message. Press Esc to finish."@),
            Outcome::Continue,
            Effect::Nothing,
        ),
        Key::Char('i') => if !s.instructions_visible {
            (
                Screen { instructions_visible: true, ..s }.in_mode(Mode::EditingInstructions).said(
                    "Editing instructions. Press Esc to finish."@,
                ),
                Outcome::Continue,
                Effect::Nothing,
            )
        } else {
            (
                Screen { instructions_visible: false, ..s }.in_mode(Mode::Normal).said(
                    "Instructions hidden."@,
                ),
                Outcome::Continue,
                Effect::Nothing,
            )
        },
        Key::Char('R') => (s, Outcome::Continue, Effect::Regenerate),
        Key::Char('C') => (
            s.in_mode(Mode::ContextSelection).said(
                "Context Selection: Use arrow keys to navigate, Space to toggle, Enter to confirm, Esc to cancel"@,
            ),
            Outcome::Continue,
            Effect::Nothing,
        ),
        Key::Left | Key::Char('l') => {
            let moved = s.at_message(
                if s.current_index > 0 {
                    s.current_index - 1
                } else {
                    last
                },
            ).refreshed();
            (moved.said(moved.viewing()), Outcome::Continue, Effect::Nothing)
        },
        Key::Right | Key::Char('r') => {
            let moved = s.at_message(
                if s.current_index < last {
                    s.current_index + 1
                } else {
                    0
                },
            ).refreshed();
            (moved.said(moved.viewing()), Outcome::Continue, Effect::Nothing)
        },
        Key::Enter => (
            Screen { spinner: true, ..s.said("Committing..."@) },
            Outcome::Commit(formatted(s.messages[s.current_index])),
            Effect::Nothing,
        ),
        Key::Char('?') => (
            Screen { nav_bar_visible: !s.nav_bar_visible, ..s }.said(
                if !s.nav_bar_visible {
                    "Navigation bar shown."@
                } else {
                    "Navigation bar hidden."@
                },
            ),
            Outcome::Continue,
            Effect::Nothing,
        ),
        Key::Char('h') => (
            s.in_mode(Mode::Help).said("Viewing help. Press any key to close."@),
            Outcome::Continue,
            Effect::Nothing,
        ),
        Key::Esc => (s, Outcome::Exit, Effect::Nothing),
        _ => (s, Outcome::Continue, Effect::Nothing),
    }
}

/// What a key does while the message is edited.
pub open spec fn editing_message_key(s: Screen, key: Key) -> (Screen, Outcome, Effect) {
    match key {
        Key::Esc => {
            let old_message = s.messages[s.current_index];
            let new_message = MessageText {
                emoji: old_message.emoji,
                title: edited_title(s.message_text),
                message: edited_body(s.message_text),
            };
            let edited = Screen {
                messages: s.messages.update(s.current_index, new_message),
                ..s.in_mode(Mode::Normal)
            };
            (edited.said("Commit message updated."@).refreshed(), Outcome::Continue, Effect::Nothing)
        },
        Key::Tab => if trimmed(first_line(s.message_text)).len() == 0 {
            (
                s.said("Cannot complete empty message. Type something first."@),
                Outcome::Continue,
                Effect::Nothing,
            )
        } else {
            (
                Screen { pending_completion_prefix: Some(first_line(s.message_text)), ..s }.in_mode(
                    Mode::Completing,
                ).said("Generating completion suggestions..."@),
                Outcome::Continue,
                Effect::Nothing,
            )
        },
        _ => (s, Outcome::Continue, Effect::EditMessage),
    }
}

/// What a key does while the instructions are edited.
pub open spec fn editing_instructions_key(s: Screen, key: Key) -> (Screen, Outcome, Effect) {
    match key {
        Key::Esc => (
            Screen { custom_instructions: s.instructions_text, ..s.in_mode(Mode::Normal) }.said(
                "Instructions updated."@,
            ),
            Outcome::Continue,
            Effect::Nothing,
        ),
        _ => (s, Outcome::Continue, Effect::EditInstructions),
    }
}

/// What a key does while the help is shown: any key closes it.
pub open spec fn help_key(s: Screen, key: Key) -> (Screen, Outcome, Effect) {
    (s.in_mode(Mode::Normal).said("Help closed. Press '?' for help."@), Outcome::Continue, Effect::Nothing)
}

/// The screen without suggestions.
pub open spec fn without_suggestions(s: Screen) -> Screen {
    Screen { completion_suggestions: Seq::empty(), ..s }
}

/// What a key does while a completion is chosen.
pub open spec fn completing_key(s: Screen, key: Key) -> (Screen, Outcome, Effect) {
    let count = s.completion_suggestions.len() as int;
    match key {
        Key::Tab => if count > 0 {
            let moved = Screen { completion_index: (s.completion_index + 1) % count, ..s };
            (moved.said(moved.selected()), Outcome::Continue, Effect::Nothing)
        } else {
            (s, Outcome::Continue, Effect::Nothing)
        },
        Key::BackTab => if count > 0 {
            let moved = Screen {
                completion_index: if s.completion_index == 0 {
                    count - 1
                } else {
                    s.completion_index - 1
                },
                ..s
            };
            (moved.said(moved.selected()), Outcome::Continue, Effect::Nothing)
        } else {
            (s, Outcome::Continue, Effect::Nothing)
        },
        Key::Enter => if count > 0 {
            let old_message = s.messages[s.current_index];
            let new_message = MessageText {
                emoji: old_message.emoji,
                title: s.completion_suggestions[s.completion_index],
                message: old_message.message,
            };
            let accepted = Screen { messages: s.messages.update(s.current_index, new_message), ..s };
            (
                without_suggestions(accepted.refreshed()).in_mode(Mode::EditingMessage).said(
                    "Completion accepted."@,
                ),
                Outcome::Continue,
                Effect::Nothing,
            )
        } else {
            (s, Outcome::Continue, Effect::Nothing)
        },
        Key::Esc => (
            without_suggestions(s).in_mode(Mode::EditingMessage).said("Completion cancelled."@),
            Outcome::Continue,
            Effect::Nothing,
        ),
        _ => editing_message_key(without_suggestions(s).in_mode(Mode::EditingMessage), key),
    }
}

/// What a key does while the context is selected.
pub open spec fn context_selection_key(s: Screen, key: Key) -> (Screen, Outcome, Effect) {
    match key {
        Key::Up => (s, Outcome::Continue, Effect::SelectionUp),
        Key::Down => (s, Outcome::Continue, Effect::SelectionDown),
        Key::Char(' ') => (s, Outcome::Continue, Effect::SelectionToggle),
        Key::Tab => (s, Outcome::Continue, Effect::SelectionNextCategory),
        Key::Enter => (
            s.in_mode(Mode::Normal).said(
                "Context selection confirmed. Press 'R' to regenerate with selected context."@,
            ),
            Outcome::Continue,
            Effect::Nothing,
        ),
        Key::Esc => (
            s.in_mode(Mode::Normal).said("Context selection cancelled."@),
            Outcome::Continue,
            Effect::Nothing,
        ),
        _ => (s, Outcome::Continue, Effect::Nothing),
    }
}

/// What a key does, whatever the mode. In normal mode and while the
/// message is edited the screen is drawn again after every key.
pub open spec fn any_key(s: Screen, key: Key) -> (Screen, Outcome, Effect) {
    match s.mode {
        Mode::Normal => {
            let (next, outcome, effect) = normal_key(s, key);
            (Screen { dirty: true, ..next }, outcome, effect)
        },
        Mode::EditingMessage => {
            let (next, outcome, effect) = editing_message_key(s, key);
            (Screen { dirty: true, ..next }, outcome, effect)
        },
        Mode::EditingInstructions => editing_instructions_key(s, key),
        Mode::Help => help_key(s, key),
        Mode::Completing => completing_key(s, key),
        Mode::ContextSelection => context_selection_key(s, key),
        Mode::Generating => if key == Key::Esc {
            (s.in_mode(Mode::Normal).said("Message generation cancelled."@), Outcome::Continue, Effect::Nothing)
        } else {
            (s, Outcome::Continue, Effect::Nothing)
        },
        _ => (s, Outcome::Continue, Effect::Nothing),
    }
}

/// A generated message as it is committed.
pub fn format_commit_message(message: &GeneratedMessage) -> (text: String)
    ensures
        text@ == formatted(message@),
{
    let mut text = String::new();
    if let Some(emoji) = &message.emoji {
        text.append(emoji.as_str());
        text.append(" ");
    }
    text.append(message.title.as_str());
    text.append("\n\n");
    text.append(message.message.as_str());
    assert(text@ =~= formatted(message@));
    text
}

/// The parts of the state that belong to the list of a rebase are the
/// same in both states.
pub open spec fn same_rebase(a: TuiState, b: TuiState) -> bool {
    a.rebase_commits == b.rebase_commits && a.rebase_current_index == b.rebase_current_index
        && a.rebase_text == b.rebase_text
}

impl TuiState {
    /// The state of a screen that starts with the given messages. With no
    /// message given, one empty message is there to be filled in.
    pub fn new(initial_messages: Vec<GeneratedMessage>, custom_instructions: String) -> (state: Self)
        ensures
            state@.wf(),
            state@.messages == if initial_messages.len() == 0 {
                seq![
                    MessageText { emoji: None, title: Seq::empty(), message: Seq::empty() },
                ]
            } else {
                Seq::new(initial_messages.len() as nat, |i: int| initial_messages[i]@)
            },
            state@.current_index == 0,
            state@.custom_instructions == custom_instructions@,
            state@.instructions_text == custom_instructions@,
            state@.status == "Press '?': help | 'Esc': exit"@,
            state@.mode == Mode::Normal,
            state@.message_text == formatted(state@.messages[0]),
            !state@.spinner,
            state@.dirty,
            !state@.instructions_visible,
            state@.nav_bar_visible,
            state@.completion_suggestions.len() == 0,
            state@.completion_index == 0,
            state@.pending_completion_prefix is None,
            state.rebase_commits.len() == 0,
            state.rebase_current_index == 0,
            state.rebase_text@.len() == 0,
    {
        let mut messages = initial_messages;
        if messages.len() == 0 {
            messages.push(GeneratedMessage { emoji: None, title: String::new(), message: String::new() });
        }
        let message_text = format_commit_message(&messages[0]);
        let instructions_text = custom_instructions.clone();
        let state = TuiState {
            messages,
            current_index: 0,
            custom_instructions,
            status: "Press '?': help | 'Esc': exit".to_owned(),
            mode: Mode::Normal,
            message_text,
            instructions_text,
            rebase_text: String::new(),
            spinner: false,
            dirty: true,
            instructions_visible: false,
            nav_bar_visible: true,
            rebase_commits: Vec::new(),
            rebase_current_index: 0,
            completion_suggestions: Vec::new(),
            completion_index: 0,
            pending_completion_prefix: None,
        };
        proof {
            if initial_messages.len() == 0 {
                assert(state@.messages =~= seq![
                    MessageText { emoji: None, title: Seq::empty(), message: Seq::empty() },
                ]);
            } else {
                assert(state@.messages =~= Seq::new(
                    initial_messages.len() as nat,
                    |i: int| initial_messages[i]@,
                ));
            }
        }
        state
    }

    fn say(&mut self, text: &str)
        ensures
            final(self)@ == old(self)@.said(text@),
            same_rebase(*final(self), *old(self)),
    {
        self.set_status(text.to_owned());
    }

    /// Puts the current message into its text area: the title, an empty
    /// line, and the body without the white space around it.
    pub fn update_message_textarea(&mut self)
        requires
            old(self).current_index < old(self).messages.len(),
        ensures
            final(self)@ == old(self)@.refreshed(),
            same_rebase(*final(self), *old(self)),
    {
        let current_message = &self.messages[self.current_index];
        let mut text = current_message.title.clone();
        text.append("\n\n");
        let body = trim(current_message.message.as_str());
        text.append(body.as_str());
        self.message_text = text;
        self.dirty = true;
    }

    fn show_position(&mut self)
        requires
            old(self).current_index < old(self).messages.len(),
        ensures
            final(self)@ == old(self)@.said(old(self)@.viewing()),
            same_rebase(*final(self), *old(self)),
    {
        let mut text = "Viewing commit message ".to_owned();
        let position = to_decimal((self.current_index + 1) as u64);
        let count = to_decimal(self.messages.len() as u64);
        text.append(position.as_str());
        text.append("/");
        text.append(count.as_str());
        self.set_status(text);
    }

    fn show_selected(&mut self)
        requires
            old(self).completion_index < old(self).completion_suggestions.len(),
        ensures
            final(self)@ == old(self)@.said(old(self)@.selected()),
            same_rebase(*final(self), *old(self)),
    {
        let mut text = "Selected: ".to_owned();
        text.append(self.completion_suggestions[self.completion_index].as_str());
        self.set_status(text);
    }

    /// Takes a key in normal mode.
    pub fn handle_normal_mode(&mut self, key: Key) -> (handled: Handled)
        requires
            old(self)@.wf(),
        ensures
            final(self)@ == normal_key(old(self)@, key).0,
            handled.result@ == normal_key(old(self)@, key).1,
            handled.effect == normal_key(old(self)@, key).2,
            final(self)@.wf(),
            same_rebase(*final(self), *old(self)),
    {
        match key {
            Key::Char('e') => {
                self.mode = Mode::EditingMessage;
                self.say("Editing commit message. Press Esc to finish.");
                Handled { result: InputResult::Continue, effect: Effect::Nothing }
            },
            Key::Char('i') => {
                self.instructions_visible = !self.instructions_visible;
                if self.instructions_visible {
                    self.mode = Mode::EditingInstructions;
                    self.say("Editing instructions. Press Esc to finish.");
                } else {
                    self.mode = Mode::Normal;
                    self.say("Instructions hidden.");
                }
                Handled { result: InputResult::Continue, effect: Effect::Nothing }
            },
            Key::Char('R') => Handled { result: InputResult::Continue, effect: Effect::Regenerate },
            Key::Char('C') => {
                self.mode = Mode::ContextSelection;
                self.say(
                    "Context Selection: Use arrow keys to navigate, Space to toggle, Enter to confirm, Esc to cancel",
                );
                Handled { result: InputResult::Continue, effect: Effect::Nothing }
            },
            Key::Left | Key::Char('l') => {
                if self.current_index > 0 {
                    self.current_index -= 1;
                } else {
                    self.current_index = self.messages.len() - 1;
                }
                self.update_message_textarea();
                self.show_position();
                Handled { result: InputResult::Continue, effect: Effect::Nothing }
            },
            Key::Right | Key::Char('r') => {
                if self.current_index < self.messages.len() - 1 {
                    self.current_index += 1;
                } else {
                    self.current_index = 0;
                }
                self.update_message_textarea();
                self.show_position();
                Handled { result: InputResult::Continue, effect: Effect::Nothing }
            },
            Key::Enter => {
                let commit_message = format_commit_message(&self.messages[self.current_index]);
                self.say("Committing...");
                self.spinner = true;
                Handled { result: InputResult::Commit(commit_message), effect: Effect::Nothing }
            },
            Key::Char('?') => {
                self.nav_bar_visible = !self.nav_bar_visible;
                if self.nav_bar_visible {
                    self.say("Navigation bar shown.");
                } else {
                    self.say("Navigation bar hidden.");
                }
                Handled { result: InputResult::Continue, effect: Effect::Nothing }
            },
            Key::Char('h') => {
                self.mode = Mode::Help;
                self.say("Viewing help. Press any key to close.");
                Handled { result: InputResult::Continue, effect: Effect::Nothing }
            },
            Key::Esc => Handled { result: InputResult::Exit, effect: Effect::Nothing },
            _ => Handled { result: InputResult::Continue, effect: Effect::Nothing },
        }
    }

    /// Takes a key while the message is edited.
    pub fn handle_editing_message(&mut self, key: Key) -> (handled: Handled)
        requires
            old(self)@.wf(),
        ensures
            final(self)@ == editing_message_key(old(self)@, key).0,
            handled.result@ == editing_message_key(old(self)@, key).1,
            handled.effect == editing_message_key(old(self)@, key).2,
            final(self)@.wf(),
            same_rebase(*final(self), *old(self)),
    {
        match key {
            Key::Esc => {
                self.mode = Mode::Normal;
                let lines = lines_of(self.message_text.as_str());
                let ghost all = text_lines(self.message_text@);
                let (title, body) = if lines.len() > 0 {
                    let title = trim(lines[0].as_str());
                    let mut from: usize = 1;
                    while from < lines.len() && trim(lines[from].as_str()).as_str().unicode_len() == 0
                        invariant
                            1 <= from <= lines.len(),
                            texts(lines@) == all,
                            blank_lines(all, 1) == blank_lines(all, from as int),
                        decreases lines.len() - from,
                    {
                        from += 1;
                    }
                    proof {
                        if from < lines.len() {
                            assert(all[from as int] == lines[from as int]@);
                        }
                    }
                    (title, join_from(&lines, from, "\n"))
                } else {
                    (String::new(), String::new())
                };
                let ghost before = self@;
                let at = self.current_index;
                self.messages[at].title = title;
                self.messages[at].message = body;
                proof {
                    assert(self@.messages =~= before.messages.update(
                        at as int,
                        MessageText {
                            emoji: before.messages[at as int].emoji,
                            title: edited_title(before.message_text),
                            message: edited_body(before.message_text),
                        },
                    ));
                }
                self.say("Commit message updated.");
                self.update_message_textarea();
                Handled { result: InputResult::Continue, effect: Effect::Nothing }
            },
            Key::Tab => {
                let lines = lines_of(self.message_text.as_str());
                let prefix = if lines.len() > 0 {
                    lines[0].clone()
                } else {
                    String::new()
                };
                if trim(prefix.as_str()).as_str().unicode_len() == 0 {
                    self.say("Cannot complete empty message. Type something first.");
                } else {
                    self.pending_completion_prefix = Some(prefix);
                    self.mode = Mode::Completing;
                    self.say("Generating completion suggestions...");
                }
                Handled { result: InputResult::Continue, effect: Effect::Nothing }
            },
            _ => Handled { result: InputResult::Continue, effect: Effect::EditMessage },
        }
    }

    /// Takes a key while the instructions are edited.
    pub fn handle_editing_instructions(&mut self, key: Key) -> (handled: Handled)
        requires
            old(self)@.wf(),
        ensures
            final(self)@ == editing_instructions_key(old(self)@, key).0,
            handled.result@ == editing_instructions_key(old(self)@, key).1,
            handled.effect == editing_instructions_key(old(self)@, key).2,
            final(self)@.wf(),
            same_rebase(*final(self), *old(self)),
    {
        match key {
            Key::Esc => {
                self.mode = Mode::Normal;
                self.custom_instructions = self.instructions_text.clone();
                self.say("Instructions updated.");
                Handled { result: InputResult::Continue, effect: Effect::Nothing }
            },
            _ => Handled { result: InputResult::Continue, effect: Effect::EditInstructions },
        }
    }

    /// Takes a key while the help is shown.
    pub fn handle_help(&mut self, key: Key) -> (handled: Handled)
        requires
            old(self)@.wf(),
        ensures
            final(self)@ == help_key(old(self)@, key).0,
            handled.result@ == help_key(old(self)@, key).1,
            handled.effect == help_key(old(self)@, key).2,
            final(self)@.wf(),
            same_rebase(*final(self), *old(self)),
    {
        self.mode = Mode::Normal;
        self.say("Help closed. Press '?' for help.");
        Handled { result: InputResult::Continue, effect: Effect::Nothing }
    }

    fn clear_suggestions(&mut self)
        ensures
            final(self)@ == without_suggestions(old(self)@),
            same_rebase(*final(self), *old(self)),
    {
        self.completion_suggestions = Vec::new();
        assert(self@.completion_suggestions =~= Seq::<Seq<char>>::empty());
    }

    /// Takes a key while a completion is chosen.
    pub fn handle_completing(&mut self, key: Key) -> (handled: Handled)
        requires
            old(self)@.wf(),
        ensures
            final(self)@ == completing_key(old(self)@, key).0,
            handled.result@ == completing_key(old(self)@, key).1,
            handled.effect == completing_key(old(self)@, key).2,
            final(self)@.wf(),
            same_rebase(*final(self), *old(self)),
    {
        match key {
            Key::Tab => {
                if self.completion_suggestions.len() > 0 {
                    self.completion_index = if self.completion_index + 1
                        == self.completion_suggestions.len() {
                        0
                    } else {
                        self.completion_index + 1
                    };
                    proof {
                        let count = old(self)@.completion_suggestions.len() as int;
                        let index = old(self)@.completion_index;
                        assert((index + 1) % count == self.completion_index) by {
                            if index + 1 == count {
                                assert(count % count == 0) by (nonlinear_arith)
                                    requires
                                        count > 0,
                                ;
                            } else {
                                assert((index + 1) % count == index + 1) by (nonlinear_arith)
                                    requires
                                        0 <= index + 1 < count,
                                ;
                            }
                        }
                    }
                    self.show_selected();
                }
                Handled { result: InputResult::Continue, effect: Effect::Nothing }
            },
            Key::BackTab => {
                if self.completion_suggestions.len() > 0 {
                    if self.completion_index == 0 {
                        self.completion_index = self.completion_suggestions.len() - 1;
                    } else {
                        self.completion_index -= 1;
                    }
                    self.show_selected();
                }
                Handled { result: InputResult::Continue, effect: Effect::Nothing }
            },
            Key::Enter => {
                if self.completion_suggestions.len() > 0 {
                    let suggestion = self.completion_suggestions[self.completion_index].clone();
                    let ghost before = self@;
                    let at = self.current_index;
                    self.messages[at].title = suggestion;
                    proof {
                        assert(self@.messages =~= before.messages.update(
                            at as int,
                            MessageText {
                                emoji: before.messages[at as int].emoji,
                                title: before.completion_suggestions[before.completion_index],
                                message: before.messages[at as int].message,
                            },
                        ));
                    }
                    self.update_message_textarea();
                    self.clear_suggestions();
                    self.mode = Mode::EditingMessage;
                    self.say("Completion accepted.");
                }
                Handled { result: InputResult::Continue, effect: Effect::Nothing }
            },
            Key::Esc => {
                self.clear_suggestions();
                self.mode = Mode::EditingMessage;
                self.say("Completion cancelled.");
                Handled { result: InputResult::Continue, effect: Effect::Nothing }
            },
            _ => {
                self.clear_suggestions();
                self.mode = Mode::EditingMessage;
                self.handle_editing_message(key)
            },
        }
    }

    /// Takes a key while the context is selected.
    pub fn handle_context_selection(&mut self, key: Key) -> (handled: Handled)
        requires
            old(self)@.wf(),
        ensures
            final(self)@ == context_selection_key(old(self)@, key).0,
            handled.result@ == context_selection_key(old(self)@, key).1,
            handled.effect == context_selection_key(old(self)@, key).2,
            final(self)@.wf(),
            same_rebase(*final(self), *old(self)),
    {
        match key {
            Key::Up => Handled { result: InputResult::Continue, effect: Effect::SelectionUp },
            Key::Down => Handled { result: InputResult::Continue, effect: Effect::SelectionDown },
            Key::Char(' ') => Handled { result: InputResult::Continue, effect: Effect::SelectionToggle },
            Key::Tab => Handled {
                result: InputResult::Continue,
                effect: Effect::SelectionNextCategory,
            },
            Key::Enter => {
                self.mode = Mode::Normal;
                self.say("Context selection confirmed. Press 'R' to regenerate with selected context.");
                Handled { result: InputResult::Continue, effect: Effect::Nothing }
            },
            Key::Esc => {
                self.mode = Mode::Normal;
                self.say("Context selection cancelled.");
                Handled { result: InputResult::Continue, effect: Effect::Nothing }
            },
            _ => Handled { result: InputResult::Continue, effect: Effect::Nothing },
        }
    }

    /// Takes a key in whatever mode the screen is in.
    pub fn handle_key(&mut self, key: Key) -> (handled: Handled)
        requires
            old(self)@.wf(),
        ensures
            final(self)@ == any_key(old(self)@, key).0,
            handled.result@ == any_key(old(self)@, key).1,
            handled.effect == any_key(old(self)@, key).2,
            final(self)@.wf(),
            same_rebase(*final(self), *old(self)),
    {
        match self.mode {
            Mode::Normal => {
                let handled = self.handle_normal_mode(key);
                self.dirty = true;
                handled
            },
            Mode::EditingMessage => {
                let handled = self.handle_editing_message(key);
                self.dirty = true;
                handled
            },
            Mode::EditingInstructions => self.handle_editing_instructions(key),
            Mode::Help => self.handle_help(key),
            Mode::Completing => self.handle_completing(key),
            Mode::ContextSelection => self.handle_context_selection(key),
            Mode::Generating => {
                if key == Key::Esc {
                    self.mode = Mode::Normal;
                    self.say("Message generation cancelled.");
                }
                Handled { result: InputResult::Continue, effect: Effect::Nothing }
            },
            _ => Handled { result: InputResult::Continue, effect: Effect::Nothing },
        }
    }
}

/// `handled` is what the key does to a screen that can take keys: the
/// answer and the effect are those of the key on that screen, in the mode
/// that the screen is in.
pub open spec fn is_answer_to(handled: Handled, key: Key) -> bool {
    exists|screen: Screen|
        screen.wf() && handled.result@ == (#[trigger] any_key(screen, key)).1 && handled.effect
            == any_key(screen, key).2
}

/// Takes a key for the program: the state of its screen takes the key, and
/// a message that is to be generated again is asked for. What has to be
/// done to a text area or to the selection of the context comes back as the
/// effect. Which screen the program has is the program's to say; where that
/// screen cannot take keys, nothing comes back, and else what comes back is
/// what the key does to it.
pub fn handle_input<A: TuiApp>(app: &mut A, key: Key) -> (handled: Option<Handled>)
    ensures
        handled is Some ==> is_answer_to(handled->0, key),
{
    let state = app.get_state();
    if !state.is_ready() {
        return None;
    }
    let ghost before = state@;
    let handled = state.handle_key(key);
    proof {
        assert(before.wf());
        assert(handled.result@ == any_key(before, key).1);
        assert(handled.effect == any_key(before, key).2);
        assert(is_answer_to(handled, key));
    }
    if handled.effect == Effect::Regenerate {
        app.handle_regenerate();
    }
    Some(handled)
}

impl TuiState {
    /// Whether the state can take keys: there is a current message, and a
    /// current suggestion where there are suggestions.
    pub fn is_ready(&self) -> (ready: bool)
        ensures
            ready == self@.wf(),
    {
        self.current_index < self.messages.len() && (self.completion_suggestions.len() == 0
            || self.completion_index < self.completion_suggestions.len())
    }
}

} // verus!
