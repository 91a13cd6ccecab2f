//! What a key press does to the input line and the chat mode, and what it
//! asks of the caller.

use vstd::prelude::*;
use vstd::string::*;
use crate::text::{string_pop, string_push};

verus! {

/// Whether keys move through the list of peers or write a message.
#[derive(Clone, Copy, Debug, PartialEq, Eq, Structural)]
pub enum ChatMode {
    Idle,
    Chatting,
}

/// A key press, as far as the client tells keys apart.
#[derive(Clone, Copy, Debug, PartialEq, Eq)]
pub enum Key {
    Enter,
    Down,
    Up,
    Backspace,
    Esc,
    Char(char),
    Other,
}

/// Which hint is shown above the input line.
#[derive(Clone, Copy, Debug, PartialEq, Eq, Structural)]
pub enum Prompt {
    /// No peer is known yet: leave, or wait for one.
    WaitForPeer,
    /// A peer is known: leave, or begin a message.
    BeginMessage,
    /// A message is being written: go back, or send it.
    SendMessage,
}

/// The hint for a chat mode, given whether any peer is known.
pub open spec fn prompt_for(mode: ChatMode, any_peer: bool) -> Prompt {
    match mode {
        ChatMode::Idle => if any_peer {
            Prompt::BeginMessage
        } else {
            Prompt::WaitForPeer
        },
        ChatMode::Chatting => Prompt::SendMessage,
    }
}

/// The key that ends the program while no message is being written.
pub const QUIT_KEY: char = 'q';

/// What a key press asks of the caller, as plain values.
pub ghost enum ActionView {
    Nothing,
    Quit,
    SelectNext,
    SelectPrevious,
    Send(Seq<char>),
}

/// What a key press asks of the caller.
#[derive(Debug)]
pub enum Action {
    /// Nothing beyond the change of the input state.
    Nothing,
    /// End the program.
    Quit,
    /// Move the cursor to the next peer.
    SelectNext,
    /// Move the cursor to the peer before.
    SelectPrevious,
    /// Send the text to the selected peer and store it in the transcript.
    Send(String),
}

impl View for Action {
    type V = ActionView;

    open spec fn view(&self) -> ActionView {
        match self {
            Action::Nothing => ActionView::Nothing,
            Action::Quit => ActionView::Quit,
            Action::SelectNext => ActionView::SelectNext,
            Action::SelectPrevious => ActionView::SelectPrevious,
            Action::Send(text) => ActionView::Send(text@),
        }
    }
}

/// The input state, as plain values.
pub ghost struct ApplicationView {
    pub input: Seq<char>,
    pub input_mode: ChatMode,
    pub messages: Seq<Seq<char>>,
}

/// The input line, the chat mode, and the messages sent so far.
pub struct Application {
    pub input: String,
    pub input_mode: ChatMode,
    pub messages: Vec<String>,
}

impl View for Application {
    type V = ApplicationView;

    open spec fn view(&self) -> ApplicationView {
        ApplicationView {
            input: self.input@,
            input_mode: self.input_mode,
            messages: self.messages@.map_values(|m: String| m@),
        }
    }
}

impl ApplicationView {
    /// The input state after a key press.
    pub open spec fn after_key(self, key: Key) -> ApplicationView {
        match self.input_mode {
            ChatMode::Idle => match key {
                Key::Enter => ApplicationView { input_mode: ChatMode::Chatting, ..self },
                _ => self,
            },
            ChatMode::Chatting => match key {
                Key::Enter => if self.input.len() > 0 {
                    ApplicationView {
                        input: Seq::empty(),
                        messages: self.messages.push(self.input),
                        ..self
                    }
                } else {
                    self
                },
                Key::Backspace => if self.input.len() > 0 {
                    ApplicationView { input: self.input.drop_last(), ..self }
                } else {
                    self
                },
                Key::Esc => ApplicationView { input_mode: ChatMode::Idle, ..self },
                Key::Char(c) => ApplicationView { input: self.input.push(c), ..self },
                _ => self,
            },
        }
    }

    /// What a key press asks of the caller.
    pub open spec fn action_for(self, key: Key) -> ActionView {
        match self.input_mode {
            ChatMode::Idle => match key {
                Key::Down => ActionView::SelectNext,
                Key::Up => ActionView::SelectPrevious,
                Key::Char(c) => if c == QUIT_KEY {
                    ActionView::Quit
                } else {
                    ActionView::Nothing
                },
                _ => ActionView::Nothing,
            },
            ChatMode::Chatting => match key {
                Key::Enter => if self.input.len() > 0 {
                    ActionView::Send(self.input)
                } else {
                    ActionView::Nothing
                },
                _ => ActionView::Nothing,
            },
        }
    }
}

impl Default for Application {
    /// An empty input line in idle mode, with no message sent.
    fn default() -> (r: Application)
        ensures
            r@ == (ApplicationView {
                input: Seq::empty(),
                input_mode: ChatMode::Idle,
                messages: Seq::empty(),
            }),
    {
        let r = Application { input: String::new(), input_mode: ChatMode::Idle, messages: Vec::new() };
        assert(r@.messages =~= Seq::empty());
        r
    }
}

impl Application {
    /// The hint to show above the input line, given whether any peer is known.
    pub fn prompt(&self, any_peer: bool) -> (r: Prompt)
        ensures
            r == prompt_for(self@.input_mode, any_peer),
    {
        match self.input_mode {
            ChatMode::Idle => {
                if any_peer {
                    Prompt::BeginMessage
                } else {
                    Prompt::WaitForPeer
                }
            },
            ChatMode::Chatting => Prompt::SendMessage,
        }
    }

    /// Takes a key press: changes the input state, and returns what is left
    /// for the caller to do.
    pub fn handle_key(&mut self, key: Key) -> (r: Action)
        ensures
            final(self)@ == old(self)@.after_key(key),
            r@ == old(self)@.action_for(key),
    {
        match self.input_mode {
            ChatMode::Idle => match key {
                Key::Enter => {
                    self.input_mode = ChatMode::Chatting;
                    Action::Nothing
                },
                Key::Down => Action::SelectNext,
                Key::Up => Action::SelectPrevious,
                Key::Char(c) => {
                    if c == QUIT_KEY {
                        Action::Quit
                    } else {
                        Action::Nothing
                    }
                },
                _ => Action::Nothing,
            },
            ChatMode::Chatting => match key {
                Key::Enter => {
                    if self.input.as_str().is_empty() {
                        Action::Nothing
                    } else {
                        let mut message = String::new();
                        core::mem::swap(&mut self.input, &mut message);
                        self.messages.push(message.clone());
                        assert(self@.messages =~= old(self)@.messages.push(old(self)@.input));
                        Action::Send(message)
                    }
                },
                Key::Backspace => {
                    let _ = string_pop(&mut self.input);
                    Action::Nothing
                },
                Key::Esc => {
                    self.input_mode = ChatMode::Idle;
                    Action::Nothing
                },
                Key::Char(c) => {
                    string_push(&mut self.input, c);
                    Action::Nothing
                },
                _ => Action::Nothing,
            },
        }
    }
}

/// The width of `text` in terminal columns, as `unicode-width` counts it.
pub uninterp spec fn display_width(text: Seq<char>) -> usize;

/// Calls `UnicodeWidthStr::width` of `unicode-width`. The contract only gives
/// the result its name.
#[verifier::external_body]
pub(crate) fn text_width(text: &str) -> (r: usize)
    ensures
        r == display_width(text@),
{
    unicode_width::UnicodeWidthStr::width(text)
}

/// The cell of the text cursor in an input box whose frame begins at column
/// `x` and row `y`, behind a text that is `width` columns wide: one cell in
/// from the frame and past the text. None where the terminal has no such cell.
pub open spec fn cell_after(x: int, y: int, width: int) -> Option<(int, int)> {
    if x + width + 1 <= u16::MAX && y + 1 <= u16::MAX {
        Some((x + width + 1, y + 1))
    } else {
        None
    }
}

/// The cell of the text cursor behind a text that is `width` columns wide.
pub fn cursor_cell(x: u16, y: u16, width: usize) -> (r: Option<(u16, u16)>)
    ensures
        match r {
            Some(cell) => cell_after(x as int, y as int, width as int) == Some(
                (cell.0 as int, cell.1 as int),
            ),
            None => cell_after(x as int, y as int, width as int) is None,
        },
{
    if y == u16::MAX || width >= u16::MAX as usize {
        return None;
    }
    let wide: u16 = width as u16;
    if x > u16::MAX - 1 - wide {
        return None;
    }
    Some((x + wide + 1, y + 1))
}

impl Application {
    /// The cell of the text cursor behind the input line, in an input box
    /// whose frame begins at column `x` and row `y`.
    pub fn input_cursor(&self, x: u16, y: u16) -> (r: Option<(u16, u16)>)
        ensures
            match r {
                Some(cell) => cell_after(x as int, y as int, display_width(self@.input) as int)
                    == Some((cell.0 as int, cell.1 as int)),
                None => cell_after(x as int, y as int, display_width(self@.input) as int) is None,
            },
    {
        cursor_cell(x, y, text_width(self.input.as_str()))
    }
}

} // verus!
