use vstd::prelude::*;
use crate::keys::{KeyCode, KeyEvent, KeyModifiers};

verus! {

/// Where a prompt stands after a key.
#[derive(Clone, Copy, Debug, PartialEq, Eq, Structural)]
pub enum PromptStep {
    /// Keep reading keys.
    Continue,
    /// The input is complete.
    Done,
    /// The prompt was cancelled; the input is dropped.
    Cancelled,
}

/// What a prompt holding `input` does with `key`: a typed character is added,
/// Backspace or Delete removes the last character, Enter (or an escape
/// character) completes the input, Esc cancels it and empties it, and any
/// other key is ignored. Gives the step and the new input.
pub open spec fn prompt_step(input: Seq<char>, key: KeyEvent) -> (PromptStep, Seq<char>) {
    match key {
        KeyEvent { code: KeyCode::Char(c), modifiers: KeyModifiers::Plain }
        | KeyEvent { code: KeyCode::Char(c), modifiers: KeyModifiers::Shift } => if c == '\u{1b}' {
            (PromptStep::Done, input)
        } else {
            (PromptStep::Continue, input.push(c))
        },
        KeyEvent { code: KeyCode::Esc, modifiers: _ } => (PromptStep::Cancelled, Seq::empty()),
        KeyEvent { code: KeyCode::Delete, modifiers: KeyModifiers::Plain }
        | KeyEvent { code: KeyCode::Backspace, modifiers: KeyModifiers::Plain } => (
            PromptStep::Continue,
            if input.len() == 0 {
                input
            } else {
                input.drop_last()
            },
        ),
        KeyEvent { code: KeyCode::Enter, modifiers: KeyModifiers::Plain } => (PromptStep::Done, input),
        _ => (PromptStep::Continue, input),
    }
}

/// A one-line input read key by key, for "save as" and search.
pub struct Prompt {
    pub input: Vec<char>,
}

impl Prompt {
    pub fn new() -> (r: Prompt)
        ensures
            r.input@.len() == 0,
    {
        Prompt { input: Vec::new() }
    }

    /// Takes one key: a typed character is added, Backspace or Delete removes
    /// the last character, Enter (or an escape character) completes the
    /// input, Esc cancels it, and any other key is ignored.
    pub fn on_key(&mut self, key: KeyEvent) -> (r: PromptStep)
        ensures
            (r, final(self).input@) == prompt_step(old(self).input@, key),
    {
        match key {
            KeyEvent { code: KeyCode::Char(c), modifiers: KeyModifiers::Plain | KeyModifiers::Shift } => {
                if c == '\u{1b}' {
                    return PromptStep::Done;
                }
                self.input.push(c);
                PromptStep::Continue
            },
            KeyEvent { code: KeyCode::Esc, modifiers: _ } => {
                self.input.clear();
                PromptStep::Cancelled
            },
            KeyEvent {
                code: KeyCode::Delete | KeyCode::Backspace,
                modifiers: KeyModifiers::Plain,
            } => {
                self.input.pop();
                PromptStep::Continue
            },
            KeyEvent { code: KeyCode::Enter, modifiers: KeyModifiers::Plain } => PromptStep::Done,
            _ => PromptStep::Continue,
        }
    }

    /// The input once the prompt has ended: none when it is empty.
    pub fn result(&self) -> (r: Option<Vec<char>>)
        ensures
            match r {
                Some(v) => v@ == self.input@ && v@.len() > 0,
                None => self.input@.len() == 0,
            },
    {
        if self.input.len() == 0 {
            None
        } else {
            Some(crate::output::split_off_tail(&self.input, 0))
        }
    }
}

} // verus!
