//! The line editor's decisions: one input byte at a time, in raw terminal
//! mode, with a two-stage tab protocol. Reading bytes, writing the echo and
//! running the completion engine are the caller's part.
use vstd::prelude::*;

use crate::completion::BuiltinsCompletion;
use crate::text::{chars_of, concat, string_of};

verus! {

pub const TABULATION: u8 = 9;

pub const LINEBREAK: u8 = 10;

pub const CARRIAGE: u8 = 13;

pub const CTRL_C: u8 = 3;

pub const CTRL_H: u8 = 8;

pub const BACK_SPACE: u8 = 127;

pub const ASCII_SPACE: u8 = 32;

pub const BELL_CHAR: char = '\x07';

/// How one call of the line editor ends.
#[derive(Debug, PartialEq, Eq)]
pub enum InputResult {
    /// The submitted line.
    Input(String),
    /// A second tab listed several completions; the prompt is to be drawn
    /// again with `input` as the line's content.
    MultiCompletion { completion_items: String, input: String },
    /// The user pressed Ctrl-C.
    Reset,
}

/// What comes after a byte has been handled.
#[derive(Debug, PartialEq, Eq)]
pub enum KeyOutcome {
    /// Read the next byte.
    Continue,
    /// Run the completion engine on the buffer with `multiple`, then hand its
    /// answer to `complete_with`.
    Complete { multiple: bool },
    /// The editor returns this.
    Done(InputResult),
}

/// The text to echo, then what comes next.
#[derive(Debug)]
pub struct KeyAction {
    pub echo: String,
    pub outcome: KeyOutcome,
}

/// The editor's state: the visible line and whether the last key was a
/// tab that found nothing to add.
pub struct EditorState {
    pub buffer: Vec<char>,
    pub tab_pressed_once: bool,
}

/// The line editor: the completion chain it consults on tab.
pub struct InputHandler {
    pub completion: BuiltinsCompletion,
}

impl InputHandler {
    pub fn new(completion: BuiltinsCompletion) -> Self {
        InputHandler { completion }
    }

    /// The state at the start of one call, with the line's earlier content.
    pub fn start(previous_input: Option<String>) -> (r: EditorState)
        ensures
            match previous_input {
                Some(p) => r.buffer@ == p@,
                None => r.buffer@.len() == 0,
            },
            !r.tab_pressed_once,
    {
        let buffer = match previous_input {
            Some(p) => chars_of(p.as_str()),
            None => Vec::new(),
        };
        EditorState { buffer, tab_pressed_once: false }
    }
}

/// The sequence that erases the character left of the cursor.
pub open spec fn erase_text() -> Seq<char> {
    seq!['\x08', ' ', '\x08']
}

pub open spec fn crlf() -> Seq<char> {
    seq!['\r', '\n']
}

impl EditorState {
    /// Handles one input byte.
    pub fn feed(&mut self, byte: u8) -> (r: KeyAction)
        ensures
            ASCII_SPACE <= byte < BACK_SPACE ==> {
                &&& final(self).buffer@ == old(self).buffer@.push(byte as char)
                &&& !final(self).tab_pressed_once
                &&& r.echo@ == seq![byte as char]
                &&& r.outcome == KeyOutcome::Continue
            },
            byte == CARRIAGE || byte == LINEBREAK ==> {
                &&& final(self).buffer@ == old(self).buffer@
                &&& r.echo@ == crlf()
                &&& match r.outcome {
                    KeyOutcome::Done(InputResult::Input(s)) => s@ == old(self).buffer@,
                    _ => false,
                }
            },
            byte == BACK_SPACE || byte == CTRL_H ==> {
                &&& !final(self).tab_pressed_once
                &&& r.outcome == KeyOutcome::Continue
                &&& old(self).buffer@.len() > 0 ==> final(self).buffer@ == old(self).buffer@.drop_last()
                    && r.echo@ == erase_text()
                &&& old(self).buffer@.len() == 0 ==> final(self).buffer@ == old(self).buffer@
                    && r.echo@.len() == 0
            },
            byte == CTRL_C ==> {
                &&& final(self).buffer@ == old(self).buffer@
                &&& r.echo@.len() == 0
                &&& r.outcome == KeyOutcome::Done(InputResult::Reset)
            },
            byte == TABULATION ==> {
                &&& final(self).buffer@ == old(self).buffer@
                &&& final(self).tab_pressed_once == old(self).tab_pressed_once
                &&& r.echo@.len() == 0
                &&& r.outcome == (KeyOutcome::Complete { multiple: old(self).tab_pressed_once })
            },
            !(ASCII_SPACE <= byte < BACK_SPACE || byte == CARRIAGE || byte == LINEBREAK || byte
                == BACK_SPACE || byte == CTRL_H || byte == CTRL_C || byte == TABULATION) ==> {
                &&& final(self).buffer@ == old(self).buffer@
                &&& !final(self).tab_pressed_once
                &&& r.echo@.len() == 0
                &&& r.outcome == KeyOutcome::Continue
            },
    {
        if byte == TABULATION {
            return KeyAction {
                echo: String::new(),
                outcome: KeyOutcome::Complete { multiple: self.tab_pressed_once },
            };
        }
        if byte == CARRIAGE || byte == LINEBREAK {
            let line = string_of(&self.buffer);
            let v = vec!['\r', '\n'];
            assert(v@ =~= crlf());
            let echo = string_of(&v);
            return KeyAction { echo, outcome: KeyOutcome::Done(InputResult::Input(line)) };
        }
        if byte == BACK_SPACE || byte == CTRL_H {
            self.tab_pressed_once = false;
            if self.buffer.len() > 0 {
                self.buffer.pop();
                let v = vec!['\x08', ' ', '\x08'];
                assert(v@ =~= erase_text());
                let echo = string_of(&v);
                return KeyAction { echo, outcome: KeyOutcome::Continue };
            }
            return KeyAction { echo: String::new(), outcome: KeyOutcome::Continue };
        }
        if byte == CTRL_C {
            return KeyAction { echo: String::new(), outcome: KeyOutcome::Done(InputResult::Reset) };
        }
        if ASCII_SPACE <= byte && byte < BACK_SPACE {
            let c = byte as char;
            self.buffer.push(c);
            self.tab_pressed_once = false;
            let v = vec![c];
            assert(v@ =~= seq![c]);
            let echo = string_of(&v);
            return KeyAction { echo, outcome: KeyOutcome::Continue };
        }
        self.tab_pressed_once = false;
        KeyAction { echo: String::new(), outcome: KeyOutcome::Continue }
    }

    /// Applies the completion engine's answer to a tab. On a first tab a
    /// suffix extends the line and no answer rings the bell; on a second tab
    /// an answer is a listing that ends the call, and no answer rings the bell.
    pub fn complete_with(&mut self, completion: Option<String>) -> (r: KeyAction)
        ensures
            !old(self).tab_pressed_once ==> match completion {
                Some(s) => final(self).buffer@ == old(self).buffer@ + s@ && r.echo@ == s@
                    && !final(self).tab_pressed_once && r.outcome == KeyOutcome::Continue,
                None => final(self).buffer@ == old(self).buffer@ && r.echo@ == seq![BELL_CHAR]
                    && final(self).tab_pressed_once && r.outcome == KeyOutcome::Continue,
            },
            old(self).tab_pressed_once ==> final(self).buffer@ == old(self).buffer@ && match completion {
                Some(s) => r.echo@.len() == 0 && match r.outcome {
                    KeyOutcome::Done(InputResult::MultiCompletion { completion_items, input }) =>
                        completion_items@ == crlf() + s@ + seq!['\n'] && input@ == old(self).buffer@,
                    _ => false,
                },
                None => r.echo@ == seq![BELL_CHAR] && final(self).tab_pressed_once && r.outcome
                    == KeyOutcome::Continue,
            },
    {
        let v = vec![BELL_CHAR];
        assert(v@ =~= seq![BELL_CHAR]);
        let bell = string_of(&v);
        match completion {
            Some(s) => {
                if self.tab_pressed_once {
                    let head = concat("\r\n", s.as_str());
                    let items = concat(head.as_str(), "\n");
                    proof {
                        reveal_strlit("\r\n");
                        reveal_strlit("\n");
                        assert("\r\n"@ =~= crlf());
                        assert(items@ =~= crlf() + s@ + seq!['\n']);
                    }
                    let input = string_of(&self.buffer);
                    return KeyAction {
                        echo: String::new(),
                        outcome: KeyOutcome::Done(
                            InputResult::MultiCompletion { completion_items: items, input },
                        ),
                    };
                }
                let added = chars_of(s.as_str());
                let mut i: usize = 0;
                let ghost before = self.buffer@;
                while i < added.len()
                    invariant
                        i <= added@.len(),
                        added@ == s@,
                        self.buffer@ == before + added@.take(i as int),
                        !self.tab_pressed_once,
                    decreases added@.len() - i,
                {
                    self.buffer.push(added[i]);
                    assert(self.buffer@ =~= before + added@.take(i + 1));
                    i += 1;
                }
                assert(added@.take(added@.len() as int) =~= added@);
                KeyAction { echo: s, outcome: KeyOutcome::Continue }
            },
            None => {
                self.tab_pressed_once = true;
                KeyAction { echo: bell, outcome: KeyOutcome::Continue }
            },
        }
    }
}

} // verus!
