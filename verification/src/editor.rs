//! Model of the interactive line-editing front end.
//!
//! A driver puts the terminal in raw mode, feeds each decoded key event to
//! `handle_key`, performs the redraw or commit the returned step asks for,
//! and restores the normal terminal mode exactly when `raw_mode` has become
//! false (or when it abandons the editor). All editing decisions are here;
//! the cursor sits logically at the end of the buffer at all times.

use vstd::prelude::*;

use crate::text::{chars_to_string, str_to_chars};

verus! {

/// One decoded terminal input event.
pub enum Key {
    /// A printable character.
    Char(char),
    Backspace,
    Tab,
    Enter,
    /// The conventional interrupt chord: discard the line, keep editing.
    Cancel,
    /// The conventional end-of-input chord.
    EndOfInput,
    /// Arrow and other navigation keys: accepted, no effect.
    Nav,
    /// Text reported by the terminal as a paste event.
    Paste(String),
}

/// What the driver must do after a key is handled.
pub enum EditStep {
    /// Keep editing; redraw the line.
    Edited,
    /// The line was committed: emit a newline and hand the text to the loop.
    Committed(String),
    /// Editing ended with no more input; any partial buffer is discarded.
    NoMoreInput,
}

/// The in-memory state of one line-editing session.
pub struct LineEditor {
    /// The edit buffer; the cursor is always at its end.
    pub buffer: Vec<char>,
    /// Whether the terminal is (to be) in raw mode for this session; the
    /// driver keeps the real terminal in step with this flag, so every exit
    /// path restores the normal mode.
    pub raw_mode: bool,
}

impl LineEditor {
    /// Begin editing a fresh line: empty buffer, raw mode entered.
    pub fn begin() -> (e: LineEditor)
        ensures
            e.raw_mode,
            e.buffer@ == Seq::<char>::empty(),
    {
        LineEditor { buffer: Vec::new(), raw_mode: true }
    }

    /// Handle one key event.
    ///
    /// Printable characters, tabs and pastes append to the buffer;
    /// backspace removes the last character if any; enter commits the
    /// buffer and leaves raw mode; the cancel chord empties the buffer but
    /// keeps editing in raw mode, never ending the session; the
    /// end-of-input chord ends the session with raw mode left, discarding
    /// the buffer; navigation keys change nothing.
    pub fn handle_key(&mut self, k: Key) -> (step: EditStep)
        requires
            old(self).raw_mode,
        ensures
            k matches Key::Char(c) ==> (final(self).buffer@ == old(self).buffer@.push(c)
                && final(self).raw_mode && step is Edited),
            k is Backspace ==> (final(self).buffer@ == (if old(self).buffer@.len() > 0 {
                old(self).buffer@.drop_last()
            } else {
                old(self).buffer@
            }) && final(self).raw_mode && step is Edited),
            k is Tab ==> (final(self).buffer@ == old(self).buffer@.push('\t')
                && final(self).raw_mode && step is Edited),
            k is Enter ==> (step matches EditStep::Committed(line) && line@ == old(self).buffer@
                && !final(self).raw_mode),
            k is Cancel ==> (final(self).buffer@.len() == 0 && final(self).raw_mode
                && step is Edited),
            k is EndOfInput ==> (step is NoMoreInput && !final(self).raw_mode),
            k is Nav ==> (*final(self) == *old(self) && step is Edited),
            k matches Key::Paste(s) ==> (final(self).buffer@ == old(self).buffer@ + s@
                && final(self).raw_mode && step is Edited),
    {
        match k {
            Key::Char(c) => {
                self.buffer.push(c);
                EditStep::Edited
            },
            Key::Backspace => {
                if self.buffer.len() > 0 {
                    self.buffer.pop();
                    proof {
                        assert(self.buffer@ =~= old(self).buffer@.drop_last());
                    }
                }
                EditStep::Edited
            },
            Key::Tab => {
                self.buffer.push('\t');
                EditStep::Edited
            },
            Key::Enter => {
                let line = chars_to_string(&self.buffer);
                self.raw_mode = false;
                EditStep::Committed(line)
            },
            Key::Cancel => {
                self.buffer.clear();
                EditStep::Edited
            },
            Key::EndOfInput => {
                self.raw_mode = false;
                EditStep::NoMoreInput
            },
            Key::Nav => EditStep::Edited,
            Key::Paste(s) => {
                let mut pasted = str_to_chars(s.as_str());
                self.buffer.append(&mut pasted);
                EditStep::Edited
            },
        }
    }

    /// The full redraw of the edited line: return to the line start, print
    /// the prompt and the buffer, clear what follows. Rendering is a pure
    /// function of prompt and buffer, so redrawing an unchanged line
    /// reproduces the same bytes.
    pub fn render(&self, prompt: &str) -> (r: String)
        ensures
            r@ == spec_render(prompt@, self.buffer@),
    {
        let mut r = String::new();
        r.append("\r");
        r.append(prompt);
        let body = chars_to_string(&self.buffer);
        r.append(body.as_str());
        r.append("\u{1b}[K");
        proof {
            assert(r@ =~= spec_render(prompt@, self.buffer@));
        }
        r
    }
}

/// The bytes of one full line redraw.
pub open spec fn spec_render(prompt: Seq<char>, buffer: Seq<char>) -> Seq<char> {
    "\r"@ + prompt + buffer + "\u{1b}[K"@
}

} // verus!
