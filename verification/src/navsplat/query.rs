//! The line that the query is typed into: a `tui_input::Input`.

use crossterm::event::{Event, KeyCode as Code, KeyEvent as Key, KeyModifiers as Modifiers};
use tui_input::backend::crossterm::to_input_request as request_for;
use tui_input::{Input, InputRequest};
use vstd::prelude::*;

use crate::config::{KeyCode, KeyEvent, KeyModifiers};
#[allow(unused_imports)]
use crate::config::KeyEventKind;

verus! {

/// `tui_input::Input`, a line of text with a cursor.
#[verifier::external_type_specification]
#[verifier::external_body]
pub struct ExInput(Input);

/// The text of a line.
pub uninterp spec fn input_text(input: Input) -> Seq<char>;

/// The number of characters before the cursor.
pub uninterp spec fn input_cursor(input: Input) -> int;

/// The text that was cut last, and that a yank brings back.
pub uninterp spec fn input_kept(input: Input) -> Seq<char>;

/// Whether the last edit cut text: a cut right behind it adds to what is kept.
pub uninterp spec fn input_cutting(input: Input) -> bool;

/// The number of characters that make up what the user sees as the character
/// before the cursor.
pub uninterp spec fn char_before(text: Seq<char>, cursor: int) -> int;

/// The number of characters that make up what the user sees as the character
/// behind the cursor.
pub uninterp spec fn char_after(text: Seq<char>, cursor: int) -> int;

/// The number of characters from the begin of the word before the cursor to the
/// cursor.
pub uninterp spec fn word_before(text: Seq<char>, cursor: int) -> int;

/// The number of characters from the cursor to the begin of the next word.
pub uninterp spec fn word_after(text: Seq<char>, cursor: int) -> int;

/// A change of a line.
#[derive(Clone, Copy, Debug, PartialEq, Eq, Structural)]
pub enum InputEdit {
    SetCursor(usize),
    InsertChar(char),
    GoToPrevChar,
    GoToNextChar,
    GoToPrevWord,
    GoToNextWord,
    GoToStart,
    GoToEnd,
    DeletePrevChar,
    DeleteNextChar,
    DeletePrevWord,
    DeleteNextWord,
    DeleteLine,
    DeleteTillEnd,
    DeleteFromStart,
    Yank,
}

/// A line as a mathematical object.
#[verifier::ext_equal]
pub struct Entry {
    pub text: Seq<char>,
    pub cursor: int,
    pub kept: Seq<char>,
    pub cutting: bool,
}

/// A line as a mathematical object.
pub open spec fn entry(input: Input) -> Entry {
    Entry {
        text: input_text(input),
        cursor: input_cursor(input),
        kept: input_kept(input),
        cutting: input_cutting(input),
    }
}

impl Entry {
    /// With the cursor elsewhere.
    pub open spec fn moved(self, to: int) -> Entry {
        Entry { cursor: to, cutting: false, ..self }
    }

    /// With `text` put in before the cursor.
    pub open spec fn inserted(self, text: Seq<char>) -> Entry {
        Entry {
            text: self.text.take(self.cursor) + text + self.text.skip(self.cursor),
            cursor: self.cursor + text.len(),
            cutting: false,
            ..self
        }
    }

    /// Without the characters from `from` to `to`; the cursor stands where they were.
    pub open spec fn deleted(self, from: int, to: int) -> Entry {
        Entry {
            text: self.text.take(from) + self.text.skip(to),
            cursor: from,
            cutting: false,
            ..self
        }
    }

    /// Without the characters from `from` to `to`, which are kept. They go before or
    /// behind what is kept, where that was cut by the edit before this one.
    pub open spec fn cut(self, from: int, to: int, before: bool) -> Entry {
        let text = self.text.subrange(from, to);
        let kept = if !self.cutting {
            text
        } else if before {
            text + self.kept
        } else {
            self.kept + text
        };
        Entry { kept, cutting: true, ..self.deleted(from, to) }
    }

    /// The line after an edit, and whether the edit counts as a change of the text.
    pub open spec fn edited(self, edit: InputEdit) -> (Entry, bool) {
        let text = self.text;
        let end = text.len() as int;
        let cursor = self.cursor;
        let prev = cursor - char_before(text, cursor);
        let next = cursor + char_after(text, cursor);
        let prev_word = cursor - word_before(text, cursor);
        let next_word = cursor + word_after(text, cursor);
        match edit {
            InputEdit::SetCursor(pos) => (
                self.moved(
                    if pos < end {
                        pos as int
                    } else {
                        end
                    },
                ),
                false,
            ),
            InputEdit::InsertChar(c) => (self.inserted(seq![c]), true),
            InputEdit::GoToPrevChar => if cursor == 0 {
                (self, false)
            } else {
                (self.moved(prev), false)
            },
            InputEdit::GoToNextChar => if cursor == end {
                (self, false)
            } else {
                (self.moved(next), false)
            },
            InputEdit::GoToPrevWord => if cursor == 0 {
                (self.moved(cursor), false)
            } else {
                (self.moved(prev_word), false)
            },
            InputEdit::GoToNextWord => if cursor == end {
                (self.moved(cursor), false)
            } else {
                (self.moved(next_word), false)
            },
            InputEdit::GoToStart => (self.moved(0), false),
            InputEdit::GoToEnd => (self.moved(end), false),
            InputEdit::DeletePrevChar => if cursor == 0 {
                (self, false)
            } else {
                (self.deleted(prev, cursor), true)
            },
            InputEdit::DeleteNextChar => if cursor == end {
                (self, false)
            } else {
                (self.deleted(cursor, next), true)
            },
            InputEdit::DeletePrevWord => if cursor == 0 {
                (Entry { cutting: true, ..self }, false)
            } else {
                (self.cut(prev_word, cursor, true), true)
            },
            InputEdit::DeleteNextWord => if cursor == end {
                (Entry { cutting: true, ..self }, false)
            } else {
                (self.cut(cursor, next_word, false), true)
            },
            InputEdit::DeleteLine => if end == 0 {
                (Entry { cutting: true, ..self }, false)
            } else {
                (self.cut(0, end, cursor == end), true)
            },
            InputEdit::DeleteTillEnd => (self.cut(cursor, end, false), true),
            InputEdit::DeleteFromStart => if cursor == 0 {
                (self.moved(cursor), false)
            } else {
                (Entry { cutting: false, ..self.cut(0, cursor, true) }, true)
            },
            InputEdit::Yank => if self.kept.len() == 0 {
                (self.moved(cursor), false)
            } else {
                (self.inserted(self.kept), true)
            },
        }
    }
}

/// `Input::new` makes a line of a text, with the cursor at its end and nothing
/// kept.
pub assume_specification[ Input::new ](value: String) -> (r: Input)
    ensures
        input_text(r) == value@,
        input_cursor(r) == value@.len(),
        input_kept(r) == Seq::<char>::empty(),
        !input_cutting(r),
;

/// `Input::value` gives the text of the line.
pub assume_specification[ Input::value ](input: &Input) -> (r: &str)
    ensures
        r@ == input_text(*input),
;

/// `Input::handle` does an edit, and tells whether the text changed. What a user
/// sees as one character may be several, and where words begin follows the word
/// boundaries of Unicode: how far those edits reach has a name of its own, of
/// which is said that they reach at least one character far and stay within the
/// text.
#[verifier::external_body]
pub(crate) fn edit_input(input: &mut Input, edit: InputEdit) -> (r: bool)
    ensures
        entry(*final(input)) == entry(*old(input)).edited(edit).0,
        r == entry(*old(input)).edited(edit).1,
        0 <= input_cursor(*old(input)) <= input_text(*old(input)).len(),
        input_cursor(*old(input)) > 0 ==> 0 < char_before(
            input_text(*old(input)),
            input_cursor(*old(input)),
        ) <= input_cursor(*old(input)),
        input_cursor(*old(input)) > 0 ==> 0 < word_before(
            input_text(*old(input)),
            input_cursor(*old(input)),
        ) <= input_cursor(*old(input)),
        input_cursor(*old(input)) < input_text(*old(input)).len() ==> 0 < char_after(
            input_text(*old(input)),
            input_cursor(*old(input)),
        ) <= input_text(*old(input)).len() - input_cursor(*old(input)),
        input_cursor(*old(input)) < input_text(*old(input)).len() ==> 0 < word_after(
            input_text(*old(input)),
            input_cursor(*old(input)),
        ) <= input_text(*old(input)).len() - input_cursor(*old(input)),
{
    let request = match edit {
        InputEdit::SetCursor(n) => InputRequest::SetCursor(n), InputEdit::InsertChar(c) => InputRequest::InsertChar(c),
        InputEdit::GoToPrevChar => InputRequest::GoToPrevChar, InputEdit::GoToNextChar => InputRequest::GoToNextChar,
        InputEdit::GoToPrevWord => InputRequest::GoToPrevWord, InputEdit::GoToNextWord => InputRequest::GoToNextWord,
        InputEdit::GoToStart => InputRequest::GoToStart, InputEdit::GoToEnd => InputRequest::GoToEnd,
        InputEdit::DeletePrevChar => InputRequest::DeletePrevChar, InputEdit::DeleteNextChar => InputRequest::DeleteNextChar,
        InputEdit::DeletePrevWord => InputRequest::DeletePrevWord, InputEdit::DeleteNextWord => InputRequest::DeleteNextWord,
        InputEdit::DeleteLine => InputRequest::DeleteLine, InputEdit::DeleteTillEnd => InputRequest::DeleteTillEnd,
        InputEdit::DeleteFromStart => InputRequest::DeleteFromStart, InputEdit::Yank => InputRequest::Yank,
    };
    input.handle(request).is_some_and(|changed| changed.value)
}

/// `tui_input::InputRequest`, a change of a line as that crate has it.
#[verifier::external_type_specification]
#[verifier::external_body]
pub struct ExInputRequest(InputRequest);

/// The change that a request asks for.
pub uninterp spec fn request_edit(request: InputRequest) -> InputEdit;

/// A `tui_input::InputRequest` is one of the changes of a line.
#[verifier::external_body]
fn edit_of(request: InputRequest) -> (r: InputEdit)
    ensures
        r == request_edit(request),
{
    match request {
        InputRequest::SetCursor(n) => InputEdit::SetCursor(n), InputRequest::InsertChar(c) => InputEdit::InsertChar(c),
        InputRequest::GoToPrevChar => InputEdit::GoToPrevChar, InputRequest::GoToNextChar => InputEdit::GoToNextChar,
        InputRequest::GoToPrevWord => InputEdit::GoToPrevWord, InputRequest::GoToNextWord => InputEdit::GoToNextWord,
        InputRequest::GoToStart => InputEdit::GoToStart, InputRequest::GoToEnd => InputEdit::GoToEnd,
        InputRequest::DeletePrevChar => InputEdit::DeletePrevChar, InputRequest::DeleteNextChar => InputEdit::DeleteNextChar,
        InputRequest::DeletePrevWord => InputEdit::DeletePrevWord, InputRequest::DeleteNextWord => InputEdit::DeleteNextWord,
        InputRequest::DeleteLine => InputEdit::DeleteLine, InputRequest::DeleteTillEnd => InputEdit::DeleteTillEnd,
        InputRequest::DeleteFromStart => InputEdit::DeleteFromStart, InputRequest::Yank => InputEdit::Yank,
    }
}

/// A key that may edit a line.
#[derive(Clone, Copy, Debug, PartialEq, Eq, Structural)]
pub enum LineKey {
    Backspace,
    Delete,
    Tab,
    Left,
    Right,
    Home,
    End,
    Char(char),
}

/// The key that may edit a line, where a key is one.
pub open spec fn line_key(code: KeyCode) -> Option<LineKey> {
    match code {
        KeyCode::Backspace => Some(LineKey::Backspace),
        KeyCode::Delete => Some(LineKey::Delete),
        KeyCode::Tab => Some(LineKey::Tab),
        KeyCode::Left => Some(LineKey::Left),
        KeyCode::Right => Some(LineKey::Right),
        KeyCode::Home => Some(LineKey::Home),
        KeyCode::End => Some(LineKey::End),
        KeyCode::Char(c) => Some(LineKey::Char(c)),
        _ => None,
    }
}

/// No modifier is held.
pub open spec fn nothing_held() -> KeyModifiers {
    KeyModifiers {
        shift: false,
        control: false,
        alt: false,
        super_key: false,
        hyper: false,
        meta: false,
    }
}

/// The edit that a character stands for while control is held.
pub open spec fn control_edit(c: char) -> Option<InputEdit> {
    if c == 'h' {
        Some(InputEdit::DeletePrevChar)
    } else if c == 'b' {
        Some(InputEdit::GoToPrevChar)
    } else if c == 'f' {
        Some(InputEdit::GoToNextChar)
    } else if c == 'u' {
        Some(InputEdit::DeleteLine)
    } else if c == 'w' {
        Some(InputEdit::DeletePrevWord)
    } else if c == 'k' {
        Some(InputEdit::DeleteTillEnd)
    } else if c == 'y' {
        Some(InputEdit::Yank)
    } else if c == 'a' {
        Some(InputEdit::GoToStart)
    } else if c == 'e' {
        Some(InputEdit::GoToEnd)
    } else {
        None
    }
}

/// The edit that a character stands for while meta is held.
pub open spec fn meta_edit(c: char) -> Option<InputEdit> {
    if c == 'b' {
        Some(InputEdit::GoToPrevWord)
    } else if c == 'f' {
        Some(InputEdit::GoToNextWord)
    } else if c == 'd' {
        Some(InputEdit::DeletePrevWord)
    } else {
        None
    }
}

/// The edit that a key stands for while modifiers are held.
pub open spec fn line_key_edit(key: LineKey, held: KeyModifiers) -> Option<InputEdit> {
    let none = held == nothing_held();
    let shift = held == (KeyModifiers { shift: true, ..nothing_held() });
    let control = held == (KeyModifiers { control: true, ..nothing_held() });
    let alt = held == (KeyModifiers { alt: true, ..nothing_held() });
    let meta = held == (KeyModifiers { meta: true, ..nothing_held() });
    let control_alt = held == (KeyModifiers { control: true, alt: true, ..nothing_held() });
    match key {
        LineKey::Backspace => if none {
            Some(InputEdit::DeletePrevChar)
        } else if alt || meta {
            Some(InputEdit::DeletePrevWord)
        } else {
            None
        },
        LineKey::Delete => if none {
            Some(InputEdit::DeleteNextChar)
        } else if control {
            Some(InputEdit::DeleteNextWord)
        } else {
            None
        },
        LineKey::Tab => None,
        LineKey::Left => if none {
            Some(InputEdit::GoToPrevChar)
        } else if control {
            Some(InputEdit::GoToPrevWord)
        } else {
            None
        },
        LineKey::Right => if none {
            Some(InputEdit::GoToNextChar)
        } else if control {
            Some(InputEdit::GoToNextWord)
        } else {
            None
        },
        LineKey::Home => if none {
            Some(InputEdit::GoToStart)
        } else {
            None
        },
        LineKey::End => if none {
            Some(InputEdit::GoToEnd)
        } else {
            None
        },
        LineKey::Char(c) => if none || shift || control_alt {
            Some(InputEdit::InsertChar(c))
        } else if control {
            control_edit(c)
        } else if meta {
            meta_edit(c)
        } else {
            None
        },
    }
}

/// The edit that a key event stands for: a key that is let go of is none.
pub open spec fn key_edit(key: KeyEvent) -> Option<InputEdit> {
    match line_key(key.code) {
        Some(code) if key.kind != KeyEventKind::Release => line_key_edit(code, key.modifiers),
        _ => None,
    }
}

/// `tui_input::backend::crossterm::to_input_request` tells which edit a key that is
/// pressed stands for: the table of `line_key_edit`.
#[verifier::external_body]
fn to_input_request(key: LineKey, held: KeyModifiers) -> (r: Option<InputRequest>)
    ensures
        match r {
            Some(request) => line_key_edit(key, held) == Some(request_edit(request)),
            None => line_key_edit(key, held) is None,
        },
{
    let code = match key {
        LineKey::Backspace => Code::Backspace, LineKey::Delete => Code::Delete,
        LineKey::Tab => Code::Tab, LineKey::Left => Code::Left,
        LineKey::Right => Code::Right, LineKey::Home => Code::Home,
        LineKey::End => Code::End, LineKey::Char(c) => Code::Char(c),
    };
    let mut flags = Modifiers::NONE;
    flags.set(Modifiers::SHIFT, held.shift);
    flags.set(Modifiers::CONTROL, held.control);
    flags.set(Modifiers::ALT, held.alt);
    flags.set(Modifiers::SUPER, held.super_key);
    flags.set(Modifiers::HYPER, held.hyper);
    flags.set(Modifiers::META, held.meta);
    request_for(&Event::Key(Key::new(code, flags)))
}

/// The edit of a line that a key event stands for.
pub fn edit_for(key: &KeyEvent) -> (r: Option<InputEdit>)
    ensures
        r == key_edit(*key),
{
    if !key.is_press() {
        return None;
    }
    let code = match key.code {
        KeyCode::Backspace => LineKey::Backspace,
        KeyCode::Delete => LineKey::Delete,
        KeyCode::Tab => LineKey::Tab,
        KeyCode::Left => LineKey::Left,
        KeyCode::Right => LineKey::Right,
        KeyCode::Home => LineKey::Home,
        KeyCode::End => LineKey::End,
        KeyCode::Char(c) => LineKey::Char(c),
        _ => {
            return None;
        },
    };
    match to_input_request(code, key.modifiers) {
        Some(request) => Some(edit_of(request)),
        None => None,
    }
}

} // verus!
