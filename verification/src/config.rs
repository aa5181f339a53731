//! Key presses, key sequences, and the map from key sequences to actions.

use vstd::prelude::*;

use crate::text::{
    char_lower, chars_of, concat2, concat3, decimal_of, join_all, same, strip_prefix, to_lower,
    trim_of, words_of,
};
#[allow(unused_imports)]
use crate::text::{
    decimal, has_prefix, is_blank, is_space, join, lower, lowercase, str_views, trim, trim_end,
    trim_start, views, words,
};

pub mod laws;

verus! {

// ---------------------------------------------------------------------------
// Keys
// ---------------------------------------------------------------------------

/// A media key.
#[derive(Debug, Clone, Copy, PartialEq, Eq, Structural)]
pub enum MediaKeyCode {
    Play,
    Pause,
    PlayPause,
    Reverse,
    Stop,
    FastForward,
    Rewind,
    TrackNext,
    TrackPrevious,
    Record,
    LowerVolume,
    RaiseVolume,
    MuteVolume,
}

/// A modifier key pressed on its own.
#[derive(Debug, Clone, Copy, PartialEq, Eq, Structural)]
pub enum ModifierKeyCode {
    LeftShift,
    LeftControl,
    LeftAlt,
    LeftSuper,
    LeftHyper,
    LeftMeta,
    RightShift,
    RightControl,
    RightAlt,
    RightSuper,
    RightHyper,
    RightMeta,
    IsoLevel3Shift,
    IsoLevel5Shift,
}

/// A key of the keyboard.
#[derive(Debug, Clone, Copy, PartialEq, Eq, Structural)]
pub enum KeyCode {
    Backspace,
    Enter,
    Left,
    Right,
    Up,
    Down,
    Home,
    End,
    PageUp,
    PageDown,
    Tab,
    BackTab,
    Delete,
    Insert,
    F(u8),
    Char(char),
    Null,
    Esc,
    CapsLock,
    ScrollLock,
    NumLock,
    PrintScreen,
    Pause,
    Menu,
    KeypadBegin,
    Media(MediaKeyCode),
    Modifier(ModifierKeyCode),
}

/// The modifiers held while a key is pressed.
#[derive(Debug, Clone, Copy, PartialEq, Eq, Structural)]
pub struct KeyModifiers {
    pub shift: bool,
    pub control: bool,
    pub alt: bool,
    pub super_key: bool,
    pub hyper: bool,
    pub meta: bool,
}

/// No modifier at all.
pub open spec fn no_modifiers() -> KeyModifiers {
    KeyModifiers {
        shift: false,
        control: false,
        alt: false,
        super_key: false,
        hyper: false,
        meta: false,
    }
}

impl KeyModifiers {
    /// No modifier at all.
    pub fn empty() -> (r: KeyModifiers)
        ensures
            r == no_modifiers(),
    {
        KeyModifiers {
            shift: false,
            control: false,
            alt: false,
            super_key: false,
            hyper: false,
            meta: false,
        }
    }

    /// The control key alone.
    pub fn control() -> (r: KeyModifiers)
        ensures
            r == (KeyModifiers { control: true, ..no_modifiers() }),
    {
        let mut r = KeyModifiers::empty();
        r.control = true;
        r
    }

    /// The alt key alone.
    pub fn alt() -> (r: KeyModifiers)
        ensures
            r == (KeyModifiers { alt: true, ..no_modifiers() }),
    {
        let mut r = KeyModifiers::empty();
        r.alt = true;
        r
    }

    /// The shift key alone.
    pub fn shift() -> (r: KeyModifiers)
        ensures
            r == (KeyModifiers { shift: true, ..no_modifiers() }),
    {
        let mut r = KeyModifiers::empty();
        r.shift = true;
        r
    }

    /// Whether a key typed with these modifiers is plain text: none, or shift alone.
    pub open spec fn plain(self) -> bool {
        self == no_modifiers() || self == (KeyModifiers { shift: true, ..no_modifiers() })
    }

    /// Whether a key typed with these modifiers is plain text.
    pub fn is_plain(self) -> (r: bool)
        ensures
            r == self.plain(),
    {
        !self.control && !self.alt && !self.super_key && !self.hyper && !self.meta
    }
}

/// Whether a key went down, repeats, or went up.
#[derive(Debug, Clone, Copy, PartialEq, Eq, Structural)]
pub enum KeyEventKind {
    Press,
    Repeat,
    Release,
}

/// A key event of the terminal.
#[derive(Debug, Clone, Copy, PartialEq, Eq, Structural)]
pub struct KeyEvent {
    pub code: KeyCode,
    pub modifiers: KeyModifiers,
    pub kind: KeyEventKind,
}

impl KeyEvent {
    /// The press of a key.
    pub fn new(code: KeyCode, modifiers: KeyModifiers) -> (r: KeyEvent)
        ensures
            r == (KeyEvent { code, modifiers, kind: KeyEventKind::Press }),
    {
        KeyEvent { code, modifiers, kind: KeyEventKind::Press }
    }

    /// Whether the event is one that a tool acts on: a press or a repeat.
    pub fn is_press(&self) -> (r: bool)
        ensures
            r == (self.kind != KeyEventKind::Release),
    {
        self.kind == KeyEventKind::Press || self.kind == KeyEventKind::Repeat
    }
}

/// One key of a key sequence.
#[derive(Debug, Clone, Copy, PartialEq, Eq, Structural)]
pub struct KeyPress {
    pub code: KeyCode,
    pub modifiers: KeyModifiers,
}

/// Why a binding is refused.
#[derive(Debug, Clone, PartialEq, Eq)]
pub enum KeyError {
    /// A key without a name.
    EmptyKey,
    /// A sequence without a key.
    EmptySequence,
    /// A key that has no such name.
    UnknownKey(String),
}

impl KeyError {
    /// The error as shown to the user.
    pub open spec fn text(self) -> Seq<char> {
        match self {
            KeyError::EmptyKey => "empty key"@,
            KeyError::EmptySequence => "empty key sequence"@,
            KeyError::UnknownKey(key) => "unknown key `"@ + key@ + "`"@,
        }
    }

    /// The error as shown to the user.
    pub fn message(&self) -> (r: String)
        ensures
            r@ == self.text(),
    {
        match self {
            KeyError::EmptyKey => "empty key".to_string(),
            KeyError::EmptySequence => "empty key sequence".to_string(),
            KeyError::UnknownKey(key) => {
                let mut out = concat2("unknown key `", key.as_str());
                out.append("`");
                out
            },
        }
    }
}

/// A refused binding together with the action it was for.
#[derive(Debug, Clone, PartialEq, Eq)]
pub struct BindingError {
    pub action: String,
    pub error: KeyError,
}

impl BindingError {
    /// The error as shown to the user, without its cause.
    pub fn message(&self) -> (r: String)
        ensures
            r@ == "invalid binding for action `"@ + self.action@ + "`"@,
    {
        let mut out = concat2("invalid binding for action `", self.action.as_str());
        out.append("`");
        out
    }
}

// ---------------------------------------------------------------------------
// Reading keys
// ---------------------------------------------------------------------------

/// The key as bindings write it: a letter is in lower case, and shift does not
/// count for a character.
pub open spec fn normal_key(event: KeyEvent) -> KeyPress {
    match event.code {
        KeyCode::Char(ch) => KeyPress {
            code: KeyCode::Char(lower(ch)),
            modifiers: KeyModifiers { shift: false, ..event.modifiers },
        },
        _ => KeyPress { code: event.code, modifiers: event.modifiers },
    }
}

/// The modifier that a text begins with: the length of its name, and the
/// modifiers with it added.
pub open spec fn leading_modifier(rest: Seq<char>, m: KeyModifiers) -> Option<(int, KeyModifiers)> {
    if has_prefix(rest, "ctrl-"@) {
        Some((5, KeyModifiers { control: true, ..m }))
    } else if has_prefix(rest, "control-"@) {
        Some((8, KeyModifiers { control: true, ..m }))
    } else if has_prefix(rest, "alt-"@) {
        Some((4, KeyModifiers { alt: true, ..m }))
    } else if has_prefix(rest, "meta-"@) {
        Some((5, KeyModifiers { alt: true, ..m }))
    } else if has_prefix(rest, "shift-"@) {
        Some((6, KeyModifiers { shift: true, ..m }))
    } else {
        None
    }
}

/// A text without the modifiers it begins with, and those modifiers.
pub open spec fn strip_modifiers(rest: Seq<char>, m: KeyModifiers) -> (Seq<char>, KeyModifiers)
    decreases rest.len(),
{
    match leading_modifier(rest, m) {
        Some((n, with)) => if 0 < n <= rest.len() {
            strip_modifiers(rest.skip(n), with)
        } else {
            (rest, m)
        },
        None => (rest, m),
    }
}

/// The key with a given name.
pub open spec fn key_named(name: Seq<char>) -> Option<KeyCode> {
    if name == "esc"@ || name == "escape"@ {
        Some(KeyCode::Esc)
    } else if name == "enter"@ || name == "return"@ {
        Some(KeyCode::Enter)
    } else if name == "tab"@ {
        Some(KeyCode::Tab)
    } else if name == "backspace"@ || name == "bs"@ {
        Some(KeyCode::Backspace)
    } else if name == "delete"@ || name == "del"@ {
        Some(KeyCode::Delete)
    } else if name == "up"@ {
        Some(KeyCode::Up)
    } else if name == "down"@ {
        Some(KeyCode::Down)
    } else if name == "left"@ {
        Some(KeyCode::Left)
    } else if name == "right"@ {
        Some(KeyCode::Right)
    } else if name == "pageup"@ || name == "page-up"@ || name == "pgup"@ {
        Some(KeyCode::PageUp)
    } else if name == "pagedown"@ || name == "page-down"@ || name == "pgdn"@ {
        Some(KeyCode::PageDown)
    } else if name == "home"@ {
        Some(KeyCode::Home)
    } else if name == "end"@ {
        Some(KeyCode::End)
    } else if name == "space"@ {
        Some(KeyCode::Char(' '))
    } else if name == "null"@ {
        Some(KeyCode::Null)
    } else if name.len() == 1 {
        Some(KeyCode::Char(name[0]))
    } else {
        None
    }
}

/// A text with every plus sign turned into a minus sign.
pub open spec fn plus_to_minus(s: Seq<char>) -> Seq<char> {
    s.map_values(
        |c: char|
            if c == '+' {
                '-'
            } else {
                c
            },
    )
}

/// The text of a key as it is looked up: trimmed, in lower case, and with
/// minus signs behind the modifiers.
pub open spec fn key_text(input: Seq<char>) -> Seq<char> {
    plus_to_minus(lowercase(trim(input)))
}

/// The key that a text writes, such as `ctrl-x` or `pageup`.
pub open spec fn key_press(input: Seq<char>) -> Option<KeyPress> {
    if is_blank(input) {
        None
    } else {
        let (name, modifiers) = strip_modifiers(key_text(input), no_modifiers());
        match key_named(name) {
            Some(code) => Some(KeyPress { code, modifiers }),
            None => None,
        }
    }
}

/// The keys that a text writes, one behind the other with white space between
/// them; there has to be one.
pub open spec fn key_sequence(input: Seq<char>) -> Option<Seq<KeyPress>> {
    let keys = words(input);
    if keys.len() > 0 && forall|i: int|
        0 <= i < keys.len() ==> key_press(#[trigger] keys[i]) is Some {
        Some(keys.map_values(|key: Seq<char>| key_press(key)->0))
    } else {
        None
    }
}

/// What is wrong with a binding: nothing stands in it, or its first key that
/// has no such name.
pub open spec fn sequence_error(input: Seq<char>, error: KeyError) -> bool {
    let keys = words(input);
    match error {
        KeyError::EmptySequence => keys.len() == 0,
        KeyError::UnknownKey(key) => exists|i: int|
            {
                &&& 0 <= i < keys.len()
                &&& key@ == #[trigger] keys[i]
                &&& key_press(keys[i]) is None
                &&& forall|j: int| 0 <= j < i ==> key_press(#[trigger] keys[j]) is Some
            },
        KeyError::EmptyKey => false,
    }
}

fn replace_plus(s: &str) -> (r: String)
    ensures
        r@ == plus_to_minus(s@),
{
    let mut out: String = String::new();
    for c in iter: s.chars()
        invariant
            out@ == plus_to_minus(iter.seq().take(iter.index())),
            iter.seq() == s@,
    {
        let d: char = if c == '+' {
            '-'
        } else {
            c
        };
        out.push(d);
        assert(plus_to_minus(s@.take(iter.index() + 1)) =~= plus_to_minus(
            s@.take(iter.index()),
        ).push(d));
    }
    assert(s@.take(s@.len() as int) =~= s@);
    out
}

fn named_key(name: &str) -> (r: Option<KeyCode>)
    ensures
        r == key_named(name@),
{
    if same(name, "esc") || same(name, "escape") {
        Some(KeyCode::Esc)
    } else if same(name, "enter") || same(name, "return") {
        Some(KeyCode::Enter)
    } else if same(name, "tab") {
        Some(KeyCode::Tab)
    } else if same(name, "backspace") || same(name, "bs") {
        Some(KeyCode::Backspace)
    } else if same(name, "delete") || same(name, "del") {
        Some(KeyCode::Delete)
    } else if same(name, "up") {
        Some(KeyCode::Up)
    } else if same(name, "down") {
        Some(KeyCode::Down)
    } else if same(name, "left") {
        Some(KeyCode::Left)
    } else if same(name, "right") {
        Some(KeyCode::Right)
    } else if same(name, "pageup") || same(name, "page-up") || same(name, "pgup") {
        Some(KeyCode::PageUp)
    } else if same(name, "pagedown") || same(name, "page-down") || same(name, "pgdn") {
        Some(KeyCode::PageDown)
    } else if same(name, "home") {
        Some(KeyCode::Home)
    } else if same(name, "end") {
        Some(KeyCode::End)
    } else if same(name, "space") {
        Some(KeyCode::Char(' '))
    } else if same(name, "null") {
        Some(KeyCode::Null)
    } else {
        let chars = chars_of(name);
        if chars.len() == 1 {
            Some(KeyCode::Char(chars[0]))
        } else {
            None
        }
    }
}

/// A text without the modifier it begins with, and the modifiers with it added.
fn take_modifier(rest: &str, m: KeyModifiers) -> (r: Option<(String, KeyModifiers)>)
    ensures
        r is Some <==> leading_modifier(rest@, m) is Some,
        r matches Some((tail, with)) ==> {
            &&& leading_modifier(rest@, m) matches Some((n, with2))
            &&& 0 < n <= rest@.len()
            &&& tail@ == rest@.skip(n)
            &&& with == with2
        },
{
    proof {
        reveal_strlit("ctrl-");
        reveal_strlit("control-");
        reveal_strlit("alt-");
        reveal_strlit("meta-");
        reveal_strlit("shift-");
    }
    let mut with = m;
    if let Some(tail) = strip_prefix(rest, "ctrl-") {
        with.control = true;
        return Some((tail, with));
    }
    if let Some(tail) = strip_prefix(rest, "control-") {
        with.control = true;
        return Some((tail, with));
    }
    if let Some(tail) = strip_prefix(rest, "alt-") {
        with.alt = true;
        return Some((tail, with));
    }
    if let Some(tail) = strip_prefix(rest, "meta-") {
        with.alt = true;
        return Some((tail, with));
    }
    if let Some(tail) = strip_prefix(rest, "shift-") {
        with.shift = true;
        return Some((tail, with));
    }
    None
}

/// The words of a text are not blank.
pub proof fn lemma_words_not_blank(s: Seq<char>)
    ensures
        forall|i: int| 0 <= i < words(s).len() ==> !is_blank(#[trigger] words(s)[i]),
        s.len() > 0 && !is_space(s.last()) ==> words(s).len() > 0,
    decreases s.len(),
{
    if s.len() > 0 {
        let before = s.drop_last();
        lemma_words_not_blank(before);
        assert forall|i: int| 0 <= i < words(s).len() implies !is_blank(#[trigger] words(s)[i]) by {
            if is_space(s.last()) {
            } else if s.len() >= 2 && !is_space(s[s.len() - 2]) {
                assert(before.last() == s[s.len() - 2]);
                if i == words(s).len() - 1 {
                    let word = words(s)[i];
                    assert(word.last() == s.last());
                    assert(!is_space(word[word.len() - 1]));
                } else {
                    assert(words(s)[i] == words(before)[i]);
                }
            } else if i == words(s).len() - 1 {
                assert(words(s)[i][0] == s.last());
            } else {
                assert(words(s)[i] == words(before)[i]);
            }
        }
    }
}

impl KeyPress {
    /// The key of an event, as bindings write it.
    pub fn from_event(event: &KeyEvent) -> (r: Option<KeyPress>)
        ensures
            r == Some(normal_key(*event)),
    {
        let mut modifiers = event.modifiers;
        let code = match event.code {
            KeyCode::Char(ch) => {
                modifiers.shift = false;
                KeyCode::Char(char_lower(ch))
            },
            code => code,
        };
        Some(KeyPress { code, modifiers })
    }

    /// Reads one key such as `ctrl-x` or `pageup`.
    pub fn parse(input: &str) -> (r: Result<KeyPress, KeyError>)
        ensures
            r is Ok <==> key_press(input@) is Some,
            r matches Ok(key) ==> key_press(input@) == Some(key),
            r matches Err(error) ==> {
                &&& (error is EmptyKey <==> is_blank(input@))
                &&& (error is UnknownKey <==> !is_blank(input@))
                &&& (error matches KeyError::UnknownKey(key) ==> key@ == input@)
            },
    {
        let trimmed = trim_of(input);
        proof {
            crate::text::lemma_trim_start(input@);
            crate::text::lemma_trim_end(crate::text::trim_start(input@));
            assert(is_blank(input@) ==> is_blank(crate::text::trim_start(input@)));
        }
        if trimmed.as_str().is_empty() {
            proof {
                let tail = crate::text::trim_start(input@);
                if tail.len() > 0 {
                    assert(!is_space(tail[0]));
                }
            }
            return Err(KeyError::EmptyKey);
        }
        let lowered = to_lower(trimmed.as_str());
        let mut rest = replace_plus(lowered.as_str());
        let mut modifiers = KeyModifiers::empty();
        loop
            invariant
                strip_modifiers(key_text(input@), no_modifiers()) == strip_modifiers(
                    rest@,
                    modifiers,
                ),
            ensures
                strip_modifiers(key_text(input@), no_modifiers()) == (rest@, modifiers),
            decreases rest@.len(),
        {
            match take_modifier(rest.as_str(), modifiers) {
                Some((tail, with)) => {
                    rest = tail;
                    modifiers = with;
                },
                None => {
                    break;
                },
            }
        }
        match named_key(rest.as_str()) {
            Some(code) => Ok(KeyPress { code, modifiers }),
            None => Err(KeyError::UnknownKey(input.to_string())),
        }
    }
}

/// Keys to press one behind the other.
#[derive(Debug, Clone, PartialEq, Eq)]
pub struct KeySequence(pub Vec<KeyPress>);

impl KeySequence {
    /// Reads keys with white space between them, such as `ctrl-x ctrl-s`.
    pub fn parse(input: &str) -> (r: Result<KeySequence, KeyError>)
        ensures
            r is Ok <==> key_sequence(input@) is Some,
            r matches Ok(sequence) ==> key_sequence(input@) == Some(sequence.0@),
            r matches Err(error) ==> sequence_error(input@, error),
    {
        let names = words_of(input);
        let mut keys: Vec<KeyPress> = Vec::new();
        let mut i: usize = 0;
        let ghost all = words(input@);
        while i < names.len()
            invariant
                i <= names@.len(),
                all == words(input@),
                views(names@) == all,
                keys@.len() == i,
                forall|j: int|
                    0 <= j < i ==> key_press(#[trigger] all[j]) == Some(keys@[j]),
            decreases names@.len() - i,
        {
            assert(all[i as int] == names@[i as int]@);
            proof {
                lemma_words_not_blank(input@);
            }
            match KeyPress::parse(names[i].as_str()) {
                Ok(key) => {
                    keys.push(key);
                },
                Err(error) => {
                    assert(key_press(all[i as int]) is None);
                    return Err(error);
                },
            }
            i = i + 1;
        }
        if keys.is_empty() {
            return Err(KeyError::EmptySequence);
        }
        assert(keys@ =~= all.map_values(|key: Seq<char>| key_press(key)->0));
        Ok(KeySequence(keys))
    }
}

// ---------------------------------------------------------------------------
// Showing keys
// ---------------------------------------------------------------------------

/// The name of a media key.
pub open spec fn media_name(code: MediaKeyCode) -> Seq<char> {
    match code {
        MediaKeyCode::Play => "Play"@,
        MediaKeyCode::Pause => "Pause"@,
        MediaKeyCode::PlayPause => "PlayPause"@,
        MediaKeyCode::Reverse => "Reverse"@,
        MediaKeyCode::Stop => "Stop"@,
        MediaKeyCode::FastForward => "FastForward"@,
        MediaKeyCode::Rewind => "Rewind"@,
        MediaKeyCode::TrackNext => "TrackNext"@,
        MediaKeyCode::TrackPrevious => "TrackPrevious"@,
        MediaKeyCode::Record => "Record"@,
        MediaKeyCode::LowerVolume => "LowerVolume"@,
        MediaKeyCode::RaiseVolume => "RaiseVolume"@,
        MediaKeyCode::MuteVolume => "MuteVolume"@,
    }
}

fn media_text(code: MediaKeyCode) -> (r: &'static str)
    ensures
        r@ == media_name(code),
{
    match code {
        MediaKeyCode::Play => "Play",
        MediaKeyCode::Pause => "Pause",
        MediaKeyCode::PlayPause => "PlayPause",
        MediaKeyCode::Reverse => "Reverse",
        MediaKeyCode::Stop => "Stop",
        MediaKeyCode::FastForward => "FastForward",
        MediaKeyCode::Rewind => "Rewind",
        MediaKeyCode::TrackNext => "TrackNext",
        MediaKeyCode::TrackPrevious => "TrackPrevious",
        MediaKeyCode::Record => "Record",
        MediaKeyCode::LowerVolume => "LowerVolume",
        MediaKeyCode::RaiseVolume => "RaiseVolume",
        MediaKeyCode::MuteVolume => "MuteVolume",
    }
}

/// The name of a modifier key.
pub open spec fn modifier_name(code: ModifierKeyCode) -> Seq<char> {
    match code {
        ModifierKeyCode::LeftShift => "LeftShift"@,
        ModifierKeyCode::LeftControl => "LeftControl"@,
        ModifierKeyCode::LeftAlt => "LeftAlt"@,
        ModifierKeyCode::LeftSuper => "LeftSuper"@,
        ModifierKeyCode::LeftHyper => "LeftHyper"@,
        ModifierKeyCode::LeftMeta => "LeftMeta"@,
        ModifierKeyCode::RightShift => "RightShift"@,
        ModifierKeyCode::RightControl => "RightControl"@,
        ModifierKeyCode::RightAlt => "RightAlt"@,
        ModifierKeyCode::RightSuper => "RightSuper"@,
        ModifierKeyCode::RightHyper => "RightHyper"@,
        ModifierKeyCode::RightMeta => "RightMeta"@,
        ModifierKeyCode::IsoLevel3Shift => "IsoLevel3Shift"@,
        ModifierKeyCode::IsoLevel5Shift => "IsoLevel5Shift"@,
    }
}

fn modifier_text(code: ModifierKeyCode) -> (r: &'static str)
    ensures
        r@ == modifier_name(code),
{
    match code {
        ModifierKeyCode::LeftShift => "LeftShift",
        ModifierKeyCode::LeftControl => "LeftControl",
        ModifierKeyCode::LeftAlt => "LeftAlt",
        ModifierKeyCode::LeftSuper => "LeftSuper",
        ModifierKeyCode::LeftHyper => "LeftHyper",
        ModifierKeyCode::LeftMeta => "LeftMeta",
        ModifierKeyCode::RightShift => "RightShift",
        ModifierKeyCode::RightControl => "RightControl",
        ModifierKeyCode::RightAlt => "RightAlt",
        ModifierKeyCode::RightSuper => "RightSuper",
        ModifierKeyCode::RightHyper => "RightHyper",
        ModifierKeyCode::RightMeta => "RightMeta",
        ModifierKeyCode::IsoLevel3Shift => "IsoLevel3Shift",
        ModifierKeyCode::IsoLevel5Shift => "IsoLevel5Shift",
    }
}

/// A key without modifiers, as shown to the user.
pub open spec fn code_text(code: KeyCode) -> Seq<char> {
    match code {
        KeyCode::Char(ch) => if ch == ' ' {
            "space"@
        } else {
            seq![ch]
        },
        KeyCode::Esc => "esc"@,
        KeyCode::Enter => "enter"@,
        KeyCode::Tab => "tab"@,
        KeyCode::Backspace => "backspace"@,
        KeyCode::Delete => "delete"@,
        KeyCode::Up => "up"@,
        KeyCode::Down => "down"@,
        KeyCode::Left => "left"@,
        KeyCode::Right => "right"@,
        KeyCode::PageUp => "pageup"@,
        KeyCode::PageDown => "pagedown"@,
        KeyCode::Home => "home"@,
        KeyCode::End => "end"@,
        KeyCode::Null => "null"@,
        KeyCode::BackTab => "BackTab"@,
        KeyCode::Insert => "Insert"@,
        KeyCode::F(n) => "F("@ + decimal(n as nat) + ")"@,
        KeyCode::CapsLock => "CapsLock"@,
        KeyCode::ScrollLock => "ScrollLock"@,
        KeyCode::NumLock => "NumLock"@,
        KeyCode::PrintScreen => "PrintScreen"@,
        KeyCode::Pause => "Pause"@,
        KeyCode::Menu => "Menu"@,
        KeyCode::KeypadBegin => "KeypadBegin"@,
        KeyCode::Media(media) => "Media("@ + media_name(media) + ")"@,
        KeyCode::Modifier(modifier) => "Modifier("@ + modifier_name(modifier) + ")"@,
    }
}

fn show_code(code: KeyCode) -> (r: String)
    ensures
        r@ == code_text(code),
{
    match code {
        KeyCode::Char(ch) => if ch == ' ' {
            "space".to_string()
        } else {
            let mut out: String = String::new();
            out.push(ch);
            assert(out@ =~= seq![ch]);
            out
        },
        KeyCode::Esc => "esc".to_string(),
        KeyCode::Enter => "enter".to_string(),
        KeyCode::Tab => "tab".to_string(),
        KeyCode::Backspace => "backspace".to_string(),
        KeyCode::Delete => "delete".to_string(),
        KeyCode::Up => "up".to_string(),
        KeyCode::Down => "down".to_string(),
        KeyCode::Left => "left".to_string(),
        KeyCode::Right => "right".to_string(),
        KeyCode::PageUp => "pageup".to_string(),
        KeyCode::PageDown => "pagedown".to_string(),
        KeyCode::Home => "home".to_string(),
        KeyCode::End => "end".to_string(),
        KeyCode::Null => "null".to_string(),
        KeyCode::BackTab => "BackTab".to_string(),
        KeyCode::Insert => "Insert".to_string(),
        KeyCode::F(n) => {
            let number = decimal_of(n as u64);
            concat3("F(", number.as_str(), ")")
        },
        KeyCode::CapsLock => "CapsLock".to_string(),
        KeyCode::ScrollLock => "ScrollLock".to_string(),
        KeyCode::NumLock => "NumLock".to_string(),
        KeyCode::PrintScreen => "PrintScreen".to_string(),
        KeyCode::Pause => "Pause".to_string(),
        KeyCode::Menu => "Menu".to_string(),
        KeyCode::KeypadBegin => "KeypadBegin".to_string(),
        KeyCode::Media(media) => concat3("Media(", media_text(media), ")"),
        KeyCode::Modifier(modifier) => concat3("Modifier(", modifier_text(modifier), ")"),
    }
}

/// The modifiers in front of a key, as shown to the user.
pub open spec fn modifiers_text(m: KeyModifiers) -> Seq<char> {
    (if m.control {
        "ctrl-"@
    } else {
        Seq::empty()
    }) + (if m.alt {
        "alt-"@
    } else {
        Seq::empty()
    }) + (if m.shift {
        "shift-"@
    } else {
        Seq::empty()
    })
}

impl KeyPress {
    /// The key as shown to the user, in the form that bindings use.
    pub open spec fn text(self) -> Seq<char> {
        modifiers_text(self.modifiers) + code_text(self.code)
    }

    /// The key as shown to the user.
    pub fn display(&self) -> (r: String)
        ensures
            r@ == self.text(),
    {
        let mut out: String = String::new();
        if self.modifiers.control {
            out.append("ctrl-");
        }
        if self.modifiers.alt {
            out.append("alt-");
        }
        if self.modifiers.shift {
            out.append("shift-");
        }
        assert(out@ =~= modifiers_text(self.modifiers));
        let code = show_code(self.code);
        out.append(code.as_str());
        out
    }
}

/// The keys pressed so far, as the status line shows them while more keys are
/// awaited.
pub open spec fn pending_text(pending: Seq<KeyPress>) -> Seq<char> {
    join(pending.map_values(|key: KeyPress| key.text()), " "@) + " ..."@
}

/// The keys pressed so far, as the status line shows them.
pub fn pending_status(pending: &Vec<KeyPress>) -> (r: String)
    ensures
        r@ == pending_text(pending@),
{
    let mut shown: Vec<String> = Vec::new();
    let mut i: usize = 0;
    while i < pending.len()
        invariant
            i <= pending@.len(),
            views(shown@) == pending@.take(i as int).map_values(|key: KeyPress| key.text()),
        decreases pending@.len() - i,
    {
        let ghost was = views(shown@);
        let text = pending[i].display();
        let ghost piece = text@;
        shown.push(text);
        assert(views(shown@) =~= was.push(piece));
        i = i + 1;
        assert(views(shown@) =~= pending@.take(i as int).map_values(|key: KeyPress| key.text()));
    }
    assert(pending@.take(i as int) =~= pending@);
    let keys = join_all(&shown, " ");
    concat2(keys.as_str(), " ...")
}

// ---------------------------------------------------------------------------
// The keymap
// ---------------------------------------------------------------------------

/// A binding as the keymap holds it: an action and the keys for it.
pub type Bound = (Seq<char>, Seq<KeyPress>);

/// The bindings of a table: for each action, the key sequences as they are written.
pub type Rows = Seq<(Seq<char>, Seq<Seq<char>>)>;

/// The bindings for actions other than `action`.
pub open spec fn without(bindings: Seq<Bound>, action: Seq<char>) -> Seq<Bound>
    decreases bindings.len(),
{
    if bindings.len() == 0 {
        Seq::empty()
    } else {
        let before = without(bindings.drop_last(), action);
        if bindings.last().0 == action {
            before
        } else {
            before.push(bindings.last())
        }
    }
}

/// The number of well-written key sequences before the first that is not.
pub open spec fn valid_count(keys: Seq<Seq<char>>) -> nat
    decreases keys.len(),
{
    if keys.len() == 0 {
        0
    } else {
        let before = valid_count(keys.drop_last());
        if before == keys.len() - 1 && key_sequence(keys.last()) is Some {
            keys.len()
        } else {
            before
        }
    }
}

/// Bindings of the first `n` key sequences to an action.
pub open spec fn bound(action: Seq<char>, keys: Seq<Seq<char>>, n: nat) -> Seq<Bound> {
    Seq::new(n, |i: int| (action, key_sequence(keys[i])->0))
}

/// The bindings after an action has been given new keys. What the action had
/// goes; key sequences from the first ill-written one on are left out.
pub open spec fn with_action(
    bindings: Seq<Bound>,
    action: Seq<char>,
    keys: Seq<Seq<char>>,
) -> Seq<Bound> {
    without(bindings, action) + bound(action, keys, valid_count(keys))
}

/// The bindings after the first `n` rows of a table have been set.
pub open spec fn with_rows(bindings: Seq<Bound>, rows: Rows, n: int) -> Seq<Bound>
    decreases n,
{
    if n <= 0 {
        bindings
    } else {
        with_action(with_rows(bindings, rows, n - 1), rows[n - 1].0, rows[n - 1].1)
    }
}

/// Whether the key sequences of a row are all well written.
pub open spec fn row_valid(row: (Seq<char>, Seq<Seq<char>>)) -> bool {
    valid_count(row.1) == row.1.len()
}

/// Whether row `n` is the first with an ill-written key sequence, and `error`
/// says which.
pub open spec fn row_error(rows: Rows, n: int, error: BindingError) -> bool {
    &&& 0 <= n < rows.len()
    &&& forall|i: int| 0 <= i < n ==> row_valid(#[trigger] rows[i])
    &&& !row_valid(rows[n])
    &&& error.action@ == rows[n].0
    &&& sequence_error(rows[n].1[valid_count(rows[n].1) as int], error.error)
}

/// The texts of a table of default bindings.
pub open spec fn default_rows(table: Seq<(&str, &[&str])>) -> Rows {
    table.map_values(|row: (&str, &[&str])| (row.0@, str_views(row.1@)))
}

/// Only leading key sequences count as well written before the first that is not.
pub proof fn lemma_valid_count(keys: Seq<Seq<char>>)
    ensures
        valid_count(keys) <= keys.len(),
        forall|i: int|
            0 <= i < valid_count(keys) ==> key_sequence(#[trigger] keys[i]) is Some,
        valid_count(keys) < keys.len() ==> key_sequence(keys[valid_count(keys) as int]) is None,
    decreases keys.len(),
{
    if keys.len() > 0 {
        let before = keys.drop_last();
        lemma_valid_count(before);
        assert forall|i: int| 0 <= i < valid_count(keys) implies key_sequence(
            #[trigger] keys[i],
        ) is Some by {
            if i < before.len() {
                assert(keys[i] == before[i]);
            }
        }
        if valid_count(keys) < before.len() {
            assert(keys[valid_count(keys) as int] == before[valid_count(keys) as int]);
        }
    }
}

/// The count of leading well-written key sequences is found from the left.
proof fn lemma_valid_count_is(keys: Seq<Seq<char>>, n: nat)
    requires
        n <= keys.len(),
        forall|i: int| 0 <= i < n ==> key_sequence(#[trigger] keys[i]) is Some,
        n < keys.len() ==> key_sequence(keys[n as int]) is None,
    ensures
        valid_count(keys) == n,
{
    lemma_valid_count(keys);
    if valid_count(keys) < n {
        assert(key_sequence(keys[valid_count(keys) as int]) is Some);
    }
}

/// A key sequence, or several, for one action.
#[derive(Debug, Clone, PartialEq, Eq)]
pub enum BindingList {
    One(String),
    Many(Vec<String>),
}

impl BindingList {
    /// The key sequences as they are written.
    pub open spec fn texts(self) -> Seq<Seq<char>> {
        match self {
            BindingList::One(value) => seq![value@],
            BindingList::Many(list) => views(list@),
        }
    }

    /// The key sequences as they are written.
    pub fn values(&self) -> (r: Vec<&str>)
        ensures
            str_views(r@) == self.texts(),
    {
        let mut out: Vec<&str> = Vec::new();
        match self {
            BindingList::One(value) => {
                out.push(value.as_str());
                assert(str_views(out@) =~= self.texts());
            },
            BindingList::Many(list) => {
                let mut i: usize = 0;
                while i < list.len()
                    invariant
                        i <= list@.len(),
                        str_views(out@) == views(list@).take(i as int),
                    decreases list@.len() - i,
                {
                    let ghost was = str_views(out@);
                    out.push(list[i].as_str());
                    assert(str_views(out@) =~= was.push(list@[i as int]@));
                    assert(views(list@).take(i + 1) =~= was.push(list@[i as int]@));
                    i = i + 1;
                }
                assert(str_views(out@) =~= self.texts());
            },
        }
        out
    }
}

/// The texts of a table of configured bindings.
pub open spec fn override_rows(table: Seq<(String, BindingList)>) -> Rows {
    table.map_values(|row: (String, BindingList)| (row.0@, row.1.texts()))
}

/// The map from key sequences to actions.
#[derive(Debug, Clone)]
pub struct Keymap {
    bindings: Vec<(String, KeySequence)>,
}

/// What a key leads to.
#[derive(Debug, Clone, PartialEq, Eq)]
pub enum KeymapMatch {
    /// No binding begins with the keys pressed.
    NoMatch,
    /// A binding begins with the keys pressed, and goes on.
    Prefix,
    /// A binding is complete.
    Action(String),
}

/// What a key leads to, in terms of texts.
pub enum MatchView {
    NoMatch,
    Prefix,
    Action(Seq<char>),
}

impl View for KeymapMatch {
    type V = MatchView;

    open spec fn view(&self) -> MatchView {
        match self {
            KeymapMatch::NoMatch => MatchView::NoMatch,
            KeymapMatch::Prefix => MatchView::Prefix,
            KeymapMatch::Action(action) => MatchView::Action(action@),
        }
    }
}

impl View for Keymap {
    type V = Seq<Bound>;

    closed spec fn view(&self) -> Seq<Bound> {
        self.bindings@.map_values(|b: (String, KeySequence)| (b.0@, b.1.0@))
    }
}

/// Whether a list of actions, if it is not empty, names `action`.
pub open spec fn allows(actions: Seq<Seq<char>>, action: Seq<char>) -> bool {
    actions.len() == 0 || actions.contains(action)
}

/// Whether `keys` begins with `head`.
pub open spec fn begins_with(keys: Seq<KeyPress>, head: Seq<KeyPress>) -> bool {
    head.len() <= keys.len() && keys.take(head.len() as int) == head
}

/// What the keys `pressed` lead to: the first allowed action with exactly
/// these keys; else it is a prefix if an allowed binding begins with them.
pub open spec fn lookup(
    bindings: Seq<Bound>,
    actions: Seq<Seq<char>>,
    pressed: Seq<KeyPress>,
) -> MatchView {
    if exists|i: int| is_first_exact(bindings, actions, pressed, i) {
        let i = choose|i: int| is_first_exact(bindings, actions, pressed, i);
        MatchView::Action(bindings[i].0)
    } else if exists|i: int|
        0 <= i < bindings.len() && allows(actions, (#[trigger] bindings[i]).0) && begins_with(
            bindings[i].1,
            pressed,
        ) {
        MatchView::Prefix
    } else {
        MatchView::NoMatch
    }
}

/// Whether binding `i` is the first allowed one with exactly the keys `pressed`.
pub open spec fn is_first_exact(
    bindings: Seq<Bound>,
    actions: Seq<Seq<char>>,
    pressed: Seq<KeyPress>,
    i: int,
) -> bool {
    &&& 0 <= i < bindings.len()
    &&& allows(actions, bindings[i].0)
    &&& bindings[i].1 == pressed
    &&& forall|j: int|
        0 <= j < i ==> !(allows(actions, (#[trigger] bindings[j]).0) && bindings[j].1 == pressed)
}

fn action_allowed(actions: &[&str], action: &str) -> (r: bool)
    ensures
        r == allows(str_views(actions@), action@),
{
    if actions.len() == 0 {
        return true;
    }
    let mut i: usize = 0;
    while i < actions.len()
        invariant
            i <= actions@.len(),
            forall|j: int| 0 <= j < i ==> #[trigger] str_views(actions@)[j] != action@,
        decreases actions@.len() - i,
    {
        if same(actions[i], action) {
            assert(str_views(actions@)[i as int] == action@);
            return true;
        }
        i = i + 1;
    }
    false
}

fn keys_begin_with(keys: &Vec<KeyPress>, head: &Vec<KeyPress>) -> (r: bool)
    ensures
        r == begins_with(keys@, head@),
{
    if head.len() > keys.len() {
        return false;
    }
    let mut i: usize = 0;
    while i < head.len()
        invariant
            i <= head@.len() <= keys@.len(),
            keys@.take(i as int) == head@.take(i as int),
        decreases head@.len() - i,
    {
        if keys[i] != head[i] {
            assert(keys@.take(head@.len() as int)[i as int] != head@[i as int]);
            return false;
        }
        i = i + 1;
        assert(keys@.take(i as int) =~= head@.take(i as int));
    }
    assert(head@.take(i as int) =~= head@);
    true
}

impl Keymap {
    /// A keymap with the bindings of a table, row by row. The first ill-written
    /// key sequence is an error.
    pub fn from_defaults(defaults: &[(&str, &[&str])]) -> (r: Result<Keymap, BindingError>)
        ensures
            r is Ok <==> forall|i: int|
                0 <= i < defaults@.len() ==> row_valid(#[trigger] default_rows(defaults@)[i]),
            r matches Ok(keymap) ==> keymap@ == with_rows(
                Seq::empty(),
                default_rows(defaults@),
                defaults@.len() as int,
            ),
            r matches Err(error) ==> exists|n: int|
                row_error(default_rows(defaults@), n, error),
    {
        let mut keymap = Keymap { bindings: Vec::new() };
        let ghost rows = default_rows(defaults@);
        assert(keymap@ =~= Seq::empty());
        let mut i: usize = 0;
        while i < defaults.len()
            invariant
                i <= defaults@.len(),
                rows == default_rows(defaults@),
                keymap@ == with_rows(Seq::empty(), rows, i as int),
                forall|j: int| 0 <= j < i ==> row_valid(#[trigger] rows[j]),
            decreases defaults@.len() - i,
        {
            let (action, keys) = defaults[i];
            assert(rows[i as int] == (action@, str_views(keys@)));
            match keymap.set_action(action, keys) {
                Ok(()) => {},
                Err(error) => {
                    assert(row_error(rows, i as int, error));
                    return Err(error);
                },
            }
            i = i + 1;
        }
        Ok(keymap)
    }

    /// Gives the actions of a table new keys, row by row, up to the first
    /// ill-written key sequence.
    pub fn apply_overrides(&mut self, overrides: &Vec<(String, BindingList)>) -> (r: Result<
        (),
        BindingError,
    >)
        ensures
            r is Ok <==> forall|i: int|
                0 <= i < overrides@.len() ==> row_valid(#[trigger] override_rows(overrides@)[i]),
            r is Ok ==> final(self)@ == with_rows(
                old(self)@,
                override_rows(overrides@),
                overrides@.len() as int,
            ),
            r matches Err(error) ==> exists|n: int|
                {
                    &&& #[trigger] row_error(override_rows(overrides@), n, error)
                    &&& final(self)@ == with_rows(old(self)@, override_rows(overrides@), n + 1)
                },
    {
        let ghost rows = override_rows(overrides@);
        let ghost before = self@;
        let mut i: usize = 0;
        while i < overrides.len()
            invariant
                i <= overrides@.len(),
                before == old(self)@,
                rows == override_rows(overrides@),
                self@ == with_rows(before, rows, i as int),
                forall|j: int| 0 <= j < i ==> row_valid(#[trigger] rows[j]),
            decreases overrides@.len() - i,
        {
            let keys = overrides[i].1.values();
            assert(rows[i as int] == (overrides@[i as int].0@, overrides@[i as int].1.texts()));
            match self.set_action(overrides[i].0.as_str(), keys.as_slice()) {
                Ok(()) => {},
                Err(error) => {
                    assert(row_error(rows, i as int, error));
                    assert(self@ == with_rows(before, rows, i + 1));
                    return Err(error);
                },
            }
            i = i + 1;
        }
        Ok(())
    }

    /// What a key leads to, whatever the action.
    pub fn match_key(&self, pending: &Vec<KeyPress>, key: &KeyEvent) -> (r: KeymapMatch)
        ensures
            r@ == lookup(self@, Seq::empty(), pending@.push(normal_key(*key))),
    {
        let none: [&str; 0] = [];
        let actions: &[&str] = &none;
        assert(str_views(actions@) =~= Seq::empty());
        self.match_key_for_actions(actions, pending, key)
    }

    /// What a key leads to behind the keys `pending`, among the given actions;
    /// among all actions if none is given.
    pub fn match_key_for_actions(
        &self,
        actions: &[&str],
        pending: &Vec<KeyPress>,
        key: &KeyEvent,
    ) -> (r: KeymapMatch)
        ensures
            r@ == lookup(self@, str_views(actions@), pending@.push(normal_key(*key))),
    {
        let Some(press) = KeyPress::from_event(key) else {
            return KeymapMatch::NoMatch;
        };
        let mut pressed: Vec<KeyPress> = Vec::new();
        let mut k: usize = 0;
        while k < pending.len()
            invariant
                k <= pending@.len(),
                pressed@ == pending@.take(k as int),
            decreases pending@.len() - k,
        {
            pressed.push(pending[k]);
            k = k + 1;
            assert(pressed@ =~= pending@.take(k as int));
        }
        pressed.push(press);
        assert(pressed@ =~= pending@.push(normal_key(*key)));

        let mut is_prefix: bool = false;
        let mut i: usize = 0;
        let ghost all = self@;
        let ghost names = str_views(actions@);
        while i < self.bindings.len()
            invariant
                i <= self.bindings@.len(),
                all == self@,
                names == str_views(actions@),
                pressed@ == pending@.push(normal_key(*key)),
                all.len() == self.bindings@.len(),
                forall|j: int|
                    0 <= j < i ==> !(allows(names, (#[trigger] all[j]).0) && all[j].1 == pressed@),
                is_prefix == exists|j: int|
                    0 <= j < i && allows(names, (#[trigger] all[j]).0) && begins_with(
                        all[j].1,
                        pressed@,
                    ),
            decreases self.bindings@.len() - i,
        {
            assert(all[i as int] == (self.bindings@[i as int].0@, self.bindings@[i as int].1.0@));
            if action_allowed(actions, self.bindings[i].0.as_str()) {
                if keys_begin_with(&self.bindings[i].1.0, &pressed) {
                    if self.bindings[i].1.0.len() == pressed.len() {
                        assert(all[i as int].1.take(pressed@.len() as int) =~= all[i as int].1);
                        assert(is_first_exact(all, names, pressed@, i as int));
                        proof {
                            lemma_first_exact(all, names, pressed@, i as int);
                        }
                        return KeymapMatch::Action(self.bindings[i].0.clone());
                    }
                    is_prefix = true;
                } else {
                    assert(all[i as int].1 != pressed@) by {
                        assert(pressed@.take(pressed@.len() as int) =~= pressed@);
                    }
                }
            }
            i = i + 1;
        }
        if is_prefix {
            KeymapMatch::Prefix
        } else {
            KeymapMatch::NoMatch
        }
    }

    /// The key of an event, as bindings write it.
    pub fn keypress_from_event(&self, key: &KeyEvent) -> (r: Option<KeyPress>)
        ensures
            r == Some(normal_key(*key)),
    {
        KeyPress::from_event(key)
    }

    /// Gives an action new keys in place of those it had, up to the first
    /// ill-written key sequence.
    fn set_action(&mut self, action: &str, bindings: &[&str]) -> (r: Result<(), BindingError>)
        ensures
            final(self)@ == with_action(old(self)@, action@, str_views(bindings@)),
            r is Ok <==> valid_count(str_views(bindings@)) == bindings@.len(),
            r matches Err(error) ==> {
                &&& error.action@ == action@
                &&& sequence_error(
                    str_views(bindings@)[valid_count(str_views(bindings@)) as int],
                    error.error,
                )
            },
    {
        let ghost before = self@;
        let ghost keys = str_views(bindings@);
        let mut kept: Vec<(String, KeySequence)> = Vec::new();
        let mut i: usize = 0;
        while i < self.bindings.len()
            invariant
                i <= self.bindings@.len(),
                before == self@,
                (Keymap { bindings: kept })@ == without(before.take(i as int), action@),
            decreases self.bindings@.len() - i,
        {
            let ghost was = (Keymap { bindings: kept })@;
            assert(before.take(i + 1).drop_last() =~= before.take(i as int));
            assert(before[i as int] == (
                self.bindings@[i as int].0@,
                self.bindings@[i as int].1.0@,
            ));
            if !same(self.bindings[i].0.as_str(), action) {
                let name = self.bindings[i].0.clone();
                let sequence = copy_sequence(&self.bindings[i].1);
                kept.push((name, sequence));
                assert((Keymap { bindings: kept })@ =~= was.push(before[i as int]));
            }
            i = i + 1;
        }
        assert(before.take(before.len() as int) =~= before);
        self.bindings = kept;
        let ghost rest = self@;
        assert(rest =~= rest + bound(action@, keys, 0));
        let mut j: usize = 0;
        while j < bindings.len()
            invariant
                j <= bindings@.len(),
                keys == str_views(bindings@),
                self@ == rest + bound(action@, keys, j as nat),
                rest == without(before, action@),
                forall|k: int| 0 <= k < j ==> key_sequence(#[trigger] keys[k]) is Some,
                before == old(self)@,
            decreases bindings@.len() - j,
        {
            assert(keys[j as int] == bindings@[j as int]@);
            let ghost was = self@;
            match KeySequence::parse(bindings[j]) {
                Ok(sequence) => {
                    let ghost entry = (action@, sequence.0@);
                    self.bindings.push((action.to_string(), sequence));
                    assert(self@ =~= was.push(entry));
                    assert(bound(action@, keys, (j + 1) as nat) =~= bound(
                        action@,
                        keys,
                        j as nat,
                    ).push(entry));
                    assert(self@ =~= rest + bound(action@, keys, (j + 1) as nat));
                },
                Err(error) => {
                    proof {
                        lemma_valid_count_is(keys, j as nat);
                    }
                    return Err(BindingError { action: action.to_string(), error });
                },
            }
            j = j + 1;
        }
        proof {
            lemma_valid_count_is(keys, j as nat);
        }
        Ok(())
    }
}

fn copy_sequence(sequence: &KeySequence) -> (r: KeySequence)
    ensures
        r.0@ == sequence.0@,
{
    let mut keys: Vec<KeyPress> = Vec::new();
    let mut i: usize = 0;
    while i < sequence.0.len()
        invariant
            i <= sequence.0@.len(),
            keys@ == sequence.0@.take(i as int),
        decreases sequence.0@.len() - i,
    {
        keys.push(sequence.0[i]);
        i = i + 1;
        assert(keys@ =~= sequence.0@.take(i as int));
    }
    assert(keys@ =~= sequence.0@);
    KeySequence(keys)
}

/// There is only one first exact binding.
pub proof fn lemma_first_exact(
    bindings: Seq<Bound>,
    actions: Seq<Seq<char>>,
    pressed: Seq<KeyPress>,
    i: int,
)
    requires
        is_first_exact(bindings, actions, pressed, i),
    ensures
        lookup(bindings, actions, pressed) == MatchView::Action(bindings[i].0),
{
    let k = choose|k: int| is_first_exact(bindings, actions, pressed, k);
    assert(is_first_exact(bindings, actions, pressed, k));
    if k < i {
        assert(!(allows(actions, bindings[k].0) && bindings[k].1 == pressed));
    }
    if i < k {
        assert(!(allows(actions, bindings[i].0) && bindings[i].1 == pressed));
    }
}

// ---------------------------------------------------------------------------
// The configuration
// ---------------------------------------------------------------------------

/// The configuration of the tools.
#[derive(Debug, Clone)]
pub struct InnardsConfig {
    pub inmacs: InmacsConfig,
    pub keybindings: ConfigKeybindings,
}

/// The configuration of the editor.
#[derive(Debug, Clone)]
pub struct InmacsConfig {
    pub fill_column: Option<usize>,
}

/// The configured bindings of each tool; no action occurs twice in a list.
#[derive(Debug, Clone)]
pub struct ConfigKeybindings {
    pub inline: Vec<(String, BindingList)>,
    pub navsplat: Vec<(String, BindingList)>,
    pub rebase: Vec<(String, BindingList)>,
    pub log: Vec<(String, BindingList)>,
}

impl Default for InmacsConfig {
    fn default() -> (r: InmacsConfig)
        ensures
            r.fill_column is None,
    {
        InmacsConfig { fill_column: None }
    }
}

impl Default for ConfigKeybindings {
    fn default() -> (r: ConfigKeybindings)
        ensures
            r.inline@.len() == 0,
            r.navsplat@.len() == 0,
            r.rebase@.len() == 0,
            r.log@.len() == 0,
    {
        ConfigKeybindings {
            inline: Vec::new(),
            navsplat: Vec::new(),
            rebase: Vec::new(),
            log: Vec::new(),
        }
    }
}

impl Default for InnardsConfig {
    fn default() -> (r: InnardsConfig)
        ensures
            r.inmacs.fill_column is None,
            r.keybindings.inline@.len() == 0,
            r.keybindings.navsplat@.len() == 0,
            r.keybindings.rebase@.len() == 0,
            r.keybindings.log@.len() == 0,
    {
        InnardsConfig { inmacs: InmacsConfig::default(), keybindings: ConfigKeybindings::default() }
    }
}

/// The path of the configuration file below a configuration directory: the one
/// that the environment names, or `.config` in the home directory.
pub open spec fn config_file(xdg: Option<Seq<char>>, home: Option<Seq<char>>) -> Option<Seq<char>> {
    match (xdg, home) {
        (Some(base), _) => Some(
            crate::paths::joined(crate::paths::joined(base, "innards"@), "config.toml"@),
        ),
        (None, Some(home)) => Some(
            crate::paths::joined(
                crate::paths::joined(crate::paths::joined(home, ".config"@), "innards"@),
                "config.toml"@,
            ),
        ),
        (None, None) => None,
    }
}

/// The path of the configuration file, from the values of `XDG_CONFIG_HOME`
/// and `HOME`.
pub fn config_path(xdg: Option<String>, home: Option<String>) -> (r: Option<String>)
    ensures
        r is Some <==> xdg is Some || home is Some,
        r matches Some(path) ==> Some(path@) == config_file(
            (match xdg {
                Some(base) => Some(base@),
                None => None,
            }),
            (match home {
                Some(base) => Some(base@),
                None => None,
            }),
        ),
{
    let base = match xdg {
        Some(base) => base,
        None => match home {
            Some(home) => crate::paths::join_path(home.as_str(), ".config"),
            None => {
                return None;
            },
        },
    };
    let dir = crate::paths::join_path(base.as_str(), "innards");
    Some(crate::paths::join_path(dir.as_str(), "config.toml"))
}

// ---------------------------------------------------------------------------
// Laws
// ---------------------------------------------------------------------------

/// The key sequences that are bound to an action, in order.
pub open spec fn keys_of(bindings: Seq<Bound>, action: Seq<char>) -> Seq<Seq<KeyPress>>
    decreases bindings.len(),
{
    if bindings.len() == 0 {
        Seq::empty()
    } else {
        let before = keys_of(bindings.drop_last(), action);
        if bindings.last().0 == action {
            before.push(bindings.last().1)
        } else {
            before
        }
    }
}

/// The key sequences that texts write.
pub open spec fn sequences(keys: Seq<Seq<char>>) -> Seq<Seq<KeyPress>> {
    keys.map_values(|text: Seq<char>| key_sequence(text)->0)
}

proof fn lemma_keys_of_without(bindings: Seq<Bound>, action: Seq<char>, other: Seq<char>)
    ensures
        keys_of(without(bindings, action), action).len() == 0,
        other != action ==> keys_of(without(bindings, action), other) == keys_of(bindings, other),
    decreases bindings.len(),
{
    if bindings.len() > 0 {
        let rest = bindings.drop_last();
        lemma_keys_of_without(rest, action, other);
        if bindings.last().0 != action {
            let before = without(rest, action);
            assert(before.push(bindings.last()).drop_last() =~= before);
        }
    }
}

proof fn lemma_keys_of_more(
    bindings: Seq<Bound>,
    action: Seq<char>,
    keys: Seq<Seq<char>>,
    n: nat,
    other: Seq<char>,
)
    requires
        n <= keys.len(),
    ensures
        keys_of(bindings + bound(action, keys, n), action) == keys_of(bindings, action) + sequences(
            keys.take(n as int),
        ),
        other != action ==> keys_of(bindings + bound(action, keys, n), other) == keys_of(
            bindings,
            other,
        ),
    decreases n,
{
    let all = bindings + bound(action, keys, n);
    if n == 0 {
        assert(all =~= bindings);
        assert(keys_of(bindings, action) + sequences(keys.take(0)) =~= keys_of(bindings, action));
    } else {
        let m = (n - 1) as nat;
        lemma_keys_of_more(bindings, action, keys, m, other);
        assert(all.drop_last() =~= bindings + bound(action, keys, m));
        assert(all.last() == (action, key_sequence(keys[m as int])->0));
        assert(keys_of(bindings, action) + sequences(keys.take(n as int)) =~= (keys_of(
            bindings,
            action,
        ) + sequences(keys.take(m as int))).push(key_sequence(keys[m as int])->0));
    }
}

/// New keys for an action take the place of those that it had, and leave the keys of
/// every other action alone.
pub proof fn law_keys_are_replaced(
    bindings: Seq<Bound>,
    action: Seq<char>,
    keys: Seq<Seq<char>>,
    other: Seq<char>,
)
    requires
        valid_count(keys) == keys.len(),
    ensures
        keys_of(with_action(bindings, action, keys), action) == sequences(keys),
        other != action ==> keys_of(with_action(bindings, action, keys), other) == keys_of(
            bindings,
            other,
        ),
{
    lemma_keys_of_without(bindings, action, other);
    lemma_keys_of_more(without(bindings, action), action, keys, keys.len(), other);
    assert(keys.take(keys.len() as int) =~= keys);
    assert(keys_of(without(bindings, action), action) + sequences(keys) =~= sequences(keys));
}

/// A configured action has the configured keys and no others; an action that the
/// configuration does not mention keeps its keys.
pub proof fn law_overrides(bindings: Seq<Bound>, rows: Rows, n: int, action: Seq<char>)
    requires
        0 <= n <= rows.len(),
        forall|i: int| 0 <= i < n ==> row_valid(#[trigger] rows[i]),
    ensures
        (forall|i: int| 0 <= i < n ==> (#[trigger] rows[i]).0 != action) ==> keys_of(
            with_rows(bindings, rows, n),
            action,
        ) == keys_of(bindings, action),
        forall|k: int|
            0 <= k < n && (#[trigger] rows[k]).0 == action && (forall|i: int|
                k < i < n ==> (#[trigger] rows[i]).0 != action) ==> keys_of(
                with_rows(bindings, rows, n),
                action,
            ) == sequences(rows[k].1),
    decreases n,
{
    if n > 0 {
        law_overrides(bindings, rows, n - 1, action);
        let before = with_rows(bindings, rows, n - 1);
        let row = rows[n - 1];
        assert(row_valid(row));
        law_keys_are_replaced(before, row.0, row.1, action);
    }
}

proof fn lemma_lower_space(c: char)
    ensures
        is_space(lower(c)) == is_space(c),
{
}

proof fn lemma_lower_blank(s: Seq<char>)
    ensures
        is_blank(lowercase(s)) == is_blank(s),
{
    if is_blank(s) {
        assert forall|i: int| 0 <= i < lowercase(s).len() implies is_space(
            #[trigger] lowercase(s)[i],
        ) by {
            lemma_lower_space(s[i]);
        }
    }
    if is_blank(lowercase(s)) {
        assert forall|i: int| 0 <= i < s.len() implies is_space(#[trigger] s[i]) by {
            lemma_lower_space(s[i]);
            assert(is_space(lowercase(s)[i]));
        }
    }
}

proof fn lemma_lower_trim_start(s: Seq<char>)
    ensures
        lowercase(trim_start(s)) == trim_start(lowercase(s)),
    decreases s.len(),
{
    if s.len() > 0 {
        lemma_lower_space(s[0]);
        lemma_lower_trim_start(s.drop_first());
        assert(lowercase(s).drop_first() =~= lowercase(s.drop_first()));
    }
}

proof fn lemma_lower_trim_end(s: Seq<char>)
    ensures
        lowercase(trim_end(s)) == trim_end(lowercase(s)),
    decreases s.len(),
{
    if s.len() > 0 {
        lemma_lower_space(s.last());
        lemma_lower_trim_end(s.drop_last());
        assert(lowercase(s).drop_last() =~= lowercase(s.drop_last()));
    }
}

/// The words of a text in lower case.
proof fn lemma_lower_words(s: Seq<char>)
    ensures
        words(lowercase(s)) == words(s).map_values(|word: Seq<char>| lowercase(word)),
    decreases s.len(),
{
    let low = lowercase(s);
    let f = |word: Seq<char>| lowercase(word);
    if s.len() == 0 {
        assert(words(low) =~= words(s).map_values(f));
    } else {
        let rest = s.drop_last();
        lemma_lower_words(rest);
        assert(low.drop_last() =~= lowercase(rest));
        lemma_lower_space(s.last());
        if is_space(s.last()) {
        } else if s.len() >= 2 && !is_space(s[s.len() - 2]) {
            lemma_lower_space(s[s.len() - 2]);
            assert(rest.last() == s[s.len() - 2]);
            lemma_words_not_blank(rest);
            let last = words(rest).last();
            assert(words(lowercase(rest)).last() == lowercase(last));
            assert(lowercase(last).push(low.last()) =~= lowercase(last.push(s.last())));
            assert(words(low) =~= words(s).map_values(f));
        } else {
            if s.len() >= 2 {
                lemma_lower_space(s[s.len() - 2]);
            }
            assert(seq![low.last()] =~= lowercase(seq![s.last()]));
            assert(words(low) =~= words(s).map_values(f));
        }
    }
}

/// Upper and lower case do not matter in the name of a key.
pub proof fn law_key_names_ignore_case(a: Seq<char>, b: Seq<char>)
    requires
        lowercase(a) == lowercase(b),
    ensures
        key_press(a) == key_press(b),
{
    lemma_lower_blank(a);
    lemma_lower_blank(b);
    lemma_lower_trim_start(a);
    lemma_lower_trim_start(b);
    lemma_lower_trim_end(trim_start(a));
    lemma_lower_trim_end(trim_start(b));
}

/// Upper and lower case do not matter in a key sequence.
pub proof fn law_sequences_ignore_case(a: Seq<char>, b: Seq<char>)
    requires
        lowercase(a) == lowercase(b),
    ensures
        key_sequence(a) == key_sequence(b),
{
    lemma_lower_words(a);
    lemma_lower_words(b);
    let f = |word: Seq<char>| lowercase(word);
    assert(words(a).len() == words(a).map_values(f).len());
    assert(words(b).len() == words(b).map_values(f).len());
    assert forall|i: int| 0 <= i < words(a).len() implies key_press(#[trigger] words(a)[i])
        == key_press(words(b)[i]) by {
        assert(words(a).map_values(f)[i] == lowercase(words(a)[i]));
        assert(words(b).map_values(f)[i] == lowercase(words(b)[i]));
        law_key_names_ignore_case(words(a)[i], words(b)[i]);
    }
    assert forall|i: int| 0 <= i < words(a).len() implies key_press(#[trigger] words(b)[i])
        == key_press(words(a)[i]) by {
        assert(key_press(words(a)[i]) == key_press(words(b)[i]));
    }
    if key_sequence(a) is Some {
        assert(key_sequence(a)->0 =~= words(b).map_values(|key: Seq<char>| key_press(key)->0));
    }
}

/// A key that a text can write.
pub open spec fn writable(code: KeyCode) -> bool {
    match code {
        KeyCode::Char(ch) => ch == ' ' || (!is_space(ch) && lower(ch) == ch && ch != '+'),
        KeyCode::Esc => true,
        KeyCode::Enter => true,
        KeyCode::Tab => true,
        KeyCode::Backspace => true,
        KeyCode::Delete => true,
        KeyCode::Up => true,
        KeyCode::Down => true,
        KeyCode::Left => true,
        KeyCode::Right => true,
        KeyCode::PageUp => true,
        KeyCode::PageDown => true,
        KeyCode::Home => true,
        KeyCode::End => true,
        KeyCode::Null => true,
        _ => false,
    }
}

/// What is left behind the modifiers ends as the text does. Only control, alt and
/// shift are read off.
proof fn lemma_strip_modifiers(rest: Seq<char>, m: KeyModifiers)
    ensures
        ({
            let name = strip_modifiers(rest, m).0;
            name.len() > 0 ==> rest.len() > 0 && name.last() == rest.last()
        }),
        ({
            let with = strip_modifiers(rest, m).1;
            with == KeyModifiers {
                shift: with.shift,
                control: with.control,
                alt: with.alt,
                ..m
            }
        }),
    decreases rest.len(),
{
    if let Some((n, with)) = leading_modifier(rest, m) {
        if 0 < n <= rest.len() {
            lemma_strip_modifiers(rest.skip(n), with);
        }
    }
}

/// The keys that texts write.
proof fn lemma_writable(input: Seq<char>)
    ensures
        key_press(input) matches Some(key) ==> writable(key.code),
{
    if let Some(key) = key_press(input) {
        let inner = trim(input);
        let text = key_text(input);
        let name = strip_modifiers(text, no_modifiers()).0;
        lemma_strip_modifiers(text, no_modifiers());
        crate::text::lemma_trim_start(input);
        crate::text::lemma_trim_end(trim_start(input));
        if name.len() == 1 {
            let c = inner.last();
            assert(text.last() == (if lower(c) == '+' {
                '-'
            } else {
                lower(c)
            }));
            lemma_lower_space(c);
            assert(name[0] == text.last());
        }
    }
}

/// No modifier stands at the begin of a text that has no minus sign in it, or
/// nothing else.
proof fn lemma_no_modifier(text: Seq<char>, m: KeyModifiers)
    requires
        text.len() <= 1 || forall|i: int| 0 <= i < text.len() ==> #[trigger] text[i] != '-',
    ensures
        strip_modifiers(text, m) == (text, m),
{
    reveal_strlit("ctrl-");
    reveal_strlit("control-");
    reveal_strlit("alt-");
    reveal_strlit("meta-");
    reveal_strlit("shift-");
    if text.len() > 1 {
        if text.len() >= 5 {
            assert(text.take(5)[4] != '-');
        }
        if text.len() >= 8 {
            assert(text.take(8)[7] != '-');
        }
        if text.len() >= 4 {
            assert(text.take(4)[3] != '-');
        }
        if text.len() >= 6 {
            assert(text.take(6)[5] != '-');
        }
    }
}

/// The modifiers at the begin of a text are read off one by one.
proof fn lemma_reads_modifiers(text: Seq<char>, m: KeyModifiers)
    ensures
        strip_modifiers("ctrl-"@ + text, m) == strip_modifiers(
            text,
            KeyModifiers { control: true, ..m },
        ),
        strip_modifiers("alt-"@ + text, m) == strip_modifiers(
            text,
            KeyModifiers { alt: true, ..m },
        ),
        strip_modifiers("shift-"@ + text, m) == strip_modifiers(
            text,
            KeyModifiers { shift: true, ..m },
        ),
{
    reveal_strlit("ctrl-");
    reveal_strlit("control-");
    reveal_strlit("alt-");
    reveal_strlit("meta-");
    reveal_strlit("shift-");
    let a = "ctrl-"@ + text;
    assert(a.take(5) =~= "ctrl-"@);
    assert(a.skip(5) =~= text);
    let b = "alt-"@ + text;
    assert(b[0] == 'a');
    if b.len() >= 5 {
        assert(b.take(5)[0] == 'a');
    }
    if b.len() >= 8 {
        assert(b.take(8)[0] == 'a');
    }
    assert(b.take(4) =~= "alt-"@);
    assert(b.skip(4) =~= text);
    let c = "shift-"@ + text;
    assert(c[0] == 's');
    assert(c.take(5)[0] == 's' && c.take(4)[0] == 's');
    if c.len() >= 8 {
        assert(c.take(8)[0] == 's');
    }
    assert(c.take(6) =~= "shift-"@);
    assert(c.skip(6) =~= text);
}

/// A text of small characters, none of them white space or a plus sign.
spec fn settled_text(text: Seq<char>) -> bool {
    forall|i: int|
        0 <= i < text.len() ==> {
            let c = #[trigger] text[i];
            !is_space(c) && lower(c) == c && c != '+'
        }
}

/// Such a text is looked up as it is.
proof fn lemma_settled_text(text: Seq<char>)
    requires
        settled_text(text),
        text.len() > 0,
    ensures
        key_text(text) == text,
        !is_blank(text),
{
    assert(!is_space(text[0]));
    assert(!is_space(text[text.len() - 1]));
    assert(trim_start(text) == text);
    assert(trim_end(text) == text);
    assert(trim(text) == text);
    assert(lowercase(text) =~= text);
    assert(plus_to_minus(text) =~= text);
}

/// The name of a key that a text can write is the name of that key.
proof fn lemma_code_text(code: KeyCode)
    requires
        writable(code),
    ensures
        key_named(code_text(code)) == Some(code),
        code_text(code).len() > 0,
        settled_text(code_text(code)),
        code_text(code).len() <= 1 || forall|i: int|
            0 <= i < code_text(code).len() ==> #[trigger] code_text(code)[i] != '-',
{
    reveal_strlit("esc");
    reveal_strlit("escape");
    reveal_strlit("enter");
    reveal_strlit("return");
    reveal_strlit("tab");
    reveal_strlit("backspace");
    reveal_strlit("bs");
    reveal_strlit("delete");
    reveal_strlit("del");
    reveal_strlit("up");
    reveal_strlit("down");
    reveal_strlit("left");
    reveal_strlit("right");
    reveal_strlit("pageup");
    reveal_strlit("page-up");
    reveal_strlit("pgup");
    reveal_strlit("pagedown");
    reveal_strlit("page-down");
    reveal_strlit("pgdn");
    reveal_strlit("home");
    reveal_strlit("end");
    reveal_strlit("space");
    reveal_strlit("null");
    let name = code_text(code);
    assert("esc"@.len() == 3 && "esc"@[0] == 'e' && "esc"@[1] == 's');
    assert("escape"@.len() == 6 && "escape"@[0] == 'e' && "escape"@[1] == 's');
    assert("enter"@.len() == 5 && "enter"@[0] == 'e' && "enter"@[1] == 'n');
    assert("return"@.len() == 6 && "return"@[0] == 'r' && "return"@[1] == 'e');
    assert("tab"@.len() == 3 && "tab"@[0] == 't' && "tab"@[1] == 'a');
    assert("backspace"@.len() == 9 && "backspace"@[0] == 'b' && "backspace"@[1] == 'a');
    assert("bs"@.len() == 2 && "bs"@[0] == 'b' && "bs"@[1] == 's');
    assert("delete"@.len() == 6 && "delete"@[0] == 'd' && "delete"@[1] == 'e');
    assert("del"@.len() == 3 && "del"@[0] == 'd' && "del"@[1] == 'e');
    assert("up"@.len() == 2 && "up"@[0] == 'u' && "up"@[1] == 'p');
    assert("down"@.len() == 4 && "down"@[0] == 'd' && "down"@[1] == 'o');
    assert("left"@.len() == 4 && "left"@[0] == 'l' && "left"@[1] == 'e');
    assert("right"@.len() == 5 && "right"@[0] == 'r' && "right"@[1] == 'i');
    assert("pageup"@.len() == 6 && "pageup"@[0] == 'p' && "pageup"@[1] == 'a');
    assert("page-up"@.len() == 7 && "page-up"@[0] == 'p' && "page-up"@[1] == 'a');
    assert("pgup"@.len() == 4 && "pgup"@[0] == 'p' && "pgup"@[1] == 'g');
    assert("pagedown"@.len() == 8 && "pagedown"@[0] == 'p' && "pagedown"@[1] == 'a');
    assert("page-down"@.len() == 9 && "page-down"@[0] == 'p' && "page-down"@[1] == 'a');
    assert("pgdn"@.len() == 4 && "pgdn"@[0] == 'p' && "pgdn"@[1] == 'g');
    assert("home"@.len() == 4 && "home"@[0] == 'h' && "home"@[1] == 'o');
    assert("end"@.len() == 3 && "end"@[0] == 'e' && "end"@[1] == 'n');
    assert("space"@.len() == 5 && "space"@[0] == 's' && "space"@[1] == 'p');
    assert("null"@.len() == 4 && "null"@[0] == 'n' && "null"@[1] == 'u');
    assert(key_named(name) == Some(code));
}

/// The name of a key that a text writes is a text that writes that key.
pub proof fn law_key_text_parses_back(input: Seq<char>)
    ensures
        key_press(input) matches Some(key) ==> key_press(key.text()) == Some(key),
{
    if let Some(key) = key_press(input) {
        let m = key.modifiers;
        let name = code_text(key.code);
        lemma_writable(input);
        lemma_strip_modifiers(key_text(input), no_modifiers());
        lemma_code_text(key.code);
        reveal_strlit("ctrl-");
        reveal_strlit("alt-");
        reveal_strlit("shift-");
        let with_shift = (if m.shift {
            "shift-"@
        } else {
            Seq::empty()
        }) + name;
        let with_alt = (if m.alt {
            "alt-"@
        } else {
            Seq::empty()
        }) + with_shift;
        let with_control = (if m.control {
            "ctrl-"@
        } else {
            Seq::empty()
        }) + with_alt;
        assert(key.text() =~= with_control);
        assert(settled_text(with_control)) by {
            assert(settled_text("ctrl-"@) && settled_text("alt-"@) && settled_text("shift-"@));
            assert(settled_text(with_shift));
            assert(settled_text(with_alt));
        }
        lemma_settled_text(with_control);
        let no = no_modifiers();
        let a = KeyModifiers { control: m.control, ..no };
        let b = KeyModifiers { alt: m.alt, ..a };
        lemma_reads_modifiers(with_alt, no);
        lemma_reads_modifiers(with_shift, a);
        lemma_reads_modifiers(name, b);
        lemma_no_modifier(name, m);
        assert(Seq::<char>::empty() + with_alt =~= with_alt);
        assert(Seq::<char>::empty() + with_shift =~= with_shift);
        assert(Seq::<char>::empty() + name =~= name);
    }
}

} // verus!
