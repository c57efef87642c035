//! Keyboard shortcuts for the actions of the application.
use vstd::prelude::*;

verus! {

/// The keys that a shortcut can use: the letters and the digits.
#[derive(Clone, Copy, Debug, PartialEq, Eq, Structural)]
pub enum Key {
    A,
    B,
    C,
    D,
    E,
    F,
    G,
    H,
    I,
    J,
    K,
    L,
    M,
    N,
    O,
    P,
    Q,
    R,
    S,
    T,
    U,
    V,
    W,
    X,
    Y,
    Z,
    Num0,
    Num1,
    Num2,
    Num3,
    Num4,
    Num5,
    Num6,
    Num7,
    Num8,
    Num9,
}

/// The modifier keys that are held down.
#[derive(Clone, Copy, Debug, PartialEq, Eq, Structural)]
pub struct Modifiers {
    pub alt: bool,
    pub ctrl: bool,
    pub shift: bool,
    pub mac_cmd: bool,
    pub command: bool,
}

/// A key together with the modifiers held down with it.
#[derive(Clone, Copy, Debug, PartialEq, Eq, Structural)]
pub struct KeyboardShortcut {
    pub modifiers: Modifiers,
    pub key: Key,
}

/// The actions that have a shortcut.
#[derive(Clone, Copy, Debug, PartialEq, Eq, Structural)]
pub enum Action {
    Save,
    CopyToClipboard,
    Test,
    TakeScreenshot,
}

/// The shortcut of every action.
#[derive(Clone, Copy, Debug)]
pub struct AllKeyboardShortcuts {
    pub save: Option<KeyboardShortcut>,
    pub copy_to_clipboard: Option<KeyboardShortcut>,
    pub test: Option<KeyboardShortcut>,
    pub take_screenshot: Option<KeyboardShortcut>,
}

/// The control key alone.
pub open spec fn ctrl() -> Modifiers {
    Modifiers { alt: false, ctrl: true, shift: false, mac_cmd: false, command: false }
}

/// The name of a key, as it shows in a shortcut.
pub open spec fn key_name(key: Key) -> Seq<char> {
    match key {
        Key::A => "A"@,
        Key::B => "B"@,
        Key::C => "C"@,
        Key::D => "D"@,
        Key::E => "E"@,
        Key::F => "F"@,
        Key::G => "G"@,
        Key::H => "H"@,
        Key::I => "I"@,
        Key::J => "J"@,
        Key::K => "K"@,
        Key::L => "L"@,
        Key::M => "M"@,
        Key::N => "N"@,
        Key::O => "O"@,
        Key::P => "P"@,
        Key::Q => "Q"@,
        Key::R => "R"@,
        Key::S => "S"@,
        Key::T => "T"@,
        Key::U => "U"@,
        Key::V => "V"@,
        Key::W => "W"@,
        Key::X => "X"@,
        Key::Y => "Y"@,
        Key::Z => "Z"@,
        Key::Num0 => "0"@,
        Key::Num1 => "1"@,
        Key::Num2 => "2"@,
        Key::Num3 => "3"@,
        Key::Num4 => "4"@,
        Key::Num5 => "5"@,
        Key::Num6 => "6"@,
        Key::Num7 => "7"@,
        Key::Num8 => "8"@,
        Key::Num9 => "9"@,
    }
}

/// The key that a character names, in either case.
pub open spec fn key_of(c: char) -> Option<Key> {
    match c {
        'A' | 'a' => Some(Key::A),
        'B' | 'b' => Some(Key::B),
        'C' | 'c' => Some(Key::C),
        'D' | 'd' => Some(Key::D),
        'E' | 'e' => Some(Key::E),
        'F' | 'f' => Some(Key::F),
        'G' | 'g' => Some(Key::G),
        'H' | 'h' => Some(Key::H),
        'I' | 'i' => Some(Key::I),
        'J' | 'j' => Some(Key::J),
        'K' | 'k' => Some(Key::K),
        'L' | 'l' => Some(Key::L),
        'M' | 'm' => Some(Key::M),
        'N' | 'n' => Some(Key::N),
        'O' | 'o' => Some(Key::O),
        'P' | 'p' => Some(Key::P),
        'Q' | 'q' => Some(Key::Q),
        'R' | 'r' => Some(Key::R),
        'S' | 's' => Some(Key::S),
        'T' | 't' => Some(Key::T),
        'U' | 'u' => Some(Key::U),
        'V' | 'v' => Some(Key::V),
        'W' | 'w' => Some(Key::W),
        'X' | 'x' => Some(Key::X),
        'Y' | 'y' => Some(Key::Y),
        'Z' | 'z' => Some(Key::Z),
        '0' => Some(Key::Num0),
        '1' => Some(Key::Num1),
        '2' => Some(Key::Num2),
        '3' => Some(Key::Num3),
        '4' => Some(Key::Num4),
        '5' => Some(Key::Num5),
        '6' => Some(Key::Num6),
        '7' => Some(Key::Num7),
        '8' => Some(Key::Num8),
        '9' => Some(Key::Num9),
        _ => None,
    }
}

/// The action that a field name stands for.
pub open spec fn action_of(field: Seq<char>) -> Option<Action> {
    if field == "save"@ {
        Some(Action::Save)
    } else if field == "copy_to_clipboard"@ {
        Some(Action::CopyToClipboard)
    } else if field == "test"@ {
        Some(Action::Test)
    } else if field == "take_screenshot"@ {
        Some(Action::TakeScreenshot)
    } else {
        None
    }
}

/// The field name of an action.
pub open spec fn action_name(action: Action) -> Seq<char> {
    match action {
        Action::Save => "save"@,
        Action::CopyToClipboard => "copy_to_clipboard"@,
        Action::Test => "test"@,
        Action::TakeScreenshot => "take_screenshot"@,
    }
}

/// How a shortcut reads: the modifiers held, control before alt before
/// shift, each followed by a plus sign, and then the key.
pub open spec fn readable(shortcut: KeyboardShortcut) -> Seq<char> {
    (if shortcut.modifiers.ctrl {
        "CTRL+"@
    } else {
        Seq::empty()
    }) + (if shortcut.modifiers.alt {
        "ALT+"@
    } else {
        Seq::empty()
    }) + (if shortcut.modifiers.shift {
        "SHIFT+"@
    } else {
        Seq::empty()
    }) + key_name(shortcut.key)
}

/// Whether two strings hold the same characters.
fn same(a: &str, b: &str) -> (r: bool)
    ensures
        r == (a@ == b@),
{
    let n = a.unicode_len();
    if b.unicode_len() != n {
        return false;
    }
    let mut i: usize = 0;
    while i < n
        invariant
            n == a@.len(),
            n == b@.len(),
            i <= n,
            forall|j: int| 0 <= j < i ==> a@[j] == b@[j],
        decreases n - i,
    {
        if a.get_char(i) != b.get_char(i) {
            return false;
        }
        i += 1;
    }
    assert(a@ =~= b@);
    true
}

/// The action that a field name stands for.
fn action_for(field: &str) -> (r: Option<Action>)
    ensures
        r == action_of(field@),
{
    if same(field, "save") {
        Some(Action::Save)
    } else if same(field, "copy_to_clipboard") {
        Some(Action::CopyToClipboard)
    } else if same(field, "test") {
        Some(Action::Test)
    } else if same(field, "take_screenshot") {
        Some(Action::TakeScreenshot)
    } else {
        None
    }
}

impl Key {
    /// The name of the key, as it shows in a shortcut.
    pub fn name(&self) -> (name: &'static str)
        ensures
            name@ == key_name(*self),
    {
        match self {
            Key::A => "A",
            Key::B => "B",
            Key::C => "C",
            Key::D => "D",
            Key::E => "E",
            Key::F => "F",
            Key::G => "G",
            Key::H => "H",
            Key::I => "I",
            Key::J => "J",
            Key::K => "K",
            Key::L => "L",
            Key::M => "M",
            Key::N => "N",
            Key::O => "O",
            Key::P => "P",
            Key::Q => "Q",
            Key::R => "R",
            Key::S => "S",
            Key::T => "T",
            Key::U => "U",
            Key::V => "V",
            Key::W => "W",
            Key::X => "X",
            Key::Y => "Y",
            Key::Z => "Z",
            Key::Num0 => "0",
            Key::Num1 => "1",
            Key::Num2 => "2",
            Key::Num3 => "3",
            Key::Num4 => "4",
            Key::Num5 => "5",
            Key::Num6 => "6",
            Key::Num7 => "7",
            Key::Num8 => "8",
            Key::Num9 => "9",
        }
    }
}

impl AllKeyboardShortcuts {
    /// The shortcuts that the application starts with: control together
    /// with S, C, T and D.
    pub open spec fn initial() -> AllKeyboardShortcuts {
        AllKeyboardShortcuts {
            save: Some(KeyboardShortcut { modifiers: ctrl(), key: Key::S }),
            copy_to_clipboard: Some(KeyboardShortcut { modifiers: ctrl(), key: Key::C }),
            test: Some(KeyboardShortcut { modifiers: ctrl(), key: Key::T }),
            take_screenshot: Some(KeyboardShortcut { modifiers: ctrl(), key: Key::D }),
        }
    }

    /// The shortcut of an action.
    pub open spec fn of(self, action: Action) -> Option<KeyboardShortcut> {
        match action {
            Action::Save => self.save,
            Action::CopyToClipboard => self.copy_to_clipboard,
            Action::Test => self.test,
            Action::TakeScreenshot => self.take_screenshot,
        }
    }

    /// The shortcuts with that of one action replaced.
    pub open spec fn with(self, action: Action, shortcut: KeyboardShortcut) -> AllKeyboardShortcuts {
        match action {
            Action::Save => AllKeyboardShortcuts { save: Some(shortcut), ..self },
            Action::CopyToClipboard => AllKeyboardShortcuts {
                copy_to_clipboard: Some(shortcut),
                ..self
            },
            Action::Test => AllKeyboardShortcuts { test: Some(shortcut), ..self },
            Action::TakeScreenshot => AllKeyboardShortcuts {
                take_screenshot: Some(shortcut),
                ..self
            },
        }
    }

    /// The first action, in the order save, copy, test, screenshot, that
    /// already has the shortcut.
    pub open spec fn holder(self, shortcut: KeyboardShortcut) -> Option<Action> {
        if self.save == Some(shortcut) {
            Some(Action::Save)
        } else if self.copy_to_clipboard == Some(shortcut) {
            Some(Action::CopyToClipboard)
        } else if self.test == Some(shortcut) {
            Some(Action::Test)
        } else if self.take_screenshot == Some(shortcut) {
            Some(Action::TakeScreenshot)
        } else {
            None
        }
    }

    /// The shortcuts that the application starts with.
    pub fn new() -> (s: AllKeyboardShortcuts)
        ensures
            s == AllKeyboardShortcuts::initial(),
    {
        let ctrl = Modifiers { alt: false, ctrl: true, shift: false, mac_cmd: false, command: false };
        AllKeyboardShortcuts {
            save: Some(KeyboardShortcut { modifiers: ctrl, key: Key::S }),
            copy_to_clipboard: Some(KeyboardShortcut { modifiers: ctrl, key: Key::C }),
            test: Some(KeyboardShortcut { modifiers: ctrl, key: Key::T }),
            take_screenshot: Some(KeyboardShortcut { modifiers: ctrl, key: Key::D }),
        }
    }

    /// Gives the action named `field` the shortcut `new_shortcut`. Returns
    /// whether `field` names an action; nothing changes where it does not.
    pub fn update_keyboard_shortcut(&mut self, field: &str, new_shortcut: KeyboardShortcut) -> (known:
        bool)
        ensures
            known == action_of(field@).is_some(),
            *final(self) == match action_of(field@) {
                Some(action) => old(self).with(action, new_shortcut),
                None => *old(self),
            },
    {
        match action_for(field) {
            Some(Action::Save) => {
                self.save = Some(new_shortcut);
                true
            },
            Some(Action::CopyToClipboard) => {
                self.copy_to_clipboard = Some(new_shortcut);
                true
            },
            Some(Action::Test) => {
                self.test = Some(new_shortcut);
                true
            },
            Some(Action::TakeScreenshot) => {
                self.take_screenshot = Some(new_shortcut);
                true
            },
            None => false,
        }
    }

    /// Whether `shortcut` is free, and the name of the first action that
    /// has it where it is not; the name is `none` where it is free.
    pub fn check_if_valid(&self, shortcut: &KeyboardShortcut) -> (r: (bool, String))
        ensures
            r.0 == self.holder(*shortcut).is_none(),
            r.1@ == match self.holder(*shortcut) {
                Some(action) => action_name(action),
                None => "none"@,
            },
    {
        if is_taken(self.save, shortcut) {
            (false, "save".to_owned())
        } else if is_taken(self.copy_to_clipboard, shortcut) {
            (false, "copy_to_clipboard".to_owned())
        } else if is_taken(self.test, shortcut) {
            (false, "test".to_owned())
        } else if is_taken(self.take_screenshot, shortcut) {
            (false, "take_screenshot".to_owned())
        } else {
            (true, "none".to_owned())
        }
    }

    /// How the shortcut of the action named `field` reads; `None` where
    /// `field` names no action or the action has no shortcut.
    pub fn human_readable_shorcut(&self, field: &str) -> (r: Option<String>)
        ensures
            match r {
                Some(text) => action_of(field@).is_some() && self.of(
                    action_of(field@).unwrap(),
                ).is_some() && text@ == readable(self.of(action_of(field@).unwrap()).unwrap()),
                None => action_of(field@).is_none() || self.of(action_of(field@).unwrap()).is_none(),
            },
    {
        let shortcut = match action_for(field) {
            Some(Action::Save) => self.save,
            Some(Action::CopyToClipboard) => self.copy_to_clipboard,
            Some(Action::Test) => self.test,
            Some(Action::TakeScreenshot) => self.take_screenshot,
            None => None,
        };
        match shortcut {
            Some(s) => {
                let mut text = String::new();
                if s.modifiers.ctrl {
                    text.append("CTRL+");
                }
                if s.modifiers.alt {
                    text.append("ALT+");
                }
                if s.modifiers.shift {
                    text.append("SHIFT+");
                }
                text.append(s.key.name());
                assert(text@ =~= readable(s));
                Some(text)
            },
            None => None,
        }
    }

    /// The key that `key` names: a single letter, in either case, or a
    /// single digit. Anything else names no key.
    pub fn from_name(self, key: &str) -> (r: Option<Key>)
        ensures
            r == if key@.len() == 1 {
                key_of(key@[0])
            } else {
                None
            },
    {
        if key.unicode_len() != 1 {
            return None;
        }
        match key.get_char(0) {
            'A' | 'a' => Some(Key::A),
            'B' | 'b' => Some(Key::B),
            'C' | 'c' => Some(Key::C),
            'D' | 'd' => Some(Key::D),
            'E' | 'e' => Some(Key::E),
            'F' | 'f' => Some(Key::F),
            'G' | 'g' => Some(Key::G),
            'H' | 'h' => Some(Key::H),
            'I' | 'i' => Some(Key::I),
            'J' | 'j' => Some(Key::J),
            'K' | 'k' => Some(Key::K),
            'L' | 'l' => Some(Key::L),
            'M' | 'm' => Some(Key::M),
            'N' | 'n' => Some(Key::N),
            'O' | 'o' => Some(Key::O),
            'P' | 'p' => Some(Key::P),
            'Q' | 'q' => Some(Key::Q),
            'R' | 'r' => Some(Key::R),
            'S' | 's' => Some(Key::S),
            'T' | 't' => Some(Key::T),
            'U' | 'u' => Some(Key::U),
            'V' | 'v' => Some(Key::V),
            'W' | 'w' => Some(Key::W),
            'X' | 'x' => Some(Key::X),
            'Y' | 'y' => Some(Key::Y),
            'Z' | 'z' => Some(Key::Z),
            '0' => Some(Key::Num0),
            '1' => Some(Key::Num1),
            '2' => Some(Key::Num2),
            '3' => Some(Key::Num3),
            '4' => Some(Key::Num4),
            '5' => Some(Key::Num5),
            '6' => Some(Key::Num6),
            '7' => Some(Key::Num7),
            '8' => Some(Key::Num8),
            '9' => Some(Key::Num9),
            _ => None,
        }
    }
}

/// Whether an action has the shortcut.
fn is_taken(held: Option<KeyboardShortcut>, shortcut: &KeyboardShortcut) -> (r: bool)
    ensures
        r == (held == Some(*shortcut)),
{
    match held {
        Some(h) => h == *shortcut,
        None => false,
    }
}

impl Default for AllKeyboardShortcuts {
    /// The shortcuts that the application starts with.
    fn default() -> (s: AllKeyboardShortcuts)
        ensures
            s == AllKeyboardShortcuts::initial(),
    {
        AllKeyboardShortcuts::new()
    }
}

} // verus!
