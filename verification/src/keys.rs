//! Keys, and the bytes that a terminal sends for them.
use vstd::prelude::*;
use vstd::utf8::encode_utf8;

verus! {

/// A key of the keyboard.
#[derive(Debug, Clone, Copy, PartialEq, Eq, Structural)]
pub enum KeyCode {
    Char(char),
    F(u8),
    Enter,
    Tab,
    BackTab,
    Backspace,
    Esc,
    Up,
    Down,
    Left,
    Right,
    Home,
    End,
    Insert,
    Delete,
    PageUp,
    PageDown,
    /// Any other key. None of them has a meaning here.
    Other,
}

/// The bit of the shift key.
pub const SHIFT: u8 = 1;

/// The bit of the control key.
pub const CONTROL: u8 = 2;

/// The bit of the alt key.
pub const ALT: u8 = 4;

/// The modifier keys that are held down, one bit each.
#[derive(Debug, Clone, Copy, PartialEq, Eq, Structural)]
pub struct KeyModifiers {
    pub bits: u8,
}

impl KeyModifiers {
    /// No modifier.
    pub fn none() -> (m: Self)
        ensures
            m.bits == 0,
    {
        KeyModifiers { bits: 0 }
    }

    /// The control key alone.
    pub fn control() -> (m: Self)
        ensures
            m.bits == CONTROL,
    {
        KeyModifiers { bits: CONTROL }
    }

    /// The alt key alone.
    pub fn alt() -> (m: Self)
        ensures
            m.bits == ALT,
    {
        KeyModifiers { bits: ALT }
    }

    /// Whether the modifier of a bit is held down.
    pub open spec fn has(self, bit: u8) -> bool {
        self.bits & bit != 0
    }

    /// Whether the modifier of a bit is held down.
    pub fn contains(self, bit: u8) -> (yes: bool)
        ensures
            yes == self.has(bit),
    {
        self.bits & bit != 0
    }
}

/// A key that was pressed, with the modifiers at that moment.
#[derive(Debug, Clone, Copy, PartialEq, Eq, Structural)]
pub struct KeyEvent {
    pub code: KeyCode,
    pub modifiers: KeyModifiers,
}

/// The control byte of a letter, 1 for A to 26 for Z in either case.
pub open spec fn control_byte(c: char) -> Option<u8> {
    if 'a' <= c && c <= 'z' {
        Some((c as int - 'a' as int + 1) as u8)
    } else if 'A' <= c && c <= 'Z' {
        Some((c as int - 'A' as int + 1) as u8)
    } else {
        None
    }
}

/// The sequence of a function key.
pub open spec fn function_key_bytes(n: u8) -> Option<Seq<u8>> {
    if n == 1 {
        Some(seq![0x1bu8, 0x4f, 0x50])
    } else if n == 2 {
        Some(seq![0x1bu8, 0x4f, 0x51])
    } else if n == 3 {
        Some(seq![0x1bu8, 0x4f, 0x52])
    } else if n == 4 {
        Some(seq![0x1bu8, 0x4f, 0x53])
    } else if n == 5 {
        Some(seq![0x1bu8, 0x5b, 0x31, 0x35, 0x7e])
    } else if n == 6 {
        Some(seq![0x1bu8, 0x5b, 0x31, 0x37, 0x7e])
    } else if n == 7 {
        Some(seq![0x1bu8, 0x5b, 0x31, 0x38, 0x7e])
    } else if n == 8 {
        Some(seq![0x1bu8, 0x5b, 0x31, 0x39, 0x7e])
    } else if n == 9 {
        Some(seq![0x1bu8, 0x5b, 0x32, 0x30, 0x7e])
    } else if n == 10 {
        Some(seq![0x1bu8, 0x5b, 0x32, 0x31, 0x7e])
    } else if n == 11 {
        Some(seq![0x1bu8, 0x5b, 0x32, 0x33, 0x7e])
    } else if n == 12 {
        Some(seq![0x1bu8, 0x5b, 0x32, 0x34, 0x7e])
    } else {
        None
    }
}

/// The bytes that a terminal sends for a key, if it sends any.
pub open spec fn key_bytes(key: KeyEvent) -> Option<Seq<u8>> {
    match key.code {
        KeyCode::Char(c) => if key.modifiers.has(CONTROL) {
            match control_byte(c) {
                Some(b) => Some(seq![b]),
                None => None,
            }
        } else if key.modifiers.has(ALT) {
            Some(seq![0x1bu8] + encode_utf8(seq![c]))
        } else {
            Some(encode_utf8(seq![c]))
        },
        KeyCode::F(n) => function_key_bytes(n),
        KeyCode::Enter => Some(seq![0x0du8]),
        KeyCode::Tab => Some(seq![0x09u8]),
        KeyCode::BackTab => Some(seq![0x1bu8, 0x5b, 0x5a]),
        KeyCode::Backspace => Some(seq![0x7fu8]),
        KeyCode::Esc => Some(seq![0x1bu8]),
        KeyCode::Up => Some(seq![0x1bu8, 0x5b, 0x41]),
        KeyCode::Down => Some(seq![0x1bu8, 0x5b, 0x42]),
        KeyCode::Right => Some(seq![0x1bu8, 0x5b, 0x43]),
        KeyCode::Left => Some(seq![0x1bu8, 0x5b, 0x44]),
        KeyCode::Home => Some(seq![0x1bu8, 0x5b, 0x48]),
        KeyCode::End => Some(seq![0x1bu8, 0x5b, 0x46]),
        KeyCode::Insert => Some(seq![0x1bu8, 0x5b, 0x32, 0x7e]),
        KeyCode::Delete => Some(seq![0x1bu8, 0x5b, 0x33, 0x7e]),
        KeyCode::PageUp => Some(seq![0x1bu8, 0x5b, 0x35, 0x7e]),
        KeyCode::PageDown => Some(seq![0x1bu8, 0x5b, 0x36, 0x7e]),
        KeyCode::Other => None,
    }
}

/// The bytes of an optional vector.
pub open spec fn opt_bytes(v: Option<Vec<u8>>) -> Option<Seq<u8>> {
    match v {
        Some(v) => Some(v@),
        None => None,
    }
}

/// The encoding of one character.
fn char_bytes(c: char) -> (bytes: Vec<u8>)
    ensures
        bytes@ == encode_utf8(seq![c]),
{
    let mut s = String::new();
    s.push(c);
    assert(s@ =~= seq![c]);
    s.as_str().as_bytes_vec()
}

fn encode_function_key(n: u8) -> (bytes: Option<Vec<u8>>)
    ensures
        opt_bytes(bytes) == function_key_bytes(n),
{
    if n == 1 {
        Some(vec![0x1b, 0x4f, 0x50])
    } else if n == 2 {
        Some(vec![0x1b, 0x4f, 0x51])
    } else if n == 3 {
        Some(vec![0x1b, 0x4f, 0x52])
    } else if n == 4 {
        Some(vec![0x1b, 0x4f, 0x53])
    } else if n == 5 {
        Some(vec![0x1b, 0x5b, 0x31, 0x35, 0x7e])
    } else if n == 6 {
        Some(vec![0x1b, 0x5b, 0x31, 0x37, 0x7e])
    } else if n == 7 {
        Some(vec![0x1b, 0x5b, 0x31, 0x38, 0x7e])
    } else if n == 8 {
        Some(vec![0x1b, 0x5b, 0x31, 0x39, 0x7e])
    } else if n == 9 {
        Some(vec![0x1b, 0x5b, 0x32, 0x30, 0x7e])
    } else if n == 10 {
        Some(vec![0x1b, 0x5b, 0x32, 0x31, 0x7e])
    } else if n == 11 {
        Some(vec![0x1b, 0x5b, 0x32, 0x33, 0x7e])
    } else if n == 12 {
        Some(vec![0x1b, 0x5b, 0x32, 0x34, 0x7e])
    } else {
        None
    }
}

/// Encodes a key into the bytes that a terminal sends for it.
pub fn encode(key: &KeyEvent) -> (bytes: Option<Vec<u8>>)
    ensures
        opt_bytes(bytes) == key_bytes(*key),
{
    match key.code {
        KeyCode::Char(c) => {
            if key.modifiers.contains(CONTROL) {
                if 'a' <= c && c <= 'z' {
                    let b: u8 = (c as u32 - 'a' as u32 + 1) as u8;
                    Some(vec![b])
                } else if 'A' <= c && c <= 'Z' {
                    let b: u8 = (c as u32 - 'A' as u32 + 1) as u8;
                    Some(vec![b])
                } else {
                    None
                }
            } else if key.modifiers.contains(ALT) {
                let mut out: Vec<u8> = vec![0x1b];
                let mut tail = char_bytes(c);
                out.append(&mut tail);
                Some(out)
            } else {
                Some(char_bytes(c))
            }
        },
        KeyCode::F(n) => encode_function_key(n),
        KeyCode::Enter => Some(vec![0x0d]),
        KeyCode::Tab => Some(vec![0x09]),
        KeyCode::BackTab => Some(vec![0x1b, 0x5b, 0x5a]),
        KeyCode::Backspace => Some(vec![0x7f]),
        KeyCode::Esc => Some(vec![0x1b]),
        KeyCode::Up => Some(vec![0x1b, 0x5b, 0x41]),
        KeyCode::Down => Some(vec![0x1b, 0x5b, 0x42]),
        KeyCode::Right => Some(vec![0x1b, 0x5b, 0x43]),
        KeyCode::Left => Some(vec![0x1b, 0x5b, 0x44]),
        KeyCode::Home => Some(vec![0x1b, 0x5b, 0x48]),
        KeyCode::End => Some(vec![0x1b, 0x5b, 0x46]),
        KeyCode::Insert => Some(vec![0x1b, 0x5b, 0x32, 0x7e]),
        KeyCode::Delete => Some(vec![0x1b, 0x5b, 0x33, 0x7e]),
        KeyCode::PageUp => Some(vec![0x1b, 0x5b, 0x35, 0x7e]),
        KeyCode::PageDown => Some(vec![0x1b, 0x5b, 0x36, 0x7e]),
        KeyCode::Other => None,
    }
}

/// The key that stands for a pasted character.
pub open spec fn pasted(c: char) -> KeyEvent {
    KeyEvent {
        code: if c == '\n' || c == '\r' {
            KeyCode::Enter
        } else if c == '\t' {
            KeyCode::Tab
        } else {
            KeyCode::Char(c)
        },
        modifiers: KeyModifiers { bits: 0 },
    }
}

/// Turns a pasted character into the key that types it.
pub fn paste_key(c: char) -> (key: KeyEvent)
    ensures
        key == pasted(c),
{
    let code = if c == '\n' || c == '\r' {
        KeyCode::Enter
    } else if c == '\t' {
        KeyCode::Tab
    } else {
        KeyCode::Char(c)
    };
    KeyEvent { code, modifiers: KeyModifiers::none() }
}

/// A control combination is a single byte from 1 to 26, whatever the case of
/// the letter, and a control combination with anything else sends nothing.
pub proof fn lemma_control_keys(key: KeyEvent, c: char)
    requires
        key.code == KeyCode::Char(c),
        key.modifiers.has(CONTROL),
    ensures
        match key_bytes(key) {
            Some(bytes) => bytes.len() == 1 && 1 <= bytes[0] <= 26 && ('a' <= c <= 'z' || 'A' <= c
                <= 'Z'),
            None => !('a' <= c <= 'z') && !('A' <= c <= 'Z'),
        },
{
}

/// Alt sends an escape byte before what the key sends without it.
pub proof fn lemma_alt_prefixes_escape(c: char, plain: KeyModifiers, alt: KeyModifiers)
    requires
        !plain.has(CONTROL),
        !plain.has(ALT),
        !alt.has(CONTROL),
        alt.has(ALT),
    ensures
        key_bytes(KeyEvent { code: KeyCode::Char(c), modifiers: alt }) == Some(
            seq![0x1bu8] + key_bytes(KeyEvent { code: KeyCode::Char(c), modifiers: plain })->0,
        ),
{
}

} // verus!
