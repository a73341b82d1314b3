//! Shared evdev keycode translation. Owns the single keycode to character table
//! so the terminal (which turns keys into bytes) and the text-input primitive
//! (which turns keys into editing intents) never carry rival maps.

use vstd::prelude::*;

verus! {

/// Latched modifier state accumulated from key press and release events.
#[derive(Clone, Copy, Debug, PartialEq, Eq, Structural)]
pub struct Modifiers {
    pub shift: bool,
    pub control: bool,
    pub alt: bool,
    pub super_key: bool,
    pub caps: bool,
}

impl Default for Modifiers {
    /// No modifier is held and caps lock is off.
    fn default() -> (result: Self)
        ensures
            result == (Modifiers {
                shift: false,
                control: false,
                alt: false,
                super_key: false,
                caps: false,
            }),
    {
        Modifiers { shift: false, control: false, alt: false, super_key: false, caps: false }
    }
}

/// The key is a modifier.
pub open spec fn modifier_key(code: u32) -> bool {
    ||| code == 42 || code == 54
    ||| code == 29 || code == 97
    ||| code == 56 || code == 100
    ||| code == 125 || code == 126
    ||| code == 58
}

/// The latched state after one key event.
pub open spec fn latched(m: Modifiers, code: u32, value: i32) -> Modifiers {
    let pressed = value != 0;
    if code == 42 || code == 54 {
        Modifiers { shift: pressed, ..m }
    } else if code == 29 || code == 97 {
        Modifiers { control: pressed, ..m }
    } else if code == 56 || code == 100 {
        Modifiers { alt: pressed, ..m }
    } else if code == 125 || code == 126 {
        Modifiers { super_key: pressed, ..m }
    } else if code == 58 && value == 1 {
        Modifiers { caps: !m.caps, ..m }
    } else {
        m
    }
}

impl Modifiers {
    /// Folds one key event into the latched state, returning whether `code` was
    /// a modifier key (so the caller can skip producing text for it). Caps lock
    /// toggles on the press edge (`value == 1`) only.
    pub fn apply(&mut self, code: u32, value: i32) -> (result: bool)
        ensures
            result == modifier_key(code),
            *final(self) == latched(*old(self), code, value),
    {
        let pressed = value != 0;
        match code {
            42 | 54 => {
                self.shift = pressed;
            },
            29 | 97 => {
                self.control = pressed;
            },
            56 | 100 => {
                self.alt = pressed;
            },
            125 | 126 => {
                self.super_key = pressed;
            },
            58 => {
                if value == 1 {
                    self.caps = !self.caps;
                }
            },
            _ => {
                return false;
            },
        }
        true
    }
}

/// The unshifted characters of each block of consecutive printable keys.
pub open spec fn plain(code: int) -> Option<char> {
    if 2 <= code <= 11 {
        Some("1234567890"@[code - 2])
    } else if code == 12 {
        Some('-')
    } else if code == 13 {
        Some('=')
    } else if 16 <= code <= 27 {
        Some("qwertyuiop[]"@[code - 16])
    } else if 30 <= code <= 41 {
        Some("asdfghjkl;'`"@[code - 30])
    } else if code == 43 {
        Some('\\')
    } else if 44 <= code <= 53 {
        Some("zxcvbnm,./"@[code - 44])
    } else if code == 57 {
        Some(' ')
    } else {
        None
    }
}

/// The shifted characters of the symbol keys.
pub open spec fn shifted(code: int) -> Option<char> {
    if 2 <= code <= 13 {
        Some("!@#$%^&*()_+"@[code - 2])
    } else if code == 26 {
        Some('{')
    } else if code == 27 {
        Some('}')
    } else if code == 39 {
        Some(':')
    } else if code == 40 {
        Some('"')
    } else if code == 41 {
        Some('~')
    } else if code == 43 {
        Some('|')
    } else if code == 51 {
        Some('<')
    } else if code == 52 {
        Some('>')
    } else if code == 53 {
        Some('?')
    } else {
        None
    }
}

/// A byte that stands for `c`.
pub open spec fn encodes(byte: Option<u8>, c: Option<char>) -> bool {
    match (byte, c) {
        (Some(b), Some(x)) => b as char == x,
        (None, None) => true,
        _ => false,
    }
}

/// Unshifted ASCII for a printable evdev keycode, or `None` for non-printable
/// keys (function keys, navigation, modifiers).
pub fn plain_key(code: u16) -> (result: Option<u8>)
    ensures
        encodes(result, plain(code as int)),
        result matches Some(b) ==> b < 128,
{
    proof {
        reveal_strlit("1234567890");
        reveal_strlit("qwertyuiop[]");
        reveal_strlit("asdfghjkl;'`");
        reveal_strlit("zxcvbnm,./");
    }
    match code {
        2 => Some('1' as u8),
        3 => Some('2' as u8),
        4 => Some('3' as u8),
        5 => Some('4' as u8),
        6 => Some('5' as u8),
        7 => Some('6' as u8),
        8 => Some('7' as u8),
        9 => Some('8' as u8),
        10 => Some('9' as u8),
        11 => Some('0' as u8),
        12 => Some('-' as u8),
        13 => Some('=' as u8),
        16 => Some('q' as u8),
        17 => Some('w' as u8),
        18 => Some('e' as u8),
        19 => Some('r' as u8),
        20 => Some('t' as u8),
        21 => Some('y' as u8),
        22 => Some('u' as u8),
        23 => Some('i' as u8),
        24 => Some('o' as u8),
        25 => Some('p' as u8),
        26 => Some('[' as u8),
        27 => Some(']' as u8),
        30 => Some('a' as u8),
        31 => Some('s' as u8),
        32 => Some('d' as u8),
        33 => Some('f' as u8),
        34 => Some('g' as u8),
        35 => Some('h' as u8),
        36 => Some('j' as u8),
        37 => Some('k' as u8),
        38 => Some('l' as u8),
        39 => Some(';' as u8),
        40 => Some('\'' as u8),
        41 => Some('`' as u8),
        43 => Some('\\' as u8),
        44 => Some('z' as u8),
        45 => Some('x' as u8),
        46 => Some('c' as u8),
        47 => Some('v' as u8),
        48 => Some('b' as u8),
        49 => Some('n' as u8),
        50 => Some('m' as u8),
        51 => Some(',' as u8),
        52 => Some('.' as u8),
        53 => Some('/' as u8),
        57 => Some(' ' as u8),
        _ => None,
    }
}

/// Shifted ASCII for the symbol keys whose shifted form is not just uppercase.
pub fn shifted_key(code: u16) -> (result: Option<u8>)
    ensures
        encodes(result, shifted(code as int)),
        result matches Some(b) ==> b < 128,
{
    proof {
        reveal_strlit("!@#$%^&*()_+");
    }
    match code {
        2 => Some('!' as u8),
        3 => Some('@' as u8),
        4 => Some('#' as u8),
        5 => Some('$' as u8),
        6 => Some('%' as u8),
        7 => Some('^' as u8),
        8 => Some('&' as u8),
        9 => Some('*' as u8),
        10 => Some('(' as u8),
        11 => Some(')' as u8),
        12 => Some('_' as u8),
        13 => Some('+' as u8),
        26 => Some('{' as u8),
        27 => Some('}' as u8),
        39 => Some(':' as u8),
        40 => Some('"' as u8),
        41 => Some('~' as u8),
        43 => Some('|' as u8),
        51 => Some('<' as u8),
        52 => Some('>' as u8),
        53 => Some('?' as u8),
        _ => None,
    }
}

/// An ASCII letter.
pub open spec fn letter(c: char) -> bool {
    65 <= c as u32 <= 90 || 97 <= c as u32 <= 122
}

/// ASCII upper case.
pub open spec fn upper(c: char) -> char {
    if 97 <= c as u32 <= 122 {
        ((c as u32 - 32) as u8) as char
    } else {
        c
    }
}

/// The final character of a printable key under shift and caps lock.
pub open spec fn typed(code: int, m: Modifiers) -> Option<char> {
    match plain(code) {
        None => None,
        Some(c) => if letter(c) {
            if m.shift != m.caps {
                Some(upper(c))
            } else {
                Some(c)
            }
        } else if m.shift && shifted(code) is Some {
            shifted(code)
        } else {
            Some(c)
        },
    }
}

/// Resolves a printable keycode to its final character under shift/caps, or
/// `None` for non-printable keys. Alphabetic keys uppercase when exactly one of
/// shift/caps is active; symbol keys use `shifted_key` under shift.
pub fn character(code: u16, modifiers: Modifiers) -> (result: Option<char>)
    ensures
        result == typed(code as int, modifiers),
{
    let mut byte: u8 = match plain_key(code) {
        Some(byte) => byte,
        None => return None,
    };
    if (65 <= byte && byte <= 90) || (97 <= byte && byte <= 122) {
        if modifiers.shift != modifiers.caps && 97 <= byte {
            byte = byte - 32;
        }
    } else if modifiers.shift {
        match shifted_key(code) {
            Some(symbol) => {
                byte = symbol;
            },
            None => {},
        }
    }
    Some(byte as char)
}

/// One editing intent produced from a key event for a focused text field.
#[derive(Clone, Copy, Debug, PartialEq, Eq, Structural)]
pub enum TextEdit {
    /// Append this character to the value.
    Insert(char),
    /// Delete the character before the caret.
    Backspace,
}

/// The editing intent of one key event.
pub open spec fn intent(code: u32, value: i32, m: Modifiers) -> Option<TextEdit> {
    if value == 0 {
        None
    } else if code == 14 {
        Some(TextEdit::Backspace)
    } else {
        match typed((code % 0x1_0000) as int, m) {
            Some(c) => Some(TextEdit::Insert(c)),
            None => None,
        }
    }
}

/// Maps a key press to a `TextEdit` for a focused text field, or `None` when
/// the key is a modifier, a release, or a non-text control key (Enter, Escape
/// and arrows are delivered to the field's key listener instead).
pub fn text_edit(code: u32, value: i32, modifiers: Modifiers) -> (result: Option<TextEdit>)
    ensures
        result == intent(code, value, modifiers),
{
    if value == 0 {
        return None;
    }
    if code == 14 {
        return Some(TextEdit::Backspace);
    }
    match character((code % 0x1_0000) as u16, modifiers) {
        Some(c) => Some(TextEdit::Insert(c)),
        None => None,
    }
}

/// Shift and caps lock cancel each other on letters: toggling both leaves the
/// typed character as it was.
pub proof fn shift_and_caps_cancel(code: int, m: Modifiers)
    requires
        plain(code) matches Some(c) && letter(c),
    ensures
        typed(code, Modifiers { shift: !m.shift, caps: !m.caps, ..m }) == typed(code, m),
{
}

/// Pressing and releasing a held modifier leaves everything but caps lock as it
/// was with that modifier up.
pub proof fn press_then_release(m: Modifiers, code: u32)
    ensures
        code != 58 ==> latched(latched(m, code, 1), code, 0) == latched(m, code, 0),
        code == 58 ==> latched(latched(m, code, 1), code, 0) == (Modifiers { caps: !m.caps, ..m }),
{
}

/// A key that is no modifier changes no modifier, and a modifier types nothing.
pub proof fn modifiers_type_nothing(m: Modifiers, code: u32, value: i32)
    ensures
        !modifier_key(code) ==> latched(m, code, value) == m,
        modifier_key(code) ==> intent(code, value, m) is None,
{
}

} // verus!
