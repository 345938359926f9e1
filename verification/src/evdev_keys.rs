//! Linux key codes: which one a keyboard usage stands for, and which keystroke types a character.
use vstd::prelude::*;

use crate::key_set::{empty_set, insert_key, KeySet};
use crate::protocol::{HidUsage, KeyCode, MouseButton};

verus! {

pub const KEY_A: u16 = 30;

pub const KEY_B: u16 = 48;

pub const KEY_C: u16 = 46;

pub const KEY_D: u16 = 32;

pub const KEY_E: u16 = 18;

pub const KEY_F: u16 = 33;

pub const KEY_G: u16 = 34;

pub const KEY_H: u16 = 35;

pub const KEY_I: u16 = 23;

pub const KEY_J: u16 = 36;

pub const KEY_K: u16 = 37;

pub const KEY_L: u16 = 38;

pub const KEY_M: u16 = 50;

pub const KEY_N: u16 = 49;

pub const KEY_O: u16 = 24;

pub const KEY_P: u16 = 25;

pub const KEY_Q: u16 = 16;

pub const KEY_R: u16 = 19;

pub const KEY_S: u16 = 31;

pub const KEY_T: u16 = 20;

pub const KEY_U: u16 = 22;

pub const KEY_V: u16 = 47;

pub const KEY_W: u16 = 17;

pub const KEY_X: u16 = 45;

pub const KEY_Y: u16 = 21;

pub const KEY_Z: u16 = 44;

pub const KEY_1: u16 = 2;

pub const KEY_2: u16 = 3;

pub const KEY_3: u16 = 4;

pub const KEY_4: u16 = 5;

pub const KEY_5: u16 = 6;

pub const KEY_6: u16 = 7;

pub const KEY_7: u16 = 8;

pub const KEY_8: u16 = 9;

pub const KEY_9: u16 = 10;

pub const KEY_0: u16 = 11;

pub const KEY_ENTER: u16 = 28;

pub const KEY_ESC: u16 = 1;

pub const KEY_BACKSPACE: u16 = 14;

pub const KEY_TAB: u16 = 15;

pub const KEY_SPACE: u16 = 57;

pub const KEY_MINUS: u16 = 12;

pub const KEY_EQUAL: u16 = 13;

pub const KEY_LEFTBRACE: u16 = 26;

pub const KEY_RIGHTBRACE: u16 = 27;

pub const KEY_BACKSLASH: u16 = 43;

pub const KEY_SEMICOLON: u16 = 39;

pub const KEY_APOSTROPHE: u16 = 40;

pub const KEY_GRAVE: u16 = 41;

pub const KEY_COMMA: u16 = 51;

pub const KEY_DOT: u16 = 52;

pub const KEY_SLASH: u16 = 53;

pub const KEY_CAPSLOCK: u16 = 58;

pub const KEY_F1: u16 = 59;

pub const KEY_F2: u16 = 60;

pub const KEY_F3: u16 = 61;

pub const KEY_F4: u16 = 62;

pub const KEY_F5: u16 = 63;

pub const KEY_F6: u16 = 64;

pub const KEY_F7: u16 = 65;

pub const KEY_F8: u16 = 66;

pub const KEY_F9: u16 = 67;

pub const KEY_F10: u16 = 68;

pub const KEY_F11: u16 = 87;

pub const KEY_F12: u16 = 88;

pub const KEY_SYSRQ: u16 = 99;

pub const KEY_SCROLLLOCK: u16 = 70;

pub const KEY_PAUSE: u16 = 119;

pub const KEY_INSERT: u16 = 110;

pub const KEY_HOME: u16 = 102;

pub const KEY_PAGEUP: u16 = 104;

pub const KEY_DELETE: u16 = 111;

pub const KEY_END: u16 = 107;

pub const KEY_PAGEDOWN: u16 = 109;

pub const KEY_RIGHT: u16 = 106;

pub const KEY_LEFT: u16 = 105;

pub const KEY_DOWN: u16 = 108;

pub const KEY_UP: u16 = 103;

pub const KEY_NUMLOCK: u16 = 69;

pub const KEY_KPSLASH: u16 = 98;

pub const KEY_KPASTERISK: u16 = 55;

pub const KEY_KPMINUS: u16 = 74;

pub const KEY_KPPLUS: u16 = 78;

pub const KEY_KPENTER: u16 = 96;

pub const KEY_KP1: u16 = 79;

pub const KEY_KP2: u16 = 80;

pub const KEY_KP3: u16 = 81;

pub const KEY_KP4: u16 = 75;

pub const KEY_KP5: u16 = 76;

pub const KEY_KP6: u16 = 77;

pub const KEY_KP7: u16 = 71;

pub const KEY_KP8: u16 = 72;

pub const KEY_KP9: u16 = 73;

pub const KEY_KP0: u16 = 82;

pub const KEY_KPDOT: u16 = 83;

pub const KEY_102ND: u16 = 86;

pub const KEY_COMPOSE: u16 = 127;

pub const KEY_KPEQUAL: u16 = 117;

pub const KEY_F13: u16 = 183;

pub const KEY_F14: u16 = 184;

pub const KEY_F15: u16 = 185;

pub const KEY_F16: u16 = 186;

pub const KEY_F17: u16 = 187;

pub const KEY_F18: u16 = 188;

pub const KEY_F19: u16 = 189;

pub const KEY_F20: u16 = 190;

pub const KEY_F21: u16 = 191;

pub const KEY_F22: u16 = 192;

pub const KEY_F23: u16 = 193;

pub const KEY_F24: u16 = 194;

pub const KEY_KPCOMMA: u16 = 121;

pub const KEY_RO: u16 = 89;

pub const KEY_YEN: u16 = 124;

pub const KEY_LEFTCTRL: u16 = 29;

pub const KEY_LEFTSHIFT: u16 = 42;

pub const KEY_LEFTALT: u16 = 56;

pub const KEY_LEFTMETA: u16 = 125;

pub const KEY_RIGHTCTRL: u16 = 97;

pub const KEY_RIGHTSHIFT: u16 = 54;

pub const KEY_RIGHTALT: u16 = 100;

pub const KEY_RIGHTMETA: u16 = 126;

pub const BTN_LEFT: u16 = 272;

pub const BTN_RIGHT: u16 = 273;

pub const BTN_MIDDLE: u16 = 274;

pub const BTN_SIDE: u16 = 275;

pub const BTN_EXTRA: u16 = 276;

/// The keyboard page of a usage.
pub const KEYBOARD_PAGE: u32 = 0x07;

/// The key code of a usage id on the keyboard page. Usages name physical keys, and so do key
/// codes; what the key types is up to the host's layout.
pub open spec fn key_of(id: u32) -> Option<u16> {
    match id {
        0x04 => Some(KEY_A),
        0x05 => Some(KEY_B),
        0x06 => Some(KEY_C),
        0x07 => Some(KEY_D),
        0x08 => Some(KEY_E),
        0x09 => Some(KEY_F),
        0x0a => Some(KEY_G),
        0x0b => Some(KEY_H),
        0x0c => Some(KEY_I),
        0x0d => Some(KEY_J),
        0x0e => Some(KEY_K),
        0x0f => Some(KEY_L),
        0x10 => Some(KEY_M),
        0x11 => Some(KEY_N),
        0x12 => Some(KEY_O),
        0x13 => Some(KEY_P),
        0x14 => Some(KEY_Q),
        0x15 => Some(KEY_R),
        0x16 => Some(KEY_S),
        0x17 => Some(KEY_T),
        0x18 => Some(KEY_U),
        0x19 => Some(KEY_V),
        0x1a => Some(KEY_W),
        0x1b => Some(KEY_X),
        0x1c => Some(KEY_Y),
        0x1d => Some(KEY_Z),
        0x1e => Some(KEY_1),
        0x1f => Some(KEY_2),
        0x20 => Some(KEY_3),
        0x21 => Some(KEY_4),
        0x22 => Some(KEY_5),
        0x23 => Some(KEY_6),
        0x24 => Some(KEY_7),
        0x25 => Some(KEY_8),
        0x26 => Some(KEY_9),
        0x27 => Some(KEY_0),
        0x28 => Some(KEY_ENTER),
        0x29 => Some(KEY_ESC),
        0x2a => Some(KEY_BACKSPACE),
        0x2b => Some(KEY_TAB),
        0x2c => Some(KEY_SPACE),
        0x2d => Some(KEY_MINUS),
        0x2e => Some(KEY_EQUAL),
        0x2f => Some(KEY_LEFTBRACE),
        0x30 => Some(KEY_RIGHTBRACE),
        0x31 => Some(KEY_BACKSLASH),
        0x33 => Some(KEY_SEMICOLON),
        0x34 => Some(KEY_APOSTROPHE),
        0x35 => Some(KEY_GRAVE),
        0x36 => Some(KEY_COMMA),
        0x37 => Some(KEY_DOT),
        0x38 => Some(KEY_SLASH),
        0x39 => Some(KEY_CAPSLOCK),
        0x3a => Some(KEY_F1),
        0x3b => Some(KEY_F2),
        0x3c => Some(KEY_F3),
        0x3d => Some(KEY_F4),
        0x3e => Some(KEY_F5),
        0x3f => Some(KEY_F6),
        0x40 => Some(KEY_F7),
        0x41 => Some(KEY_F8),
        0x42 => Some(KEY_F9),
        0x43 => Some(KEY_F10),
        0x44 => Some(KEY_F11),
        0x45 => Some(KEY_F12),
        0x46 => Some(KEY_SYSRQ),
        0x47 => Some(KEY_SCROLLLOCK),
        0x48 => Some(KEY_PAUSE),
        0x49 => Some(KEY_INSERT),
        0x4a => Some(KEY_HOME),
        0x4b => Some(KEY_PAGEUP),
        0x4c => Some(KEY_DELETE),
        0x4d => Some(KEY_END),
        0x4e => Some(KEY_PAGEDOWN),
        0x4f => Some(KEY_RIGHT),
        0x50 => Some(KEY_LEFT),
        0x51 => Some(KEY_DOWN),
        0x52 => Some(KEY_UP),
        0x53 => Some(KEY_NUMLOCK),
        0x54 => Some(KEY_KPSLASH),
        0x55 => Some(KEY_KPASTERISK),
        0x56 => Some(KEY_KPMINUS),
        0x57 => Some(KEY_KPPLUS),
        0x58 => Some(KEY_KPENTER),
        0x59 => Some(KEY_KP1),
        0x5a => Some(KEY_KP2),
        0x5b => Some(KEY_KP3),
        0x5c => Some(KEY_KP4),
        0x5d => Some(KEY_KP5),
        0x5e => Some(KEY_KP6),
        0x5f => Some(KEY_KP7),
        0x60 => Some(KEY_KP8),
        0x61 => Some(KEY_KP9),
        0x62 => Some(KEY_KP0),
        0x63 => Some(KEY_KPDOT),
        0x64 => Some(KEY_102ND),
        0x65 => Some(KEY_COMPOSE),
        0x67 => Some(KEY_KPEQUAL),
        0x68 => Some(KEY_F13),
        0x69 => Some(KEY_F14),
        0x6a => Some(KEY_F15),
        0x6b => Some(KEY_F16),
        0x6c => Some(KEY_F17),
        0x6d => Some(KEY_F18),
        0x6e => Some(KEY_F19),
        0x6f => Some(KEY_F20),
        0x70 => Some(KEY_F21),
        0x71 => Some(KEY_F22),
        0x72 => Some(KEY_F23),
        0x73 => Some(KEY_F24),
        0x85 => Some(KEY_KPCOMMA),
        0x87 => Some(KEY_RO),
        0x89 => Some(KEY_YEN),
        0xe0 => Some(KEY_LEFTCTRL),
        0xe1 => Some(KEY_LEFTSHIFT),
        0xe2 => Some(KEY_LEFTALT),
        0xe3 => Some(KEY_LEFTMETA),
        0xe4 => Some(KEY_RIGHTCTRL),
        0xe5 => Some(KEY_RIGHTSHIFT),
        0xe6 => Some(KEY_RIGHTALT),
        0xe7 => Some(KEY_RIGHTMETA),
        _ => None,
    }
}

/// The key code of a usage, if it is on the keyboard page and has one.
pub open spec fn code_of(usage: u32) -> Option<u16> {
    if usage / 0x1_0000 == KEYBOARD_PAGE {
        key_of(usage % 0x1_0000)
    } else {
        None
    }
}

/// The key code of a usage, if it is on the keyboard page and has one.
pub fn hid_to_evdev(usage: HidUsage) -> (r: Option<u16>)
    ensures
        r == code_of(usage.0),
{
    let page: u32 = usage.0 / 0x1_0000;
    let id: u32 = usage.0 % 0x1_0000;
    if page != KEYBOARD_PAGE {
        return None;
    }
    match id {
        0x04 => Some(KEY_A),
        0x05 => Some(KEY_B),
        0x06 => Some(KEY_C),
        0x07 => Some(KEY_D),
        0x08 => Some(KEY_E),
        0x09 => Some(KEY_F),
        0x0a => Some(KEY_G),
        0x0b => Some(KEY_H),
        0x0c => Some(KEY_I),
        0x0d => Some(KEY_J),
        0x0e => Some(KEY_K),
        0x0f => Some(KEY_L),
        0x10 => Some(KEY_M),
        0x11 => Some(KEY_N),
        0x12 => Some(KEY_O),
        0x13 => Some(KEY_P),
        0x14 => Some(KEY_Q),
        0x15 => Some(KEY_R),
        0x16 => Some(KEY_S),
        0x17 => Some(KEY_T),
        0x18 => Some(KEY_U),
        0x19 => Some(KEY_V),
        0x1a => Some(KEY_W),
        0x1b => Some(KEY_X),
        0x1c => Some(KEY_Y),
        0x1d => Some(KEY_Z),
        0x1e => Some(KEY_1),
        0x1f => Some(KEY_2),
        0x20 => Some(KEY_3),
        0x21 => Some(KEY_4),
        0x22 => Some(KEY_5),
        0x23 => Some(KEY_6),
        0x24 => Some(KEY_7),
        0x25 => Some(KEY_8),
        0x26 => Some(KEY_9),
        0x27 => Some(KEY_0),
        0x28 => Some(KEY_ENTER),
        0x29 => Some(KEY_ESC),
        0x2a => Some(KEY_BACKSPACE),
        0x2b => Some(KEY_TAB),
        0x2c => Some(KEY_SPACE),
        0x2d => Some(KEY_MINUS),
        0x2e => Some(KEY_EQUAL),
        0x2f => Some(KEY_LEFTBRACE),
        0x30 => Some(KEY_RIGHTBRACE),
        0x31 => Some(KEY_BACKSLASH),
        0x33 => Some(KEY_SEMICOLON),
        0x34 => Some(KEY_APOSTROPHE),
        0x35 => Some(KEY_GRAVE),
        0x36 => Some(KEY_COMMA),
        0x37 => Some(KEY_DOT),
        0x38 => Some(KEY_SLASH),
        0x39 => Some(KEY_CAPSLOCK),
        0x3a => Some(KEY_F1),
        0x3b => Some(KEY_F2),
        0x3c => Some(KEY_F3),
        0x3d => Some(KEY_F4),
        0x3e => Some(KEY_F5),
        0x3f => Some(KEY_F6),
        0x40 => Some(KEY_F7),
        0x41 => Some(KEY_F8),
        0x42 => Some(KEY_F9),
        0x43 => Some(KEY_F10),
        0x44 => Some(KEY_F11),
        0x45 => Some(KEY_F12),
        0x46 => Some(KEY_SYSRQ),
        0x47 => Some(KEY_SCROLLLOCK),
        0x48 => Some(KEY_PAUSE),
        0x49 => Some(KEY_INSERT),
        0x4a => Some(KEY_HOME),
        0x4b => Some(KEY_PAGEUP),
        0x4c => Some(KEY_DELETE),
        0x4d => Some(KEY_END),
        0x4e => Some(KEY_PAGEDOWN),
        0x4f => Some(KEY_RIGHT),
        0x50 => Some(KEY_LEFT),
        0x51 => Some(KEY_DOWN),
        0x52 => Some(KEY_UP),
        0x53 => Some(KEY_NUMLOCK),
        0x54 => Some(KEY_KPSLASH),
        0x55 => Some(KEY_KPASTERISK),
        0x56 => Some(KEY_KPMINUS),
        0x57 => Some(KEY_KPPLUS),
        0x58 => Some(KEY_KPENTER),
        0x59 => Some(KEY_KP1),
        0x5a => Some(KEY_KP2),
        0x5b => Some(KEY_KP3),
        0x5c => Some(KEY_KP4),
        0x5d => Some(KEY_KP5),
        0x5e => Some(KEY_KP6),
        0x5f => Some(KEY_KP7),
        0x60 => Some(KEY_KP8),
        0x61 => Some(KEY_KP9),
        0x62 => Some(KEY_KP0),
        0x63 => Some(KEY_KPDOT),
        0x64 => Some(KEY_102ND),
        0x65 => Some(KEY_COMPOSE),
        0x67 => Some(KEY_KPEQUAL),
        0x68 => Some(KEY_F13),
        0x69 => Some(KEY_F14),
        0x6a => Some(KEY_F15),
        0x6b => Some(KEY_F16),
        0x6c => Some(KEY_F17),
        0x6d => Some(KEY_F18),
        0x6e => Some(KEY_F19),
        0x6f => Some(KEY_F20),
        0x70 => Some(KEY_F21),
        0x71 => Some(KEY_F22),
        0x72 => Some(KEY_F23),
        0x73 => Some(KEY_F24),
        0x85 => Some(KEY_KPCOMMA),
        0x87 => Some(KEY_RO),
        0x89 => Some(KEY_YEN),
        0xe0 => Some(KEY_LEFTCTRL),
        0xe1 => Some(KEY_LEFTSHIFT),
        0xe2 => Some(KEY_LEFTALT),
        0xe3 => Some(KEY_LEFTMETA),
        0xe4 => Some(KEY_RIGHTCTRL),
        0xe5 => Some(KEY_RIGHTSHIFT),
        0xe6 => Some(KEY_RIGHTALT),
        0xe7 => Some(KEY_RIGHTMETA),
        _ => None,
    }
}

/// A keystroke on a US keyboard: the key, and whether shift is needed.
#[derive(Clone, Copy, Debug, PartialEq, Eq, Structural)]
pub struct KeyStroke {
    pub code: u16,
    pub shift: bool,
}

/// The key of the letter that is `offset` places behind the first.
pub open spec fn letter_key(offset: int) -> u16 {
    match key_of((0x04 + offset) as u32) {
        Some(code) => code,
        None => 0,
    }
}

/// The keystroke that types a character.
pub open spec fn stroke_of(c: char) -> Option<KeyStroke> {
    if 'a' <= c <= 'z' {
        Some(KeyStroke { code: letter_key(c as int - 'a' as int), shift: false })
    } else if 'A' <= c <= 'Z' {
        Some(KeyStroke { code: letter_key(c as int - 'A' as int), shift: true })
    } else {
        symbol_stroke(c)
    }
}

/// The keystroke that types a digit, a sign or white space.
pub open spec fn symbol_stroke(c: char) -> Option<KeyStroke> {
    match c {
        '1' => Some(KeyStroke { code: KEY_1, shift: false }),
        '2' => Some(KeyStroke { code: KEY_2, shift: false }),
        '3' => Some(KeyStroke { code: KEY_3, shift: false }),
        '4' => Some(KeyStroke { code: KEY_4, shift: false }),
        '5' => Some(KeyStroke { code: KEY_5, shift: false }),
        '6' => Some(KeyStroke { code: KEY_6, shift: false }),
        '7' => Some(KeyStroke { code: KEY_7, shift: false }),
        '8' => Some(KeyStroke { code: KEY_8, shift: false }),
        '9' => Some(KeyStroke { code: KEY_9, shift: false }),
        '0' => Some(KeyStroke { code: KEY_0, shift: false }),
        '!' => Some(KeyStroke { code: KEY_1, shift: true }),
        '@' => Some(KeyStroke { code: KEY_2, shift: true }),
        '#' => Some(KeyStroke { code: KEY_3, shift: true }),
        '$' => Some(KeyStroke { code: KEY_4, shift: true }),
        '%' => Some(KeyStroke { code: KEY_5, shift: true }),
        '^' => Some(KeyStroke { code: KEY_6, shift: true }),
        '&' => Some(KeyStroke { code: KEY_7, shift: true }),
        '*' => Some(KeyStroke { code: KEY_8, shift: true }),
        '(' => Some(KeyStroke { code: KEY_9, shift: true }),
        ')' => Some(KeyStroke { code: KEY_0, shift: true }),
        ' ' => Some(KeyStroke { code: KEY_SPACE, shift: false }),
        '\t' => Some(KeyStroke { code: KEY_TAB, shift: false }),
        '\n' | '\r' => Some(KeyStroke { code: KEY_ENTER, shift: false }),
        '-' => Some(KeyStroke { code: KEY_MINUS, shift: false }),
        '_' => Some(KeyStroke { code: KEY_MINUS, shift: true }),
        '=' => Some(KeyStroke { code: KEY_EQUAL, shift: false }),
        '+' => Some(KeyStroke { code: KEY_EQUAL, shift: true }),
        '[' => Some(KeyStroke { code: KEY_LEFTBRACE, shift: false }),
        '{' => Some(KeyStroke { code: KEY_LEFTBRACE, shift: true }),
        ']' => Some(KeyStroke { code: KEY_RIGHTBRACE, shift: false }),
        '}' => Some(KeyStroke { code: KEY_RIGHTBRACE, shift: true }),
        '\\' => Some(KeyStroke { code: KEY_BACKSLASH, shift: false }),
        '|' => Some(KeyStroke { code: KEY_BACKSLASH, shift: true }),
        ';' => Some(KeyStroke { code: KEY_SEMICOLON, shift: false }),
        ':' => Some(KeyStroke { code: KEY_SEMICOLON, shift: true }),
        '\'' => Some(KeyStroke { code: KEY_APOSTROPHE, shift: false }),
        '"' => Some(KeyStroke { code: KEY_APOSTROPHE, shift: true }),
        '`' => Some(KeyStroke { code: KEY_GRAVE, shift: false }),
        '~' => Some(KeyStroke { code: KEY_GRAVE, shift: true }),
        ',' => Some(KeyStroke { code: KEY_COMMA, shift: false }),
        '<' => Some(KeyStroke { code: KEY_COMMA, shift: true }),
        '.' => Some(KeyStroke { code: KEY_DOT, shift: false }),
        '>' => Some(KeyStroke { code: KEY_DOT, shift: true }),
        '/' => Some(KeyStroke { code: KEY_SLASH, shift: false }),
        '?' => Some(KeyStroke { code: KEY_SLASH, shift: true }),
        _ => None,
    }
}

/// The key of a small letter.
pub fn letter_keycode(c: char) -> (r: u16)
    requires
        'a' <= c <= 'z',
    ensures
        r == letter_key(c as int - 'a' as int),
        r != 0,
{
    let id: u32 = 0x04 + (c as u32 - 'a' as u32);
    match hid_to_evdev(HidUsage(0x0007_0000 + id)) {
        Some(code) => code,
        None => 0,
    }
}

/// The keystroke that types `c` on a US keyboard. Only printable ASCII, tab, line feed and
/// carriage return can be typed.
pub fn char_to_keystroke(c: char) -> (r: Option<KeyStroke>)
    ensures
        r == stroke_of(c),
{
    if 'a' <= c && c <= 'z' {
        return Some(KeyStroke { code: letter_keycode(c), shift: false });
    }
    if 'A' <= c && c <= 'Z' {
        let small: char = ((c as u8) + 32) as char;
        return Some(KeyStroke { code: letter_keycode(small), shift: true });
    }
    match c {
        '1' => Some(KeyStroke { code: KEY_1, shift: false }),
        '2' => Some(KeyStroke { code: KEY_2, shift: false }),
        '3' => Some(KeyStroke { code: KEY_3, shift: false }),
        '4' => Some(KeyStroke { code: KEY_4, shift: false }),
        '5' => Some(KeyStroke { code: KEY_5, shift: false }),
        '6' => Some(KeyStroke { code: KEY_6, shift: false }),
        '7' => Some(KeyStroke { code: KEY_7, shift: false }),
        '8' => Some(KeyStroke { code: KEY_8, shift: false }),
        '9' => Some(KeyStroke { code: KEY_9, shift: false }),
        '0' => Some(KeyStroke { code: KEY_0, shift: false }),
        '!' => Some(KeyStroke { code: KEY_1, shift: true }),
        '@' => Some(KeyStroke { code: KEY_2, shift: true }),
        '#' => Some(KeyStroke { code: KEY_3, shift: true }),
        '$' => Some(KeyStroke { code: KEY_4, shift: true }),
        '%' => Some(KeyStroke { code: KEY_5, shift: true }),
        '^' => Some(KeyStroke { code: KEY_6, shift: true }),
        '&' => Some(KeyStroke { code: KEY_7, shift: true }),
        '*' => Some(KeyStroke { code: KEY_8, shift: true }),
        '(' => Some(KeyStroke { code: KEY_9, shift: true }),
        ')' => Some(KeyStroke { code: KEY_0, shift: true }),
        ' ' => Some(KeyStroke { code: KEY_SPACE, shift: false }),
        '\t' => Some(KeyStroke { code: KEY_TAB, shift: false }),
        '\n' | '\r' => Some(KeyStroke { code: KEY_ENTER, shift: false }),
        '-' => Some(KeyStroke { code: KEY_MINUS, shift: false }),
        '_' => Some(KeyStroke { code: KEY_MINUS, shift: true }),
        '=' => Some(KeyStroke { code: KEY_EQUAL, shift: false }),
        '+' => Some(KeyStroke { code: KEY_EQUAL, shift: true }),
        '[' => Some(KeyStroke { code: KEY_LEFTBRACE, shift: false }),
        '{' => Some(KeyStroke { code: KEY_LEFTBRACE, shift: true }),
        ']' => Some(KeyStroke { code: KEY_RIGHTBRACE, shift: false }),
        '}' => Some(KeyStroke { code: KEY_RIGHTBRACE, shift: true }),
        '\\' => Some(KeyStroke { code: KEY_BACKSLASH, shift: false }),
        '|' => Some(KeyStroke { code: KEY_BACKSLASH, shift: true }),
        ';' => Some(KeyStroke { code: KEY_SEMICOLON, shift: false }),
        ':' => Some(KeyStroke { code: KEY_SEMICOLON, shift: true }),
        '\'' => Some(KeyStroke { code: KEY_APOSTROPHE, shift: false }),
        '"' => Some(KeyStroke { code: KEY_APOSTROPHE, shift: true }),
        '`' => Some(KeyStroke { code: KEY_GRAVE, shift: false }),
        '~' => Some(KeyStroke { code: KEY_GRAVE, shift: true }),
        ',' => Some(KeyStroke { code: KEY_COMMA, shift: false }),
        '<' => Some(KeyStroke { code: KEY_COMMA, shift: true }),
        '.' => Some(KeyStroke { code: KEY_DOT, shift: false }),
        '>' => Some(KeyStroke { code: KEY_DOT, shift: true }),
        '/' => Some(KeyStroke { code: KEY_SLASH, shift: false }),
        '?' => Some(KeyStroke { code: KEY_SLASH, shift: true }),
        _ => None,
    }
}

/// The code of a mouse button.
pub open spec fn button_code(b: MouseButton) -> u16 {
    match b {
        MouseButton::Left => BTN_LEFT,
        MouseButton::Right => BTN_RIGHT,
        MouseButton::Middle => BTN_MIDDLE,
        MouseButton::X1 => BTN_SIDE,
        MouseButton::X2 => BTN_EXTRA,
    }
}

/// The code of a mouse button.
pub fn proto_button_to_btn(b: MouseButton) -> (r: u16)
    ensures
        r == button_code(b),
{
    match b {
        MouseButton::Left => BTN_LEFT,
        MouseButton::Right => BTN_RIGHT,
        MouseButton::Middle => BTN_MIDDLE,
        MouseButton::X1 => BTN_SIDE,
        MouseButton::X2 => BTN_EXTRA,
    }
}

/// Some usage has this key code.
pub open spec fn is_key(code: u16) -> bool {
    exists|usage: u32| #[trigger] code_of(usage) == Some(code)
}

spec fn is_key_below(code: u16, n: u32) -> bool {
    exists|u: u32| u < n && #[trigger] key_of(u) == Some(code)
}

/// Every key that the virtual keyboard must announce: each key code that a usage has.
pub fn keyboard_keycodes() -> (r: KeySet)
    ensures
        forall|code: u16| #[trigger]
            crate::key_set::keys_in(r).contains(code) <==> is_key(code),
{
    let mut out: KeySet = empty_set();
    let mut id: u32 = 0;
    while id <= 0xe7
        invariant
            id <= 0xe8,
            forall|code: u16| #[trigger]
                crate::key_set::keys_in(out).contains(code) <==> is_key_below(code, id),
        decreases 0xe8 - id,
    {
        let ghost before = crate::key_set::keys_in(out);
        match hid_to_evdev(HidUsage(0x0007_0000 + id)) {
            Some(code) => {
                assert(key_of(id) == Some(code));
                insert_key(&mut out, code);
            },
            None => {},
        }
        proof {
            assert forall|code: u16| #[trigger]
                crate::key_set::keys_in(out).contains(code) <==> is_key_below(
                code,
                (id + 1) as u32,
            ) by {
                if is_key_below(code, id) {
                    let u = choose|u: u32| u < id && #[trigger] key_of(u) == Some(code);
                    assert(u < id + 1 && key_of(u) == Some(code));
                }
                if is_key_below(code, (id + 1) as u32) && !before.contains(code) {
                    let u = choose|u: u32| u < id + 1 && #[trigger] key_of(u) == Some(code);
                    assert(u == id);
                }
            }
        }
        id = id + 1;
    }
    proof {
        assert forall|code: u16| #[trigger]
            crate::key_set::keys_in(out).contains(code) <==> is_key(code) by {
            if is_key_below(code, id) {
                let u = choose|u: u32| u < id && #[trigger] key_of(u) == Some(code);
                assert(code_of((0x0007_0000 + u) as u32) == Some(code));
            }
            if is_key(code) {
                let usage = choose|usage: u32| #[trigger] code_of(usage) == Some(code);
                assert(key_of(usage % 0x1_0000) == Some(code));
            }
        }
    }
    out
}

/// The buttons that a virtual pointer must announce.
pub fn pointer_buttons() -> (r: KeySet)
    ensures
        crate::key_set::keys_in(r) == set![BTN_LEFT, BTN_RIGHT, BTN_MIDDLE, BTN_SIDE, BTN_EXTRA],
        forall|b: MouseButton| crate::key_set::keys_in(r).contains(#[trigger] button_code(b)),
{
    let mut set: KeySet = empty_set();
    insert_key(&mut set, BTN_LEFT);
    insert_key(&mut set, BTN_RIGHT);
    insert_key(&mut set, BTN_MIDDLE);
    insert_key(&mut set, BTN_SIDE);
    insert_key(&mut set, BTN_EXTRA);
    set
}

/// Two usages on the keyboard page never share a key.
pub proof fn usages_have_distinct_keys(a: u32, b: u32)
    requires
        key_of(a) is Some,
        key_of(a) == key_of(b),
    ensures
        a == b,
{
}

/// The characters that can be typed are printable ASCII, tab, line feed and carriage return.
pub proof fn ascii_can_be_typed(c: char)
    ensures
        stroke_of(c) is Some <==> ' ' <= c <= '~' || c == '\t' || c == '\n' || c == '\r',
{
}

/// Every keystroke presses a key that the virtual keyboard announces, and so does shift.
pub proof fn strokes_press_announced_keys(c: char)
    requires
        stroke_of(c) is Some,
    ensures
        is_key((stroke_of(c)->0).code),
        is_key(KEY_LEFTSHIFT),
{
    let code = (stroke_of(c)->0).code;
    assert(code_of(0x0007_00e1) == Some(KEY_LEFTSHIFT));
    if 'a' <= c <= 'z' {
        assert(code_of((0x0007_0004 + (c as int - 'a' as int)) as u32) == Some(code));
    } else if 'A' <= c <= 'Z' {
        assert(code_of((0x0007_0004 + (c as int - 'A' as int)) as u32) == Some(code));
    } else {
        assert(forall|id: u32|
            0x1e <= id <= 0x38 && #[trigger] key_of(id) == Some(code) ==> code_of(
                (0x0007_0000 + id) as u32,
            ) == Some(code));
        lemma_symbol_usage(c);
    }
}

/// The usage of the key that types a digit, a sign or white space.
proof fn lemma_symbol_usage(c: char) -> (id: u32)
    requires
        symbol_stroke(c) is Some,
    ensures
        0x1e <= id <= 0x38,
        key_of(id) == Some((symbol_stroke(c)->0).code),
{
    match c {
        '1' => 0x1e,
        '2' => 0x1f,
        '3' => 0x20,
        '4' => 0x21,
        '5' => 0x22,
        '6' => 0x23,
        '7' => 0x24,
        '8' => 0x25,
        '9' => 0x26,
        '0' => 0x27,
        '!' => 0x1e,
        '@' => 0x1f,
        '#' => 0x20,
        '$' => 0x21,
        '%' => 0x22,
        '^' => 0x23,
        '&' => 0x24,
        '*' => 0x25,
        '(' => 0x26,
        ')' => 0x27,
        ' ' => 0x2c,
        '\t' => 0x2b,
        '\n' | '\r' => 0x28,
        '-' => 0x2d,
        '_' => 0x2d,
        '=' => 0x2e,
        '+' => 0x2e,
        '[' => 0x2f,
        '{' => 0x2f,
        ']' => 0x30,
        '}' => 0x30,
        '\\' => 0x31,
        '|' => 0x31,
        ';' => 0x33,
        ':' => 0x33,
        '\'' => 0x34,
        '"' => 0x34,
        '`' => 0x35,
        '~' => 0x35,
        ',' => 0x36,
        '<' => 0x36,
        '.' => 0x37,
        '>' => 0x37,
        '/' => 0x38,
        '?' => 0x38,
        _ => 0,
    }
}

/// No character is typed by the shift key itself.
pub proof fn strokes_never_press_shift(c: char)
    requires
        stroke_of(c) is Some,
    ensures
        (stroke_of(c)->0).code != KEY_LEFTSHIFT,
{
    if 'a' <= c <= 'z' {
        lemma_letter_key(c as int - 'a' as int);
    } else if 'A' <= c <= 'Z' {
        lemma_letter_key(c as int - 'A' as int);
    }
}

/// Two characters are typed by one keystroke only if both end a line.
pub proof fn strokes_tell_characters_apart(a: char, b: char)
    requires
        stroke_of(a) is Some,
        stroke_of(a) == stroke_of(b),
    ensures
        a == b || (a == '\n' && b == '\r') || (a == '\r' && b == '\n'),
{
    if 'a' <= a <= 'z' {
        lemma_letter_key(a as int - 'a' as int);
    }
    if 'A' <= a <= 'Z' {
        lemma_letter_key(a as int - 'A' as int);
    }
    if 'a' <= b <= 'z' {
        lemma_letter_key(b as int - 'a' as int);
    }
    if 'A' <= b <= 'Z' {
        lemma_letter_key(b as int - 'A' as int);
    }
    if !('a' <= a <= 'z' || 'A' <= a <= 'Z') {
        let id = lemma_symbol_usage(a);
    }
    if !('a' <= b <= 'z' || 'A' <= b <= 'Z') {
        let id = lemma_symbol_usage(b);
    }
}

proof fn lemma_letter_key(offset: int)
    requires
        0 <= offset < 26,
    ensures
        key_of((0x04 + offset) as u32) == Some(letter_key(offset)),
{
}

/// Every key that a client can send has a key code.
pub proof fn sent_keys_have_codes(key: KeyCode)
    requires
        crate::keymap::usage_id(key) is Some,
    ensures
        code_of((crate::keymap::HID_KEYBOARD_BASE + crate::keymap::usage_id(key)->0) as u32) is Some,
        key_of(crate::keymap::usage_id(key)->0) is Some,
{
}

/// Two different keys that a client can send arrive as two different key codes.
pub proof fn sent_keys_stay_apart(a: KeyCode, b: KeyCode)
    requires
        crate::keymap::usage_id(a) is Some,
        crate::keymap::usage_id(b) is Some,
        a != b,
    ensures
        key_of(crate::keymap::usage_id(a)->0) != key_of(crate::keymap::usage_id(b)->0),
        code_of((crate::keymap::HID_KEYBOARD_BASE + crate::keymap::usage_id(a)->0) as u32)
            != code_of((crate::keymap::HID_KEYBOARD_BASE + crate::keymap::usage_id(b)->0) as u32),
{
    let ua = crate::keymap::usage_id(a)->0;
    let ub = crate::keymap::usage_id(b)->0;
    sent_keys_have_codes(a);
    sent_keys_have_codes(b);
    if ua == ub {
        crate::keymap::keys_have_distinct_usages(a, b);
    }
    if key_of(ua) == key_of(ub) {
        usages_have_distinct_keys(ua, ub);
    }
    crate::keymap::usages_lie_on_the_keyboard_page(a);
    crate::keymap::usages_lie_on_the_keyboard_page(b);
}

/// The key that the kernel lists under a code: first the keys of the AT keyboard in the order of
/// their scan codes, then those that later keyboards brought.
pub open spec fn key_with_code(code: u16) -> KeyCode {
    match code {
        1 => KeyCode::Escape,
        2 => KeyCode::Digit1,
        3 => KeyCode::Digit2,
        4 => KeyCode::Digit3,
        5 => KeyCode::Digit4,
        6 => KeyCode::Digit5,
        7 => KeyCode::Digit6,
        8 => KeyCode::Digit7,
        9 => KeyCode::Digit8,
        10 => KeyCode::Digit9,
        11 => KeyCode::Digit0,
        12 => KeyCode::Minus,
        13 => KeyCode::Equal,
        14 => KeyCode::Backspace,
        15 => KeyCode::Tab,
        16 => KeyCode::KeyQ,
        17 => KeyCode::KeyW,
        18 => KeyCode::KeyE,
        19 => KeyCode::KeyR,
        20 => KeyCode::KeyT,
        21 => KeyCode::KeyY,
        22 => KeyCode::KeyU,
        23 => KeyCode::KeyI,
        24 => KeyCode::KeyO,
        25 => KeyCode::KeyP,
        26 => KeyCode::BracketLeft,
        27 => KeyCode::BracketRight,
        28 => KeyCode::Enter,
        29 => KeyCode::ControlLeft,
        30 => KeyCode::KeyA,
        31 => KeyCode::KeyS,
        32 => KeyCode::KeyD,
        33 => KeyCode::KeyF,
        34 => KeyCode::KeyG,
        35 => KeyCode::KeyH,
        36 => KeyCode::KeyJ,
        37 => KeyCode::KeyK,
        38 => KeyCode::KeyL,
        39 => KeyCode::Semicolon,
        40 => KeyCode::Quote,
        41 => KeyCode::Backquote,
        42 => KeyCode::ShiftLeft,
        43 => KeyCode::Backslash,
        44 => KeyCode::KeyZ,
        45 => KeyCode::KeyX,
        46 => KeyCode::KeyC,
        47 => KeyCode::KeyV,
        48 => KeyCode::KeyB,
        49 => KeyCode::KeyN,
        50 => KeyCode::KeyM,
        51 => KeyCode::Comma,
        52 => KeyCode::Period,
        53 => KeyCode::Slash,
        54 => KeyCode::ShiftRight,
        55 => KeyCode::NumpadMultiply,
        56 => KeyCode::AltLeft,
        57 => KeyCode::Space,
        58 => KeyCode::CapsLock,
        59 => KeyCode::F1,
        60 => KeyCode::F2,
        61 => KeyCode::F3,
        62 => KeyCode::F4,
        63 => KeyCode::F5,
        64 => KeyCode::F6,
        65 => KeyCode::F7,
        66 => KeyCode::F8,
        67 => KeyCode::F9,
        68 => KeyCode::F10,
        69 => KeyCode::NumLock,
        70 => KeyCode::ScrollLock,
        71 => KeyCode::Numpad7,
        72 => KeyCode::Numpad8,
        73 => KeyCode::Numpad9,
        74 => KeyCode::NumpadSubtract,
        75 => KeyCode::Numpad4,
        76 => KeyCode::Numpad5,
        77 => KeyCode::Numpad6,
        78 => KeyCode::NumpadAdd,
        79 => KeyCode::Numpad1,
        80 => KeyCode::Numpad2,
        81 => KeyCode::Numpad3,
        82 => KeyCode::Numpad0,
        83 => KeyCode::NumpadDecimal,
        86 => KeyCode::IntlBackslash,
        87 => KeyCode::F11,
        88 => KeyCode::F12,
        89 => KeyCode::IntlRo,
        96 => KeyCode::NumpadEnter,
        97 => KeyCode::ControlRight,
        98 => KeyCode::NumpadDivide,
        99 => KeyCode::PrintScreen,
        100 => KeyCode::AltRight,
        102 => KeyCode::Home,
        103 => KeyCode::ArrowUp,
        104 => KeyCode::PageUp,
        105 => KeyCode::ArrowLeft,
        106 => KeyCode::ArrowRight,
        107 => KeyCode::End,
        108 => KeyCode::ArrowDown,
        109 => KeyCode::PageDown,
        110 => KeyCode::Insert,
        111 => KeyCode::Delete,
        117 => KeyCode::NumpadEqual,
        119 => KeyCode::Pause,
        121 => KeyCode::NumpadComma,
        124 => KeyCode::IntlYen,
        125 => KeyCode::SuperLeft,
        126 => KeyCode::SuperRight,
        127 => KeyCode::ContextMenu,
        183 => KeyCode::F13,
        184 => KeyCode::F14,
        185 => KeyCode::F15,
        186 => KeyCode::F16,
        187 => KeyCode::F17,
        188 => KeyCode::F18,
        189 => KeyCode::F19,
        190 => KeyCode::F20,
        191 => KeyCode::F21,
        192 => KeyCode::F22,
        193 => KeyCode::F23,
        194 => KeyCode::F24,
        _ => KeyCode::Other,
    }
}

/// The code under which a key of the client arrives, by way of its usage.
pub open spec fn arriving_code(key: KeyCode) -> Option<u16> {
    match crate::translator::wire_key(key) {
        Some(usage) => code_of(usage.0),
        None => None,
    }
}

/// A key that the client presses arrives as the code under which the kernel lists that same key:
/// reading the code back gives the key.
pub proof fn sent_keys_read_back(key: KeyCode)
    ensures
        key != KeyCode::Other ==> arriving_code(key) is Some,
        arriving_code(key) matches Some(code) ==> key_with_code(code) == key,
        arriving_code(KeyCode::Other) is None,
{
}

/// What the caps of a US keyboard's key show: what the key types by itself, and with shift.
pub open spec fn caps(key: KeyCode) -> Option<(char, char)> {
    match key {
        KeyCode::KeyA => Some(('a', 'A')),
        KeyCode::KeyB => Some(('b', 'B')),
        KeyCode::KeyC => Some(('c', 'C')),
        KeyCode::KeyD => Some(('d', 'D')),
        KeyCode::KeyE => Some(('e', 'E')),
        KeyCode::KeyF => Some(('f', 'F')),
        KeyCode::KeyG => Some(('g', 'G')),
        KeyCode::KeyH => Some(('h', 'H')),
        KeyCode::KeyI => Some(('i', 'I')),
        KeyCode::KeyJ => Some(('j', 'J')),
        KeyCode::KeyK => Some(('k', 'K')),
        KeyCode::KeyL => Some(('l', 'L')),
        KeyCode::KeyM => Some(('m', 'M')),
        KeyCode::KeyN => Some(('n', 'N')),
        KeyCode::KeyO => Some(('o', 'O')),
        KeyCode::KeyP => Some(('p', 'P')),
        KeyCode::KeyQ => Some(('q', 'Q')),
        KeyCode::KeyR => Some(('r', 'R')),
        KeyCode::KeyS => Some(('s', 'S')),
        KeyCode::KeyT => Some(('t', 'T')),
        KeyCode::KeyU => Some(('u', 'U')),
        KeyCode::KeyV => Some(('v', 'V')),
        KeyCode::KeyW => Some(('w', 'W')),
        KeyCode::KeyX => Some(('x', 'X')),
        KeyCode::KeyY => Some(('y', 'Y')),
        KeyCode::KeyZ => Some(('z', 'Z')),
        KeyCode::Digit1 => Some(('1', '!')),
        KeyCode::Digit2 => Some(('2', '@')),
        KeyCode::Digit3 => Some(('3', '#')),
        KeyCode::Digit4 => Some(('4', '$')),
        KeyCode::Digit5 => Some(('5', '%')),
        KeyCode::Digit6 => Some(('6', '^')),
        KeyCode::Digit7 => Some(('7', '&')),
        KeyCode::Digit8 => Some(('8', '*')),
        KeyCode::Digit9 => Some(('9', '(')),
        KeyCode::Digit0 => Some(('0', ')')),
        KeyCode::Minus => Some(('-', '_')),
        KeyCode::Equal => Some(('=', '+')),
        KeyCode::BracketLeft => Some(('[', '{')),
        KeyCode::BracketRight => Some((']', '}')),
        KeyCode::Backslash => Some(('\\', '|')),
        KeyCode::Semicolon => Some((';', ':')),
        KeyCode::Quote => Some(('\'', '"')),
        KeyCode::Backquote => Some(('`', '~')),
        KeyCode::Comma => Some((',', '<')),
        KeyCode::Period => Some(('.', '>')),
        KeyCode::Slash => Some(('/', '?')),
        _ => None,
    }
}

/// Each character on a key's caps is typed by that key, with shift exactly if it is the upper one.
/// Space, tab and line ends are typed by the keys named after them.
pub proof fn characters_are_typed_by_the_key_that_shows_them(key: KeyCode)
    ensures
        caps(key) matches Some((lower, upper)) ==> {
            &&& stroke_of(lower) matches Some(s) && Some(s.code) == arriving_code(key) && !s.shift
            &&& stroke_of(upper) matches Some(s) && Some(s.code) == arriving_code(key) && s.shift
        },
        stroke_of(' ') matches Some(s) && Some(s.code) == arriving_code(KeyCode::Space)
            && !s.shift,
        stroke_of('\t') matches Some(s) && Some(s.code) == arriving_code(KeyCode::Tab) && !s.shift,
        stroke_of('\n') matches Some(s) && Some(s.code) == arriving_code(KeyCode::Enter)
            && !s.shift,
        stroke_of('\r') == stroke_of('\n'),
{
}

/// The buttons lie one behind the other in the kernel's list, from the left one on: left, right,
/// middle, back and forward.
pub proof fn buttons_are_listed_in_order(b: MouseButton)
    ensures
        button_code(b) == 0x110 + (match b {
            MouseButton::Left => 0int,
            MouseButton::Right => 1,
            MouseButton::Middle => 2,
            MouseButton::X1 => 3,
            MouseButton::X2 => 4,
        }),
{
}

/// The keys of the virtual keyboard are those that some usage stands for, and no others.
pub proof fn keys_are_those_of_the_usages(usage: u32, code: u16)
    ensures
        code_of(usage) == Some(code) ==> is_key(code),
        (forall|u: u32| code_of(u) != Some(code)) ==> !is_key(code),
{
}

} // verus!
