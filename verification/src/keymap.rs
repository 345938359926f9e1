//! Physical keys of the window layer as HID keyboard usages.
use vstd::prelude::*;

use crate::protocol::{HidUsage, KeyCode};

verus! {

/// HID usage page "Keyboard / Keypad".
pub const HID_PAGE_KEYBOARD: u32 = 0x07;

/// What the page contributes to a packed usage.
pub const HID_KEYBOARD_BASE: u32 = 0x7_0000;

/// The packed usage of a keyboard usage id.
pub fn hid_keyboard(usage: u32) -> (r: HidUsage)
    requires
        usage <= 0xffff,
    ensures
        r.0 == HID_KEYBOARD_BASE + usage,
{
    assert((0x07u32 << 16) | usage == 0x7_0000 + usage) by (bit_vector)
        requires
            usage <= 0xffff,
    ;
    HidUsage((HID_PAGE_KEYBOARD << 16) | usage)
}

/// The keyboard usage id of a key, by the USB HID usage tables: letters, then the digits from 1
/// to 9 and 0, named keys, the function row, navigation, the keypad, the long function row,
/// international keys and the eight modifiers. Other keys have none.
pub open spec fn usage_id(code: KeyCode) -> Option<u32> {
    match code {
        KeyCode::KeyA => Some(0x04),
        KeyCode::KeyB => Some(0x05),
        KeyCode::KeyC => Some(0x06),
        KeyCode::KeyD => Some(0x07),
        KeyCode::KeyE => Some(0x08),
        KeyCode::KeyF => Some(0x09),
        KeyCode::KeyG => Some(0x0A),
        KeyCode::KeyH => Some(0x0B),
        KeyCode::KeyI => Some(0x0C),
        KeyCode::KeyJ => Some(0x0D),
        KeyCode::KeyK => Some(0x0E),
        KeyCode::KeyL => Some(0x0F),
        KeyCode::KeyM => Some(0x10),
        KeyCode::KeyN => Some(0x11),
        KeyCode::KeyO => Some(0x12),
        KeyCode::KeyP => Some(0x13),
        KeyCode::KeyQ => Some(0x14),
        KeyCode::KeyR => Some(0x15),
        KeyCode::KeyS => Some(0x16),
        KeyCode::KeyT => Some(0x17),
        KeyCode::KeyU => Some(0x18),
        KeyCode::KeyV => Some(0x19),
        KeyCode::KeyW => Some(0x1A),
        KeyCode::KeyX => Some(0x1B),
        KeyCode::KeyY => Some(0x1C),
        KeyCode::KeyZ => Some(0x1D),
        KeyCode::Digit1 => Some(0x1E),
        KeyCode::Digit2 => Some(0x1F),
        KeyCode::Digit3 => Some(0x20),
        KeyCode::Digit4 => Some(0x21),
        KeyCode::Digit5 => Some(0x22),
        KeyCode::Digit6 => Some(0x23),
        KeyCode::Digit7 => Some(0x24),
        KeyCode::Digit8 => Some(0x25),
        KeyCode::Digit9 => Some(0x26),
        KeyCode::Digit0 => Some(0x27),
        KeyCode::Enter => Some(0x28),
        KeyCode::Escape => Some(0x29),
        KeyCode::Backspace => Some(0x2A),
        KeyCode::Tab => Some(0x2B),
        KeyCode::Space => Some(0x2C),
        KeyCode::Minus => Some(0x2D),
        KeyCode::Equal => Some(0x2E),
        KeyCode::BracketLeft => Some(0x2F),
        KeyCode::BracketRight => Some(0x30),
        KeyCode::Backslash => Some(0x31),
        KeyCode::Semicolon => Some(0x33),
        KeyCode::Quote => Some(0x34),
        KeyCode::Backquote => Some(0x35),
        KeyCode::Comma => Some(0x36),
        KeyCode::Period => Some(0x37),
        KeyCode::Slash => Some(0x38),
        KeyCode::CapsLock => Some(0x39),
        KeyCode::F1 => Some(0x3A),
        KeyCode::F2 => Some(0x3B),
        KeyCode::F3 => Some(0x3C),
        KeyCode::F4 => Some(0x3D),
        KeyCode::F5 => Some(0x3E),
        KeyCode::F6 => Some(0x3F),
        KeyCode::F7 => Some(0x40),
        KeyCode::F8 => Some(0x41),
        KeyCode::F9 => Some(0x42),
        KeyCode::F10 => Some(0x43),
        KeyCode::F11 => Some(0x44),
        KeyCode::F12 => Some(0x45),
        KeyCode::PrintScreen => Some(0x46),
        KeyCode::ScrollLock => Some(0x47),
        KeyCode::Pause => Some(0x48),
        KeyCode::Insert => Some(0x49),
        KeyCode::Home => Some(0x4A),
        KeyCode::PageUp => Some(0x4B),
        KeyCode::Delete => Some(0x4C),
        KeyCode::End => Some(0x4D),
        KeyCode::PageDown => Some(0x4E),
        KeyCode::ArrowRight => Some(0x4F),
        KeyCode::ArrowLeft => Some(0x50),
        KeyCode::ArrowDown => Some(0x51),
        KeyCode::ArrowUp => Some(0x52),
        KeyCode::NumLock => Some(0x53),
        KeyCode::NumpadDivide => Some(0x54),
        KeyCode::NumpadMultiply => Some(0x55),
        KeyCode::NumpadSubtract => Some(0x56),
        KeyCode::NumpadAdd => Some(0x57),
        KeyCode::NumpadEnter => Some(0x58),
        KeyCode::Numpad1 => Some(0x59),
        KeyCode::Numpad2 => Some(0x5A),
        KeyCode::Numpad3 => Some(0x5B),
        KeyCode::Numpad4 => Some(0x5C),
        KeyCode::Numpad5 => Some(0x5D),
        KeyCode::Numpad6 => Some(0x5E),
        KeyCode::Numpad7 => Some(0x5F),
        KeyCode::Numpad8 => Some(0x60),
        KeyCode::Numpad9 => Some(0x61),
        KeyCode::Numpad0 => Some(0x62),
        KeyCode::NumpadDecimal => Some(0x63),
        KeyCode::IntlBackslash => Some(0x64),
        KeyCode::ContextMenu => Some(0x65),
        KeyCode::NumpadEqual => Some(0x67),
        KeyCode::F13 => Some(0x68),
        KeyCode::F14 => Some(0x69),
        KeyCode::F15 => Some(0x6A),
        KeyCode::F16 => Some(0x6B),
        KeyCode::F17 => Some(0x6C),
        KeyCode::F18 => Some(0x6D),
        KeyCode::F19 => Some(0x6E),
        KeyCode::F20 => Some(0x6F),
        KeyCode::F21 => Some(0x70),
        KeyCode::F22 => Some(0x71),
        KeyCode::F23 => Some(0x72),
        KeyCode::F24 => Some(0x73),
        KeyCode::NumpadComma => Some(0x85),
        KeyCode::IntlRo => Some(0x87),
        KeyCode::IntlYen => Some(0x89),
        KeyCode::ControlLeft => Some(0xE0),
        KeyCode::ShiftLeft => Some(0xE1),
        KeyCode::AltLeft => Some(0xE2),
        KeyCode::SuperLeft => Some(0xE3),
        KeyCode::ControlRight => Some(0xE4),
        KeyCode::ShiftRight => Some(0xE5),
        KeyCode::AltRight => Some(0xE6),
        KeyCode::SuperRight => Some(0xE7),
        KeyCode::Other => None,
    }
}

/// Map a physical key to its HID keyboard usage. Keys beyond the table are dropped.
pub fn keycode_to_hid(code: KeyCode) -> (r: Option<HidUsage>)
    ensures
        r == match usage_id(code) {
            Some(u) => Some(HidUsage((HID_KEYBOARD_BASE + u) as u32)),
            None => None,
        },
{
    let usage: Option<u32> = match code {
        KeyCode::KeyA => Some(0x04),
        KeyCode::KeyB => Some(0x05),
        KeyCode::KeyC => Some(0x06),
        KeyCode::KeyD => Some(0x07),
        KeyCode::KeyE => Some(0x08),
        KeyCode::KeyF => Some(0x09),
        KeyCode::KeyG => Some(0x0A),
        KeyCode::KeyH => Some(0x0B),
        KeyCode::KeyI => Some(0x0C),
        KeyCode::KeyJ => Some(0x0D),
        KeyCode::KeyK => Some(0x0E),
        KeyCode::KeyL => Some(0x0F),
        KeyCode::KeyM => Some(0x10),
        KeyCode::KeyN => Some(0x11),
        KeyCode::KeyO => Some(0x12),
        KeyCode::KeyP => Some(0x13),
        KeyCode::KeyQ => Some(0x14),
        KeyCode::KeyR => Some(0x15),
        KeyCode::KeyS => Some(0x16),
        KeyCode::KeyT => Some(0x17),
        KeyCode::KeyU => Some(0x18),
        KeyCode::KeyV => Some(0x19),
        KeyCode::KeyW => Some(0x1A),
        KeyCode::KeyX => Some(0x1B),
        KeyCode::KeyY => Some(0x1C),
        KeyCode::KeyZ => Some(0x1D),
        KeyCode::Digit1 => Some(0x1E),
        KeyCode::Digit2 => Some(0x1F),
        KeyCode::Digit3 => Some(0x20),
        KeyCode::Digit4 => Some(0x21),
        KeyCode::Digit5 => Some(0x22),
        KeyCode::Digit6 => Some(0x23),
        KeyCode::Digit7 => Some(0x24),
        KeyCode::Digit8 => Some(0x25),
        KeyCode::Digit9 => Some(0x26),
        KeyCode::Digit0 => Some(0x27),
        KeyCode::Enter => Some(0x28),
        KeyCode::Escape => Some(0x29),
        KeyCode::Backspace => Some(0x2A),
        KeyCode::Tab => Some(0x2B),
        KeyCode::Space => Some(0x2C),
        KeyCode::Minus => Some(0x2D),
        KeyCode::Equal => Some(0x2E),
        KeyCode::BracketLeft => Some(0x2F),
        KeyCode::BracketRight => Some(0x30),
        KeyCode::Backslash => Some(0x31),
        KeyCode::Semicolon => Some(0x33),
        KeyCode::Quote => Some(0x34),
        KeyCode::Backquote => Some(0x35),
        KeyCode::Comma => Some(0x36),
        KeyCode::Period => Some(0x37),
        KeyCode::Slash => Some(0x38),
        KeyCode::CapsLock => Some(0x39),
        KeyCode::F1 => Some(0x3A),
        KeyCode::F2 => Some(0x3B),
        KeyCode::F3 => Some(0x3C),
        KeyCode::F4 => Some(0x3D),
        KeyCode::F5 => Some(0x3E),
        KeyCode::F6 => Some(0x3F),
        KeyCode::F7 => Some(0x40),
        KeyCode::F8 => Some(0x41),
        KeyCode::F9 => Some(0x42),
        KeyCode::F10 => Some(0x43),
        KeyCode::F11 => Some(0x44),
        KeyCode::F12 => Some(0x45),
        KeyCode::PrintScreen => Some(0x46),
        KeyCode::ScrollLock => Some(0x47),
        KeyCode::Pause => Some(0x48),
        KeyCode::Insert => Some(0x49),
        KeyCode::Home => Some(0x4A),
        KeyCode::PageUp => Some(0x4B),
        KeyCode::Delete => Some(0x4C),
        KeyCode::End => Some(0x4D),
        KeyCode::PageDown => Some(0x4E),
        KeyCode::ArrowRight => Some(0x4F),
        KeyCode::ArrowLeft => Some(0x50),
        KeyCode::ArrowDown => Some(0x51),
        KeyCode::ArrowUp => Some(0x52),
        KeyCode::NumLock => Some(0x53),
        KeyCode::NumpadDivide => Some(0x54),
        KeyCode::NumpadMultiply => Some(0x55),
        KeyCode::NumpadSubtract => Some(0x56),
        KeyCode::NumpadAdd => Some(0x57),
        KeyCode::NumpadEnter => Some(0x58),
        KeyCode::Numpad1 => Some(0x59),
        KeyCode::Numpad2 => Some(0x5A),
        KeyCode::Numpad3 => Some(0x5B),
        KeyCode::Numpad4 => Some(0x5C),
        KeyCode::Numpad5 => Some(0x5D),
        KeyCode::Numpad6 => Some(0x5E),
        KeyCode::Numpad7 => Some(0x5F),
        KeyCode::Numpad8 => Some(0x60),
        KeyCode::Numpad9 => Some(0x61),
        KeyCode::Numpad0 => Some(0x62),
        KeyCode::NumpadDecimal => Some(0x63),
        KeyCode::IntlBackslash => Some(0x64),
        KeyCode::ContextMenu => Some(0x65),
        KeyCode::NumpadEqual => Some(0x67),
        KeyCode::F13 => Some(0x68),
        KeyCode::F14 => Some(0x69),
        KeyCode::F15 => Some(0x6A),
        KeyCode::F16 => Some(0x6B),
        KeyCode::F17 => Some(0x6C),
        KeyCode::F18 => Some(0x6D),
        KeyCode::F19 => Some(0x6E),
        KeyCode::F20 => Some(0x6F),
        KeyCode::F21 => Some(0x70),
        KeyCode::F22 => Some(0x71),
        KeyCode::F23 => Some(0x72),
        KeyCode::F24 => Some(0x73),
        KeyCode::NumpadComma => Some(0x85),
        KeyCode::IntlRo => Some(0x87),
        KeyCode::IntlYen => Some(0x89),
        KeyCode::ControlLeft => Some(0xE0),
        KeyCode::ShiftLeft => Some(0xE1),
        KeyCode::AltLeft => Some(0xE2),
        KeyCode::SuperLeft => Some(0xE3),
        KeyCode::ControlRight => Some(0xE4),
        KeyCode::ShiftRight => Some(0xE5),
        KeyCode::AltRight => Some(0xE6),
        KeyCode::SuperRight => Some(0xE7),
        KeyCode::Other => None,
    };
    match usage {
        Some(u) => Some(hid_keyboard(u)),
        None => None,
    }
}

/// The key with the given usage id, as the USB HID usage tables list it.
pub open spec fn key_with_usage(u: u32) -> KeyCode {
    if u == 0x04 {
        KeyCode::KeyA
    } else if u == 0x05 {
        KeyCode::KeyB
    } else if u == 0x06 {
        KeyCode::KeyC
    } else if u == 0x07 {
        KeyCode::KeyD
    } else if u == 0x08 {
        KeyCode::KeyE
    } else if u == 0x09 {
        KeyCode::KeyF
    } else if u == 0x0A {
        KeyCode::KeyG
    } else if u == 0x0B {
        KeyCode::KeyH
    } else if u == 0x0C {
        KeyCode::KeyI
    } else if u == 0x0D {
        KeyCode::KeyJ
    } else if u == 0x0E {
        KeyCode::KeyK
    } else if u == 0x0F {
        KeyCode::KeyL
    } else if u == 0x10 {
        KeyCode::KeyM
    } else if u == 0x11 {
        KeyCode::KeyN
    } else if u == 0x12 {
        KeyCode::KeyO
    } else if u == 0x13 {
        KeyCode::KeyP
    } else if u == 0x14 {
        KeyCode::KeyQ
    } else if u == 0x15 {
        KeyCode::KeyR
    } else if u == 0x16 {
        KeyCode::KeyS
    } else if u == 0x17 {
        KeyCode::KeyT
    } else if u == 0x18 {
        KeyCode::KeyU
    } else if u == 0x19 {
        KeyCode::KeyV
    } else if u == 0x1A {
        KeyCode::KeyW
    } else if u == 0x1B {
        KeyCode::KeyX
    } else if u == 0x1C {
        KeyCode::KeyY
    } else if u == 0x1D {
        KeyCode::KeyZ
    } else if u == 0x1E {
        KeyCode::Digit1
    } else if u == 0x1F {
        KeyCode::Digit2
    } else if u == 0x20 {
        KeyCode::Digit3
    } else if u == 0x21 {
        KeyCode::Digit4
    } else if u == 0x22 {
        KeyCode::Digit5
    } else if u == 0x23 {
        KeyCode::Digit6
    } else if u == 0x24 {
        KeyCode::Digit7
    } else if u == 0x25 {
        KeyCode::Digit8
    } else if u == 0x26 {
        KeyCode::Digit9
    } else if u == 0x27 {
        KeyCode::Digit0
    } else if u == 0x28 {
        KeyCode::Enter
    } else if u == 0x29 {
        KeyCode::Escape
    } else if u == 0x2A {
        KeyCode::Backspace
    } else if u == 0x2B {
        KeyCode::Tab
    } else if u == 0x2C {
        KeyCode::Space
    } else if u == 0x2D {
        KeyCode::Minus
    } else if u == 0x2E {
        KeyCode::Equal
    } else if u == 0x2F {
        KeyCode::BracketLeft
    } else if u == 0x30 {
        KeyCode::BracketRight
    } else if u == 0x31 {
        KeyCode::Backslash
    } else if u == 0x33 {
        KeyCode::Semicolon
    } else if u == 0x34 {
        KeyCode::Quote
    } else if u == 0x35 {
        KeyCode::Backquote
    } else if u == 0x36 {
        KeyCode::Comma
    } else if u == 0x37 {
        KeyCode::Period
    } else if u == 0x38 {
        KeyCode::Slash
    } else if u == 0x39 {
        KeyCode::CapsLock
    } else if u == 0x3A {
        KeyCode::F1
    } else if u == 0x3B {
        KeyCode::F2
    } else if u == 0x3C {
        KeyCode::F3
    } else if u == 0x3D {
        KeyCode::F4
    } else if u == 0x3E {
        KeyCode::F5
    } else if u == 0x3F {
        KeyCode::F6
    } else if u == 0x40 {
        KeyCode::F7
    } else if u == 0x41 {
        KeyCode::F8
    } else if u == 0x42 {
        KeyCode::F9
    } else if u == 0x43 {
        KeyCode::F10
    } else if u == 0x44 {
        KeyCode::F11
    } else if u == 0x45 {
        KeyCode::F12
    } else if u == 0x46 {
        KeyCode::PrintScreen
    } else if u == 0x47 {
        KeyCode::ScrollLock
    } else if u == 0x48 {
        KeyCode::Pause
    } else if u == 0x49 {
        KeyCode::Insert
    } else if u == 0x4A {
        KeyCode::Home
    } else if u == 0x4B {
        KeyCode::PageUp
    } else if u == 0x4C {
        KeyCode::Delete
    } else if u == 0x4D {
        KeyCode::End
    } else if u == 0x4E {
        KeyCode::PageDown
    } else if u == 0x4F {
        KeyCode::ArrowRight
    } else if u == 0x50 {
        KeyCode::ArrowLeft
    } else if u == 0x51 {
        KeyCode::ArrowDown
    } else if u == 0x52 {
        KeyCode::ArrowUp
    } else if u == 0x53 {
        KeyCode::NumLock
    } else if u == 0x54 {
        KeyCode::NumpadDivide
    } else if u == 0x55 {
        KeyCode::NumpadMultiply
    } else if u == 0x56 {
        KeyCode::NumpadSubtract
    } else if u == 0x57 {
        KeyCode::NumpadAdd
    } else if u == 0x58 {
        KeyCode::NumpadEnter
    } else if u == 0x59 {
        KeyCode::Numpad1
    } else if u == 0x5A {
        KeyCode::Numpad2
    } else if u == 0x5B {
        KeyCode::Numpad3
    } else if u == 0x5C {
        KeyCode::Numpad4
    } else if u == 0x5D {
        KeyCode::Numpad5
    } else if u == 0x5E {
        KeyCode::Numpad6
    } else if u == 0x5F {
        KeyCode::Numpad7
    } else if u == 0x60 {
        KeyCode::Numpad8
    } else if u == 0x61 {
        KeyCode::Numpad9
    } else if u == 0x62 {
        KeyCode::Numpad0
    } else if u == 0x63 {
        KeyCode::NumpadDecimal
    } else if u == 0x64 {
        KeyCode::IntlBackslash
    } else if u == 0x65 {
        KeyCode::ContextMenu
    } else if u == 0x67 {
        KeyCode::NumpadEqual
    } else if u == 0x68 {
        KeyCode::F13
    } else if u == 0x69 {
        KeyCode::F14
    } else if u == 0x6A {
        KeyCode::F15
    } else if u == 0x6B {
        KeyCode::F16
    } else if u == 0x6C {
        KeyCode::F17
    } else if u == 0x6D {
        KeyCode::F18
    } else if u == 0x6E {
        KeyCode::F19
    } else if u == 0x6F {
        KeyCode::F20
    } else if u == 0x70 {
        KeyCode::F21
    } else if u == 0x71 {
        KeyCode::F22
    } else if u == 0x72 {
        KeyCode::F23
    } else if u == 0x73 {
        KeyCode::F24
    } else if u == 0x85 {
        KeyCode::NumpadComma
    } else if u == 0x87 {
        KeyCode::IntlRo
    } else if u == 0x89 {
        KeyCode::IntlYen
    } else if u == 0xE0 {
        KeyCode::ControlLeft
    } else if u == 0xE1 {
        KeyCode::ShiftLeft
    } else if u == 0xE2 {
        KeyCode::AltLeft
    } else if u == 0xE3 {
        KeyCode::SuperLeft
    } else if u == 0xE4 {
        KeyCode::ControlRight
    } else if u == 0xE5 {
        KeyCode::ShiftRight
    } else if u == 0xE6 {
        KeyCode::AltRight
    } else if u == 0xE7 {
        KeyCode::SuperRight
    } else {
        KeyCode::Other
    }
}

/// No two keys share a usage: what the host receives tells which key was pressed.
pub proof fn keys_have_distinct_usages(a: KeyCode, b: KeyCode)
    requires
        usage_id(a) is Some,
        usage_id(a) == usage_id(b),
    ensures
        a == b,
{
    assert(key_with_usage(usage_id(a)->0) == a);
    assert(key_with_usage(usage_id(b)->0) == b);
}

/// Every usage lies on the keyboard page: between the first letter and the last modifier.
pub proof fn usages_lie_on_the_keyboard_page(code: KeyCode)
    requires
        usage_id(code) is Some,
    ensures
        0x04 <= usage_id(code)->0 <= 0xe7,
{
}

/// A key has the usage under which the tables list it, and only the keys of the tables have one:
/// reading a usage back gives the key that was pressed.
pub proof fn usages_read_back_as_their_keys(code: KeyCode, u: u32)
    ensures
        usage_id(code) is Some <==> code != KeyCode::Other,
        code != KeyCode::Other ==> key_with_usage(usage_id(code)->0) == code,
        key_with_usage(u) != KeyCode::Other ==> usage_id(key_with_usage(u)) == Some(u),
{
}

} // verus!
