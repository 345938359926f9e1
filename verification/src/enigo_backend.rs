//! The backend of macOS and Windows, and of Linux through the desktop's own input library.
//!
//! As with the virtual devices, an event asks for a plan: calls of the host's input library, and
//! changes of what the backend knows, in order, up to the first call that fails. Here keys and
//! buttons alike are noted only once the call succeeded.
use vstd::prelude::*;

use crate::held::{each_button, ButtonSet, HeldKeys};
use crate::inject::{clamp_relative_delta, is_out_of_order, MAX_REL_DELTA_PX};
use crate::modifiers::{
    carry_out, left_usage, modifier_bit_of, reconcile_modifiers, ModBit, ModifierFix,
};
use crate::protocol::{
    ClientCursorPacket, HidUsage, InputEvent, InputEventKind, KeyCode, Modifiers, MouseButton,
    ScrollKind, SingleBits,
};
use crate::single::{project, round_to_i32};

verus! {

/// The system that the host runs on.
#[derive(Clone, Copy, Debug, PartialEq, Eq, Structural)]
pub enum Platform {
    Linux,
    MacOs,
    Windows,
}

/// A key of the host's input library.
#[derive(Clone, Copy, Debug, PartialEq, Eq, Structural)]
pub enum HostKey {
    /// The key that types a character.
    Unicode(char),
    Return,
    Escape,
    Backspace,
    Tab,
    Space,
    CapsLock,
    F1,
    F2,
    F3,
    F4,
    F5,
    F6,
    F7,
    F8,
    F9,
    F10,
    F11,
    F12,
    PrintScr,
    ScrollLock,
    Pause,
    Insert,
    Home,
    PageUp,
    Delete,
    End,
    PageDown,
    RightArrow,
    LeftArrow,
    DownArrow,
    UpArrow,
    Numlock,
    Divide,
    Multiply,
    Subtract,
    Add,
    Numpad1,
    Numpad2,
    Numpad3,
    Numpad4,
    Numpad5,
    Numpad6,
    Numpad7,
    Numpad8,
    Numpad9,
    Numpad0,
    Decimal,
    F13,
    F14,
    F15,
    F16,
    F17,
    F18,
    F19,
    F20,
    F21,
    F22,
    F23,
    F24,
    LControl,
    LShift,
    Alt,
    Meta,
    RControl,
    RShift,
    ROption,
}

/// A button of the host's input library.
#[derive(Clone, Copy, Debug, PartialEq, Eq, Structural)]
pub enum HostButton {
    Left,
    Right,
    Middle,
    Back,
    Forward,
}

/// The library knows the key on Linux only.
pub open spec fn spec_linux(platform: Platform, key: HostKey) -> Option<HostKey> {
    if platform == Platform::Linux {
        Some(key)
    } else {
        None
    }
}

/// Only macOS tells the right alt key from the left.
pub open spec fn spec_right_alt(platform: Platform) -> HostKey {
    if platform == Platform::MacOs {
        HostKey::ROption
    } else {
        HostKey::Alt
    }
}

/// The key of a usage id on the keyboard page, but for letters and digits.
pub open spec fn named_key(platform: Platform, id: u32) -> Option<HostKey> {
    match id {
        0x27 => Some(HostKey::Unicode('0')),
        0x28 => Some(HostKey::Return),
        0x29 => Some(HostKey::Escape),
        0x2a => Some(HostKey::Backspace),
        0x2b => Some(HostKey::Tab),
        0x2c => Some(HostKey::Space),
        0x2d => Some(HostKey::Unicode('-')),
        0x2e => Some(HostKey::Unicode('=')),
        0x2f => Some(HostKey::Unicode('[')),
        0x30 => Some(HostKey::Unicode(']')),
        0x31 => Some(HostKey::Unicode('\\')),
        0x33 => Some(HostKey::Unicode(';')),
        0x34 => Some(HostKey::Unicode('\'')),
        0x35 => Some(HostKey::Unicode('`')),
        0x36 => Some(HostKey::Unicode(',')),
        0x37 => Some(HostKey::Unicode('.')),
        0x38 => Some(HostKey::Unicode('/')),
        0x39 => Some(HostKey::CapsLock),
        0x3a => Some(HostKey::F1),
        0x3b => Some(HostKey::F2),
        0x3c => Some(HostKey::F3),
        0x3d => Some(HostKey::F4),
        0x3e => Some(HostKey::F5),
        0x3f => Some(HostKey::F6),
        0x40 => Some(HostKey::F7),
        0x41 => Some(HostKey::F8),
        0x42 => Some(HostKey::F9),
        0x43 => Some(HostKey::F10),
        0x44 => Some(HostKey::F11),
        0x45 => Some(HostKey::F12),
        0x46 => spec_linux(platform, HostKey::PrintScr),
        0x47 => spec_linux(platform, HostKey::ScrollLock),
        0x48 => spec_linux(platform, HostKey::Pause),
        0x49 => spec_linux(platform, HostKey::Insert),
        0x4a => Some(HostKey::Home),
        0x4b => Some(HostKey::PageUp),
        0x4c => Some(HostKey::Delete),
        0x4d => Some(HostKey::End),
        0x4e => Some(HostKey::PageDown),
        0x4f => Some(HostKey::RightArrow),
        0x50 => Some(HostKey::LeftArrow),
        0x51 => Some(HostKey::DownArrow),
        0x52 => Some(HostKey::UpArrow),
        0x53 => spec_linux(platform, HostKey::Numlock),
        0x54 => Some(HostKey::Divide),
        0x55 => Some(HostKey::Multiply),
        0x56 => Some(HostKey::Subtract),
        0x57 => Some(HostKey::Add),
        0x58 => Some(HostKey::Return),
        0x59 => Some(HostKey::Numpad1),
        0x5a => Some(HostKey::Numpad2),
        0x5b => Some(HostKey::Numpad3),
        0x5c => Some(HostKey::Numpad4),
        0x5d => Some(HostKey::Numpad5),
        0x5e => Some(HostKey::Numpad6),
        0x5f => Some(HostKey::Numpad7),
        0x60 => Some(HostKey::Numpad8),
        0x61 => Some(HostKey::Numpad9),
        0x62 => Some(HostKey::Numpad0),
        0x63 => Some(HostKey::Decimal),
        0x67 => Some(HostKey::Unicode('=')),
        0x68 => Some(HostKey::F13),
        0x69 => Some(HostKey::F14),
        0x6a => Some(HostKey::F15),
        0x6b => Some(HostKey::F16),
        0x6c => Some(HostKey::F17),
        0x6d => Some(HostKey::F18),
        0x6e => Some(HostKey::F19),
        0x6f => Some(HostKey::F20),
        0x70 => spec_linux(platform, HostKey::F21),
        0x71 => spec_linux(platform, HostKey::F22),
        0x72 => spec_linux(platform, HostKey::F23),
        0x73 => spec_linux(platform, HostKey::F24),
        0x85 => Some(HostKey::Unicode(',')),
        0xe0 => Some(HostKey::LControl),
        0xe1 => Some(HostKey::LShift),
        0xe2 => Some(HostKey::Alt),
        0xe3 => Some(HostKey::Meta),
        0xe4 => Some(HostKey::RControl),
        0xe5 => Some(HostKey::RShift),
        0xe6 => Some(spec_right_alt(platform)),
        0xe7 => Some(HostKey::Meta),
        _ => None,
    }
}

/// The key of a usage id on the keyboard page.
pub open spec fn host_key_of_id(platform: Platform, id: u32) -> Option<HostKey> {
    if 0x04 <= id <= 0x1d {
        Some(HostKey::Unicode(('a' as int + (id - 0x04)) as char))
    } else if 0x1e <= id <= 0x26 {
        Some(HostKey::Unicode(('1' as int + (id - 0x1e)) as char))
    } else {
        named_key(platform, id)
    }
}

/// The key of a usage, if it is on the keyboard page and has one on this platform.
pub open spec fn host_key_of(platform: Platform, usage: u32) -> Option<HostKey> {
    if usage / 0x1_0000 == crate::evdev_keys::KEYBOARD_PAGE {
        host_key_of_id(platform, usage % 0x1_0000)
    } else {
        None
    }
}

fn only_on_linux(platform: Platform, key: HostKey) -> (r: Option<HostKey>)
    ensures
        r == spec_linux(platform, key),
{
    match platform {
        Platform::Linux => Some(key),
        _ => None,
    }
}

fn right_alt(platform: Platform) -> (r: HostKey)
    ensures
        r == spec_right_alt(platform),
{
    match platform {
        Platform::MacOs => HostKey::ROption,
        _ => HostKey::Alt,
    }
}

/// The key of a usage, if it is on the keyboard page and has one on this platform.
pub fn hid_to_enigo(platform: Platform, usage: HidUsage) -> (r: Option<HostKey>)
    ensures
        r == host_key_of(platform, usage.0),
{
    let page: u32 = usage.0 / 0x1_0000;
    let id: u32 = usage.0 % 0x1_0000;
    if page != crate::evdev_keys::KEYBOARD_PAGE {
        return None;
    }
    if 0x04 <= id && id <= 0x1d {
        return Some(HostKey::Unicode((97u8 + (id - 0x04) as u8) as char));
    }
    if 0x1e <= id && id <= 0x26 {
        return Some(HostKey::Unicode((49u8 + (id - 0x1e) as u8) as char));
    }
    match id {
        0x27 => Some(HostKey::Unicode('0')),
        0x28 => Some(HostKey::Return),
        0x29 => Some(HostKey::Escape),
        0x2a => Some(HostKey::Backspace),
        0x2b => Some(HostKey::Tab),
        0x2c => Some(HostKey::Space),
        0x2d => Some(HostKey::Unicode('-')),
        0x2e => Some(HostKey::Unicode('=')),
        0x2f => Some(HostKey::Unicode('[')),
        0x30 => Some(HostKey::Unicode(']')),
        0x31 => Some(HostKey::Unicode('\\')),
        0x33 => Some(HostKey::Unicode(';')),
        0x34 => Some(HostKey::Unicode('\'')),
        0x35 => Some(HostKey::Unicode('`')),
        0x36 => Some(HostKey::Unicode(',')),
        0x37 => Some(HostKey::Unicode('.')),
        0x38 => Some(HostKey::Unicode('/')),
        0x39 => Some(HostKey::CapsLock),
        0x3a => Some(HostKey::F1),
        0x3b => Some(HostKey::F2),
        0x3c => Some(HostKey::F3),
        0x3d => Some(HostKey::F4),
        0x3e => Some(HostKey::F5),
        0x3f => Some(HostKey::F6),
        0x40 => Some(HostKey::F7),
        0x41 => Some(HostKey::F8),
        0x42 => Some(HostKey::F9),
        0x43 => Some(HostKey::F10),
        0x44 => Some(HostKey::F11),
        0x45 => Some(HostKey::F12),
        0x46 => only_on_linux(platform, HostKey::PrintScr),
        0x47 => only_on_linux(platform, HostKey::ScrollLock),
        0x48 => only_on_linux(platform, HostKey::Pause),
        0x49 => only_on_linux(platform, HostKey::Insert),
        0x4a => Some(HostKey::Home),
        0x4b => Some(HostKey::PageUp),
        0x4c => Some(HostKey::Delete),
        0x4d => Some(HostKey::End),
        0x4e => Some(HostKey::PageDown),
        0x4f => Some(HostKey::RightArrow),
        0x50 => Some(HostKey::LeftArrow),
        0x51 => Some(HostKey::DownArrow),
        0x52 => Some(HostKey::UpArrow),
        0x53 => only_on_linux(platform, HostKey::Numlock),
        0x54 => Some(HostKey::Divide),
        0x55 => Some(HostKey::Multiply),
        0x56 => Some(HostKey::Subtract),
        0x57 => Some(HostKey::Add),
        0x58 => Some(HostKey::Return),
        0x59 => Some(HostKey::Numpad1),
        0x5a => Some(HostKey::Numpad2),
        0x5b => Some(HostKey::Numpad3),
        0x5c => Some(HostKey::Numpad4),
        0x5d => Some(HostKey::Numpad5),
        0x5e => Some(HostKey::Numpad6),
        0x5f => Some(HostKey::Numpad7),
        0x60 => Some(HostKey::Numpad8),
        0x61 => Some(HostKey::Numpad9),
        0x62 => Some(HostKey::Numpad0),
        0x63 => Some(HostKey::Decimal),
        0x67 => Some(HostKey::Unicode('=')),
        0x68 => Some(HostKey::F13),
        0x69 => Some(HostKey::F14),
        0x6a => Some(HostKey::F15),
        0x6b => Some(HostKey::F16),
        0x6c => Some(HostKey::F17),
        0x6d => Some(HostKey::F18),
        0x6e => Some(HostKey::F19),
        0x6f => Some(HostKey::F20),
        0x70 => only_on_linux(platform, HostKey::F21),
        0x71 => only_on_linux(platform, HostKey::F22),
        0x72 => only_on_linux(platform, HostKey::F23),
        0x73 => only_on_linux(platform, HostKey::F24),
        0x85 => Some(HostKey::Unicode(',')),
        0xe0 => Some(HostKey::LControl),
        0xe1 => Some(HostKey::LShift),
        0xe2 => Some(HostKey::Alt),
        0xe3 => Some(HostKey::Meta),
        0xe4 => Some(HostKey::RControl),
        0xe5 => Some(HostKey::RShift),
        0xe6 => Some(right_alt(platform)),
        0xe7 => Some(HostKey::Meta),
        _ => None,
    }
}

/// The button of the host's input library.
pub open spec fn host_button(b: MouseButton) -> HostButton {
    match b {
        MouseButton::Left => HostButton::Left,
        MouseButton::Right => HostButton::Right,
        MouseButton::Middle => HostButton::Middle,
        MouseButton::X1 => HostButton::Back,
        MouseButton::X2 => HostButton::Forward,
    }
}

/// The button of the host's input library.
pub fn proto_button_to_enigo(b: MouseButton) -> (r: HostButton)
    ensures
        r == host_button(b),
{
    match b {
        MouseButton::Left => HostButton::Left,
        MouseButton::Right => HostButton::Right,
        MouseButton::Middle => HostButton::Middle,
        MouseButton::X1 => HostButton::Back,
        MouseButton::X2 => HostButton::Forward,
    }
}

/// The display size until the real one is known.
pub const FALLBACK_WIDTH: i32 = 1920;

/// The display size until the real one is known.
pub const FALLBACK_HEIGHT: i32 = 1080;

/// A call of the host's input library.
#[derive(Clone, Debug, PartialEq, Eq)]
pub enum HostCall {
    /// Press or release a modifier to bring it in line with the client.
    Reconcile { key: HostKey, press: bool },
    /// Press or release a key.
    Key { key: HostKey, press: bool },
    /// Type a text.
    Text { text: String },
    /// Press or release a button.
    Button { button: HostButton, press: bool },
    /// Move the pointer by an offset.
    MoveBy { dx: i32, dy: i32 },
    /// Scroll, down being positive.
    ScrollVertical { ticks: i32 },
    /// Scroll, right being positive.
    ScrollHorizontal { ticks: i32 },
    /// Move the pointer to a pixel.
    MoveTo { x: i32, y: i32 },
}

impl HostCall {
    /// What a failed call is called.
    pub open spec fn label(self) -> Seq<char> {
        match self {
            HostCall::Reconcile { .. } => "reconcile modifier"@,
            HostCall::Key { press, .. } => if press {
                "key down"@
            } else {
                "key up"@
            },
            HostCall::Text { .. } => "text"@,
            HostCall::Button { .. } => "button"@,
            HostCall::MoveBy { .. } => "relative move"@,
            HostCall::ScrollVertical { .. } => "scroll v"@,
            HostCall::ScrollHorizontal { .. } => "scroll h"@,
            HostCall::MoveTo { .. } => "move_mouse"@,
        }
    }

    /// What a failed call is called: the text before the colon and the library's own words.
    pub fn failure(&self) -> (r: &'static str)
        ensures
            r@ == self.label(),
    {
        match self {
            HostCall::Reconcile { .. } => "reconcile modifier",
            HostCall::Key { press, .. } => if *press {
                "key down"
            } else {
                "key up"
            },
            HostCall::Text { .. } => "text",
            HostCall::Button { .. } => "button",
            HostCall::MoveBy { .. } => "relative move",
            HostCall::ScrollVertical { .. } => "scroll v",
            HostCall::ScrollHorizontal { .. } => "scroll h",
            HostCall::MoveTo { .. } => "move_mouse",
        }
    }
}

/// Something that the backend takes note of.
#[derive(Clone, Copy, Debug, PartialEq, Eq, Structural)]
pub enum HostChange {
    /// A key was pressed.
    Pressed(HidUsage),
    /// A key was released.
    Released(HidUsage),
    /// A modifier was brought in line with the client.
    Reconciled(ModifierFix),
    /// A button was pressed.
    ButtonPressed(MouseButton),
    /// A button was released.
    ButtonReleased(MouseButton),
    /// A pointer position is applied.
    Positioned { seq: u32 },
}

/// One step of a plan.
#[derive(Clone, Debug, PartialEq, Eq)]
pub enum HostStep {
    /// Call the host's input library. If that fails, the rest of the plan is not carried out.
    Call(HostCall),
    /// Take note.
    Note(HostChange),
}

/// What the backend knows, as mathematics.
pub struct HostState {
    pub platform: Platform,
    /// The size of the display, in pixels.
    pub width: int,
    pub height: int,
    /// Whether the size is more than a guess.
    pub authoritative: bool,
    /// The keys that are held, by usage.
    pub keys: Set<u32>,
    /// The buttons that are held.
    pub buttons: ButtonSet,
    /// The number of the last pointer position that was applied.
    pub last_seq: Option<u32>,
}

/// The state once something was taken note of.
pub open spec fn after_change(st: HostState, change: HostChange) -> HostState {
    match change {
        HostChange::Pressed(key) => HostState { keys: st.keys.insert(key.0), ..st },
        HostChange::Released(key) => HostState { keys: st.keys.remove(key.0), ..st },
        HostChange::Reconciled(fix) => HostState {
            keys: crate::modifiers::after_fix(st.keys, fix),
            ..st
        },
        HostChange::ButtonPressed(b) => HostState { buttons: st.buttons.with(b, true), ..st },
        HostChange::ButtonReleased(b) => HostState { buttons: st.buttons.with(b, false), ..st },
        HostChange::Positioned { seq } => HostState { last_seq: Some(seq), ..st },
    }
}

/// What one step does.
pub open spec fn after_step(st: HostState, step: HostStep) -> HostState {
    match step {
        HostStep::Call(_) => st,
        HostStep::Note(change) => after_change(st, change),
    }
}

/// What steps do.
pub open spec fn stepping() -> spec_fn(HostState, HostStep) -> HostState {
    |st: HostState, step: HostStep| after_step(st, step)
}

/// The state once a plan, or as much of it as succeeded, was carried out.
pub open spec fn after_plan(st: HostState, plan: Seq<HostStep>) -> HostState {
    plan.fold_left(st, stepping())
}

/// The steps that bring one modifier in line.
pub open spec fn fix_plan(platform: Platform, fix: ModifierFix) -> Seq<HostStep> {
    seq![
        HostStep::Call(
            HostCall::Reconcile {
                key: host_key_of(platform, crate::modifiers::left_key(fix.bit))->0,
                press: fix.press,
            },
        ),
        HostStep::Note(HostChange::Reconciled(fix)),
    ]
}

/// The steps that bring modifiers in line, one after the other.
pub open spec fn fixes_plan(platform: Platform, all: Seq<ModifierFix>) -> Seq<HostStep> {
    crate::plan::joined(all, |fix: ModifierFix| fix_plan(platform, fix))
}

/// The steps that bring the modifiers in line with the client, but for `skip`.
pub open spec fn reconcile_plan(
    st: HostState,
    wire: Modifiers,
    skip: Option<ModBit>,
) -> Seq<HostStep> {
    fixes_plan(st.platform, crate::modifiers::fixes(st.keys, wire, skip))
}

/// The steps that press or release a key. There are none for a usage without a key.
pub open spec fn key_plan(platform: Platform, key: HidUsage, press: bool) -> Seq<HostStep> {
    match host_key_of(platform, key.0) {
        Some(k) => seq![
            HostStep::Call(HostCall::Key { key: k, press }),
            HostStep::Note(
                if press {
                    HostChange::Pressed(key)
                } else {
                    HostChange::Released(key)
                },
            ),
        ],
        None => Seq::empty(),
    }
}

/// The steps of a button.
pub open spec fn button_plan(button: MouseButton, press: bool) -> Seq<HostStep> {
    seq![
        HostStep::Call(HostCall::Button { button: host_button(button), press }),
        HostStep::Note(
            if press {
                HostChange::ButtonPressed(button)
            } else {
                HostChange::ButtonReleased(button)
            },
        ),
    ]
}

/// A scroll amount in whole ticks.
pub open spec fn ticks(d: SingleBits, kind: ScrollKind) -> int {
    crate::single::rounded(
        d,
        match kind {
            ScrollKind::Line => 0,
            ScrollKind::Pixel => 4,
        },
    )
}

/// The steps of a scroll. Up is positive on the wire and negative for the library.
pub open spec fn scroll_plan(dx: SingleBits, dy: SingleBits, kind: ScrollKind) -> Seq<HostStep> {
    (if ticks(dy, kind) != 0 {
        seq![HostStep::Call(HostCall::ScrollVertical { ticks: (-ticks(dy, kind)) as i32 })]
    } else {
        Seq::empty()
    }) + (if ticks(dx, kind) != 0 {
        seq![HostStep::Call(HostCall::ScrollHorizontal { ticks: ticks(dx, kind) as i32 })]
    } else {
        Seq::empty()
    })
}

/// The step of a relative movement.
pub open spec fn motion_plan(dx: i16, dy: i16) -> Seq<HostStep> {
    let limit = MAX_REL_DELTA_PX as int;
    seq![
        HostStep::Call(
            HostCall::MoveBy {
                dx: crate::single::clamped(dx as int, -limit, limit) as i32,
                dy: crate::single::clamped(dy as int, -limit, limit) as i32,
            },
        ),
    ]
}

/// What follows the reconciliation of an event.
pub open spec fn own_plan(platform: Platform, kind: InputEventKind) -> Seq<HostStep> {
    match kind {
        InputEventKind::KeyDown { key, .. } => key_plan(platform, key, true),
        InputEventKind::KeyUp { key, .. } => key_plan(platform, key, false),
        InputEventKind::Text { utf8 } => seq![HostStep::Call(HostCall::Text { text: utf8 })],
        InputEventKind::MouseButton { button, pressed, .. } => button_plan(button, pressed),
        InputEventKind::RelativeMouseMove { dx, dy, .. } => motion_plan(dx, dy),
        InputEventKind::MouseScroll { dx, dy, kind, .. } => scroll_plan(dx, dy, kind),
    }
}

/// The steps of an event: the modifiers first, then its own doing.
pub open spec fn event_plan(st: HostState, kind: InputEventKind) -> Seq<HostStep> {
    (match crate::modifiers::carried(kind) {
        Some((wire, skip)) => reconcile_plan(st, wire, skip),
        None => Seq::empty(),
    }) + own_plan(st.platform, kind)
}

/// The event does not scroll up by an amount that cannot be negated.
pub open spec fn can_scroll(kind: InputEventKind) -> bool {
    kind matches InputEventKind::MouseScroll { dy, kind: unit, .. } ==> ticks(dy, unit) != i32::MIN
}

/// The steps of a pointer position. A stale one has none, and a hidden pointer is not moved.
pub open spec fn cursor_plan(st: HostState, cursor: ClientCursorPacket) -> Seq<HostStep> {
    if crate::inject::is_stale(cursor.seq, st.last_seq) {
        Seq::empty()
    } else if !cursor.visible {
        seq![HostStep::Note(HostChange::Positioned { seq: cursor.seq })]
    } else {
        seq![
            HostStep::Note(HostChange::Positioned { seq: cursor.seq }),
            HostStep::Call(
                HostCall::MoveTo {
                    x: crate::single::on_display(cursor.x, st.width) as i32,
                    y: crate::single::on_display(cursor.y, st.height) as i32,
                },
            ),
        ]
    }
}

/// The release of a key. There is none for a usage without a key.
pub open spec fn key_release(platform: Platform, usage: u32) -> Option<HostCall> {
    match host_key_of(platform, usage) {
        Some(key) => Some(HostCall::Key { key, press: false }),
        None => None,
    }
}

/// The release of a button, if it is held.
pub open spec fn button_release(buttons: ButtonSet, button: MouseButton) -> Option<HostCall> {
    if buttons.has(button) {
        Some(HostCall::Button { button: host_button(button), press: false })
    } else {
        None
    }
}

/// The releases of keys, in the order given, and of all held buttons.
pub open spec fn releases(st: HostState, order: Seq<u32>) -> Seq<HostCall> {
    crate::held::releases(
        order,
        |usage: u32| key_release(st.platform, usage),
        |button: MouseButton| button_release(st.buttons, button),
    )
}

/// All that is held is released: the keys in some order, then the buttons.
pub open spec fn releases_all(st: HostState, all: Seq<HostCall>) -> bool {
    exists|order: Seq<u32>| #[trigger]
        crate::held::lists(order, st.keys) && all == releases(st, order)
}

/// Whether the backend takes the event. It does not negate the smallest number.
pub fn takes(evt: &InputEvent) -> (r: bool)
    ensures
        r == can_scroll(evt.kind),
{
    match &evt.kind {
        InputEventKind::MouseScroll { dy, kind, .. } => to_ticks(*dy, *kind) != i32::MIN,
        _ => true,
    }
}

fn to_ticks(d: SingleBits, kind: ScrollKind) -> (r: i32)
    ensures
        r == ticks(d, kind),
{
    match kind {
        ScrollKind::Line => round_to_i32(d, 0),
        ScrollKind::Pixel => round_to_i32(d, 4),
    }
}

/// The size of a display, in pixels. It is not empty.
struct DisplaySize {
    width: i32,
    height: i32,
}

impl DisplaySize {
    #[verifier::type_invariant]
    spec fn is_not_empty(self) -> bool {
        self.width > 0 && self.height > 0
    }
}

/// The injector behind the host's input library: what it knows of the host.
pub struct EnigoBackend {
    platform: Platform,
    display: DisplaySize,
    display_is_authoritative: bool,
    held_keys: HeldKeys,
    held_buttons: ButtonSet,
    last_cursor_seq: Option<u32>,
}

impl View for EnigoBackend {
    type V = HostState;

    closed spec fn view(&self) -> HostState {
        HostState {
            platform: self.platform,
            width: self.display.width as int,
            height: self.display.height as int,
            authoritative: self.display_is_authoritative,
            keys: self.held_keys@,
            buttons: self.held_buttons,
            last_seq: self.last_cursor_seq,
        }
    }
}

/// A size in pixels, at most what 32 signed bits hold.
pub open spec fn pixels(n: u32) -> int {
    if n > i32::MAX {
        i32::MAX as int
    } else {
        n as int
    }
}

fn to_pixels(n: u32) -> (r: i32)
    ensures
        r == pixels(n),
{
    if n > 0x7fff_ffff {
        i32::MAX
    } else {
        n as i32
    }
}

impl EnigoBackend {
    /// A backend that has done nothing yet and guesses the display's size.
    pub fn new(platform: Platform) -> (r: Self)
        ensures
            r@ == (HostState {
                platform,
                width: FALLBACK_WIDTH as int,
                height: FALLBACK_HEIGHT as int,
                authoritative: false,
                keys: Set::empty(),
                buttons: ButtonSet::none(),
                last_seq: None,
            }),
    {
        EnigoBackend {
            platform,
            display: DisplaySize { width: FALLBACK_WIDTH, height: FALLBACK_HEIGHT },
            display_is_authoritative: false,
            held_keys: HeldKeys::new(),
            held_buttons: ButtonSet::new(),
            last_cursor_seq: None,
        }
    }

    fn plan_reconcile(&self, wire: Modifiers, skip: Option<ModBit>) -> (r: Vec<HostStep>)
        ensures
            r@ == reconcile_plan(self@, wire, skip),
    {
        let all: Vec<ModifierFix> = reconcile_modifiers(&self.held_keys, wire, skip);
        let mut out: Vec<HostStep> = Vec::new();
        let mut i: usize = 0;
        while i < all.len()
            invariant
                i <= all.len(),
                out@ == fixes_plan(self@.platform, all@.take(i as int)),
            decreases all.len() - i,
        {
            let fix: ModifierFix = all[i];
            let ghost before = out@;
            assert(all@.take(i + 1).drop_last() == all@.take(i as int));
            assert(all@.take(i + 1).last() == fix);
            match hid_to_enigo(self.platform, left_usage(fix.bit)) {
                Some(key) => {
                    out.push(HostStep::Call(HostCall::Reconcile { key, press: fix.press }));
                    out.push(HostStep::Note(HostChange::Reconciled(fix)));
                },
                None => {
                    assert(false);
                },
            }
            assert(out@ == before + fix_plan(self@.platform, fix));
            i = i + 1;
        }
        assert(all@.take(i as int) == all@);
        out
    }

    fn plan_key(&self, key: HidUsage, modifiers: Modifiers, press: bool) -> (r: Vec<HostStep>)
        ensures
            r@ == reconcile_plan(self@, modifiers, crate::modifiers::bit_of(key.0)) + key_plan(
                self@.platform,
                key,
                press,
            ),
    {
        let mut out: Vec<HostStep> = self.plan_reconcile(modifiers, modifier_bit_of(key));
        let ghost before = out@;
        match hid_to_enigo(self.platform, key) {
            Some(k) => {
                out.push(HostStep::Call(HostCall::Key { key: k, press }));
                out.push(
                    HostStep::Note(
                        if press {
                            HostChange::Pressed(key)
                        } else {
                            HostChange::Released(key)
                        },
                    ),
                );
            },
            None => {},
        }
        assert(out@ == before + key_plan(self@.platform, key, press));
        out
    }

    fn plan_button(&self, button: MouseButton, press: bool, modifiers: Modifiers) -> (r: Vec<
        HostStep,
    >)
        ensures
            r@ == reconcile_plan(self@, modifiers, None) + button_plan(button, press),
    {
        let mut out: Vec<HostStep> = self.plan_reconcile(modifiers, None);
        let ghost before = out@;
        out.push(HostStep::Call(HostCall::Button { button: proto_button_to_enigo(button), press }));
        out.push(
            HostStep::Note(
                if press {
                    HostChange::ButtonPressed(button)
                } else {
                    HostChange::ButtonReleased(button)
                },
            ),
        );
        assert(out@ == before + button_plan(button, press));
        out
    }

    fn plan_motion(&self, dx: i16, dy: i16, modifiers: Modifiers) -> (r: Vec<HostStep>)
        ensures
            r@ == reconcile_plan(self@, modifiers, None) + motion_plan(dx, dy),
    {
        let mut out: Vec<HostStep> = self.plan_reconcile(modifiers, None);
        let ghost before = out@;
        let (mx, my): (i32, i32) = clamp_relative_delta(dx, dy);
        out.push(HostStep::Call(HostCall::MoveBy { dx: mx, dy: my }));
        assert(out@ == before + motion_plan(dx, dy));
        out
    }

    fn plan_scroll(
        &self,
        dx: SingleBits,
        dy: SingleBits,
        kind: ScrollKind,
        modifiers: Modifiers,
    ) -> (r: Vec<HostStep>)
        requires
            ticks(dy, kind) != i32::MIN,
        ensures
            r@ == reconcile_plan(self@, modifiers, None) + scroll_plan(dx, dy, kind),
    {
        let mut out: Vec<HostStep> = self.plan_reconcile(modifiers, None);
        let ghost before = out@;
        let vert: i32 = to_ticks(dy, kind);
        let horiz: i32 = to_ticks(dx, kind);
        if vert != 0 {
            out.push(HostStep::Call(HostCall::ScrollVertical { ticks: -vert }));
        }
        if horiz != 0 {
            out.push(HostStep::Call(HostCall::ScrollHorizontal { ticks: horiz }));
        }
        assert(out@ == before + scroll_plan(dx, dy, kind));
        out
    }

    /// What an event asks for.
    pub fn inject(&self, evt: &InputEvent) -> (r: Vec<HostStep>)
        requires
            can_scroll(evt.kind),
        ensures
            r@ == event_plan(self@, evt.kind),
    {
        match &evt.kind {
            InputEventKind::KeyDown { key, modifiers } => self.plan_key(*key, *modifiers, true),
            InputEventKind::KeyUp { key, modifiers } => self.plan_key(*key, *modifiers, false),
            InputEventKind::Text { utf8 } => {
                let out: Vec<HostStep> = vec![
                    HostStep::Call(HostCall::Text { text: utf8.clone() }),
                ];
                assert(out@ == event_plan(self@, evt.kind));
                out
            },
            InputEventKind::MouseButton { button, pressed, modifiers } => self.plan_button(
                *button,
                *pressed,
                *modifiers,
            ),
            InputEventKind::RelativeMouseMove { dx, dy, modifiers } => self.plan_motion(
                *dx,
                *dy,
                *modifiers,
            ),
            InputEventKind::MouseScroll { dx, dy, kind, modifiers } => self.plan_scroll(
                *dx,
                *dy,
                *kind,
                *modifiers,
            ),
        }
    }

    /// Learn the size of the display. An empty one is ignored.
    pub fn set_display_size(&mut self, width: u32, height: u32)
        ensures
            final(self)@ == (if width == 0 || height == 0 {
                old(self)@
            } else {
                HostState {
                    width: pixels(width),
                    height: pixels(height),
                    authoritative: true,
                    ..old(self)@
                }
            }),
            final(self)@ == resized(old(self)@, width, height),
    {
        if width == 0 || height == 0 {
            return;
        }
        self.display = DisplaySize { width: to_pixels(width), height: to_pixels(height) };
        self.display_is_authoritative = true;
    }

    /// What a pointer position asks for.
    pub fn inject_cursor(&self, cursor: &ClientCursorPacket) -> (r: Vec<HostStep>)
        ensures
            r@ == cursor_plan(self@, *cursor),
    {
        let mut out: Vec<HostStep> = Vec::new();
        if is_out_of_order(cursor.seq, self.last_cursor_seq) {
            return out;
        }
        out.push(HostStep::Note(HostChange::Positioned { seq: cursor.seq }));
        if !cursor.visible {
            return out;
        }
        proof {
            use_type_invariant(&self.display);
        }
        let x: i32 = project(cursor.x, self.display.width);
        let y: i32 = project(cursor.y, self.display.height);
        out.push(HostStep::Call(HostCall::MoveTo { x, y }));
        out
    }

    /// Take note of a change.
    pub fn note(&mut self, change: HostChange)
        ensures
            final(self)@ == after_change(old(self)@, change),
    {
        match change {
            HostChange::Pressed(key) => {
                self.held_keys.insert(key);
            },
            HostChange::Released(key) => {
                self.held_keys.remove(key);
            },
            HostChange::Reconciled(fix) => {
                carry_out(&mut self.held_keys, fix);
            },
            HostChange::ButtonPressed(button) => {
                self.held_buttons.set(button, true);
            },
            HostChange::ButtonReleased(button) => {
                self.held_buttons.set(button, false);
            },
            HostChange::Positioned { seq } => {
                self.last_cursor_seq = Some(seq);
            },
        }
    }

    /// Let go of all that is held, for when the client is gone. A release that fails is passed
    /// over.
    pub fn release_all(&mut self) -> (r: Vec<HostCall>)
        ensures
            releases_all(old(self)@, r@),
            final(self)@ == (HostState {
                keys: Set::empty(),
                buttons: ButtonSet::none(),
                ..old(self)@
            }),
    {
        let platform: Platform = self.platform;
        let buttons: ButtonSet = self.held_buttons;
        let ghost of_key = |usage: u32| key_release(platform, usage);
        let ghost of_button = |button: MouseButton| button_release(buttons, button);
        let order: Vec<u32> = self.held_keys.drain();
        let mut out: Vec<HostCall> = Vec::new();
        let mut i: usize = 0;
        while i < order.len()
            invariant
                i <= order.len(),
                of_key == |usage: u32| key_release(platform, usage),
                out@ == order@.take(i as int).filter_map(of_key),
            decreases order.len() - i,
        {
            proof {
                order@.lemma_filter_map_take_succ(of_key, i as int);
            }
            match hid_to_enigo(platform, HidUsage(order[i])) {
                Some(key) => {
                    out.push(HostCall::Key { key, press: false });
                },
                None => {},
            }
            i = i + 1;
        }
        assert(order@.take(i as int) == order@);
        let each: [MouseButton; 5] = each_button();
        let mut j: usize = 0;
        while j < 5
            invariant
                j <= 5,
                each@.len() == 5,
                of_button == |button: MouseButton| button_release(buttons, button),
                out@ == order@.filter_map(of_key) + each@.take(j as int).filter_map(of_button),
            decreases 5 - j,
        {
            proof {
                each@.lemma_filter_map_take_succ(of_button, j as int);
            }
            if buttons.contains(each[j]) {
                out.push(HostCall::Button { button: proto_button_to_enigo(each[j]), press: false });
            }
            j = j + 1;
        }
        assert(each@.take(j as int) == each@);
        assert(out@ == releases(old(self)@, order@));
        assert(crate::held::lists(order@, old(self)@.keys));
        self.held_buttons = ButtonSet::new();
        out
    }
}

proof fn lemma_after_fixes_plan(st: HostState, all: Seq<ModifierFix>)
    ensures
        after_plan(st, fixes_plan(st.platform, all)) == (HostState {
            keys: crate::modifiers::after_fixes(st.keys, all),
            ..st
        }),
{
    let part = |fix: ModifierFix| fix_plan(st.platform, fix);
    let reached = |done: Seq<ModifierFix>|
        HostState { keys: crate::modifiers::after_fixes(st.keys, done), ..st };
    assert forall|done: Seq<ModifierFix>| done.len() > 0 implies part(done.last()).fold_left(
        reached(done.drop_last()),
        stepping(),
    ) == #[trigger] reached(done) by {
        crate::plan::lemma_two_steps(reached(done.drop_last()), part(done.last()), stepping());
    }
    crate::plan::lemma_after_joined(all, part, stepping(), reached);
}

/// What an event leaves behind, once all of its plan was carried out.
pub open spec fn after_event(st: HostState, kind: InputEventKind) -> HostState {
    after_plan(st, event_plan(st, kind))
}

/// The state between the modifiers of an event and its own doing.
pub open spec fn reconciled(st: HostState, kind: InputEventKind) -> HostState {
    match crate::modifiers::carried(kind) {
        Some((wire, skip)) => HostState {
            keys: crate::modifiers::after_fixes(
                st.keys,
                crate::modifiers::fixes(st.keys, wire, skip),
            ),
            ..st
        },
        None => st,
    }
}

/// What an event does: the modifiers follow the client, and then its own key or button is noted.
pub proof fn an_event_notes_its_own_key_or_button(st: HostState, kind: InputEventKind)
    ensures
        ({
            let mid = reconciled(st, kind);
            after_event(st, kind) == (match kind {
                InputEventKind::KeyDown { key, .. } => HostState {
                    keys: if host_key_of(st.platform, key.0) is Some {
                        mid.keys.insert(key.0)
                    } else {
                        mid.keys
                    },
                    ..mid
                },
                InputEventKind::KeyUp { key, .. } => HostState {
                    keys: if host_key_of(st.platform, key.0) is Some {
                        mid.keys.remove(key.0)
                    } else {
                        mid.keys
                    },
                    ..mid
                },
                InputEventKind::MouseButton { button, pressed, .. } => HostState {
                    buttons: mid.buttons.with(button, pressed),
                    ..mid
                },
                _ => mid,
            })
        }),
{
    let mid = reconciled(st, kind);
    let own = own_plan(st.platform, kind);
    match crate::modifiers::carried(kind) {
        Some((wire, skip)) => {
            let first = reconcile_plan(st, wire, skip);
            crate::plan::lemma_two_parts(st, first, own, stepping());
            lemma_after_fixes_plan(st, crate::modifiers::fixes(st.keys, wire, skip));
            assert(event_plan(st, kind) == first + own);
        },
        None => {
            assert(event_plan(st, kind) == own);
        },
    }
    assert(after_event(st, kind) == after_plan(mid, own));
    if own.len() == 1 {
        crate::plan::lemma_one_step(mid, own, stepping());
    } else if own.len() == 2 {
        crate::plan::lemma_two_steps(mid, own, stepping());
    }
}

/// After an event the host holds the modifiers that the client held with it, but for the one that
/// the event is itself about.
pub proof fn modifiers_follow_the_client(st: HostState, kind: InputEventKind, bit: ModBit)
    requires
        crate::modifiers::carried(kind) is Some,
        (crate::modifiers::carried(kind)->0).1 != Some(bit),
    ensures
        crate::modifiers::is_held(after_event(st, kind).keys, bit) == crate::modifiers::has(
            (crate::modifiers::carried(kind)->0).0,
            bit,
        ),
{
    let (wire, skip) = crate::modifiers::carried(kind)->0;
    let mid = reconciled(st, kind);
    an_event_notes_its_own_key_or_button(st, kind);
    crate::modifiers::reconciled_modifiers_agree(st.keys, wire, skip);
    assert(crate::modifiers::is_held(mid.keys, bit) == crate::modifiers::has(wire, bit));
    match kind {
        InputEventKind::KeyDown { key, .. } => {
            crate::modifiers::modifiers_have_two_keys(key.0, bit);
        },
        InputEventKind::KeyUp { key, .. } => {
            crate::modifiers::modifiers_have_two_keys(key.0, bit);
        },
        _ => {},
    }
}

/// Every key that a client can send has a key here, but for those that the library does not know:
/// two keys of ISO and Japanese keyboards, the menu key, and off Linux the keys that only Linux
/// has.
pub proof fn sent_keys_have_host_keys(platform: Platform, key: KeyCode)
    requires
        crate::keymap::usage_id(key) is Some,
        key != KeyCode::IntlBackslash,
        key != KeyCode::IntlRo,
        key != KeyCode::IntlYen,
        key != KeyCode::ContextMenu,
        platform == Platform::Linux || !only_linux_knows(key),
    ensures
        host_key_of_id(platform, crate::keymap::usage_id(key)->0) is Some,
{
}

/// The keys that the library knows on Linux only.
pub open spec fn only_linux_knows(key: KeyCode) -> bool {
    match key {
        KeyCode::PrintScreen => true,
        KeyCode::ScrollLock => true,
        KeyCode::Pause => true,
        KeyCode::Insert => true,
        KeyCode::NumLock => true,
        KeyCode::F21 => true,
        KeyCode::F22 => true,
        KeyCode::F23 => true,
        KeyCode::F24 => true,
        _ => false,
    }
}

/// When the client is gone, exactly what is held is released.
pub proof fn exactly_what_is_held_is_released(st: HostState, all: Seq<HostCall>, e: HostCall)
    requires
        releases_all(st, all),
    ensures
        all.contains(e) <==> (exists|u: u32| #[trigger]
            st.keys.contains(u) && key_release(st.platform, u) == Some(e)) || (exists|
            b: MouseButton,
        | #[trigger]
            button_release(st.buttons, b) == Some(e)),
{
    let order = choose|order: Seq<u32>| #[trigger]
        crate::held::lists(order, st.keys) && all == releases(st, order);
    let of_key = |usage: u32| key_release(st.platform, usage);
    let of_button = |button: MouseButton| button_release(st.buttons, button);
    crate::held::lemma_releases(st.keys, order, of_key, of_button, e);
    assert forall|b: MouseButton| #[trigger] button_release(st.buttons, b) == of_button(b) by {}
}

/// The key of the host under which a key of the client arrives, by way of its usage.
pub open spec fn arriving_key(platform: Platform, key: KeyCode) -> Option<HostKey> {
    match crate::translator::wire_key(key) {
        Some(usage) => host_key_of(platform, usage.0),
        None => None,
    }
}

/// The key of the client with the name that a key of the host has. Keys that type a character
/// have none.
pub open spec fn namesake(key: HostKey) -> KeyCode {
    match key {
        HostKey::Return => KeyCode::Enter,
        HostKey::Escape => KeyCode::Escape,
        HostKey::Backspace => KeyCode::Backspace,
        HostKey::Tab => KeyCode::Tab,
        HostKey::Space => KeyCode::Space,
        HostKey::CapsLock => KeyCode::CapsLock,
        HostKey::F1 => KeyCode::F1,
        HostKey::F2 => KeyCode::F2,
        HostKey::F3 => KeyCode::F3,
        HostKey::F4 => KeyCode::F4,
        HostKey::F5 => KeyCode::F5,
        HostKey::F6 => KeyCode::F6,
        HostKey::F7 => KeyCode::F7,
        HostKey::F8 => KeyCode::F8,
        HostKey::F9 => KeyCode::F9,
        HostKey::F10 => KeyCode::F10,
        HostKey::F11 => KeyCode::F11,
        HostKey::F12 => KeyCode::F12,
        HostKey::F13 => KeyCode::F13,
        HostKey::F14 => KeyCode::F14,
        HostKey::F15 => KeyCode::F15,
        HostKey::F16 => KeyCode::F16,
        HostKey::F17 => KeyCode::F17,
        HostKey::F18 => KeyCode::F18,
        HostKey::F19 => KeyCode::F19,
        HostKey::F20 => KeyCode::F20,
        HostKey::F21 => KeyCode::F21,
        HostKey::F22 => KeyCode::F22,
        HostKey::F23 => KeyCode::F23,
        HostKey::F24 => KeyCode::F24,
        HostKey::PrintScr => KeyCode::PrintScreen,
        HostKey::ScrollLock => KeyCode::ScrollLock,
        HostKey::Pause => KeyCode::Pause,
        HostKey::Insert => KeyCode::Insert,
        HostKey::Home => KeyCode::Home,
        HostKey::PageUp => KeyCode::PageUp,
        HostKey::Delete => KeyCode::Delete,
        HostKey::End => KeyCode::End,
        HostKey::PageDown => KeyCode::PageDown,
        HostKey::RightArrow => KeyCode::ArrowRight,
        HostKey::LeftArrow => KeyCode::ArrowLeft,
        HostKey::DownArrow => KeyCode::ArrowDown,
        HostKey::UpArrow => KeyCode::ArrowUp,
        HostKey::Numlock => KeyCode::NumLock,
        HostKey::Divide => KeyCode::NumpadDivide,
        HostKey::Multiply => KeyCode::NumpadMultiply,
        HostKey::Subtract => KeyCode::NumpadSubtract,
        HostKey::Add => KeyCode::NumpadAdd,
        HostKey::Numpad0 => KeyCode::Numpad0,
        HostKey::Numpad1 => KeyCode::Numpad1,
        HostKey::Numpad2 => KeyCode::Numpad2,
        HostKey::Numpad3 => KeyCode::Numpad3,
        HostKey::Numpad4 => KeyCode::Numpad4,
        HostKey::Numpad5 => KeyCode::Numpad5,
        HostKey::Numpad6 => KeyCode::Numpad6,
        HostKey::Numpad7 => KeyCode::Numpad7,
        HostKey::Numpad8 => KeyCode::Numpad8,
        HostKey::Numpad9 => KeyCode::Numpad9,
        HostKey::Decimal => KeyCode::NumpadDecimal,
        HostKey::LControl => KeyCode::ControlLeft,
        HostKey::LShift => KeyCode::ShiftLeft,
        HostKey::Alt => KeyCode::AltLeft,
        HostKey::Meta => KeyCode::SuperLeft,
        HostKey::RControl => KeyCode::ControlRight,
        HostKey::RShift => KeyCode::ShiftRight,
        HostKey::ROption => KeyCode::AltRight,
        HostKey::Unicode(_) => KeyCode::Other,
    }
}

/// The key of the client that the library knows another one in place of: it has one key for both
/// enter keys, both equals signs, both commas and both meta keys, and one for both alt keys but
/// on macOS.
pub open spec fn known_as(platform: Platform, key: KeyCode) -> KeyCode {
    match key {
        KeyCode::NumpadEnter => KeyCode::Enter,
        KeyCode::NumpadEqual => KeyCode::Equal,
        KeyCode::NumpadComma => KeyCode::Comma,
        KeyCode::SuperRight => KeyCode::SuperLeft,
        KeyCode::AltRight => if platform == Platform::MacOs {
            KeyCode::AltRight
        } else {
            KeyCode::AltLeft
        },
        _ => key,
    }
}

/// A key that the client presses arrives as the host's key of the same name, or, if its caps show
/// characters, as the key that types the lower one.
pub proof fn sent_keys_arrive_under_their_name(platform: Platform, key: KeyCode)
    ensures
        arriving_key(platform, key) matches Some(k) ==> match crate::evdev_keys::caps(
            known_as(platform, key),
        ) {
            Some((lower, _)) => k == HostKey::Unicode(lower),
            None => !(k is Unicode) && namesake(k) == known_as(platform, key),
        },
{
}

/// Only keys that the library has no key for are dropped.
pub proof fn only_keys_unknown_to_the_library_are_dropped(platform: Platform, key: KeyCode)
    ensures
        arriving_key(platform, key) is None <==> {
            ||| key == KeyCode::IntlBackslash || key == KeyCode::IntlRo || key == KeyCode::IntlYen
            ||| key == KeyCode::ContextMenu || key == KeyCode::Other
            ||| platform != Platform::Linux && only_linux_knows(key)
        },
{
}

/// Two different keys that a client can send arrive as two different keys, but for those that the
/// library does not tell apart.
pub proof fn sent_keys_stay_apart(platform: Platform, a: KeyCode, b: KeyCode)
    requires
        arriving_key(platform, a) is Some,
        arriving_key(platform, a) == arriving_key(platform, b),
    ensures
        known_as(platform, a) == known_as(platform, b),
{
    sent_keys_arrive_under_their_name(platform, a);
    sent_keys_arrive_under_their_name(platform, b);
    let ka = known_as(platform, a);
    let kb = known_as(platform, b);
    if crate::evdev_keys::caps(ka) is Some && crate::evdev_keys::caps(kb) is Some {
        crate::evdev_keys::characters_are_typed_by_the_key_that_shows_them(ka);
        crate::evdev_keys::characters_are_typed_by_the_key_that_shows_them(kb);
        crate::evdev_keys::sent_keys_read_back(ka);
        crate::evdev_keys::sent_keys_read_back(kb);
    }
}

/// A key event ends with its own key: it is pressed and then noted as held, or released and then
/// noted as not. A usage without a key does no more than bring the modifiers in line.
pub proof fn key_events_end_with_their_key(st: HostState, key: HidUsage, modifiers: Modifiers)
    ensures
        ({
            let down = event_plan(st, InputEventKind::KeyDown { key, modifiers });
            let up = event_plan(st, InputEventKind::KeyUp { key, modifiers });
            let first = reconcile_plan(st, modifiers, crate::modifiers::bit_of(key.0));
            match host_key_of(st.platform, key.0) {
                Some(k) => {
                    &&& down.len() == first.len() + 2 && up.len() == first.len() + 2
                    &&& down.take(first.len() as int) == first
                    &&& up.take(first.len() as int) == first
                    &&& down[down.len() - 2] == HostStep::Call(
                        HostCall::Key { key: k, press: true },
                    )
                    &&& down.last() == HostStep::Note(HostChange::Pressed(key))
                    &&& up[up.len() - 2] == HostStep::Call(HostCall::Key { key: k, press: false })
                    &&& up.last() == HostStep::Note(HostChange::Released(key))
                },
                None => down == first && up == first,
            }
        }),
{
    let first = reconcile_plan(st, modifiers, crate::modifiers::bit_of(key.0));
    let down = event_plan(st, InputEventKind::KeyDown { key, modifiers });
    let up = event_plan(st, InputEventKind::KeyUp { key, modifiers });
    assert(down.take(first.len() as int) == first);
    assert(up.take(first.len() as int) == first);
    if host_key_of(st.platform, key.0) is None {
        assert(down == first);
        assert(up == first);
    }
}

/// The host's key that a modifier is pressed by.
pub open spec fn modifier_key(bit: ModBit) -> HostKey {
    match bit {
        ModBit::Shift => HostKey::LShift,
        ModBit::Ctrl => HostKey::LControl,
        ModBit::Alt => HostKey::Alt,
        ModBit::Meta => HostKey::Meta,
    }
}

/// To bring the modifiers in line, exactly those are called for on which client and host differ:
/// the key is pressed if the client holds the modifier, and released if it does not.
pub proof fn reconciling_presses_exactly_what_differs(
    st: HostState,
    wire: Modifiers,
    skip: Option<ModBit>,
    bit: ModBit,
    press: bool,
)
    ensures
        reconcile_plan(st, wire, skip).contains(
            HostStep::Call(HostCall::Reconcile { key: modifier_key(bit), press }),
        ) <==> {
            &&& skip != Some(bit)
            &&& crate::modifiers::has(wire, bit) == press
            &&& crate::modifiers::is_held(st.keys, bit) != press
        },
{
    let all = crate::modifiers::fixes(st.keys, wire, skip);
    let part = |fix: ModifierFix| fix_plan(st.platform, fix);
    let e = HostStep::Call(HostCall::Reconcile { key: modifier_key(bit), press });
    let own = ModifierFix { bit, press };
    crate::plan::lemma_joined_contains(all, part, e);
    crate::modifiers::only_what_differs_is_mended(st.keys, wire, skip, own);
    if all.contains(own) {
        assert(part(own)[0] == e);
        assert(part(own).contains(e));
    }
    if exists|fix: ModifierFix| #[trigger] all.contains(fix) && part(fix).contains(e) {
        let fix = choose|fix: ModifierFix| #[trigger] all.contains(fix) && part(fix).contains(e);
        let steps = part(fix);
        let i = choose|i: int| 0 <= i < steps.len() && steps[i] == e;
        assert(i == 0);
        assert(fix == own);
    }
}

/// A button event presses or releases the host's button of that name, the extra ones being back
/// and forward, and then notes it.
pub proof fn button_events_press_the_button_of_that_name(
    st: HostState,
    button: MouseButton,
    pressed: bool,
    modifiers: Modifiers,
)
    ensures
        ({
            let plan = event_plan(st, InputEventKind::MouseButton { button, pressed, modifiers });
            &&& plan.len() >= 2
            &&& plan[plan.len() - 2] matches HostStep::Call(
                HostCall::Button { button: b, press },
            ) && {
                &&& press == pressed
                &&& match b {
                    HostButton::Left => button == MouseButton::Left,
                    HostButton::Right => button == MouseButton::Right,
                    HostButton::Middle => button == MouseButton::Middle,
                    HostButton::Back => button == MouseButton::X1,
                    HostButton::Forward => button == MouseButton::X2,
                }
            }
            &&& plan.last() == HostStep::Note(
                if pressed {
                    HostChange::ButtonPressed(button)
                } else {
                    HostChange::ButtonReleased(button)
                },
            )
        }),
{
}

/// A relative movement moves the pointer by what was sent, each axis by itself, up to a thousand
/// pixels either way.
pub proof fn movements_move_the_pointer(st: HostState, dx: i16, dy: i16, modifiers: Modifiers)
    ensures
        ({
            let plan = event_plan(st, InputEventKind::RelativeMouseMove { dx, dy, modifiers });
            &&& plan.len() >= 1
            &&& plan.last() matches HostStep::Call(HostCall::MoveBy { dx: mx, dy: my }) && {
                &&& mx == (if dx > 1000 {
                    1000
                } else if dx < -1000 {
                    -1000
                } else {
                    dx as int
                })
                &&& my == (if dy > 1000 {
                    1000
                } else if dy < -1000 {
                    -1000
                } else {
                    dy as int
                })
            }
        }),
{
}

/// Text is typed as it was sent, by one call and nothing else.
pub proof fn text_is_typed_as_sent(st: HostState, utf8: String)
    ensures
        ({
            let plan = event_plan(st, InputEventKind::Text { utf8 });
            &&& plan.len() == 1
            &&& plan[0] matches HostStep::Call(HostCall::Text { text }) && text@ == utf8@
        }),
{
}

/// A scroll calls for the vertical amount reversed, since the library scrolls down by positive
/// numbers, and for the horizontal one as it is, each if it is not zero. Sixteen pixels are one
/// tick.
pub proof fn scrolls_turn_each_axis_its_own_way(
    st: HostState,
    dx: SingleBits,
    dy: SingleBits,
    kind: ScrollKind,
    modifiers: Modifiers,
)
    requires
        can_scroll(InputEventKind::MouseScroll { dx, dy, kind, modifiers }),
    ensures
        ({
            let plan = event_plan(st, InputEventKind::MouseScroll { dx, dy, kind, modifiers });
            let first = reconcile_plan(st, modifiers, None);
            let shift: int = if kind == ScrollKind::Pixel {
                4
            } else {
                0
            };
            let v = crate::single::rounded(dy, shift);
            let h = crate::single::rounded(dx, shift);
            let own = plan.skip(first.len() as int);
            &&& plan.take(first.len() as int) == first
            &&& own.len() == (if v == 0 {
                0int
            } else {
                1
            }) + (if h == 0 {
                0int
            } else {
                1
            })
            &&& v != 0 ==> (own[0] matches HostStep::Call(HostCall::ScrollVertical { ticks })
                && ticks == -v)
            &&& h != 0 ==> (own.last() matches HostStep::Call(HostCall::ScrollHorizontal { ticks })
                && ticks == h)
        }),
{
    let plan = event_plan(st, InputEventKind::MouseScroll { dx, dy, kind, modifiers });
    let first = reconcile_plan(st, modifiers, None);
    assert(plan.take(first.len() as int) == first);
    assert(plan.skip(first.len() as int) == scroll_plan(dx, dy, kind));
}

/// Scrolling up far enough to overflow is all that cannot be done.
pub proof fn only_one_amount_cannot_be_scrolled(kind: InputEventKind)
    ensures
        !can_scroll(kind) ==> (kind matches InputEventKind::MouseScroll { dy, kind: unit, .. }
            && crate::single::is_negative(dy)),
{
    if let InputEventKind::MouseScroll { dx, dy, kind: unit, modifiers } = kind {
        crate::single::rounding_keeps_the_sign(
            dy,
            if unit == ScrollKind::Pixel {
                4
            } else {
                0
            },
        );
    }
}

/// A shown pointer position moves the pointer within the display, each axis by itself: at one it
/// lies at the display's far edge, at zero and before at the near one, and what the other axis
/// does makes no difference. A hidden or stale position moves nothing.
pub proof fn positions_lie_on_the_display(
    st: HostState,
    cursor: ClientCursorPacket,
    other: ClientCursorPacket,
    size: int,
)
    requires
        0 < st.width <= 0x100_0000,
        0 < st.height <= 0x100_0000,
    ensures
        ({
            let plan = cursor_plan(st, cursor);
            let stale = crate::inject::is_stale(cursor.seq, st.last_seq);
            if !stale && cursor.visible {
                &&& plan.len() == 2
                &&& plan[0] == HostStep::Note(HostChange::Positioned { seq: cursor.seq })
                &&& plan[1] matches HostStep::Call(HostCall::MoveTo { x, y }) && {
                    &&& 0 <= x <= st.width && 0 <= y <= st.height
                    &&& crate::single::at_least_one(cursor.x) ==> x == st.width
                    &&& crate::single::at_least_one(cursor.y) ==> y == st.height
                    &&& crate::single::is_negative(cursor.x) || cursor.x.0 == 0 ==> x == 0
                    &&& crate::single::is_negative(cursor.y) || cursor.y.0 == 0 ==> y == 0
                }
            } else {
                &&& forall|i: int| 0 <= i < plan.len() ==> !(#[trigger] plan[i] is Call)
                &&& plan.len() == (if stale {
                    0int
                } else {
                    1
                })
            }
        }),
        ({
            let narrow = HostState { height: size, ..st };
            let low = HostState { width: size, ..st };
            let same_x = ClientCursorPacket { y: other.y, ..cursor };
            let same_y = ClientCursorPacket { x: other.x, ..cursor };
            &&& moved_to(cursor_plan(st, cursor)).0 == moved_to(cursor_plan(narrow, same_x)).0
            &&& moved_to(cursor_plan(st, cursor)).1 == moved_to(cursor_plan(low, same_y)).1
        }),
{
    crate::single::pixels_lie_on_the_display(cursor.x, st.width);
    crate::single::pixels_lie_on_the_display(cursor.y, st.height);
    crate::single::edges_lie_at_the_edges(cursor.x, st.width);
    crate::single::edges_lie_at_the_edges(cursor.y, st.height);
}

/// Where a plan moves the pointer, each axis by itself, if it does.
pub open spec fn moved_to(plan: Seq<HostStep>) -> (Option<i32>, Option<i32>) {
    if plan.len() > 0 {
        match plan.last() {
            HostStep::Call(HostCall::MoveTo { x, y }) => (Some(x), Some(y)),
            _ => (None, None),
        }
    } else {
        (None, None)
    }
}

/// What is released when the client is gone is what was pressed: the release of a key or button
/// is its press turned round.
pub proof fn releases_undo_presses(st: HostState, usage: u32, button: MouseButton)
    ensures
        ({
            let pressed = key_plan(st.platform, HidUsage(usage), true);
            match key_release(st.platform, usage) {
                Some(call) => {
                    &&& pressed.len() == 2
                    &&& pressed[0] matches HostStep::Call(HostCall::Key { key, press }) && press
                        && call == (HostCall::Key { key, press: false })
                },
                None => pressed.len() == 0,
            }
        }),
        ({
            let pressed = button_plan(button, true);
            &&& pressed[0] matches HostStep::Call(HostCall::Button { button: b, press }) && press
                && button_release(st.buttons.with(button, true), button) == Some(
                HostCall::Button { button: b, press: false },
            )
            &&& button_release(st.buttons.with(button, false), button) is None
        }),
{
}

/// The state once the size of the display was told.
pub open spec fn resized(st: HostState, width: u32, height: u32) -> HostState {
    if width == 0 || height == 0 {
        st
    } else {
        HostState { width: pixels(width), height: pixels(height), authoritative: true, ..st }
    }
}

/// A display that has an extent is taken as it is, as far as a coordinate can tell, and any other
/// is passed over; what is held stays held.
pub proof fn displays_with_an_extent_are_taken(st: HostState, width: u32, height: u32)
    ensures
        width == 0 || height == 0 ==> resized(st, width, height) == st,
        0 < width <= i32::MAX && 0 < height <= i32::MAX ==> ({
            let s = resized(st, width, height);
            s.width == width && s.height == height && s.authoritative
        }),
        0 < width && 0 < height ==> ({
            let s = resized(st, width, height);
            &&& s.authoritative
            &&& width > i32::MAX ==> s.width == i32::MAX
            &&& height > i32::MAX ==> s.height == i32::MAX
        }),
        ({
            let s = resized(st, width, height);
            (s.platform, s.keys, s.buttons, s.last_seq) == (
                st.platform,
                st.keys,
                st.buttons,
                st.last_seq,
            )
        }),
{
}

/// What is taken note of changes that and nothing else: a key or a button is held from its press
/// to its release.
pub proof fn notes_change_what_they_name(
    st: HostState,
    key: HidUsage,
    other_key: u32,
    button: MouseButton,
    other_button: MouseButton,
    seq: u32,
)
    ensures
        ({
            let s = after_change(st, HostChange::Pressed(key));
            &&& s.keys.contains(key.0)
            &&& other_key != key.0 ==> s.keys.contains(other_key) == st.keys.contains(other_key)
            &&& s == (HostState { keys: s.keys, ..st })
        }),
        ({
            let s = after_change(st, HostChange::Released(key));
            &&& !s.keys.contains(key.0)
            &&& other_key != key.0 ==> s.keys.contains(other_key) == st.keys.contains(other_key)
            &&& s == (HostState { keys: s.keys, ..st })
        }),
        ({
            let s = after_change(st, HostChange::ButtonPressed(button));
            &&& s.buttons.has(button)
            &&& other_button != button ==> s.buttons.has(other_button) == st.buttons.has(
                other_button,
            )
            &&& s == (HostState { buttons: s.buttons, ..st })
        }),
        ({
            let s = after_change(st, HostChange::ButtonReleased(button));
            &&& !s.buttons.has(button)
            &&& other_button != button ==> s.buttons.has(other_button) == st.buttons.has(
                other_button,
            )
            &&& s == (HostState { buttons: s.buttons, ..st })
        }),
        after_change(st, HostChange::Positioned { seq }) == (HostState {
            last_seq: Some(seq),
            ..st
        }),
{
}

} // verus!
