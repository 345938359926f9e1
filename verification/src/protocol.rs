//! What travels between client and host, and what the window layer reports.
use vstd::prelude::*;

verus! {

/// A time on the sender's monotonic clock, in nanoseconds.
#[derive(Clone, Copy, Debug, PartialEq, Eq, Structural)]
pub struct MonoNanos(pub u64);

/// The bits of an IEEE 754 single, as coordinates and scroll amounts are carried. The module
/// `single` turns them into numbers.
#[derive(Clone, Copy, Debug, PartialEq, Eq, Structural)]
pub struct SingleBits(pub u32);

/// The bits of zero.
pub const ZERO_BITS: u32 = 0;

/// A HID usage: the page in the upper half, the usage id in the lower.
#[derive(Clone, Copy, Debug, PartialEq, Eq, Structural, Hash)]
pub struct HidUsage(pub u32);

/// Which modifier keys are down.
#[derive(Clone, Copy, Debug, PartialEq, Eq, Structural)]
pub struct Modifiers {
    pub shift: bool,
    pub ctrl: bool,
    pub alt: bool,
    pub meta: bool,
}

impl Modifiers {
    /// No modifier down.
    pub open spec fn none() -> Modifiers {
        Modifiers { shift: false, ctrl: false, alt: false, meta: false }
    }
}

impl Default for Modifiers {
    fn default() -> (r: Self)
        ensures
            r == Modifiers::none(),
    {
        Modifiers { shift: false, ctrl: false, alt: false, meta: false }
    }
}

/// A mouse button on the wire.
#[derive(Clone, Copy, Debug, PartialEq, Eq, Structural, Hash)]
pub enum MouseButton {
    Left,
    Right,
    Middle,
    X1,
    X2,
}

/// The unit of a scroll amount.
#[derive(Clone, Copy, Debug, PartialEq, Eq, Structural)]
pub enum ScrollKind {
    Line,
    Pixel,
}

/// What an input event is.
#[derive(Debug)]
pub enum InputEventKind {
    KeyDown { key: HidUsage, modifiers: Modifiers },
    KeyUp { key: HidUsage, modifiers: Modifiers },
    MouseButton { button: MouseButton, pressed: bool, modifiers: Modifiers },
    MouseScroll { dx: SingleBits, dy: SingleBits, kind: ScrollKind, modifiers: Modifiers },
    RelativeMouseMove { dx: i16, dy: i16, modifiers: Modifiers },
    Text { utf8: String },
}

/// One event on the reliable input stream.
#[derive(Debug)]
pub struct InputEvent {
    pub event_id: u64,
    pub t_client: MonoNanos,
    pub device_id: u16,
    pub kind: InputEventKind,
}

/// A pointer position on the unreliable datagram channel.
#[derive(Clone, Copy, Debug, PartialEq, Eq, Structural)]
pub struct ClientCursorPacket {
    pub seq: u32,
    pub display_idx: u8,
    pub x: SingleBits,
    pub y: SingleBits,
    pub visible: bool,
    pub t_client: MonoNanos,
}

/// One translated event, on the channel it belongs to.
#[derive(Debug)]
pub enum WireEvent {
    /// For the reliable input stream.
    Input(InputEvent),
    /// For the cursor datagrams.
    Cursor(ClientCursorPacket),
}

/// Modifier keys as the window layer reports them.
#[derive(Clone, Copy, Debug, PartialEq, Eq, Structural)]
pub struct ModifiersState {
    pub shift_key: bool,
    pub control_key: bool,
    pub alt_key: bool,
    pub super_key: bool,
}

/// A mouse button as the window layer reports it.
#[derive(Clone, Copy, Debug, PartialEq, Eq, Structural)]
pub enum WindowButton {
    Left,
    Right,
    Middle,
    Back,
    Forward,
    Other(u16),
}

/// A physical key as the window layer reports it.
#[derive(Clone, Copy, Debug, PartialEq, Eq, Structural)]
pub enum KeyCode {
    KeyA,
    KeyB,
    KeyC,
    KeyD,
    KeyE,
    KeyF,
    KeyG,
    KeyH,
    KeyI,
    KeyJ,
    KeyK,
    KeyL,
    KeyM,
    KeyN,
    KeyO,
    KeyP,
    KeyQ,
    KeyR,
    KeyS,
    KeyT,
    KeyU,
    KeyV,
    KeyW,
    KeyX,
    KeyY,
    KeyZ,
    Digit1,
    Digit2,
    Digit3,
    Digit4,
    Digit5,
    Digit6,
    Digit7,
    Digit8,
    Digit9,
    Digit0,
    Enter,
    Escape,
    Backspace,
    Tab,
    Space,
    Minus,
    Equal,
    BracketLeft,
    BracketRight,
    Backslash,
    Semicolon,
    Quote,
    Backquote,
    Comma,
    Period,
    Slash,
    CapsLock,
    F1,
    F2,
    F3,
    F4,
    F5,
    F6,
    F7,
    F8,
    F9,
    F10,
    F11,
    F12,
    PrintScreen,
    ScrollLock,
    Pause,
    Insert,
    Home,
    PageUp,
    Delete,
    End,
    PageDown,
    ArrowRight,
    ArrowLeft,
    ArrowDown,
    ArrowUp,
    NumLock,
    NumpadDivide,
    NumpadMultiply,
    NumpadSubtract,
    NumpadAdd,
    NumpadEnter,
    Numpad1,
    Numpad2,
    Numpad3,
    Numpad4,
    Numpad5,
    Numpad6,
    Numpad7,
    Numpad8,
    Numpad9,
    Numpad0,
    NumpadDecimal,
    IntlBackslash,
    ContextMenu,
    NumpadEqual,
    F13,
    F14,
    F15,
    F16,
    F17,
    F18,
    F19,
    F20,
    F21,
    F22,
    F23,
    F24,
    NumpadComma,
    IntlRo,
    IntlYen,
    ControlLeft,
    ShiftLeft,
    AltLeft,
    SuperLeft,
    ControlRight,
    ShiftRight,
    AltRight,
    SuperRight,
    /// Any key without a place in the keyboard usage table.
    Other,
}

/// An event of the client's window.
#[derive(Debug)]
pub enum RenderEvent {
    Modifiers(ModifiersState),
    Focused(bool),
    /// The pointer moved; the position is within the video, or it is outside.
    Cursor { video_normalized: Option<(SingleBits, SingleBits)> },
    /// A key went down or up; `text` is what the system made of it.
    Key { code: KeyCode, pressed: bool, repeat: bool, text: Option<String> },
    MouseButton { button: WindowButton, pressed: bool },
    Scroll { dx: SingleBits, dy: SingleBits, by_line: bool },
}

} // verus!
