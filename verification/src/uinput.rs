//! The Linux backend: three virtual devices, a keyboard, a relative and an absolute pointer.
//!
//! What an event asks for is a plan: emissions on the devices, and changes of what the injector
//! knows, in order. Whoever drives the devices carries the plan out and stops at the first
//! emission that fails. So a key counts as held only once it was pressed, while a button and the
//! kind of motion are noted before the pointer is told.
use vstd::prelude::*;

use crate::evdev_keys::{
    char_to_keystroke, hid_to_evdev, keyboard_keycodes, pointer_buttons, proto_button_to_btn,
    KEY_LEFTSHIFT,
};
use crate::held::{each_button, HeldButtons, HeldKeys};
use crate::inject::{clamp_relative_delta, is_out_of_order, InjectError, MAX_REL_DELTA_PX};
use crate::key_set::KeySet;
use crate::modifiers::{
    carry_out, host_modifiers, left_usage, modifier_bit_of, reconcile_modifiers, ModBit, ModifierFix,
};
use crate::protocol::{
    ClientCursorPacket, HidUsage, InputEvent, InputEventKind, Modifiers, MouseButton, ScrollKind,
    SingleBits,
};
use crate::single::{normalised_to_abs, round_to_i32};

verus! {

pub const REL_X: u16 = 0x00;

pub const REL_Y: u16 = 0x01;

pub const REL_HWHEEL: u16 = 0x06;

pub const REL_WHEEL: u16 = 0x08;

pub const REL_WHEEL_HI_RES: u16 = 0x0b;

pub const REL_HWHEEL_HI_RES: u16 = 0x0c;

pub const ABS_X: u16 = 0x00;

pub const ABS_Y: u16 = 0x01;

/// High-resolution wheel units in one detent.
pub const WHEEL_HI_RES_PER_DETENT: i32 = 120;

/// The most detents that one event scrolls. The high-resolution amount just fits 32 bits.
pub const MAX_SCROLL_DETENTS: i32 = 17_895_697;

/// A virtual device.
#[derive(Clone, Copy, Debug, PartialEq, Eq, Structural)]
pub enum Device {
    Keyboard,
    RelativePointer,
    AbsolutePointer,
}

/// One event on a virtual device.
#[derive(Clone, Copy, Debug, PartialEq, Eq, Structural)]
pub enum DeviceEvent {
    Key { code: u16, value: i32 },
    Relative { axis: u16, value: i32 },
    Absolute { axis: u16, value: i32 },
    /// The events since the last report belong together.
    Report,
}

/// What is emitted on a device in one go.
#[derive(Clone, Copy, Debug, PartialEq, Eq, Structural)]
pub enum Emission {
    /// A key of the keyboard goes down or up.
    Key { code: u16, down: bool },
    /// A key is struck, together with shift or not.
    Stroke { code: u16, with_shift: bool },
    /// A button goes down or up.
    Button { absolute: bool, code: u16, down: bool },
    /// The pointer moves by an offset.
    Motion { dx: i32, dy: i32 },
    /// The wheels turn, by detents.
    Wheel { absolute: bool, vert: i32, horiz: i32 },
    /// The pointer moves to a place.
    Place { x: i32, y: i32 },
}

/// The pointer of the given kind.
pub open spec fn pointer(absolute: bool) -> Device {
    if absolute {
        Device::AbsolutePointer
    } else {
        Device::RelativePointer
    }
}

/// The value of a key event.
pub open spec fn down_value(down: bool) -> i32 {
    if down {
        1
    } else {
        0
    }
}

/// The events of one wheel: detents, and the same in high resolution. None if it does not turn.
pub open spec fn wheel_events(axis: u16, hi_res_axis: u16, detents: i32) -> Seq<DeviceEvent> {
    if detents == 0 {
        Seq::empty()
    } else {
        seq![
            DeviceEvent::Relative { axis, value: detents },
            DeviceEvent::Relative {
                axis: hi_res_axis,
                value: (detents * WHEEL_HI_RES_PER_DETENT) as i32,
            },
        ]
    }
}

impl Emission {
    /// The device that the emission is for.
    pub open spec fn target(self) -> Device {
        match self {
            Emission::Key { .. } => Device::Keyboard,
            Emission::Stroke { .. } => Device::Keyboard,
            Emission::Button { absolute, .. } => pointer(absolute),
            Emission::Motion { .. } => Device::RelativePointer,
            Emission::Wheel { absolute, .. } => pointer(absolute),
            Emission::Place { .. } => Device::AbsolutePointer,
        }
    }

    /// The events of the emission.
    pub open spec fn frame(self) -> Seq<DeviceEvent> {
        match self {
            Emission::Key { code, down } => seq![
                DeviceEvent::Key { code, value: down_value(down) },
                DeviceEvent::Report,
            ],
            Emission::Stroke { code, with_shift } => if with_shift {
                seq![
                    DeviceEvent::Key { code: KEY_LEFTSHIFT, value: 1 },
                    DeviceEvent::Key { code, value: 1 },
                    DeviceEvent::Report,
                    DeviceEvent::Key { code, value: 0 },
                    DeviceEvent::Key { code: KEY_LEFTSHIFT, value: 0 },
                    DeviceEvent::Report,
                ]
            } else {
                seq![
                    DeviceEvent::Key { code, value: 1 },
                    DeviceEvent::Report,
                    DeviceEvent::Key { code, value: 0 },
                    DeviceEvent::Report,
                ]
            },
            Emission::Button { code, down, .. } => seq![
                DeviceEvent::Key { code, value: down_value(down) },
                DeviceEvent::Report,
            ],
            Emission::Motion { dx, dy } => seq![
                DeviceEvent::Relative { axis: REL_X, value: dx },
                DeviceEvent::Relative { axis: REL_Y, value: dy },
                DeviceEvent::Report,
            ],
            Emission::Wheel { vert, horiz, .. } => (wheel_events(REL_WHEEL, REL_WHEEL_HI_RES, vert)
                + wheel_events(REL_HWHEEL, REL_HWHEEL_HI_RES, horiz)).push(DeviceEvent::Report),
            Emission::Place { x, y } => seq![
                DeviceEvent::Absolute { axis: ABS_X, value: x },
                DeviceEvent::Absolute { axis: ABS_Y, value: y },
                DeviceEvent::Report,
            ],
        }
    }

    /// What a failed emission is called.
    pub open spec fn label(self) -> Seq<char> {
        match self {
            Emission::Key { .. } => "keyboard emit"@,
            Emission::Stroke { .. } => "keyboard emit"@,
            Emission::Button { .. } => "button emit"@,
            Emission::Motion { .. } => "relative move emit"@,
            Emission::Wheel { .. } => "pointer emit"@,
            Emission::Place { .. } => "cursor emit"@,
        }
    }

    /// The wheels turn by no more than one event may scroll.
    pub open spec fn in_range(self) -> bool {
        self matches Emission::Wheel { vert, horiz, .. } ==> (-MAX_SCROLL_DETENTS <= vert
            <= MAX_SCROLL_DETENTS && -MAX_SCROLL_DETENTS <= horiz <= MAX_SCROLL_DETENTS)
    }

    /// The device that the emission is for.
    pub fn device(&self) -> (r: Device)
        ensures
            r == self.target(),
    {
        match *self {
            Emission::Key { .. } => Device::Keyboard,
            Emission::Stroke { .. } => Device::Keyboard,
            Emission::Button { absolute, .. } => pointer_device(absolute),
            Emission::Motion { .. } => Device::RelativePointer,
            Emission::Wheel { absolute, .. } => pointer_device(absolute),
            Emission::Place { .. } => Device::AbsolutePointer,
        }
    }

    /// The events of the emission.
    pub fn events(&self) -> (r: Vec<DeviceEvent>)
        requires
            self.in_range(),
        ensures
            r@ == self.frame(),
    {
        let mut out: Vec<DeviceEvent> = Vec::new();
        match *self {
            Emission::Key { code, down } => {
                out.push(key_event(code, down));
            },
            Emission::Stroke { code, with_shift } => {
                // Down and up lie in separate reports: within one, they could collapse.
                if with_shift {
                    out.push(key_event(KEY_LEFTSHIFT, true));
                }
                out.push(key_event(code, true));
                out.push(DeviceEvent::Report);
                out.push(key_event(code, false));
                if with_shift {
                    out.push(key_event(KEY_LEFTSHIFT, false));
                }
            },
            Emission::Button { code, down, .. } => {
                out.push(key_event(code, down));
            },
            Emission::Motion { dx, dy } => {
                out.push(DeviceEvent::Relative { axis: REL_X, value: dx });
                out.push(DeviceEvent::Relative { axis: REL_Y, value: dy });
            },
            Emission::Wheel { vert, horiz, .. } => {
                push_wheel(&mut out, REL_WHEEL, REL_WHEEL_HI_RES, vert);
                push_wheel(&mut out, REL_HWHEEL, REL_HWHEEL_HI_RES, horiz);
            },
            Emission::Place { x, y } => {
                out.push(DeviceEvent::Absolute { axis: ABS_X, value: x });
                out.push(DeviceEvent::Absolute { axis: ABS_Y, value: y });
            },
        }
        out.push(DeviceEvent::Report);
        out
    }

    /// What a failed emission is called: the text before the colon and the system's own words.
    pub fn failure(&self) -> (r: &'static str)
        ensures
            r@ == self.label(),
    {
        match *self {
            Emission::Key { .. } => "keyboard emit",
            Emission::Stroke { .. } => "keyboard emit",
            Emission::Button { .. } => "button emit",
            Emission::Motion { .. } => "relative move emit",
            Emission::Wheel { .. } => "pointer emit",
            Emission::Place { .. } => "cursor emit",
        }
    }
}

fn pointer_device(absolute: bool) -> (r: Device)
    ensures
        r == pointer(absolute),
{
    if absolute {
        Device::AbsolutePointer
    } else {
        Device::RelativePointer
    }
}

fn key_event(code: u16, down: bool) -> (r: DeviceEvent)
    ensures
        r == (DeviceEvent::Key { code, value: down_value(down) }),
{
    DeviceEvent::Key {
        code,
        value: if down {
            1
        } else {
            0
        },
    }
}

fn push_wheel(out: &mut Vec<DeviceEvent>, axis: u16, hi_res_axis: u16, detents: i32)
    requires
        -MAX_SCROLL_DETENTS <= detents <= MAX_SCROLL_DETENTS,
    ensures
        final(out)@ == old(out)@ + wheel_events(axis, hi_res_axis, detents),
{
    if detents != 0 {
        out.push(DeviceEvent::Relative { axis, value: detents });
        out.push(
            DeviceEvent::Relative { axis: hi_res_axis, value: detents * WHEEL_HI_RES_PER_DETENT },
        );
    }
}

/// Something that the injector takes note of.
#[derive(Clone, Copy, Debug, PartialEq, Eq, Structural)]
pub enum Change {
    /// A key was pressed.
    Pressed(HidUsage),
    /// A key was released.
    Released(HidUsage),
    /// A modifier was brought in line with the client.
    Reconciled(ModifierFix),
    /// A button is pressed, on the absolute pointer or not.
    ButtonPressed { button: MouseButton, absolute: bool },
    /// A button is released.
    ButtonReleased(MouseButton),
    /// The pointer moves, absolutely or not.
    Moved { absolute: bool },
    /// A pointer position is applied.
    Positioned { seq: u32 },
}

/// One step of a plan.
#[derive(Clone, Copy, Debug, PartialEq, Eq, Structural)]
pub enum Action {
    /// Emit on a device. If that fails, the rest of the plan is not carried out.
    Emit(Emission),
    /// Take note.
    Note(Change),
}

/// What the injector knows, as mathematics.
pub struct UinputState {
    /// Whether the last pointer motion was absolute.
    pub absolute: bool,
    /// The keys that are held, by usage.
    pub keys: Set<u32>,
    /// The buttons that are held, with the pointer that each was pressed on.
    pub buttons: HeldButtons,
    /// The number of the last pointer position that was applied.
    pub last_seq: Option<u32>,
}

/// The state once something was taken note of.
pub open spec fn after_change(st: UinputState, change: Change) -> UinputState {
    match change {
        Change::Pressed(key) => UinputState { keys: st.keys.insert(key.0), ..st },
        Change::Released(key) => UinputState { keys: st.keys.remove(key.0), ..st },
        Change::Reconciled(fix) => UinputState {
            keys: crate::modifiers::after_fix(st.keys, fix),
            ..st
        },
        Change::ButtonPressed { button, absolute } => UinputState {
            buttons: st.buttons.with(button, Some(absolute)),
            ..st
        },
        Change::ButtonReleased(button) => UinputState {
            buttons: st.buttons.with(button, None),
            ..st
        },
        Change::Moved { absolute } => UinputState { absolute, ..st },
        Change::Positioned { seq } => UinputState { last_seq: Some(seq), ..st },
    }
}

/// What one step does.
pub open spec fn after_step(st: UinputState, step: Action) -> UinputState {
    match step {
        Action::Emit(_) => st,
        Action::Note(change) => after_change(st, change),
    }
}

/// What steps do.
pub open spec fn stepping() -> spec_fn(UinputState, Action) -> UinputState {
    |st: UinputState, step: Action| after_step(st, step)
}

/// The state once a plan, or as much of it as succeeded, was carried out.
pub open spec fn after_plan(st: UinputState, plan: Seq<Action>) -> UinputState {
    plan.fold_left(st, stepping())
}

/// The steps that bring one modifier in line.
pub open spec fn fix_plan(fix: ModifierFix) -> Seq<Action> {
    seq![
        Action::Emit(
            Emission::Key {
                code: crate::evdev_keys::code_of(crate::modifiers::left_key(fix.bit))->0,
                down: fix.press,
            },
        ),
        Action::Note(Change::Reconciled(fix)),
    ]
}

/// The steps that bring modifiers in line, one after the other.
pub open spec fn fixes_plan(all: Seq<ModifierFix>) -> Seq<Action> {
    crate::plan::joined(all, |fix: ModifierFix| fix_plan(fix))
}

/// The steps that bring the modifiers in line with the client, but for `skip`.
pub open spec fn reconcile_plan(
    st: UinputState,
    wire: Modifiers,
    skip: Option<ModBit>,
) -> Seq<Action> {
    fixes_plan(crate::modifiers::fixes(st.keys, wire, skip))
}

/// The steps that press or release a key. There are none for a usage without a key.
pub open spec fn key_plan(key: HidUsage, down: bool) -> Seq<Action> {
    match crate::evdev_keys::code_of(key.0) {
        Some(code) => seq![
            Action::Emit(Emission::Key { code, down }),
            Action::Note(
                if down {
                    Change::Pressed(key)
                } else {
                    Change::Released(key)
                },
            ),
        ],
        None => Seq::empty(),
    }
}

/// The steps that type a text. A character that cannot be typed is left out. Shift is struck
/// along only where it is needed and not held.
pub open spec fn text_plan(text: Seq<char>, shift_held: bool) -> Seq<Action>
    decreases text.len(),
{
    if text.len() == 0 {
        Seq::empty()
    } else {
        let before = text_plan(text.drop_last(), shift_held);
        match crate::evdev_keys::stroke_of(text.last()) {
            Some(ks) => before.push(
                Action::Emit(
                    Emission::Stroke { code: ks.code, with_shift: ks.shift && !shift_held },
                ),
            ),
            None => before,
        }
    }
}

/// The pointer that a button event is for. A press goes to the one that moved last, a release to
/// the one that the button was pressed on.
pub open spec fn button_place(st: UinputState, button: MouseButton, pressed: bool) -> bool {
    if pressed {
        st.absolute
    } else {
        match st.buttons.at(button) {
            Some(absolute) => absolute,
            None => st.absolute,
        }
    }
}

/// The steps of a button.
pub open spec fn button_plan(st: UinputState, button: MouseButton, pressed: bool) -> Seq<Action> {
    let absolute = button_place(st, button, pressed);
    seq![
        Action::Note(
            if pressed {
                Change::ButtonPressed { button, absolute }
            } else {
                Change::ButtonReleased(button)
            },
        ),
        Action::Emit(
            Emission::Button {
                absolute,
                code: crate::evdev_keys::button_code(button),
                down: pressed,
            },
        ),
    ]
}

/// The binary places by which a scroll amount is divided: sixteen pixels make a detent.
pub open spec fn scroll_shift(kind: ScrollKind) -> int {
    match kind {
        ScrollKind::Line => 0,
        ScrollKind::Pixel => 4,
    }
}

/// A scroll amount in whole detents.
pub open spec fn detents(d: SingleBits, kind: ScrollKind) -> i32 {
    crate::single::clamped(
        crate::single::rounded(d, scroll_shift(kind)),
        -MAX_SCROLL_DETENTS as int,
        MAX_SCROLL_DETENTS as int,
    ) as i32
}

/// The steps of a turn of the wheels.
pub open spec fn scroll_plan(st: UinputState, vert: i32, horiz: i32) -> Seq<Action> {
    if vert == 0 && horiz == 0 {
        Seq::empty()
    } else {
        seq![Action::Emit(Emission::Wheel { absolute: st.absolute, vert, horiz })]
    }
}

/// The steps of a relative movement.
pub open spec fn motion_plan(dx: i16, dy: i16) -> Seq<Action> {
    let limit = MAX_REL_DELTA_PX as int;
    seq![
        Action::Note(Change::Moved { absolute: false }),
        Action::Emit(
            Emission::Motion {
                dx: crate::single::clamped(dx as int, -limit, limit) as i32,
                dy: crate::single::clamped(dy as int, -limit, limit) as i32,
            },
        ),
    ]
}

/// What follows the reconciliation of an event.
pub open spec fn own_plan(st: UinputState, kind: InputEventKind) -> Seq<Action> {
    match kind {
        InputEventKind::KeyDown { key, .. } => key_plan(key, true),
        InputEventKind::KeyUp { key, .. } => key_plan(key, false),
        InputEventKind::Text { utf8 } => text_plan(
            utf8@,
            crate::modifiers::is_held(st.keys, ModBit::Shift),
        ),
        InputEventKind::MouseButton { button, pressed, .. } => button_plan(st, button, pressed),
        InputEventKind::RelativeMouseMove { dx, dy, .. } => motion_plan(dx, dy),
        InputEventKind::MouseScroll { dx, dy, kind, .. } => scroll_plan(
            st,
            detents(dy, kind),
            detents(dx, kind),
        ),
    }
}

/// The steps of an event: the modifiers first, then its own doing.
pub open spec fn event_plan(st: UinputState, kind: InputEventKind) -> Seq<Action> {
    (match crate::modifiers::carried(kind) {
        Some((wire, skip)) => reconcile_plan(st, wire, skip),
        None => Seq::empty(),
    }) + own_plan(st, kind)
}

/// The steps of a pointer position. A stale one has none, and a hidden pointer is not moved.
pub open spec fn cursor_plan(st: UinputState, cursor: ClientCursorPacket) -> Seq<Action> {
    if crate::inject::is_stale(cursor.seq, st.last_seq) {
        Seq::empty()
    } else if !cursor.visible {
        seq![Action::Note(Change::Positioned { seq: cursor.seq })]
    } else {
        seq![
            Action::Note(Change::Positioned { seq: cursor.seq }),
            Action::Note(Change::Moved { absolute: true }),
            Action::Emit(
                Emission::Place {
                    x: crate::single::on_axis(cursor.x) as i32,
                    y: crate::single::on_axis(cursor.y) as i32,
                },
            ),
        ]
    }
}

/// The release of a key. There is none for a usage without a code.
pub open spec fn key_release(usage: u32) -> Option<Emission> {
    match crate::evdev_keys::code_of(usage) {
        Some(code) => Some(Emission::Key { code, down: false }),
        None => None,
    }
}

/// The release of a button, on the pointer where it is held, if it is.
pub open spec fn button_release(buttons: HeldButtons, button: MouseButton) -> Option<Emission> {
    match buttons.at(button) {
        Some(absolute) => Some(
            Emission::Button {
                absolute,
                code: crate::evdev_keys::button_code(button),
                down: false,
            },
        ),
        None => None,
    }
}

/// The releases of keys, in the order given, and of all held buttons.
pub open spec fn releases(st: UinputState, order: Seq<u32>) -> Seq<Emission> {
    crate::held::releases(
        order,
        |usage: u32| key_release(usage),
        |button: MouseButton| button_release(st.buttons, button),
    )
}

/// All that is held is released: the keys in some order, then the buttons.
pub open spec fn releases_all(st: UinputState, all: Seq<Emission>) -> bool {
    exists|order: Seq<u32>| #[trigger]
        crate::held::lists(order, st.keys) && all == releases(st, order)
}

/// Quantise scroll amounts to whole detents: vertical, then horizontal. Up and right are
/// positive, as on the wire.
pub fn scroll_detents(dx: SingleBits, dy: SingleBits, kind: ScrollKind) -> (r: (i32, i32))
    ensures
        r.0 == detents(dy, kind),
        r.1 == detents(dx, kind),
        -MAX_SCROLL_DETENTS <= r.0 <= MAX_SCROLL_DETENTS,
        -MAX_SCROLL_DETENTS <= r.1 <= MAX_SCROLL_DETENTS,
{
    (to_detents(dy, kind), to_detents(dx, kind))
}

fn to_detents(d: SingleBits, kind: ScrollKind) -> (r: i32)
    ensures
        r == detents(d, kind),
        -MAX_SCROLL_DETENTS <= r <= MAX_SCROLL_DETENTS,
{
    let v: i32 = match kind {
        ScrollKind::Line => round_to_i32(d, 0),
        ScrollKind::Pixel => round_to_i32(d, 4),
    };
    if v < -MAX_SCROLL_DETENTS {
        -MAX_SCROLL_DETENTS
    } else if v > MAX_SCROLL_DETENTS {
        MAX_SCROLL_DETENTS
    } else {
        v
    }
}

/// The injector of the Linux backend: what it knows of the host. The devices belong to whoever
/// carries its plans out.
pub struct UinputInjector {
    last_motion_absolute: bool,
    held_keys: HeldKeys,
    held_buttons: HeldButtons,
    last_cursor_seq: Option<u32>,
}

impl View for UinputInjector {
    type V = UinputState;

    closed spec fn view(&self) -> UinputState {
        UinputState {
            absolute: self.last_motion_absolute,
            keys: self.held_keys@,
            buttons: self.held_buttons,
            last_seq: self.last_cursor_seq,
        }
    }
}

impl UinputInjector {
    /// An injector that has done nothing yet.
    pub fn new() -> (r: Self)
        ensures
            r@ == (UinputState {
                absolute: false,
                keys: Set::empty(),
                buttons: HeldButtons::none(),
                last_seq: None,
            }),
    {
        UinputInjector {
            last_motion_absolute: false,
            held_keys: HeldKeys::new(),
            held_buttons: HeldButtons::new(),
            last_cursor_seq: None,
        }
    }

    fn plan_reconcile(&self, wire: Modifiers, skip: Option<ModBit>) -> (r: Vec<Action>)
        ensures
            r@ == reconcile_plan(self@, wire, skip),
    {
        let all: Vec<ModifierFix> = reconcile_modifiers(&self.held_keys, wire, skip);
        let mut out: Vec<Action> = Vec::new();
        let mut i: usize = 0;
        while i < all.len()
            invariant
                i <= all.len(),
                out@ == fixes_plan(all@.take(i as int)),
            decreases all.len() - i,
        {
            let fix: ModifierFix = all[i];
            assert(all@.take(i + 1).drop_last() == all@.take(i as int));
            assert(all@.take(i + 1).last() == fix);
            match hid_to_evdev(left_usage(fix.bit)) {
                Some(code) => {
                    out.push(Action::Emit(Emission::Key { code, down: fix.press }));
                    out.push(Action::Note(Change::Reconciled(fix)));
                },
                None => {
                    assert(false);
                },
            }
            assert(out@ == fixes_plan(all@.take(i + 1)));
            i = i + 1;
        }
        assert(all@.take(i as int) == all@);
        out
    }

    fn plan_text(&self, text: &str) -> (r: Vec<Action>)
        ensures
            r@ == text_plan(text@, crate::modifiers::is_held(self@.keys, ModBit::Shift)),
    {
        let host: Modifiers = host_modifiers(&self.held_keys);
        let shift_held: bool = host.shift;
        assert(crate::modifiers::has(host, ModBit::Shift) == shift_held);
        let mut out: Vec<Action> = Vec::new();
        for c in it: text.chars()
            invariant
                it.seq() == text@,
                out@ == text_plan(text@.take(it.index() as int), shift_held),
        {
            assert(text@.take(it.index() + 1).drop_last() == text@.take(it.index() as int));
            match char_to_keystroke(c) {
                Some(ks) => {
                    out.push(
                        Action::Emit(
                            Emission::Stroke { code: ks.code, with_shift: ks.shift && !shift_held },
                        ),
                    );
                },
                None => {},
            }
        }
        assert(text@.take(text@.len() as int) == text@);
        out
    }

    fn plan_key(&self, key: HidUsage, modifiers: Modifiers, down: bool) -> (r: Vec<Action>)
        ensures
            r@ == reconcile_plan(self@, modifiers, crate::modifiers::bit_of(key.0)) + key_plan(
                key,
                down,
            ),
    {
        let mut out: Vec<Action> = self.plan_reconcile(modifiers, modifier_bit_of(key));
        let ghost before = out@;
        match hid_to_evdev(key) {
            Some(code) => {
                out.push(Action::Emit(Emission::Key { code, down }));
                out.push(
                    Action::Note(
                        if down {
                            Change::Pressed(key)
                        } else {
                            Change::Released(key)
                        },
                    ),
                );
            },
            None => {},
        }
        assert(out@ == before + key_plan(key, down));
        out
    }

    fn plan_button(&self, button: MouseButton, pressed: bool, modifiers: Modifiers) -> (r: Vec<
        Action,
    >)
        ensures
            r@ == reconcile_plan(self@, modifiers, None) + button_plan(self@, button, pressed),
    {
        let mut out: Vec<Action> = self.plan_reconcile(modifiers, None);
        let ghost before = out@;
        let code: u16 = proto_button_to_btn(button);
        let absolute: bool = if pressed {
            self.last_motion_absolute
        } else {
            match self.held_buttons.get(button) {
                Some(on_abs) => on_abs,
                None => self.last_motion_absolute,
            }
        };
        out.push(
            Action::Note(
                if pressed {
                    Change::ButtonPressed { button, absolute }
                } else {
                    Change::ButtonReleased(button)
                },
            ),
        );
        out.push(Action::Emit(Emission::Button { absolute, code, down: pressed }));
        assert(out@ == before + button_plan(self@, button, pressed));
        out
    }

    fn plan_motion(&self, dx: i16, dy: i16, modifiers: Modifiers) -> (r: Vec<Action>)
        ensures
            r@ == reconcile_plan(self@, modifiers, None) + motion_plan(dx, dy),
    {
        let mut out: Vec<Action> = self.plan_reconcile(modifiers, None);
        let ghost before = out@;
        let (mx, my): (i32, i32) = clamp_relative_delta(dx, dy);
        out.push(Action::Note(Change::Moved { absolute: false }));
        out.push(Action::Emit(Emission::Motion { dx: mx, dy: my }));
        assert(out@ == before + motion_plan(dx, dy));
        out
    }

    fn plan_scroll(
        &self,
        dx: SingleBits,
        dy: SingleBits,
        kind: ScrollKind,
        modifiers: Modifiers,
    ) -> (r: Vec<Action>)
        ensures
            r@ == reconcile_plan(self@, modifiers, None) + scroll_plan(
                self@,
                detents(dy, kind),
                detents(dx, kind),
            ),
    {
        let mut out: Vec<Action> = self.plan_reconcile(modifiers, None);
        let ghost before = out@;
        let (vert, horiz): (i32, i32) = scroll_detents(dx, dy, kind);
        if vert != 0 || horiz != 0 {
            out.push(
                Action::Emit(Emission::Wheel { absolute: self.last_motion_absolute, vert, horiz }),
            );
        }
        assert(out@ == before + scroll_plan(self@, vert, horiz));
        out
    }

    /// What an event asks for.
    pub fn inject(&self, evt: &InputEvent) -> (r: Vec<Action>)
        ensures
            r@ == event_plan(self@, evt.kind),
    {
        match &evt.kind {
            InputEventKind::KeyDown { key, modifiers } => self.plan_key(*key, *modifiers, true),
            InputEventKind::KeyUp { key, modifiers } => self.plan_key(*key, *modifiers, false),
            InputEventKind::Text { utf8 } => self.plan_text(utf8.as_str()),
            InputEventKind::MouseButton { button, pressed, modifiers } => self.plan_button(
                *button,
                *pressed,
                *modifiers,
            ),
            InputEventKind::RelativeMouseMove { dx, dy, modifiers } => self.plan_motion(
                *dx,
                *dy,
                *modifiers,
            ),
            InputEventKind::MouseScroll { dx, dy, kind, modifiers } => self.plan_scroll(
                *dx,
                *dy,
                *kind,
                *modifiers,
            ),
        }
    }

    /// What a pointer position asks for.
    pub fn inject_cursor(&self, cursor: &ClientCursorPacket) -> (r: Vec<Action>)
        ensures
            r@ == cursor_plan(self@, *cursor),
    {
        let mut out: Vec<Action> = Vec::new();
        if is_out_of_order(cursor.seq, self.last_cursor_seq) {
            return out;
        }
        out.push(Action::Note(Change::Positioned { seq: cursor.seq }));
        if !cursor.visible {
            return out;
        }
        let x: i32 = normalised_to_abs(cursor.x);
        let y: i32 = normalised_to_abs(cursor.y);
        out.push(Action::Note(Change::Moved { absolute: true }));
        out.push(Action::Emit(Emission::Place { x, y }));
        out
    }

    /// Take note of a change.
    pub fn note(&mut self, change: Change)
        ensures
            final(self)@ == after_change(old(self)@, change),
    {
        match change {
            Change::Pressed(key) => {
                self.held_keys.insert(key);
            },
            Change::Released(key) => {
                self.held_keys.remove(key);
            },
            Change::Reconciled(fix) => {
                carry_out(&mut self.held_keys, fix);
            },
            Change::ButtonPressed { button, absolute } => {
                self.held_buttons.set(button, Some(absolute));
            },
            Change::ButtonReleased(button) => {
                self.held_buttons.set(button, None);
            },
            Change::Moved { absolute } => {
                self.last_motion_absolute = absolute;
            },
            Change::Positioned { seq } => {
                self.last_cursor_seq = Some(seq);
            },
        }
    }

    /// Let go of all that is held, for when the client is gone. A release that fails is passed
    /// over.
    pub fn release_all(&mut self) -> (r: Vec<Emission>)
        ensures
            releases_all(old(self)@, r@),
            final(self)@ == (UinputState {
                keys: Set::empty(),
                buttons: HeldButtons::none(),
                ..old(self)@
            }),
    {
        let buttons: HeldButtons = self.held_buttons;
        let ghost of_key = |usage: u32| key_release(usage);
        let ghost of_button = |button: MouseButton| button_release(buttons, button);
        let order: Vec<u32> = self.held_keys.drain();
        let mut out: Vec<Emission> = Vec::new();
        let mut i: usize = 0;
        while i < order.len()
            invariant
                i <= order.len(),
                of_key == |usage: u32| key_release(usage),
                out@ == order@.take(i as int).filter_map(of_key),
            decreases order.len() - i,
        {
            proof {
                order@.lemma_filter_map_take_succ(of_key, i as int);
            }
            match hid_to_evdev(HidUsage(order[i])) {
                Some(code) => {
                    out.push(Emission::Key { code, down: false });
                },
                None => {},
            }
            i = i + 1;
        }
        assert(order@.take(i as int) == order@);
        let each: [MouseButton; 5] = each_button();
        let mut j: usize = 0;
        while j < 5
            invariant
                j <= 5,
                each@.len() == 5,
                of_button == |button: MouseButton| button_release(buttons, button),
                out@ == order@.filter_map(of_key) + each@.take(j as int).filter_map(of_button),
            decreases 5 - j,
        {
            proof {
                each@.lemma_filter_map_take_succ(of_button, j as int);
            }
            match buttons.get(each[j]) {
                Some(absolute) => {
                    let code: u16 = proto_button_to_btn(each[j]);
                    out.push(Emission::Button { absolute, code, down: false });
                },
                None => {},
            }
            j = j + 1;
        }
        assert(each@.take(j as int) == each@);
        assert(out@ == releases(old(self)@, order@));
        assert(crate::held::lists(order@, old(self)@.keys));
        self.held_buttons = HeldButtons::new();
        out
    }
}

/// The event is one that the device announced when it was created. Absolute coordinates lie
/// within the announced axis.
pub open spec fn announces(device: Device, event: DeviceEvent) -> bool {
    match event {
        DeviceEvent::Report => true,
        DeviceEvent::Key { code, .. } => match device {
            Device::Keyboard => crate::evdev_keys::is_key(code),
            _ => exists|b: MouseButton| #[trigger] crate::evdev_keys::button_code(b) == code,
        },
        DeviceEvent::Relative { axis, .. } => match device {
            Device::Keyboard => false,
            Device::RelativePointer => axis == REL_X || axis == REL_Y || is_wheel(axis),
            Device::AbsolutePointer => is_wheel(axis),
        },
        DeviceEvent::Absolute { axis, value } => device == Device::AbsolutePointer && (axis == ABS_X
            || axis == ABS_Y) && 0 <= value <= crate::single::ABS_MAX,
    }
}

/// The keys or buttons that a device announces.
pub fn announced_keys(device: Device) -> (r: KeySet)
    ensures
        forall|code: u16, value: i32|
            crate::key_set::keys_in(r).contains(code) <==> #[trigger] announces(
                device,
                DeviceEvent::Key { code, value },
            ),
{
    match device {
        Device::Keyboard => keyboard_keycodes(),
        _ => {
            assert(crate::evdev_keys::button_code(MouseButton::Left)
                == crate::evdev_keys::BTN_LEFT);
            assert(crate::evdev_keys::button_code(MouseButton::Right)
                == crate::evdev_keys::BTN_RIGHT);
            assert(crate::evdev_keys::button_code(MouseButton::Middle)
                == crate::evdev_keys::BTN_MIDDLE);
            assert(crate::evdev_keys::button_code(MouseButton::X1)
                == crate::evdev_keys::BTN_SIDE);
            assert(crate::evdev_keys::button_code(MouseButton::X2)
                == crate::evdev_keys::BTN_EXTRA);
            pointer_buttons()
        },
    }
}

/// The relative axes that a device announces.
pub fn announced_axes(device: Device) -> (r: Vec<u16>)
    ensures
        forall|axis: u16, value: i32|
            r@.contains(axis) <==> #[trigger] announces(
                device,
                DeviceEvent::Relative { axis, value },
            ),
{
    match device {
        Device::Keyboard => Vec::new(),
        Device::RelativePointer => {
            let r: Vec<u16> = vec![
                REL_X,
                REL_Y,
                REL_WHEEL,
                REL_HWHEEL,
                REL_WHEEL_HI_RES,
                REL_HWHEEL_HI_RES,
            ];
            assert(r@[0] == REL_X && r@[1] == REL_Y && r@[2] == REL_WHEEL && r@[3] == REL_HWHEEL
                && r@[4] == REL_WHEEL_HI_RES && r@[5] == REL_HWHEEL_HI_RES);
            r
        },
        Device::AbsolutePointer => {
            let r: Vec<u16> = vec![REL_WHEEL, REL_HWHEEL, REL_WHEEL_HI_RES, REL_HWHEEL_HI_RES];
            assert(r@[0] == REL_WHEEL && r@[1] == REL_HWHEEL && r@[2] == REL_WHEEL_HI_RES && r@[3]
                == REL_HWHEEL_HI_RES);
            r
        },
    }
}

/// Why `/dev/uinput` could not be opened, in words.
pub open spec fn open_failure_text(permission_denied: bool, e: Seq<char>) -> Seq<char> {
    if permission_denied {
        "cannot open /dev/uinput ("@ + e + "); run `tether-host --setup-input` once to grant access"@
    } else {
        "open /dev/uinput: "@ + e
    }
}

/// Why a virtual device could not be created, in words. Missing permission has a remedy.
pub fn open_uinput_error(permission_denied: bool, e: &str) -> (r: String)
    ensures
        r@ == open_failure_text(permission_denied, e@),
{
    if permission_denied {
        let mut s: String = "cannot open /dev/uinput (".to_owned();
        s.append(e);
        s.append("); run `tether-host --setup-input` once to grant access");
        s
    } else {
        let mut s: String = "open /dev/uinput: ".to_owned();
        s.append(e);
        s
    }
}

/// How opening `/dev/uinput` failed.
#[derive(Clone, Copy, Debug, PartialEq, Eq, Structural)]
pub enum OpenFailure {
    /// There is no such device: the kernel module is not loaded.
    NotFound,
    /// The device is there and may not be written.
    PermissionDenied,
    /// Anything else.
    Other,
}

/// The error of a failure to open `/dev/uinput`. A device that is missing or may not be written
/// is unavailable: a one-time privileged setup mends that. Any other failure is one of the
/// backend.
pub fn device_open_error(failure: OpenFailure, e: &str) -> (r: InjectError)
    ensures
        match failure {
            OpenFailure::NotFound => r matches InjectError::DeviceUnavailable(what) && what@
                == open_failure_text(false, e@),
            OpenFailure::PermissionDenied => r matches InjectError::DeviceUnavailable(what) && what@
                == open_failure_text(true, e@),
            OpenFailure::Other => r matches InjectError::Init(what) && what@ == open_failure_text(
                false,
                e@,
            ),
        },
{
    match failure {
        OpenFailure::NotFound => InjectError::DeviceUnavailable(open_uinput_error(false, e)),
        OpenFailure::PermissionDenied => InjectError::DeviceUnavailable(open_uinput_error(true, e)),
        OpenFailure::Other => InjectError::Init(open_uinput_error(false, e)),
    }
}

/// The axis of a wheel.
pub open spec fn is_wheel(axis: u16) -> bool {
    axis == REL_WHEEL || axis == REL_HWHEEL || axis == REL_WHEEL_HI_RES || axis == REL_HWHEEL_HI_RES
}

/// All events of the emission are announced by its device, and none overflows.
pub open spec fn is_announced(e: Emission) -> bool {
    &&& e.in_range()
    &&& forall|i: int| 0 <= i < e.frame().len() ==> announces(e.target(), #[trigger] e.frame()[i])
}

/// The frame ends with a report, and no key appears twice between two reports.
pub open spec fn is_well_framed(frame: Seq<DeviceEvent>) -> bool {
    &&& frame.len() > 0
    &&& frame.last() == DeviceEvent::Report
    &&& forall|i: int, j: int|
        0 <= i < j < frame.len() && same_key(#[trigger] frame[i], #[trigger] frame[j])
            ==> frame.subrange(i, j).contains(DeviceEvent::Report)
}

/// Both events are about one key.
pub open spec fn same_key(a: DeviceEvent, b: DeviceEvent) -> bool {
    match (a, b) {
        (DeviceEvent::Key { code: c, .. }, DeviceEvent::Key { code: d, .. }) => c == d,
        _ => false,
    }
}

/// Every emission of the plan is announced and well framed.
pub open spec fn is_sound(plan: Seq<Action>) -> bool {
    forall|i: int|
        0 <= i < plan.len() ==> (#[trigger] plan[i] matches Action::Emit(e) ==> (is_announced(e)
            && is_well_framed(e.frame())))
}

proof fn lemma_key_emission(code: u16, down: bool)
    requires
        crate::evdev_keys::is_key(code),
    ensures
        is_announced(Emission::Key { code, down }),
        is_well_framed((Emission::Key { code, down }).frame()),
{
}

proof fn lemma_stroke_emission(c: char, with_shift: bool)
    requires
        crate::evdev_keys::stroke_of(c) is Some,
    ensures
        ({
            let e = Emission::Stroke {
                code: (crate::evdev_keys::stroke_of(c)->0).code,
                with_shift,
            };
            is_announced(e) && is_well_framed(e.frame())
        }),
{
    crate::evdev_keys::strokes_press_announced_keys(c);
    let ks = crate::evdev_keys::stroke_of(c)->0;
    let e = Emission::Stroke { code: ks.code, with_shift };
    crate::evdev_keys::strokes_never_press_shift(c);
    let f = e.frame();
    if with_shift {
        assert(f[2] == DeviceEvent::Report);
    } else {
        assert(f[1] == DeviceEvent::Report);
    }
    assert forall|i: int, j: int|
        0 <= i < j < f.len() && same_key(#[trigger] f[i], #[trigger] f[j]) implies f.subrange(
        i,
        j,
    ).contains(DeviceEvent::Report) by {
        let k: int = if with_shift {
            2
        } else {
            1
        };
        assert(i < k < j);
        assert(f.subrange(i, j)[k - i] == DeviceEvent::Report);
    }
}

proof fn lemma_fixes_sound(all: Seq<ModifierFix>)
    ensures
        is_sound(fixes_plan(all)),
    decreases all.len(),
{
    if all.len() > 0 {
        lemma_fixes_sound(all.drop_last());
        let usage = crate::modifiers::left_key(all.last().bit);
        let code = crate::evdev_keys::code_of(usage)->0;
        assert(crate::evdev_keys::code_of(usage) == Some(code));
        lemma_key_emission(code, all.last().press);
    }
}

proof fn lemma_text_sound(text: Seq<char>, shift_held: bool)
    ensures
        is_sound(text_plan(text, shift_held)),
    decreases text.len(),
{
    if text.len() > 0 {
        lemma_text_sound(text.drop_last(), shift_held);
        match crate::evdev_keys::stroke_of(text.last()) {
            Some(ks) => {
                lemma_stroke_emission(text.last(), ks.shift && !shift_held);
            },
            None => {},
        }
    }
}

proof fn lemma_sound_concat(a: Seq<Action>, b: Seq<Action>)
    requires
        is_sound(a),
        is_sound(b),
    ensures
        is_sound(a + b),
{
}

proof fn lemma_button_sound(st: UinputState, button: MouseButton, pressed: bool)
    ensures
        is_sound(button_plan(st, button, pressed)),
{
    assert(crate::evdev_keys::button_code(button) == crate::evdev_keys::button_code(button));
}

proof fn lemma_motion_sound(dx: i16, dy: i16)
    ensures
        is_sound(motion_plan(dx, dy)),
{
}

proof fn lemma_scroll_sound(st: UinputState, dx: SingleBits, dy: SingleBits, kind: ScrollKind)
    ensures
        is_sound(scroll_plan(st, detents(dy, kind), detents(dx, kind))),
{
}

proof fn lemma_own_plan_sound(st: UinputState, kind: InputEventKind)
    ensures
        is_sound(own_plan(st, kind)),
{
    match kind {
        InputEventKind::KeyDown { key, .. } => lemma_key_sound(key, true),
        InputEventKind::KeyUp { key, .. } => lemma_key_sound(key, false),
        InputEventKind::Text { utf8 } => lemma_text_sound(
            utf8@,
            crate::modifiers::is_held(st.keys, ModBit::Shift),
        ),
        InputEventKind::MouseButton { button, pressed, .. } => lemma_button_sound(
            st,
            button,
            pressed,
        ),
        InputEventKind::RelativeMouseMove { dx, dy, .. } => lemma_motion_sound(dx, dy),
        InputEventKind::MouseScroll { dx, dy, kind, .. } => lemma_scroll_sound(st, dx, dy, kind),
    }
}

/// Whatever a client sends, each emission is made of events that its device announced, no
/// high-resolution amount overflows, and no key goes down and up within one report.
pub proof fn events_are_announced_and_framed(st: UinputState, kind: InputEventKind)
    ensures
        is_sound(event_plan(st, kind)),
{
    lemma_own_plan_sound(st, kind);
    match crate::modifiers::carried(kind) {
        Some((wire, skip)) => {
            lemma_fixes_sound(crate::modifiers::fixes(st.keys, wire, skip));
            lemma_sound_concat(reconcile_plan(st, wire, skip), own_plan(st, kind));
        },
        None => {},
    }
}

proof fn lemma_key_sound(key: HidUsage, down: bool)
    ensures
        is_sound(key_plan(key, down)),
{
    match crate::evdev_keys::code_of(key.0) {
        Some(code) => {
            lemma_key_emission(code, down);
        },
        None => {},
    }
}

/// The same holds of pointer positions.
pub proof fn positions_are_announced_and_framed(st: UinputState, cursor: ClientCursorPacket)
    ensures
        is_sound(cursor_plan(st, cursor)),
{
    crate::single::places_lie_on_the_axis(cursor.x);
    crate::single::places_lie_on_the_axis(cursor.y);
}

/// The limit on detents is the largest one: one more would overflow in high resolution.
pub proof fn detent_limit_is_tight()
    ensures
        MAX_SCROLL_DETENTS * WHEEL_HI_RES_PER_DETENT <= i32::MAX,
        (MAX_SCROLL_DETENTS + 1) * WHEEL_HI_RES_PER_DETENT > i32::MAX,
{
}

proof fn lemma_after_fixes_plan(st: UinputState, all: Seq<ModifierFix>)
    ensures
        after_plan(st, fixes_plan(all)) == (UinputState {
            keys: crate::modifiers::after_fixes(st.keys, all),
            ..st
        }),
{
    let part = |fix: ModifierFix| fix_plan(fix);
    let reached = |done: Seq<ModifierFix>|
        UinputState { keys: crate::modifiers::after_fixes(st.keys, done), ..st };
    assert forall|done: Seq<ModifierFix>| done.len() > 0 implies part(done.last()).fold_left(
        reached(done.drop_last()),
        stepping(),
    ) == #[trigger] reached(done) by {
        crate::plan::lemma_two_steps(reached(done.drop_last()), part(done.last()), stepping());
    }
    crate::plan::lemma_after_joined(all, part, stepping(), reached);
}

/// What an event leaves behind, once all of its plan was carried out.
pub open spec fn after_event(st: UinputState, kind: InputEventKind) -> UinputState {
    after_plan(st, event_plan(st, kind))
}

proof fn lemma_after_text(st: UinputState, text: Seq<char>, shift_held: bool)
    ensures
        after_plan(st, text_plan(text, shift_held)) == st,
    decreases text.len(),
{
    if text.len() > 0 {
        lemma_after_text(st, text.drop_last(), shift_held);
        match crate::evdev_keys::stroke_of(text.last()) {
            Some(ks) => {
                let before = text_plan(text.drop_last(), shift_held);
                let e = Action::Emit(
                    Emission::Stroke { code: ks.code, with_shift: ks.shift && !shift_held },
                );
                assert(before.push(e).drop_last() == before);
            },
            None => {},
        }
    }
}

/// An event in two parts: the modifiers first, then its own doing.
proof fn lemma_after_event(st: UinputState, kind: InputEventKind)
    ensures
        ({
            let mid = match crate::modifiers::carried(kind) {
                Some((wire, skip)) => UinputState {
                    keys: crate::modifiers::after_fixes(
                        st.keys,
                        crate::modifiers::fixes(st.keys, wire, skip),
                    ),
                    ..st
                },
                None => st,
            };
            after_event(st, kind) == after_plan(mid, own_plan(st, kind))
        }),
{
    match crate::modifiers::carried(kind) {
        Some((wire, skip)) => {
            let first = reconcile_plan(st, wire, skip);
            crate::plan::lemma_two_parts(st, first, own_plan(st, kind), stepping());
            lemma_after_fixes_plan(st, crate::modifiers::fixes(st.keys, wire, skip));
        },
        None => {},
    }
}

/// After an event the host holds the modifiers that the client held with it, but for the one that
/// the event is itself about.
pub proof fn modifiers_follow_the_client(st: UinputState, kind: InputEventKind, bit: ModBit)
    requires
        crate::modifiers::carried(kind) is Some,
        (crate::modifiers::carried(kind)->0).1 != Some(bit),
    ensures
        crate::modifiers::is_held(after_event(st, kind).keys, bit) == crate::modifiers::has(
            (crate::modifiers::carried(kind)->0).0,
            bit,
        ),
{
    let (wire, skip) = crate::modifiers::carried(kind)->0;
    let fixed = crate::modifiers::after_fixes(
        st.keys,
        crate::modifiers::fixes(st.keys, wire, skip),
    );
    let mid = UinputState { keys: fixed, ..st };
    lemma_after_event(st, kind);
    crate::modifiers::reconciled_modifiers_agree(st.keys, wire, skip);
    assert(crate::modifiers::is_held(fixed, bit) == crate::modifiers::has(wire, bit));
    lemma_own_plan(mid, st, kind);
    match kind {
        InputEventKind::KeyDown { key, .. } => {
            lemma_other_bit(key.0, bit);
        },
        InputEventKind::KeyUp { key, .. } => {
            lemma_other_bit(key.0, bit);
        },
        _ => {},
    }
}

proof fn lemma_other_bit(usage: u32, bit: ModBit)
    requires
        crate::modifiers::bit_of(usage) != Some(bit),
    ensures
        usage != crate::modifiers::left_key(bit),
        usage != crate::modifiers::right_key(bit),
{
    crate::modifiers::modifiers_have_two_keys(usage, bit);
}

/// What the own doing of an event changes.
proof fn lemma_own_plan(mid: UinputState, st: UinputState, kind: InputEventKind)
    ensures
        ({
            let end = after_plan(mid, own_plan(st, kind));
            match kind {
                InputEventKind::KeyDown { key, .. } => end == (UinputState {
                    keys: if crate::evdev_keys::code_of(key.0) is Some {
                        mid.keys.insert(key.0)
                    } else {
                        mid.keys
                    },
                    ..mid
                }),
                InputEventKind::KeyUp { key, .. } => end == (UinputState {
                    keys: if crate::evdev_keys::code_of(key.0) is Some {
                        mid.keys.remove(key.0)
                    } else {
                        mid.keys
                    },
                    ..mid
                }),
                InputEventKind::Text { .. } => end == mid,
                InputEventKind::MouseButton { button, pressed, .. } => end == (UinputState {
                    buttons: mid.buttons.with(
                        button,
                        if pressed {
                            Some(st.absolute)
                        } else {
                            None
                        },
                    ),
                    ..mid
                }),
                InputEventKind::RelativeMouseMove { .. } => end == (UinputState {
                    absolute: false,
                    ..mid
                }),
                InputEventKind::MouseScroll { .. } => end == mid,
            }
        }),
{
    let plan = own_plan(st, kind);
    match kind {
        InputEventKind::Text { utf8 } => {
            lemma_after_text(mid, utf8@, crate::modifiers::is_held(st.keys, ModBit::Shift));
        },
        InputEventKind::MouseScroll { .. } => {
            if plan.len() > 0 {
                crate::plan::lemma_one_step(mid, plan, stepping());
            }
        },
        _ => {
            if plan.len() == 2 {
                crate::plan::lemma_two_steps(mid, plan, stepping());
            }
        },
    }
}

/// Typing text changes nothing that is held.
pub proof fn typing_leaves_everything_held(st: UinputState, utf8: String)
    ensures
        after_event(st, InputEventKind::Text { utf8 }) == st,
{
    lemma_after_text(st, utf8@, crate::modifiers::is_held(st.keys, ModBit::Shift));
}

/// A key that has a code is held after it went down, and not after it came up; every other key is
/// as the modifiers of the event leave it.
pub proof fn keys_are_held_between_down_and_up(
    st: UinputState,
    key: HidUsage,
    modifiers: Modifiers,
)
    requires
        crate::evdev_keys::code_of(key.0) is Some,
    ensures
        after_event(st, InputEventKind::KeyDown { key, modifiers }).keys.contains(key.0),
        !after_event(st, InputEventKind::KeyUp { key, modifiers }).keys.contains(key.0),
        crate::modifiers::bit_of(key.0) is None ==> {
            let down = after_event(st, InputEventKind::KeyDown { key, modifiers });
            let up = after_event(down, InputEventKind::KeyUp { key, modifiers });
            forall|u: u32| u != key.0 ==> (#[trigger] up.keys.contains(u) <==> down.keys.contains(u))
        },
{
    let skip = crate::modifiers::bit_of(key.0);
    let down_kind = InputEventKind::KeyDown { key, modifiers };
    let up_kind = InputEventKind::KeyUp { key, modifiers };
    let fixed = UinputState {
        keys: crate::modifiers::after_fixes(
            st.keys,
            crate::modifiers::fixes(st.keys, modifiers, skip),
        ),
        ..st
    };
    lemma_after_event(st, down_kind);
    lemma_own_plan(fixed, st, down_kind);
    lemma_after_event(st, up_kind);
    lemma_own_plan(fixed, st, up_kind);
    if skip is None {
        let down = after_event(st, down_kind);
        crate::modifiers::reconciled_modifiers_agree(st.keys, modifiers, skip);
        assert forall|bit: ModBit| #[trigger]
            crate::modifiers::is_held(down.keys, bit) == crate::modifiers::has(modifiers, bit) by {
            modifiers_follow_the_client(st, down_kind, bit);
        }
        assert(crate::modifiers::fixes(down.keys, modifiers, skip) == Seq::<ModifierFix>::empty());
        lemma_after_event(down, up_kind);
        lemma_own_plan(down, down, up_kind);
    }
}

/// A release goes to the pointer that the press went to, whichever has moved since: the press
/// notes its pointer, no other event and no pointer position changes that, and the release takes
/// it from there.
pub proof fn release_goes_where_the_press_went(
    st: UinputState,
    button: MouseButton,
    modifiers: Modifiers,
    other: InputEventKind,
    cursor: ClientCursorPacket,
)
    requires
        other matches InputEventKind::MouseButton { button: b, .. } ==> b != button,
    ensures
        ({
            let press = InputEventKind::MouseButton { button, pressed: true, modifiers };
            &&& after_event(st, press).buttons.at(button) == Some(st.absolute)
            &&& event_plan(st, press).last() == Action::Emit(
                Emission::Button {
                    absolute: st.absolute,
                    code: crate::evdev_keys::button_code(button),
                    down: true,
                },
            )
        }),
        after_event(st, other).buttons.at(button) == st.buttons.at(button),
        after_plan(st, cursor_plan(st, cursor)).buttons == st.buttons,
        ({
            let release = InputEventKind::MouseButton { button, pressed: false, modifiers };
            &&& after_event(st, release).buttons.at(button) is None
            &&& st.buttons.at(button) matches Some(place) ==> event_plan(st, release).last()
                == Action::Emit(
                Emission::Button {
                    absolute: place,
                    code: crate::evdev_keys::button_code(button),
                    down: false,
                },
            )
        }),
{
    let press = InputEventKind::MouseButton { button, pressed: true, modifiers };
    let release = InputEventKind::MouseButton { button, pressed: false, modifiers };
    let fixed = UinputState {
        keys: crate::modifiers::after_fixes(
            st.keys,
            crate::modifiers::fixes(st.keys, modifiers, None),
        ),
        ..st
    };
    lemma_after_event(st, press);
    lemma_own_plan(fixed, st, press);
    lemma_after_event(st, release);
    lemma_own_plan(fixed, st, release);
    lemma_after_event(st, other);
    match crate::modifiers::carried(other) {
        Some((wire, skip)) => {
            lemma_own_plan(
                UinputState {
                    keys: crate::modifiers::after_fixes(
                        st.keys,
                        crate::modifiers::fixes(st.keys, wire, skip),
                    ),
                    ..st
                },
                st,
                other,
            );
        },
        None => {
            lemma_own_plan(st, st, other);
        },
    }
    lemma_after_cursor(st, cursor);
}

proof fn lemma_after_cursor(st: UinputState, cursor: ClientCursorPacket)
    ensures
        after_plan(st, cursor_plan(st, cursor)) == (if crate::inject::is_stale(
            cursor.seq,
            st.last_seq,
        ) {
            st
        } else {
            UinputState {
                last_seq: Some(cursor.seq),
                absolute: st.absolute || cursor.visible,
                ..st
            }
        }),
{
    let plan = cursor_plan(st, cursor);
    if plan.len() == 3 {
        crate::plan::lemma_two_steps(st, plan.drop_last(), stepping());
    } else if plan.len() == 1 {
        crate::plan::lemma_one_step(st, plan, stepping());
    }
}

/// A stale pointer position asks for nothing; any other is remembered.
pub proof fn stale_positions_change_nothing(st: UinputState, cursor: ClientCursorPacket)
    ensures
        crate::inject::is_stale(cursor.seq, st.last_seq) ==> cursor_plan(st, cursor).len() == 0,
        !crate::inject::is_stale(cursor.seq, st.last_seq) ==> after_plan(
            st,
            cursor_plan(st, cursor),
        ).last_seq == Some(cursor.seq),
{
    lemma_after_cursor(st, cursor);
}

/// Every held key has a code, so that it can be released.
pub open spec fn can_be_released(st: UinputState) -> bool {
    forall|u: u32| #[trigger] st.keys.contains(u) ==> crate::evdev_keys::code_of(u) is Some
}

/// A step notes a key as held only if it has a code.
pub open spec fn presses_with_code(step: Action) -> bool {
    step matches Action::Note(Change::Pressed(key)) ==> crate::evdev_keys::code_of(key.0) is Some
}

/// So do all steps of a plan.
pub open spec fn all_press_with_code(plan: Seq<Action>) -> bool {
    forall|i: int| 0 <= i < plan.len() ==> presses_with_code(#[trigger] plan[i])
}

proof fn lemma_press_concat(a: Seq<Action>, b: Seq<Action>)
    requires
        all_press_with_code(a),
        all_press_with_code(b),
    ensures
        all_press_with_code(a + b),
{
}

proof fn lemma_fixes_press_no_key(all: Seq<ModifierFix>)
    ensures
        all_press_with_code(fixes_plan(all)),
    decreases all.len(),
{
    if all.len() > 0 {
        lemma_fixes_press_no_key(all.drop_last());
        lemma_press_concat(fixes_plan(all.drop_last()), fix_plan(all.last()));
    }
}

proof fn lemma_text_presses_no_key(text: Seq<char>, shift_held: bool)
    ensures
        all_press_with_code(text_plan(text, shift_held)),
    decreases text.len(),
{
    if text.len() > 0 {
        lemma_text_presses_no_key(text.drop_last(), shift_held);
    }
}

proof fn lemma_own_presses(st: UinputState, kind: InputEventKind)
    ensures
        all_press_with_code(own_plan(st, kind)),
{
    match kind {
        InputEventKind::Text { utf8 } => {
            lemma_text_presses_no_key(utf8@, crate::modifiers::is_held(st.keys, ModBit::Shift));
        },
        _ => {},
    }
}

proof fn lemma_presses_have_codes(st: UinputState, kind: InputEventKind)
    ensures
        all_press_with_code(event_plan(st, kind)),
{
    lemma_own_presses(st, kind);
    match crate::modifiers::carried(kind) {
        Some((wire, skip)) => {
            lemma_fixes_press_no_key(crate::modifiers::fixes(st.keys, wire, skip));
            lemma_press_concat(reconcile_plan(st, wire, skip), own_plan(st, kind));
        },
        None => {},
    }
}

proof fn lemma_prefix_can_be_released(st: UinputState, plan: Seq<Action>, done: int)
    requires
        can_be_released(st),
        all_press_with_code(plan),
        0 <= done <= plan.len(),
    ensures
        can_be_released(after_plan(st, plan.take(done))),
    decreases done,
{
    if done > 0 {
        lemma_prefix_can_be_released(st, plan, done - 1);
        assert(plan.take(done).drop_last() == plan.take(done - 1));
        assert(plan[done - 1] == plan.take(done).last());
    } else {
        assert(plan.take(0) == Seq::<Action>::empty());
    }
}

/// However much of a plan is carried out, every held key can be released.
pub proof fn held_keys_can_be_released(st: UinputState, kind: InputEventKind, done: int)
    requires
        can_be_released(st),
        0 <= done <= event_plan(st, kind).len(),
    ensures
        can_be_released(after_plan(st, event_plan(st, kind).take(done))),
{
    lemma_presses_have_codes(st, kind);
    lemma_prefix_can_be_released(st, event_plan(st, kind), done);
}

/// No step notes anything but modifiers that were brought in line.
spec fn only_reconciles(plan: Seq<Action>) -> bool {
    forall|i: int|
        0 <= i < plan.len() ==> (#[trigger] plan[i] is Emit || plan[i]->Note_0 is Reconciled)
}

proof fn lemma_fixes_only_reconcile(all: Seq<ModifierFix>)
    ensures
        only_reconciles(fixes_plan(all)),
    decreases all.len(),
{
    if all.len() > 0 {
        lemma_fixes_only_reconcile(all.drop_last());
    }
}

proof fn lemma_reconciling_keeps_other_keys(st: UinputState, plan: Seq<Action>, done: int, u: u32)
    requires
        only_reconciles(plan),
        0 <= done <= plan.len(),
        crate::modifiers::bit_of(u) is None,
    ensures
        after_plan(st, plan.take(done)).keys.contains(u) == st.keys.contains(u),
    decreases done,
{
    if done > 0 {
        lemma_reconciling_keeps_other_keys(st, plan, done - 1, u);
        assert(plan.take(done).drop_last() == plan.take(done - 1));
        assert(plan[done - 1] == plan.take(done).last());
    } else {
        assert(plan.take(0) == Seq::<Action>::empty());
    }
}

/// A key whose press failed, or was never reached, does not count as held.
pub proof fn a_failed_press_is_not_held(
    st: UinputState,
    key: HidUsage,
    modifiers: Modifiers,
    done: int,
)
    requires
        crate::modifiers::bit_of(key.0) is None,
        !st.keys.contains(key.0),
        0 <= done < event_plan(st, InputEventKind::KeyDown { key, modifiers }).len(),
    ensures
        !after_plan(
            st,
            event_plan(st, InputEventKind::KeyDown { key, modifiers }).take(done),
        ).keys.contains(key.0),
{
    let first = reconcile_plan(st, modifiers, None);
    let all = event_plan(st, InputEventKind::KeyDown { key, modifiers });
    lemma_fixes_only_reconcile(crate::modifiers::fixes(st.keys, modifiers, None));
    if done <= first.len() {
        assert(all.take(done) == first.take(done));
        lemma_reconciling_keeps_other_keys(st, first, done, key.0);
    } else {
        lemma_reconciling_keeps_other_keys(st, first, first.len() as int, key.0);
        assert(first.take(first.len() as int) == first);
        assert(all.take(done).drop_last() == first);
        assert(all.take(done).last() is Emit);
    }
}

/// When the client is gone, exactly what is held is released: each held key, and each held button
/// on the pointer that it was pressed on.
pub proof fn exactly_what_is_held_is_released(st: UinputState, all: Seq<Emission>, e: Emission)
    requires
        releases_all(st, all),
    ensures
        all.contains(e) <==> (exists|u: u32| #[trigger]
            st.keys.contains(u) && key_release(u) == Some(e)) || (exists|b: MouseButton| #[trigger]
            button_release(st.buttons, b) == Some(e)),
{
    let order = choose|order: Seq<u32>| #[trigger]
        crate::held::lists(order, st.keys) && all == releases(st, order);
    let of_key = |usage: u32| key_release(usage);
    let of_button = |button: MouseButton| button_release(st.buttons, button);
    crate::held::lemma_releases(st.keys, order, of_key, of_button, e);
    assert forall|b: MouseButton| #[trigger] button_release(st.buttons, b) == of_button(b) by {}
}

/// What one event does to the keys or buttons that are down on a device.
pub open spec fn press_of(down: Set<u16>, event: DeviceEvent) -> Set<u16> {
    match event {
        DeviceEvent::Key { code, value } => if value == 0 {
            down.remove(code)
        } else {
            down.insert(code)
        },
        _ => down,
    }
}

/// The keys or buttons that are down on a device after events.
pub open spec fn down_after(down: Set<u16>, events: Seq<DeviceEvent>) -> Set<u16> {
    events.fold_left(down, |d: Set<u16>, e: DeviceEvent| press_of(d, e))
}

/// How far one event moves a relative axis.
pub open spec fn move_of(axis: u16, event: DeviceEvent) -> int {
    match event {
        DeviceEvent::Relative { axis: a, value } if a == axis => value as int,
        _ => 0,
    }
}

/// How far events move a relative axis.
pub open spec fn moved_by(axis: u16, events: Seq<DeviceEvent>) -> int {
    events.fold_left(0, |sum: int, e: DeviceEvent| sum + move_of(axis, e))
}

/// Where one event leaves an absolute axis.
pub open spec fn place_of(axis: u16, at: int, event: DeviceEvent) -> int {
    match event {
        DeviceEvent::Absolute { axis: a, value } if a == axis => value as int,
        _ => at,
    }
}

/// Where an absolute axis is after events.
pub open spec fn placed_at(axis: u16, at: int, events: Seq<DeviceEvent>) -> int {
    events.fold_left(at, |at: int, e: DeviceEvent| place_of(axis, at, e))
}

/// A place puts the horizontal axis of the absolute pointer, number 0, at its `x`, and the
/// vertical one, number 1, at its `y`, wherever they were. It moves and presses nothing else.
pub proof fn a_place_sets_each_axis(x: i32, y: i32, at: int, axis: u16, down: Set<u16>)
    ensures
        ({
            let e = Emission::Place { x, y };
            &&& e.target() == Device::AbsolutePointer
            &&& placed_at(0, at, e.frame()) == x
            &&& placed_at(1, at, e.frame()) == y
            &&& axis > 1 ==> placed_at(axis, at, e.frame()) == at
            &&& moved_by(axis, e.frame()) == 0
            &&& down_after(down, e.frame()) == down
        }),
{
    reveal_with_fuel(Seq::fold_left, 4);
}

/// A motion moves the horizontal axis of the relative pointer, number 0, by its `dx`, and the
/// vertical one, number 1, by its `dy`. It moves and presses nothing else.
pub proof fn a_motion_moves_each_axis(dx: i32, dy: i32, at: int, axis: u16, down: Set<u16>)
    ensures
        ({
            let e = Emission::Motion { dx, dy };
            &&& e.target() == Device::RelativePointer
            &&& moved_by(0, e.frame()) == dx
            &&& moved_by(1, e.frame()) == dy
            &&& axis > 1 ==> moved_by(axis, e.frame()) == 0
            &&& placed_at(axis, at, e.frame()) == at
            &&& down_after(down, e.frame()) == down
        }),
{
    reveal_with_fuel(Seq::fold_left, 4);
}

/// The wheels turn by their detents, the vertical one on axis 8 and the horizontal one on axis 6,
/// and by 120 times as much in high resolution, on axes 11 and 12. The pointer does not move, and
/// nothing is pressed.
pub proof fn wheels_turn_by_their_detents(
    absolute: bool,
    vert: i32,
    horiz: i32,
    at: int,
    axis: u16,
    down: Set<u16>,
)
    requires
        (Emission::Wheel { absolute, vert, horiz }).in_range(),
    ensures
        ({
            let e = Emission::Wheel { absolute, vert, horiz };
            &&& e.target() == (if absolute {
                Device::AbsolutePointer
            } else {
                Device::RelativePointer
            })
            &&& moved_by(8, e.frame()) == vert
            &&& moved_by(6, e.frame()) == horiz
            &&& moved_by(11, e.frame()) == 120 * vert
            &&& moved_by(12, e.frame()) == 120 * horiz
            &&& axis != 6 && axis != 8 && axis != 11 && axis != 12 ==> moved_by(axis, e.frame())
                == 0
            &&& placed_at(axis, at, e.frame()) == at
            &&& down_after(down, e.frame()) == down
        }),
{
    reveal_with_fuel(Seq::fold_left, 6);
    assert((Emission::Wheel { absolute, vert, horiz }).frame() == (if vert == 0 {
        Seq::empty()
    } else {
        seq![
            DeviceEvent::Relative { axis: REL_WHEEL, value: vert },
            DeviceEvent::Relative { axis: REL_WHEEL_HI_RES, value: (vert * 120) as i32 },
        ]
    } + (if horiz == 0 {
        Seq::empty()
    } else {
        seq![
            DeviceEvent::Relative { axis: REL_HWHEEL, value: horiz },
            DeviceEvent::Relative { axis: REL_HWHEEL_HI_RES, value: (horiz * 120) as i32 },
        ]
    })).push(DeviceEvent::Report));
}

/// A key is down on the keyboard after it went down and not after it came up, and so is a button
/// on its pointer. No other is touched.
pub proof fn keys_and_buttons_are_pressed_and_released(
    code: u16,
    absolute: bool,
    down: Set<u16>,
)
    ensures
        ({
            let key_down = Emission::Key { code, down: true };
            let key_up = Emission::Key { code, down: false };
            let button_down = Emission::Button { absolute, code, down: true };
            let button_up = Emission::Button { absolute, code, down: false };
            &&& key_down.target() == Device::Keyboard && key_up.target() == Device::Keyboard
            &&& button_down.target() == button_up.target()
            &&& button_down.target() == (if absolute {
                Device::AbsolutePointer
            } else {
                Device::RelativePointer
            })
            &&& down_after(down, key_down.frame()) == down.insert(code)
            &&& down_after(down, key_up.frame()) == down.remove(code)
            &&& down_after(down, button_down.frame()) == down.insert(code)
            &&& down_after(down, button_up.frame()) == down.remove(code)
        }),
{
    reveal_with_fuel(Seq::fold_left, 3);
}

/// What a stroke has down when it first reports.
pub open spec fn struck(down: Set<u16>, events: Seq<DeviceEvent>, k: int) -> Set<u16> {
    down_after(down, events.take(k))
}

/// A stroke reports its key down, together with left shift, key 42, exactly if it is struck along,
/// and leaves neither down.
pub proof fn strokes_press_and_let_go(code: u16, with_shift: bool, down: Set<u16>)
    requires
        code != 42,
    ensures
        ({
            let e = Emission::Stroke { code, with_shift };
            let f = e.frame();
            &&& e.target() == Device::Keyboard
            &&& exists|k: int|
                0 <= k < f.len() && f[k] is Report && #[trigger] struck(down, f, k) == (
                if with_shift {
                    down.insert(42).insert(code)
                } else {
                    down.insert(code)
                })
            &&& down_after(down, f) == (if with_shift {
                down.remove(code).remove(42)
            } else {
                down.remove(code)
            })
        }),
{
    reveal_with_fuel(Seq::fold_left, 7);
    let f = (Emission::Stroke { code, with_shift }).frame();
    if with_shift {
        assert(f.take(2) == seq![
            DeviceEvent::Key { code: 42, value: 1 },
            DeviceEvent::Key { code, value: 1 },
        ]);
        assert(struck(down, f, 2) == down.insert(42).insert(code));
        assert(down_after(down, f) == down.remove(code).remove(42));
    } else {
        assert(f.take(1) == seq![DeviceEvent::Key { code, value: 1 }]);
        assert(struck(down, f, 1) == down.insert(code));
        assert(down_after(down, f) == down.remove(code));
    }
}

/// A key event ends with its own key: it goes down and is then noted as held, or comes up and is
/// then noted as not. A key without a code does no more than bring the modifiers in line.
pub proof fn key_events_end_with_their_key(st: UinputState, key: HidUsage, modifiers: Modifiers)
    ensures
        ({
            let down = event_plan(st, InputEventKind::KeyDown { key, modifiers });
            let up = event_plan(st, InputEventKind::KeyUp { key, modifiers });
            let first = reconcile_plan(st, modifiers, crate::modifiers::bit_of(key.0));
            match crate::evdev_keys::code_of(key.0) {
                Some(code) => {
                    &&& down.len() == first.len() + 2 && up.len() == first.len() + 2
                    &&& down.take(first.len() as int) == first
                    &&& up.take(first.len() as int) == first
                    &&& down[down.len() - 2] == Action::Emit(Emission::Key { code, down: true })
                    &&& down.last() == Action::Note(Change::Pressed(key))
                    &&& up[up.len() - 2] == Action::Emit(Emission::Key { code, down: false })
                    &&& up.last() == Action::Note(Change::Released(key))
                },
                None => down == first && up == first,
            }
        }),
{
    let first = reconcile_plan(st, modifiers, crate::modifiers::bit_of(key.0));
    let down = event_plan(st, InputEventKind::KeyDown { key, modifiers });
    let up = event_plan(st, InputEventKind::KeyUp { key, modifiers });
    assert(down.take(first.len() as int) == first);
    assert(up.take(first.len() as int) == first);
    if crate::evdev_keys::code_of(key.0) is None {
        assert(down == first);
        assert(up == first);
    }
}

/// The left key of a modifier, as the kernel numbers it.
pub open spec fn modifier_code(bit: ModBit) -> u16 {
    match bit {
        ModBit::Shift => 42,
        ModBit::Ctrl => 29,
        ModBit::Alt => 56,
        ModBit::Meta => 125,
    }
}

/// To bring the modifiers in line, exactly those are struck on which client and host differ: the
/// left key goes down if the client holds the modifier, and comes up if it does not.
pub proof fn reconciling_presses_exactly_what_differs(
    st: UinputState,
    wire: Modifiers,
    skip: Option<ModBit>,
    bit: ModBit,
    press: bool,
)
    ensures
        reconcile_plan(st, wire, skip).contains(
            Action::Emit(Emission::Key { code: modifier_code(bit), down: press }),
        ) <==> {
            &&& skip != Some(bit)
            &&& crate::modifiers::has(wire, bit) == press
            &&& crate::modifiers::is_held(st.keys, bit) != press
        },
{
    let all = crate::modifiers::fixes(st.keys, wire, skip);
    let part = |fix: ModifierFix| fix_plan(fix);
    let e = Action::Emit(Emission::Key { code: modifier_code(bit), down: press });
    let own = ModifierFix { bit, press };
    crate::plan::lemma_joined_contains(all, part, e);
    crate::modifiers::only_what_differs_is_mended(st.keys, wire, skip, own);
    if all.contains(own) {
        assert(part(own)[0] == e);
        assert(part(own).contains(e));
    }
    if exists|fix: ModifierFix| #[trigger] all.contains(fix) && part(fix).contains(e) {
        let fix = choose|fix: ModifierFix| #[trigger] all.contains(fix) && part(fix).contains(e);
        let steps = part(fix);
        let i = choose|i: int| 0 <= i < steps.len() && steps[i] == e;
        assert(i == 0);
        assert(fix == own);
    }
}

/// A relative movement moves the relative pointer by what was sent, each axis by itself, up to a
/// thousand pixels either way, once the pointer is noted to have moved relatively.
pub proof fn movements_move_the_relative_pointer(
    st: UinputState,
    dx: i16,
    dy: i16,
    modifiers: Modifiers,
)
    ensures
        ({
            let plan = event_plan(st, InputEventKind::RelativeMouseMove { dx, dy, modifiers });
            &&& plan.len() >= 2
            &&& plan[plan.len() - 2] == Action::Note(Change::Moved { absolute: false })
            &&& plan.last() matches Action::Emit(Emission::Motion { dx: mx, dy: my }) && {
                &&& mx == (if dx > 1000 {
                    1000
                } else if dx < -1000 {
                    -1000
                } else {
                    dx as int
                })
                &&& my == (if dy > 1000 {
                    1000
                } else if dy < -1000 {
                    -1000
                } else {
                    dy as int
                })
            }
        }),
{
}

/// A scroll turns the wheels of the pointer that moved last: the vertical wheel by the vertical
/// amount and the horizontal one by the horizontal amount, neither of them reversed. Sixteen
/// pixels are one detent. A scroll of no detent turns nothing.
pub proof fn scrolls_turn_each_wheel_its_own_way(
    st: UinputState,
    dx: SingleBits,
    dy: SingleBits,
    kind: ScrollKind,
    modifiers: Modifiers,
)
    ensures
        ({
            let plan = event_plan(st, InputEventKind::MouseScroll { dx, dy, kind, modifiers });
            let first = reconcile_plan(st, modifiers, None);
            let shift: int = if kind == ScrollKind::Pixel {
                4
            } else {
                0
            };
            let v = crate::single::rounded(dy, shift);
            let h = crate::single::rounded(dx, shift);
            if v == 0 && h == 0 {
                plan == first
            } else {
                &&& plan.len() == first.len() + 1
                &&& plan.last() matches Action::Emit(Emission::Wheel { absolute, vert, horiz }) && {
                    &&& absolute == st.absolute
                    &&& -17_895_697 <= v <= 17_895_697 ==> vert == v
                    &&& -17_895_697 <= h <= 17_895_697 ==> horiz == h
                    &&& v > 0 ==> vert > 0
                    &&& v < 0 ==> vert < 0
                    &&& h > 0 ==> horiz > 0
                    &&& h < 0 ==> horiz < 0
                }
            }
        }),
{
    let plan = event_plan(st, InputEventKind::MouseScroll { dx, dy, kind, modifiers });
    let first = reconcile_plan(st, modifiers, None);
    if plan.len() == first.len() {
        assert(plan == first);
    }
}

/// Text is typed character by character: what is typed for two texts in a row is what is typed
/// for both together.
pub proof fn text_is_typed_in_order(a: Seq<char>, b: Seq<char>, shift_held: bool)
    ensures
        text_plan(a + b, shift_held) == text_plan(a, shift_held) + text_plan(b, shift_held),
    decreases b.len(),
{
    if b.len() == 0 {
        assert(a + b == a);
        assert(text_plan(b, shift_held) == Seq::<Action>::empty());
    } else {
        text_is_typed_in_order(a, b.drop_last(), shift_held);
        assert((a + b).drop_last() == a + b.drop_last());
        assert((a + b).last() == b.last());
    }
}

/// A character on a key's caps is typed by striking that key, and the upper one with shift unless
/// that is held already. A character that no key shows is left out, but for white space.
pub proof fn each_character_strikes_its_key(key: crate::protocol::KeyCode, shift_held: bool)
    ensures
        crate::evdev_keys::caps(key) matches Some((lower, upper)) ==> {
            let code = crate::evdev_keys::arriving_code(key)->0;
            &&& text_plan(seq![lower], shift_held) == seq![
                Action::Emit(Emission::Stroke { code, with_shift: false }),
            ]
            &&& text_plan(seq![upper], shift_held) == seq![
                Action::Emit(Emission::Stroke { code, with_shift: !shift_held }),
            ]
        },
{
    crate::evdev_keys::characters_are_typed_by_the_key_that_shows_them(key);
    if let Some((lower, upper)) = crate::evdev_keys::caps(key) {
        assert(seq![lower].drop_last() == Seq::<char>::empty());
        assert(seq![upper].drop_last() == Seq::<char>::empty());
        assert(text_plan(Seq::<char>::empty(), shift_held) == Seq::<Action>::empty());
    }
}

/// A shown pointer position puts the absolute pointer where the packet says: the horizontal axis
/// by its `x`, the vertical one by its `y`. A hidden or stale one emits nothing.
pub proof fn positions_put_the_pointer_where_the_packet_says(
    st: UinputState,
    cursor: ClientCursorPacket,
    at: int,
)
    ensures
        ({
            let plan = cursor_plan(st, cursor);
            let stale = crate::inject::is_stale(cursor.seq, st.last_seq);
            if !stale && cursor.visible {
                &&& plan.len() == 3
                &&& plan[0] == Action::Note(Change::Positioned { seq: cursor.seq })
                &&& plan[1] == Action::Note(Change::Moved { absolute: true })
                &&& plan[2] matches Action::Emit(e) && {
                    &&& e.target() == Device::AbsolutePointer
                    &&& placed_at(0, at, e.frame()) == crate::single::on_axis(cursor.x)
                    &&& placed_at(1, at, e.frame()) == crate::single::on_axis(cursor.y)
                }
            } else {
                &&& forall|i: int| 0 <= i < plan.len() ==> !(#[trigger] plan[i] is Emit)
                &&& plan.len() == (if stale {
                    0int
                } else {
                    1
                })
            }
        }),
{
    crate::single::places_lie_on_the_axis(cursor.x);
    crate::single::places_lie_on_the_axis(cursor.y);
    let x = crate::single::on_axis(cursor.x) as i32;
    let y = crate::single::on_axis(cursor.y) as i32;
    a_place_sets_each_axis(x, y, at, 0, Set::empty());
}

/// What is released when the client is gone is what was pressed: the release of a key or button
/// is its press turned round, on the same device.
pub proof fn releases_undo_presses(st: UinputState, usage: u32, button: MouseButton)
    ensures
        ({
            let pressed = key_plan(HidUsage(usage), true);
            match key_release(usage) {
                Some(e) => {
                    &&& pressed.len() == 2
                    &&& pressed[0] matches Action::Emit(Emission::Key { code, down }) && down && e
                        == (Emission::Key { code, down: false })
                },
                None => pressed.len() == 0,
            }
        }),
        ({
            let pressed = button_plan(st, button, true);
            let held = st.buttons.with(button, Some(st.absolute));
            &&& pressed[1] matches Action::Emit(Emission::Button { absolute, code, down }) && down
                && button_release(held, button) == Some(
                Emission::Button { absolute, code, down: false },
            )
            &&& button_release(st.buttons.with(button, None), button) is None
        }),
{
}

/// What is taken note of changes that and nothing else: a key is held from its press to its
/// release, a button is held on the pointer that it was pressed on, and the pointer is the one that
/// moved last.
pub proof fn notes_change_what_they_name(
    st: UinputState,
    key: HidUsage,
    other_key: u32,
    button: MouseButton,
    other_button: MouseButton,
    absolute: bool,
    seq: u32,
)
    ensures
        ({
            let s = after_change(st, Change::Pressed(key));
            &&& s.keys.contains(key.0)
            &&& other_key != key.0 ==> s.keys.contains(other_key) == st.keys.contains(other_key)
            &&& (s.absolute, s.buttons, s.last_seq) == (st.absolute, st.buttons, st.last_seq)
        }),
        ({
            let s = after_change(st, Change::Released(key));
            &&& !s.keys.contains(key.0)
            &&& other_key != key.0 ==> s.keys.contains(other_key) == st.keys.contains(other_key)
            &&& (s.absolute, s.buttons, s.last_seq) == (st.absolute, st.buttons, st.last_seq)
        }),
        ({
            let s = after_change(st, Change::ButtonPressed { button, absolute });
            &&& s.buttons.at(button) == Some(absolute)
            &&& other_button != button ==> s.buttons.at(other_button) == st.buttons.at(other_button)
            &&& (s.absolute, s.keys, s.last_seq) == (st.absolute, st.keys, st.last_seq)
        }),
        ({
            let s = after_change(st, Change::ButtonReleased(button));
            &&& s.buttons.at(button) is None
            &&& other_button != button ==> s.buttons.at(other_button) == st.buttons.at(other_button)
            &&& (s.absolute, s.keys, s.last_seq) == (st.absolute, st.keys, st.last_seq)
        }),
        ({
            let s = after_change(st, Change::Moved { absolute });
            &&& s.absolute == absolute
            &&& (s.keys, s.buttons, s.last_seq) == (st.keys, st.buttons, st.last_seq)
        }),
        ({
            let s = after_change(st, Change::Positioned { seq });
            &&& s.last_seq == Some(seq)
            &&& (s.absolute, s.keys, s.buttons) == (st.absolute, st.keys, st.buttons)
        }),
{
}

} // verus!
