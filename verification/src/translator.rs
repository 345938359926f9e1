//! Window events to wire events, on the client.
use vstd::prelude::*;

use crate::keymap::keycode_to_hid;
use crate::protocol::{
    ClientCursorPacket, InputEvent, InputEventKind, Modifiers, ModifiersState, MonoNanos,
    MouseButton, RenderEvent, ScrollKind, SingleBits, WindowButton, WireEvent, ZERO_BITS,
};

verus! {

/// What a translator remembers between events.
pub struct TranslatorState {
    pub modifiers: Modifiers,
    pub next_event_id: u64,
    pub next_cursor_seq: u32,
    pub last_cursor: Option<(SingleBits, SingleBits)>,
}

/// The wire's modifiers for the window's.
pub open spec fn wire_modifiers(state: ModifiersState) -> Modifiers {
    Modifiers {
        shift: state.shift_key,
        ctrl: state.control_key,
        alt: state.alt_key,
        meta: state.super_key,
    }
}

/// A modifier that makes a key press a shortcut. Shift alone does not: it only capitalises.
pub open spec fn is_shortcut(m: Modifiers) -> bool {
    m.ctrl || m.alt || m.meta
}

/// The wire's button for the window's.
pub open spec fn wire_button(b: WindowButton) -> Option<MouseButton> {
    match b {
        WindowButton::Left => Some(MouseButton::Left),
        WindowButton::Right => Some(MouseButton::Right),
        WindowButton::Middle => Some(MouseButton::Middle),
        WindowButton::Back => Some(MouseButton::X1),
        WindowButton::Forward => Some(MouseButton::X2),
        WindowButton::Other(_) => None,
    }
}

/// The HID usage of a key, packed.
pub open spec fn wire_key(code: crate::protocol::KeyCode) -> Option<crate::protocol::HidUsage> {
    match crate::keymap::usage_id(code) {
        Some(u) => Some(crate::protocol::HidUsage((crate::keymap::HID_KEYBOARD_BASE + u) as u32)),
        None => None,
    }
}

/// The key press is sent as text: the system made text of it and no shortcut is held.
pub open spec fn is_typed(m: Modifiers, pressed: bool, text: Option<String>) -> bool {
    pressed && (text matches Some(t) && t@.len() > 0) && !is_shortcut(m)
}

/// What a window event says on the reliable stream, if it says anything there.
pub open spec fn input_kind(m: Modifiers, event: RenderEvent) -> Option<InputEventKind> {
    match event {
        RenderEvent::Key { code, pressed, repeat, text } => if repeat {
            None
        } else if is_typed(m, pressed, text) {
            Some(InputEventKind::Text { utf8: text->0 })
        } else {
            match wire_key(code) {
                Some(key) => Some(
                    if pressed {
                        InputEventKind::KeyDown { key, modifiers: m }
                    } else {
                        InputEventKind::KeyUp { key, modifiers: m }
                    },
                ),
                None => None,
            }
        },
        RenderEvent::MouseButton { button, pressed } => match wire_button(button) {
            Some(b) => Some(InputEventKind::MouseButton { button: b, pressed, modifiers: m }),
            None => None,
        },
        RenderEvent::Scroll { dx, dy, by_line } => Some(
            InputEventKind::MouseScroll {
                dx,
                dy,
                kind: if by_line {
                    ScrollKind::Line
                } else {
                    ScrollKind::Pixel
                },
                modifiers: m,
            },
        ),
        _ => None,
    }
}

/// Where the pointer is shown after a window event, if the event is about that: within the
/// video, or nowhere.
pub open spec fn pointer_report(event: RenderEvent) -> Option<Option<(SingleBits, SingleBits)>> {
    match event {
        RenderEvent::Cursor { video_normalized } => Some(video_normalized),
        _ => None,
    }
}

/// The pointer position that is remembered after a window event.
pub open spec fn cursor_after(
    last: Option<(SingleBits, SingleBits)>,
    event: RenderEvent,
) -> Option<(SingleBits, SingleBits)> {
    match event {
        RenderEvent::Cursor { video_normalized } => video_normalized,
        RenderEvent::Focused(focused) => if focused {
            last
        } else {
            None
        },
        _ => last,
    }
}

/// The cursor packet for a pointer position.
pub open spec fn cursor_packet(
    seq: u32,
    at: Option<(SingleBits, SingleBits)>,
    now: MonoNanos,
) -> ClientCursorPacket {
    match at {
        Some((x, y)) => ClientCursorPacket {
            seq,
            display_idx: 0,
            x,
            y,
            visible: true,
            t_client: now,
        },
        None => ClientCursorPacket {
            seq,
            display_idx: 0,
            x: SingleBits(ZERO_BITS),
            y: SingleBits(ZERO_BITS),
            visible: false,
            t_client: now,
        },
    }
}

/// The modifiers that are held after a window event.
pub open spec fn modifiers_after(m: Modifiers, event: RenderEvent) -> Modifiers {
    match event {
        RenderEvent::Modifiers(state) => wire_modifiers(state),
        RenderEvent::Focused(focused) => if focused {
            m
        } else {
            Modifiers::none()
        },
        _ => m,
    }
}

impl TranslatorState {
    /// What goes out for an event.
    pub open spec fn wire_events(self, event: RenderEvent, now: MonoNanos) -> Seq<WireEvent> {
        match pointer_report(event) {
            Some(at) => seq![WireEvent::Cursor(cursor_packet(self.next_cursor_seq, at, now))],
            None => match input_kind(self.modifiers, event) {
                Some(kind) => seq![
                    WireEvent::Input(
                        InputEvent {
                            event_id: self.next_event_id,
                            t_client: now,
                            device_id: 0,
                            kind,
                        },
                    ),
                ],
                None => Seq::empty(),
            },
        }
    }

    /// What is remembered after an event. Both counters wrap.
    pub open spec fn after(self, event: RenderEvent) -> TranslatorState {
        TranslatorState {
            modifiers: modifiers_after(self.modifiers, event),
            next_event_id: if input_kind(self.modifiers, event) is Some {
                wrapped_next_id(self.next_event_id)
            } else {
                self.next_event_id
            },
            next_cursor_seq: if pointer_report(event) is Some {
                wrapped_next_seq(self.next_cursor_seq)
            } else {
                self.next_cursor_seq
            },
            last_cursor: cursor_after(self.last_cursor, event),
        }
    }
}

/// The event id after `id`.
pub open spec fn wrapped_next_id(id: u64) -> u64 {
    if id == u64::MAX {
        0
    } else {
        (id + 1) as u64
    }
}

/// The cursor sequence number after `seq`.
pub open spec fn wrapped_next_seq(seq: u32) -> u32 {
    if seq == u32::MAX {
        0
    } else {
        (seq + 1) as u32
    }
}

/// Translates the window events of one connection, in order.
pub struct WinitTranslator {
    modifiers: Modifiers,
    next_event_id: u64,
    next_cursor_seq: u32,
    last_cursor: Option<(SingleBits, SingleBits)>,
}

impl View for WinitTranslator {
    type V = TranslatorState;

    closed spec fn view(&self) -> TranslatorState {
        TranslatorState {
            modifiers: self.modifiers,
            next_event_id: self.next_event_id,
            next_cursor_seq: self.next_cursor_seq,
            last_cursor: self.last_cursor,
        }
    }
}

/// A translator that has seen nothing yet.
pub open spec fn fresh_translator() -> TranslatorState {
    TranslatorState {
        modifiers: Modifiers::none(),
        next_event_id: 0,
        next_cursor_seq: 0,
        last_cursor: None,
    }
}

impl Default for WinitTranslator {
    fn default() -> (r: Self)
        ensures
            r@ == fresh_translator(),
    {
        WinitTranslator::new()
    }
}

impl WinitTranslator {
    /// A translator for a new connection.
    pub fn new() -> (r: Self)
        ensures
            r@ == fresh_translator(),
    {
        WinitTranslator {
            modifiers: Modifiers::default(),
            next_event_id: 0,
            next_cursor_seq: 0,
            last_cursor: None,
        }
    }

    /// The last position of the pointer within the video.
    pub fn last_cursor(&self) -> (r: Option<(SingleBits, SingleBits)>)
        ensures
            r == self@.last_cursor,
    {
        self.last_cursor
    }

    /// Take one window event and give what goes out for it. `now` stamps what is sent. Changes of
    /// the modifiers or the focus are remembered, and nothing goes out for them.
    pub fn translate(&mut self, event: RenderEvent, now: MonoNanos) -> (r: Vec<WireEvent>)
        ensures
            r@ == old(self)@.wire_events(event, now),
            final(self)@ == old(self)@.after(event),
    {
        match event {
            RenderEvent::Modifiers(state) => {
                self.modifiers = modifiers_from_winit(state);
                Vec::new()
            },
            RenderEvent::Focused(focused) => {
                if !focused {
                    self.modifiers = Modifiers::default();
                    self.last_cursor = None;
                }
                Vec::new()
            },
            RenderEvent::Cursor { video_normalized } => {
                self.last_cursor = video_normalized;
                let pkt = self.next_cursor_packet(video_normalized, now);
                vec![WireEvent::Cursor(pkt)]
            },
            RenderEvent::Key { code, pressed, repeat, text } => {
                if repeat {
                    return Vec::new();
                }
                if pressed {
                    match text {
                        Some(utf8) => {
                            if !utf8.as_str().is_empty() && !uses_shortcut_modifier(
                                self.modifiers,
                            ) {
                                return self.wrap(InputEventKind::Text { utf8 }, now);
                            }
                        },
                        None => {},
                    }
                }
                match keycode_to_hid(code) {
                    Some(key) => {
                        let kind = if pressed {
                            InputEventKind::KeyDown { key, modifiers: self.modifiers }
                        } else {
                            InputEventKind::KeyUp { key, modifiers: self.modifiers }
                        };
                        self.wrap(kind, now)
                    },
                    None => Vec::new(),
                }
            },
            RenderEvent::MouseButton { button, pressed } => match map_mouse_button(button) {
                Some(button) => self.wrap(
                    InputEventKind::MouseButton { button, pressed, modifiers: self.modifiers },
                    now,
                ),
                None => Vec::new(),
            },
            RenderEvent::Scroll { dx, dy, by_line } => {
                let kind = if by_line {
                    ScrollKind::Line
                } else {
                    ScrollKind::Pixel
                };
                self.wrap(
                    InputEventKind::MouseScroll { dx, dy, kind, modifiers: self.modifiers },
                    now,
                )
            },
        }
    }

    fn wrap(&mut self, kind: InputEventKind, now: MonoNanos) -> (r: Vec<WireEvent>)
        ensures
            r@ == seq![
                WireEvent::Input(
                    InputEvent {
                        event_id: old(self)@.next_event_id,
                        t_client: now,
                        device_id: 0,
                        kind,
                    },
                ),
            ],
            final(self)@ == (TranslatorState {
                next_event_id: wrapped_next_id(old(self)@.next_event_id),
                ..old(self)@
            }),
    {
        let evt = InputEvent { event_id: self.next_event_id, t_client: now, device_id: 0, kind };
        self.next_event_id = self.next_event_id.wrapping_add(1);
        vec![WireEvent::Input(evt)]
    }

    fn next_cursor_packet(&mut self, at: Option<(SingleBits, SingleBits)>, now: MonoNanos) -> (r:
        ClientCursorPacket)
        ensures
            r == cursor_packet(old(self)@.next_cursor_seq, at, now),
            final(self)@ == (TranslatorState {
                next_cursor_seq: wrapped_next_seq(old(self)@.next_cursor_seq),
                ..old(self)@
            }),
    {
        let seq: u32 = self.next_cursor_seq;
        self.next_cursor_seq = self.next_cursor_seq.wrapping_add(1);
        match at {
            Some((x, y)) => ClientCursorPacket {
                seq,
                display_idx: 0,
                x,
                y,
                visible: true,
                t_client: now,
            },
            None => ClientCursorPacket {
                seq,
                display_idx: 0,
                x: SingleBits(ZERO_BITS),
                y: SingleBits(ZERO_BITS),
                visible: false,
                t_client: now,
            },
        }
    }
}

/// Is a shortcut modifier held?
fn uses_shortcut_modifier(m: Modifiers) -> (r: bool)
    ensures
        r == is_shortcut(m),
{
    m.ctrl || m.alt || m.meta
}

fn modifiers_from_winit(state: ModifiersState) -> (r: Modifiers)
    ensures
        r == wire_modifiers(state),
{
    Modifiers {
        shift: state.shift_key,
        ctrl: state.control_key,
        alt: state.alt_key,
        meta: state.super_key,
    }
}

fn map_mouse_button(b: WindowButton) -> (r: Option<MouseButton>)
    ensures
        r == wire_button(b),
{
    match b {
        WindowButton::Left => Some(MouseButton::Left),
        WindowButton::Right => Some(MouseButton::Right),
        WindowButton::Middle => Some(MouseButton::Middle),
        WindowButton::Back => Some(MouseButton::X1),
        WindowButton::Forward => Some(MouseButton::X2),
        WindowButton::Other(_) => None,
    }
}

/// The state after a sequence of events.
pub open spec fn state_after(start: TranslatorState, events: Seq<RenderEvent>) -> TranslatorState
    decreases events.len(),
{
    if events.len() == 0 {
        start
    } else {
        state_after(start, events.drop_last()).after(events.last())
    }
}

/// The ids of the input events that a sequence of window events sends, in order.
pub open spec fn sent_ids(start: TranslatorState, events: Seq<RenderEvent>) -> Seq<u64>
    decreases events.len(),
{
    if events.len() == 0 {
        Seq::empty()
    } else {
        let before = state_after(start, events.drop_last());
        let sent = sent_ids(start, events.drop_last());
        if input_kind(before.modifiers, events.last()) is Some {
            sent.push(before.next_event_id)
        } else {
            sent
        }
    }
}

/// The sequence numbers of the cursor packets that a sequence of window events sends, in order.
pub open spec fn sent_seqs(start: TranslatorState, events: Seq<RenderEvent>) -> Seq<u32>
    decreases events.len(),
{
    if events.len() == 0 {
        Seq::empty()
    } else {
        let before = state_after(start, events.drop_last());
        let sent = sent_seqs(start, events.drop_last());
        if pointer_report(events.last()) is Some {
            sent.push(before.next_cursor_seq)
        } else {
            sent
        }
    }
}

/// Input events are numbered one after the other from zero, whatever comes between them, modulo
/// the size of the counter.
pub proof fn input_ids_are_consecutive(events: Seq<RenderEvent>)
    ensures
        state_after(fresh_translator(), events).next_event_id == sent_ids(
            fresh_translator(),
            events,
        ).len() % 0x1_0000_0000_0000_0000,
        forall|i: int|
            0 <= i < sent_ids(fresh_translator(), events).len() ==> #[trigger] sent_ids(
                fresh_translator(),
                events,
            )[i] == i % 0x1_0000_0000_0000_0000,
    decreases events.len(),
{
    if events.len() > 0 {
        input_ids_are_consecutive(events.drop_last());
    }
}

/// Cursor packets are numbered one after the other from zero, whatever comes between them, modulo
/// the size of the counter.
pub proof fn cursor_seqs_are_consecutive(events: Seq<RenderEvent>)
    ensures
        state_after(fresh_translator(), events).next_cursor_seq == sent_seqs(
            fresh_translator(),
            events,
        ).len() % 0x1_0000_0000,
        forall|i: int|
            0 <= i < sent_seqs(fresh_translator(), events).len() ==> #[trigger] sent_seqs(
                fresh_translator(),
                events,
            )[i] == i % 0x1_0000_0000,
    decreases events.len(),
{
    if events.len() > 0 {
        cursor_seqs_are_consecutive(events.drop_last());
    }
}

/// Losing the focus forgets the modifiers and the pointer and nothing else: a key pressed next
/// carries no modifier that was held before.
pub proof fn focus_loss_leaves_nothing_held(
    st: TranslatorState,
    code: crate::protocol::KeyCode,
    now: MonoNanos,
)
    ensures
        st.after(RenderEvent::Focused(false)) == (TranslatorState {
            modifiers: Modifiers::none(),
            last_cursor: None,
            ..st
        }),
        ({
            let press = RenderEvent::Key { code, pressed: true, repeat: false, text: None };
            wire_key(code) matches Some(key) ==> (st.after(
                RenderEvent::Focused(false),
            ).wire_events(press, now) == seq![
                WireEvent::Input(
                    InputEvent {
                        event_id: st.next_event_id,
                        t_client: now,
                        device_id: 0,
                        kind: InputEventKind::KeyDown { key, modifiers: Modifiers::none() },
                    },
                ),
            ])
        }),
{
}

/// Changes of the modifiers or the focus stay within the translator: nothing is sent, and neither
/// counter moves.
pub proof fn modifiers_and_focus_send_nothing(
    st: TranslatorState,
    state: ModifiersState,
    focused: bool,
    now: MonoNanos,
)
    ensures
        st.wire_events(RenderEvent::Modifiers(state), now) == Seq::<WireEvent>::empty(),
        st.wire_events(RenderEvent::Focused(focused), now) == Seq::<WireEvent>::empty(),
        st.after(RenderEvent::Modifiers(state)).next_event_id == st.next_event_id,
        st.after(RenderEvent::Modifiers(state)).next_cursor_seq == st.next_cursor_seq,
        st.after(RenderEvent::Focused(focused)).next_event_id == st.next_event_id,
        st.after(RenderEvent::Focused(focused)).next_cursor_seq == st.next_cursor_seq,
        st.after(RenderEvent::Focused(true)) == st,
{
}

/// Auto-repeats are the host's own business: nothing is sent and nothing changes.
pub proof fn repeats_are_dropped(
    st: TranslatorState,
    code: crate::protocol::KeyCode,
    pressed: bool,
    text: Option<String>,
    now: MonoNanos,
)
    ensures
        ({
            let event = RenderEvent::Key { code, pressed, repeat: true, text };
            st.wire_events(event, now).len() == 0 && st.after(event) == st
        }),
{
}

/// What goes out on the input stream for a window event, if anything does.
pub open spec fn sent_input(st: TranslatorState, event: RenderEvent, now: MonoNanos) -> Option<
    InputEvent,
> {
    match st.wire_events(event, now) {
        sent if sent.len() == 1 && sent[0] is Input => Some(sent[0]->Input_0),
        _ => None,
    }
}

/// What goes out as a cursor packet for a window event, if anything does.
pub open spec fn sent_cursor(st: TranslatorState, event: RenderEvent, now: MonoNanos) -> Option<
    ClientCursorPacket,
> {
    match st.wire_events(event, now) {
        sent if sent.len() == 1 && sent[0] is Cursor => Some(sent[0]->Cursor_0),
        _ => None,
    }
}

/// A key that goes down is sent as a key that goes down, and one that comes up as one that comes
/// up, if it is not sent as text. Both name the one usage of the key and carry the modifiers that
/// are held. Only a key beyond the usage table says nothing.
pub proof fn keys_go_down_and_come_up(
    st: TranslatorState,
    code: crate::protocol::KeyCode,
    text: Option<String>,
    released_text: Option<String>,
    now: MonoNanos,
)
    requires
        code != crate::protocol::KeyCode::Other,
    ensures
        ({
            let press = RenderEvent::Key { code, pressed: true, repeat: false, text };
            let release = RenderEvent::Key {
                code,
                pressed: false,
                repeat: false,
                text: released_text,
            };
            let down = sent_input(st, press, now);
            let up = sent_input(st, release, now);
            &&& down is Some
            &&& up matches Some(u) && u.kind is KeyUp && u.kind->KeyUp_modifiers == st.modifiers
            &&& !((down->0).kind is Text) ==> {
                &&& (down->0).kind is KeyDown
                &&& (down->0).kind->KeyDown_key == (up->0).kind->KeyUp_key
                &&& (down->0).kind->KeyDown_modifiers == st.modifiers
            }
        }),
{
    crate::keymap::usages_read_back_as_their_keys(code, 0);
}

/// The usage that a key event names is that of the key: reading it back gives the key.
pub proof fn key_events_name_their_key(
    st: TranslatorState,
    code: crate::protocol::KeyCode,
    pressed: bool,
    text: Option<String>,
    now: MonoNanos,
)
    ensures
        ({
            let event = RenderEvent::Key { code, pressed, repeat: false, text };
            match sent_input(st, event, now) {
                Some(e) => match e.kind {
                    InputEventKind::KeyDown { key, .. } => pressed && 0x7_0000 < key.0
                        && crate::keymap::key_with_usage((key.0 - 0x7_0000) as u32) == code,
                    InputEventKind::KeyUp { key, .. } => !pressed && 0x7_0000 < key.0
                        && crate::keymap::key_with_usage((key.0 - 0x7_0000) as u32) == code,
                    InputEventKind::Text { .. } => pressed,
                    _ => false,
                },
                None => code == crate::protocol::KeyCode::Other && st.wire_events(
                    event,
                    now,
                ).len() == 0,
            }
        }),
{
    crate::keymap::usages_read_back_as_their_keys(code, 0);
}

/// A press is sent as text exactly if the system made text of it and neither control nor alt nor
/// meta is held, and then it is that text. A release never is.
pub proof fn text_is_sent_as_the_system_made_it(
    st: TranslatorState,
    code: crate::protocol::KeyCode,
    pressed: bool,
    text: Option<String>,
    now: MonoNanos,
)
    ensures
        ({
            let event = RenderEvent::Key { code, pressed, repeat: false, text };
            let sent = sent_input(st, event, now);
            let held = st.modifiers.ctrl || st.modifiers.alt || st.modifiers.meta;
            let typed = sent is Some && (sent->0).kind is Text;
            &&& typed <==> pressed && !held && text is Some && (text->0)@.len() > 0
            &&& typed ==> ((sent->0).kind->utf8)@ == (text->0)@
        }),
{
}

/// What is held when an event comes is what the window last reported, each modifier by itself.
pub proof fn events_carry_the_reported_modifiers(
    st: TranslatorState,
    state: ModifiersState,
    button: WindowButton,
    pressed: bool,
    dx: SingleBits,
    dy: SingleBits,
    by_line: bool,
    now: MonoNanos,
)
    ensures
        ({
            let next = st.after(RenderEvent::Modifiers(state));
            let click = sent_input(next, RenderEvent::MouseButton { button, pressed }, now);
            let turn = sent_input(next, RenderEvent::Scroll { dx, dy, by_line }, now);
            &&& next.modifiers.shift == state.shift_key
            &&& next.modifiers.ctrl == state.control_key
            &&& next.modifiers.alt == state.alt_key
            &&& next.modifiers.meta == state.super_key
            &&& next.last_cursor == st.last_cursor
            &&& click matches Some(e) ==> e.kind->MouseButton_modifiers == next.modifiers
            &&& turn matches Some(e) && e.kind->MouseScroll_modifiers == next.modifiers
        }),
{
}

/// Only reports of the modifiers and the loss of the focus change what is held.
pub proof fn only_reports_change_the_modifiers(st: TranslatorState, event: RenderEvent)
    requires
        !(event is Modifiers),
        event != RenderEvent::Focused(false),
    ensures
        st.after(event).modifiers == st.modifiers,
{
}

/// A button is sent as the button that it is, pressed as it is pressed; the ones at the side as
/// the two extra ones. Any other is not sent.
pub proof fn buttons_are_sent_as_they_are_pressed(
    st: TranslatorState,
    button: WindowButton,
    pressed: bool,
    now: MonoNanos,
)
    ensures
        ({
            let event = RenderEvent::MouseButton { button, pressed };
            match sent_input(st, event, now) {
                Some(e) => {
                    &&& e.kind is MouseButton
                    &&& e.kind->MouseButton_pressed == pressed
                    &&& match e.kind->MouseButton_button {
                        MouseButton::Left => button == WindowButton::Left,
                        MouseButton::Right => button == WindowButton::Right,
                        MouseButton::Middle => button == WindowButton::Middle,
                        MouseButton::X1 => button == WindowButton::Back,
                        MouseButton::X2 => button == WindowButton::Forward,
                    }
                },
                None => button is Other && st.wire_events(event, now).len() == 0,
            }
        }),
{
}

/// A scroll is sent with the amounts of the window, each on its own axis, and in the window's
/// unit.
pub proof fn scrolls_keep_amount_axis_and_unit(
    st: TranslatorState,
    dx: SingleBits,
    dy: SingleBits,
    by_line: bool,
    now: MonoNanos,
)
    ensures
        ({
            let sent = sent_input(st, RenderEvent::Scroll { dx, dy, by_line }, now);
            &&& sent matches Some(e) && e.kind is MouseScroll
            &&& (sent->0).kind->MouseScroll_dx == dx
            &&& (sent->0).kind->MouseScroll_dy == dy
            &&& (sent->0).kind->MouseScroll_kind == ScrollKind::Line <==> by_line
        }),
{
}

/// A pointer position is sent where it is and remembered; a pointer outside of the video is sent
/// as hidden and forgotten.
pub proof fn pointer_positions_are_sent_and_remembered(
    st: TranslatorState,
    x: SingleBits,
    y: SingleBits,
    now: MonoNanos,
)
    ensures
        ({
            let inside = RenderEvent::Cursor { video_normalized: Some((x, y)) };
            let outside = RenderEvent::Cursor { video_normalized: None };
            &&& sent_cursor(st, inside, now) matches Some(p) && p.x == x && p.y == y && p.visible
            &&& sent_cursor(st, outside, now) matches Some(p) && !p.visible
            &&& st.after(inside).last_cursor == Some((x, y))
            &&& st.after(outside).last_cursor is None
        }),
{
}

/// Everything that is sent carries the time, the number that is next on its channel, and the
/// first device or display. That number then moves on by one, and the other channel's stays.
pub proof fn everything_sent_is_stamped_and_numbered(
    st: TranslatorState,
    event: RenderEvent,
    now: MonoNanos,
)
    ensures
        st.wire_events(event, now).len() <= 1,
        ({
            let next = st.after(event);
            let id = (st.next_event_id + 1) % 0x1_0000_0000_0000_0000;
            let seq = (st.next_cursor_seq + 1) % 0x1_0000_0000;
            &&& match sent_input(st, event, now) {
                Some(e) => e.event_id == st.next_event_id && e.t_client == now && e.device_id == 0
                    && next.next_event_id == id,
                None => next.next_event_id == st.next_event_id,
            }
            &&& match sent_cursor(st, event, now) {
                Some(p) => p.seq == st.next_cursor_seq && p.t_client == now && p.display_idx == 0
                    && next.next_cursor_seq == seq,
                None => next.next_cursor_seq == st.next_cursor_seq,
            }
        }),
{
}

} // verus!
