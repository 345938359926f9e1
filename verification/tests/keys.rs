//! Key tables and the client's translation of window events.
use evdev::{AbsoluteAxisCode, KeyCode as EvdevKey, RelativeAxisCode};
use tether::evdev_keys::{
    char_to_keystroke, hid_to_evdev, keyboard_keycodes, letter_keycode, pointer_buttons,
    proto_button_to_btn,
};
use tether::keymap::{hid_keyboard, keycode_to_hid};
use tether::modifiers::{modifier_right_variant, HID_LCTRL, HID_RMETA};
use tether::protocol::{
    HidUsage, InputEvent, InputEventKind, KeyCode, ModifiersState, MonoNanos, MouseButton,
    RenderEvent, ScrollKind, SingleBits, WindowButton, WireEvent,
};
use tether::translator::WinitTranslator;
use tether::uinput;

const NOW: MonoNanos = MonoNanos(1);

fn expect_input(w: &WireEvent) -> &InputEvent {
    match w {
        WireEvent::Input(e) => e,
        other => panic!("expected Input, got {other:?}"),
    }
}

fn modifiers(shift: bool, control: bool) -> RenderEvent {
    RenderEvent::Modifiers(ModifiersState {
        shift_key: shift,
        control_key: control,
        alt_key: false,
        super_key: false,
    })
}

fn key(code: KeyCode, repeat: bool, text: Option<&str>) -> RenderEvent {
    RenderEvent::Key {
        code,
        pressed: true,
        repeat,
        text: text.map(|t| t.to_string()),
    }
}

fn single(v: f32) -> SingleBits {
    SingleBits(v.to_bits())
}

#[test]
fn keydown_carries_current_modifiers() {
    let mut t = WinitTranslator::new();
    t.translate(modifiers(true, false), NOW);
    let evts = t.translate(key(KeyCode::KeyA, false, None), NOW);
    assert_eq!(evts.len(), 1);
    match &expect_input(&evts[0]).kind {
        InputEventKind::KeyDown { key, modifiers } => {
            assert_eq!(*key, hid_keyboard(0x04));
            assert!(modifiers.shift);
            assert!(!modifiers.ctrl);
        }
        other => panic!("expected KeyDown, got {other:?}"),
    }
}

#[test]
fn key_repeat_is_dropped() {
    let mut t = WinitTranslator::new();
    let evts = t.translate(key(KeyCode::KeyA, true, None), NOW);
    assert!(evts.is_empty());
}

#[test]
fn cursor_outside_video_emits_invisible_packet() {
    let mut t = WinitTranslator::new();
    let evts = t.translate(RenderEvent::Cursor { video_normalized: None }, NOW);
    assert_eq!(evts.len(), 1);
    match &evts[0] {
        WireEvent::Cursor(c) => assert!(!c.visible),
        other => panic!("expected Cursor, got {other:?}"),
    }
}

#[test]
fn focus_loss_clears_modifiers() {
    let mut t = WinitTranslator::new();
    t.translate(modifiers(false, true), NOW);
    t.translate(RenderEvent::Focused(false), NOW);
    let evts = t.translate(key(KeyCode::KeyA, false, None), NOW);
    match &expect_input(&evts[0]).kind {
        InputEventKind::KeyDown { modifiers, .. } => {
            assert!(!modifiers.ctrl);
        }
        _ => panic!(),
    }
}

#[test]
fn modifiers_and_focus_send_no_events() {
    let mut t = WinitTranslator::new();
    let at = (SingleBits(0.25f32.to_bits()), SingleBits(0.75f32.to_bits()));
    let cursor = t.translate(RenderEvent::Cursor { video_normalized: Some(at) }, NOW);
    assert_eq!(cursor.len(), 1);
    assert_eq!(t.last_cursor(), Some(at));
    assert!(t.translate(modifiers(true, true), NOW).is_empty());
    assert!(t.translate(RenderEvent::Focused(true), NOW).is_empty());
    assert_eq!(t.last_cursor(), Some(at));
    assert!(t.translate(RenderEvent::Focused(false), NOW).is_empty());
    assert_eq!(t.last_cursor(), None);
    let press = t.translate(key(KeyCode::KeyA, false, None), NOW);
    match &expect_input(&press[0]).kind {
        InputEventKind::KeyDown { modifiers, .. } => {
            assert!(!modifiers.shift && !modifiers.ctrl && !modifiers.alt && !modifiers.meta);
        }
        other => panic!("expected KeyDown, got {other:?}"),
    }
    match t.translate(RenderEvent::Cursor { video_normalized: None }, NOW).as_slice() {
        [WireEvent::Cursor(packet)] => {
            assert_eq!(packet.seq, 1);
            assert!(!packet.visible);
        }
        other => panic!("expected one Cursor, got {other:?}"),
    }
}

#[test]
fn modifier_keys_change_sides() {
    for (left, right) in [(0xe0, 0xe4), (0xe1, 0xe5), (0xe2, 0xe6), (0xe3, 0xe7)] {
        let left = HidUsage((0x07 << 16) | left);
        let right = HidUsage((0x07 << 16) | right);
        assert_eq!(modifier_right_variant(left), Some(right));
        assert_eq!(modifier_right_variant(right), Some(left));
    }
    assert_eq!(modifier_right_variant(HidUsage(0x0007_0004)), None);
    assert_eq!(modifier_right_variant(HidUsage(0x0007_00df)), None);
    assert_eq!(modifier_right_variant(HidUsage(0x0007_00e8)), None);
    assert_eq!(modifier_right_variant(HidUsage(0x0000_00e1)), None);
}

#[test]
fn keys_of_japanese_keyboards_reach_the_host() {
    let code = |key| keycode_to_hid(key).and_then(hid_to_evdev);
    assert_eq!(code(KeyCode::IntlRo), Some(EvdevKey::KEY_RO.code()));
    assert_eq!(code(KeyCode::IntlYen), Some(EvdevKey::KEY_YEN.code()));
    assert_eq!(code(KeyCode::IntlRo), Some(89));
    assert_eq!(code(KeyCode::IntlYen), Some(124));
}

#[test]
fn event_ids_increment() {
    let mut t = WinitTranslator::new();
    let a = expect_input(&t.translate(key(KeyCode::KeyA, false, None), NOW)[0]).event_id;
    let b = expect_input(&t.translate(key(KeyCode::KeyB, false, None), NOW)[0]).event_id;
    assert_eq!(b, a + 1);
}

#[test]
fn unmodified_text_keypress_takes_the_text_path() {
    let mut t = WinitTranslator::new();
    let evts = t.translate(key(KeyCode::KeyA, false, Some("a")), NOW);
    assert_eq!(evts.len(), 1);
    match &expect_input(&evts[0]).kind {
        InputEventKind::Text { utf8 } => assert_eq!(utf8, "a"),
        other => panic!("expected Text, got {other:?}"),
    }
}

#[test]
fn ctrl_held_uses_hid_path_for_shortcut() {
    let mut t = WinitTranslator::new();
    t.translate(modifiers(false, true), NOW);
    let evts = t.translate(key(KeyCode::KeyC, false, Some("c")), NOW);
    assert_eq!(evts.len(), 1);
    match &expect_input(&evts[0]).kind {
        InputEventKind::KeyDown { modifiers, .. } => assert!(modifiers.ctrl),
        other => panic!("expected KeyDown, got {other:?}"),
    }
}

#[test]
fn shift_does_not_force_hid_path() {
    let mut t = WinitTranslator::new();
    t.translate(modifiers(true, false), NOW);
    let evts = t.translate(key(KeyCode::KeyA, false, Some("A")), NOW);
    match &expect_input(&evts[0]).kind {
        InputEventKind::Text { utf8 } => assert_eq!(utf8, "A"),
        other => panic!("expected Text, got {other:?}"),
    }
}

#[test]
fn cursor_emits_packet_with_incrementing_seq() {
    let mut t = WinitTranslator::new();
    let evts1 = t.translate(
        RenderEvent::Cursor { video_normalized: Some((single(0.5), single(0.5))) },
        NOW,
    );
    let evts2 = t.translate(
        RenderEvent::Cursor { video_normalized: Some((single(0.6), single(0.6))) },
        NOW,
    );
    let (s1, s2) = match (&evts1[0], &evts2[0]) {
        (WireEvent::Cursor(a), WireEvent::Cursor(b)) => (a.seq, b.seq),
        _ => panic!("expected Cursor packets"),
    };
    assert_eq!(s2, s1 + 1);
    assert_eq!(t.last_cursor(), Some((single(0.6), single(0.6))));
}

#[test]
fn window_buttons_and_scrolls_are_translated() {
    let mut t = WinitTranslator::new();
    let back = t.translate(
        RenderEvent::MouseButton { button: WindowButton::Back, pressed: true },
        MonoNanos(77),
    );
    let e = expect_input(&back[0]);
    assert_eq!(e.t_client, MonoNanos(77));
    match &e.kind {
        InputEventKind::MouseButton { button, pressed, .. } => {
            assert_eq!(*button, MouseButton::X1);
            assert!(*pressed);
        }
        other => panic!("expected MouseButton, got {other:?}"),
    }
    let scroll = t.translate(
        RenderEvent::Scroll { dx: single(0.0), dy: single(-2.0), by_line: false },
        NOW,
    );
    match &expect_input(&scroll[0]).kind {
        InputEventKind::MouseScroll { dy, kind, .. } => {
            assert_eq!(*dy, single(-2.0));
            assert_eq!(*kind, ScrollKind::Pixel);
        }
        other => panic!("expected MouseScroll, got {other:?}"),
    }
}

#[test]
fn key_codes_map_to_keyboard_usages() {
    assert_eq!(keycode_to_hid(KeyCode::KeyA), Some(HidUsage(0x0007_0004)));
    assert_eq!(keycode_to_hid(KeyCode::Digit0), Some(HidUsage(0x0007_0027)));
    assert_eq!(keycode_to_hid(KeyCode::IntlYen), Some(HidUsage(0x0007_0089)));
    assert_eq!(keycode_to_hid(KeyCode::SuperRight), Some(HidUsage(0x0007_00e7)));
    assert_eq!(keycode_to_hid(KeyCode::Other), None);
}

#[test]
fn hid_letters_map_to_correct_evdev_keys() {
    assert_eq!(hid_to_evdev(HidUsage((0x07 << 16) | 0x04)), Some(EvdevKey::KEY_A.code()));
    assert_eq!(hid_to_evdev(HidUsage((0x07 << 16) | 0x1D)), Some(EvdevKey::KEY_Z.code()));
}

#[test]
fn hid_digits_and_named_keys() {
    assert_eq!(hid_to_evdev(HidUsage((0x07 << 16) | 0x1E)), Some(EvdevKey::KEY_1.code()));
    assert_eq!(hid_to_evdev(HidUsage((0x07 << 16) | 0x27)), Some(EvdevKey::KEY_0.code()));
    assert_eq!(hid_to_evdev(HidUsage((0x07 << 16) | 0x28)), Some(EvdevKey::KEY_ENTER.code()));
    assert_eq!(hid_to_evdev(HidUsage((0x07 << 16) | 0x2B)), Some(EvdevKey::KEY_TAB.code()));
    assert_eq!(hid_to_evdev(HidUsage((0x07 << 16) | 0x29)), Some(EvdevKey::KEY_ESC.code()));
}

#[test]
fn hid_arrows_and_modifiers() {
    assert_eq!(hid_to_evdev(HidUsage((0x07 << 16) | 0x4F)), Some(EvdevKey::KEY_RIGHT.code()));
    assert_eq!(hid_to_evdev(HidUsage((0x07 << 16) | 0x52)), Some(EvdevKey::KEY_UP.code()));
    assert_eq!(hid_to_evdev(HidUsage(HID_LCTRL)), Some(EvdevKey::KEY_LEFTCTRL.code()));
    assert_eq!(hid_to_evdev(HidUsage(HID_RMETA)), Some(EvdevKey::KEY_RIGHTMETA.code()));
}

#[test]
fn non_keyboard_hid_page_is_none() {
    assert_eq!(hid_to_evdev(HidUsage((0x0C << 16) | 0xE9)), None);
}

#[test]
fn char_to_keystroke_basic_ascii() {
    let a = char_to_keystroke('a').unwrap();
    assert_eq!(a.code, EvdevKey::KEY_A.code());
    assert!(!a.shift);

    let cap = char_to_keystroke('A').unwrap();
    assert_eq!(cap.code, EvdevKey::KEY_A.code());
    assert!(cap.shift);

    let bang = char_to_keystroke('!').unwrap();
    assert_eq!(bang.code, EvdevKey::KEY_1.code());
    assert!(bang.shift);

    let space = char_to_keystroke(' ').unwrap();
    assert_eq!(space.code, EvdevKey::KEY_SPACE.code());
    assert!(!space.shift);
}

#[test]
fn char_to_keystroke_rejects_non_ascii() {
    assert!(char_to_keystroke('é').is_none());
    assert!(char_to_keystroke('λ').is_none());
    assert!(char_to_keystroke('🎉').is_none());
}

#[test]
fn exactly_printable_ascii_and_line_ends_can_be_typed() {
    for n in 0u32..0x200 {
        let c = char::from_u32(n).unwrap();
        let typable = (' '..='~').contains(&c) || c == '\t' || c == '\n' || c == '\r';
        assert_eq!(char_to_keystroke(c).is_some(), typable, "{c:?}");
    }
}

#[test]
fn letter_keycode_roundtrips_alphabet() {
    for c in 'a'..='z' {
        let code = letter_keycode(c);
        assert_ne!(code, EvdevKey::KEY_RESERVED.code(), "missing keycode for {c}");
    }
}

#[test]
fn keyboard_keycodes_includes_letters_and_modifiers() {
    let set = keyboard_keycodes();
    assert!(set.contains(EvdevKey::KEY_A.code()));
    assert!(set.contains(EvdevKey::KEY_LEFTSHIFT.code()));
    assert!(set.contains(EvdevKey::KEY_F1.code()));
}

#[test]
fn every_key_code_is_the_one_of_the_system() {
    let table = [
        (0x04, EvdevKey::KEY_A),
        (0x05, EvdevKey::KEY_B),
        (0x06, EvdevKey::KEY_C),
        (0x07, EvdevKey::KEY_D),
        (0x08, EvdevKey::KEY_E),
        (0x09, EvdevKey::KEY_F),
        (0x0a, EvdevKey::KEY_G),
        (0x0b, EvdevKey::KEY_H),
        (0x0c, EvdevKey::KEY_I),
        (0x0d, EvdevKey::KEY_J),
        (0x0e, EvdevKey::KEY_K),
        (0x0f, EvdevKey::KEY_L),
        (0x10, EvdevKey::KEY_M),
        (0x11, EvdevKey::KEY_N),
        (0x12, EvdevKey::KEY_O),
        (0x13, EvdevKey::KEY_P),
        (0x14, EvdevKey::KEY_Q),
        (0x15, EvdevKey::KEY_R),
        (0x16, EvdevKey::KEY_S),
        (0x17, EvdevKey::KEY_T),
        (0x18, EvdevKey::KEY_U),
        (0x19, EvdevKey::KEY_V),
        (0x1a, EvdevKey::KEY_W),
        (0x1b, EvdevKey::KEY_X),
        (0x1c, EvdevKey::KEY_Y),
        (0x1d, EvdevKey::KEY_Z),
        (0x1e, EvdevKey::KEY_1),
        (0x1f, EvdevKey::KEY_2),
        (0x20, EvdevKey::KEY_3),
        (0x21, EvdevKey::KEY_4),
        (0x22, EvdevKey::KEY_5),
        (0x23, EvdevKey::KEY_6),
        (0x24, EvdevKey::KEY_7),
        (0x25, EvdevKey::KEY_8),
        (0x26, EvdevKey::KEY_9),
        (0x27, EvdevKey::KEY_0),
        (0x28, EvdevKey::KEY_ENTER),
        (0x29, EvdevKey::KEY_ESC),
        (0x2a, EvdevKey::KEY_BACKSPACE),
        (0x2b, EvdevKey::KEY_TAB),
        (0x2c, EvdevKey::KEY_SPACE),
        (0x2d, EvdevKey::KEY_MINUS),
        (0x2e, EvdevKey::KEY_EQUAL),
        (0x2f, EvdevKey::KEY_LEFTBRACE),
        (0x30, EvdevKey::KEY_RIGHTBRACE),
        (0x31, EvdevKey::KEY_BACKSLASH),
        (0x33, EvdevKey::KEY_SEMICOLON),
        (0x34, EvdevKey::KEY_APOSTROPHE),
        (0x35, EvdevKey::KEY_GRAVE),
        (0x36, EvdevKey::KEY_COMMA),
        (0x37, EvdevKey::KEY_DOT),
        (0x38, EvdevKey::KEY_SLASH),
        (0x39, EvdevKey::KEY_CAPSLOCK),
        (0x3a, EvdevKey::KEY_F1),
        (0x3b, EvdevKey::KEY_F2),
        (0x3c, EvdevKey::KEY_F3),
        (0x3d, EvdevKey::KEY_F4),
        (0x3e, EvdevKey::KEY_F5),
        (0x3f, EvdevKey::KEY_F6),
        (0x40, EvdevKey::KEY_F7),
        (0x41, EvdevKey::KEY_F8),
        (0x42, EvdevKey::KEY_F9),
        (0x43, EvdevKey::KEY_F10),
        (0x44, EvdevKey::KEY_F11),
        (0x45, EvdevKey::KEY_F12),
        (0x46, EvdevKey::KEY_SYSRQ),
        (0x47, EvdevKey::KEY_SCROLLLOCK),
        (0x48, EvdevKey::KEY_PAUSE),
        (0x49, EvdevKey::KEY_INSERT),
        (0x4a, EvdevKey::KEY_HOME),
        (0x4b, EvdevKey::KEY_PAGEUP),
        (0x4c, EvdevKey::KEY_DELETE),
        (0x4d, EvdevKey::KEY_END),
        (0x4e, EvdevKey::KEY_PAGEDOWN),
        (0x4f, EvdevKey::KEY_RIGHT),
        (0x50, EvdevKey::KEY_LEFT),
        (0x51, EvdevKey::KEY_DOWN),
        (0x52, EvdevKey::KEY_UP),
        (0x53, EvdevKey::KEY_NUMLOCK),
        (0x54, EvdevKey::KEY_KPSLASH),
        (0x55, EvdevKey::KEY_KPASTERISK),
        (0x56, EvdevKey::KEY_KPMINUS),
        (0x57, EvdevKey::KEY_KPPLUS),
        (0x58, EvdevKey::KEY_KPENTER),
        (0x59, EvdevKey::KEY_KP1),
        (0x5a, EvdevKey::KEY_KP2),
        (0x5b, EvdevKey::KEY_KP3),
        (0x5c, EvdevKey::KEY_KP4),
        (0x5d, EvdevKey::KEY_KP5),
        (0x5e, EvdevKey::KEY_KP6),
        (0x5f, EvdevKey::KEY_KP7),
        (0x60, EvdevKey::KEY_KP8),
        (0x61, EvdevKey::KEY_KP9),
        (0x62, EvdevKey::KEY_KP0),
        (0x63, EvdevKey::KEY_KPDOT),
        (0x64, EvdevKey::KEY_102ND),
        (0x65, EvdevKey::KEY_COMPOSE),
        (0x67, EvdevKey::KEY_KPEQUAL),
        (0x68, EvdevKey::KEY_F13),
        (0x69, EvdevKey::KEY_F14),
        (0x6a, EvdevKey::KEY_F15),
        (0x6b, EvdevKey::KEY_F16),
        (0x6c, EvdevKey::KEY_F17),
        (0x6d, EvdevKey::KEY_F18),
        (0x6e, EvdevKey::KEY_F19),
        (0x6f, EvdevKey::KEY_F20),
        (0x70, EvdevKey::KEY_F21),
        (0x71, EvdevKey::KEY_F22),
        (0x72, EvdevKey::KEY_F23),
        (0x73, EvdevKey::KEY_F24),
        (0x85, EvdevKey::KEY_KPCOMMA),
        (0x87, EvdevKey::KEY_RO),
        (0x89, EvdevKey::KEY_YEN),
        (0xe0, EvdevKey::KEY_LEFTCTRL),
        (0xe1, EvdevKey::KEY_LEFTSHIFT),
        (0xe2, EvdevKey::KEY_LEFTALT),
        (0xe3, EvdevKey::KEY_LEFTMETA),
        (0xe4, EvdevKey::KEY_RIGHTCTRL),
        (0xe5, EvdevKey::KEY_RIGHTSHIFT),
        (0xe6, EvdevKey::KEY_RIGHTALT),
        (0xe7, EvdevKey::KEY_RIGHTMETA),
    ];
    for (id, code) in table {
        assert_eq!(hid_to_evdev(HidUsage((0x07 << 16) | id)), Some(code.code()), "usage {id:#x}");
    }
    let keys = keyboard_keycodes();
    for (id, code) in table {
        assert!(keys.contains(code.code()), "usage {id:#x}");
    }
    assert!(!keys.contains(EvdevKey::KEY_MUTE.code()));
    assert!(!keys.contains(u16::MAX));
    let codes = keys.codes();
    assert_eq!(codes.len(), table.len());
    assert!(codes.windows(2).all(|pair| pair[0] < pair[1]));
    assert_eq!(hid_to_evdev(HidUsage((0x07 << 16) | 0x32)), None);
    assert_eq!(hid_to_evdev(HidUsage((0x07 << 16) | 0xE8)), None);
}

#[test]
fn buttons_and_axes_are_those_of_the_system() {
    assert_eq!(proto_button_to_btn(MouseButton::Left), EvdevKey::BTN_LEFT.code());
    assert_eq!(proto_button_to_btn(MouseButton::Right), EvdevKey::BTN_RIGHT.code());
    assert_eq!(proto_button_to_btn(MouseButton::Middle), EvdevKey::BTN_MIDDLE.code());
    assert_eq!(proto_button_to_btn(MouseButton::X1), EvdevKey::BTN_SIDE.code());
    assert_eq!(proto_button_to_btn(MouseButton::X2), EvdevKey::BTN_EXTRA.code());
    assert_eq!(pointer_buttons().codes().len(), 5);
    assert_eq!(uinput::REL_X, RelativeAxisCode::REL_X.0);
    assert_eq!(uinput::REL_Y, RelativeAxisCode::REL_Y.0);
    assert_eq!(uinput::REL_WHEEL, RelativeAxisCode::REL_WHEEL.0);
    assert_eq!(uinput::REL_HWHEEL, RelativeAxisCode::REL_HWHEEL.0);
    assert_eq!(uinput::REL_WHEEL_HI_RES, RelativeAxisCode::REL_WHEEL_HI_RES.0);
    assert_eq!(uinput::REL_HWHEEL_HI_RES, RelativeAxisCode::REL_HWHEEL_HI_RES.0);
    assert_eq!(uinput::ABS_X, AbsoluteAxisCode::ABS_X.0);
    assert_eq!(uinput::ABS_Y, AbsoluteAxisCode::ABS_Y.0);
}
