//! Plans of both input backends.
use tether::enigo_backend::{
    self, hid_to_enigo, EnigoBackend, HostButton, HostCall, HostChange, HostKey, HostStep, Platform,
};
use tether::inject::{
    clamp_relative_delta, is_out_of_order, main_display_point_dims, resolve_injection_dims,
    InjectError, Injector, NoopInjector,
};
use tether::modifiers::{ModBit, ModifierFix};
use tether::protocol::{
    ClientCursorPacket, HidUsage, InputEvent, InputEventKind, Modifiers, MonoNanos, MouseButton,
    ScrollKind, SingleBits,
};
use tether::single::{normalised_to_abs, project, round_to_i32, ABS_MAX};
use tether::uinput::{
    announced_axes, announced_keys, device_open_error, open_uinput_error, scroll_detents, Action,
    Change, Device, DeviceEvent, Emission, OpenFailure, UinputInjector, MAX_SCROLL_DETENTS,
    REL_HWHEEL, REL_WHEEL, REL_WHEEL_HI_RES, REL_X, WHEEL_HI_RES_PER_DETENT,
};

const NONE: Modifiers = Modifiers { shift: false, ctrl: false, alt: false, meta: false };
const KEY_A: HidUsage = HidUsage(0x0007_0004);
const LSHIFT: HidUsage = HidUsage(0x0007_00e1);
const RSHIFT: HidUsage = HidUsage(0x0007_00e5);

fn single(v: f32) -> SingleBits {
    SingleBits(v.to_bits())
}

fn event(kind: InputEventKind) -> InputEvent {
    InputEvent { event_id: 1, t_client: MonoNanos(0), device_id: 0, kind }
}

fn cursor(seq: u32, x: f32, y: f32, visible: bool) -> ClientCursorPacket {
    ClientCursorPacket {
        seq,
        display_idx: 0,
        x: single(x),
        y: single(y),
        visible,
        t_client: MonoNanos(0),
    }
}

/// Carry a plan out on devices that never fail.
fn run(inj: &mut UinputInjector, plan: Vec<Action>) -> Vec<Emission> {
    let mut emitted = Vec::new();
    for action in plan {
        match action {
            Action::Emit(e) => emitted.push(e),
            Action::Note(change) => inj.note(change),
        }
    }
    emitted
}

fn handle(inj: &mut UinputInjector, kind: InputEventKind) -> Vec<Emission> {
    let plan = inj.inject(&event(kind));
    run(inj, plan)
}

fn host_run(backend: &mut EnigoBackend, plan: Vec<HostStep>) -> Vec<HostCall> {
    let mut calls = Vec::new();
    for step in plan {
        match step {
            HostStep::Call(c) => calls.push(c),
            HostStep::Note(change) => backend.note(change),
        }
    }
    calls
}

#[test]
fn small_deltas_pass_through() {
    assert_eq!(clamp_relative_delta(5, -3), (5, -3));
    assert_eq!(clamp_relative_delta(1000, -1000), (1000, -1000));
}

#[test]
fn extreme_positive_saturates() {
    assert_eq!(clamp_relative_delta(i16::MAX, i16::MAX), (1000, 1000));
}

#[test]
fn extreme_negative_saturates() {
    assert_eq!(clamp_relative_delta(i16::MIN, i16::MIN), (-1000, -1000));
}

#[test]
fn asymmetric_clamp_per_axis() {
    assert_eq!(clamp_relative_delta(i16::MAX, 50), (1000, 50));
    assert_eq!(clamp_relative_delta(-50, i16::MIN), (-50, -1000));
}

#[test]
fn prefers_queried_point_dims_over_capture_pixels() {
    assert_eq!(resolve_injection_dims((3840, 2160), Some((1920, 1080))), (1920, 1080));
}

#[test]
fn non_retina_query_equals_capture_and_is_a_no_op() {
    assert_eq!(resolve_injection_dims((2560, 1440), Some((2560, 1440))), (2560, 1440));
}

#[test]
fn falls_back_to_capture_pixels_on_degenerate_query() {
    assert_eq!(resolve_injection_dims((2560, 1440), None), (2560, 1440));
    assert_eq!(resolve_injection_dims((2560, 1440), Some((0, 1440))), (2560, 1440));
    assert_eq!(resolve_injection_dims((2560, 1440), Some((2560, 0))), (2560, 1440));
}

#[test]
fn point_dims_must_be_positive_and_fit() {
    assert_eq!(main_display_point_dims(1728, 1117), Some((1728, 1117)));
    assert_eq!(main_display_point_dims(0, 1117), None);
    assert_eq!(main_display_point_dims(1728, 0), None);
    assert_eq!(main_display_point_dims(u32::MAX as usize, 1), Some((u32::MAX, 1)));
    assert_eq!(main_display_point_dims(u32::MAX as usize + 1, 1), None);
}

#[test]
fn scroll_line_is_not_negated() {
    let (vert, _) = scroll_detents(single(0.0), single(3.0), ScrollKind::Line);
    assert_eq!(vert, 3);
    let (vert_down, _) = scroll_detents(single(0.0), single(-2.0), ScrollKind::Line);
    assert_eq!(vert_down, -2);
}

#[test]
fn scroll_extreme_deltas_cannot_overflow_hi_res_multiply() {
    for d in [f32::INFINITY, f32::MAX, f32::NEG_INFINITY, f32::MIN] {
        let (vert, horiz) = scroll_detents(single(d), single(d), ScrollKind::Line);
        assert!(vert.abs() <= MAX_SCROLL_DETENTS);
        assert!(horiz.abs() <= MAX_SCROLL_DETENTS);
        assert!(vert.checked_mul(WHEEL_HI_RES_PER_DETENT).is_some());
        assert!(horiz.checked_mul(WHEEL_HI_RES_PER_DETENT).is_some());
    }
    assert_eq!(
        scroll_detents(single(f32::NAN), single(f32::NAN), ScrollKind::Line),
        (0, 0)
    );
    assert_eq!(MAX_SCROLL_DETENTS, i32::MAX / WHEEL_HI_RES_PER_DETENT);
}

#[test]
fn scroll_pixel_quantises_to_detents() {
    let (vert, _) = scroll_detents(single(0.0), single(32.0), ScrollKind::Pixel);
    assert_eq!(vert, 2);
    let (small, _) = scroll_detents(single(0.0), single(4.0), ScrollKind::Pixel);
    assert_eq!(small, 0);
}

#[test]
fn normalised_to_abs_maps_edges_and_centre() {
    assert_eq!(normalised_to_abs(single(0.0)), 0);
    assert_eq!(normalised_to_abs(single(1.0)), ABS_MAX);
    assert_eq!(normalised_to_abs(single(0.5)), 32768);
    assert_eq!(normalised_to_abs(single(-1.0)), 0);
    assert_eq!(normalised_to_abs(single(2.0)), ABS_MAX);
}

/// Bit patterns of many kinds: signs, exponents and fractions at and around their ends.
fn patterns() -> Vec<u32> {
    let mut out = Vec::new();
    let mut state: u32 = 12345;
    for exp in 0u32..=255 {
        for frac in [0u32, 1, 2, 0x3f_ffff, 0x40_0000, 0x40_0001, 0x7f_fffe, 0x7f_ffff] {
            out.push((exp << 23) | frac);
            out.push(0x8000_0000 | (exp << 23) | frac);
        }
        for _ in 0..16 {
            state = state.wrapping_mul(1_664_525).wrapping_add(1_013_904_223);
            out.push((exp << 23) | (state & 0x7f_ffff) | (state & 0x8000_0000));
        }
    }
    out
}

#[test]
fn integer_rounding_agrees_with_the_machine() {
    for bits in patterns() {
        let v = f32::from_bits(bits);
        assert_eq!(round_to_i32(SingleBits(bits), 0), v.round() as i32, "{v:e}");
        assert_eq!(round_to_i32(SingleBits(bits), 4), (v * (1.0 / 16.0)).round() as i32, "{v:e}");
        let axis = (v.clamp(0.0, 1.0) * ABS_MAX as f32).round() as i32;
        assert_eq!(normalised_to_abs(SingleBits(bits)), axis, "{v:e}");
        for dim in [1, 7, 1080, 1920, 16_777_217, 2_147_483_583, i32::MAX] {
            let px = (v.clamp(0.0, 1.0) * dim as f32) as i32;
            assert_eq!(project(SingleBits(bits), dim), px, "{v:e} of {dim}");
        }
    }
}

#[test]
fn a_key_is_held_from_down_to_up() {
    let mut inj = UinputInjector::new();
    let down = handle(&mut inj, InputEventKind::KeyDown { key: KEY_A, modifiers: NONE });
    assert_eq!(down, vec![Emission::Key { code: 30, down: true }]);
    let up = handle(&mut inj, InputEventKind::KeyUp { key: KEY_A, modifiers: NONE });
    assert_eq!(up, vec![Emission::Key { code: 30, down: false }]);
    assert_eq!(inj.release_all(), vec![]);
}

#[test]
fn a_key_without_a_code_is_dropped() {
    let mut inj = UinputInjector::new();
    let key = HidUsage((0x0C << 16) | 0xE9);
    assert_eq!(handle(&mut inj, InputEventKind::KeyDown { key, modifiers: NONE }), vec![]);
    assert_eq!(inj.release_all(), vec![]);
}

#[test]
fn modifiers_of_the_client_are_synthesised() {
    let mut inj = UinputInjector::new();
    let wire = Modifiers { shift: true, ctrl: false, alt: true, meta: false };
    let plan = inj.inject(&event(InputEventKind::KeyDown { key: KEY_A, modifiers: wire }));
    assert_eq!(
        plan,
        vec![
            Action::Emit(Emission::Key { code: 42, down: true }),
            Action::Note(Change::Reconciled(ModifierFix { bit: ModBit::Shift, press: true })),
            Action::Emit(Emission::Key { code: 56, down: true }),
            Action::Note(Change::Reconciled(ModifierFix { bit: ModBit::Alt, press: true })),
            Action::Emit(Emission::Key { code: 30, down: true }),
            Action::Note(Change::Pressed(KEY_A)),
        ]
    );
    run(&mut inj, plan);
    // Nothing is left to reconcile, until the client lets go.
    let again = handle(&mut inj, InputEventKind::KeyUp { key: KEY_A, modifiers: wire });
    assert_eq!(again, vec![Emission::Key { code: 30, down: false }]);
    let moved = handle(
        &mut inj,
        InputEventKind::RelativeMouseMove { dx: 3, dy: -4, modifiers: NONE },
    );
    assert_eq!(
        moved,
        vec![
            Emission::Key { code: 42, down: false },
            Emission::Key { code: 56, down: false },
            Emission::Motion { dx: 3, dy: -4 },
        ]
    );
}

#[test]
fn a_modifier_key_is_not_pressed_twice() {
    let mut inj = UinputInjector::new();
    let shift = Modifiers { shift: true, ..NONE };
    let down = handle(&mut inj, InputEventKind::KeyDown { key: RSHIFT, modifiers: shift });
    assert_eq!(down, vec![Emission::Key { code: 54, down: true }]);
    // The right key stands for the same bit, so nothing is synthesised.
    let a = handle(&mut inj, InputEventKind::KeyDown { key: KEY_A, modifiers: shift });
    assert_eq!(a, vec![Emission::Key { code: 30, down: true }]);
    let up = handle(&mut inj, InputEventKind::KeyUp { key: RSHIFT, modifiers: NONE });
    assert_eq!(up, vec![Emission::Key { code: 54, down: false }]);
}

#[test]
fn a_release_goes_to_the_pointer_of_the_press() {
    let mut inj = UinputInjector::new();
    let press = handle(
        &mut inj,
        InputEventKind::MouseButton { button: MouseButton::Left, pressed: true, modifiers: NONE },
    );
    assert_eq!(press, vec![Emission::Button { absolute: false, code: 0x110, down: true }]);
    let plan = inj.inject_cursor(&cursor(1, 0.5, 1.0, true));
    assert_eq!(run(&mut inj, plan), vec![Emission::Place { x: 32768, y: 65535 }]);
    let release = handle(
        &mut inj,
        InputEventKind::MouseButton { button: MouseButton::Left, pressed: false, modifiers: NONE },
    );
    assert_eq!(release, vec![Emission::Button { absolute: false, code: 0x110, down: false }]);
    // The next press goes to the pointer that moved last.
    let next = handle(
        &mut inj,
        InputEventKind::MouseButton { button: MouseButton::X2, pressed: true, modifiers: NONE },
    );
    assert_eq!(next, vec![Emission::Button { absolute: true, code: 0x114, down: true }]);
    assert_eq!(
        inj.release_all(),
        vec![Emission::Button { absolute: true, code: 0x114, down: false }]
    );
}

#[test]
fn text_is_typed_with_shift_where_it_is_needed() {
    let mut inj = UinputInjector::new();
    let typed = handle(&mut inj, InputEventKind::Text { utf8: "aA\u{e9}!".to_string() });
    assert_eq!(
        typed,
        vec![
            Emission::Stroke { code: 30, with_shift: false },
            Emission::Stroke { code: 30, with_shift: true },
            Emission::Stroke { code: 2, with_shift: true },
        ]
    );
    handle(
        &mut inj,
        InputEventKind::KeyDown { key: LSHIFT, modifiers: Modifiers { shift: true, ..NONE } },
    );
    let held = handle(&mut inj, InputEventKind::Text { utf8: "A".to_string() });
    assert_eq!(held, vec![Emission::Stroke { code: 30, with_shift: false }]);
}

#[test]
fn frames_report_down_and_up_apart() {
    let key = |code: u16, value: i32| DeviceEvent::Key { code, value };
    assert_eq!(
        Emission::Stroke { code: 30, with_shift: true }.events(),
        vec![
            key(42, 1),
            key(30, 1),
            DeviceEvent::Report,
            key(30, 0),
            key(42, 0),
            DeviceEvent::Report,
        ]
    );
    assert_eq!(
        Emission::Key { code: 30, down: true }.events(),
        vec![key(30, 1), DeviceEvent::Report]
    );
}

#[test]
fn wheels_turn_in_detents_and_in_high_resolution() {
    let mut inj = UinputInjector::new();
    let turned = handle(
        &mut inj,
        InputEventKind::MouseScroll {
            dx: single(0.4),
            dy: single(-2.0),
            kind: ScrollKind::Line,
            modifiers: NONE,
        },
    );
    assert_eq!(turned, vec![Emission::Wheel { absolute: false, vert: -2, horiz: 0 }]);
    assert_eq!(
        turned[0].events(),
        vec![
            DeviceEvent::Relative { axis: REL_WHEEL, value: -2 },
            DeviceEvent::Relative { axis: REL_WHEEL_HI_RES, value: -240 },
            DeviceEvent::Report,
        ]
    );
    let nothing = handle(
        &mut inj,
        InputEventKind::MouseScroll {
            dx: single(0.4),
            dy: single(0.0),
            kind: ScrollKind::Line,
            modifiers: NONE,
        },
    );
    assert_eq!(nothing, vec![]);
}

#[test]
fn emissions_name_their_device_and_failure() {
    let all = [
        (Emission::Key { code: 30, down: true }, Device::Keyboard, "keyboard emit"),
        (Emission::Stroke { code: 30, with_shift: false }, Device::Keyboard, "keyboard emit"),
        (
            Emission::Button { absolute: true, code: 0x110, down: true },
            Device::AbsolutePointer,
            "button emit",
        ),
        (Emission::Motion { dx: 0, dy: 0 }, Device::RelativePointer, "relative move emit"),
        (
            Emission::Wheel { absolute: false, vert: 1, horiz: 0 },
            Device::RelativePointer,
            "pointer emit",
        ),
        (Emission::Place { x: 0, y: 0 }, Device::AbsolutePointer, "cursor emit"),
    ];
    for (e, device, failure) in all {
        assert_eq!(e.device(), device);
        assert_eq!(e.failure(), failure);
    }
}

#[test]
fn devices_announce_what_they_emit() {
    assert_eq!(announced_keys(Device::Keyboard).codes().len(), 121);
    assert_eq!(
        announced_keys(Device::RelativePointer).codes(),
        vec![0x110, 0x111, 0x112, 0x113, 0x114]
    );
    assert!(announced_axes(Device::Keyboard).is_empty());
    assert!(announced_axes(Device::RelativePointer).contains(&REL_X));
    assert!(!announced_axes(Device::AbsolutePointer).contains(&REL_X));
    assert!(announced_axes(Device::AbsolutePointer).contains(&REL_HWHEEL));
}

#[test]
fn stale_positions_are_dropped() {
    let mut inj = UinputInjector::new();
    let first = inj.inject_cursor(&cursor(10, 0.0, 0.0, true));
    assert_eq!(run(&mut inj, first).len(), 1);
    assert_eq!(inj.inject_cursor(&cursor(9, 0.0, 0.0, true)), vec![]);
    let hidden = inj.inject_cursor(&cursor(12, 0.0, 0.0, false));
    assert_eq!(hidden, vec![Action::Note(Change::Positioned { seq: 12 })]);
    run(&mut inj, hidden);
    assert_eq!(inj.inject_cursor(&cursor(11, 0.0, 0.0, true)), vec![]);
    assert!(!is_out_of_order(0, Some(u32::MAX)));
    assert!(is_out_of_order(u32::MAX, Some(0)));
    assert!(!is_out_of_order(5, Some(5)));
    assert!(!is_out_of_order(5, None));
    assert!(is_out_of_order(u32::MAX / 2, Some(0)));
    assert!(!is_out_of_order(u32::MAX / 2 - 1, Some(0)));
}

#[test]
fn everything_held_is_released_when_the_client_is_gone() {
    let mut inj = UinputInjector::new();
    handle(&mut inj, InputEventKind::KeyDown { key: KEY_A, modifiers: NONE });
    handle(
        &mut inj,
        InputEventKind::KeyDown { key: LSHIFT, modifiers: Modifiers { shift: true, ..NONE } },
    );
    let mut released = inj.release_all();
    released.sort_by_key(|e| match e {
        Emission::Key { code, .. } => *code,
        _ => 0,
    });
    assert_eq!(
        released,
        vec![Emission::Key { code: 30, down: false }, Emission::Key { code: 42, down: false }]
    );
    assert_eq!(inj.release_all(), vec![]);
}

#[test]
fn uinput_errors_name_the_remedy() {
    assert_eq!(
        open_uinput_error(true, "Permission denied (os error 13)"),
        "cannot open /dev/uinput (Permission denied (os error 13)); \
         run `tether-host --setup-input` once to grant access"
    );
    assert_eq!(open_uinput_error(false, "no such file"), "open /dev/uinput: no such file");
}

#[test]
fn missing_and_unwritable_devices_are_unavailable() {
    let missing = device_open_error(OpenFailure::NotFound, "No such file (os error 2)");
    assert!(matches!(&missing, InjectError::DeviceUnavailable(what)
        if what == "open /dev/uinput: No such file (os error 2)"));
    let denied = device_open_error(OpenFailure::PermissionDenied, "denied");
    assert_eq!(
        denied.message(),
        "input device unavailable: cannot open /dev/uinput (denied); \
         run `tether-host --setup-input` once to grant access"
    );
    let other = device_open_error(OpenFailure::Other, "busy");
    assert!(matches!(&other, InjectError::Init(what) if what == "open /dev/uinput: busy"));
}

#[test]
fn inject_errors_as_text() {
    assert_eq!(
        InjectError::DeviceUnavailable("x".to_string()).message(),
        "input device unavailable: x"
    );
    assert_eq!(InjectError::Init("y".to_string()).message(), "backend init: y");
    assert_eq!(InjectError::Inject("z".to_string()).message(), "backend inject: z");
}

#[test]
fn noop_injector_takes_everything() {
    let mut noop = NoopInjector;
    assert!(noop.inject(&event(InputEventKind::KeyDown { key: KEY_A, modifiers: NONE })).is_ok());
    assert!(noop.inject_cursor(&cursor(0, 0.0, 0.0, true)).is_ok());
    noop.set_display_size(0, 0);
}

#[test]
fn host_keys_depend_on_the_platform() {
    let page = 0x07 << 16;
    let at = |p: Platform, id: u32| hid_to_enigo(p, HidUsage(page | id));
    assert_eq!(at(Platform::Linux, 0x04), Some(HostKey::Unicode('a')));
    assert_eq!(at(Platform::Windows, 0x1d), Some(HostKey::Unicode('z')));
    assert_eq!(at(Platform::MacOs, 0x1e), Some(HostKey::Unicode('1')));
    assert_eq!(at(Platform::MacOs, 0x26), Some(HostKey::Unicode('9')));
    assert_eq!(at(Platform::MacOs, 0x27), Some(HostKey::Unicode('0')));
    assert_eq!(at(Platform::MacOs, 0x31), Some(HostKey::Unicode('\\')));
    assert_eq!(at(Platform::Linux, 0x46), Some(HostKey::PrintScr));
    assert_eq!(at(Platform::MacOs, 0x46), None);
    assert_eq!(at(Platform::Windows, 0x73), None);
    assert_eq!(at(Platform::MacOs, 0xe6), Some(HostKey::ROption));
    assert_eq!(at(Platform::Windows, 0xe6), Some(HostKey::Alt));
    assert_eq!(at(Platform::Linux, 0x58), Some(HostKey::Return));
    assert_eq!(at(Platform::Linux, 0x64), None);
    assert_eq!(hid_to_enigo(Platform::Linux, HidUsage(0x0c << 16 | 0x04)), None);
}

#[test]
fn host_backend_plans_calls_and_notes() {
    let mut backend = EnigoBackend::new(Platform::MacOs);
    let wire = Modifiers { meta: true, ..NONE };
    let plan = backend.inject(&event(InputEventKind::KeyDown { key: KEY_A, modifiers: wire }));
    assert_eq!(
        plan,
        vec![
            HostStep::Call(HostCall::Reconcile { key: HostKey::Meta, press: true }),
            HostStep::Note(HostChange::Reconciled(ModifierFix { bit: ModBit::Meta, press: true })),
            HostStep::Call(HostCall::Key { key: HostKey::Unicode('a'), press: true }),
            HostStep::Note(HostChange::Pressed(KEY_A)),
        ]
    );
    host_run(&mut backend, plan);
    let plan = backend.inject(&event(InputEventKind::MouseButton {
        button: MouseButton::X1,
        pressed: true,
        modifiers: wire,
    }));
    assert_eq!(
        host_run(&mut backend, plan),
        vec![HostCall::Button { button: HostButton::Back, press: true }]
    );
    let plan = backend.inject(&event(InputEventKind::RelativeMouseMove {
        dx: i16::MAX,
        dy: 2,
        modifiers: wire,
    }));
    assert_eq!(host_run(&mut backend, plan), vec![HostCall::MoveBy { dx: 1000, dy: 2 }]);
    let mut released = backend.release_all();
    assert_eq!(released.len(), 3);
    assert_eq!(
        released.pop(),
        Some(HostCall::Button { button: HostButton::Back, press: false })
    );
    assert!(released.contains(&HostCall::Key { key: HostKey::Meta, press: false }));
    assert!(released.contains(&HostCall::Key { key: HostKey::Unicode('a'), press: false }));
    assert_eq!(backend.release_all(), vec![]);
}

#[test]
fn held_buttons_are_released_from_the_left_one_on() {
    let held = [MouseButton::X2, MouseButton::Middle, MouseButton::Left];
    let mut inj = UinputInjector::new();
    let mut backend = EnigoBackend::new(Platform::Linux);
    for button in held {
        let kind = InputEventKind::MouseButton { button, pressed: true, modifiers: NONE };
        let press = event(kind);
        let plan = backend.inject(&press);
        host_run(&mut backend, plan);
        let plan = inj.inject(&press);
        run(&mut inj, plan);
    }
    assert_eq!(
        inj.release_all(),
        vec![
            Emission::Button { absolute: false, code: 0x110, down: false },
            Emission::Button { absolute: false, code: 0x112, down: false },
            Emission::Button { absolute: false, code: 0x114, down: false },
        ]
    );
    assert_eq!(
        backend.release_all(),
        vec![
            HostCall::Button { button: HostButton::Left, press: false },
            HostCall::Button { button: HostButton::Middle, press: false },
            HostCall::Button { button: HostButton::Forward, press: false },
        ]
    );
}

#[test]
fn host_backend_scrolls_down_positively() {
    let backend = EnigoBackend::new(Platform::Windows);
    let scroll = |dx: f32, dy: f32, kind: ScrollKind| {
        event(InputEventKind::MouseScroll {
            dx: single(dx),
            dy: single(dy),
            kind,
            modifiers: NONE,
        })
    };
    assert_eq!(
        backend.inject(&scroll(32.0, 3.0 * 16.0, ScrollKind::Pixel)),
        vec![
            HostStep::Call(HostCall::ScrollVertical { ticks: -3 }),
            HostStep::Call(HostCall::ScrollHorizontal { ticks: 2 }),
        ]
    );
    assert_eq!(backend.inject(&scroll(0.0, 0.0, ScrollKind::Line)), vec![]);
    assert!(enigo_backend::takes(&scroll(0.0, f32::INFINITY, ScrollKind::Line)));
    assert!(!enigo_backend::takes(&scroll(0.0, f32::NEG_INFINITY, ScrollKind::Line)));
    assert!(enigo_backend::takes(&scroll(f32::NEG_INFINITY, 0.0, ScrollKind::Line)));
}

#[test]
fn host_backend_types_text_and_places_the_pointer() {
    let mut backend = EnigoBackend::new(Platform::MacOs);
    assert_eq!(
        backend.inject(&event(InputEventKind::Text { utf8: "hi".to_string() })),
        vec![HostStep::Call(HostCall::Text { text: "hi".to_string() })]
    );
    let greeting = "Gr\u{fc}\u{df}e \u{1f44b}".to_string();
    assert_eq!(
        backend.inject(&event(InputEventKind::Text { utf8: greeting.clone() })),
        vec![HostStep::Call(HostCall::Text { text: greeting })]
    );
    assert_eq!(
        backend.inject(&event(InputEventKind::Text { utf8: String::new() })),
        vec![HostStep::Call(HostCall::Text { text: String::new() })]
    );
    let plan = backend.inject_cursor(&cursor(1, 0.5, 1.0, true));
    assert_eq!(host_run(&mut backend, plan), vec![HostCall::MoveTo { x: 960, y: 1080 }]);
    backend.set_display_size(0, 900);
    let plan = backend.inject_cursor(&cursor(2, 0.25, 0.0, true));
    assert_eq!(host_run(&mut backend, plan), vec![HostCall::MoveTo { x: 480, y: 0 }]);
    backend.set_display_size(1440, 900);
    let plan = backend.inject_cursor(&cursor(3, 0.25, 0.5, true));
    assert_eq!(host_run(&mut backend, plan), vec![HostCall::MoveTo { x: 360, y: 450 }]);
    assert_eq!(backend.inject_cursor(&cursor(2, 0.0, 0.0, true)), vec![]);
    backend.set_display_size(u32::MAX, u32::MAX);
    let plan = backend.inject_cursor(&cursor(4, 1.0, 1.0, true));
    assert_eq!(
        host_run(&mut backend, plan),
        vec![HostCall::MoveTo { x: i32::MAX, y: i32::MAX }]
    );
}

#[test]
fn host_calls_name_their_failure() {
    let all = [
        (HostCall::Reconcile { key: HostKey::Alt, press: true }, "reconcile modifier"),
        (HostCall::Key { key: HostKey::Alt, press: true }, "key down"),
        (HostCall::Key { key: HostKey::Alt, press: false }, "key up"),
        (HostCall::Text { text: "x".to_string() }, "text"),
        (HostCall::Button { button: HostButton::Left, press: true }, "button"),
        (HostCall::MoveBy { dx: 0, dy: 0 }, "relative move"),
        (HostCall::ScrollVertical { ticks: 1 }, "scroll v"),
        (HostCall::ScrollHorizontal { ticks: 1 }, "scroll h"),
        (HostCall::MoveTo { x: 0, y: 0 }, "move_mouse"),
    ];
    for (call, failure) in all {
        assert_eq!(call.failure(), failure);
    }
}
