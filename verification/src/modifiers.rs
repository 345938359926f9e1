//! Modifier keys: which usages carry them, and how the host is brought in line with the client.
use vstd::prelude::*;

use crate::held::HeldKeys;
use crate::protocol::{HidUsage, InputEventKind, KeyCode, Modifiers};

verus! {

/// Left control.
pub const HID_LCTRL: u32 = 0x0007_00e0;

/// Left shift.
pub const HID_LSHIFT: u32 = 0x0007_00e1;

/// Left alt.
pub const HID_LALT: u32 = 0x0007_00e2;

/// Left meta.
pub const HID_LMETA: u32 = 0x0007_00e3;

/// Right control.
pub const HID_RCTRL: u32 = 0x0007_00e4;

/// Right shift.
pub const HID_RSHIFT: u32 = 0x0007_00e5;

/// Right alt.
pub const HID_RALT: u32 = 0x0007_00e6;

/// Right meta.
pub const HID_RMETA: u32 = 0x0007_00e7;

/// One modifier of the wire, which does not tell left from right.
#[derive(Clone, Copy, Debug, PartialEq, Eq, Structural)]
pub enum ModBit {
    Shift,
    Ctrl,
    Alt,
    Meta,
}

/// The left key of a modifier.
pub open spec fn left_key(bit: ModBit) -> u32 {
    match bit {
        ModBit::Shift => HID_LSHIFT,
        ModBit::Ctrl => HID_LCTRL,
        ModBit::Alt => HID_LALT,
        ModBit::Meta => HID_LMETA,
    }
}

/// The right key of a modifier.
pub open spec fn right_key(bit: ModBit) -> u32 {
    match bit {
        ModBit::Shift => HID_RSHIFT,
        ModBit::Ctrl => HID_RCTRL,
        ModBit::Alt => HID_RALT,
        ModBit::Meta => HID_RMETA,
    }
}

/// Whether `bit` is set.
pub open spec fn has(m: Modifiers, bit: ModBit) -> bool {
    match bit {
        ModBit::Shift => m.shift,
        ModBit::Ctrl => m.ctrl,
        ModBit::Alt => m.alt,
        ModBit::Meta => m.meta,
    }
}

/// Whether either key of `bit` is held.
pub open spec fn is_held(keys: Set<u32>, bit: ModBit) -> bool {
    keys.contains(left_key(bit)) || keys.contains(right_key(bit))
}

/// The modifier that a key carries.
pub open spec fn bit_of(usage: u32) -> Option<ModBit> {
    if usage == HID_LSHIFT || usage == HID_RSHIFT {
        Some(ModBit::Shift)
    } else if usage == HID_LCTRL || usage == HID_RCTRL {
        Some(ModBit::Ctrl)
    } else if usage == HID_LALT || usage == HID_RALT {
        Some(ModBit::Alt)
    } else if usage == HID_LMETA || usage == HID_RMETA {
        Some(ModBit::Meta)
    } else {
        None
    }
}

/// The modifier that a key carries.
pub fn modifier_bit_of(hid: HidUsage) -> (r: Option<ModBit>)
    ensures
        r == bit_of(hid.0),
{
    let u: u32 = hid.0;
    if u == HID_LSHIFT || u == HID_RSHIFT {
        Some(ModBit::Shift)
    } else if u == HID_LCTRL || u == HID_RCTRL {
        Some(ModBit::Ctrl)
    } else if u == HID_LALT || u == HID_RALT {
        Some(ModBit::Alt)
    } else if u == HID_LMETA || u == HID_RMETA {
        Some(ModBit::Meta)
    } else {
        None
    }
}

/// Both keys of a modifier carry it, and no other key does.
pub proof fn modifiers_have_two_keys(usage: u32, bit: ModBit)
    ensures
        bit_of(usage) == Some(bit) <==> usage == left_key(bit) || usage == right_key(bit),
{
}

/// The modifiers that an event carries, and the one that it is itself about.
pub open spec fn carried(kind: InputEventKind) -> Option<(Modifiers, Option<ModBit>)> {
    match kind {
        InputEventKind::KeyDown { key, modifiers } => Some(
            (modifiers, bit_of(key.0)),
        ),
        InputEventKind::KeyUp { key, modifiers } => Some(
            (modifiers, bit_of(key.0)),
        ),
        InputEventKind::Text { .. } => None,
        InputEventKind::MouseButton { modifiers, .. } => Some((modifiers, None)),
        InputEventKind::RelativeMouseMove { modifiers, .. } => Some((modifiers, None)),
        InputEventKind::MouseScroll { modifiers, .. } => Some((modifiers, None)),
    }
}

/// The same modifier on the other side of the keyboard.
pub open spec fn other_side(usage: u32) -> Option<u32> {
    match bit_of(usage) {
        Some(bit) => Some(
            if usage == left_key(bit) {
                right_key(bit)
            } else {
                left_key(bit)
            },
        ),
        None => None,
    }
}

/// The same modifier on the other side of the keyboard: the right key beside a left one, and the
/// left key beside a right one. Other keys have none.
pub fn modifier_right_variant(hid: HidUsage) -> (r: Option<HidUsage>)
    ensures
        forall|bit: ModBit|
            hid.0 == #[trigger] left_key(bit) ==> r == Some(HidUsage(right_key(bit))),
        forall|bit: ModBit|
            hid.0 == #[trigger] right_key(bit) ==> r == Some(HidUsage(left_key(bit))),
        r is None <==> bit_of(hid.0) is None,
        match other_side(hid.0) {
            Some(u) => r == Some(HidUsage(u)),
            None => r is None,
        },
{
    let u: u32 = hid.0;
    if u == HID_LSHIFT {
        Some(HidUsage(HID_RSHIFT))
    } else if u == HID_LCTRL {
        Some(HidUsage(HID_RCTRL))
    } else if u == HID_LALT {
        Some(HidUsage(HID_RALT))
    } else if u == HID_LMETA {
        Some(HidUsage(HID_RMETA))
    } else if u == HID_RSHIFT {
        Some(HidUsage(HID_LSHIFT))
    } else if u == HID_RCTRL {
        Some(HidUsage(HID_LCTRL))
    } else if u == HID_RALT {
        Some(HidUsage(HID_LALT))
    } else if u == HID_RMETA {
        Some(HidUsage(HID_LMETA))
    } else {
        None
    }
}

/// The other side of the other side is the key itself, and both carry one modifier.
pub proof fn changing_sides_twice_gives_the_key_back(usage: u32)
    requires
        bit_of(usage) is Some,
    ensures
        other_side(usage) is Some,
        other_side(usage)->0 != usage,
        bit_of(other_side(usage)->0) == bit_of(usage),
        other_side(other_side(usage)->0) == Some(usage),
{
}

/// The left key of a modifier.
pub fn left_usage(bit: ModBit) -> (r: HidUsage)
    ensures
        r.0 == left_key(bit),
{
    HidUsage(
        match bit {
            ModBit::Shift => HID_LSHIFT,
            ModBit::Ctrl => HID_LCTRL,
            ModBit::Alt => HID_LALT,
            ModBit::Meta => HID_LMETA,
        },
    )
}

/// Which modifiers the host holds, by the keys that were pressed on it.
pub fn host_modifiers(keys: &HeldKeys) -> (r: Modifiers)
    ensures
        forall|bit: ModBit| #[trigger] has(r, bit) == is_held(keys@, bit),
{
    Modifiers {
        shift: keys.contains(HidUsage(HID_LSHIFT)) || keys.contains(HidUsage(HID_RSHIFT)),
        ctrl: keys.contains(HidUsage(HID_LCTRL)) || keys.contains(HidUsage(HID_RCTRL)),
        alt: keys.contains(HidUsage(HID_LALT)) || keys.contains(HidUsage(HID_RALT)),
        meta: keys.contains(HidUsage(HID_LMETA)) || keys.contains(HidUsage(HID_RMETA)),
    }
}

/// A modifier to press or release on the host so that it agrees with the client. The left key is
/// the one that is pressed and released.
#[derive(Clone, Copy, Debug, PartialEq, Eq, Structural)]
pub struct ModifierFix {
    pub bit: ModBit,
    pub press: bool,
}

/// What one modifier needs.
pub open spec fn fix_of(
    keys: Set<u32>,
    wire: Modifiers,
    skip: Option<ModBit>,
    bit: ModBit,
) -> Seq<ModifierFix> {
    if skip == Some(bit) || has(wire, bit) == is_held(keys, bit) {
        Seq::empty()
    } else {
        seq![ModifierFix { bit, press: has(wire, bit) }]
    }
}

/// What the host needs so that it agrees with `wire`, but for `skip`.
pub open spec fn fixes(keys: Set<u32>, wire: Modifiers, skip: Option<ModBit>) -> Seq<ModifierFix> {
    fix_of(keys, wire, skip, ModBit::Shift) + fix_of(keys, wire, skip, ModBit::Ctrl) + fix_of(
        keys,
        wire,
        skip,
        ModBit::Alt,
    ) + fix_of(keys, wire, skip, ModBit::Meta)
}

/// The held keys once a fix was carried out. A release covers both sides.
pub open spec fn after_fix(keys: Set<u32>, fix: ModifierFix) -> Set<u32> {
    if fix.press {
        keys.insert(left_key(fix.bit))
    } else {
        keys.remove(left_key(fix.bit)).remove(right_key(fix.bit))
    }
}

/// The held keys once all fixes were carried out.
pub open spec fn after_fixes(keys: Set<u32>, all: Seq<ModifierFix>) -> Set<u32>
    decreases all.len(),
{
    if all.len() == 0 {
        keys
    } else {
        after_fix(after_fixes(keys, all.drop_last()), all.last())
    }
}

/// Which modifiers to press and release so that the host agrees with `wire`. The caller is about
/// to press or release `skip` itself.
pub fn reconcile_modifiers(keys: &HeldKeys, wire: Modifiers, skip: Option<ModBit>) -> (r: Vec<
    ModifierFix,
>)
    ensures
        r@ == fixes(keys@, wire, skip),
{
    let host: Modifiers = host_modifiers(keys);
    let mut out: Vec<ModifierFix> = Vec::new();
    assert(has(host, ModBit::Shift) == is_held(keys@, ModBit::Shift));
    assert(has(host, ModBit::Ctrl) == is_held(keys@, ModBit::Ctrl));
    assert(has(host, ModBit::Alt) == is_held(keys@, ModBit::Alt));
    assert(has(host, ModBit::Meta) == is_held(keys@, ModBit::Meta));
    push_fix(&mut out, ModBit::Shift, wire.shift, host.shift, skip);
    push_fix(&mut out, ModBit::Ctrl, wire.ctrl, host.ctrl, skip);
    push_fix(&mut out, ModBit::Alt, wire.alt, host.alt, skip);
    push_fix(&mut out, ModBit::Meta, wire.meta, host.meta, skip);
    out
}

fn push_fix(
    out: &mut Vec<ModifierFix>,
    bit: ModBit,
    wire_bit: bool,
    host_bit: bool,
    skip: Option<ModBit>,
)
    ensures
        final(out)@ == old(out)@ + (if skip == Some(bit) || wire_bit == host_bit {
            Seq::empty()
        } else {
            seq![ModifierFix { bit, press: wire_bit }]
        }),
{
    let skipped: bool = match skip {
        Some(b) => b == bit,
        None => false,
    };
    if !skipped && wire_bit != host_bit {
        out.push(ModifierFix { bit, press: wire_bit });
    }
}

/// Note in the held keys that a fix was carried out.
pub fn carry_out(keys: &mut HeldKeys, fix: ModifierFix)
    ensures
        final(keys)@ == after_fix(old(keys)@, fix),
{
    let left: HidUsage = left_usage(fix.bit);
    if fix.press {
        keys.insert(left);
    } else {
        keys.remove(left);
        match modifier_right_variant(left) {
            Some(right) => {
                assert(right.0 == right_key(fix.bit)) by {
                    assert(left.0 == left_key(fix.bit));
                }
                keys.remove(right);
            },
            None => {},
        }
    }
}

proof fn lemma_after_fixes_split(keys: Set<u32>, a: Seq<ModifierFix>, b: Seq<ModifierFix>)
    ensures
        after_fixes(keys, a + b) == after_fixes(after_fixes(keys, a), b),
    decreases b.len(),
{
    if b.len() == 0 {
        assert(a + b == a);
    } else {
        lemma_after_fixes_split(keys, a, b.drop_last());
        assert((a + b).drop_last() == a + b.drop_last());
    }
}

proof fn lemma_after_fix_of(
    start: Set<u32>,
    keys: Set<u32>,
    wire: Modifiers,
    skip: Option<ModBit>,
    bit: ModBit,
)
    requires
        is_held(keys, bit) == is_held(start, bit),
    ensures
        ({
            let next = after_fixes(keys, fix_of(start, wire, skip, bit));
            &&& is_held(next, bit) == (if skip == Some(bit) {
                is_held(start, bit)
            } else {
                has(wire, bit)
            })
            &&& forall|u: u32|
                u != left_key(bit) && u != right_key(bit) ==> next.contains(u) == #[trigger] keys.contains(
                    u,
                )
        }),
{
    let all = fix_of(start, wire, skip, bit);
    if all.len() != 0 {
        assert(all.drop_last() == Seq::<ModifierFix>::empty());
        assert(after_fixes(keys, all.drop_last()) == keys);
        assert(after_fixes(keys, all) == after_fix(keys, all.last()));
    }
}

/// Once the fixes are carried out the host's modifiers agree with the client's, but for the one
/// that the caller handles itself, which is as it was. No other key is touched.
pub proof fn reconciled_modifiers_agree(keys: Set<u32>, wire: Modifiers, skip: Option<ModBit>)
    ensures
        forall|bit: ModBit| #[trigger]
            is_held(after_fixes(keys, fixes(keys, wire, skip)), bit) == (if skip == Some(bit) {
                is_held(keys, bit)
            } else {
                has(wire, bit)
            }),
        forall|u: u32|
            !(HID_LCTRL <= u <= HID_RMETA) ==> #[trigger] after_fixes(
                keys,
                fixes(keys, wire, skip),
            ).contains(u) == keys.contains(u),
{
    let s = fix_of(keys, wire, skip, ModBit::Shift);
    let c = fix_of(keys, wire, skip, ModBit::Ctrl);
    let a = fix_of(keys, wire, skip, ModBit::Alt);
    let m = fix_of(keys, wire, skip, ModBit::Meta);
    let k1 = after_fixes(keys, s);
    let k2 = after_fixes(k1, c);
    let k3 = after_fixes(k2, a);
    let k4 = after_fixes(k3, m);
    lemma_after_fixes_split(keys, s, c);
    lemma_after_fixes_split(keys, s + c, a);
    lemma_after_fixes_split(keys, s + c + a, m);
    assert(k4 == after_fixes(keys, fixes(keys, wire, skip)));
    lemma_after_fix_of(keys, keys, wire, skip, ModBit::Shift);
    lemma_after_fix_of(keys, k1, wire, skip, ModBit::Ctrl);
    lemma_after_fix_of(keys, k2, wire, skip, ModBit::Alt);
    lemma_after_fix_of(keys, k3, wire, skip, ModBit::Meta);
    assert forall|u: u32| !(HID_LCTRL <= u <= HID_RMETA) implies #[trigger] k4.contains(u)
        == keys.contains(u) by {
        assert(k3.contains(u) == k2.contains(u));
        assert(k1.contains(u) == keys.contains(u));
    }
    assert forall|bit: ModBit| #[trigger] is_held(k4, bit) == (if skip == Some(bit) {
        is_held(keys, bit)
    } else {
        has(wire, bit)
    }) by {
        assert(k3.contains(left_key(bit)) || !k3.contains(left_key(bit)));
        assert(k2.contains(left_key(bit)) || !k2.contains(left_key(bit)));
        assert(k1.contains(left_key(bit)) || !k1.contains(left_key(bit)));
        assert(k3.contains(right_key(bit)) || !k3.contains(right_key(bit)));
        assert(k2.contains(right_key(bit)) || !k2.contains(right_key(bit)));
        assert(k1.contains(right_key(bit)) || !k1.contains(right_key(bit)));
    }
}

/// The keys of the client that carry a modifier.
pub open spec fn keys_of(bit: ModBit) -> (KeyCode, KeyCode) {
    match bit {
        ModBit::Shift => (KeyCode::ShiftLeft, KeyCode::ShiftRight),
        ModBit::Ctrl => (KeyCode::ControlLeft, KeyCode::ControlRight),
        ModBit::Alt => (KeyCode::AltLeft, KeyCode::AltRight),
        ModBit::Meta => (KeyCode::SuperLeft, KeyCode::SuperRight),
    }
}

/// A modifier is carried by the client's two keys of that name and by no other key.
pub proof fn modifiers_are_carried_by_the_keys_of_their_name(bit: ModBit, key: KeyCode)
    ensures
        crate::translator::wire_key(keys_of(bit).0) == Some(HidUsage(left_key(bit))),
        crate::translator::wire_key(keys_of(bit).1) == Some(HidUsage(right_key(bit))),
        crate::translator::wire_key(key) matches Some(usage) ==> (bit_of(usage.0) == Some(bit)
            <==> key == keys_of(bit).0 || key == keys_of(bit).1),
{
}

/// One of the two keys with these usage ids on the keyboard page is held.
pub open spec fn holds_either(keys: Set<u32>, left: u32, right: u32) -> bool {
    keys.contains((0x7_0000 + left) as u32) || keys.contains((0x7_0000 + right) as u32)
}

/// Once an event was reconciled, each modifier of the host is up or down as the client said.
pub proof fn each_modifier_follows_its_own_flag(keys: Set<u32>, wire: Modifiers)
    ensures
        ({
            let after = after_fixes(keys, fixes(keys, wire, None));
            &&& holds_either(after, 0xe1, 0xe5) == wire.shift
            &&& holds_either(after, 0xe0, 0xe4) == wire.ctrl
            &&& holds_either(after, 0xe2, 0xe6) == wire.alt
            &&& holds_either(after, 0xe3, 0xe7) == wire.meta
        }),
{
    reconciled_modifiers_agree(keys, wire, None);
    let after = after_fixes(keys, fixes(keys, wire, None));
    assert(is_held(after, ModBit::Shift) == has(wire, ModBit::Shift));
    assert(is_held(after, ModBit::Ctrl) == has(wire, ModBit::Ctrl));
    assert(is_held(after, ModBit::Alt) == has(wire, ModBit::Alt));
    assert(is_held(after, ModBit::Meta) == has(wire, ModBit::Meta));
}

/// Exactly the modifiers on which client and host differ are pressed or released, each the way
/// the client has it.
pub proof fn only_what_differs_is_mended(
    keys: Set<u32>,
    wire: Modifiers,
    skip: Option<ModBit>,
    fix: ModifierFix,
)
    ensures
        fixes(keys, wire, skip).contains(fix) <==> {
            &&& skip != Some(fix.bit)
            &&& has(wire, fix.bit) == fix.press
            &&& is_held(keys, fix.bit) != fix.press
        },
{
    let s = fix_of(keys, wire, skip, ModBit::Shift);
    let c = fix_of(keys, wire, skip, ModBit::Ctrl);
    let a = fix_of(keys, wire, skip, ModBit::Alt);
    let m = fix_of(keys, wire, skip, ModBit::Meta);
    vstd::seq_lib::lemma_seq_concat_contains_all_elements(s, c, fix);
    vstd::seq_lib::lemma_seq_concat_contains_all_elements(s + c, a, fix);
    vstd::seq_lib::lemma_seq_concat_contains_all_elements(s + c + a, m, fix);
    lemma_fix_of_contains(keys, wire, skip, ModBit::Shift, fix);
    lemma_fix_of_contains(keys, wire, skip, ModBit::Ctrl, fix);
    lemma_fix_of_contains(keys, wire, skip, ModBit::Alt, fix);
    lemma_fix_of_contains(keys, wire, skip, ModBit::Meta, fix);
}

proof fn lemma_fix_of_contains(
    keys: Set<u32>,
    wire: Modifiers,
    skip: Option<ModBit>,
    bit: ModBit,
    fix: ModifierFix,
)
    ensures
        fix_of(keys, wire, skip, bit).contains(fix) <==> {
            &&& bit == fix.bit
            &&& skip != Some(bit)
            &&& has(wire, bit) == fix.press
            &&& is_held(keys, bit) != fix.press
        },
{
    let one = fix_of(keys, wire, skip, bit);
    if one.len() > 0 {
        assert(one[0] == ModifierFix { bit, press: has(wire, bit) });
        assert(one.contains(one[0]));
    }
}

/// Reconciling a second time finds nothing to do.
pub proof fn reconciling_again_does_nothing(keys: Set<u32>, wire: Modifiers, skip: Option<ModBit>)
    ensures
        fixes(after_fixes(keys, fixes(keys, wire, skip)), wire, skip).len() == 0,
{
    reconciled_modifiers_agree(keys, wire, skip);
    let after = after_fixes(keys, fixes(keys, wire, skip));
    let again = fixes(after, wire, skip);
    if again.len() > 0 {
        assert(again.contains(again[0]));
        only_what_differs_is_mended(after, wire, skip, again[0]);
        assert(is_held(after, again[0].bit) == has(wire, again[0].bit));
    }
}

} // verus!
