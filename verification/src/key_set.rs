//! A set of key codes, as a virtual device announces it.
use evdev::AttributeSet;
use vstd::prelude::*;

verus! {

/// One more than the largest key code that a set has room for.
pub const KEY_COUNT: u16 = 0x300;

/// The key codes in a set.
pub uninterp spec fn keys_in(set: KeySet) -> Set<u16>;

/// An `evdev::AttributeSet` of key codes.
#[verifier::external_body]
pub struct KeySet {
    set: AttributeSet<evdev::KeyCode>,
}

/// `evdev::AttributeSet::new`: a new set holds no key.
#[verifier::external_body]
pub(crate) fn empty_set() -> (r: KeySet)
    ensures
        keys_in(r) == Set::<u16>::empty(),
{
    KeySet { set: AttributeSet::<evdev::KeyCode>::new() }
}

/// `evdev::AttributeSetRef::insert`: the key is in the set afterwards, and nothing else
/// changes. It panics on a code that the set has no room for.
#[verifier::external_body]
pub(crate) fn insert_key(s: &mut KeySet, code: u16)
    requires
        code < KEY_COUNT,
    ensures
        keys_in(*final(s)) == keys_in(*old(s)).insert(code),
{
    s.set.insert(evdev::KeyCode(code))
}

/// `evdev::AttributeSetRef::contains`: whether the key is in the set. A code that the set has
/// no room for is not.
#[verifier::external_body]
fn contains_key(s: &KeySet, code: u16) -> (r: bool)
    ensures
        r == keys_in(*s).contains(code),
{
    s.set.contains(evdev::KeyCode(code))
}

/// `evdev::AttributeSetRef::iter`: every key in the set once, in ascending order.
#[verifier::external_body]
fn list_keys(s: &KeySet) -> (r: Vec<u16>)
    ensures
        r@.to_set() == keys_in(*s),
        forall|i: int, j: int| 0 <= i < j < r@.len() ==> r@[i] < r@[j],
{
    s.set.iter().map(|key| key.0).collect()
}

impl KeySet {
    /// Whether the key is in the set.
    pub fn contains(&self, code: u16) -> (r: bool)
        ensures
            r == keys_in(*self).contains(code),
    {
        contains_key(self, code)
    }

    /// The keys, in ascending order.
    pub fn codes(&self) -> (r: Vec<u16>)
        ensures
            r@.to_set() == keys_in(*self),
            forall|i: int, j: int| 0 <= i < j < r@.len() ==> r@[i] < r@[j],
    {
        list_keys(self)
    }
}

} // verus!
