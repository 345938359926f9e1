//! Keys and buttons that an injector has pressed and not yet released.
use std::collections::HashSet;

use vstd::prelude::*;

use crate::protocol::{HidUsage, MouseButton};

verus! {

broadcast use vstd::std_specs::hash::group_hash_axioms;

/// The keys held on the host, by usage.
pub struct HeldKeys {
    usages: HashSet<u32>,
}

impl View for HeldKeys {
    type V = Set<u32>;

    closed spec fn view(&self) -> Set<u32> {
        self.usages@
    }
}

/// The usages in `order` are those of `keys`, each once.
pub open spec fn lists(order: Seq<u32>, keys: Set<u32>) -> bool {
    order.no_duplicates() && order.to_set() == keys
}

impl HeldKeys {
    /// Nothing held.
    pub fn new() -> (r: Self)
        ensures
            r@ == Set::<u32>::empty(),
    {
        HeldKeys { usages: HashSet::new() }
    }

    /// Whether `key` is held.
    pub fn contains(&self, key: HidUsage) -> (r: bool)
        ensures
            r == self@.contains(key.0),
    {
        self.usages.contains(&key.0)
    }

    /// `key` is held from now on.
    pub fn insert(&mut self, key: HidUsage)
        ensures
            final(self)@ == old(self)@.insert(key.0),
    {
        self.usages.insert(key.0);
    }

    /// `key` is not held any more.
    pub fn remove(&mut self, key: HidUsage)
        ensures
            final(self)@ == old(self)@.remove(key.0),
    {
        self.usages.remove(&key.0);
    }

    /// The held keys, each once, in no particular order; afterwards nothing is held.
    pub fn drain(&mut self) -> (r: Vec<u32>)
        ensures
            lists(r@, old(self)@),
            final(self)@ == Set::<u32>::empty(),
    {
        let mut out: Vec<u32> = Vec::new();
        assert({
            let all = vstd::std_specs::iter::IteratorSpec::remaining(&self.usages.iter()).unref();
            all.len() == 0 ==> all == out@
        });
        for k in it: self.usages.iter()
            invariant
                it.seq().no_duplicates(),
                it.seq().unref().to_set() == self.usages@,
                out@ == it.seq().unref().take(it.index() as int),
                it.index() == it.seq().len() ==> lists(out@, self.usages@),
        {
            out.push(*k);
            assert(out@.len() == it.seq().len() ==> out@ == it.seq().unref());
        }
        self.usages.clear();
        out
    }
}

/// The mouse buttons, from the left one on.
pub open spec fn all_buttons() -> Seq<MouseButton> {
    seq![
        MouseButton::Left,
        MouseButton::Right,
        MouseButton::Middle,
        MouseButton::X1,
        MouseButton::X2,
    ]
}

/// The mouse buttons, from the left one on.
pub fn each_button() -> (r: [MouseButton; 5])
    ensures
        r@ == all_buttons(),
{
    [
        MouseButton::Left,
        MouseButton::Right,
        MouseButton::Middle,
        MouseButton::X1,
        MouseButton::X2,
    ]
}

/// What can be released is released: each key of `order` and each button, in that order.
pub open spec fn releases<A>(
    order: Seq<u32>,
    key: spec_fn(u32) -> Option<A>,
    button: spec_fn(MouseButton) -> Option<A>,
) -> Seq<A> {
    order.filter_map(key) + all_buttons().filter_map(button)
}

proof fn lemma_filter_map_contains<T, A>(items: Seq<T>, f: spec_fn(T) -> Option<A>, e: A)
    ensures
        items.filter_map(f).contains(e) <==> exists|t: T| #[trigger]
            items.contains(t) && f(t) == Some(e),
    decreases items.len(),
{
    if items.filter_map(f).contains(e) {
        items.lemma_filter_map_contains(f, e);
    }
    if exists|t: T| #[trigger] items.contains(t) && f(t) == Some(e) {
        let t = choose|t: T| #[trigger] items.contains(t) && f(t) == Some(e);
        let before = items.drop_last();
        let own = match f(items.last()) {
            Some(a) => seq![a],
            None => Seq::empty(),
        };
        assert(items.filter_map(f) == before.filter_map(f) + own);
        vstd::seq_lib::lemma_seq_concat_contains_all_elements(before.filter_map(f), own, e);
        if t == items.last() {
            assert(own[0] == e);
        } else {
            let i = choose|i: int| 0 <= i < items.len() && items[i] == t;
            assert(before[i] == t);
            assert(before.contains(t));
            lemma_filter_map_contains(before, f, e);
        }
    }
}

/// Exactly the releases of the held keys and of the buttons are among the releases.
pub proof fn lemma_releases<A>(
    keys: Set<u32>,
    order: Seq<u32>,
    key: spec_fn(u32) -> Option<A>,
    button: spec_fn(MouseButton) -> Option<A>,
    e: A,
)
    requires
        lists(order, keys),
    ensures
        releases(order, key, button).contains(e) <==> (exists|u: u32| #[trigger]
            keys.contains(u) && key(u) == Some(e)) || (exists|b: MouseButton| #[trigger]
            button(b) == Some(e)),
{
    let of_keys = order.filter_map(key);
    let of_buttons = all_buttons().filter_map(button);
    vstd::seq_lib::lemma_seq_concat_contains_all_elements(of_keys, of_buttons, e);
    lemma_filter_map_contains(order, key, e);
    lemma_filter_map_contains(all_buttons(), button, e);
    assert forall|u: u32| #[trigger] keys.contains(u) == order.contains(u) by {
        assert(order.to_set().contains(u) == order.contains(u));
    }
    assert forall|b: MouseButton| #[trigger] all_buttons().contains(b) by {
        let all = all_buttons();
        assert(all[0] == MouseButton::Left && all[1] == MouseButton::Right);
        assert(all[2] == MouseButton::Middle && all[3] == MouseButton::X1);
        assert(all[4] == MouseButton::X2);
    }
    if of_keys.contains(e) {
        let u = choose|u: u32| #[trigger] order.contains(u) && key(u) == Some(e);
        assert(keys.contains(u));
    }
    if of_buttons.contains(e) {
        let b = choose|b: MouseButton| #[trigger]
            all_buttons().contains(b) && button(b) == Some(e);
        assert(button(b) == Some(e));
    }
    if exists|u: u32| #[trigger] keys.contains(u) && key(u) == Some(e) {
        let u = choose|u: u32| #[trigger] keys.contains(u) && key(u) == Some(e);
        assert(order.contains(u));
    }
    if exists|b: MouseButton| #[trigger] button(b) == Some(e) {
        let b = choose|b: MouseButton| #[trigger] button(b) == Some(e);
        assert(all_buttons().contains(b));
    }
}

/// The mouse buttons held on the host, each with whether it was pressed on the absolute pointer.
#[derive(Clone, Copy, Debug, PartialEq, Eq, Structural)]
pub struct HeldButtons {
    pub left: Option<bool>,
    pub right: Option<bool>,
    pub middle: Option<bool>,
    pub x1: Option<bool>,
    pub x2: Option<bool>,
}

impl HeldButtons {
    /// Nothing held.
    pub open spec fn none() -> HeldButtons {
        HeldButtons { left: None, right: None, middle: None, x1: None, x2: None }
    }

    /// Where `button` is held, if it is.
    pub open spec fn at(self, button: MouseButton) -> Option<bool> {
        match button {
            MouseButton::Left => self.left,
            MouseButton::Right => self.right,
            MouseButton::Middle => self.middle,
            MouseButton::X1 => self.x1,
            MouseButton::X2 => self.x2,
        }
    }

    /// The same, but for `button`.
    pub open spec fn with(self, button: MouseButton, place: Option<bool>) -> HeldButtons {
        match button {
            MouseButton::Left => HeldButtons { left: place, ..self },
            MouseButton::Right => HeldButtons { right: place, ..self },
            MouseButton::Middle => HeldButtons { middle: place, ..self },
            MouseButton::X1 => HeldButtons { x1: place, ..self },
            MouseButton::X2 => HeldButtons { x2: place, ..self },
        }
    }

    /// Nothing held.
    pub fn new() -> (r: Self)
        ensures
            r == HeldButtons::none(),
    {
        HeldButtons { left: None, right: None, middle: None, x1: None, x2: None }
    }

    /// Where `button` is held, if it is.
    pub fn get(&self, button: MouseButton) -> (r: Option<bool>)
        ensures
            r == self.at(button),
    {
        match button {
            MouseButton::Left => self.left,
            MouseButton::Right => self.right,
            MouseButton::Middle => self.middle,
            MouseButton::X1 => self.x1,
            MouseButton::X2 => self.x2,
        }
    }

    /// Note where `button` is held, or that it is not.
    pub fn set(&mut self, button: MouseButton, place: Option<bool>)
        ensures
            *final(self) == old(self).with(button, place),
    {
        match button {
            MouseButton::Left => {
                self.left = place;
            },
            MouseButton::Right => {
                self.right = place;
            },
            MouseButton::Middle => {
                self.middle = place;
            },
            MouseButton::X1 => {
                self.x1 = place;
            },
            MouseButton::X2 => {
                self.x2 = place;
            },
        }
    }
}

/// A set of mouse buttons.
#[derive(Clone, Copy, Debug, PartialEq, Eq, Structural)]
pub struct ButtonSet {
    pub left: bool,
    pub right: bool,
    pub middle: bool,
    pub x1: bool,
    pub x2: bool,
}

impl ButtonSet {
    /// No button.
    pub open spec fn none() -> ButtonSet {
        ButtonSet { left: false, right: false, middle: false, x1: false, x2: false }
    }

    /// Whether `button` is in the set.
    pub open spec fn has(self, button: MouseButton) -> bool {
        match button {
            MouseButton::Left => self.left,
            MouseButton::Right => self.right,
            MouseButton::Middle => self.middle,
            MouseButton::X1 => self.x1,
            MouseButton::X2 => self.x2,
        }
    }

    /// The same, but for `button`.
    pub open spec fn with(self, button: MouseButton, held: bool) -> ButtonSet {
        match button {
            MouseButton::Left => ButtonSet { left: held, ..self },
            MouseButton::Right => ButtonSet { right: held, ..self },
            MouseButton::Middle => ButtonSet { middle: held, ..self },
            MouseButton::X1 => ButtonSet { x1: held, ..self },
            MouseButton::X2 => ButtonSet { x2: held, ..self },
        }
    }

    /// No button.
    pub fn new() -> (r: Self)
        ensures
            r == ButtonSet::none(),
    {
        ButtonSet { left: false, right: false, middle: false, x1: false, x2: false }
    }

    /// Whether `button` is in the set.
    pub fn contains(&self, button: MouseButton) -> (r: bool)
        ensures
            r == self.has(button),
    {
        match button {
            MouseButton::Left => self.left,
            MouseButton::Right => self.right,
            MouseButton::Middle => self.middle,
            MouseButton::X1 => self.x1,
            MouseButton::X2 => self.x2,
        }
    }

    /// Put `button` into the set, or take it out.
    pub fn set(&mut self, button: MouseButton, held: bool)
        ensures
            *final(self) == old(self).with(button, held),
    {
        match button {
            MouseButton::Left => {
                self.left = held;
            },
            MouseButton::Right => {
                self.right = held;
            },
            MouseButton::Middle => {
                self.middle = held;
            },
            MouseButton::X1 => {
                self.x1 = held;
            },
            MouseButton::X2 => {
                self.x2 = held;
            },
        }
    }
}

/// A button is found where it was put, and putting it there moves no other.
pub proof fn buttons_are_found_where_they_were_put(
    held: HeldButtons,
    set: ButtonSet,
    button: MouseButton,
    other: MouseButton,
    place: Option<bool>,
    is_held: bool,
)
    ensures
        held.with(button, place).at(button) == place,
        other != button ==> held.with(button, place).at(other) == held.at(other),
        HeldButtons::none().at(button) is None,
        set.with(button, is_held).has(button) == is_held,
        other != button ==> set.with(button, is_held).has(other) == set.has(other),
        !ButtonSet::none().has(button),
{
}

} // verus!
