//! A map from text to values that lists its entries in the order of their keys.
use vstd::prelude::*;

verus! {

/// `a` comes before `b`: by the first character in which they differ, or as its beginning.
pub open spec fn comes_before(a: Seq<char>, b: Seq<char>) -> bool
    decreases a.len(),
{
    if b.len() == 0 {
        false
    } else if a.len() == 0 {
        true
    } else if a[0] != b[0] {
        a[0] < b[0]
    } else {
        comes_before(a.skip(1), b.skip(1))
    }
}

/// Nothing comes before itself.
pub proof fn order_is_irreflexive(a: Seq<char>)
    ensures
        !comes_before(a, a),
    decreases a.len(),
{
    if a.len() > 0 {
        order_is_irreflexive(a.skip(1));
    }
}

/// The order is transitive.
pub proof fn order_is_transitive(a: Seq<char>, b: Seq<char>, c: Seq<char>)
    requires
        comes_before(a, b),
        comes_before(b, c),
    ensures
        comes_before(a, c),
    decreases a.len(),
{
    if a.len() > 0 && a[0] == b[0] && b[0] == c[0] {
        order_is_transitive(a.skip(1), b.skip(1), c.skip(1));
    }
}

/// Of two different texts one comes before the other.
pub proof fn order_is_total(a: Seq<char>, b: Seq<char>)
    ensures
        a == b || comes_before(a, b) || comes_before(b, a),
    decreases a.len(),
{
    if a.len() > 0 && b.len() > 0 && a[0] == b[0] {
        order_is_total(a.skip(1), b.skip(1));
        if a.skip(1) == b.skip(1) {
            assert forall|i: int| 0 <= i < a.len() implies a[i] == b[i] by {
                if i > 0 {
                    assert(a[i] == a.skip(1)[i - 1]);
                    assert(b[i] == b.skip(1)[i - 1]);
                }
            }
            assert(a.len() == a.skip(1).len() + 1);
            assert(a == b);
        }
    } else if a.len() == 0 && b.len() == 0 {
        assert(a == b);
    }
}

/// How two keys lie to each other.
enum Place {
    Before,
    Same,
    Behind,
}

fn characters(s: &str) -> (r: Vec<char>)
    ensures
        r@ == s@,
{
    let mut out: Vec<char> = Vec::new();
    for c in it: s.chars()
        invariant
            it.seq() == s@,
            out@ == s@.take(it.index() as int),
    {
        out.push(c);
    }
    assert(s@.take(s@.len() as int) == s@);
    out
}

fn place(a: &Vec<char>, b: &Vec<char>) -> (r: Place)
    ensures
        match r {
            Place::Before => comes_before(a@, b@),
            Place::Same => a@ == b@,
            Place::Behind => comes_before(b@, a@),
        },
{
    let mut i: usize = 0;
    assert(a@.skip(0) == a@ && b@.skip(0) == b@);
    assert(a@.take(0) == b@.take(0));
    while i < a.len() && i < b.len()
        invariant
            i <= a.len(),
            i <= b.len(),
            a@.take(i as int) == b@.take(i as int),
            comes_before(a@, b@) == comes_before(a@.skip(i as int), b@.skip(i as int)),
            comes_before(b@, a@) == comes_before(b@.skip(i as int), a@.skip(i as int)),
        decreases a.len() - i,
    {
        let x: char = a[i];
        let y: char = b[i];
        assert(a@.skip(i as int).skip(1) == a@.skip(i + 1));
        assert(b@.skip(i as int).skip(1) == b@.skip(i + 1));
        if x < y {
            return Place::Before;
        }
        if y < x {
            return Place::Behind;
        }
        assert(a@.take(i + 1) == a@.take(i as int).push(x));
        assert(b@.take(i + 1) == b@.take(i as int).push(y));
        i = i + 1;
    }
    if i < b.len() {
        Place::Before
    } else if i < a.len() {
        Place::Behind
    } else {
        assert(a@.take(i as int) == a@ && b@.take(i as int) == b@);
        Place::Same
    }
}

/// One entry.
struct Entry<V> {
    key: String,
    value: V,
}

/// A map from text to values, kept in the order of its keys.
pub struct SortedMap<V> {
    entries: Vec<Entry<V>>,
}

spec fn is_sorted<V>(s: Seq<Entry<V>>) -> bool {
    forall|i: int, j: int|
        0 <= i < j < s.len() ==> comes_before((#[trigger] s[i]).key@, (#[trigger] s[j]).key@)
}

spec fn has_key<V>(s: Seq<Entry<V>>, k: Seq<char>) -> bool {
    exists|i: int| 0 <= i < s.len() && (#[trigger] s[i]).key@ == k
}

spec fn index_of<V>(s: Seq<Entry<V>>, k: Seq<char>) -> int {
    choose|i: int| 0 <= i < s.len() && (#[trigger] s[i]).key@ == k
}

spec fn as_map<V>(s: Seq<Entry<V>>) -> Map<Seq<char>, V> {
    Map::new(|k: Seq<char>| has_key(s, k), |k: Seq<char>| s[index_of(s, k)].value)
}

proof fn lemma_one_place<V>(s: Seq<Entry<V>>, i: int, j: int)
    requires
        is_sorted(s),
        0 <= i < s.len(),
        0 <= j < s.len(),
        s[i].key@ == s[j].key@,
    ensures
        i == j,
{
    order_is_irreflexive(s[i].key@);
}

proof fn lemma_at<V>(s: Seq<Entry<V>>, i: int)
    requires
        is_sorted(s),
        0 <= i < s.len(),
    ensures
        as_map(s).contains_key(s[i].key@),
        as_map(s)[s[i].key@] == s[i].value,
{
    let k = s[i].key@;
    assert(has_key(s, k));
    lemma_one_place(s, i, index_of(s, k));
}

/// `list` holds the entries of `m`, each once, in the order of their keys.
pub open spec fn lists<V>(list: Seq<(Seq<char>, V)>, m: Map<Seq<char>, V>) -> bool {
    &&& forall|i: int, j: int|
        0 <= i < j < list.len() ==> comes_before((#[trigger] list[i]).0, (#[trigger] list[j]).0)
    &&& forall|i: int|
        0 <= i < list.len() ==> m.contains_key((#[trigger] list[i]).0) && m[list[i].0] == list[i].1
    &&& forall|k: Seq<char>| #[trigger]
        m.contains_key(k) ==> exists|i: int| 0 <= i < list.len() && (#[trigger] list[i]).0 == k
}

impl<V> View for SortedMap<V> {
    type V = Map<Seq<char>, V>;

    closed spec fn view(&self) -> Map<Seq<char>, V> {
        as_map(self.entries@)
    }
}

impl<V> SortedMap<V> {
    #[verifier::type_invariant]
    spec fn in_order(self) -> bool {
        is_sorted(self.entries@)
    }

    /// An empty map.
    pub fn new() -> (r: Self)
        ensures
            r@ == Map::<Seq<char>, V>::empty(),
    {
        let r = SortedMap { entries: Vec::new() };
        assert(r@ == Map::<Seq<char>, V>::empty());
        r
    }

    /// Where `key` is, or else belongs.
    fn find(&self, key: &str) -> (r: (bool, usize))
        ensures
            r.1 <= self.entries@.len(),
            r.0 ==> r.1 < self.entries@.len() && self.entries@[r.1 as int].key@ == key@,
            r.0 == self@.contains_key(key@),
            forall|i: int| 0 <= i < r.1 ==> comes_before(#[trigger] self.entries@[i].key@, key@),
            !r.0 ==> forall|i: int|
                r.1 <= i < self.entries@.len() ==> comes_before(
                    key@,
                    #[trigger] self.entries@[i].key@,
                ),
    {
        proof {
            use_type_invariant(self);
        }
        let wanted: Vec<char> = characters(key);
        let mut i: usize = 0;
        while i < self.entries.len()
            invariant
                i <= self.entries.len(),
                wanted@ == key@,
                is_sorted(self.entries@),
                forall|j: int| 0 <= j < i ==> comes_before(#[trigger] self.entries@[j].key@, key@),
            decreases self.entries.len() - i,
        {
            let here: Vec<char> = characters(self.entries[i].key.as_str());
            match place(&here, &wanted) {
                Place::Before => {},
                Place::Same => {
                    assert(has_key(self.entries@, key@));
                    return (true, i);
                },
                Place::Behind => {
                    proof {
                        let s = self.entries@;
                        assert forall|j: int| i <= j < s.len() implies comes_before(
                            key@,
                            #[trigger] s[j].key@,
                        ) by {
                            if j > i {
                                order_is_transitive(key@, s[i as int].key@, s[j].key@);
                            }
                        }
                        lemma_absent(s, i as int, key@);
                    }
                    return (false, i);
                },
            }
            i = i + 1;
        }
        proof {
            lemma_absent(self.entries@, i as int, key@);
        }
        (false, i)
    }

    /// How many entries there are.
    pub fn len(&self) -> (r: usize)
        ensures
            r == self@.len(),
            self@.dom().finite(),
    {
        proof {
            use_type_invariant(self);
            let keys = self.entries@.map_values(|e: Entry<V>| e.key@);
            assert forall|i: int, j: int| 0 <= i < keys.len() && 0 <= j < keys.len() && i != j implies
                keys[i] != keys[j] by {
                if keys[i] == keys[j] {
                    lemma_one_place(self.entries@, i, j);
                }
            }
            keys.unique_seq_to_set();
            assert forall|k: Seq<char>| self@.dom().contains(k) implies keys.to_set().contains(k) by {
                let i = choose|i: int|
                    0 <= i < self.entries@.len() && (#[trigger] self.entries@[i]).key@ == k;
                assert(keys[i] == k);
            }
            assert forall|k: Seq<char>| keys.to_set().contains(k) implies self@.dom().contains(k) by {
                let i = choose|i: int| 0 <= i < keys.len() && keys[i] == k;
                assert(self.entries@[i].key@ == k);
            }
            assert(self@.dom() =~= keys.to_set());
            vstd::seq_lib::seq_to_set_is_finite(keys);
        }
        self.entries.len()
    }

    /// Whether there are no entries.
    pub fn is_empty(&self) -> (r: bool)
        ensures
            r == (self@ == Map::<Seq<char>, V>::empty()),
    {
        proof {
            use_type_invariant(self);
            let s = self.entries@;
            if s.len() == 0 {
                assert(self@ =~= Map::<Seq<char>, V>::empty());
            } else {
                lemma_at(s, 0);
            }
        }
        self.entries.len() == 0
    }

    /// Whether `key` has an entry.
    pub fn contains_key(&self, key: &str) -> (r: bool)
        ensures
            r == self@.contains_key(key@),
    {
        let (found, _): (bool, usize) = self.find(key);
        found
    }

    /// The value of `key`.
    pub fn get(&self, key: &str) -> (r: Option<&V>)
        ensures
            match r {
                Some(v) => self@.contains_key(key@) && *v == self@[key@],
                None => !self@.contains_key(key@),
            },
    {
        proof {
            use_type_invariant(self);
        }
        let (found, i): (bool, usize) = self.find(key);
        if found {
            proof {
                lemma_at(self.entries@, i as int);
            }
            Some(&self.entries[i].value)
        } else {
            None
        }
    }

    /// Give `key` a value, in place of the one that it may have.
    pub fn insert(&mut self, key: String, value: V)
        ensures
            final(self)@ == old(self)@.insert(key@, value),
    {
        proof {
            use_type_invariant(&*self);
        }
        let (found, i): (bool, usize) = self.find(key.as_str());
        let mut entries: Vec<Entry<V>> = Vec::new();
        std::mem::swap(&mut entries, &mut self.entries);
        let ghost before = entries@;
        let ghost k = key@;
        if found {
            entries.remove(i);
        }
        let ghost middle = entries@;
        entries.insert(i, Entry { key, value });
        proof {
            let s = entries@;
            assert forall|a: int, b: int| 0 <= a < b < s.len() implies comes_before(
                (#[trigger] s[a]).key@,
                (#[trigger] s[b]).key@,
            ) by {
                assert(a < i ==> s[a] == before[a]);
                assert(b < i ==> s[b] == before[b]);
                if a >= i && b > i {
                    assert(found ==> s[b] == before[b]);
                    assert(!found ==> s[b] == before[b - 1]);
                    if a > i {
                        assert(found ==> s[a] == before[a]);
                        assert(!found ==> s[a] == before[a - 1]);
                    }
                } else if a < i && b > i {
                    assert(found ==> s[b] == before[b]);
                    assert(!found ==> s[b] == before[b - 1]);
                }
            }
            assert(is_sorted(s));
            assert(s.remove(i as int) == middle);
            assert(as_map(before).contains_key(k) == has_key(before, k));
            lemma_replaced(before, s, i as int, found, k, value);
        }
        self.entries = entries;
    }

    /// Take the entry of `key` out of the map.
    pub fn remove(&mut self, key: &str) -> (r: Option<V>)
        ensures
            final(self)@ == old(self)@.remove(key@),
            match r {
                Some(v) => old(self)@.contains_key(key@) && v == old(self)@[key@],
                None => !old(self)@.contains_key(key@),
            },
    {
        proof {
            use_type_invariant(&*self);
        }
        let (found, i): (bool, usize) = self.find(key);
        if !found {
            assert(self@ == self@.remove(key@));
            return None;
        }
        let mut entries: Vec<Entry<V>> = Vec::new();
        std::mem::swap(&mut entries, &mut self.entries);
        let ghost before = entries@;
        proof {
            lemma_at(before, i as int);
        }
        let entry: Entry<V> = entries.remove(i);
        proof {
            let s = entries@;
            assert forall|a: int, b: int| 0 <= a < b < s.len() implies comes_before(
                (#[trigger] s[a]).key@,
                (#[trigger] s[b]).key@,
            ) by {
                let a0 = if a < i {
                    a
                } else {
                    a + 1
                };
                let b0 = if b < i {
                    b
                } else {
                    b + 1
                };
                assert(s[a] == before[a0] && s[b] == before[b0]);
            }
            lemma_removed(before, s, i as int);
        }
        self.entries = entries;
        Some(entry.value)
    }

    /// All entries, in the order of their keys.
    pub fn entries(&self) -> (r: Vec<(&str, &V)>)
        ensures
            lists(r@.map_values(|e: (&str, &V)| (e.0@, *e.1)), self@),
    {
        proof {
            use_type_invariant(self);
        }
        let mut out: Vec<(&str, &V)> = Vec::new();
        let mut i: usize = 0;
        while i < self.entries.len()
            invariant
                i <= self.entries.len(),
                out@.len() == i,
                forall|j: int|
                    0 <= j < i ==> (#[trigger] out@[j]).0@ == self.entries@[j].key@ && *out@[j].1
                        == self.entries@[j].value,
            decreases self.entries.len() - i,
        {
            out.push((self.entries[i].key.as_str(), &self.entries[i].value));
            i = i + 1;
        }
        proof {
            let list = out@.map_values(|e: (&str, &V)| (e.0@, *e.1));
            let s = self.entries@;
            assert forall|j: int| 0 <= j < list.len() implies self@.contains_key(
                (#[trigger] list[j]).0,
            ) && self@[list[j].0] == list[j].1 by {
                lemma_at(s, j);
            }
            assert forall|k: Seq<char>| #[trigger] self@.contains_key(k) implies exists|j: int|
                0 <= j < list.len() && (#[trigger] list[j]).0 == k by {
                let j = choose|j: int| 0 <= j < s.len() && (#[trigger] s[j]).key@ == k;
                assert(list[j].0 == k);
            }
        }
        out
    }
}

proof fn lemma_absent<V>(s: Seq<Entry<V>>, at: int, k: Seq<char>)
    requires
        0 <= at <= s.len(),
        forall|i: int| 0 <= i < at ==> comes_before(#[trigger] s[i].key@, k),
        forall|i: int| at <= i < s.len() ==> comes_before(k, #[trigger] s[i].key@),
    ensures
        !has_key(s, k),
{
    order_is_irreflexive(k);
}

proof fn lemma_removed<V>(before: Seq<Entry<V>>, s: Seq<Entry<V>>, at: int)
    requires
        is_sorted(before),
        is_sorted(s),
        0 <= at < before.len(),
        s == before.remove(at),
    ensures
        as_map(s) == as_map(before).remove(before[at].key@),
{
    let m = as_map(before).remove(before[at].key@);
    assert forall|k: Seq<char>| as_map(s).contains_key(k) <==> m.contains_key(k) by {
        if as_map(s).contains_key(k) {
            let j = choose|j: int| 0 <= j < s.len() && (#[trigger] s[j]).key@ == k;
            let j0 = if j < at {
                j
            } else {
                j + 1
            };
            assert(before[j0] == s[j]);
            if before[at].key@ == k {
                lemma_one_place(before, at, j0);
            }
        }
        if m.contains_key(k) {
            let j = choose|j: int| 0 <= j < before.len() && (#[trigger] before[j]).key@ == k;
            let j1 = if j < at {
                j
            } else {
                j - 1
            };
            assert(s[j1] == before[j]);
        }
    }
    assert forall|k: Seq<char>| as_map(s).contains_key(k) implies as_map(s)[k] == m[k] by {
        let j = choose|j: int| 0 <= j < s.len() && (#[trigger] s[j]).key@ == k;
        let j0 = if j < at {
            j
        } else {
            j + 1
        };
        assert(before[j0] == s[j]);
        assert(m.contains_key(k));
        lemma_at(s, j);
        lemma_at(before, j0);
    }
    assert(as_map(s) =~= m);
}

proof fn lemma_replaced<V>(
    before: Seq<Entry<V>>,
    s: Seq<Entry<V>>,
    at: int,
    found: bool,
    k: Seq<char>,
    value: V,
)
    requires
        is_sorted(before),
        is_sorted(s),
        0 <= at < s.len(),
        found ==> at < before.len() && before[at].key@ == k && before.remove(at) == s.remove(at),
        !found ==> before == s.remove(at) && !has_key(before, k),
        s[at].key@ == k,
        s[at].value == value,
    ensures
        as_map(s) == as_map(before).insert(k, value),
{
    let rest = s.remove(at);
    assert forall|a: int, b: int| 0 <= a < b < rest.len() implies comes_before(
        (#[trigger] rest[a]).key@,
        (#[trigger] rest[b]).key@,
    ) by {
        let a0 = if a < at {
            a
        } else {
            a + 1
        };
        let b0 = if b < at {
            b
        } else {
            b + 1
        };
        assert(rest[a] == s[a0] && rest[b] == s[b0]);
    }
    lemma_removed(s, rest, at);
    lemma_at(s, at);
    if found {
        lemma_removed(before, rest, at);
        assert(as_map(before).remove(k) == as_map(s).remove(k));
    } else {
        assert(as_map(before) == as_map(s).remove(k));
    }
    assert(as_map(s) =~= as_map(before).insert(k, value)) by {
        assert(as_map(s) =~= as_map(s).remove(k).insert(k, value));
        assert(as_map(before).insert(k, value) =~= as_map(before).remove(k).insert(k, value));
    }
}

/// Texts are ordered as in a dictionary: by the first character in which they differ, and a text
/// comes before what it begins.
pub proof fn order_is_that_of_a_dictionary(common: Seq<char>, a: Seq<char>, b: Seq<char>)
    ensures
        a.len() > 0 && b.len() > 0 && a[0] < b[0] ==> comes_before(common + a, common + b)
            && !comes_before(common + b, common + a),
        b.len() > 0 ==> comes_before(common, common + b) && !comes_before(common + b, common),
    decreases common.len(),
{
    if common.len() > 0 {
        let rest = common.skip(1);
        order_is_that_of_a_dictionary(rest, a, b);
        assert((common + a).skip(1) == rest + a);
        assert((common + b).skip(1) == rest + b);
        assert((common + a)[0] == common[0] && (common + b)[0] == common[0]);
    } else {
        assert(common + a == a);
        assert(common + b == b);
    }
}

} // verus!
