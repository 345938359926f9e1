//! Whom a device trusts: the clients that a host has paired with, and the hosts that a client
//! has pinned.
//!
//! Peers are known by fingerprints with the name of the hash in front. Labels are for display
//! and never decide anything.
use vstd::prelude::*;

use crate::crypto::{hex_decode, hex_encode};
use crate::pairing::Fingerprint;
use crate::sorted_map::SortedMap;
use crate::text::push_decimal;

verus! {

/// The length of the name of the hash, with the colon.
pub const TAG_LEN: usize = 7;

/// A fingerprint as text: the name of the hash, and lower-case hexadecimal digits.
pub open spec fn tagged(fp: Seq<u8>) -> Seq<char> {
    "sha256:"@ + crate::crypto::hex_text(fp)
}

/// The fingerprint that a text stands for, if it is tagged as one.
pub open spec fn untagged(s: Seq<char>) -> Option<Seq<u8>> {
    if s.len() >= TAG_LEN && s.take(TAG_LEN as int) == "sha256:"@ && crate::crypto::is_hex(
        s.skip(TAG_LEN as int),
    ) && crate::crypto::hex_bytes(s.skip(TAG_LEN as int)).len() == 32 {
        Some(crate::crypto::hex_bytes(s.skip(TAG_LEN as int)))
    } else {
        None
    }
}

/// A fingerprint as text.
pub fn tag_fingerprint(fp: &Fingerprint) -> (r: String)
    ensures
        r@ == tagged(fp@),
{
    let mut s: String = "sha256:".to_owned();
    let digits: String = hex_encode(fp.as_slice());
    s.append(digits.as_str());
    s
}

/// The fingerprint that a text stands for. There is none behind another tag, for anything but
/// hexadecimal digits, or for another number of them.
pub fn parse_tagged_fingerprint(text: &str) -> (r: Option<Fingerprint>)
    ensures
        match r {
            Some(fp) => untagged(text@) == Some(fp@),
            None => untagged(text@) is None,
        },
{
    proof {
        reveal_strlit("sha256:");
    }
    let n: usize = text.unicode_len();
    if n < TAG_LEN {
        return None;
    }
    let tag: &str = text.substring_char(0, TAG_LEN);
    if !is_tag(tag) {
        assert(text@.take(TAG_LEN as int) == tag@);
        return None;
    }
    let digits: &str = text.substring_char(TAG_LEN, n);
    assert(text@.take(TAG_LEN as int) == "sha256:"@);
    assert(text@.skip(TAG_LEN as int) == digits@);
    match hex_decode(digits) {
        Some(bytes) => {
            if bytes.len() == 32 {
                let fp: [u8; 32] = to_array(&bytes);
                assert(fp@ == bytes@);
                Some(fp)
            } else {
                None
            }
        },
        None => None,
    }
}

fn is_tag(tag: &str) -> (r: bool)
    ensures
        r == (tag@ == "sha256:"@),
{
    proof {
        reveal_strlit("sha256:");
    }
    if tag.unicode_len() != 7 {
        return false;
    }
    let same: bool = tag.get_char(0) == 's' && tag.get_char(1) == 'h' && tag.get_char(2) == 'a'
        && tag.get_char(3) == '2' && tag.get_char(4) == '5' && tag.get_char(5) == '6'
        && tag.get_char(6) == ':';
    assert(same ==> tag@ =~= "sha256:"@);
    same
}

fn to_array(bytes: &Vec<u8>) -> (r: [u8; 32])
    requires
        bytes@.len() == 32,
    ensures
        r@ == bytes@,
{
    let mut out: [u8; 32] = [0; 32];
    let mut i: usize = 0;
    while i < 32
        invariant
            i <= 32,
            bytes@.len() == 32,
            forall|j: int| 0 <= j < i ==> out@[j] == bytes@[j],
        decreases 32 - i,
    {
        out[i] = bytes[i];
        i = i + 1;
    }
    assert(out@ =~= bytes@);
    out
}

/// What reading a store's file came to.
pub enum StoredFile<T, E> {
    /// There is no such file.
    Missing,
    /// The file could not be read.
    Unreadable(E),
    /// The file does not hold a store.
    Corrupt(E),
    /// The entries of the file, in its order.
    Entries(Vec<(String, T)>),
}

/// Entries as a map. Of two entries with one key the later one counts.
pub open spec fn filed<T>(entries: Seq<(String, T)>) -> Map<Seq<char>, T>
    decreases entries.len(),
{
    if entries.len() == 0 {
        Map::empty()
    } else {
        filed(entries.drop_last()).insert(entries.last().0@, entries.last().1)
    }
}

/// What a file gives: a missing one an empty store, since nothing was saved yet; a damaged one an
/// error, since an empty store in its place would forget whom to trust.
pub open spec fn loaded<T, E>(file: StoredFile<T, E>) -> Result<Map<Seq<char>, T>, E> {
    match file {
        StoredFile::Missing => Ok(Map::empty()),
        StoredFile::Unreadable(e) => Err(e),
        StoredFile::Corrupt(e) => Err(e),
        StoredFile::Entries(entries) => Ok(filed(entries@)),
    }
}

fn load_map<T, E>(file: StoredFile<T, E>) -> (r: Result<SortedMap<T>, E>)
    ensures
        match r {
            Ok(m) => loaded(file) == Ok::<Map<Seq<char>, T>, E>(m@),
            Err(e) => loaded(file) == Err::<Map<Seq<char>, T>, E>(e),
        },
{
    match file {
        StoredFile::Missing => Ok(SortedMap::new()),
        StoredFile::Unreadable(e) => Err(e),
        StoredFile::Corrupt(e) => Err(e),
        StoredFile::Entries(entries) => {
            let ghost all = entries@;
            let mut map: SortedMap<T> = SortedMap::new();
            let mut rest: Vec<(String, T)> = entries;
            let mut held: Vec<(String, T)> = Vec::new();
            // The vector gives up its entries from the end only: turn it round first.
            while rest.len() > 0
                invariant
                    rest@.len() + held@.len() == all.len(),
                    rest@ == all.take(rest@.len() as int),
                    forall|i: int|
                        0 <= i < held@.len() ==> #[trigger] held@[i] == all[all.len() - 1 - i],
                decreases rest.len(),
            {
                match rest.pop() {
                    Some(e) => {
                        held.push(e);
                        assert(rest@ == all.take(rest@.len() as int));
                    },
                    None => {},
                }
            }
            assert(all.take(0) == Seq::<(String, T)>::empty());
            while held.len() > 0
                invariant
                    held@.len() <= all.len(),
                    forall|i: int|
                        0 <= i < held@.len() ==> #[trigger] held@[i] == all[all.len() - 1 - i],
                    map@ == filed(all.take(all.len() - held@.len())),
                decreases held.len(),
            {
                let ghost done = all.len() - held@.len();
                match held.pop() {
                    Some(e) => {
                        assert(e == all[done]);
                        assert(all.take(done + 1).drop_last() == all.take(done));
                        map.insert(e.0, e.1);
                        assert(map@ == filed(all.take(done + 1)));
                    },
                    None => {},
                }
            }
            assert(all.take(all.len() as int) == all);
            Ok(map)
        },
    }
}

/// What the extension of a temporary file is: apart from the file's own, the writing process and
/// the number of its write.
pub open spec fn temp_text(pid: u32, seq: u64) -> Seq<char> {
    "json."@ + crate::text::decimal(pid as nat) + "."@ + crate::text::decimal(seq as nat)
        + ".tmp"@
}

/// The extension of the temporary file that a store is written to before it replaces the old one.
pub fn temp_extension(pid: u32, seq: u64) -> (r: String)
    ensures
        r@ == temp_text(pid, seq),
{
    let mut s: String = "json.".to_owned();
    push_decimal(&mut s, pid as u64);
    s.append(".");
    push_decimal(&mut s, seq);
    s.append(".tmp");
    s
}

/// A paired client. The time is given by the caller, in seconds of Unix time.
#[derive(Clone, Debug, PartialEq, Eq)]
pub struct PeerEntry {
    pub label: String,
    pub paired_at_unix: u64,
}

/// The clients that a host has paired with, by fingerprint.
pub struct PairedStore {
    peers: SortedMap<PeerEntry>,
}

impl View for PairedStore {
    type V = Map<Seq<char>, PeerEntry>;

    closed spec fn view(&self) -> Map<Seq<char>, PeerEntry> {
        self.peers@
    }
}

impl Default for PairedStore {
    fn default() -> (r: Self)
        ensures
            r@ == Map::<Seq<char>, PeerEntry>::empty(),
    {
        PairedStore { peers: SortedMap::new() }
    }
}

impl PairedStore {
    /// The store that a file holds.
    pub fn load<E>(file: StoredFile<PeerEntry, E>) -> (r: Result<Self, E>)
        ensures
            match r {
                Ok(store) => loaded(file) == Ok::<Map<Seq<char>, PeerEntry>, E>(store@),
                Err(e) => loaded(file) == Err::<Map<Seq<char>, PeerEntry>, E>(e),
            },
    {
        match load_map(file) {
            Ok(peers) => Ok(PairedStore { peers }),
            Err(e) => Err(e),
        }
    }

    /// What is written to the file.
    pub fn save(&self) -> (r: Vec<(&str, &PeerEntry)>)
        ensures
            crate::sorted_map::lists(
                r@.map_values(|e: (&str, &PeerEntry)| (e.0@, *e.1)),
                self@,
            ),
    {
        self.peers.entries()
    }

    /// Whether a client is paired.
    pub fn contains(&self, fp: &Fingerprint) -> (r: bool)
        ensures
            r == self@.contains_key(tagged(fp@)),
    {
        self.peers.contains_key(tag_fingerprint(fp).as_str())
    }

    /// Pair with a client, or replace what is known of it.
    pub fn insert(&mut self, fp: &Fingerprint, label: String, paired_at_unix: u64)
        ensures
            final(self)@ == old(self)@.insert(tagged(fp@), PeerEntry { label, paired_at_unix }),
    {
        self.peers.insert(tag_fingerprint(fp), PeerEntry { label, paired_at_unix });
    }

    /// Forget a client. Whether it was paired is returned.
    pub fn remove(&mut self, fp: &Fingerprint) -> (r: bool)
        ensures
            final(self)@ == old(self)@.remove(tagged(fp@)),
            r == old(self)@.contains_key(tagged(fp@)),
    {
        let removed: Option<PeerEntry> = self.peers.remove(tag_fingerprint(fp).as_str());
        removed.is_some()
    }

    /// Forget a client by its fingerprint as text.
    pub fn remove_tagged(&mut self, tagged: &str) -> (r: bool)
        ensures
            final(self)@ == old(self)@.remove(tagged@),
            r == old(self)@.contains_key(tagged@),
    {
        let removed: Option<PeerEntry> = self.peers.remove(tagged);
        removed.is_some()
    }

    /// The number of paired clients.
    pub fn len(&self) -> (r: usize)
        ensures
            r == self@.len(),
            self@.dom().finite(),
    {
        self.peers.len()
    }

    /// Whether no client is paired.
    pub fn is_empty(&self) -> (r: bool)
        ensures
            r == (self@ == Map::<Seq<char>, PeerEntry>::empty()),
    {
        self.peers.is_empty()
    }

    /// The paired clients, in the order of their fingerprints as text.
    pub fn iter(&self) -> (r: Vec<(&str, &PeerEntry)>)
        ensures
            crate::sorted_map::lists(
                r@.map_values(|e: (&str, &PeerEntry)| (e.0@, *e.1)),
                self@,
            ),
    {
        self.peers.entries()
    }
}

/// A host that a client has pinned.
#[derive(Clone, Debug, PartialEq, Eq)]
pub struct HostEntry {
    /// The fingerprint, as text.
    pub fingerprint: String,
    pub label: String,
    pub paired_at_unix: u64,
    /// When the client last connected, if it is known.
    pub last_connected_unix: Option<u64>,
}

/// The hosts that a client has pinned, by the address that it dials.
pub struct KnownHosts {
    hosts: SortedMap<HostEntry>,
}

impl View for KnownHosts {
    type V = Map<Seq<char>, HostEntry>;

    closed spec fn view(&self) -> Map<Seq<char>, HostEntry> {
        self.hosts@
    }
}

impl Default for KnownHosts {
    fn default() -> (r: Self)
        ensures
            r@ == Map::<Seq<char>, HostEntry>::empty(),
    {
        KnownHosts { hosts: SortedMap::new() }
    }
}

impl KnownHosts {
    /// The fingerprint pinned for an address.
    pub open spec fn pinned(self, addr: Seq<char>) -> Option<Seq<u8>> {
        if self@.contains_key(addr) {
            untagged(self@[addr].fingerprint@)
        } else {
            None
        }
    }

    /// The store that a file holds.
    pub fn load<E>(file: StoredFile<HostEntry, E>) -> (r: Result<Self, E>)
        ensures
            match r {
                Ok(store) => loaded(file) == Ok::<Map<Seq<char>, HostEntry>, E>(store@),
                Err(e) => loaded(file) == Err::<Map<Seq<char>, HostEntry>, E>(e),
            },
    {
        match load_map(file) {
            Ok(hosts) => Ok(KnownHosts { hosts }),
            Err(e) => Err(e),
        }
    }

    /// What is written to the file.
    pub fn save(&self) -> (r: Vec<(&str, &HostEntry)>)
        ensures
            crate::sorted_map::lists(
                r@.map_values(|e: (&str, &HostEntry)| (e.0@, *e.1)),
                self@,
            ),
    {
        self.hosts.entries()
    }

    /// The fingerprint pinned for an address, if the host is known and the fingerprint is one.
    pub fn fingerprint(&self, addr: &str) -> (r: Option<Fingerprint>)
        ensures
            match r {
                Some(fp) => self.pinned(addr@) == Some(fp@),
                None => self.pinned(addr@) is None,
            },
    {
        match self.hosts.get(addr) {
            Some(entry) => parse_tagged_fingerprint(entry.fingerprint.as_str()),
            None => None,
        }
    }

    /// Whether a host is known.
    pub fn contains(&self, addr: &str) -> (r: bool)
        ensures
            r == self@.contains_key(addr@),
    {
        self.hosts.contains_key(addr)
    }

    /// Pin a host, or replace what is known of it. It has not been connected to yet.
    pub fn insert(&mut self, addr: String, fp: &Fingerprint, label: String, paired_at_unix: u64)
        ensures
            final(self)@.dom() == old(self)@.dom().insert(addr@),
            final(self)@.remove(addr@) == old(self)@.remove(addr@),
            ({
                let e = final(self)@[addr@];
                &&& e.fingerprint@ == tagged(fp@)
                &&& e.label == label
                &&& e.paired_at_unix == paired_at_unix
                &&& e.last_connected_unix is None
            }),
    {
        let fingerprint: String = tag_fingerprint(fp);
        let ghost key = addr@;
        let ghost e = HostEntry { fingerprint, label, paired_at_unix, last_connected_unix: None };
        self.hosts.insert(
            addr,
            HostEntry { fingerprint, label, paired_at_unix, last_connected_unix: None },
        );
        assert(self@ == old(self)@.insert(key, e));
        assert(self@.remove(key) == old(self)@.remove(key));
    }

    /// Note when a known host was last connected to. Whether it is known is returned.
    pub fn set_last_connected(&mut self, addr: &str, when_unix: u64) -> (r: bool)
        ensures
            r == old(self)@.contains_key(addr@),
            final(self)@ == (if r {
                old(self)@.insert(
                    addr@,
                    HostEntry { last_connected_unix: Some(when_unix), ..old(self)@[addr@] },
                )
            } else {
                old(self)@
            }),
            final(self)@ == connected_at(old(self)@, addr@, when_unix),
    {
        let taken: Option<HostEntry> = self.hosts.remove(addr);
        match taken {
            Some(entry) => {
                let mut entry: HostEntry = entry;
                entry.last_connected_unix = Some(when_unix);
                self.hosts.insert(addr.to_owned(), entry);
                assert(self@ == old(self)@.insert(addr@, entry));
                true
            },
            None => {
                assert(self@ == old(self)@);
                false
            },
        }
    }

    /// Give a known host another label. Whether it is known is returned.
    pub fn rename(&mut self, addr: &str, label: String) -> (r: bool)
        ensures
            r == old(self)@.contains_key(addr@),
            final(self)@ == (if r {
                old(self)@.insert(addr@, HostEntry { label, ..old(self)@[addr@] })
            } else {
                old(self)@
            }),
            final(self)@ == renamed(old(self)@, addr@, label),
    {
        let taken: Option<HostEntry> = self.hosts.remove(addr);
        match taken {
            Some(entry) => {
                let mut entry: HostEntry = entry;
                entry.label = label;
                self.hosts.insert(addr.to_owned(), entry);
                assert(self@ == old(self)@.insert(addr@, entry));
                true
            },
            None => {
                assert(self@ == old(self)@);
                false
            },
        }
    }

    /// Forget a host. Whether it was known is returned.
    pub fn remove(&mut self, addr: &str) -> (r: bool)
        ensures
            final(self)@ == old(self)@.remove(addr@),
            r == old(self)@.contains_key(addr@),
    {
        let removed: Option<HostEntry> = self.hosts.remove(addr);
        removed.is_some()
    }

    /// The known hosts, in the order of their addresses.
    pub fn iter(&self) -> (r: Vec<(&str, &HostEntry)>)
        ensures
            crate::sorted_map::lists(
                r@.map_values(|e: (&str, &HostEntry)| (e.0@, *e.1)),
                self@,
            ),
    {
        self.hosts.entries()
    }

    /// The number of known hosts.
    pub fn len(&self) -> (r: usize)
        ensures
            r == self@.len(),
            self@.dom().finite(),
    {
        self.hosts.len()
    }

    /// Whether no host is known.
    pub fn is_empty(&self) -> (r: bool)
        ensures
            r == (self@ == Map::<Seq<char>, HostEntry>::empty()),
    {
        self.hosts.is_empty()
    }
}

proof fn lemma_parts_of_sum(a: Seq<char>, b: Seq<char>)
    ensures
        (a + b).len() == a.len() + b.len(),
        (a + b).take(a.len() as int) == a,
        (a + b).skip(a.len() as int) == b,
{
    assert((a + b).take(a.len() as int) =~= a);
    assert((a + b).skip(a.len() as int) =~= b);
}

/// Reading a fingerprint's text gives the fingerprint back.
#[verifier::spinoff_prover]
pub proof fn parsing_undoes_tagging(fp: Seq<u8>)
    requires
        fp.len() == 32,
    ensures
        untagged(tagged(fp)) == Some(fp),
{
    reveal_strlit("sha256:");
    crate::crypto::decoding_undoes_encoding(fp);
    lemma_parts_of_sum("sha256:"@, crate::crypto::hex_text(fp));
}

/// Different fingerprints have different texts.
pub proof fn tags_tell_fingerprints_apart(a: Seq<u8>, b: Seq<u8>)
    requires
        a.len() == 32,
        b.len() == 32,
        tagged(a) == tagged(b),
    ensures
        a == b,
{
    parsing_undoes_tagging(a);
    parsing_undoes_tagging(b);
}

/// The text of a fingerprint is the name of the hash and 64 characters.
pub proof fn tags_have_one_length(fp: Seq<u8>)
    requires
        fp.len() == 32,
    ensures
        tagged(fp).len() == TAG_LEN + 64,
{
    reveal_strlit("sha256:");
}

/// A client is paired once it was inserted and not once it was removed; neither changes whether
/// another client is. Removing it again changes nothing.
pub proof fn pairing_is_per_client(
    m: Map<Seq<char>, PeerEntry>,
    fp: Seq<u8>,
    other: Seq<u8>,
    entry: PeerEntry,
)
    requires
        fp.len() == 32,
        other.len() == 32,
        fp != other,
    ensures
        m.insert(tagged(fp), entry).contains_key(tagged(fp)),
        !m.remove(tagged(fp)).contains_key(tagged(fp)),
        m.insert(tagged(fp), entry).contains_key(tagged(other)) == m.contains_key(tagged(other)),
        m.remove(tagged(fp)).contains_key(tagged(other)) == m.contains_key(tagged(other)),
        m.remove(tagged(fp)).remove(tagged(fp)) == m.remove(tagged(fp)),
{
    if tagged(fp) == tagged(other) {
        tags_tell_fingerprints_apart(fp, other);
    }
    assert(m.remove(tagged(fp)).remove(tagged(fp)) =~= m.remove(tagged(fp)));
}

/// Neither a label nor a time of connection is part of the pin, for any address.
pub proof fn labels_and_times_leave_the_pins(
    before: KnownHosts,
    after: KnownHosts,
    addr: Seq<char>,
    label: String,
    when_unix: u64,
    asked: Seq<char>,
)
    requires
        before@.contains_key(addr),
        after@ == before@.insert(addr, HostEntry { label, ..before@[addr] }) || after@
            == before@.insert(
            addr,
            HostEntry { last_connected_unix: Some(when_unix), ..before@[addr] },
        ),
    ensures
        after.pinned(asked) == before.pinned(asked),
{
}

/// What is saved is loaded again.
pub proof fn a_saved_store_loads_again<T>(entries: Seq<(String, T)>, m: Map<Seq<char>, T>)
    requires
        crate::sorted_map::lists(entries.map_values(|e: (String, T)| (e.0@, e.1)), m),
    ensures
        filed(entries) == m,
{
    let list = entries.map_values(|e: (String, T)| (e.0@, e.1));
    assert forall|i: int, j: int| 0 <= i < j < entries.len() implies (#[trigger] entries[i]).0@ != (
    #[trigger] entries[j]).0@ by {
        assert(crate::sorted_map::comes_before(list[i].0, list[j].0));
        crate::sorted_map::order_is_irreflexive(list[i].0);
    }
    lemma_filed(entries);
    assert forall|k: Seq<char>| filed(entries).contains_key(k) <==> m.contains_key(k) by {
        if filed(entries).contains_key(k) {
            let i = choose|i: int| 0 <= i < entries.len() && (#[trigger] entries[i]).0@ == k;
            assert(m.contains_key(list[i].0));
        }
        if m.contains_key(k) {
            let i = choose|i: int| 0 <= i < list.len() && (#[trigger] list[i]).0 == k;
            assert(entries[i].0@ == k);
        }
    }
    assert forall|k: Seq<char>| filed(entries).contains_key(k) implies filed(entries)[k] == m[k] by {
        let i = choose|i: int| 0 <= i < entries.len() && (#[trigger] entries[i]).0@ == k;
        assert(m[list[i].0] == list[i].1);
    }
    assert(filed(entries) =~= m);
}

proof fn lemma_filed<T>(entries: Seq<(String, T)>)
    requires
        forall|i: int, j: int|
            0 <= i < j < entries.len() ==> (#[trigger] entries[i]).0@ != (#[trigger] entries[j]).0@,
    ensures
        forall|k: Seq<char>| #[trigger]
            filed(entries).contains_key(k) <==> exists|i: int|
                0 <= i < entries.len() && (#[trigger] entries[i]).0@ == k,
        forall|i: int|
            0 <= i < entries.len() ==> filed(entries)[(#[trigger] entries[i]).0@] == entries[i].1,
    decreases entries.len(),
{
    if entries.len() > 0 {
        let front = entries.drop_last();
        lemma_filed(front);
        assert forall|k: Seq<char>| #[trigger] filed(entries).contains_key(k) <==> exists|i: int|
            0 <= i < entries.len() && (#[trigger] entries[i]).0@ == k by {
            if filed(entries).contains_key(k) {
                if k == entries.last().0@ {
                    assert(entries[entries.len() - 1].0@ == k);
                } else {
                    assert(filed(front).contains_key(k));
                    let i = choose|i: int| 0 <= i < front.len() && (#[trigger] front[i]).0@ == k;
                    assert(entries[i].0@ == k);
                }
            }
            if exists|i: int| 0 <= i < entries.len() && (#[trigger] entries[i]).0@ == k {
                let i = choose|i: int| 0 <= i < entries.len() && (#[trigger] entries[i]).0@ == k;
                if i < front.len() {
                    assert(front[i].0@ == k);
                    assert(filed(front).contains_key(k));
                }
            }
        }
        assert forall|i: int| 0 <= i < entries.len() implies filed(entries)[(#[trigger] entries[i]).0@]
            == entries[i].1 by {
            if i < front.len() {
                assert(front[i] == entries[i]);
                assert(entries[i].0@ != entries[entries.len() - 1].0@);
            }
        }
    }
}

/// Two writes never share a temporary file, be it of two processes or of one.
pub proof fn temporary_files_differ(pid1: u32, seq1: u64, pid2: u32, seq2: u64)
    requires
        temp_text(pid1, seq1) == temp_text(pid2, seq2),
    ensures
        pid1 == pid2,
        seq1 == seq2,
{
    reveal_strlit("json.");
    reveal_strlit(".");
    reveal_strlit(".tmp");
    let p1 = crate::text::decimal(pid1 as nat);
    let p2 = crate::text::decimal(pid2 as nat);
    let s1 = crate::text::decimal(seq1 as nat);
    let s2 = crate::text::decimal(seq2 as nat);
    crate::text::decimals_are_digits(pid1 as nat);
    crate::text::decimals_are_digits(pid2 as nat);
    let a = temp_text(pid1, seq1);
    let b = temp_text(pid2, seq2);
    assert(a[5 + p1.len() as int] == '.' && b[5 + p2.len() as int] == '.');
    assert(forall|i: int| 0 <= i < p1.len() ==> a[5 + i] == #[trigger] p1[i]);
    assert(forall|i: int| 0 <= i < p2.len() ==> b[5 + i] == #[trigger] p2[i]);
    if p1.len() < p2.len() {
        assert(b[5 + p1.len() as int] == p2[p1.len() as int]);
    }
    if p2.len() < p1.len() {
        assert(a[5 + p2.len() as int] == p1[p2.len() as int]);
    }
    assert(p1.len() == p2.len());
    assert(p1 =~= a.subrange(5, 5 + p1.len() as int));
    assert(p2 =~= b.subrange(5, 5 + p1.len() as int));
    let from = 6 + p1.len() as int;
    assert(a.len() == from + s1.len() + 4 && b.len() == from + s2.len() + 4);
    assert(s1 =~= a.subrange(from, from + s1.len() as int));
    assert(s2 =~= b.subrange(from, from + s1.len() as int));
    crate::text::decimals_tell_numbers_apart(pid1 as nat, pid2 as nat);
    crate::text::decimals_tell_numbers_apart(seq1 as nat, seq2 as nat);
}

/// A file that cannot be read or makes no sense is never taken for a store, not even an empty one:
/// only a file that is not there is an empty store.
pub proof fn only_a_missing_file_is_an_empty_store<T, E>(file: StoredFile<T, E>)
    ensures
        loaded(file) is Err <==> file is Unreadable || file is Corrupt,
        file is Missing ==> loaded(file) == Ok::<Map<Seq<char>, T>, E>(Map::empty()),
        file matches StoredFile::Unreadable(e) ==> loaded(file) == Err::<Map<Seq<char>, T>, E>(e),
        file matches StoredFile::Corrupt(e) ==> loaded(file) == Err::<Map<Seq<char>, T>, E>(e),
        file matches StoredFile::Entries(entries) ==> {
            &&& loaded(file) is Ok
            &&& entries@.len() > 0 ==> (loaded(file)->Ok_0).contains_key(entries@.last().0@)
                && (loaded(file)->Ok_0)[entries@.last().0@] == entries@.last().1
        },
{
}

/// What is filed are the entries: each key is that of some entry, and its value that of the last
/// such.
pub proof fn the_last_entry_of_a_key_counts<T>(entries: Seq<(String, T)>, i: int)
    requires
        0 <= i < entries.len(),
        forall|j: int| i < j < entries.len() ==> (#[trigger] entries[j]).0@ != entries[i].0@,
    ensures
        filed(entries).contains_key(entries[i].0@),
        filed(entries)[entries[i].0@] == entries[i].1,
    decreases entries.len(),
{
    if i < entries.len() - 1 {
        let front = entries.drop_last();
        assert forall|j: int| i < j < front.len() implies (#[trigger] front[j]).0@ != front[i].0@ by {
            assert(entries[j].0@ != entries[i].0@);
        }
        the_last_entry_of_a_key_counts(front, i);
        assert(entries[entries.len() - 1].0@ != entries[i].0@);
    }
}

/// A text is read as a fingerprint only if it is the name of the hash, a colon and 64 hexadecimal
/// digits, in either case.
pub proof fn only_tagged_digits_are_fingerprints(s: Seq<char>)
    ensures
        untagged(s) matches Some(fp) ==> {
            &&& fp.len() == 32
            &&& s.len() == 71
            &&& s.take(7) == "sha256:"@
            &&& forall|i: int|
                7 <= i < 71 ==> ('0' <= #[trigger] s[i] <= '9' || 'a' <= s[i] <= 'f' || 'A' <= s[i]
                    <= 'F')
        },
{
    if untagged(s) is Some {
        let digits = s.skip(7);
        assert forall|i: int| 7 <= i < 71 implies ('0' <= #[trigger] s[i] <= '9' || 'a' <= s[i]
            <= 'f' || 'A' <= s[i] <= 'F') by {
            assert(s[i] == digits[i - 7]);
            assert(crate::crypto::digit_value(digits[i - 7]) is Some);
        }
    }
}

/// A pinned host has the fingerprint that it was pinned with, and no other host's pin changes.
pub proof fn pins_are_per_host(
    before: KnownHosts,
    after: KnownHosts,
    addr: Seq<char>,
    fp: Seq<u8>,
    asked: Seq<char>,
)
    requires
        fp.len() == 32,
        after@.contains_key(addr),
        after@[addr].fingerprint@ == tagged(fp),
        after@.remove(addr) == before@.remove(addr),
    ensures
        after.pinned(addr) == Some(fp),
        asked != addr ==> after.pinned(asked) == before.pinned(asked),
{
    parsing_undoes_tagging(fp);
    if asked != addr {
        assert(after@.remove(addr).contains_key(asked) == after@.contains_key(asked));
        assert(before@.remove(addr).contains_key(asked) == before@.contains_key(asked));
        if after@.contains_key(asked) {
            assert(after@.remove(addr)[asked] == after@[asked]);
            assert(before@.remove(addr)[asked] == before@[asked]);
        }
    }
}

/// The hosts once one of them was connected to.
pub open spec fn connected_at(
    hosts: Map<Seq<char>, HostEntry>,
    addr: Seq<char>,
    when_unix: u64,
) -> Map<Seq<char>, HostEntry> {
    if hosts.contains_key(addr) {
        hosts.insert(addr, HostEntry { last_connected_unix: Some(when_unix), ..hosts[addr] })
    } else {
        hosts
    }
}

/// The hosts once one of them was renamed.
pub open spec fn renamed(
    hosts: Map<Seq<char>, HostEntry>,
    addr: Seq<char>,
    label: String,
) -> Map<Seq<char>, HostEntry> {
    if hosts.contains_key(addr) {
        hosts.insert(addr, HostEntry { label, ..hosts[addr] })
    } else {
        hosts
    }
}

/// A known host takes the label or the time that it is told, the rest of its entry stays, and so do
/// all other hosts; no host comes to be known by it.
pub proof fn labels_and_times_are_per_host(
    hosts: Map<Seq<char>, HostEntry>,
    addr: Seq<char>,
    other: Seq<char>,
    label: String,
    when_unix: u64,
)
    ensures
        renamed(hosts, addr, label).dom() == hosts.dom(),
        connected_at(hosts, addr, when_unix).dom() == hosts.dom(),
        hosts.contains_key(addr) ==> ({
            let e = renamed(hosts, addr, label)[addr];
            &&& e.label == label
            &&& e.fingerprint == hosts[addr].fingerprint
            &&& e.paired_at_unix == hosts[addr].paired_at_unix
            &&& e.last_connected_unix == hosts[addr].last_connected_unix
        }),
        hosts.contains_key(addr) ==> ({
            let e = connected_at(hosts, addr, when_unix)[addr];
            &&& e.last_connected_unix == Some(when_unix)
            &&& e.fingerprint == hosts[addr].fingerprint
            &&& e.paired_at_unix == hosts[addr].paired_at_unix
            &&& e.label == hosts[addr].label
        }),
        other != addr && hosts.contains_key(other) ==> renamed(hosts, addr, label)[other]
            == hosts[other] && connected_at(hosts, addr, when_unix)[other] == hosts[other],
{
    assert(renamed(hosts, addr, label).dom() =~= hosts.dom());
    assert(connected_at(hosts, addr, when_unix).dom() =~= hosts.dom());
}

} // verus!
