//! Device pairing: a PIN that a person types becomes a key that both devices hold, and each
//! device proves to the other that it holds it.
//!
//! The proof is a code over a transcript of what the devices see of each other: the direction, a
//! value bound to the secure channel, both certificates and the protocol version. So a proof is
//! good for one direction of one channel between two devices only.
use vstd::prelude::*;

use crate::crypto::{authenticate, derive_key, equal_in_constant_time, random_bytes};
use crate::pake::Exchange;
use crate::text::push_decimal_digits;

verus! {

/// The SHA-256 hash of a device's certificate.
pub type Fingerprint = [u8; 32];

/// The identity of both sides in the key exchange: `tether-pairing-v1`.
pub const APP_IDENTITY: [u8; 17] = [
    116, 101, 116, 104, 101, 114, 45, 112, 97, 105, 114, 105, 110, 103, 45, 118, 49,
];

/// The purpose of the confirmation key: `tether pairing v1 confirm`.
pub const CONFIRM_INFO: [u8; 25] = [
    116, 101, 116, 104, 101, 114, 32, 112, 97, 105, 114, 105, 110, 103, 32, 118, 49, 32, 99, 111,
    110, 102, 105, 114, 109,
];

/// The label under which both sides export the channel's value: `tether pairing exporter v1`.
pub const EXPORTER_LABEL: [u8; 26] = [
    116, 101, 116, 104, 101, 114, 32, 112, 97, 105, 114, 105, 110, 103, 32, 101, 120, 112, 111, 114,
    116, 101, 114, 32, 118, 49,
];

/// The context under which both sides export the channel's value: none.
pub const EXPORTER_CONTEXT: [u8; 0] = [];

/// The length of the channel's value.
pub const EXPORTER_LEN: usize = 32;

/// The length of a confirmation.
pub const CONFIRM_LEN: usize = 32;

/// The number of digits of a PIN.
pub const PIN_DIGITS: usize = 8;

/// The number of PINs.
pub const PIN_RANGE: u32 = 100_000_000;

/// Draws from here on are not used: below, every PIN comes from equally many draws.
pub const PIN_REJECT_AT: u32 = 4_200_000_000;

/// Four bytes as a number, the lowest first.
pub open spec fn draw_of(bytes: Seq<u8>) -> int {
    bytes[0] + 0x100 * bytes[1] + 0x1_0000 * bytes[2] + 0x100_0000 * bytes[3]
}

/// The PIN of a draw.
pub open spec fn pin_of(draw: int) -> Seq<char> {
    crate::text::decimal_digits((draw % PIN_RANGE as int) as nat, PIN_DIGITS as nat)
}

/// The text is a PIN: one that a usable draw gives.
pub open spec fn is_pin(pin: Seq<char>) -> bool {
    exists|draw: int| 0 <= draw < PIN_REJECT_AT && pin == #[trigger] pin_of(draw)
}

/// The PIN of four random bytes, unless they are to be drawn again.
pub fn pin_from_bytes(bytes: [u8; 4]) -> (r: Option<String>)
    ensures
        match r {
            Some(pin) => draw_of(bytes@) < PIN_REJECT_AT && pin@ == pin_of(draw_of(bytes@)),
            None => draw_of(bytes@) >= PIN_REJECT_AT,
        },
{
    let draw: u32 = bytes[0] as u32 + 0x100 * (bytes[1] as u32) + 0x1_0000 * (bytes[2] as u32)
        + 0x100_0000 * (bytes[3] as u32);
    if draw < PIN_REJECT_AT {
        let mut pin: String = String::new();
        push_decimal_digits(&mut pin, draw % PIN_RANGE, PIN_DIGITS as u32);
        assert(pin@ == pin_of(draw as int));
        Some(pin)
    } else {
        None
    }
}

/// Why there is no fresh PIN.
#[derive(Clone, Copy, Debug, PartialEq, Eq, Structural)]
pub enum PinError {
    /// The operating system has no random bytes to give.
    NoRandomBytes,
    /// As many draws as 64 bits count were all thrown away. The caller may go on drawing.
    OutOfDraws,
}

/// A fresh PIN. Draws that would make some PINs likelier are thrown away. Whether there is one
/// rests on the random bytes that the operating system gives.
pub fn generate_pin() -> (r: Result<String, PinError>)
    ensures
        r matches Ok(pin) ==> is_pin(pin@),
{
    let mut left: u64 = u64::MAX;
    while left > 0
        decreases left,
    {
        match random_bytes() {
            Some(bytes) => {
                match pin_from_bytes(bytes) {
                    Some(pin) => {
                        assert(0 <= draw_of(bytes@));
                        return Ok(pin);
                    },
                    None => {},
                }
            },
            None => {
                return Err(PinError::NoRandomBytes);
            },
        }
        left = left - 1;
    }
    Err(PinError::OutOfDraws)
}

/// Why pairing failed.
#[derive(Clone, Copy, Debug, PartialEq, Eq, Structural)]
pub enum PairingError {
    /// The peer's message of the key exchange is malformed. A wrong PIN does not show here: it
    /// gives another key, which the confirmation finds out.
    Spake2Failed,
}

impl PairingError {
    /// The error as text.
    pub fn message(&self) -> (r: &'static str)
        ensures
            r@ == "SPAKE2 key agreement failed"@,
    {
        "SPAKE2 key agreement failed"
    }
}

/// Which side proves that it holds the key.
#[derive(Clone, Copy, Debug, PartialEq, Eq, Structural)]
pub enum Direction {
    HostToClient,
    ClientToHost,
}

impl Direction {
    /// The bytes that stand for the direction: `H2C` or `C2H`.
    pub open spec fn bytes(self) -> Seq<u8> {
        match self {
            Direction::HostToClient => seq![72u8, 50u8, 67u8],
            Direction::ClientToHost => seq![67u8, 50u8, 72u8],
        }
    }

    /// The bytes that stand for the direction.
    pub fn tag(self) -> (r: [u8; 3])
        ensures
            r@ == self.bytes(),
    {
        match self {
            Direction::HostToClient => [72, 50, 67],
            Direction::ClientToHost => [67, 50, 72],
        }
    }
}

/// What a confirmation is bound to.
pub struct Transcript<'a> {
    /// The value that both ends export from the secure channel.
    pub exporter: &'a [u8; EXPORTER_LEN],
    pub fp_host: &'a Fingerprint,
    pub fp_client: &'a Fingerprint,
    pub protocol_version: &'a str,
}

/// Four bytes of a number, the highest first.
pub open spec fn big_endian(n: int) -> Seq<u8> {
    seq![
        (n / 0x100_0000 % 0x100) as u8,
        (n / 0x1_0000 % 0x100) as u8,
        (n / 0x100 % 0x100) as u8,
        (n % 0x100) as u8,
    ]
}

impl Transcript<'_> {
    /// The bytes of the version.
    pub open spec fn version_bytes(&self) -> Seq<u8> {
        vstd::utf8::encode_utf8(self.protocol_version@)
    }

    /// The version's length fits the four bytes that it is given.
    pub open spec fn fits(&self) -> bool {
        self.version_bytes().len() <= u32::MAX
    }

    /// What the confirmation is computed over: fields of fixed width, and the version behind its
    /// length.
    pub open spec fn layout(&self, dir: Direction) -> Seq<u8> {
        dir.bytes() + self.exporter@ + self.fp_host@ + self.fp_client@ + big_endian(
            self.version_bytes().len() as int,
        ) + self.version_bytes()
    }
}

fn push_big_endian(out: &mut Vec<u8>, n: u32)
    ensures
        final(out)@ == old(out)@ + big_endian(n as int),
{
    out.push((n / 0x100_0000) as u8);
    out.push((n / 0x1_0000 % 0x100) as u8);
    out.push((n / 0x100 % 0x100) as u8);
    out.push((n % 0x100) as u8);
    assert(n / 0x100_0000 % 0x100 == n / 0x100_0000);
}

fn lay_out(dir: Direction, t: &Transcript<'_>) -> (r: Vec<u8>)
    requires
        t.fits(),
    ensures
        r@ == t.layout(dir),
{
    let mut out: Vec<u8> = Vec::new();
    let tag: [u8; 3] = dir.tag();
    out.extend_from_slice(tag.as_slice());
    assert(out@ == dir.bytes());
    out.extend_from_slice(t.exporter.as_slice());
    assert(out@ == dir.bytes() + t.exporter@);
    out.extend_from_slice(t.fp_host.as_slice());
    assert(out@ == dir.bytes() + t.exporter@ + t.fp_host@);
    out.extend_from_slice(t.fp_client.as_slice());
    assert(out@ == dir.bytes() + t.exporter@ + t.fp_host@ + t.fp_client@);
    let version: &[u8] = t.protocol_version.as_bytes();
    push_big_endian(&mut out, version.len() as u32);
    out.extend_from_slice(version);
    assert(out@ == t.layout(dir));
    out
}

/// The first half of pairing: the exchange has begun, and its message waits to be sent.
pub struct PairingStart {
    exchange: Exchange,
}

impl PairingStart {
    /// The PIN that pairing began with.
    pub closed spec fn pin(&self) -> Seq<u8> {
        self.exchange.pin()
    }

    /// The message for the peer.
    pub closed spec fn outbound(&self) -> Seq<u8> {
        self.exchange.own()
    }

    /// The exchange goes under the identity of this application.
    #[verifier::type_invariant]
    spec fn has_app_identity(self) -> bool {
        self.exchange.identity() == APP_IDENTITY@
    }

    /// Begin pairing with a PIN. The exchange draws a random scalar: where the operating system
    /// has no random bytes to give, this panics.
    pub fn new(pin: &[u8]) -> (r: Self)
        ensures
            r.pin() == pin@,
            r.outbound().len() == crate::pake::PAKE_MESSAGE_LEN,
            r.outbound()[0] == crate::pake::PAKE_SYMMETRIC_SIDE,
            forall|p: Seq<u8>, id: Seq<u8>, sent: Seq<u8>|
                (#[trigger] crate::pake::spake2_key(p, id, sent, r.outbound())) is Some,
    {
        let identity: [u8; 17] = APP_IDENTITY;
        PairingStart { exchange: crate::pake::start_symmetric(pin, identity.as_slice()) }
    }

    /// The message for the peer.
    pub fn outbound_msg(&self) -> (r: &[u8])
        ensures
            r@ == self.outbound(),
    {
        self.exchange.message()
    }

    /// Derive the confirmation key from the peer's message. Only a malformed message fails.
    pub fn into_keyed(self, peer_msg: &[u8]) -> (r: Result<KeyedPairing, PairingError>)
        ensures
            match crate::pake::spake2_key(self.pin(), APP_IDENTITY@, self.outbound(), peer_msg@) {
                Some(shared) => r is Ok && (r->Ok_0)@ == confirm_key_of(shared),
                None => r == Err::<KeyedPairing, PairingError>(PairingError::Spake2Failed),
            },
            peer_msg@.len() != crate::pake::PAKE_MESSAGE_LEN ==> r is Err,
            peer_msg@.len() > 0 && peer_msg@[0] != crate::pake::PAKE_SYMMETRIC_SIDE ==> r is Err,
            r matches Ok(keyed) ==> is_outcome(self, peer_msg@, keyed),
    {
        proof {
            use_type_invariant(&self);
        }
        match crate::pake::finish(self.exchange, peer_msg) {
            Ok(shared) => Ok(KeyedPairing::from_shared(shared.as_slice())),
            Err(_) => Err(PairingError::Spake2Failed),
        }
    }
}

/// The confirmation key that a shared secret gives. It is a key of its own, so that the secret
/// itself serves no second purpose.
pub open spec fn confirm_key_of(shared: Seq<u8>) -> Seq<u8> {
    crate::crypto::hkdf_sha256(shared, CONFIRM_INFO@)
}

/// The confirmation of one direction of a transcript.
pub open spec fn confirmation_of(key: Seq<u8>, dir: Direction, t: &Transcript<'_>) -> Seq<u8> {
    crate::crypto::hmac_sha256(key, t.layout(dir))
}

/// The second half of pairing: the confirmation key is there.
pub struct KeyedPairing {
    confirm_key: [u8; 32],
}

impl View for KeyedPairing {
    type V = Seq<u8>;

    closed spec fn view(&self) -> Seq<u8> {
        self.confirm_key@
    }
}

impl KeyedPairing {
    /// Derive the confirmation key from the shared secret.
    pub fn from_shared(shared: &[u8]) -> (r: Self)
        ensures
            r@ == confirm_key_of(shared@),
    {
        let info: [u8; 25] = CONFIRM_INFO;
        KeyedPairing { confirm_key: derive_key(shared, info.as_slice()) }
    }

    /// This side's confirmation.
    pub fn make_confirmation(&self, dir: Direction, t: &Transcript<'_>) -> (r: [u8; CONFIRM_LEN])
        requires
            t.fits(),
        ensures
            r@ == confirmation_of(self@, dir, t),
    {
        let message: Vec<u8> = lay_out(dir, t);
        authenticate(self.confirm_key.as_slice(), message.as_slice())
    }

    /// Whether the peer's confirmation is the one that is due. Nothing tells which part of it is
    /// wrong, not even the time that it takes.
    pub fn verify_confirmation(&self, dir: Direction, t: &Transcript<'_>, peer_mac: &[u8]) -> (r:
        bool)
        requires
            t.fits(),
        ensures
            r == (peer_mac@ == confirmation_of(self@, dir, t)),
    {
        let expected: [u8; CONFIRM_LEN] = self.make_confirmation(dir, t);
        peer_mac.len() == CONFIRM_LEN && equal_in_constant_time(expected.as_slice(), peer_mac)
    }
}

/// Below the limit every PIN comes from the same number of draws, and the limit is the last
/// multiple that 32 bits hold: so every PIN is equally likely, and few draws are thrown away.
pub proof fn every_pin_is_equally_likely(n: int, draw: int)
    requires
        0 <= n < PIN_RANGE,
        0 <= draw < PIN_REJECT_AT,
    ensures
        draw % (PIN_RANGE as int) == n <==> exists|k: int|
            0 <= k < 42 && draw == n + #[trigger] (k * PIN_RANGE),
        PIN_REJECT_AT == 42 * PIN_RANGE,
        u32::MAX - PIN_REJECT_AT < PIN_RANGE,
{
    let k = draw / (PIN_RANGE as int);
    if draw % (PIN_RANGE as int) == n {
        assert(draw == n + k * PIN_RANGE);
    }
    if exists|k: int| 0 <= k < 42 && draw == n + #[trigger] (k * PIN_RANGE) {
        let j = choose|k: int| 0 <= k < 42 && draw == n + #[trigger] (k * PIN_RANGE);
        assert(draw % (PIN_RANGE as int) == n);
    }
}

/// A PIN has eight characters, all of them decimal digits.
pub proof fn pins_have_eight_digits(pin: Seq<char>)
    requires
        is_pin(pin),
    ensures
        pin.len() == PIN_DIGITS,
        forall|i: int| 0 <= i < pin.len() ==> '0' <= #[trigger] pin[i] <= '9',
{
    let draw = choose|draw: int| 0 <= draw < PIN_REJECT_AT && pin == #[trigger] pin_of(draw);
    lemma_digits((draw % (PIN_RANGE as int)) as nat, PIN_DIGITS as nat);
}

proof fn lemma_digits(value: nat, n: nat)
    ensures
        crate::text::decimal_digits(value, n).len() == n,
        forall|i: int|
            0 <= i < n ==> '0' <= #[trigger] crate::text::decimal_digits(value, n)[i] <= '9',
    decreases n,
{
    if n > 0 {
        lemma_digits(value / 10, (n - 1) as nat);
    }
}

#[verifier::spinoff_prover]
proof fn lemma_big_endian(a: int, b: int)
    requires
        0 <= a <= u32::MAX,
        0 <= b <= u32::MAX,
        big_endian(a) == big_endian(b),
    ensures
        a == b,
{
    assert(big_endian(a)[0] == big_endian(b)[0]);
    assert(big_endian(a)[1] == big_endian(b)[1]);
    assert(big_endian(a)[2] == big_endian(b)[2]);
    assert(big_endian(a)[3] == big_endian(b)[3]);
}

/// No two transcripts, and no two directions of one, have the same layout: whichever field
/// differs, the confirmation is computed over something else. A message sent back to its sender
/// is computed over the other direction.
pub proof fn layouts_never_collide(
    d1: Direction,
    t1: &Transcript<'_>,
    d2: Direction,
    t2: &Transcript<'_>,
)
    requires
        t1.fits(),
        t2.fits(),
        t1.layout(d1) == t2.layout(d2),
    ensures
        d1 == d2,
        t1.exporter@ == t2.exporter@,
        t1.fp_host@ == t2.fp_host@,
        t1.fp_client@ == t2.fp_client@,
        t1.protocol_version@ == t2.protocol_version@,
{
    let a = t1.layout(d1);
    let b = t2.layout(d2);
    assert(a.subrange(0, 3) == d1.bytes() && b.subrange(0, 3) == d2.bytes());
    assert(d1 == d2) by {
        assert(d1.bytes()[0] == d2.bytes()[0]);
    }
    assert(a.subrange(3, 35) == t1.exporter@ && b.subrange(3, 35) == t2.exporter@);
    assert(a.subrange(35, 67) == t1.fp_host@ && b.subrange(35, 67) == t2.fp_host@);
    assert(a.subrange(67, 99) == t1.fp_client@ && b.subrange(67, 99) == t2.fp_client@);
    let n1 = t1.version_bytes();
    let n2 = t2.version_bytes();
    assert(a.subrange(99, 103) == big_endian(n1.len() as int));
    assert(b.subrange(99, 103) == big_endian(n2.len() as int));
    lemma_big_endian(n1.len() as int, n2.len() as int);
    assert(a.subrange(103, 103 + n1.len() as int) == n1);
    assert(b.subrange(103, 103 + n1.len() as int) == n2);
    vstd::utf8::encode_utf8_decode_utf8(t1.protocol_version@);
    vstd::utf8::encode_utf8_decode_utf8(t2.protocol_version@);
}

/// What `PairingStart::into_keyed` leaves of an exchange: the key is the one of the PIN and the
/// two messages, and it is the same with the messages exchanged.
pub open spec fn is_outcome(start: PairingStart, received: Seq<u8>, keyed: KeyedPairing) -> bool {
    let there = crate::pake::spake2_key(start.pin(), APP_IDENTITY@, start.outbound(), received);
    let back = crate::pake::spake2_key(start.pin(), APP_IDENTITY@, received, start.outbound());
    there is Some && there == back && keyed@ == confirm_key_of(there->0)
}

/// Two devices that began with one PIN and received each other's message hold one key, so each
/// takes the other's confirmation, in both directions.
pub proof fn one_pin_confirms_both_ways(
    host_start: PairingStart,
    client_start: PairingStart,
    host: KeyedPairing,
    client: KeyedPairing,
    dir: Direction,
    t: &Transcript<'_>,
)
    ensures
        host_start.pin() == client_start.pin() && is_outcome(
            host_start,
            client_start.outbound(),
            host,
        ) && is_outcome(client_start, host_start.outbound(), client) ==> host@ == client@
            && confirmation_of(host@, dir, t) == confirmation_of(client@, dir, t),
{
}

/// A PIN reads as the draw's place among all PINs.
pub proof fn pins_read_as_their_draw(draw: int)
    requires
        0 <= draw,
    ensures
        pin_of(draw).len() == 8,
        crate::text::number_of(pin_of(draw)) == draw % 100_000_000,
{
    let n = (draw % (PIN_RANGE as int)) as nat;
    reveal_with_fuel(crate::text::ten_to, 9);
    assert(crate::text::ten_to(8) == 100_000_000);
    crate::text::padded_digits_read_as_their_number(n, 8);
}

/// Each field of a transcript lies at its own place in what the confirmation is computed over:
/// three bytes of direction, 32 bytes each of the channel's value, the host's and the client's
/// fingerprint, four bytes of length, the highest first, and that many bytes of version.
#[verifier::spinoff_prover]
pub proof fn transcript_fields_lie_at_their_places(dir: Direction, t: &Transcript<'_>)
    requires
        t.fits(),
    ensures
        ({
            let all = t.layout(dir);
            let n = vstd::utf8::encode_utf8(t.protocol_version@).len() as int;
            &&& all.len() == 103 + n
            &&& all[0] as char == (if dir == Direction::HostToClient {
                'H'
            } else {
                'C'
            })
            &&& all[1] as char == '2'
            &&& all[2] as char == (if dir == Direction::HostToClient {
                'C'
            } else {
                'H'
            })
            &&& all.subrange(3, 35) == t.exporter@
            &&& all.subrange(35, 67) == t.fp_host@
            &&& all.subrange(67, 99) == t.fp_client@
            &&& 0x100_0000 * all[99] + 0x1_0000 * all[100] + 0x100 * all[101] + all[102] == n
            &&& all.subrange(103, 103 + n) == vstd::utf8::encode_utf8(t.protocol_version@)
        }),
{
    let all = t.layout(dir);
    let n = t.version_bytes().len() as int;
    assert(all.subrange(3, 35) == t.exporter@);
    assert(all.subrange(35, 67) == t.fp_host@);
    assert(all.subrange(67, 99) == t.fp_client@);
    let len = big_endian(n);
    assert(all[99] == len[0] && all[100] == len[1] && all[101] == len[2] && all[102] == len[3]);
    assert(all.subrange(103, 103 + n) == t.version_bytes());
    assert(all[0] == dir.bytes()[0] && all[1] == dir.bytes()[1] && all[2] == dir.bytes()[2]);
}

/// The names under which both sides derive and export are the same bytes as their texts.
pub proof fn names_are_their_texts(i: int)
    ensures
        0 <= i < 17 ==> "tether-pairing-v1"@.len() == 17 && APP_IDENTITY@[i] as char
            == "tether-pairing-v1"@[i],
        0 <= i < 25 ==> "tether pairing v1 confirm"@.len() == 25 && CONFIRM_INFO@[i] as char
            == "tether pairing v1 confirm"@[i],
        0 <= i < 26 ==> "tether pairing exporter v1"@.len() == 26 && EXPORTER_LABEL@[i] as char
            == "tether pairing exporter v1"@[i],
{
    reveal_strlit("tether-pairing-v1");
    reveal_strlit("tether pairing v1 confirm");
    reveal_strlit("tether pairing exporter v1");
}

/// Four bytes are read lowest first: each byte is one digit of the draw to the base of 256.
pub proof fn draws_are_read_lowest_byte_first(bytes: Seq<u8>)
    requires
        bytes.len() == 4,
    ensures
        draw_of(bytes) % 0x100 == bytes[0],
        draw_of(bytes) / 0x100 % 0x100 == bytes[1],
        draw_of(bytes) / 0x100 / 0x100 % 0x100 == bytes[2],
        draw_of(bytes) / 0x100 / 0x100 / 0x100 == bytes[3],
{
    let (a, b, c, d) = (bytes[0] as int, bytes[1] as int, bytes[2] as int, bytes[3] as int);
    let n = draw_of(bytes);
    let high = b + 0x100 * c + 0x1_0000 * d;
    assert(n == a + 0x100 * high);
    assert(n / 0x100 == high);
    let higher = c + 0x100 * d;
    assert(high == b + 0x100 * higher);
    assert(high / 0x100 == higher);
}

} // verus!
