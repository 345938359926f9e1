//! The password-authenticated key exchange, by the `spake2` crate.
//!
//! Both sides start with one PIN, send each other one message, and finish with the message that
//! they received. The crate draws a secret number at the start, so no two exchanges are alike;
//! what a side gets in the end depends on the PIN, the identity and the two messages only.
use spake2::{Ed25519Group, Identity, Password, Spake2};
use vstd::prelude::*;

verus! {

/// The length of a message of the exchange.
pub const PAKE_MESSAGE_LEN: usize = 33;

/// The first byte of a message of the symmetric exchange.
pub const PAKE_SYMMETRIC_SIDE: u8 = 0x53;

/// What `Spake2::finish` gives a side that started with `pin` and `identity`, sent `own` and
/// received `peer`, or nothing if it refuses `peer`. The secret number is fixed by `own`, the PIN
/// and the group, so it is not among the arguments.
pub uninterp spec fn spake2_key(
    pin: Seq<u8>,
    identity: Seq<u8>,
    own: Seq<u8>,
    peer: Seq<u8>,
) -> Option<Seq<u8>>;

/// `spake2::Error`, the reason for which a peer's message is refused.
#[verifier::external_type_specification]
#[verifier::external_body]
pub struct ExSpakeError(spake2::Error);

/// The crate's own state of an exchange.
#[verifier::external_body]
struct PakeState {
    state: Spake2<Ed25519Group>,
}

/// An exchange in progress: the crate's state, and what it was started with. Only
/// `start_symmetric` makes one.
pub struct Exchange {
    state: PakeState,
    pin: Ghost<Seq<u8>>,
    identity: Ghost<Seq<u8>>,
    own: Vec<u8>,
}

impl Exchange {
    /// The PIN that the exchange was started with.
    pub closed spec fn pin(&self) -> Seq<u8> {
        self.pin@
    }

    /// The identity that the exchange was started with.
    pub closed spec fn identity(&self) -> Seq<u8> {
        self.identity@
    }

    /// The message for the peer.
    pub closed spec fn own(&self) -> Seq<u8> {
        self.own@
    }

    /// The message for the peer.
    pub fn message(&self) -> (r: &[u8])
        ensures
            r@ == self.own(),
    {
        self.own.as_slice()
    }
}

/// `Spake2::<Ed25519Group>::start_symmetric` draws a secret number from the operating system and
/// makes the message for the peer: the side byte and the encoding of a point of the group. Since
/// it is the encoding of a point, no exchange refuses it. Which point it is rests on chance. It
/// panics where the operating system has no random bytes to give; no argument decides that.
#[verifier::external_body]
pub(crate) fn start_symmetric(pin: &[u8], identity: &[u8]) -> (r: Exchange)
    ensures
        r.pin() == pin@,
        r.identity() == identity@,
        r.own().len() == PAKE_MESSAGE_LEN,
        r.own()[0] == PAKE_SYMMETRIC_SIDE,
        forall|p: Seq<u8>, id: Seq<u8>, sent: Seq<u8>|
            (#[trigger] spake2_key(p, id, sent, r.own())) is Some,
{
    let (state, own) = Spake2::<Ed25519Group>::start_symmetric(
        &Password::new(pin),
        &Identity::new(identity),
    );
    Exchange {
        state: PakeState { state },
        pin: Ghost(pin@),
        identity: Ghost(identity@),
        own,
    }
}

/// `Spake2::finish` of an exchange that was started symmetrically. It refuses a message of
/// another length, with another side byte, or that encodes no point of the group. The key that it
/// otherwise gives is a SHA-256 hash over the PIN, the identity, both messages in sorted order
/// and the shared point, and so is the same with the two messages exchanged.
#[verifier::external_body]
pub(crate) fn finish(exchange: Exchange, peer: &[u8]) -> (r: Result<Vec<u8>, spake2::Error>)
    ensures
        match spake2_key(exchange.pin(), exchange.identity(), exchange.own(), peer@) {
            Some(key) => r is Ok && r->Ok_0@ == key && key.len() == 32,
            None => r is Err,
        },
        peer@.len() != PAKE_MESSAGE_LEN ==> r is Err,
        peer@.len() > 0 && peer@[0] != PAKE_SYMMETRIC_SIDE ==> r is Err,
        r is Ok ==> spake2_key(exchange.pin(), exchange.identity(), exchange.own(), peer@)
            == spake2_key(exchange.pin(), exchange.identity(), peer@, exchange.own()),
{
    exchange.state.state.finish(peer)
}

} // verus!
