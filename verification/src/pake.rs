//! The SPAKE2 exchange and the key confirmation that the PIN handshake is built on.

use hmac::Mac;
use spake2::{Ed25519Group, Spake2};
use subtle::ConstantTimeEq;
use vstd::prelude::*;

verus! {

/// The state of a SPAKE2 exchange between its two messages.
#[verifier::external_body]
pub struct PakeState {
    inner: Spake2<Ed25519Group>,
}

/// Bytes of a SPAKE2 message: the letter of the side that sent it and a compressed
/// curve point.
pub const PAKE_MESSAGE_LEN: usize = 33;

/// One side of an exchange that has sent its message.
pub struct PakeParty {
    /// Whether this side dialed.
    pub dialer: bool,
    pub password: Seq<u8>,
    pub dialer_identity: Seq<u8>,
    pub listener_identity: Seq<u8>,
    /// The message that this side sent.
    pub sent: Seq<u8>,
}

/// Why the other side's message does not finish an exchange.
#[derive(Clone, Copy, Debug, PartialEq, Eq, Structural)]
pub enum PakeError {
    BadSide,
    CorruptMessage,
    WrongLength,
}

impl PakeError {
    /// The error in words.
    pub open spec fn words(self) -> Seq<char> {
        match self {
            PakeError::BadSide => "bad side"@,
            PakeError::CorruptMessage => "corrupt message"@,
            PakeError::WrongLength => "invalid length"@,
        }
    }

    /// The error in words.
    pub fn as_str(self) -> (r: &'static str)
        ensures
            r@ == self.words(),
    {
        match self {
            PakeError::BadSide => "bad side",
            PakeError::CorruptMessage => "corrupt message",
            PakeError::WrongLength => "invalid length",
        }
    }
}

/// The letter that a message of the dialer, or of the listener, starts with.
pub open spec fn side_letter(dialer: bool) -> u8 {
    if dialer {
        0x41
    } else {
        0x42
    }
}

/// Whether thirty-two bytes are the compressed form of a curve point.
pub uninterp spec fn curve_element(bytes: Seq<u8>) -> bool;

/// What is wrong with a message that the dialer, or the listener, received.
pub open spec fn pake_error(dialer: bool, received: Seq<u8>) -> Option<PakeError> {
    if received.len() != PAKE_MESSAGE_LEN {
        Some(PakeError::WrongLength)
    } else if received[0] != side_letter(!dialer) {
        Some(PakeError::BadSide)
    } else if !curve_element(received.skip(1)) {
        Some(PakeError::CorruptMessage)
    } else {
        None
    }
}

/// Which side an exchange is, what it was started with and what it sent.
pub uninterp spec fn pake_party(state: PakeState) -> PakeParty;

/// The key that a side derives from the message it received.
pub uninterp spec fn pake_key(party: PakeParty, received: Seq<u8>) -> Seq<u8>;

/// Whether two sides run one exchange on one password.
pub open spec fn partners(a: PakeParty, b: PakeParty) -> bool {
    &&& a.dialer != b.dialer
    &&& a.password == b.password
    &&& a.dialer_identity == b.dialer_identity
    &&& a.listener_identity == b.listener_identity
}

/// Whether `party` was started with the given password and identities.
pub open spec fn started(
    party: PakeParty,
    dialer: bool,
    password: Seq<u8>,
    dialer_identity: Seq<u8>,
    listener_identity: Seq<u8>,
) -> bool {
    &&& party.dialer == dialer
    &&& party.password == password
    &&& party.dialer_identity == dialer_identity
    &&& party.listener_identity == listener_identity
}

/// `spake2::Spake2::<Ed25519Group>::start_a`. It draws a scalar, so which message it
/// sends is not stated; that the message is well formed is.
#[verifier::external_body]
pub(crate) fn start_dialer(
    password: &[u8],
    dialer_identity: &[u8],
    listener_identity: &[u8],
) -> (r: (PakeState, Vec<u8>))
    ensures
        started(pake_party(r.0), true, password@, dialer_identity@, listener_identity@),
        r.1@ == pake_party(r.0).sent,
        r.1@.len() == PAKE_MESSAGE_LEN,
        r.1@[0] == side_letter(true),
        curve_element(r.1@.skip(1)),
{
    let id_a = spake2::Identity::new(dialer_identity);
    let id_b = spake2::Identity::new(listener_identity);
    let (inner, message) = Spake2::start_a(&spake2::Password::new(password), &id_a, &id_b);
    (PakeState { inner }, message)
}

/// `spake2::Spake2::<Ed25519Group>::start_b`. It draws a scalar, so which message it
/// sends is not stated; that the message is well formed is.
#[verifier::external_body]
pub(crate) fn start_listener(
    password: &[u8],
    dialer_identity: &[u8],
    listener_identity: &[u8],
) -> (r: (PakeState, Vec<u8>))
    ensures
        started(pake_party(r.0), false, password@, dialer_identity@, listener_identity@),
        r.1@ == pake_party(r.0).sent,
        r.1@.len() == PAKE_MESSAGE_LEN,
        r.1@[0] == side_letter(false),
        curve_element(r.1@.skip(1)),
{
    let id_a = spake2::Identity::new(dialer_identity);
    let id_b = spake2::Identity::new(listener_identity);
    let (inner, message) = Spake2::start_b(&spake2::Password::new(password), &id_a, &id_b);
    (PakeState { inner }, message)
}

/// `spake2::Spake2::finish`. It refuses a message of the wrong length, one of its own
/// side and one that is no curve point, in that order. Otherwise it derives a key from
/// what the side was started with and the two messages; the message a side sent fixes
/// its scalar. Two sides of one exchange on one password that read each other's
/// messages derive one key. That other passwords give other keys is not stated: it
/// holds but for chance.
#[verifier::external_body]
pub(crate) fn finish(state: PakeState, received: &[u8]) -> (r: Result<
    Vec<u8>,
    PakeError,
>)
    ensures
        match r {
            Err(e) => pake_error(pake_party(state).dialer, received@) == Some(e),
            Ok(key) => pake_error(pake_party(state).dialer, received@) is None && key@ == pake_key(
                pake_party(state),
                received@,
            ),
        },
        r matches Ok(key) ==> forall|other: PakeParty|
            #[trigger] partners(pake_party(state), other) && other.sent == received@ ==> key@
                == pake_key(other, pake_party(state).sent),
{
    state.inner.finish(received).map_err(
        |e|
            match e {
                spake2::Error::BadSide => PakeError::BadSide,
                spake2::Error::CorruptMessage => PakeError::CorruptMessage,
                spake2::Error::WrongLength => PakeError::WrongLength,
            },
    )
}

/// The HMAC-SHA256 of `message` under `key`.
pub uninterp spec fn hmac_sha256(key: Seq<u8>, message: Seq<u8>) -> Seq<u8>;

/// `hmac::Hmac::<Sha256>`, keyed with `new_from_slice`, which takes a key of any
/// length, and finished over `message`.
#[verifier::external_body]
pub(crate) fn hmac_of(key: &[u8], message: &[u8]) -> (r: [u8; 32])
    ensures
        r@ == hmac_sha256(key@, message@),
{
    let mut mac = hmac::Hmac::<sha2::Sha256>::new_from_slice(key).expect("any key length");
    mac.update(message);
    mac.finalize().into_bytes().into()
}

/// `subtle::ConstantTimeEq::ct_eq` on bytes: whether the two are the same.
#[verifier::external_body]
pub(crate) fn same_bytes(a: &[u8], b: &[u8]) -> (r: bool)
    ensures
        r == (a@ == b@),
{
    a.ct_eq(b).into()
}

} // verus!
