//! The key handshake: what both sides sign, the checks of each side and their order,
//! and the close codes by which a refused dialer learns why.

use rand::RngCore;
use vstd::prelude::*;
use vstd::string::*;
use vstd::utf8::encode_utf8;

use crate::auth::{
    auth_signature_error, card_valid_at, parsed_key, verify_auth_signature, CardView, Identity,
    IdentityCard, PublicKey, CLOCK_SKEW_GRACE_SECS,
};
use crate::hash::{base64_bytes, push_bytes, to_base64};
use crate::net::claim::{after_key_commit, key_may_commit, ClaimView, PairClaim};
use crate::net::{card_views, trusted_card, KeyIdentity};
use crate::node::{node_ids_are_short, NodeId};
use crate::protocol::{be32, be32_reads_back, be32_value, DUOCB_PROTO_VERSION};
use crate::text::{ascii_takes_a_byte_each, hex_text};

verus! {

/// Seconds that an authentication handshake may take.
pub const AUTH_TIMEOUT_SECS: u64 = 10;

/// Close code for a clean local shutdown.
pub const SHUTDOWN_CODE: u32 = 0;

/// Close code for an authentication failure.
pub const AUTH_FAILED_CODE: u32 = 1;

/// Close code for an authentication timeout.
pub const AUTH_TIMEOUT_CODE: u32 = 2;

/// Close code for a dialer that is not the paired peer.
pub const SERVER_BUSY_CODE: u32 = 3;

/// Close code for a dialer whose key is trusted but whose card has expired.
pub const CARD_EXPIRED_CODE: u32 = 4;

// ---------------------------------------------------------------------------
// Transcripts
// ---------------------------------------------------------------------------

/// One length-prefixed field of a transcript.
pub open spec fn field_bytes(value: Seq<u8>) -> Seq<u8> {
    be32(value.len()) + value
}

/// What a handshake is bound to: both application keys, both nonces and both
/// transport ids.
pub struct HandshakeView {
    pub client_key: Seq<u8>,
    pub server_key: Seq<u8>,
    pub client_nonce: Seq<char>,
    pub server_nonce: Seq<char>,
    pub client_node: Seq<u8>,
    pub server_node: Seq<u8>,
}

/// The fields of a transcript, in order.
pub open spec fn transcript_fields(role: Seq<char>, h: HandshakeView) -> Seq<Seq<u8>> {
    seq![
        encode_utf8(role),
        h.client_key,
        h.server_key,
        encode_utf8(h.client_nonce),
        encode_utf8(h.server_nonce),
        encode_utf8(hex_text(h.client_node)),
        encode_utf8(hex_text(h.server_node)),
    ]
}

/// Each of the fields with its length in front.
pub open spec fn prefixed(fields: Seq<Seq<u8>>) -> Seq<u8>
    decreases fields.len(),
{
    if fields.len() == 0 {
        Seq::empty()
    } else {
        prefixed(fields.drop_last()) + field_bytes(fields.last())
    }
}

/// The bytes that `role` signs: the protocol version and each field with its length.
pub open spec fn transcript(role: Seq<char>, h: HandshakeView) -> Seq<u8> {
    seq![0u8, DUOCB_PROTO_VERSION as u8] + prefixed(transcript_fields(role, h))
}

/// Whether every field of a transcript has a length that its prefix can hold.
pub open spec fn fields_fit(role: Seq<char>, h: HandshakeView) -> bool {
    forall|i: int| 0 <= i < 7 ==> (#[trigger] transcript_fields(role, h)[i]).len() < 0x1_0000_0000
}

/// A length-prefixed field tells where it ends.
proof fn field_is_delimited(a: Seq<u8>, x: Seq<u8>, b: Seq<u8>, y: Seq<u8>)
    requires
        a.len() < 0x1_0000_0000,
        b.len() < 0x1_0000_0000,
        field_bytes(a) + x == field_bytes(b) + y,
    ensures
        a == b,
        x == y,
{
    be32_reads_back(a.len());
    be32_reads_back(b.len());
    let s = field_bytes(a) + x;
    let t = field_bytes(b) + y;
    assert(be32_value(s) == be32_value(be32(a.len())));
    assert(be32_value(t) == be32_value(be32(b.len())));
    assert(a.len() == b.len());
    assert(a =~= s.subrange(4, 4 + a.len() as int));
    assert(b =~= t.subrange(4, 4 + b.len() as int));
    assert(x =~= s.skip(4 + a.len() as int));
    assert(y =~= t.skip(4 + b.len() as int));
}

/// The prefixed bytes of fields, with the first one taken off the front.
proof fn prefixed_first(fields: Seq<Seq<u8>>)
    requires
        fields.len() > 0,
    ensures
        prefixed(fields) == field_bytes(fields[0]) + prefixed(fields.drop_first()),
    decreases fields.len(),
{
    if fields.len() > 1 {
        prefixed_first(fields.drop_last());
        assert(fields.drop_last().drop_first() =~= fields.drop_first().drop_last());
        assert(prefixed(fields) =~= field_bytes(fields[0]) + prefixed(fields.drop_first()));
    } else {
        assert(fields.drop_last() =~= Seq::empty());
        assert(fields.drop_first() =~= Seq::empty());
        assert(prefixed(fields) =~= field_bytes(fields[0]) + prefixed(fields.drop_first()));
    }
}

/// Prefixed fields can be told apart: equal bytes come from equal fields.
proof fn prefixed_is_injective(a: Seq<Seq<u8>>, b: Seq<Seq<u8>>)
    requires
        a.len() == b.len(),
        forall|i: int| 0 <= i < a.len() ==> (#[trigger] a[i]).len() < 0x1_0000_0000,
        forall|i: int| 0 <= i < b.len() ==> (#[trigger] b[i]).len() < 0x1_0000_0000,
        prefixed(a) == prefixed(b),
    ensures
        a == b,
    decreases a.len(),
{
    if a.len() > 0 {
        prefixed_first(a);
        prefixed_first(b);
        field_is_delimited(a[0], prefixed(a.drop_first()), b[0], prefixed(b.drop_first()));
        prefixed_is_injective(a.drop_first(), b.drop_first());
        assert(a =~= seq![a[0]] + a.drop_first());
        assert(b =~= seq![b[0]] + b.drop_first());
    } else {
        assert(a =~= b);
    }
}

proof fn utf8_is_injective(a: Seq<char>, b: Seq<char>)
    requires
        encode_utf8(a) == encode_utf8(b),
    ensures
        a == b,
{
    vstd::utf8::encode_utf8_decode_utf8(a);
    vstd::utf8::encode_utf8_decode_utf8(b);
}

proof fn hex_text_is_injective(a: Seq<u8>, b: Seq<u8>)
    requires
        hex_text(a) == hex_text(b),
    ensures
        a == b,
    decreases a.len(),
{
    crate::text::hex_text_shape(a);
    crate::text::hex_text_shape(b);
    if a.len() > 0 {
        let s = hex_text(a);
        let t = hex_text(b);
        assert(hex_text(a.drop_last()) =~= s.drop_last().drop_last());
        assert(hex_text(b.drop_last()) =~= t.drop_last().drop_last());
        hex_text_is_injective(a.drop_last(), b.drop_last());
        assert(s.last() == crate::text::hex_digit((a.last() % 16) as nat));
        assert(t.last() == crate::text::hex_digit((b.last() % 16) as nat));
        assert(s[s.len() - 2] == crate::text::hex_digit((a.last() / 16) as nat));
        assert(t[t.len() - 2] == crate::text::hex_digit((b.last() / 16) as nat));
        assert(a =~= a.drop_last().push(a.last()));
        assert(b =~= b.drop_last().push(b.last()));
    } else {
        assert(a =~= b);
    }
}

/// Two transcripts are the same only where the role and everything that the handshake
/// is bound to are the same. So a signature made for one role, key pair, nonce pair or
/// pair of endpoints stands for no other.
pub proof fn transcript_binds_every_field(
    role: Seq<char>,
    h: HandshakeView,
    other_role: Seq<char>,
    other: HandshakeView,
)
    requires
        fields_fit(role, h),
        fields_fit(other_role, other),
        transcript(role, h) == transcript(other_role, other),
    ensures
        role == other_role,
        h == other,
{
    let f = transcript_fields(role, h);
    let g = transcript_fields(other_role, other);
    assert(transcript(role, h).skip(2) =~= prefixed(f));
    assert(transcript(other_role, other).skip(2) =~= prefixed(g));
    prefixed_is_injective(f, g);
    assert(f[0] == g[0] && f[1] == g[1] && f[2] == g[2] && f[3] == g[3] && f[4] == g[4] && f[5]
        == g[5] && f[6] == g[6]);
    utf8_is_injective(role, other_role);
    utf8_is_injective(h.client_nonce, other.client_nonce);
    utf8_is_injective(h.server_nonce, other.server_nonce);
    utf8_is_injective(hex_text(h.client_node), hex_text(other.client_node));
    utf8_is_injective(hex_text(h.server_node), hex_text(other.server_node));
    hex_text_is_injective(h.client_node, other.client_node);
    hex_text_is_injective(h.server_node, other.server_node);
}

/// The two roles of one handshake sign different transcripts, so neither side can send
/// back the other's proof.
pub proof fn roles_sign_different_transcripts(h: HandshakeView, other: HandshakeView)
    requires
        fields_fit("listener"@, h),
        fields_fit("dialer"@, other),
    ensures
        transcript("listener"@, h) != transcript("dialer"@, other),
{
    reveal_strlit("listener");
    reveal_strlit("dialer");
    if transcript("listener"@, h) == transcript("dialer"@, other) {
        transcript_binds_every_field("listener"@, h, "dialer"@, other);
        assert("listener"@.len() == "dialer"@.len());
    }
}

/// Everything that one handshake is bound to.
pub struct Handshake {
    pub client_key: PublicKey,
    pub server_key: PublicKey,
    pub client_nonce: String,
    pub server_nonce: String,
    pub client_node: NodeId,
    pub server_node: NodeId,
}

impl View for Handshake {
    type V = HandshakeView;

    open spec fn view(&self) -> HandshakeView {
        HandshakeView {
            client_key: self.client_key@,
            server_key: self.server_key@,
            client_nonce: self.client_nonce@,
            server_nonce: self.server_nonce@,
            client_node: self.client_node@,
            server_node: self.server_node@,
        }
    }
}

fn push_field(out: &mut Vec<u8>, value: &[u8])
    requires
        value@.len() < 0x1_0000_0000,
    ensures
        final(out)@ == old(out)@ + field_bytes(value@),
{
    let len: usize = value.len();
    out.push((len / 16777216) as u8);
    out.push((len / 65536 % 256) as u8);
    out.push((len / 256 % 256) as u8);
    out.push((len % 256) as u8);
    push_bytes(out, value);
    assert(out@ =~= old(out)@ + field_bytes(value@));
}

/// Builds the transcript that `role` signs.
pub fn key_auth_transcript(role: &str, h: &Handshake) -> (r: Vec<u8>)
    requires
        fields_fit(role@, h@),
    ensures
        r@ == transcript(role@, h@),
{
    let ghost f = transcript_fields(role@, h@);
    let mut out: Vec<u8> = Vec::new();
    out.push(0u8);
    out.push(2u8);
    let ghost head = out@;
    proof {
        assert(f[0].len() < 0x1_0000_0000 && f[1].len() < 0x1_0000_0000 && f[2].len()
            < 0x1_0000_0000 && f[3].len() < 0x1_0000_0000 && f[4].len() < 0x1_0000_0000
            && f[5].len() < 0x1_0000_0000 && f[6].len() < 0x1_0000_0000);
        assert(head =~= seq![0u8, DUOCB_PROTO_VERSION as u8] + prefixed(f.take(0)));
        prefixed_next(f, 0);
        prefixed_next(f, 1);
        prefixed_next(f, 2);
        prefixed_next(f, 3);
        prefixed_next(f, 4);
        prefixed_next(f, 5);
        prefixed_next(f, 6);
        assert(f.take(7) =~= f);
    }
    push_field(&mut out, role.as_bytes());
    assert(out@ =~= head + prefixed(f.take(1)));
    push_field(&mut out, &h.client_key.bytes);
    assert(out@ =~= head + prefixed(f.take(2)));
    push_field(&mut out, &h.server_key.bytes);
    assert(out@ =~= head + prefixed(f.take(3)));
    push_field(&mut out, h.client_nonce.as_str().as_bytes());
    assert(out@ =~= head + prefixed(f.take(4)));
    push_field(&mut out, h.server_nonce.as_str().as_bytes());
    assert(out@ =~= head + prefixed(f.take(5)));
    let client_node = h.client_node.to_text();
    let server_node = h.server_node.to_text();
    push_field(&mut out, client_node.as_str().as_bytes());
    assert(out@ =~= head + prefixed(f.take(6)));
    push_field(&mut out, server_node.as_str().as_bytes());
    assert(out@ =~= head + prefixed(f));
    out
}

/// The prefixed bytes grow by one field at a time.
proof fn prefixed_next(f: Seq<Seq<u8>>, i: int)
    requires
        0 <= i < f.len(),
    ensures
        prefixed(f.take(i + 1)) == prefixed(f.take(i)) + field_bytes(f[i]),
{
    assert(f.take(i + 1).drop_last() =~= f.take(i));
}

// ---------------------------------------------------------------------------
// Nonces
// ---------------------------------------------------------------------------

/// `rand::RngCore::fill_bytes` of thirty-two bytes: any bytes at all.
#[verifier::external_body]
pub(crate) fn random_bytes() -> (r: [u8; 32]) {
    let mut bytes = [0u8; 32];
    rand::rng().fill_bytes(&mut bytes);
    bytes
}

/// A fresh handshake nonce: thirty-two random bytes in unpadded URL-safe base64.
pub fn random_nonce() -> (r: String)
    ensures
        base64_bytes(r@) is Some,
        base64_bytes(r@)->0.len() == 32,
        encode_utf8(r@).len() == 43,
{
    let bytes: [u8; 32] = random_bytes();
    let r: String = to_base64(&bytes);
    proof {
        ascii_takes_a_byte_each(r@);
    }
    r
}

// ---------------------------------------------------------------------------
// The dialer
// ---------------------------------------------------------------------------

/// Why a dialer that wants the holder of `expected` does not answer a challenge, or
/// `None` where it does. `h` is bound to the key that the challenge names.
pub open spec fn challenge_error(
    expected: Seq<u8>,
    key_text: Seq<char>,
    proof: Seq<char>,
    h: HandshakeView,
) -> Option<Seq<char>> {
    match parsed_key(key_text) {
        None => Some("listener supplied an invalid application key"@),
        Some(key) => if key != expected {
            Some("listener application key does not match the selected peer"@)
        } else {
            auth_signature_error(expected, transcript("listener"@, h), proof)
        },
    }
}

/// Checks the listener's challenge and answers it with the dialer's own proof. The
/// listener has to name the selected peer's key and to prove it over this very
/// handshake before anything is signed.
pub fn answer_challenge(
    identity: &Identity,
    expected: PublicKey,
    key_text: &str,
    proof: &str,
    client_nonce: &str,
    server_nonce: &str,
    own_node: NodeId,
    remote_node: NodeId,
) -> (r: Result<String, String>)
    requires
        encode_utf8(client_nonce@).len() < 0x1_0000_0000,
        encode_utf8(server_nonce@).len() < 0x1_0000_0000,
    ensures
        ({
            let h = HandshakeView {
                client_key: identity.public_bytes(),
                server_key: expected@,
                client_nonce: client_nonce@,
                server_nonce: server_nonce@,
                client_node: own_node@,
                server_node: remote_node@,
            };
            match r {
                Ok(answer) => challenge_error(expected@, key_text@, proof@, h) is None
                    && auth_signature_error(
                    identity.public_bytes(),
                    transcript("dialer"@, h),
                    answer@,
                ) is None,
                Err(e) => challenge_error(expected@, key_text@, proof@, h) == Some(e@),
            }
        }),
{
    let server_key: PublicKey = match PublicKey::parse(key_text) {
        Some(key) => key,
        None => return Err("listener supplied an invalid application key".to_owned()),
    };
    if !server_key.same(&expected) {
        return Err("listener application key does not match the selected peer".to_owned());
    }
    let h = Handshake {
        client_key: identity.public_key(),
        server_key: expected,
        client_nonce: client_nonce.to_owned(),
        server_nonce: server_nonce.to_owned(),
        client_node: own_node,
        server_node: remote_node,
    };
    proof {
        role_lengths();
        node_ids_are_short(own_node);
        node_ids_are_short(remote_node);
        handshake_fields_fit("listener"@, h@);
        handshake_fields_fit("dialer"@, h@);
    }
    let signed = key_auth_transcript("listener", &h);
    match verify_auth_signature(expected, signed.as_slice(), proof) {
        Ok(()) => {},
        Err(e) => return Err(e),
    }
    let own = key_auth_transcript("dialer", &h);
    Ok(identity.sign_auth(own.as_slice()))
}

proof fn role_lengths()
    ensures
        encode_utf8("listener"@).len() < 0x1_0000_0000,
        encode_utf8("dialer"@).len() < 0x1_0000_0000,
{
    reveal_strlit("listener");
    reveal_strlit("dialer");
    vstd::utf8::is_ascii_chars_encode_utf8("listener"@);
    vstd::utf8::is_ascii_chars_encode_utf8("dialer"@);
}

/// Keys and node ids are short enough for their fields.
proof fn handshake_fields_fit(role: Seq<char>, h: HandshakeView)
    requires
        encode_utf8(role).len() < 0x1_0000_0000,
        encode_utf8(h.client_nonce).len() < 0x1_0000_0000,
        encode_utf8(h.server_nonce).len() < 0x1_0000_0000,
        h.client_key.len() == 32,
        h.server_key.len() == 32,
        h.client_node.len() == 32,
        h.server_node.len() == 32,
    ensures
        fields_fit(role, h),
{
    crate::text::hex_text_shape(h.client_node);
    crate::text::hex_text_shape(h.server_node);
    assert(vstd::utf8::is_ascii_chars(hex_text(h.client_node)));
    assert(vstd::utf8::is_ascii_chars(hex_text(h.server_node)));
    vstd::utf8::is_ascii_chars_encode_utf8(hex_text(h.client_node));
    vstd::utf8::is_ascii_chars_encode_utf8(hex_text(h.server_node));
}

/// Why a dialer does not go on after the listener's verdict, or `None` where it does.
pub open spec fn rejection(accepted: bool, reason: Option<Seq<char>>) -> Option<Seq<char>> {
    if accepted {
        None
    } else {
        Some(
            "authentication rejected: "@ + match reason {
                Some(reason) => reason,
                None => "unknown reason"@,
            },
        )
    }
}

/// Judges the listener's verdict on the dialer's proof.
pub fn read_verdict(accepted: bool, reason: Option<String>) -> (r: Result<(), String>)
    ensures
        match r {
            Ok(()) => rejection(accepted, crate::json::text_view(reason)) is None,
            Err(e) => rejection(accepted, crate::json::text_view(reason)) == Some(e@),
        },
        match r {
            Ok(()) => accepted,
            Err(e) => !accepted && e@ == "authentication rejected: "@ + (match reason {
                Some(reason) => reason@,
                None => "unknown reason"@,
            }),
        },
{
    if accepted {
        return Ok(());
    }
    let mut e = "authentication rejected: ".to_owned();
    match reason {
        Some(reason) => e.append(reason.as_str()),
        None => e.append("unknown reason"),
    }
    Err(e)
}

/// What a close code says to a dialer, if it is one of the authentication codes.
pub open spec fn close_message(code: u64) -> Option<Seq<char>> {
    if code == AUTH_FAILED_CODE {
        Some(
            "Authentication rejected by the peer — untrusted application key/wrong PIN, or it is still paired with a previous session (Stop and Start the server to re-pair)"@,
        )
    } else if code == CARD_EXPIRED_CODE {
        Some(
            "The other device's copy of this device's identity card has expired — copy this device's card again and import it there"@,
        )
    } else if code == AUTH_TIMEOUT_CODE {
        Some("Authentication timed out on the peer"@)
    } else if code == SERVER_BUSY_CODE {
        Some(
            "The other device is already paired with another device — it links only one device at a time (Stop and Start it to pair with this one instead)"@,
        )
    } else {
        None
    }
}

/// The fatal description of an application close code, if it is an authentication one.
/// The listener closes right after writing its rejection, so the dialer's read may fail
/// before the frame arrives; the code still tells the story.
pub fn auth_close_reason(code: u64) -> (r: Option<String>)
    ensures
        match r {
            Some(s) => close_message(code) == Some(s@),
            None => close_message(code) is None,
        },
{
    if code == AUTH_FAILED_CODE as u64 {
        Some(
            "Authentication rejected by the peer — untrusted application key/wrong PIN, or it is still paired with a previous session (Stop and Start the server to re-pair)".to_owned(),
        )
    } else if code == CARD_EXPIRED_CODE as u64 {
        Some(
            "The other device's copy of this device's identity card has expired — copy this device's card again and import it there".to_owned(),
        )
    } else if code == AUTH_TIMEOUT_CODE as u64 {
        Some("Authentication timed out on the peer".to_owned())
    } else if code == SERVER_BUSY_CODE as u64 {
        Some(
            "The other device is already paired with another device — it links only one device at a time (Stop and Start it to pair with this one instead)".to_owned(),
        )
    } else {
        None
    }
}

/// A fatal authentication failure: the session ends instead of retrying, since the
/// credential does not get better on its own.
pub struct AuthFailure(pub String);

/// How a dialer's handshake ended.
pub enum HandshakeEnd {
    Done,
    TimedOut,
    /// The handshake failed with `error`; `close_code` is the application close code
    /// that the connection carries, if it was closed with one.
    Failed { error: String, close_code: Option<u64> },
}

/// What a dialer reports of a failed handshake: the listener's close code where it has
/// a meaning, else its own error.
pub open spec fn dialer_failure_text(error: Seq<char>, close_code: Option<u64>) -> Seq<char> {
    match close_code {
        Some(code) => match close_message(code) {
            Some(message) => message,
            None => error,
        },
        None => error,
    }
}

/// What a dialer reports of a handshake that ended, or `None` where it succeeded.
pub open spec fn handshake_report(end: HandshakeEnd, timeout_text: Seq<char>) -> Option<Seq<char>> {
    match end {
        HandshakeEnd::Done => None,
        HandshakeEnd::TimedOut => Some(timeout_text),
        HandshakeEnd::Failed { error, close_code } => Some(
            dialer_failure_text(error@, close_code),
        ),
    }
}

/// Judges how a dialer's handshake ended. Every failure is fatal for the target.
/// `timeout_text` is what a timeout is reported as.
pub fn dialer_outcome(end: HandshakeEnd, timeout_text: &str) -> (r: Result<(), AuthFailure>)
    ensures
        match end {
            HandshakeEnd::Done => r is Ok,
            HandshakeEnd::TimedOut => r is Err && r->Err_0.0@ == timeout_text@,
            HandshakeEnd::Failed { error, close_code } => r is Err && r->Err_0.0@
                == dialer_failure_text(error@, close_code),
        },
        match r {
            Ok(()) => handshake_report(end, timeout_text@) is None,
            Err(e) => handshake_report(end, timeout_text@) == Some(e.0@),
        },
{
    match end {
        HandshakeEnd::Done => Ok(()),
        HandshakeEnd::TimedOut => Err(AuthFailure(timeout_text.to_owned())),
        HandshakeEnd::Failed { error, close_code } => {
            if let Some(code) = close_code {
                if let Some(message) = auth_close_reason(code) {
                    return Err(AuthFailure(message));
                }
            }
            Err(AuthFailure(error))
        },
    }
}

// ---------------------------------------------------------------------------
// The listener
// ---------------------------------------------------------------------------

/// What both roles say of a stored card that has lapsed.
pub open spec fn expired_card_text(name: Seq<char>) -> Seq<char> {
    "The identity card for "@ + name
        + " expired — ask that device for a fresh card and import it again"@
}

/// The message on a lapsed card.
pub fn expired_card_message(card: &IdentityCard) -> (r: String)
    ensures
        r@ == expired_card_text(card@.name),
{
    let mut out = "The identity card for ".to_owned();
    out.append(card.name());
    out.append(" expired — ask that device for a fresh card and import it again");
    out
}

/// Why a listener refuses a dialer.
pub enum Refusal {
    /// The dialer's key is trusted, but the card that carries the trust has expired.
    ExpiredCard(String),
    /// Any other failure of the handshake.
    Failed(String),
    /// The handshake was not finished in time.
    TimedOut,
}

/// What a [`Refusal`] says.
pub enum RefusalView {
    ExpiredCard(Seq<char>),
    Failed(Seq<char>),
    TimedOut,
}

impl View for Refusal {
    type V = RefusalView;

    open spec fn view(&self) -> RefusalView {
        match *self {
            Refusal::ExpiredCard(s) => RefusalView::ExpiredCard(s@),
            Refusal::Failed(s) => RefusalView::Failed(s@),
            Refusal::TimedOut => RefusalView::TimedOut,
        }
    }
}

/// The code and the reason that a refused connection is closed with.
pub open spec fn refusal_close(r: RefusalView) -> (u32, Seq<char>) {
    match r {
        RefusalView::ExpiredCard(_) => (CARD_EXPIRED_CODE, "card_expired"@),
        RefusalView::Failed(_) => (AUTH_FAILED_CODE, "auth_failed"@),
        RefusalView::TimedOut => (AUTH_TIMEOUT_CODE, "auth_timeout"@),
    }
}

impl Refusal {
    /// The code that the listener closes a refused connection with.
    pub fn close_code(&self) -> (r: u32)
        ensures
            r == match *self {
                Refusal::ExpiredCard(_) => CARD_EXPIRED_CODE,
                Refusal::Failed(_) => AUTH_FAILED_CODE,
                Refusal::TimedOut => AUTH_TIMEOUT_CODE,
            },
            r == refusal_close(self@).0,
    {
        match self {
            Refusal::ExpiredCard(_) => CARD_EXPIRED_CODE,
            Refusal::Failed(_) => AUTH_FAILED_CODE,
            Refusal::TimedOut => AUTH_TIMEOUT_CODE,
        }
    }

    /// The reason that goes with the close code.
    pub fn close_reason(&self) -> (r: String)
        ensures
            r@ == match *self {
                Refusal::ExpiredCard(_) => "card_expired"@,
                Refusal::Failed(_) => "auth_failed"@,
                Refusal::TimedOut => "auth_timeout"@,
            },
            r@ == refusal_close(self@).1,
    {
        match self {
            Refusal::ExpiredCard(_) => "card_expired".to_owned(),
            Refusal::Failed(_) => "auth_failed".to_owned(),
            Refusal::TimedOut => "auth_timeout".to_owned(),
        }
    }
}

/// Every refusal of a listener is one that the dialer recognises and gives up on.
pub proof fn refusals_are_understood(code: u32)
    requires
        code == AUTH_FAILED_CODE || code == AUTH_TIMEOUT_CODE || code == CARD_EXPIRED_CODE || code
            == SERVER_BUSY_CODE,
    ensures
        close_message(code as u64) is Some,
{
}

/// Whom a listener lets go on: the key that the request names, or why it refuses.
/// `peers` are the trusted cards, or `None` for a listener that takes no keys; `now` is
/// the time. The trust checks run before the listener signs anything.
pub open spec fn admitted_key(
    peers: Option<Seq<CardView>>,
    claim: Option<ClaimView>,
    key_text: Seq<char>,
    now: u64,
) -> Result<Seq<u8>, RefusalView> {
    match peers {
        None => Err(RefusalView::Failed("listener is not in key-auth mode"@)),
        Some(peers) => match parsed_key(key_text) {
            None => Err(RefusalView::Failed("dialer application key is invalid"@)),
            Some(key) => match trusted_card(peers, key) {
                None => Err(
                    RefusalView::Failed("dialer application key is not locally trusted"@),
                ),
                Some(card) => if !card_valid_at(card, now) {
                    Err(RefusalView::ExpiredCard(expired_card_text(card.name)))
                } else if !key_may_commit(claim, key) {
                    Err(RefusalView::Failed("already paired with another application identity"@))
                } else {
                    Ok(key)
                },
            },
        },
    }
}

/// A key is let go on only where a trusted card carries it that is still valid, and
/// where nobody else holds the claim.
pub proof fn only_trusted_current_keys_are_admitted(
    peers: Option<Seq<CardView>>,
    claim: Option<ClaimView>,
    key_text: Seq<char>,
    now: u64,
)
    requires
        admitted_key(peers, claim, key_text, now) is Ok,
    ensures
        ({
            let key = admitted_key(peers, claim, key_text, now)->Ok_0;
            &&& exists|i: int|
                0 <= i < peers->0.len() && (#[trigger] peers->0[i]).public_key == key
                    && card_valid_at(peers->0[i], now)
            &&& key_may_commit(claim, key)
        }),
{
    let key = admitted_key(peers, claim, key_text, now)->Ok_0;
    crate::net::lookup_finds_the_key(peers->0, key, 0);
    let i = crate::net::card_index(peers->0, key, 0)->0;
    assert(peers->0[i].public_key == key && card_valid_at(peers->0[i], now));
}

/// Judges a key request: the dialer's key, or the refusal.
pub fn admit_key_request(
    key_identity: Option<&KeyIdentity>,
    claim: &PairClaim,
    key_text: &str,
    now: u64,
) -> (r: Result<PublicKey, Refusal>)
    ensures
        ({
            let peers = match key_identity {
                Some(k) => Some(card_views(k.peers@)),
                None => None,
            };
            match r {
                Ok(key) => admitted_key(peers, claim@, key_text@, now) == Ok::<
                    Seq<u8>,
                    RefusalView,
                >(key@),
                Err(e) => admitted_key(peers, claim@, key_text@, now) == Err::<
                    Seq<u8>,
                    RefusalView,
                >(e@),
            }
        }),
{
    let identity: &KeyIdentity = match key_identity {
        Some(identity) => identity,
        None => return Err(Refusal::Failed("listener is not in key-auth mode".to_owned())),
    };
    let client_key: PublicKey = match PublicKey::parse(key_text) {
        Some(key) => key,
        None => return Err(Refusal::Failed("dialer application key is invalid".to_owned())),
    };
    let card: &IdentityCard = match identity.peer(client_key) {
        Some(card) => card,
        None => {
            return Err(
                Refusal::Failed("dialer application key is not locally trusted".to_owned()),
            )
        },
    };
    if !card.is_valid_at(now) {
        return Err(Refusal::ExpiredCard(expired_card_message(card)));
    }
    if claim.held_by_other_key(client_key) {
        return Err(
            Refusal::Failed("already paired with another application identity".to_owned()),
        );
    }
    Ok(client_key)
}

/// Signs the listener's half of the handshake.
pub fn sign_challenge(identity: &Identity, h: &Handshake) -> (r: String)
    requires
        h@.server_key == identity.public_bytes(),
        encode_utf8(h@.client_nonce).len() < 0x1_0000_0000,
        encode_utf8(h@.server_nonce).len() < 0x1_0000_0000,
    ensures
        auth_signature_error(identity.public_bytes(), transcript("listener"@, h@), r@) is None,
{
    proof {
        role_lengths();
        node_ids_are_short(h.client_node);
        node_ids_are_short(h.server_node);
        handshake_fields_fit("listener"@, h@);
    }
    let signed = key_auth_transcript("listener", h);
    identity.sign_auth(signed.as_slice())
}

/// Judges the dialer's proof, and commits the claim where it holds. A dialer that loses
/// the race for the claim is refused, not accepted and then dropped.
pub fn accept_proof(claim: &mut PairClaim, h: &Handshake, proof: &str) -> (r: Result<(), Refusal>)
    requires
        encode_utf8(h@.client_nonce).len() < 0x1_0000_0000,
        encode_utf8(h@.server_nonce).len() < 0x1_0000_0000,
    ensures
        match auth_signature_error(h@.client_key, transcript("dialer"@, h@), proof@) {
            Some(e) => r is Err && r->Err_0@ == RefusalView::Failed(e) && final(claim)@ == old(claim)@,
            None => {
                &&& final(claim)@ == after_key_commit(old(claim)@, h@.client_key, h@.client_node)
                &&& if key_may_commit(old(claim)@, h@.client_key) {
                    r is Ok
                } else {
                    r is Err && r->Err_0@ == RefusalView::Failed(
                        "another application identity paired first"@,
                    )
                }
            },
        },
{
    proof {
        role_lengths();
        node_ids_are_short(h.client_node);
        node_ids_are_short(h.server_node);
        handshake_fields_fit("dialer"@, h@);
    }
    let signed = key_auth_transcript("dialer", h);
    match verify_auth_signature(h.client_key, signed.as_slice(), proof) {
        Ok(()) => {},
        Err(e) => return Err(Refusal::Failed(e)),
    }
    if !claim.commit_key(h.client_key, h.client_node) {
        return Err(Refusal::Failed("another application identity paired first".to_owned()));
    }
    Ok(())
}

/// A handshake between two honest devices succeeds: where the listener admits the
/// dialer's key and proves its own over the handshake, the dialer answers, and the
/// dialer's proof over the same handshake wins it the claim.
pub proof fn honest_devices_authenticate(
    h: HandshakeView,
    peers: Seq<CardView>,
    claim: Option<ClaimView>,
    client_text: Seq<char>,
    server_text: Seq<char>,
    listener_proof: Seq<char>,
    dialer_proof: Seq<char>,
    now: u64,
)
    requires
        admitted_key(Some(peers), claim, client_text, now) == Ok::<Seq<u8>, RefusalView>(
            h.client_key,
        ),
        parsed_key(server_text) == Some(h.server_key),
        auth_signature_error(h.server_key, transcript("listener"@, h), listener_proof) is None,
        auth_signature_error(h.client_key, transcript("dialer"@, h), dialer_proof) is None,
    ensures
        challenge_error(h.server_key, server_text, listener_proof, h) is None,
        key_may_commit(claim, h.client_key),
        after_key_commit(claim, h.client_key, h.client_node) == Some(
            ClaimView {
                application_key: Some(h.client_key),
                node_id: Some(h.client_node),
            },
        ),
{
}

/// Whether a PIN dialer at `remote` is judged against the recent PIN keys at all: not
/// where the claim is held by a key or by another transport id.
pub fn pin_dialer_allowed(claim: &PairClaim, remote: NodeId) -> (r: bool)
    ensures
        r == match claim@ {
            None => true,
            Some(c) => c.application_key is None && c.node_id == Some(remote@),
        },
{
    match claim.peek() {
        None => true,
        Some(claimed) => claimed.application_key.is_none() && claim.held_by(remote),
    }
}

// ---------------------------------------------------------------------------
// Who is admitted
// ---------------------------------------------------------------------------

/// Admission is complete: a key is admitted wherever the first trusted card that carries it
/// is valid and the pairing is free or its own. A key that nobody trusts is never admitted,
/// and neither is one while another key, or a card-setup joiner, holds the pairing.
pub proof fn trusted_current_keys_are_admitted(
    peers: Seq<CardView>,
    claim: Option<ClaimView>,
    key_text: Seq<char>,
    now: u64,
    i: int,
)
    requires
        0 <= i < peers.len(),
        parsed_key(key_text) == Some(peers[i].public_key),
        forall|j: int| 0 <= j < i ==> (#[trigger] peers[j]).public_key != peers[i].public_key,
    ensures
        admitted_key(Some(peers), claim, key_text, now) is Ok <==> {
            &&& now < peers[i].expires_at
            &&& peers[i].created_at <= now + CLOCK_SKEW_GRACE_SECS
            &&& claim is None || claim->0.application_key == Some(peers[i].public_key)
        },
        admitted_key(Some(peers), claim, key_text, now) is Ok ==> admitted_key(
            Some(peers),
            claim,
            key_text,
            now,
        )->Ok_0 == peers[i].public_key,
        !(now < peers[i].expires_at && peers[i].created_at <= now + CLOCK_SKEW_GRACE_SECS)
            ==> admitted_key(Some(peers), claim, key_text, now) == Err::<Seq<u8>, RefusalView>(
            RefusalView::ExpiredCard(expired_card_text(peers[i].name)),
        ),
{
    let key = peers[i].public_key;
    crate::net::lookup_finds_the_key(peers, key, 0);
    crate::net::lookup_finds_the_first(peers, key, i);
}

/// A key that no trusted card carries is refused, and so is a text that is no key.
pub proof fn strangers_are_refused(
    peers: Seq<CardView>,
    claim: Option<ClaimView>,
    key_text: Seq<char>,
    now: u64,
)
    requires
        parsed_key(key_text) matches Some(key) ==> forall|j: int|
            0 <= j < peers.len() ==> (#[trigger] peers[j]).public_key != key,
    ensures
        admitted_key(Some(peers), claim, key_text, now) matches Err(RefusalView::Failed(_)),
        admitted_key(None, claim, key_text, now) matches Err(RefusalView::Failed(_)),
{
    if let Some(key) = parsed_key(key_text) {
        crate::net::lookup_finds_the_key(peers, key, 0);
    }
}

/// The paired peer comes back: a key that was admitted and committed the pairing is
/// admitted again under the pairing that it left, on whatever transport it returns, as long
/// as its card is valid; and no other key is.
pub proof fn the_paired_peer_is_admitted_again(
    peers: Seq<CardView>,
    claim: Option<ClaimView>,
    key_text: Seq<char>,
    node: Seq<u8>,
    now: u64,
    other_text: Seq<char>,
)
    requires
        admitted_key(Some(peers), claim, key_text, now) is Ok,
    ensures
        ({
            let key = admitted_key(Some(peers), claim, key_text, now)->Ok_0;
            let held = after_key_commit(claim, key, node);
            &&& admitted_key(Some(peers), held, key_text, now) == Ok::<Seq<u8>, RefusalView>(key)
            &&& held == Some(ClaimView { application_key: Some(key), node_id: Some(node) })
            &&& parsed_key(other_text) != Some(key) ==> admitted_key(
                Some(peers),
                held,
                other_text,
                now,
            ) is Err
        }),
{
}

/// A dialer answers a challenge exactly where the listener names the selected peer's key
/// and its proof over this handshake, in the role of the listener, verifies.
pub proof fn a_challenge_is_answered_for_the_selected_peer_only(
    expected: Seq<u8>,
    server_text: Seq<char>,
    proof: Seq<char>,
    h: HandshakeView,
)
    requires
        h.server_key == expected,
    ensures
        challenge_error(expected, server_text, proof, h) is None <==> {
            &&& parsed_key(server_text) == Some(expected)
            &&& auth_signature_error(expected, transcript("listener"@, h), proof) is None
        },
{
}

/// A dialer that was closed with an authentication code is told what the code stands for,
/// whatever its own read ended with; other codes leave its own error.
pub proof fn close_codes_speak_for_themselves(error: Seq<char>, code: u64, other: Seq<char>)
    ensures
        close_message(code) is Some <==> code == AUTH_FAILED_CODE || code == AUTH_TIMEOUT_CODE
            || code == CARD_EXPIRED_CODE || code == SERVER_BUSY_CODE,
        close_message(code) is Some ==> dialer_failure_text(error, Some(code))
            == dialer_failure_text(other, Some(code)) && dialer_failure_text(error, Some(code))
            == close_message(code)->0,
        close_message(code) is None ==> dialer_failure_text(error, Some(code)) == error,
        dialer_failure_text(error, None) == error,
{
}

/// A dialer learns by the close code why it was refused: a lapsed card, a failed proof and a
/// timeout each have a code of their own, which stands for a message of its own, whatever
/// the dialer's own read ended with.
pub proof fn a_refused_dialer_learns_why(text: Seq<char>, error: Seq<char>)
    ensures
        dialer_failure_text(
            error,
            Some(refusal_close(RefusalView::ExpiredCard(text)).0 as u64),
        )
            == "The other device's copy of this device's identity card has expired — copy this device's card again and import it there"@,
        dialer_failure_text(error, Some(refusal_close(RefusalView::Failed(text)).0 as u64))
            == "Authentication rejected by the peer — untrusted application key/wrong PIN, or it is still paired with a previous session (Stop and Start the server to re-pair)"@,
        dialer_failure_text(error, Some(refusal_close(RefusalView::TimedOut).0 as u64))
            == "Authentication timed out on the peer"@,
        dialer_failure_text(error, Some(SERVER_BUSY_CODE as u64))
            == "The other device is already paired with another device — it links only one device at a time (Stop and Start it to pair with this one instead)"@,
        refusal_close(RefusalView::ExpiredCard(text)).1 == "card_expired"@,
        refusal_close(RefusalView::Failed(text)).1 == "auth_failed"@,
        refusal_close(RefusalView::TimedOut).1 == "auth_timeout"@,
{
}

/// A dialer is done exactly where its handshake is; every other end is reported as what it
/// was.
pub proof fn every_failed_handshake_is_reported(
    timeout_text: Seq<char>,
    error: String,
    reason: Seq<char>,
)
    ensures
        handshake_report(HandshakeEnd::Done, timeout_text) is None,
        handshake_report(HandshakeEnd::TimedOut, timeout_text) == Some(timeout_text),
        handshake_report(HandshakeEnd::Failed { error, close_code: None }, timeout_text) == Some(
            error@,
        ),
        rejection(true, Some(reason)) is None && rejection(true, None) is None,
        rejection(false, Some(reason)) == Some("authentication rejected: "@ + reason),
        rejection(false, None) == Some("authentication rejected: "@ + "unknown reason"@),
{
}

/// Both sides sign the protocol version and, each with its length in front, the role, both
/// keys, both nonces and both node ids.
pub proof fn transcripts_hold_every_field(role: Seq<char>, h: HandshakeView)
    ensures
        transcript(role, h) == seq![0u8, 2u8] + field_bytes(encode_utf8(role)) + field_bytes(
            h.client_key,
        ) + field_bytes(h.server_key) + field_bytes(encode_utf8(h.client_nonce)) + field_bytes(
            encode_utf8(h.server_nonce),
        ) + field_bytes(encode_utf8(hex_text(h.client_node))) + field_bytes(
            encode_utf8(hex_text(h.server_node)),
        ),
        field_bytes(h.client_key) == be32(h.client_key.len()) + h.client_key,
{
    let f = transcript_fields(role, h);
    prefixed_next(f, 0);
    prefixed_next(f, 1);
    prefixed_next(f, 2);
    prefixed_next(f, 3);
    prefixed_next(f, 4);
    prefixed_next(f, 5);
    prefixed_next(f, 6);
    assert(f.take(7) =~= f);
    assert(f.take(0) =~= Seq::empty());
    assert(transcript(role, h) =~= seq![0u8, 2u8] + field_bytes(f[0]) + field_bytes(f[1])
        + field_bytes(f[2]) + field_bytes(f[3]) + field_bytes(f[4]) + field_bytes(f[5])
        + field_bytes(f[6]));
}

} // verus!
