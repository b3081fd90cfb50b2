//! Application identities: key pairs, the signed identity cards that carry a
//! device's name and public key, and the signatures of the key handshake.

use vstd::prelude::*;
use vstd::string::*;
use vstd::utf8::encode_utf8;

use crate::hash::{push_bytes, sha256, sha256_of};
use crate::identity::{
    display_identity, displayed, name_char, name_error, only_valid_names_pass,
    only_valid_suffixes_split, split_display_identity, split_identity, unambiguous, valid_name,
    valid_suffix, validate_name,
};
use crate::json::{
    field_count, field_map, joined, member_texts, members_text, members_view, number, object,
    object_text, parse_object, parsed_object, plain_text_is_not_escaped, quote, text_at, text_field, text_view, unsigned_at, unsigned_field, writable,
    Fields, JsonValue,
};
use crate::text::{
    ascii, ascii_takes_a_byte_each, compact, compacted, compacting_keeps_tight_text, decimal, digit,
    has_prefix, hex_of, hex_text, numerals_are_short, push_decimal, text_len, trim, trimmed, trimming_keeps_tight_text, white_space,
};
use nostr_sdk::secp256k1::schnorr::Signature;
use nostr_sdk::secp256k1::Message;
use nostr_sdk::nips::nip44;
use nostr_sdk::{EventBuilder, JsonUtil, Kind, SecretKey, Tag, Timestamp, ToBech32};

verus! {

pub const MAX_TRUSTED_PEERS: usize = 128;

pub const MAX_CARD_SIZE: usize = 2048;

pub const IDENTITY_CARD_KIND: u16 = 30382;

/// How long a freshly minted card stays usable: thirty days.
pub const CARD_TTL_SECS: u64 = 2592000;

/// A card issued slightly in the future is still honoured within this window.
pub const CLOCK_SKEW_GRACE_SECS: u64 = 300;

/// The local card is minted again once it has less than this left: seven days.
pub const CARD_RENEW_BEFORE_SECS: u64 = 604800;

/// Bytes of digest kept in a fingerprint.
pub const FINGERPRINT_BYTES: usize = 10;

/// An application public key.
#[derive(Clone, Copy, Debug, PartialEq, Eq)]
pub struct PublicKey {
    pub bytes: [u8; 32],
}

impl View for PublicKey {
    type V = Seq<u8>;

    open spec fn view(&self) -> Seq<u8> {
        self.bytes@
    }
}

/// The upper-case hexadecimal digit for `d`, which is below sixteen.
pub open spec fn upper_hex(d: nat) -> char {
    if d < 10 {
        (48 + d) as char
    } else {
        (55 + d) as char
    }
}

/// One group of a fingerprint: two bytes as four hexadecimal digits.
pub open spec fn fingerprint_group(a: u8, b: u8) -> Seq<char> {
    seq![
        upper_hex((a / 16) as nat),
        upper_hex((a % 16) as nat),
        upper_hex((b / 16) as nat),
        upper_hex((b % 16) as nat),
    ]
}

/// The first `n` groups of the digest `d`, separated by spaces.
pub open spec fn fingerprint_groups(d: Seq<u8>, n: nat) -> Seq<char>
    decreases n,
{
    if n == 0 {
        Seq::empty()
    } else if n == 1 {
        fingerprint_group(d[0], d[1])
    } else {
        fingerprint_groups(d, (n - 1) as nat) + seq![' '] + fingerprint_group(
            d[2 * n - 2],
            d[2 * n - 1],
        )
    }
}

/// What a fingerprint is taken over: a domain separator and the key.
pub open spec fn fingerprint_input(key: Seq<u8>) -> Seq<u8> {
    encode_utf8("duocb:key-fingerprint:v1\0"@) + key
}

/// The fingerprint of the public key `key`.
pub open spec fn fingerprint_of(key: Seq<u8>) -> Seq<char> {
    fingerprint_groups(sha256(fingerprint_input(key)), 5)
}

/// A fingerprint is twenty-four characters: five groups of four upper-case
/// hexadecimal digits with single spaces between them.
pub proof fn fingerprint_is_grouped_hex(d: Seq<u8>)
    ensures
        fingerprint_groups(d, 5).len() == 24,
        forall|i: int|
            0 <= i < 24 ==> if i % 5 == 4 {
                #[trigger] fingerprint_groups(d, 5)[i] == ' '
            } else {
                '0' <= fingerprint_groups(d, 5)[i] <= '9' || 'A' <= fingerprint_groups(d, 5)[i]
                    <= 'F'
            },
{
    reveal_with_fuel(fingerprint_groups, 6);
}

fn upper_hex_char(d: u8) -> (r: char)
    requires
        d < 16,
    ensures
        r == upper_hex(d as nat),
{
    if d < 10 {
        (48 + d) as char
    } else {
        (55 + d) as char
    }
}

/// Renders the first ten bytes of a digest for a human to compare.
pub fn fingerprint_text(digest: &[u8]) -> (r: String)
    requires
        digest@.len() >= FINGERPRINT_BYTES,
    ensures
        r@ == fingerprint_groups(digest@, 5),
{
    let mut out = String::new();
    let mut n: usize = 0;
    while n < 5
        invariant
            n <= 5,
            digest@.len() >= FINGERPRINT_BYTES,
            out@ == fingerprint_groups(digest@, n as nat),
        decreases 5 - n,
    {
        if n > 0 {
            out.push(' ');
        }
        let a: u8 = digest[2 * n];
        let b: u8 = digest[2 * n + 1];
        out.push(upper_hex_char(a / 16));
        out.push(upper_hex_char(a % 16));
        out.push(upper_hex_char(b / 16));
        out.push(upper_hex_char(b % 16));
        n += 1;
        proof {
            reveal_with_fuel(fingerprint_groups, 2);
            assert(out@ =~= fingerprint_groups(digest@, n as nat));
        }
    }
    out
}

/// The human-comparable fingerprint of an application public key. It is taken
/// over the key, not the card, so it stays put across renewals and renames.
pub fn key_fingerprint(key: &PublicKey) -> (r: String)
    ensures
        r@ == fingerprint_of(key@),
{
    let mut input: Vec<u8> = Vec::new();
    push_bytes(&mut input, "duocb:key-fingerprint:v1\0".as_bytes());
    push_bytes(&mut input, &key.bytes);
    assert(input@ =~= fingerprint_input(key@));
    let digest: [u8; 32] = sha256_of(input.as_slice());
    fingerprint_text(&digest)
}

impl PublicKey {
    /// The key as sixty-four lower-case hexadecimal digits.
    pub fn to_hex(&self) -> (r: String)
        ensures
            r@ == hex_text(self@),
    {
        hex_of(&self.bytes)
    }

    /// The key in its bech32 form.
    pub fn to_npub(&self) -> (r: String)
        ensures
            r@ == npub_text(self@),
    {
        npub_of(&self.bytes)
    }

    /// Reads a key from hexadecimal digits, bech32 or a `nostr:` URI.
    pub fn parse(text: &str) -> (r: Option<PublicKey>)
        ensures
            r is Some <==> parsed_key(text@) is Some,
            r matches Some(k) ==> parsed_key(text@) == Some(k@),
    {
        match parse_key(text) {
            Some(bytes) => Some(PublicKey { bytes }),
            None => None,
        }
    }

    /// Whether two keys are the same.
    pub fn same(&self, other: &PublicKey) -> (r: bool)
        ensures
            r == (self@ == other@),
    {
        let mut i: usize = 0;
        while i < 32
            invariant
                i <= 32,
                forall|j: int| 0 <= j < i ==> self.bytes@[j] == other.bytes@[j],
            decreases 32 - i,
        {
            if self.bytes[i] != other.bytes[i] {
                return false;
            }
            i += 1;
        }
        assert(self@ =~= other@);
        true
    }
}

// ---------------------------------------------------------------------------
// Keys
// ---------------------------------------------------------------------------

/// The public key that belongs to a secret key, if the bytes are one.
pub uninterp spec fn secret_public(secret: Seq<u8>) -> Option<Seq<u8>>;

/// The secret key that a text stands for, if it stands for one.
pub uninterp spec fn parsed_secret(text: Seq<char>) -> Option<Seq<u8>>;

/// The bech32 text of a secret key.
pub uninterp spec fn nsec_text(secret: Seq<u8>) -> Seq<char>;

/// The bech32 text of a public key.
pub uninterp spec fn npub_text(key: Seq<u8>) -> Seq<char>;

/// The public key that a text stands for, if it stands for one.
pub uninterp spec fn parsed_key(text: Seq<char>) -> Option<Seq<u8>>;

/// `nostr_sdk::SecretKey::generate`: some valid secret key.
#[verifier::external_body]
fn random_secret() -> (r: [u8; 32])
    ensures
        secret_public(r@) is Some,
{
    SecretKey::generate().to_secret_bytes()
}

/// `nostr_sdk::SecretKey::from_slice`, `Keys::new` and `public_key`: the public key of
/// the secret key that the bytes are, if they are one. It is a point on the curve.
#[verifier::external_body]
fn public_of(secret: &[u8; 32]) -> (r: Option<[u8; 32]>)
    ensures
        r is Some <==> secret_public(secret@) is Some,
        r matches Some(key) ==> secret_public(secret@) == Some(key@),
        r matches Some(key) ==> curve_point(key@),
{
    let secret = SecretKey::from_slice(secret).ok();
    secret.map(|secret| nostr_sdk::Keys::new(secret).public_key().to_bytes())
}

/// `nostr_sdk::SecretKey::parse`, which takes hexadecimal digits and bech32. What
/// it reads is a valid secret key.
#[verifier::external_body]
fn parse_secret(text: &str) -> (r: Option<[u8; 32]>)
    ensures
        r is Some <==> parsed_secret(text@) is Some,
        r matches Some(b) ==> parsed_secret(text@) == Some(b@) && secret_public(b@) is Some,
{
    SecretKey::parse(text).ok().map(|secret| secret.to_secret_bytes())
}

/// `to_bech32` of a `nostr_sdk::SecretKey`: a text that starts with `nsec1`, holds
/// no white space and parses to the key again.
#[verifier::external_body]
fn nsec_of(secret: &[u8; 32]) -> (r: String)
    requires
        secret_public(secret@) is Some,
    ensures
        r@ == nsec_text(secret@),
        parsed_secret(r@) == Some(secret@),
        "nsec1"@.is_prefix_of(r@),
        forall|i: int| 0 <= i < r@.len() ==> !white_space(#[trigger] r@[i]),
{
    SecretKey::from_slice(secret).unwrap().to_bech32().unwrap()
}

/// `to_bech32` of a `nostr_sdk::PublicKey`, which depends on the key alone and
/// parses to it again.
#[verifier::external_body]
fn npub_of(key: &[u8; 32]) -> (r: String)
    ensures
        r@ == npub_text(key@),
        parsed_key(r@) == Some(key@),
{
    nostr_sdk::PublicKey::from_byte_array(*key).to_bech32().unwrap()
}

/// `nostr_sdk::PublicKey::parse`, which takes hexadecimal digits, bech32 and
/// `nostr:` URIs. Of the texts it takes, those of sixty-four lower-case digits
/// are stated here.
#[verifier::external_body]
fn parse_key(text: &str) -> (r: Option<[u8; 32]>)
    ensures
        r is Some <==> parsed_key(text@) is Some,
        r matches Some(b) ==> parsed_key(text@) == Some(b@),
        forall|b: Seq<u8>| b.len() == 32 && text@ == #[trigger] hex_text(b) ==> r is Some && r->0@ == b,
{
    nostr_sdk::PublicKey::parse(text).ok().map(|key| key.to_bytes())
}

// ---------------------------------------------------------------------------
// Signatures
// ---------------------------------------------------------------------------

/// The signature that a text stands for, if it stands for one.
pub uninterp spec fn parsed_signature(text: Seq<char>) -> Option<Seq<u8>>;

/// Whether thirty-two bytes are the x-coordinate of a point on the curve.
pub uninterp spec fn curve_point(key: Seq<u8>) -> bool;

/// Whether a signature over a digest verifies under a public key.
pub uninterp spec fn schnorr_holds(key: Seq<u8>, digest: Seq<u8>, signature: Seq<u8>) -> bool;

/// Whether the text `signature` is a signature over `digest` that verifies under
/// `key`.
pub open spec fn signature_verifies(key: Seq<u8>, digest: Seq<u8>, signature: Seq<char>) -> bool {
    &&& parsed_signature(signature) is Some
    &&& curve_point(key)
    &&& schnorr_holds(key, digest, parsed_signature(signature)->0)
}

/// `FromStr` of `secp256k1`'s Schnorr signature: sixty-four bytes in hexadecimal.
#[verifier::external_body]
fn parse_signature(text: &str) -> (r: Option<Vec<u8>>)
    ensures
        r is Some <==> parsed_signature(text@) is Some,
        r matches Some(b) ==> parsed_signature(text@) == Some(b@) && b@.len() == 64,
{
    text.parse::<Signature>().ok().map(|signature| signature.as_ref().to_vec())
}

/// `nostr_sdk::PublicKey::xonly`, which fails on bytes that are no point.
#[verifier::external_body]
fn is_curve_point(key: &[u8; 32]) -> (r: bool)
    ensures
        r == curve_point(key@),
{
    nostr_sdk::PublicKey::from_byte_array(*key).xonly().is_ok()
}

/// `secp256k1`'s `verify_schnorr` of a signature over a digest.
#[verifier::external_body]
fn schnorr_verifies(key: &[u8; 32], digest: &[u8; 32], signature: &Vec<u8>) -> (r: bool)
    requires
        curve_point(key@),
        signature@.len() == 64,
    ensures
        r == schnorr_holds(key@, digest@, signature@),
{
    let point = nostr_sdk::PublicKey::from_byte_array(*key).xonly().unwrap();
    let signature = Signature::from_slice(signature).unwrap();
    let message = Message::from_digest(*digest);
    nostr_sdk::SECP256K1.verify_schnorr(&signature, &message, &point).is_ok()
}

/// `nostr_sdk::Keys::sign_schnorr`: some signature that verifies under the signer's
/// public key, in hexadecimal. It mixes in randomness, so two signatures over one
/// digest may differ.
#[verifier::external_body]
fn schnorr_sign(secret: &[u8; 32], digest: &[u8; 32]) -> (r: String)
    requires
        secret_public(secret@) is Some,
    ensures
        signature_verifies(secret_public(secret@)->0, digest@, r@),
{
    let keys = nostr_sdk::Keys::new(SecretKey::from_slice(secret).unwrap());
    keys.sign_schnorr(&Message::from_digest(*digest)).to_string()
}

/// What a handshake signature is taken over: a domain separator and the
/// transcript.
pub open spec fn auth_input(transcript: Seq<u8>) -> Seq<u8> {
    encode_utf8("duocb:key-auth:v3\0"@) + transcript
}

/// Why `signature` does not prove that the holder of `key` saw `transcript`, or
/// `None` where it does.
pub open spec fn auth_signature_error(
    key: Seq<u8>,
    transcript: Seq<u8>,
    signature: Seq<char>,
) -> Option<Seq<char>> {
    if parsed_signature(signature) is None {
        Some("authentication proof is not a Schnorr signature"@)
    } else if !curve_point(key) {
        Some("authentication public key is invalid"@)
    } else if !schnorr_holds(key, sha256(auth_input(transcript)), parsed_signature(signature)->0) {
        Some("authentication proof did not verify"@)
    } else {
        None
    }
}

fn auth_digest(transcript: &[u8]) -> (r: [u8; 32])
    ensures
        r@ == sha256(auth_input(transcript@)),
{
    let mut input: Vec<u8> = Vec::new();
    push_bytes(&mut input, "duocb:key-auth:v3\0".as_bytes());
    push_bytes(&mut input, transcript);
    assert(input@ =~= auth_input(transcript@));
    sha256_of(input.as_slice())
}

/// Checks a handshake signature.
pub fn verify_auth_signature(public_key: PublicKey, transcript: &[u8], signature: &str) -> (r: Result<
    (),
    String,
>)
    ensures
        match r {
            Ok(()) => auth_signature_error(public_key@, transcript@, signature@) is None,
            Err(e) => auth_signature_error(public_key@, transcript@, signature@) == Some(e@),
        },
{
    let signature: Vec<u8> = match parse_signature(signature) {
        Some(signature) => signature,
        None => return Err("authentication proof is not a Schnorr signature".to_owned()),
    };
    if !is_curve_point(&public_key.bytes) {
        return Err("authentication public key is invalid".to_owned());
    }
    let digest: [u8; 32] = auth_digest(transcript);
    if !schnorr_verifies(&public_key.bytes, &digest, &signature) {
        return Err("authentication proof did not verify".to_owned());
    }
    Ok(())
}

// ---------------------------------------------------------------------------
// Sealed texts
// ---------------------------------------------------------------------------

/// How many characters a sealed record of a node id takes.
pub const SEALED_RECORD_CHARS: usize = 220;

/// The longest text that can be sealed, in bytes.
pub const MAX_SEALED_BYTES: usize = 65408;

/// The text that the holder of a secret key reads from what the holder of a public key
/// sealed, if it can read it.
pub uninterp spec fn opened(secret: Seq<u8>, author: Seq<u8>, sealed: Seq<char>) -> Option<
    Seq<char>,
>;

/// Whether a text can be sealed for the holder of a public key.
pub open spec fn sealable(peer: Seq<u8>, text: Seq<char>) -> bool {
    curve_point(peer) && 0 < encode_utf8(text).len() <= MAX_SEALED_BYTES
}

/// How many characters a sealed text of `n` bytes takes, for `n` from 1 to 256: the text is
/// padded to a multiple of 32 bytes, framed with 67 more, and written in base64.
pub open spec fn sealed_length(n: nat) -> nat {
    (67 + 32 * ((n + 31) / 32) + 2) / 3 * 4
}

/// Whether a text is written in the padded base64 alphabet.
pub open spec fn in_base64(s: Seq<char>) -> bool {
    forall|i: int|
        0 <= i < s.len() ==> {
            ||| 'A' <= #[trigger] s[i] <= 'Z'
            ||| 'a' <= s[i] <= 'z'
            ||| '0' <= s[i] <= '9'
            ||| s[i] == '+' || s[i] == '/' || s[i] == '='
        }
}

/// What is known of the look of a sealed text.
pub open spec fn sealed_shape(text: Seq<char>, sealed: Seq<char>) -> bool {
    &&& in_base64(sealed)
    &&& encode_utf8(text).len() <= 256 ==> sealed.len() == sealed_length(encode_utf8(text).len())
}

/// `nostr_sdk`'s `nip44::encrypt`, version two. It takes any text of one byte up to
/// [`MAX_SEALED_BYTES`], for any key on the curve. It draws a nonce, so what it writes is
/// not stated, but that it is base64, how long it is for a short text, and that the
/// addressed key reads it. That no other key reads it is not stated: it holds but for
/// chance.
#[verifier::external_body]
fn seal(secret: &[u8; 32], peer: &[u8; 32], text: &str) -> (r: Option<String>)
    requires
        secret_public(secret@) is Some,
    ensures
        r is Some <==> sealable(peer@, text@),
        r matches Some(sealed) ==> sealed_shape(text@, sealed@),
        r matches Some(sealed) ==> forall|other: Seq<u8>| #[trigger]
            secret_public(other) == Some(peer@) ==> opened(
                other,
                secret_public(secret@)->0,
                sealed@,
            ) == Some(text@),
{
    let key = nostr_sdk::PublicKey::from_byte_array(*peer);
    let secret = SecretKey::from_slice(secret).unwrap();
    nip44::encrypt(&secret, &key, text, nip44::Version::V2).ok()
}

/// `nostr_sdk`'s `nip44::decrypt`, whose outcome depends on its arguments alone.
#[verifier::external_body]
fn unseal(secret: &[u8; 32], author: &[u8; 32], sealed: &str) -> (r: Option<String>)
    requires
        secret_public(secret@) is Some,
    ensures
        text_view(r) == opened(secret@, author@, sealed@),
{
    let key = nostr_sdk::PublicKey::from_byte_array(*author);
    nip44::decrypt(&SecretKey::from_slice(secret).unwrap(), &key, sealed).ok()
}

// ---------------------------------------------------------------------------
// Signed events
// ---------------------------------------------------------------------------

/// What a card reads of a signed event.
pub struct EventView {
    pub public_key: Seq<u8>,
    pub created_at: u64,
    pub kind: u16,
    pub identifier: Option<Seq<char>>,
    pub recipient: Option<Seq<u8>>,
    pub expiration: Option<u64>,
    pub content: Seq<char>,
    pub json: Seq<char>,
}

/// The executable counterpart of [`EventView`].
pub struct SignedEvent {
    pub public_key: PublicKey,
    pub created_at: u64,
    pub kind: u16,
    /// The value of the `d` tag.
    pub identifier: Option<String>,
    /// The key in the first `p` tag.
    pub recipient: Option<PublicKey>,
    /// The value of the expiration tag, in Unix seconds.
    pub expiration: Option<u64>,
    pub content: String,
    /// The event in its JSON form.
    pub json: String,
}

impl View for SignedEvent {
    type V = EventView;

    open spec fn view(&self) -> EventView {
        EventView {
            public_key: self.public_key@,
            created_at: self.created_at,
            kind: self.kind,
            identifier: text_view(self.identifier),
            recipient: key_view(self.recipient),
            expiration: self.expiration,
            content: self.content@,
            json: self.json@,
        }
    }
}

/// The view of an optional key.
pub open spec fn key_view(key: Option<PublicKey>) -> Option<Seq<u8>> {
    match key {
        Some(key) => Some(key@),
        None => None,
    }
}

/// The event that a JSON text holds, if it holds one.
pub uninterp spec fn event_of(json: Seq<char>) -> Option<EventView>;

/// Whether the id and the signature of the event in a JSON text are right.
pub uninterp spec fn event_signed(json: Seq<char>) -> bool;

/// `nostr_sdk::Event::from_json`, with the event's fields and its `as_json` form as
/// plain values. The `as_json` form has no white space around it, holds the same
/// event, and is as well signed as the text it was read from.
#[verifier::external_body]
pub(crate) fn read_event(json: &str) -> (r: Option<SignedEvent>)
    ensures
        r is Some <==> event_of(json@) is Some,
        r matches Some(e) ==> event_of(json@) == Some(e@),
        r matches Some(e) ==> event_of(e.json@) == Some(e@),
        r matches Some(e) ==> event_signed(e.json@) == event_signed(json@),
        r matches Some(e) ==> e.json@.len() > 0 && !white_space(e.json@[0]) && !white_space(
            e.json@.last(),
        ),
{
    nostr_sdk::Event::from_json(json).ok().map(|event| SignedEvent {
        public_key: PublicKey { bytes: event.pubkey.to_bytes() },
        created_at: event.created_at.as_secs(),
        kind: event.kind.as_u16(),
        identifier: event.tags.identifier().map(|tag| tag.to_owned()),
        recipient: event.tags.public_keys().next().map(|key| PublicKey { bytes: key.to_bytes() }),
        expiration: event.tags.expiration().map(|time| time.as_secs()),
        content: event.content.clone(),
        json: event.as_json(),
    })
}

/// `nostr_sdk::Event::verify` of the event in a JSON text.
#[verifier::external_body]
pub(crate) fn event_verifies(json: &str) -> (r: bool)
    requires
        event_of(json@) is Some,
    ensures
        r == event_signed(json@),
{
    nostr_sdk::Event::from_json(json).unwrap().verify().is_ok()
}

/// The key in the first `p` tag of an event by `author` that is meant for `recipient`:
/// an event does not name its own author.
pub open spec fn tagged_key(author: Seq<u8>, recipient: Option<Seq<u8>>) -> Option<Seq<u8>> {
    if recipient == Some(author) {
        None
    } else {
        recipient
    }
}

/// `nostr_sdk::EventBuilder::sign_with_keys` of an event with an identifier, perhaps a
/// recipient, an expiration and a fixed issue time, in its JSON form. The event reads
/// back with what it was given and is signed by the given key; the signature itself is
/// random. Besides the identifier and the content, whose bytes take at most six each when
/// they are escaped, the form holds only keys, digests, numbers and punctuation.
#[verifier::external_body]
fn sign_event(
    secret: &[u8; 32],
    kind: u16,
    content: &str,
    identifier: &str,
    recipient: Option<PublicKey>,
    expires_at: u64,
    issued_at: u64,
) -> (r: String)
    requires
        secret_public(secret@) is Some,
        identifier@.len() > 0,
    ensures
        event_of(r@) == Some(
            EventView {
                public_key: secret_public(secret@)->0,
                created_at: issued_at,
                kind,
                identifier: Some(identifier@),
                recipient: tagged_key(secret_public(secret@)->0, key_view(recipient)),
                expiration: Some(expires_at),
                content: content@,
                json: r@,
            },
        ),
        event_signed(r@),
        encode_utf8(r@).len() <= 600 + 6 * encode_utf8(identifier@).len() + 6 * encode_utf8(
            content@,
        ).len(),
{
    EventBuilder::new(Kind::from_u16(kind), content)
        .tag(Tag::identifier(identifier))
        .tags(recipient.map(|k| Tag::public_key(nostr_sdk::PublicKey::from_byte_array(k.bytes))))
        .tag(Tag::expiration(Timestamp::from_secs(expires_at)))
        .custom_created_at(Timestamp::from_secs(issued_at))
        .sign_with_keys(&nostr_sdk::Keys::new(SecretKey::from_slice(secret).unwrap()))
        .unwrap()
        .as_json()
}

/// `nostr_sdk::Timestamp::now`: seconds since the Unix epoch, the clock that card
/// expiry is judged against.
#[verifier::external_body]
pub fn unix_now() -> (r: u64) {
    Timestamp::now().as_secs()
}

// ---------------------------------------------------------------------------
// Identity cards
// ---------------------------------------------------------------------------

/// What an identity card says.
pub struct CardView {
    pub public_key: Seq<u8>,
    pub created_at: u64,
    pub name: Seq<char>,
    pub expires_at: u64,
    /// The signed event that is the card.
    pub json: Seq<char>,
}

/// The payload of a card: its version, the final device name and the expiry.
pub open spec fn card_fields(name: Seq<char>, expires_at: u64) -> Fields {
    seq![
        ("version"@, JsonValue::Unsigned(3)),
        ("name"@, JsonValue::Text(name)),
        ("expires_at"@, JsonValue::Unsigned(expires_at)),
    ]
}

/// The version, name and expiry in a card's payload, which holds these three
/// fields and no other.
pub open spec fn card_content(m: Option<Map<Seq<char>, JsonValue>>) -> Option<
    (u64, Seq<char>, u64),
> {
    match m {
        None => None,
        Some(m) => match (
            unsigned_at(m, "version"@),
            text_at(m, "name"@),
            unsigned_at(m, "expires_at"@),
        ) {
            (Some(version), Some(name), Some(expires_at)) => if m.dom().len() == 3 && version
                <= u32::MAX {
                Some((version, name, expires_at))
            } else {
                None
            },
            _ => None,
        },
    }
}

/// The card that an event is, or why it is none. `signed` says whether its
/// signature is right, `content` what the content parses to. Only signed fields
/// are compared with each other, so the outcome does not depend on a clock.
pub open spec fn card_of_event(
    e: EventView,
    signed: bool,
    content: Option<Map<Seq<char>, JsonValue>>,
) -> Result<CardView, Seq<char>> {
    if !signed {
        Err("identity card signature is invalid"@)
    } else if e.kind != IDENTITY_CARD_KIND {
        Err("identity card has the wrong event kind"@)
    } else if e.identifier != Some("duocb:identity-card:v3"@) {
        Err("identity card has the wrong identifier"@)
    } else {
        match card_content(content) {
            None => Err("identity card payload is invalid"@),
            Some((version, name, expires_at)) => if version != 3 {
                Err("identity card version "@ + decimal(version as nat) + " is unsupported"@)
            } else if split_identity(name) is Err {
                Err(split_identity(name)->Err_0)
            } else if expires_at <= e.created_at {
                Err("identity card expires no later than it was issued"@)
            } else if expires_at - e.created_at > CARD_TTL_SECS {
                Err("identity card claims a lifetime longer than 2592000 seconds"@)
            } else if e.expiration != Some(expires_at) {
                Err("identity card expiration tag does not match its payload"@)
            } else if encode_utf8(e.json).len() > MAX_CARD_SIZE {
                Err("identity card exceeds 2048 bytes"@)
            } else {
                Ok(
                    CardView {
                        public_key: e.public_key,
                        created_at: e.created_at,
                        name,
                        expires_at,
                        json: e.json,
                    },
                )
            },
        }
    }
}

/// The card that a text holds, or why it holds none.
pub open spec fn card_of_text(input: Seq<char>) -> Result<CardView, Seq<char>> {
    let json = trimmed(input);
    if encode_utf8(json).len() > MAX_CARD_SIZE {
        Err("identity card exceeds 2048 bytes"@)
    } else {
        match event_of(json) {
            None => Err("identity card is not valid JSON"@),
            Some(e) => card_of_event(
                e,
                event_signed(json),
                parsed_object(encode_utf8(e.content)),
            ),
        }
    }
}

/// Whether the card `v` may be acted on at `now`.
pub open spec fn card_valid_at(v: CardView, now: u64) -> bool {
    now < v.expires_at && v.created_at <= now + CLOCK_SKEW_GRACE_SECS
}

/// Seconds that the card `v` may still be acted on from `now` on.
pub open spec fn card_remaining(v: CardView, now: u64) -> nat {
    if card_valid_at(v, now) {
        (v.expires_at - now) as nat
    } else {
        0
    }
}

/// The seconds that are left of a card run down to its expiry, and none are left from then
/// on.
pub proof fn a_card_runs_down(v: CardView, now: u64)
    ensures
        v.created_at <= now < v.expires_at ==> card_remaining(v, now) == v.expires_at - now,
        now >= v.expires_at ==> card_remaining(v, now) == 0,
        card_remaining(v, now) > 0 <==> card_valid_at(v, now),
{
}

/// A card that was accepted is signed, carries a valid final name, and claims a
/// lifetime of at least a second and at most [`CARD_TTL_SECS`].
pub proof fn accepted_cards_are_signed_and_short_lived(
    e: EventView,
    signed: bool,
    content: Option<Map<Seq<char>, JsonValue>>,
)
    requires
        card_of_event(e, signed, content) is Ok,
    ensures
        ({
            let v = card_of_event(e, signed, content)->Ok_0;
            &&& signed
            &&& v.public_key == e.public_key
            &&& split_identity(v.name) is Ok
            &&& v.created_at < v.expires_at <= v.created_at + CARD_TTL_SECS
            &&& e.expiration == Some(v.expires_at)
        }),
{
}

/// An accepted card is usable for at most its lifetime and the clock-skew grace:
/// from five minutes before it was issued up to the second before it expires.
pub proof fn validity_is_bounded_by_expiry(v: CardView, now: u64)
    requires
        v.expires_at <= v.created_at + CARD_TTL_SECS,
        card_valid_at(v, now),
    ensures
        v.created_at <= now + CLOCK_SKEW_GRACE_SECS,
        now < v.created_at + CARD_TTL_SECS,
{
}

/// Once a card is no longer valid after it was issued, it never becomes valid
/// again.
pub proof fn expiry_is_final(v: CardView, now: u64, later: u64)
    requires
        v.created_at <= now <= later,
        !card_valid_at(v, now),
    ensures
        !card_valid_at(v, later),
{
}

/// A verified portable identity card.
///
/// Parsing is deliberately clock-free: it proves that the card is well formed and
/// authentic, never that it is still current.
pub struct IdentityCard {
    public_key: PublicKey,
    created_at: u64,
    name: String,
    expires_at: u64,
    json: String,
}

impl View for IdentityCard {
    type V = CardView;

    closed spec fn view(&self) -> CardView {
        CardView {
            public_key: self.public_key@,
            created_at: self.created_at,
            name: self.name@,
            expires_at: self.expires_at,
            json: self.json@,
        }
    }
}

impl IdentityCard {
    /// A card is what its own text parses to.
    #[verifier::type_invariant]
    spec fn well_formed(self) -> bool {
        &&& card_of_text(self.json@) == Ok::<CardView, Seq<char>>(self@)
        &&& split_identity(self.name@) is Ok
        &&& self.created_at < self.expires_at <= self.created_at + CARD_TTL_SECS
    }

    /// Reads the card in an event whose JSON form is `event.json`.
    fn from_event(event: SignedEvent) -> (r: Result<IdentityCard, String>)
        requires
            event_of(event.json@) == Some(event@),
            event.json@.len() > 0,
            !white_space(event.json@[0]),
            !white_space(event.json@.last()),
        ensures
            match r {
                Ok(card) => card_of_event(
                    event@,
                    event_signed(event.json@),
                    parsed_object(encode_utf8(event.content@)),
                ) == Ok::<CardView, Seq<char>>(card@),
                Err(e) => card_of_event(
                    event@,
                    event_signed(event.json@),
                    parsed_object(encode_utf8(event.content@)),
                ) == Err::<CardView, Seq<char>>(e@),
            },
            forall|f: Fields|
                writable(f) && event.content@ == #[trigger] object_text(f) ==> parsed_object(
                    encode_utf8(event.content@),
                ) == Some(field_map(f)),
    {
        let signed = event_verifies(event.json.as_str());
        let content: Option<(u64, String, u64)> = match parse_object(
            event.content.as_str().as_bytes(),
        ) {
            Ok(m) => match (
                unsigned_field(&m, "version"),
                text_field(&m, "name"),
                unsigned_field(&m, "expires_at"),
            ) {
                (Some(version), Some(name), Some(expires_at)) => if field_count(&m) == 3 && version
                    <= 0xffff_ffff {
                    Some((version, name, expires_at))
                } else {
                    None
                },
                _ => None,
            },
            Err(_) => None,
        };
        proof {
            trimming_keeps_tight_text(event.json@);
        }
        match check_card(&event, signed, content) {
            Ok((name, expires_at)) => Ok(
                IdentityCard {
                    public_key: event.public_key,
                    created_at: event.created_at,
                    name,
                    expires_at,
                    json: event.json,
                },
            ),
            Err(e) => Err(e),
        }
    }
}

/// The view of a card's parsed payload.
pub open spec fn content_view(c: Option<(u64, String, u64)>) -> Option<(u64, Seq<char>, u64)> {
    match c {
        Some((version, name, expires_at)) => Some((version, name@, expires_at)),
        None => None,
    }
}

/// Judges an event as a card, given whether its signature is right and what its
/// payload holds: the final name and the expiry, or why it is no card.
pub fn check_card(
    event: &SignedEvent,
    signed: bool,
    content: Option<(u64, String, u64)>,
) -> (r: Result<(String, u64), String>)
    ensures
        forall|m: Option<Map<Seq<char>, JsonValue>>|
            #[trigger] card_content(m) == content_view(content) ==> match r {
                Ok((name, expires_at)) => card_of_event(event@, signed, m) == Ok::<
                    CardView,
                    Seq<char>,
                >(
                    CardView {
                        public_key: event@.public_key,
                        created_at: event@.created_at,
                        name: name@,
                        expires_at,
                        json: event@.json,
                    },
                ),
                Err(e) => card_of_event(event@, signed, m) == Err::<CardView, Seq<char>>(e@),
            },
{
    if !signed {
        return Err("identity card signature is invalid".to_owned());
    }
    if event.kind != IDENTITY_CARD_KIND {
        return Err("identity card has the wrong event kind".to_owned());
    }
    let right_identifier = match &event.identifier {
        Some(identifier) => *identifier == "duocb:identity-card:v3".to_owned(),
        None => false,
    };
    if !right_identifier {
        return Err("identity card has the wrong identifier".to_owned());
    }
    let (version, name, expires_at): (u64, String, u64) = match content {
        Some(content) => content,
        None => return Err("identity card payload is invalid".to_owned()),
    };
    if version != 3 {
        let mut e = "identity card version ".to_owned();
        push_decimal(&mut e, version);
        e.append(" is unsupported");
        return Err(e);
    }
    match split_display_identity(name.as_str()) {
        Ok(_) => {},
        Err(e) => return Err(e),
    }
    if expires_at <= event.created_at {
        return Err("identity card expires no later than it was issued".to_owned());
    }
    if expires_at - event.created_at > CARD_TTL_SECS {
        return Err("identity card claims a lifetime longer than 2592000 seconds".to_owned());
    }
    let tag_agrees = match event.expiration {
        Some(tag) => tag == expires_at,
        None => false,
    };
    if !tag_agrees {
        return Err("identity card expiration tag does not match its payload".to_owned());
    }
    if text_len(event.json.as_str()) > MAX_CARD_SIZE {
        return Err("identity card exceeds 2048 bytes".to_owned());
    }
    Ok((name, expires_at))
}

impl IdentityCard {
    /// Reads a card from text.
    pub fn parse(input: &str) -> (r: Result<IdentityCard, String>)
        ensures
            match r {
                Ok(card) => card_of_text(input@) == Ok::<CardView, Seq<char>>(card@),
                Err(e) => card_of_text(input@) == Err::<CardView, Seq<char>>(e@),
            },
    {
        let json = trim(input);
        if text_len(json.as_str()) > MAX_CARD_SIZE {
            return Err("identity card exceeds 2048 bytes".to_owned());
        }
        match read_event(json.as_str()) {
            Some(event) => IdentityCard::from_event(event),
            None => Err("identity card is not valid JSON".to_owned()),
        }
    }

    /// The card as text. It parses to the card again.
    pub fn encode(&self) -> (r: String)
        ensures
            r@ == self@.json,
            card_of_text(r@) == Ok::<CardView, Seq<char>>(self@),
    {
        proof {
            use_type_invariant(self);
        }
        self.json.clone()
    }

    /// The final name, `<short-name>_<suffix>`.
    pub fn name(&self) -> (r: &str)
        ensures
            r@ == self@.name,
    {
        self.name.as_str()
    }

    /// The user-chosen part of the name.
    pub fn short_name(&self) -> (r: String)
        ensures
            split_identity(self@.name) is Ok,
            r@ == split_identity(self@.name)->Ok_0.0,
    {
        proof {
            use_type_invariant(self);
        }
        match split_display_identity(self.name.as_str()) {
            Ok((name, _)) => name.to_owned(),
            Err(e) => e,
        }
    }

    /// The permanent part of the name.
    pub fn suffix(&self) -> (r: String)
        ensures
            split_identity(self@.name) is Ok,
            r@ == split_identity(self@.name)->Ok_0.1,
    {
        proof {
            use_type_invariant(self);
        }
        match split_display_identity(self.name.as_str()) {
            Ok((_, suffix)) => suffix.to_owned(),
            Err(e) => e,
        }
    }

    /// The key that the card vouches for.
    pub fn public_key(&self) -> (r: PublicKey)
        ensures
            r@ == self@.public_key,
    {
        self.public_key
    }

    /// The key in its bech32 form.
    pub fn npub(&self) -> (r: String)
        ensures
            r@ == npub_text(self@.public_key),
    {
        self.public_key.to_npub()
    }

    /// The fingerprint of the card's key: the value that the user checks against
    /// the other device before importing.
    pub fn fingerprint(&self) -> (r: String)
        ensures
            r@ == fingerprint_of(self@.public_key),
    {
        key_fingerprint(&self.public_key)
    }

    /// When the card was issued, in Unix seconds.
    pub fn created_at(&self) -> (r: u64)
        ensures
            r == self@.created_at,
    {
        self.created_at
    }

    /// When the card expires, in Unix seconds: later than it was issued, by at most
    /// [`CARD_TTL_SECS`].
    pub fn expires_at(&self) -> (r: u64)
        ensures
            r == self@.expires_at,
            self@.created_at < r <= self@.created_at + CARD_TTL_SECS,
    {
        proof {
            use_type_invariant(self);
        }
        self.expires_at
    }

    /// Whether this card may still be acted on at `now` (Unix seconds).
    pub fn is_valid_at(&self, now: u64) -> (r: bool)
        ensures
            r == card_valid_at(self@, now),
    {
        now < self.expires_at && self.created_at <= now.saturating_add(CLOCK_SKEW_GRACE_SECS)
    }

    /// [`Self::is_valid_at`] against the local clock.
    pub fn is_expired(&self) -> (r: bool)
        ensures
            exists|now: u64| r == !card_valid_at(self@, now),
    {
        let now: u64 = unix_now();
        let valid = self.is_valid_at(now);
        assert(!valid == !card_valid_at(self@, now));
        !valid
    }

    /// Seconds of life left at `now`; zero once the card is unusable.
    pub fn remaining_secs_at(&self, now: u64) -> (r: u64)
        ensures
            r == if card_valid_at(self@, now) {
                self@.expires_at - now
            } else {
                0
            },
            r == card_remaining(self@, now),
    {
        if self.is_valid_at(now) {
            self.expires_at - now
        } else {
            0
        }
    }
}

impl Clone for IdentityCard {
    fn clone(&self) -> (r: IdentityCard)
        ensures
            r@ == self@,
    {
        proof {
            use_type_invariant(self);
        }
        IdentityCard {
            public_key: self.public_key,
            created_at: self.created_at,
            name: self.name.clone(),
            expires_at: self.expires_at,
            json: self.json.clone(),
        }
    }
}

// ---------------------------------------------------------------------------
// Identities
// ---------------------------------------------------------------------------

/// Persisted, application-level identity.
pub struct Identity {
    secret: [u8; 32],
    public: PublicKey,
}

/// The secret key that an `nsec` text stands for, or why it stands for none.
pub open spec fn nsec_secret(input: Seq<char>) -> Result<Seq<u8>, Seq<char>> {
    let text = compacted(input);
    if !"nsec1"@.is_prefix_of(text) {
        Err("identity private key must be an nsec"@)
    } else {
        match parsed_secret(text) {
            Some(secret) => Ok(secret),
            None => Err("invalid identity private key"@),
        }
    }
}

/// The parts of a payload are pairwise different fields, and the payload reads back.
proof fn card_fields_read_back(name: Seq<char>, expires_at: u64)
    ensures
        writable(card_fields(name, expires_at)),
        card_content(Some(field_map(card_fields(name, expires_at)))) == Some(
            (3u64, name, expires_at),
        ),
{
    reveal_strlit("version");
    reveal_strlit("name");
    reveal_strlit("expires_at");
    assert("version"@[0] == 'v');
    assert("name"@[0] == 'n');
    assert("expires_at"@[0] == 'e');
    reveal_with_fuel(field_map, 4);
    let f = card_fields(name, expires_at);
    let m0 = Map::<Seq<char>, JsonValue>::empty();
    let m1 = m0.insert(f[0].0, f[0].1);
    let m2 = m1.insert(f[1].0, f[1].1);
    let m3 = m2.insert(f[2].0, f[2].1);
    assert(f.drop_last().drop_last().drop_last() =~= Seq::empty());
    assert(field_map(f) == m3);
    assert(m1.dom() =~= m0.dom().insert("version"@));
    assert(m2.dom() =~= m1.dom().insert("name"@));
    assert(m3.dom() =~= m2.dom().insert("expires_at"@));
    assert(m0.dom().len() == 0);
    assert(m3.dom().len() == 3);
}

/// The payload of a card for a valid final name takes at most ninety bytes.
proof fn card_payloads_are_short(name: Seq<char>, suffix: Seq<char>, expires_at: u64)
    requires
        valid_name(name),
        valid_suffix(suffix),
    ensures
        encode_utf8(object_text(card_fields(displayed(name, suffix), expires_at))).len() <= 90,
{
    reveal_strlit("version");
    reveal_strlit("name");
    reveal_strlit("expires_at");
    let display = displayed(name, suffix);
    assert forall|i: int| 0 <= i < display.len() implies (#[trigger] display[i] as u32) < 128
        && display[i] != '"' && display[i] != '\\' && display[i] as u32 >= 32 by {
        if i < name.len() {
            assert(name_char(name[i]));
        } else if i > name.len() {
            assert(unambiguous(suffix[i - name.len() - 1]));
        }
    }
    plain_text_is_not_escaped(display);
    plain_text_is_not_escaped("version"@);
    plain_text_is_not_escaped("name"@);
    plain_text_is_not_escaped("expires_at"@);
    numerals_are_short(expires_at);
    let until = decimal(expires_at as nat);
    let f = card_fields(display, expires_at);
    let m = member_texts(f);
    reveal(members_text);
    reveal_with_fuel(joined, 4);
    assert(m.drop_last().drop_last() =~= seq![m[0]]);
    let text = object_text(f);
    let head = seq!['{', '"'] + "version"@ + seq!['"', ':', digit(3), ',', '"'] + "name"@;
    let middle = seq!['"', ':', '"'] + display + seq!['"', ',', '"'] + "expires_at"@;
    assert(text =~= head + middle + seq!['"', ':'] + until + seq!['}']);
    assert(ascii(text));
    ascii_takes_a_byte_each(text);
}

impl Identity {
    #[verifier::type_invariant]
    spec fn well_formed(self) -> bool {
        secret_public(self.secret@) == Some(self.public@) && curve_point(self.public@)
    }

    /// The secret key.
    pub closed spec fn secret_bytes(self) -> Seq<u8> {
        self.secret@
    }

    /// The public key.
    pub closed spec fn public_bytes(self) -> Seq<u8> {
        self.public@
    }

    /// A new random identity.
    pub fn generate() -> (r: Identity)
        ensures
            secret_public(r.secret_bytes()) == Some(r.public_bytes()),
    {
        let secret: [u8; 32] = random_secret();
        let public = PublicKey { bytes: public_of(&secret).unwrap() };
        Identity { secret, public }
    }

    /// The identity with the given secret key, if the bytes are one.
    pub fn from_secret(secret: &[u8; 32]) -> (r: Option<Identity>)
        ensures
            r is Some <==> secret_public(secret@) is Some,
            r matches Some(identity) ==> identity.secret_bytes() == secret@ && secret_public(
                secret@,
            ) == Some(identity.public_bytes()),
    {
        match public_of(secret) {
            Some(bytes) => Some(Identity { secret: *secret, public: PublicKey { bytes } }),
            None => None,
        }
    }

    /// Reads an identity from its `nsec` text; white space in it does not count.
    pub fn parse_nsec(input: &str) -> (r: Result<Identity, String>)
        ensures
            match r {
                Ok(identity) => nsec_secret(input@) == Ok::<Seq<u8>, Seq<char>>(
                    identity.secret_bytes(),
                ) && secret_public(identity.secret_bytes()) == Some(identity.public_bytes()),
                Err(e) => nsec_secret(input@) == Err::<Seq<u8>, Seq<char>>(e@),
            },
    {
        let text = compact(input);
        if !has_prefix(text.as_str(), "nsec1") {
            return Err("identity private key must be an nsec".to_owned());
        }
        match parse_secret(text.as_str()) {
            Some(secret) => {
                let public = PublicKey { bytes: public_of(&secret).unwrap() };
                Ok(Identity { secret, public })
            },
            None => Err("invalid identity private key".to_owned()),
        }
    }

    /// The identity as `nsec` text. It parses to the same key again.
    pub fn to_nsec(&self) -> (r: String)
        ensures
            r@ == nsec_text(self.secret_bytes()),
            nsec_secret(r@) == Ok::<Seq<u8>, Seq<char>>(self.secret_bytes()),
    {
        proof {
            use_type_invariant(self);
        }
        let r = nsec_of(&self.secret);
        proof {
            compacting_keeps_tight_text(r@);
        }
        r
    }

    /// The identity's public key.
    pub fn public_key(&self) -> (r: PublicKey)
        ensures
            r@ == self.public_bytes(),
            secret_public(self.secret_bytes()) == Some(r@),
            curve_point(r@),
    {
        proof {
            use_type_invariant(self);
        }
        self.public
    }

    /// The public key in its bech32 form.
    pub fn to_npub(&self) -> (r: String)
        ensures
            r@ == npub_text(self.public_bytes()),
    {
        self.public.to_npub()
    }

    /// Mints a card valid for [`CARD_TTL_SECS`] from now.
    pub fn card(&self, name: &str, suffix: &str) -> (r: Result<IdentityCard, String>)
        ensures
            exists|now: u64| #[trigger] minted(self.public_bytes(), name@, suffix@, now, r),
    {
        let now: u64 = unix_now();
        self.mint(name, suffix, now)
    }

    /// Mints a card with an explicit issue time.
    pub fn card_issued_at(&self, name: &str, suffix: &str, issued_at: u64) -> (r: Result<
        IdentityCard,
        String,
    >)
        requires
            issued_at + CARD_TTL_SECS <= u64::MAX,
        ensures
            minted(self.public_bytes(), name@, suffix@, issued_at, r),
    {
        self.mint(name, suffix, issued_at)
    }

    fn mint(&self, name: &str, suffix: &str, issued_at: u64) -> (r: Result<IdentityCard, String>)
        ensures
            minted(self.public_bytes(), name@, suffix@, issued_at, r),
    {
        proof {
            use_type_invariant(self);
        }
        match validate_name(name) {
            Ok(()) => {},
            Err(e) => return Err(e),
        }
        let display = display_identity(name, suffix);
        match split_display_identity(display.as_str()) {
            Ok(_) => {},
            Err(e) => return Err(e),
        }
        let expires_at: u64 = match issued_at.checked_add(CARD_TTL_SECS) {
            Some(expires_at) => expires_at,
            None => return Err("identity card expiry is out of range".to_owned()),
        };
        let mut members: Vec<(String, String)> = Vec::new();
        members.push(("version".to_owned(), number(3)));
        members.push(("name".to_owned(), quote(display.as_str())));
        members.push(("expires_at".to_owned(), number(expires_at)));
        let content = object(&members);
        proof {
            reveal_strlit("duocb:identity-card:v3");
            card_fields_read_back(display@, expires_at);
            assert(members_view(members@) =~= member_texts(card_fields(display@, expires_at)));
            assert(content@ == object_text(card_fields(display@, expires_at)));
            only_valid_names_pass(name@);
            only_valid_suffixes_split(name@, suffix@);
            card_payloads_are_short(name@, suffix@, expires_at);
            ascii_takes_a_byte_each("duocb:identity-card:v3"@);
        }
        let json = sign_event(
            &self.secret,
            IDENTITY_CARD_KIND,
            content.as_str(),
            "duocb:identity-card:v3",
            None,
            expires_at,
            issued_at,
        );
        match read_event(json.as_str()) {
            Some(event) => IdentityCard::from_event(event),
            None => Err("identity card is not valid JSON".to_owned()),
        }
    }

    /// Signs a handshake transcript. The signature proves this identity and no
    /// other transcript's.
    pub fn sign_auth(&self, transcript: &[u8]) -> (r: String)
        ensures
            auth_signature_error(self.public_bytes(), transcript@, r@) is None,
    {
        proof {
            use_type_invariant(self);
        }
        let digest: [u8; 32] = auth_digest(transcript);
        schnorr_sign(&self.secret, &digest)
    }
}

impl Identity {
    /// Encrypts a text for the holder of `peer`. It fails where `peer` is no point on
    /// the curve, and on a text that is empty or longer than [`MAX_SEALED_BYTES`].
    pub fn seal_for(&self, peer: PublicKey, text: &str) -> (r: Option<String>)
        ensures
            r is Some <==> sealable(peer@, text@),
            r matches Some(sealed) ==> sealed_shape(text@, sealed@),
            r matches Some(sealed) ==> forall|secret: Seq<u8>| #[trigger]
                secret_public(secret) == Some(peer@) ==> opened(
                    secret,
                    self.public_bytes(),
                    sealed@,
                ) == Some(text@),
    {
        proof {
            use_type_invariant(self);
        }
        seal(&self.secret, &peer.bytes, text)
    }

    /// Decrypts a text that the holder of `author` encrypted for this identity.
    pub fn open_from(&self, author: PublicKey, sealed: &str) -> (r: Option<String>)
        ensures
            text_view(r) == opened(self.secret_bytes(), author@, sealed@),
    {
        proof {
            use_type_invariant(self);
        }
        unseal(&self.secret, &author.bytes, sealed)
    }

    /// Signs an event of this identity for `recipient`, in its JSON form.
    pub fn sign_record(
        &self,
        kind: u16,
        content: &str,
        identifier: &str,
        recipient: Option<PublicKey>,
        expires_at: u64,
        issued_at: u64,
    ) -> (r: String)
        requires
            identifier@.len() > 0,
        ensures
            event_of(r@) == Some(
                EventView {
                    public_key: self.public_bytes(),
                    created_at: issued_at,
                    kind,
                    identifier: Some(identifier@),
                    recipient: tagged_key(self.public_bytes(), key_view(recipient)),
                    expiration: Some(expires_at),
                    content: content@,
                    json: r@,
                },
            ),
            event_signed(r@),
    {
        proof {
            use_type_invariant(self);
        }
        sign_event(&self.secret, kind, content, identifier, recipient, expires_at, issued_at)
    }
}

/// What minting a card gives: the error of a bad name or suffix, that of an expiry which
/// does not fit sixty-four bits, and else a card with the name, the key, the issue time and
/// an expiry of exactly [`CARD_TTL_SECS`] later.
pub open spec fn minted(
    key: Seq<u8>,
    name: Seq<char>,
    suffix: Seq<char>,
    issued_at: u64,
    r: Result<IdentityCard, String>,
) -> bool {
    match name_error(name) {
        Some(e) => r is Err && r->Err_0@ == e,
        None => match split_identity(displayed(name, suffix)) {
            Err(e) => r is Err && r->Err_0@ == e,
            Ok(_) => if issued_at + CARD_TTL_SECS > u64::MAX {
                r is Err && r->Err_0@ == "identity card expiry is out of range"@
            } else {
                match r {
                    Ok(card) => {
                        &&& card@.public_key == key
                        &&& card@.name == displayed(name, suffix)
                        &&& card@.created_at == issued_at
                        &&& card@.expires_at == issued_at + CARD_TTL_SECS
                        &&& card_of_text(card@.json) == Ok::<CardView, Seq<char>>(card@)
                    },
                    Err(_) => false,
                }
            },
        },
    }
}

/// A valid name, a valid suffix and an expiry in range always give a card.
pub proof fn valid_names_are_minted(
    key: Seq<u8>,
    name: Seq<char>,
    suffix: Seq<char>,
    issued_at: u64,
    r: Result<IdentityCard, String>,
)
    requires
        minted(key, name, suffix, issued_at, r),
        issued_at + CARD_TTL_SECS <= u64::MAX,
    ensures
        r is Ok <==> valid_name(name) && valid_suffix(suffix),
{
    only_valid_names_pass(name);
    if valid_name(name) {
        only_valid_suffixes_split(name, suffix);
    }
}

// ---------------------------------------------------------------------------
// What keys, proofs and cards promise
// ---------------------------------------------------------------------------

/// A card may be acted on from five minutes before it was issued up to the second before it
/// expires, and at no other time.
pub proof fn cards_are_valid_until_they_expire(v: CardView, now: u64)
    ensures
        card_valid_at(v, now) <==> now < v.expires_at && v.created_at <= now + 300,
        v.created_at <= now < v.expires_at ==> card_valid_at(v, now),
        now >= v.expires_at ==> !card_valid_at(v, now),
{
}

/// A proof is accepted exactly where it is a signature, the key is one, and the signature
/// verifies under that key over the transcript in its own domain.
pub proof fn proofs_are_accepted_where_they_verify(
    key: Seq<u8>,
    transcript: Seq<u8>,
    signature: Seq<char>,
)
    ensures
        auth_signature_error(key, transcript, signature) is None <==> {
            &&& parsed_signature(signature) is Some
            &&& curve_point(key)
            &&& schnorr_holds(
                key,
                sha256(encode_utf8("duocb:key-auth:v3\0"@) + transcript),
                parsed_signature(signature)->0,
            )
        },
{
}

/// What is signed and what a fingerprint is taken over hold their transcript and their key
/// whole: different ones are told apart.
pub proof fn signed_and_shown_inputs_are_whole(a: Seq<u8>, b: Seq<u8>)
    ensures
        auth_input(a) == auth_input(b) ==> a == b,
        fingerprint_input(a) == fingerprint_input(b) ==> a == b,
{
    let d = encode_utf8("duocb:key-auth:v3\0"@);
    let f = encode_utf8("duocb:key-fingerprint:v1\0"@);
    assert((d + a).skip(d.len() as int) =~= a);
    assert((d + b).skip(d.len() as int) =~= b);
    assert((f + a).skip(f.len() as int) =~= a);
    assert((f + b).skip(f.len() as int) =~= b);
}

/// A fingerprint shows ten bytes of its digest, each by two digits: digests that look alike
/// agree in all ten.
pub proof fn fingerprints_show_ten_bytes(a: Seq<u8>, b: Seq<u8>)
    requires
        a.len() >= 10,
        b.len() >= 10,
        fingerprint_groups(a, 5) == fingerprint_groups(b, 5),
    ensures
        a.take(10) == b.take(10),
{
    reveal_with_fuel(fingerprint_groups, 6);
    let x = fingerprint_groups(a, 5);
    let y = fingerprint_groups(b, 5);
    assert forall|i: int| 0 <= i < 10 implies a[i] == b[i] by {
        let at: int = i / 2 * 5 + i % 2 * 2;
        assert(x[at] == upper_hex((a[i] / 16) as nat) && x[at + 1] == upper_hex(
            (a[i] % 16) as nat,
        ));
        assert(y[at] == upper_hex((b[i] / 16) as nat) && y[at + 1] == upper_hex(
            (b[i] % 16) as nat,
        ));
        upper_digits_are_unique((a[i] / 16) as nat, (b[i] / 16) as nat);
        upper_digits_are_unique((a[i] % 16) as nat, (b[i] % 16) as nat);
    }
    assert(a.take(10) =~= b.take(10));
}

proof fn upper_digits_are_unique(a: nat, b: nat)
    requires
        a < 16,
        b < 16,
        upper_hex(a) == upper_hex(b),
    ensures
        a == b,
{
}

/// A card's payload is taken exactly where it holds a version of thirty-two bits, a name and
/// an expiry and nothing else.
pub proof fn payloads_hold_three_fields(m: Map<Seq<char>, JsonValue>)
    ensures
        card_content(Some(m)) is Some <==> {
            &&& m.contains_key("version"@) && m["version"@] is Unsigned
            &&& m["version"@]->Unsigned_0 <= 0xffff_ffff
            &&& m.contains_key("name"@) && m["name"@] is Text
            &&& m.contains_key("expires_at"@) && m["expires_at"@] is Unsigned
            &&& m.dom().len() == 3
        },
        card_content(Some(m)) matches Some((version, name, expires_at)) ==> m["version"@]
            == JsonValue::Unsigned(version) && m["name"@] == JsonValue::Text(name)
            && m["expires_at"@] == JsonValue::Unsigned(expires_at),
        card_content(None) is None,
{
}

/// An event is a card exactly where it is well signed, is of the kind and under the
/// identifier of a card, carries a payload of the current version with a valid final name,
/// lives for at least a second and at most thirty days, says the same expiry in its tag, and
/// takes at most 2048 bytes; the card then holds what the event says.
pub proof fn well_made_events_are_cards(
    e: EventView,
    signed: bool,
    content: Option<Map<Seq<char>, JsonValue>>,
)
    ensures
        card_of_event(e, signed, content) is Ok <==> {
            &&& signed
            &&& e.kind == IDENTITY_CARD_KIND
            &&& e.identifier == Some("duocb:identity-card:v3"@)
            &&& card_content(content) matches Some((version, name, expires_at)) && {
                &&& version == 3
                &&& split_identity(name) is Ok
                &&& e.created_at < expires_at <= e.created_at + 2592000
                &&& e.expiration == Some(expires_at)
                &&& encode_utf8(e.json).len() <= 2048
            }
        },
        card_of_event(e, signed, content) matches Ok(card) ==> {
            &&& card_content(content) == Some((3u64, card.name, card.expires_at))
            &&& card.public_key == e.public_key
            &&& card.created_at == e.created_at
            &&& card.json == e.json
        },
{
}

/// A text is read as a card without regard to the white space around it: it is one exactly
/// where what is left takes at most 2048 bytes and is an event that is a card.
pub proof fn card_texts_are_read_trimmed(
    a: Seq<char>,
    text: Seq<char>,
    b: Seq<char>,
    card: CardView,
)
    requires
        forall|i: int| 0 <= i < a.len() ==> white_space(#[trigger] a[i]),
        forall|i: int| 0 <= i < b.len() ==> white_space(#[trigger] b[i]),
        text.len() > 0 ==> !white_space(text[0]) && !white_space(text.last()),
    ensures
        card_of_text(a + text + b) == card_of_text(text),
        card_of_text(text) == Ok::<CardView, Seq<char>>(card) <==> {
            &&& encode_utf8(text).len() <= 2048
            &&& event_of(text) is Some
            &&& card_of_event(
                event_of(text)->0,
                event_signed(text),
                parsed_object(encode_utf8(event_of(text)->0.content)),
            ) == Ok::<CardView, Seq<char>>(card)
        },
{
    crate::text::trimming_takes_only_the_ends(a, text, b);
}

/// A private key is read from its bech32 form whatever white space stands in it, and from no
/// other form.
pub proof fn private_keys_are_read_from_their_nsec(input: Seq<char>, secret: Seq<u8>)
    ensures
        nsec_secret(input) == Ok::<Seq<u8>, Seq<char>>(secret) <==> {
            &&& compacted(input).len() >= 5 && compacted(input).take(5) == "nsec1"@
            &&& parsed_secret(compacted(input)) == Some(secret)
        },
{
    reveal_strlit("nsec1");
    let text = compacted(input);
    if text.len() >= 5 {
        assert(text.take(5) == text.subrange(0, 5));
    }
    assert("nsec1"@.is_prefix_of(text) <==> text.len() >= 5 && text.take(5) =~= "nsec1"@);
}

/// A minted card is for the key that signs it, under the name and the suffix it was asked
/// for, from its issue on for thirty days, and its text is read as that card again.
pub proof fn minted_cards_say_what_was_asked(
    key: Seq<u8>,
    name: Seq<char>,
    suffix: Seq<char>,
    issued_at: u64,
    card: IdentityCard,
)
    requires
        minted(key, name, suffix, issued_at, Ok(card)),
    ensures
        card@.public_key == key,
        card@.name == name + seq!['_'] + suffix,
        card@.created_at == issued_at,
        card@.expires_at == issued_at + 2592000,
        card_of_text(card@.json) == Ok::<CardView, Seq<char>>(card@),
        card_valid_at(card@, issued_at),
{
}

/// A card that is not minted is refused for what is wrong with it: its name, its suffix, or
/// an expiry that no time can hold.
pub proof fn refused_mintings_say_why(
    key: Seq<u8>,
    name: Seq<char>,
    suffix: Seq<char>,
    issued_at: u64,
    reason: String,
)
    requires
        minted(key, name, suffix, issued_at, Err(reason)),
    ensures
        name_error(name) matches Some(e) ==> reason@ == e,
        name_error(name) is None ==> (split_identity(name + seq!['_'] + suffix) matches Err(e)
            ==> reason@ == e),
        name_error(name) is None && split_identity(name + seq!['_'] + suffix) is Ok ==> issued_at
            + 2592000 > u64::MAX && reason@ == "identity card expiry is out of range"@,
{
}

/// An event names the recipient that it is meant for, unless that is its own author.
pub proof fn events_name_their_recipient(author: Seq<u8>, recipient: Seq<u8>)
    ensures
        recipient != author ==> tagged_key(author, Some(recipient)) == Some(recipient),
        tagged_key(author, Some(author)) is None,
        tagged_key(author, None) is None,
{
}

} // verus!
