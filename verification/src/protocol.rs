//! The duocb wire protocol: length-prefixed JSON frames.
//!
//! Every frame is a four-byte big-endian length followed by that many bytes of
//! JSON. Control frames and clipboard frames have separate size caps, and every
//! frame carries the protocol version, which is checked on decode.

use vstd::prelude::*;
use vstd::slice::*;
use vstd::string::*;
use vstd::utf8::*;

use crate::json::{
    bool_at, bool_field, boolean, field_map, member_texts, members_view, number, object,
    object_fields, object_text, optional_text_at, optional_text_field, parse_object, parsed_object,
    quote, short_at, short_field, text_at, text_field, text_view, unsigned_at, unsigned_field,
    writable, Fields, JsonValue,
};
use crate::text::{decimal, push_decimal};

verus! {

/// Protocol version carried in every frame and validated on decode.
pub const DUOCB_PROTO_VERSION: u16 = 2;

/// Cap for control frames (auth/pin).
pub const MAX_CONTROL_MESSAGE_SIZE: usize = 16384;

/// Cap for clipboard frames: the encoded frame, not the raw text.
pub const MAX_CLIP_MESSAGE_SIZE: usize = 1048576;

/// Maximum length of a rejection reason, in bytes.
pub const MAX_REJECT_REASON_LENGTH: usize = 512;

// ---------------------------------------------------------------------------
// Frames
// ---------------------------------------------------------------------------

/// `n` as four bytes, the most significant first.
pub open spec fn be32(n: nat) -> Seq<u8> {
    seq![
        (n / 16777216) as u8,
        (n / 65536 % 256) as u8,
        (n / 256 % 256) as u8,
        (n % 256) as u8,
    ]
}

/// The number that the first four bytes of `b` stand for.
pub open spec fn be32_value(b: Seq<u8>) -> nat {
    (b[0] * 16777216 + b[1] * 65536 + b[2] * 256 + b[3]) as nat
}

/// The frame around `body`.
pub open spec fn frame(body: Seq<u8>) -> Seq<u8> {
    be32(body.len()) + body
}

/// The body of the frame that `data` is, or why it is none.
pub open spec fn frame_body(data: Seq<u8>, max: nat, name: Seq<char>) -> Result<
    Seq<u8>,
    Seq<char>,
> {
    if data.len() < 4 {
        Err(name + " too short: "@ + decimal(data.len()) + " bytes"@)
    } else {
        let len = be32_value(data);
        if len > max {
            Err(name + " length too large: "@ + decimal(len) + " bytes"@)
        } else if data.len() < 4 + len {
            Err(
                name + " incomplete: expected "@ + decimal(4 + len) + " bytes, got "@ + decimal(
                    data.len(),
                ),
            )
        } else if data.len() > 4 + len {
            Err(
                name + " has "@ + decimal((data.len() - (4 + len)) as nat)
                    + " trailing byte(s) after the frame"@,
            )
        } else {
            Ok(data.subrange(4, data.len() as int))
        }
    }
}

/// The four-byte prefix of a number below 2^32 stands for that number.
pub proof fn be32_reads_back(n: nat)
    requires
        n < 0x1_0000_0000,
    ensures
        be32_value(be32(n)) == n,
        be32(n).len() == 4,
{
}

/// The prefix of the number that four bytes stand for is those four bytes.
#[verifier::spinoff_prover]
#[verifier::rlimit(50)]
proof fn be32_of_value(b: Seq<u8>)
    requires
        b.len() >= 4,
    ensures
        be32(be32_value(b)) == b.take(4),
{
    let n = be32_value(b);
    let low: int = b[1] * 65536 + b[2] * 256 + b[3];
    let lower: int = b[2] * 256 + b[3];
    assert(n / 16777216 == b[0] && n % 16777216 == low) by {
        vstd::arithmetic::div_mod::lemma_fundamental_div_mod_converse(
            n as int,
            16777216,
            b[0] as int,
            low,
        );
    }
    assert(n / 65536 == b[0] * 256 + b[1] && n % 65536 == lower) by {
        vstd::arithmetic::div_mod::lemma_fundamental_div_mod_converse(
            n as int,
            65536,
            b[0] * 256 + b[1],
            lower,
        );
    }
    assert(n / 256 == b[0] * 65536 + b[1] * 256 + b[2] && n % 256 == b[3]) by {
        vstd::arithmetic::div_mod::lemma_fundamental_div_mod_converse(
            n as int,
            256,
            b[0] * 65536 + b[1] * 256 + b[2],
            b[3] as int,
        );
    }
    assert((b[0] * 256 + b[1]) % 256 == b[1]) by {
        vstd::arithmetic::div_mod::lemma_fundamental_div_mod_converse(
            b[0] * 256 + b[1],
            256,
            b[0] as int,
            b[1] as int,
        );
    }
    assert((b[0] * 65536 + b[1] * 256 + b[2]) % 256 == b[2]) by {
        vstd::arithmetic::div_mod::lemma_fundamental_div_mod_converse(
            b[0] * 65536 + b[1] * 256 + b[2],
            256,
            b[0] * 256 + b[1],
            b[2] as int,
        );
    }
    assert(be32(n) =~= b.take(4));
}

/// A frame opens to exactly the body it was made of, whatever name it is
/// reported under, as long as the body is within the cap.
pub proof fn frame_opens_to_its_body(body: Seq<u8>, max: nat, name: Seq<char>)
    requires
        body.len() <= max < 0x1_0000_0000,
    ensures
        frame_body(frame(body), max, name) == Ok::<Seq<u8>, Seq<char>>(body),
{
    be32_reads_back(body.len());
    assert(be32_value(frame(body)) == be32_value(be32(body.len())));
    assert(frame(body).subrange(4, frame(body).len() as int) =~= body);
}

/// A buffer that opens as a frame is the frame around the body it opens to, so
/// two different buffers never open to the same body.
pub proof fn opened_frame_is_canonical(data: Seq<u8>, max: nat, name: Seq<char>)
    requires
        frame_body(data, max, name) is Ok,
    ensures
        data == frame(frame_body(data, max, name)->Ok_0),
        frame_body(data, max, name)->Ok_0.len() <= max,
{
    let body = frame_body(data, max, name)->Ok_0;
    be32_of_value(data);
    assert(data =~= frame(body));
}

/// Bytes behind a complete frame are refused, not ignored.
pub proof fn trailing_bytes_are_refused(
    body: Seq<u8>,
    trailing: Seq<u8>,
    max: nat,
    name: Seq<char>,
)
    requires
        body.len() <= max < 0x1_0000_0000,
        trailing.len() > 0,
    ensures
        frame_body(frame(body) + trailing, max, name) == Err::<Seq<u8>, Seq<char>>(
            name + " has "@ + decimal(trailing.len()) + " trailing byte(s) after the frame"@,
        ),
{
    be32_reads_back(body.len());
    assert(be32_value(frame(body) + trailing) == be32_value(be32(body.len())));
}

fn message3(a: &str, b: &str, n: usize, c: &str) -> (r: String)
    ensures
        r@ == a@ + b@ + decimal(n as nat) + c@,
{
    let mut out = String::new();
    out.append(a);
    out.append(b);
    push_decimal(&mut out, n as u64);
    out.append(c);
    out
}

/// The length that a four-byte prefix announces.
fn prefix_length(data: &[u8]) -> (r: usize)
    requires
        data@.len() >= 4,
    ensures
        r == be32_value(data@),
{
    let len: u32 = data[0] as u32 * 16777216 + data[1] as u32 * 65536 + data[2] as u32 * 256
        + data[3] as u32;
    len as usize
}

/// The length that a frame's prefix announces, refused above `max`: how many
/// more bytes a reader takes from its stream before it has the frame.
pub fn announced_length(prefix: &[u8], max: usize) -> (r: Result<usize, String>)
    requires
        prefix@.len() == 4,
    ensures
        match r {
            Ok(len) => len == be32_value(prefix@) && len <= max,
            Err(e) => be32_value(prefix@) > max && e@ == "Message length too large: "@ + decimal(
                be32_value(prefix@),
            ) + " bytes"@,
        },
{
    let len: usize = prefix_length(prefix);
    if len > max {
        let mut out = "Message length too large: ".to_owned();
        push_decimal(&mut out, len as u64);
        out.append(" bytes");
        return Err(out);
    }
    Ok(len)
}

/// Opens the frame that `data` is.
pub fn open_frame<'a>(data: &'a [u8], max: usize, name: &str) -> (r: Result<&'a [u8], String>)
    requires
        max + 4 <= usize::MAX,
    ensures
        match r {
            Ok(body) => frame_body(data@, max as nat, name@) == Ok::<Seq<u8>, Seq<char>>(body@),
            Err(e) => frame_body(data@, max as nat, name@) == Err::<Seq<u8>, Seq<char>>(e@),
        },
{
    if data.len() < 4 {
        return Err(message3(name, " too short: ", data.len(), " bytes"));
    }
    let len: usize = prefix_length(data);
    if len > max {
        return Err(message3(name, " length too large: ", len, " bytes"));
    }
    if data.len() < 4 + len {
        let mut out = message3(name, " incomplete: expected ", 4 + len, " bytes, got ");
        push_decimal(&mut out, data.len() as u64);
        return Err(out);
    }
    if data.len() > 4 + len {
        return Err(
            message3(name, " has ", data.len() - (4 + len), " trailing byte(s) after the frame"),
        );
    }
    Ok(slice_subrange(data, 4, data.len()))
}

// ---------------------------------------------------------------------------
// Rejection reasons
// ---------------------------------------------------------------------------

/// The last character boundary of the UTF-8 text `b` at or before `i`.
pub open spec fn floor_boundary(b: Seq<u8>, i: nat) -> nat
    decreases i,
{
    if i >= b.len() {
        b.len()
    } else if i == 0 || is_char_boundary(b, i as int) {
        i
    } else {
        floor_boundary(b, (i - 1) as nat)
    }
}

/// How many bytes of a reason survive next to the three dots.
pub open spec fn kept_length(max: nat) -> nat {
    if max >= 3 {
        (max - 3) as nat
    } else {
        0
    }
}

/// The reason `s`, cut at a character boundary and ended with three dots where
/// it takes more than `max` bytes.
pub open spec fn truncated(s: Seq<char>, max: nat) -> Seq<char> {
    let bytes = encode_utf8(s);
    if bytes.len() > max {
        decode_utf8(bytes.take(floor_boundary(bytes, kept_length(max)) as int)) + "..."@
    } else {
        s
    }
}

proof fn floor_boundary_is_boundary(b: Seq<u8>, i: nat)
    requires
        valid_utf8(b),
    ensures
        is_char_boundary(b, floor_boundary(b, i) as int),
        floor_boundary(b, i) <= i || floor_boundary(b, i) == b.len(),
        floor_boundary(b, i) <= b.len(),
        i < b.len() ==> floor_boundary(b, i) <= i,
    decreases i,
{
    is_char_boundary_start_end_of_seq(b);
    if i < b.len() && i > 0 && !is_char_boundary(b, i as int) {
        floor_boundary_is_boundary(b, (i - 1) as nat);
    }
}

/// A reason is cut to at most `max` bytes, and what is kept of it is a prefix of
/// its characters.
pub proof fn truncation_fits_and_keeps_a_prefix(s: Seq<char>, max: nat)
    requires
        max >= 3,
    ensures
        encode_utf8(truncated(s, max)).len() <= max,
        encode_utf8(s).len() <= max ==> truncated(s, max) == s,
        encode_utf8(s).len() > max ==> exists|k: int|
            0 <= k <= s.len() && truncated(s, max) == #[trigger] s.take(k) + "..."@,
{
    let bytes = encode_utf8(s);
    if bytes.len() > max {
        let at = floor_boundary(bytes, kept_length(max));
        let kept = decode_utf8(bytes.take(at as int));
        encode_utf8_valid_utf8(s);
        floor_boundary_is_boundary(bytes, kept_length(max));
        decode_utf8_split(bytes, at as int);
        valid_utf8_split(bytes, at as int);
        encode_utf8_decode_utf8(s);
        assert(bytes.take(at as int) =~= bytes.subrange(0, at as int));
        decode_utf8_encode_utf8(bytes.take(at as int));
        crate::text::encode_utf8_of_concat(kept, "..."@);
        reveal_strlit("...");
        is_ascii_chars_encode_utf8("..."@);
        assert(s.take(kept.len() as int) =~= kept);
    }
}

/// Cuts a rejection reason to `max_len` bytes at a character boundary.
pub fn truncate_reason(reason: String, max_len: usize) -> (r: String)
    ensures
        r@ == truncated(reason@, max_len as nat),
{
    let text: &str = reason.as_str();
    let ghost bytes = text.spec_bytes();
    let total: usize = text.as_bytes().len();
    if total > max_len {
        let keep: usize = max_len.saturating_sub(3);
        let mut at: usize = keep;
        proof {
            encode_utf8_valid_utf8(reason@);
            is_char_boundary_start_end_of_seq(bytes);
        }
        while at > 0 && !text.is_char_boundary(at)
            invariant
                bytes == text.spec_bytes(),
                at <= keep < bytes.len(),
                floor_boundary(bytes, at as nat) == floor_boundary(bytes, keep as nat),
            decreases at,
        {
            at -= 1;
        }
        let (kept, _) = text.split_at(at);
        proof {
            encode_utf8_decode_utf8(kept@);
            assert(bytes.subrange(0, at as int) =~= bytes.take(at as int));
        }
        let mut out = kept.to_owned();
        out.append("...");
        out
    } else {
        reason
    }
}

// ---------------------------------------------------------------------------
// Messages
// ---------------------------------------------------------------------------

/// A message of the protocol: a flat JSON object that carries a version.
pub trait Message: View + Sized {
    /// The name under which errors report the message.
    spec fn report_name() -> Seq<char>;

    /// The fields of the message, in the order in which they are written.
    spec fn fields_of(v: Self::V) -> Fields;

    /// The message that an object stands for, if it stands for one.
    spec fn of_fields(m: Map<Seq<char>, JsonValue>) -> Option<Self::V>;

    /// The version that the message carries.
    spec fn version_of(v: Self::V) -> u16;

    /// The fields of a message stand for that message.
    proof fn fields_read_back(v: Self::V)
        ensures
            writable(Self::fields_of(v)),
            Self::of_fields(field_map(Self::fields_of(v))) == Some(v),
    ;

    fn name() -> (r: String)
        ensures
            r@ == Self::report_name(),
    ;

    /// The rendered members of the message.
    fn members(&self) -> (r: Vec<(String, String)>)
        ensures
            members_view(r@) == member_texts(Self::fields_of(self@)),
    ;

    fn from_object(m: &serde_json::Map<String, serde_json::Value>) -> (r: Option<Self>)
        ensures
            r is Some <==> Self::of_fields(object_fields(*m)) is Some,
            r matches Some(d) ==> Self::of_fields(object_fields(*m)) == Some(d@),
    ;

    fn carried_version(&self) -> (r: u16)
        ensures
            r == Self::version_of(self@),
    ;
}

/// The JSON bytes of a message.
pub open spec fn message_json<T: Message>(v: T::V) -> Seq<u8> {
    encode_utf8(object_text(T::fields_of(v)))
}

/// The frame around a body of at most `max` bytes, or why there is none.
pub open spec fn framed(body: Seq<u8>, max: nat, name: Seq<char>) -> Result<Seq<u8>, Seq<char>> {
    if body.len() > max {
        Err(name + " too large: "@ + decimal(body.len()) + " bytes"@)
    } else {
        Ok(frame(body))
    }
}

/// The frame that a message is sent in, or why it is not sent.
pub open spec fn encoded<T: Message>(v: T::V, max: nat) -> Result<Seq<u8>, Seq<char>> {
    framed(message_json::<T>(v), max, T::report_name())
}

/// Why a message that carries `version` is refused, or `None`.
pub open spec fn version_error(version: u16, name: Seq<char>) -> Option<Seq<char>> {
    if version != DUOCB_PROTO_VERSION {
        Some(
            name + " version mismatch: expected "@ + decimal(DUOCB_PROTO_VERSION as nat)
                + ", got "@ + decimal(version as nat),
        )
    } else {
        None
    }
}

/// The message that a frame's body stands for, or why it stands for none.
pub open spec fn read_body<T: Message>(parsed: Option<Map<Seq<char>, JsonValue>>) -> Result<
    T::V,
    Seq<char>,
> {
    match parsed {
        None => Err("Invalid "@ + T::report_name() + " JSON"@),
        Some(m) => match T::of_fields(m) {
            None => Err("Invalid "@ + T::report_name() + " JSON"@),
            Some(v) => match version_error(T::version_of(v), T::report_name()) {
                Some(e) => Err(e),
                None => Ok(v),
            },
        },
    }
}

/// The message received in `data`, or why it is refused.
pub open spec fn decoded<T: Message>(data: Seq<u8>, max: nat) -> Result<T::V, Seq<char>> {
    match frame_body(data, max, T::report_name()) {
        Err(e) => Err(e),
        Ok(body) => read_body::<T>(parsed_object(body)),
    }
}

/// The view of a decoding outcome.
pub open spec fn outcome<T: View>(r: Result<T, String>) -> Result<T::V, Seq<char>> {
    match r {
        Ok(v) => Ok(v@),
        Err(e) => Err(e@),
    }
}

/// Puts a body of at most `max` bytes in a frame.
pub fn frame_of(body: &[u8], max: usize, name: &str) -> (r: Result<Vec<u8>, String>)
    requires
        max < 0xffff_fff0,
    ensures
        match r {
            Ok(data) => framed(body@, max as nat, name@) == Ok::<Seq<u8>, Seq<char>>(data@),
            Err(e) => framed(body@, max as nat, name@) == Err::<Seq<u8>, Seq<char>>(e@),
        },
{
    let len: usize = body.len();
    if len > max {
        return Err(message3(name, " too large: ", len, " bytes"));
    }
    let mut buf: Vec<u8> = Vec::with_capacity(4 + len);
    buf.push((len / 16777216) as u8);
    buf.push((len / 65536 % 256) as u8);
    buf.push((len / 256 % 256) as u8);
    buf.push((len % 256) as u8);
    buf.extend_from_slice(body);
    assert(buf@ =~= frame(body@));
    Ok(buf)
}

/// Holds the version that a message carries against this protocol's.
pub fn check_version(version: u16, name: &str) -> (r: Result<(), String>)
    ensures
        match r {
            Ok(()) => version_error(version, name@) is None,
            Err(e) => version_error(version, name@) == Some(e@),
        },
{
    if version != DUOCB_PROTO_VERSION {
        let mut out = message3(
            name,
            " version mismatch: expected ",
            DUOCB_PROTO_VERSION as usize,
            ", got ",
        );
        push_decimal(&mut out, version as u64);
        Err(out)
    } else {
        Ok(())
    }
}

/// Encodes a message as length-prefixed JSON bytes, capped at `max` JSON bytes.
fn encode_length_prefixed<T: Message>(value: &T, max: usize) -> (r: Result<Vec<u8>, String>)
    requires
        max < 0xffff_fff0,
    ensures
        outcome(r) == encoded::<T>(value@, max as nat),
{
    let members = value.members();
    let text = object(&members);
    let name = T::name();
    frame_of(text.as_str().as_bytes(), max, name.as_str())
}

/// Decodes a length-prefixed JSON message with version validation.
fn decode_length_prefixed<T: Message>(data: &[u8], max: usize) -> (r: Result<T, String>)
    requires
        max < 0xffff_fff0,
    ensures
        outcome(r) == decoded::<T>(data@, max as nat),
        forall|v: T::V|
            T::version_of(v) == DUOCB_PROTO_VERSION && #[trigger] encoded::<T>(v, max as nat) == Ok::<
                Seq<u8>,
                Seq<char>,
            >(data@) ==> outcome(r) == Ok::<T::V, Seq<char>>(v),
{
    let name = T::name();
    let body: &[u8] = match open_frame(data, max, name.as_str()) {
        Ok(body) => body,
        Err(e) => {
            proof {
                assert forall|v: T::V| #[trigger]
                    encoded::<T>(v, max as nat) == Ok::<Seq<u8>, Seq<char>>(data@) implies false by {
                    frame_opens_to_its_body(message_json::<T>(v), max as nat, name@);
                }
            }
            return Err(e);
        },
    };
    let parsed = parse_object(body);
    proof {
        assert forall|v: T::V|
            T::version_of(v) == DUOCB_PROTO_VERSION && #[trigger] encoded::<T>(v, max as nat) == Ok::<
                Seq<u8>,
                Seq<char>,
            >(data@) implies decoded::<T>(data@, max as nat) == Ok::<T::V, Seq<char>>(v) by {
            frame_opens_to_its_body(message_json::<T>(v), max as nat, name@);
            T::fields_read_back(v);
            assert(body@ == encode_utf8(object_text(T::fields_of(v))));
        }
    }
    let value: Option<T> = match parsed {
        Ok(m) => T::from_object(&m),
        Err(_) => None,
    };
    match value {
        None => {
            let mut out = "Invalid ".to_owned();
            out.append(name.as_str());
            out.append(" JSON");
            Err(out)
        },
        Some(value) => match check_version(value.carried_version(), name.as_str()) {
            Ok(()) => Ok(value),
            Err(e) => Err(e),
        },
    }
}

/// The keys of the messages are pairwise different.
proof fn distinct_keys()
    ensures
        "method"@ != "version"@,
        "method"@ != "auth_token"@,
        "method"@ != "nonce"@,
        "version"@ != "auth_token"@,
        "version"@ != "nonce"@,
        "version"@ != "proof"@,
        "version"@ != "accepted"@,
        "version"@ != "reason"@,
        "version"@ != "kind"@,
        "version"@ != "text"@,
        "version"@ != "sent_at_ms"@,
        "accepted"@ != "reason"@,
        "accepted"@ != "proof"@,
        "reason"@ != "proof"@,
        "kind"@ != "text"@,
        "kind"@ != "sent_at_ms"@,
        "text"@ != "sent_at_ms"@,
        "Token"@ != "Pin"@,
        "item"@ != "pull_latest"@,
        "item"@ != "latest"@,
        "latest"@ != "pull_latest"@,
{
    reveal_strlit("method");
    reveal_strlit("version");
    reveal_strlit("auth_token");
    reveal_strlit("nonce");
    reveal_strlit("proof");
    reveal_strlit("accepted");
    reveal_strlit("reason");
    reveal_strlit("kind");
    reveal_strlit("text");
    reveal_strlit("sent_at_ms");
    reveal_strlit("Token");
    reveal_strlit("Pin");
    reveal_strlit("item");
    reveal_strlit("pull_latest");
    reveal_strlit("latest");
    assert("method"@[0] == 'm');
    assert("version"@[0] == 'v');
    assert("accepted"@[1] == 'c');
    assert("auth_token"@[1] == 'u');
    assert("Token"@[0] == 'T');
    assert("Pin"@[0] == 'P');
    assert("item"@[0] == 'i');
    assert("latest"@[0] == 'l');
    assert("pull_latest"@[0] == 'p');
    assert("reason"@[0] == 'r');
    assert("nonce"@[0] == 'n');
    assert("proof"@[0] == 'p');
    assert("kind"@[0] == 'k');
    assert("text"@[0] == 't');
    assert("auth_token"@[0] == 'a');
    assert("sent_at_ms"@[0] == 's');
}

/// The map of two fields.
proof fn fields_of_two(f: Fields)
    requires
        f.len() == 2,
    ensures
        field_map(f) == Map::<Seq<char>, JsonValue>::empty().insert(f[0].0, f[0].1).insert(
            f[1].0,
            f[1].1,
        ),
{
    reveal_with_fuel(field_map, 3);
}

/// Listener's reply to a PIN [`AuthRequest`], carrying its own challenge nonce.
pub struct PinChallenge {
    pub version: u16,
    /// The listener's random challenge nonce (base64url).
    pub nonce: String,
}

/// The contents of a [`PinChallenge`].
pub struct PinChallengeView {
    pub version: u16,
    pub nonce: Seq<char>,
}

impl View for PinChallenge {
    type V = PinChallengeView;

    open spec fn view(&self) -> PinChallengeView {
        PinChallengeView { version: self.version, nonce: self.nonce@ }
    }
}

impl PinChallenge {
    /// A challenge with the given nonce, at the current protocol version.
    pub fn new(nonce: &str) -> (r: Self)
        ensures
            r@ == (PinChallengeView { version: DUOCB_PROTO_VERSION, nonce: nonce@ }),
    {
        PinChallenge { version: DUOCB_PROTO_VERSION, nonce: nonce.to_owned() }
    }
}

impl Message for PinChallenge {
    open spec fn report_name() -> Seq<char> {
        "PinChallenge"@
    }

    open spec fn fields_of(v: PinChallengeView) -> Fields {
        seq![
            ("version"@, JsonValue::Unsigned(v.version as u64)),
            ("nonce"@, JsonValue::Text(v.nonce)),
        ]
    }

    open spec fn of_fields(m: Map<Seq<char>, JsonValue>) -> Option<PinChallengeView> {
        match (short_at(m, "version"@), text_at(m, "nonce"@)) {
            (Some(version), Some(nonce)) => Some(PinChallengeView { version, nonce }),
            _ => None,
        }
    }

    open spec fn version_of(v: PinChallengeView) -> u16 {
        v.version
    }

    proof fn fields_read_back(v: PinChallengeView) {
        distinct_keys();
        fields_of_two(Self::fields_of(v));
    }

    fn name() -> (r: String) {
        "PinChallenge".to_owned()
    }

    fn members(&self) -> (r: Vec<(String, String)>) {
        let mut r: Vec<(String, String)> = Vec::new();
        r.push(("version".to_owned(), number(self.version as u64)));
        r.push(("nonce".to_owned(), quote(self.nonce.as_str())));
        assert(members_view(r@) =~= member_texts(Self::fields_of(self@)));
        r
    }

    fn from_object(m: &serde_json::Map<String, serde_json::Value>) -> (r: Option<Self>) {
        match (short_field(m, "version"), text_field(m, "nonce")) {
            (Some(version), Some(nonce)) => Some(PinChallenge { version, nonce }),
            _ => None,
        }
    }

    fn carried_version(&self) -> (r: u16) {
        self.version
    }
}

/// Dialer's proof of PIN possession, in reply to a [`PinChallenge`].
pub struct PinResponse {
    pub version: u16,
    /// Sealed proof over the two nonces under the PIN-derived key.
    pub proof: String,
}

/// The contents of a [`PinResponse`].
pub struct PinResponseView {
    pub version: u16,
    pub proof: Seq<char>,
}

impl View for PinResponse {
    type V = PinResponseView;

    open spec fn view(&self) -> PinResponseView {
        PinResponseView { version: self.version, proof: self.proof@ }
    }
}

impl PinResponse {
    /// A response with the given proof, at the current protocol version.
    pub fn new(proof: &str) -> (r: Self)
        ensures
            r@ == (PinResponseView { version: DUOCB_PROTO_VERSION, proof: proof@ }),
    {
        PinResponse { version: DUOCB_PROTO_VERSION, proof: proof.to_owned() }
    }
}

impl Message for PinResponse {
    open spec fn report_name() -> Seq<char> {
        "PinResponse"@
    }

    open spec fn fields_of(v: PinResponseView) -> Fields {
        seq![
            ("version"@, JsonValue::Unsigned(v.version as u64)),
            ("proof"@, JsonValue::Text(v.proof)),
        ]
    }

    open spec fn of_fields(m: Map<Seq<char>, JsonValue>) -> Option<PinResponseView> {
        match (short_at(m, "version"@), text_at(m, "proof"@)) {
            (Some(version), Some(proof)) => Some(PinResponseView { version, proof }),
            _ => None,
        }
    }

    open spec fn version_of(v: PinResponseView) -> u16 {
        v.version
    }

    proof fn fields_read_back(v: PinResponseView) {
        distinct_keys();
        fields_of_two(Self::fields_of(v));
    }

    fn name() -> (r: String) {
        "PinResponse".to_owned()
    }

    fn members(&self) -> (r: Vec<(String, String)>) {
        let mut r: Vec<(String, String)> = Vec::new();
        r.push(("version".to_owned(), number(self.version as u64)));
        r.push(("proof".to_owned(), quote(self.proof.as_str())));
        assert(members_view(r@) =~= member_texts(Self::fields_of(self@)));
        r
    }

    fn from_object(m: &serde_json::Map<String, serde_json::Value>) -> (r: Option<Self>) {
        match (short_field(m, "version"), text_field(m, "proof")) {
            (Some(version), Some(proof)) => Some(PinResponse { version, proof }),
            _ => None,
        }
    }

    fn carried_version(&self) -> (r: u16) {
        self.version
    }
}

/// A field that is left out where it has no value.
pub open spec fn optional_field(key: Seq<char>, v: Option<Seq<char>>) -> Fields {
    match v {
        Some(t) => seq![(key, JsonValue::Text(t))],
        None => Seq::empty(),
    }
}

/// Adding a field to an object.
proof fn field_map_push(f: Fields, key: Seq<char>, v: JsonValue)
    ensures
        field_map(f + seq![(key, v)]) == field_map(f).insert(key, v),
        field_map(f + Seq::<(Seq<char>, JsonValue)>::empty()) == field_map(f),
{
    assert((f + seq![(key, v)]).drop_last() =~= f);
    assert(f + Seq::<(Seq<char>, JsonValue)>::empty() =~= f);
}

/// Listener's final PIN-auth verdict. On success it carries the listener's own
/// proof, so that the dialer can confirm that the listener also holds the PIN.
pub struct PinConfirm {
    pub version: u16,
    pub accepted: bool,
    pub reason: Option<String>,
    pub proof: Option<String>,
}

/// The contents of a [`PinConfirm`].
pub struct PinConfirmView {
    pub version: u16,
    pub accepted: bool,
    pub reason: Option<Seq<char>>,
    pub proof: Option<Seq<char>>,
}

impl View for PinConfirm {
    type V = PinConfirmView;

    open spec fn view(&self) -> PinConfirmView {
        PinConfirmView {
            version: self.version,
            accepted: self.accepted,
            reason: text_view(self.reason),
            proof: text_view(self.proof),
        }
    }
}

impl PinConfirm {
    /// An acceptance that carries the listener's proof.
    pub fn accepted(proof: &str) -> (r: Self)
        ensures
            r@ == (PinConfirmView {
                version: DUOCB_PROTO_VERSION,
                accepted: true,
                reason: None,
                proof: Some(proof@),
            }),
    {
        PinConfirm {
            version: DUOCB_PROTO_VERSION,
            accepted: true,
            reason: None,
            proof: Some(proof.to_owned()),
        }
    }

    /// A rejection with the given reason, cut to [`MAX_REJECT_REASON_LENGTH`].
    pub fn rejected(reason: &str) -> (r: Self)
        ensures
            r@ == (PinConfirmView {
                version: DUOCB_PROTO_VERSION,
                accepted: false,
                reason: Some(truncated(reason@, MAX_REJECT_REASON_LENGTH as nat)),
                proof: None,
            }),
    {
        PinConfirm {
            version: DUOCB_PROTO_VERSION,
            accepted: false,
            reason: Some(truncate_reason(reason.to_owned(), MAX_REJECT_REASON_LENGTH)),
            proof: None,
        }
    }
}

impl Message for PinConfirm {
    open spec fn report_name() -> Seq<char> {
        "PinConfirm"@
    }

    open spec fn fields_of(v: PinConfirmView) -> Fields {
        seq![
            ("version"@, JsonValue::Unsigned(v.version as u64)),
            ("accepted"@, JsonValue::Bool(v.accepted)),
        ] + optional_field("reason"@, v.reason) + optional_field("proof"@, v.proof)
    }

    open spec fn of_fields(m: Map<Seq<char>, JsonValue>) -> Option<PinConfirmView> {
        match (
            short_at(m, "version"@),
            bool_at(m, "accepted"@),
            optional_text_at(m, "reason"@),
            optional_text_at(m, "proof"@),
        ) {
            (Some(version), Some(accepted), Some(reason), Some(proof)) => Some(
                PinConfirmView { version, accepted, reason, proof },
            ),
            _ => None,
        }
    }

    open spec fn version_of(v: PinConfirmView) -> u16 {
        v.version
    }

    proof fn fields_read_back(v: PinConfirmView) {
        distinct_keys();
        let base: Fields = seq![
            ("version"@, JsonValue::Unsigned(v.version as u64)),
            ("accepted"@, JsonValue::Bool(v.accepted)),
        ];
        fields_of_two(base);
        let with_reason = base + optional_field("reason"@, v.reason);
        field_map_push(base, "reason"@, JsonValue::Text(v.reason->0));
        field_map_push(with_reason, "proof"@, JsonValue::Text(v.proof->0));
    }

    fn name() -> (r: String) {
        "PinConfirm".to_owned()
    }

    fn members(&self) -> (r: Vec<(String, String)>) {
        let mut r: Vec<(String, String)> = Vec::new();
        r.push(("version".to_owned(), number(self.version as u64)));
        r.push(("accepted".to_owned(), boolean(self.accepted)));
        if let Some(reason) = &self.reason {
            r.push(("reason".to_owned(), quote(reason.as_str())));
        }
        if let Some(proof) = &self.proof {
            r.push(("proof".to_owned(), quote(proof.as_str())));
        }
        assert(members_view(r@) =~= member_texts(Self::fields_of(self@)));
        r
    }

    fn from_object(m: &serde_json::Map<String, serde_json::Value>) -> (r: Option<Self>) {
        match (
            short_field(m, "version"),
            bool_field(m, "accepted"),
            optional_text_field(m, "reason"),
            optional_text_field(m, "proof"),
        ) {
            (Some(version), Some(accepted), Some(reason), Some(proof)) => Some(
                PinConfirm { version, accepted, reason, proof },
            ),
            _ => None,
        }
    }

    fn carried_version(&self) -> (r: u16) {
        self.version
    }
}

/// Authentication response from server to client, sent in response to a token
/// [`AuthRequest`] on the auth stream.
pub struct AuthResponse {
    pub version: u16,
    /// Whether authentication was accepted.
    pub accepted: bool,
    /// Reason for rejection, if rejected.
    pub reason: Option<String>,
}

/// The contents of an [`AuthResponse`].
pub struct AuthResponseView {
    pub version: u16,
    pub accepted: bool,
    pub reason: Option<Seq<char>>,
}

impl View for AuthResponse {
    type V = AuthResponseView;

    open spec fn view(&self) -> AuthResponseView {
        AuthResponseView {
            version: self.version,
            accepted: self.accepted,
            reason: text_view(self.reason),
        }
    }
}

impl AuthResponse {
    /// An acceptance.
    pub fn accepted() -> (r: Self)
        ensures
            r@ == (AuthResponseView {
                version: DUOCB_PROTO_VERSION,
                accepted: true,
                reason: None,
            }),
    {
        AuthResponse { version: DUOCB_PROTO_VERSION, accepted: true, reason: None }
    }

    /// A rejection with the given reason, cut to [`MAX_REJECT_REASON_LENGTH`].
    pub fn rejected(reason: &str) -> (r: Self)
        ensures
            r@ == (AuthResponseView {
                version: DUOCB_PROTO_VERSION,
                accepted: false,
                reason: Some(truncated(reason@, MAX_REJECT_REASON_LENGTH as nat)),
            }),
    {
        AuthResponse {
            version: DUOCB_PROTO_VERSION,
            accepted: false,
            reason: Some(truncate_reason(reason.to_owned(), MAX_REJECT_REASON_LENGTH)),
        }
    }
}

impl Message for AuthResponse {
    open spec fn report_name() -> Seq<char> {
        "AuthResponse"@
    }

    open spec fn fields_of(v: AuthResponseView) -> Fields {
        seq![
            ("version"@, JsonValue::Unsigned(v.version as u64)),
            ("accepted"@, JsonValue::Bool(v.accepted)),
        ] + optional_field("reason"@, v.reason)
    }

    open spec fn of_fields(m: Map<Seq<char>, JsonValue>) -> Option<AuthResponseView> {
        match (
            short_at(m, "version"@),
            bool_at(m, "accepted"@),
            optional_text_at(m, "reason"@),
        ) {
            (Some(version), Some(accepted), Some(reason)) => Some(
                AuthResponseView { version, accepted, reason },
            ),
            _ => None,
        }
    }

    open spec fn version_of(v: AuthResponseView) -> u16 {
        v.version
    }

    proof fn fields_read_back(v: AuthResponseView) {
        distinct_keys();
        let base: Fields = seq![
            ("version"@, JsonValue::Unsigned(v.version as u64)),
            ("accepted"@, JsonValue::Bool(v.accepted)),
        ];
        fields_of_two(base);
        field_map_push(base, "reason"@, JsonValue::Text(v.reason->0));
    }

    fn name() -> (r: String) {
        "AuthResponse".to_owned()
    }

    fn members(&self) -> (r: Vec<(String, String)>) {
        let mut r: Vec<(String, String)> = Vec::new();
        r.push(("version".to_owned(), number(self.version as u64)));
        r.push(("accepted".to_owned(), boolean(self.accepted)));
        if let Some(reason) = &self.reason {
            r.push(("reason".to_owned(), quote(reason.as_str())));
        }
        assert(members_view(r@) =~= member_texts(Self::fields_of(self@)));
        r
    }

    fn from_object(m: &serde_json::Map<String, serde_json::Value>) -> (r: Option<Self>) {
        match (
            short_field(m, "version"),
            bool_field(m, "accepted"),
            optional_text_field(m, "reason"),
        ) {
            (Some(version), Some(accepted), Some(reason)) => Some(
                AuthResponse { version, accepted, reason },
            ),
            _ => None,
        }
    }

    fn carried_version(&self) -> (r: u16) {
        self.version
    }
}

/// An authentication token. Its value is shown nowhere but through
/// [`AuthToken::as_str`].
#[derive(Clone)]
pub struct AuthToken(String);

impl View for AuthToken {
    type V = Seq<char>;

    closed spec fn view(&self) -> Seq<char> {
        self.0@
    }
}

impl AuthToken {
    /// A token with the given value.
    pub fn new(token: &str) -> (r: Self)
        ensures
            r@ == token@,
    {
        AuthToken(token.to_owned())
    }

    /// The token's value.
    pub fn as_str(&self) -> (r: &str)
        ensures
            r@ == self@,
    {
        self.0.as_str()
    }

    /// The token value, borrowed as text.
    pub fn as_ref(&self) -> (r: &str)
        ensures
            r@ == self@,
    {
        self.0.as_str()
    }

    /// What a log shows of a token: never its value.
    pub fn redacted(&self) -> (r: String)
        ensures
            r@ == "AuthToken(***)"@,
    {
        "AuthToken(***)".to_owned()
    }
}

impl core::ops::Deref for AuthToken {
    type Target = str;

    fn deref(&self) -> (r: &str)
        ensures
            r@ == self@,
    {
        self.0.as_str()
    }
}

/// Authentication request, sent by the client on the first stream it opens. The
/// `method` tag selects the auth path that the server runs.
pub enum AuthRequest {
    /// Pre-shared auth token.
    Token { version: u16, auth_token: AuthToken },
    /// PIN challenge-response: `nonce` is the dialer's random challenge nonce.
    Pin { version: u16, nonce: String },
}

/// The contents of an [`AuthRequest`].
pub enum AuthRequestView {
    Token { version: u16, auth_token: Seq<char> },
    Pin { version: u16, nonce: Seq<char> },
}

impl View for AuthRequest {
    type V = AuthRequestView;

    open spec fn view(&self) -> AuthRequestView {
        match *self {
            AuthRequest::Token { version, auth_token } => AuthRequestView::Token {
                version,
                auth_token: auth_token@,
            },
            AuthRequest::Pin { version, nonce } => AuthRequestView::Pin { version, nonce: nonce@ },
        }
    }
}

impl AuthRequest {
    /// Token-method request.
    pub fn new(auth_token: &str) -> (r: Self)
        ensures
            r@ == (AuthRequestView::Token {
                version: DUOCB_PROTO_VERSION,
                auth_token: auth_token@,
            }),
    {
        AuthRequest::Token {
            version: DUOCB_PROTO_VERSION,
            auth_token: AuthToken::new(auth_token),
        }
    }

    /// PIN-method request carrying the dialer's challenge nonce.
    pub fn pin(nonce: &str) -> (r: Self)
        ensures
            r@ == (AuthRequestView::Pin { version: DUOCB_PROTO_VERSION, nonce: nonce@ }),
    {
        AuthRequest::Pin { version: DUOCB_PROTO_VERSION, nonce: nonce.to_owned() }
    }

    /// The version that the request carries.
    pub fn version(&self) -> (r: u16)
        ensures
            r == Self::version_of(self@),
    {
        match self {
            AuthRequest::Token { version, .. } => *version,
            AuthRequest::Pin { version, .. } => *version,
        }
    }
}

impl Message for AuthRequest {
    open spec fn report_name() -> Seq<char> {
        "AuthRequest"@
    }

    open spec fn fields_of(v: AuthRequestView) -> Fields {
        match v {
            AuthRequestView::Token { version, auth_token } => seq![
                ("method"@, JsonValue::Text("Token"@)),
                ("version"@, JsonValue::Unsigned(version as u64)),
                ("auth_token"@, JsonValue::Text(auth_token)),
            ],
            AuthRequestView::Pin { version, nonce } => seq![
                ("method"@, JsonValue::Text("Pin"@)),
                ("version"@, JsonValue::Unsigned(version as u64)),
                ("nonce"@, JsonValue::Text(nonce)),
            ],
        }
    }

    open spec fn of_fields(m: Map<Seq<char>, JsonValue>) -> Option<AuthRequestView> {
        if text_at(m, "method"@) == Some("Token"@) {
            match (short_at(m, "version"@), text_at(m, "auth_token"@)) {
                (Some(version), Some(auth_token)) => Some(
                    AuthRequestView::Token { version, auth_token },
                ),
                _ => None,
            }
        } else if text_at(m, "method"@) == Some("Pin"@) {
            match (short_at(m, "version"@), text_at(m, "nonce"@)) {
                (Some(version), Some(nonce)) => Some(AuthRequestView::Pin { version, nonce }),
                _ => None,
            }
        } else {
            None
        }
    }

    open spec fn version_of(v: AuthRequestView) -> u16 {
        match v {
            AuthRequestView::Token { version, .. } => version,
            AuthRequestView::Pin { version, .. } => version,
        }
    }

    proof fn fields_read_back(v: AuthRequestView) {
        distinct_keys();
        reveal_with_fuel(field_map, 4);
    }

    fn name() -> (r: String) {
        "AuthRequest".to_owned()
    }

    fn members(&self) -> (r: Vec<(String, String)>) {
        let mut r: Vec<(String, String)> = Vec::new();
        match self {
            AuthRequest::Token { version, auth_token } => {
                r.push(("method".to_owned(), quote("Token")));
                r.push(("version".to_owned(), number(*version as u64)));
                r.push(("auth_token".to_owned(), quote(auth_token.as_str())));
            },
            AuthRequest::Pin { version, nonce } => {
                r.push(("method".to_owned(), quote("Pin")));
                r.push(("version".to_owned(), number(*version as u64)));
                r.push(("nonce".to_owned(), quote(nonce.as_str())));
            },
        }
        assert(members_view(r@) =~= member_texts(Self::fields_of(self@)));
        r
    }

    fn from_object(m: &serde_json::Map<String, serde_json::Value>) -> (r: Option<Self>) {
        let method: String = match text_field(m, "method") {
            Some(method) => method,
            None => return None,
        };
        if method == "Token".to_owned() {
            match (short_field(m, "version"), text_field(m, "auth_token")) {
                (Some(version), Some(auth_token)) => Some(
                    AuthRequest::Token { version, auth_token: AuthToken(auth_token) },
                ),
                _ => None,
            }
        } else if method == "Pin".to_owned() {
            match (short_field(m, "version"), text_field(m, "nonce")) {
                (Some(version), Some(nonce)) => Some(AuthRequest::Pin { version, nonce }),
                _ => None,
            }
        } else {
            None
        }
    }

    fn carried_version(&self) -> (r: u16) {
        self.version()
    }
}

/// A frame on the post-auth session stream, flowing in both directions.
pub struct ClipMsg {
    pub version: u16,
    pub body: ClipBody,
}

/// What a [`ClipMsg`] carries. Text only.
pub enum ClipBody {
    /// A pushed clipboard item.
    Item { text: String, sent_at_ms: u64 },
    /// Ask the peer for the latest item it sent this session.
    PullLatest,
    /// Answer to [`ClipBody::PullLatest`]: a re-delivery of the latest sent item.
    Latest { text: String, sent_at_ms: u64 },
}

/// The contents of a [`ClipBody`].
pub enum ClipBodyView {
    Item { text: Seq<char>, sent_at_ms: u64 },
    PullLatest,
    Latest { text: Seq<char>, sent_at_ms: u64 },
}

/// The contents of a [`ClipMsg`].
pub struct ClipMsgView {
    pub version: u16,
    pub body: ClipBodyView,
}

impl View for ClipBody {
    type V = ClipBodyView;

    open spec fn view(&self) -> ClipBodyView {
        match *self {
            ClipBody::Item { text, sent_at_ms } => ClipBodyView::Item { text: text@, sent_at_ms },
            ClipBody::PullLatest => ClipBodyView::PullLatest,
            ClipBody::Latest { text, sent_at_ms } => ClipBodyView::Latest {
                text: text@,
                sent_at_ms,
            },
        }
    }
}

impl View for ClipMsg {
    type V = ClipMsgView;

    open spec fn view(&self) -> ClipMsgView {
        ClipMsgView { version: self.version, body: self.body@ }
    }
}

impl ClipMsg {
    /// A pushed clipboard item.
    pub fn item(text: &str, sent_at_ms: u64) -> (r: Self)
        ensures
            r@ == (ClipMsgView {
                version: DUOCB_PROTO_VERSION,
                body: ClipBodyView::Item { text: text@, sent_at_ms },
            }),
    {
        ClipMsg::of(ClipBody::Item { text: text.to_owned(), sent_at_ms })
    }

    /// The request for the peer's latest item.
    pub fn pull_latest() -> (r: Self)
        ensures
            r@ == (ClipMsgView { version: DUOCB_PROTO_VERSION, body: ClipBodyView::PullLatest }),
    {
        ClipMsg::of(ClipBody::PullLatest)
    }

    /// A re-delivery of the latest sent item.
    pub fn latest(text: &str, sent_at_ms: u64) -> (r: Self)
        ensures
            r@ == (ClipMsgView {
                version: DUOCB_PROTO_VERSION,
                body: ClipBodyView::Latest { text: text@, sent_at_ms },
            }),
    {
        ClipMsg::of(ClipBody::Latest { text: text.to_owned(), sent_at_ms })
    }

    /// A message with the given body, at the current protocol version.
    pub fn of(body: ClipBody) -> (r: Self)
        ensures
            r@ == (ClipMsgView { version: DUOCB_PROTO_VERSION, body: body@ }),
    {
        ClipMsg { version: DUOCB_PROTO_VERSION, body }
    }

    /// The version that the message carries.
    pub fn version(&self) -> (r: u16)
        ensures
            r == self@.version,
    {
        self.version
    }
}

impl Message for ClipMsg {
    open spec fn report_name() -> Seq<char> {
        "ClipMsg"@
    }

    open spec fn fields_of(v: ClipMsgView) -> Fields {
        match v.body {
            ClipBodyView::Item { text, sent_at_ms } => seq![
                ("version"@, JsonValue::Unsigned(v.version as u64)),
                ("kind"@, JsonValue::Text("item"@)),
                ("text"@, JsonValue::Text(text)),
                ("sent_at_ms"@, JsonValue::Unsigned(sent_at_ms)),
            ],
            ClipBodyView::PullLatest => seq![
                ("version"@, JsonValue::Unsigned(v.version as u64)),
                ("kind"@, JsonValue::Text("pull_latest"@)),
            ],
            ClipBodyView::Latest { text, sent_at_ms } => seq![
                ("version"@, JsonValue::Unsigned(v.version as u64)),
                ("kind"@, JsonValue::Text("latest"@)),
                ("text"@, JsonValue::Text(text)),
                ("sent_at_ms"@, JsonValue::Unsigned(sent_at_ms)),
            ],
        }
    }

    open spec fn of_fields(m: Map<Seq<char>, JsonValue>) -> Option<ClipMsgView> {
        match (short_at(m, "version"@), text_at(m, "kind"@)) {
            (Some(version), Some(kind)) => if kind == "pull_latest"@ {
                Some(ClipMsgView { version, body: ClipBodyView::PullLatest })
            } else {
                match (text_at(m, "text"@), unsigned_at(m, "sent_at_ms"@)) {
                    (Some(text), Some(sent_at_ms)) => if kind == "item"@ {
                        Some(ClipMsgView { version, body: ClipBodyView::Item { text, sent_at_ms } })
                    } else if kind == "latest"@ {
                        Some(
                            ClipMsgView {
                                version,
                                body: ClipBodyView::Latest { text, sent_at_ms },
                            },
                        )
                    } else {
                        None
                    },
                    _ => None,
                }
            },
            _ => None,
        }
    }

    open spec fn version_of(v: ClipMsgView) -> u16 {
        v.version
    }

    proof fn fields_read_back(v: ClipMsgView) {
        distinct_keys();
        reveal_with_fuel(field_map, 5);
    }

    fn name() -> (r: String) {
        "ClipMsg".to_owned()
    }

    fn members(&self) -> (r: Vec<(String, String)>) {
        let mut r: Vec<(String, String)> = Vec::new();
        r.push(("version".to_owned(), number(self.version as u64)));
        match &self.body {
            ClipBody::Item { text, sent_at_ms } => {
                r.push(("kind".to_owned(), quote("item")));
                r.push(("text".to_owned(), quote(text.as_str())));
                r.push(("sent_at_ms".to_owned(), number(*sent_at_ms)));
            },
            ClipBody::PullLatest => {
                r.push(("kind".to_owned(), quote("pull_latest")));
            },
            ClipBody::Latest { text, sent_at_ms } => {
                r.push(("kind".to_owned(), quote("latest")));
                r.push(("text".to_owned(), quote(text.as_str())));
                r.push(("sent_at_ms".to_owned(), number(*sent_at_ms)));
            },
        }
        assert(members_view(r@) =~= member_texts(Self::fields_of(self@)));
        r
    }

    fn from_object(m: &serde_json::Map<String, serde_json::Value>) -> (r: Option<Self>) {
        let (version, kind): (u16, String) = match (
            short_field(m, "version"),
            text_field(m, "kind"),
        ) {
            (Some(version), Some(kind)) => (version, kind),
            _ => return None,
        };
        if kind == "pull_latest".to_owned() {
            return Some(ClipMsg { version, body: ClipBody::PullLatest });
        }
        match (text_field(m, "text"), unsigned_field(m, "sent_at_ms")) {
            (Some(text), Some(sent_at_ms)) => if kind == "item".to_owned() {
                Some(ClipMsg { version, body: ClipBody::Item { text, sent_at_ms } })
            } else if kind == "latest".to_owned() {
                Some(ClipMsg { version, body: ClipBody::Latest { text, sent_at_ms } })
            } else {
                None
            },
            _ => None,
        }
    }

    fn carried_version(&self) -> (r: u16) {
        self.version()
    }
}

// ---------------------------------------------------------------------------
// The codecs of each message
// ---------------------------------------------------------------------------

/// Encodes an [`AuthRequest`] as length-prefixed JSON bytes.
pub fn encode_auth_request(msg: &AuthRequest) -> (r: Result<Vec<u8>, String>)
    ensures
        outcome(r) == encoded::<AuthRequest>(msg@, MAX_CONTROL_MESSAGE_SIZE as nat),
{
    encode_length_prefixed(msg, MAX_CONTROL_MESSAGE_SIZE)
}

/// Decodes an [`AuthRequest`] from length-prefixed JSON bytes. What
/// [`encode_auth_request`] wrote of a current message reads back as that message.
pub fn decode_auth_request(data: &[u8]) -> (r: Result<AuthRequest, String>)
    ensures
        outcome(r) == decoded::<AuthRequest>(data@, MAX_CONTROL_MESSAGE_SIZE as nat),
        forall|v: AuthRequestView|
            AuthRequest::version_of(v) == DUOCB_PROTO_VERSION && #[trigger] encoded::<AuthRequest>(
                v,
                MAX_CONTROL_MESSAGE_SIZE as nat,
            ) == Ok::<Seq<u8>, Seq<char>>(data@) ==> outcome(r) == Ok::<AuthRequestView, Seq<char>>(v),
{
    decode_length_prefixed(data, MAX_CONTROL_MESSAGE_SIZE)
}

/// Encodes a [`PinChallenge`] as length-prefixed JSON bytes.
pub fn encode_pin_challenge(msg: &PinChallenge) -> (r: Result<Vec<u8>, String>)
    ensures
        outcome(r) == encoded::<PinChallenge>(msg@, MAX_CONTROL_MESSAGE_SIZE as nat),
{
    encode_length_prefixed(msg, MAX_CONTROL_MESSAGE_SIZE)
}

/// Decodes a [`PinChallenge`] from length-prefixed JSON bytes. What
/// [`encode_pin_challenge`] wrote of a current message reads back as that message.
pub fn decode_pin_challenge(data: &[u8]) -> (r: Result<PinChallenge, String>)
    ensures
        outcome(r) == decoded::<PinChallenge>(data@, MAX_CONTROL_MESSAGE_SIZE as nat),
        forall|v: PinChallengeView|
            PinChallenge::version_of(v) == DUOCB_PROTO_VERSION && #[trigger] encoded::<PinChallenge>(
                v,
                MAX_CONTROL_MESSAGE_SIZE as nat,
            ) == Ok::<Seq<u8>, Seq<char>>(data@) ==> outcome(r) == Ok::<PinChallengeView, Seq<char>>(v),
{
    decode_length_prefixed(data, MAX_CONTROL_MESSAGE_SIZE)
}

/// Encodes a [`PinResponse`] as length-prefixed JSON bytes.
pub fn encode_pin_response(msg: &PinResponse) -> (r: Result<Vec<u8>, String>)
    ensures
        outcome(r) == encoded::<PinResponse>(msg@, MAX_CONTROL_MESSAGE_SIZE as nat),
{
    encode_length_prefixed(msg, MAX_CONTROL_MESSAGE_SIZE)
}

/// Decodes a [`PinResponse`] from length-prefixed JSON bytes. What
/// [`encode_pin_response`] wrote of a current message reads back as that message.
pub fn decode_pin_response(data: &[u8]) -> (r: Result<PinResponse, String>)
    ensures
        outcome(r) == decoded::<PinResponse>(data@, MAX_CONTROL_MESSAGE_SIZE as nat),
        forall|v: PinResponseView|
            PinResponse::version_of(v) == DUOCB_PROTO_VERSION && #[trigger] encoded::<PinResponse>(
                v,
                MAX_CONTROL_MESSAGE_SIZE as nat,
            ) == Ok::<Seq<u8>, Seq<char>>(data@) ==> outcome(r) == Ok::<PinResponseView, Seq<char>>(v),
{
    decode_length_prefixed(data, MAX_CONTROL_MESSAGE_SIZE)
}

/// Encodes a [`PinConfirm`] as length-prefixed JSON bytes.
pub fn encode_pin_confirm(msg: &PinConfirm) -> (r: Result<Vec<u8>, String>)
    ensures
        outcome(r) == encoded::<PinConfirm>(msg@, MAX_CONTROL_MESSAGE_SIZE as nat),
{
    encode_length_prefixed(msg, MAX_CONTROL_MESSAGE_SIZE)
}

/// Decodes a [`PinConfirm`] from length-prefixed JSON bytes. What
/// [`encode_pin_confirm`] wrote of a current message reads back as that message.
pub fn decode_pin_confirm(data: &[u8]) -> (r: Result<PinConfirm, String>)
    ensures
        outcome(r) == decoded::<PinConfirm>(data@, MAX_CONTROL_MESSAGE_SIZE as nat),
        forall|v: PinConfirmView|
            PinConfirm::version_of(v) == DUOCB_PROTO_VERSION && #[trigger] encoded::<PinConfirm>(
                v,
                MAX_CONTROL_MESSAGE_SIZE as nat,
            ) == Ok::<Seq<u8>, Seq<char>>(data@) ==> outcome(r) == Ok::<PinConfirmView, Seq<char>>(v),
{
    decode_length_prefixed(data, MAX_CONTROL_MESSAGE_SIZE)
}

/// Encodes an [`AuthResponse`] as length-prefixed JSON bytes.
pub fn encode_auth_response(msg: &AuthResponse) -> (r: Result<Vec<u8>, String>)
    ensures
        outcome(r) == encoded::<AuthResponse>(msg@, MAX_CONTROL_MESSAGE_SIZE as nat),
{
    encode_length_prefixed(msg, MAX_CONTROL_MESSAGE_SIZE)
}

/// Decodes an [`AuthResponse`] from length-prefixed JSON bytes. What
/// [`encode_auth_response`] wrote of a current message reads back as that message.
pub fn decode_auth_response(data: &[u8]) -> (r: Result<AuthResponse, String>)
    ensures
        outcome(r) == decoded::<AuthResponse>(data@, MAX_CONTROL_MESSAGE_SIZE as nat),
        forall|v: AuthResponseView|
            AuthResponse::version_of(v) == DUOCB_PROTO_VERSION && #[trigger] encoded::<AuthResponse>(
                v,
                MAX_CONTROL_MESSAGE_SIZE as nat,
            ) == Ok::<Seq<u8>, Seq<char>>(data@) ==> outcome(r) == Ok::<AuthResponseView, Seq<char>>(v),
{
    decode_length_prefixed(data, MAX_CONTROL_MESSAGE_SIZE)
}

/// Encodes a [`ClipMsg`] as length-prefixed JSON bytes.
pub fn encode_clip_msg(msg: &ClipMsg) -> (r: Result<Vec<u8>, String>)
    ensures
        outcome(r) == encoded::<ClipMsg>(msg@, MAX_CLIP_MESSAGE_SIZE as nat),
{
    encode_length_prefixed(msg, MAX_CLIP_MESSAGE_SIZE)
}

/// Decodes a [`ClipMsg`] from length-prefixed JSON bytes. What
/// [`encode_clip_msg`] wrote of a current message reads back as that message.
pub fn decode_clip_msg(data: &[u8]) -> (r: Result<ClipMsg, String>)
    ensures
        outcome(r) == decoded::<ClipMsg>(data@, MAX_CLIP_MESSAGE_SIZE as nat),
        forall|v: ClipMsgView|
            ClipMsg::version_of(v) == DUOCB_PROTO_VERSION && #[trigger] encoded::<ClipMsg>(
                v,
                MAX_CLIP_MESSAGE_SIZE as nat,
            ) == Ok::<Seq<u8>, Seq<char>>(data@) ==> outcome(r) == Ok::<ClipMsgView, Seq<char>>(v),
{
    decode_length_prefixed(data, MAX_CLIP_MESSAGE_SIZE)
}

// ---------------------------------------------------------------------------
// What the frames promise
// ---------------------------------------------------------------------------

/// A message is sent exactly where its JSON is within the cap, and then as a four-byte
/// big-endian length followed by that JSON; a larger one is refused by its size.
pub proof fn every_message_within_the_cap_is_framed<T: Message>(v: T::V, max: nat)
    requires
        max < 0x1_0000_0000,
    ensures
        encoded::<T>(v, max) is Ok <==> message_json::<T>(v).len() <= max,
        encoded::<T>(v, max) matches Ok(data) ==> {
            &&& data.len() == 4 + message_json::<T>(v).len()
            &&& data[0] * 16777216 + data[1] * 65536 + data[2] * 256 + data[3]
                == message_json::<T>(v).len()
            &&& data.skip(4) == message_json::<T>(v)
        },
        encoded::<T>(v, max) matches Err(e) ==> e == T::report_name() + " too large: "@ + decimal(
            message_json::<T>(v).len(),
        ) + " bytes"@,
{
    let body = message_json::<T>(v);
    if body.len() <= max {
        be32_reads_back(body.len());
        assert(frame(body).skip(4) =~= body);
    }
}

/// A frame opens exactly where its first four bytes announce, big-endian, a length within
/// the cap and just that many bytes follow; those bytes are then its body.
pub proof fn frames_open_where_the_length_agrees(data: Seq<u8>, max: nat, name: Seq<char>)
    ensures
        frame_body(data, max, name) is Ok <==> {
            &&& data.len() >= 4
            &&& data[0] * 16777216 + data[1] * 65536 + data[2] * 256 + data[3] == data.len() - 4
            &&& data.len() - 4 <= max
        },
        frame_body(data, max, name) matches Ok(body) ==> body == data.skip(4),
{
    if frame_body(data, max, name) is Ok {
        assert(data.skip(4) =~= data.subrange(4, data.len() as int));
    }
}

/// A message is received exactly where its frame opens, the body is an object that stands
/// for a message, and the message carries the protocol version in use; it is then that
/// message.
pub proof fn messages_of_this_version_are_received<T: Message>(data: Seq<u8>, max: nat, v: T::V)
    ensures
        decoded::<T>(data, max) == Ok::<T::V, Seq<char>>(v) <==> {
            &&& frame_body(data, max, T::report_name()) is Ok
            &&& parsed_object(data.skip(4)) is Some
            &&& T::of_fields(parsed_object(data.skip(4))->0) == Some(v)
            &&& T::version_of(v) == 2
        },
{
    frames_open_where_the_length_agrees(data, max, T::report_name());
}

/// The last boundary at or before a place has no other between itself and that place.
pub proof fn floor_boundary_is_the_last(b: Seq<u8>, i: nat, j: nat)
    requires
        floor_boundary(b, i) < j <= i,
        j <= b.len(),
    ensures
        !is_char_boundary(b, j as int),
    decreases i,
{
    if i < b.len() && i > 0 && !is_char_boundary(b, i as int) && j < i {
        floor_boundary_is_the_last(b, (i - 1) as nat, j);
    }
}

/// A reason loses no more than it must: every prefix that leaves room for the three dots is
/// kept.
pub proof fn truncation_keeps_all_that_fits(s: Seq<char>, max: nat, k: int)
    requires
        max >= 3,
        encode_utf8(s).len() > max,
        0 <= k <= s.len(),
        encode_utf8(s.take(k)).len() <= max - 3,
    ensures
        truncated(s, max).len() >= k + 3,
        truncated(s, max).take(k) == s.take(k),
        truncated(s, max).skip(truncated(s, max).len() - 3) == seq!['.', '.', '.'],
{
    let bytes = encode_utf8(s);
    let at = floor_boundary(bytes, kept_length(max));
    let kept = decode_utf8(bytes.take(at as int));
    encode_utf8_valid_utf8(s);
    floor_boundary_is_boundary(bytes, kept_length(max));
    decode_utf8_split(bytes, at as int);
    valid_utf8_split(bytes, at as int);
    encode_utf8_decode_utf8(s);
    assert(bytes.take(at as int) =~= bytes.subrange(0, at as int));
    decode_utf8_encode_utf8(bytes.take(at as int));
    reveal_strlit("...");
    assert(s.take(kept.len() as int) =~= kept);
    crate::manual_code::concatenation_has_a_boundary(s.take(k), s.skip(k));
    assert(s.take(k) + s.skip(k) =~= s);
    let j = encode_utf8(s.take(k)).len();
    crate::text::encode_utf8_of_concat(s.take(k), s.skip(k));
    if j > at {
        floor_boundary_is_the_last(bytes, kept_length(max), j);
    }
    if kept.len() < k {
        let more = s.take(k).skip(kept.len() as int);
        assert(kept + more =~= s.take(k));
        crate::text::encode_utf8_of_concat(kept, more);
        crate::text::encoded_length_bounds(more);
    }
    assert(truncated(s, max) == kept + "..."@);
    assert(truncated(s, max).take(k) =~= s.take(k));
    assert(truncated(s, max).skip(truncated(s, max).len() - 3) =~= seq!['.', '.', '.']);
}

/// A clipboard message is read from its fields whatever else stands beside them: an item
/// and a re-delivery with their text and time, a request without; and it is told by its
/// kind alone which of the three it is.
pub proof fn clipboard_messages_are_read_by_kind(
    m: Map<Seq<char>, JsonValue>,
    version: u16,
    kind: Seq<char>,
    text: Seq<char>,
    at: u64,
)
    requires
        m.contains_key("version"@) && m["version"@] == JsonValue::Unsigned(version as u64),
        m.contains_key("kind"@) && m["kind"@] == JsonValue::Text(kind),
        m.contains_key("text"@) && m["text"@] == JsonValue::Text(text),
        m.contains_key("sent_at_ms"@) && m["sent_at_ms"@] == JsonValue::Unsigned(at),
    ensures
        kind == "item"@ ==> ClipMsg::of_fields(m) == Some(
            ClipMsgView { version, body: ClipBodyView::Item { text, sent_at_ms: at } },
        ),
        kind == "latest"@ ==> ClipMsg::of_fields(m) == Some(
            ClipMsgView { version, body: ClipBodyView::Latest { text, sent_at_ms: at } },
        ),
        kind == "pull_latest"@ ==> ClipMsg::of_fields(m) == Some(
            ClipMsgView { version, body: ClipBodyView::PullLatest },
        ),
        kind != "item"@ && kind != "latest"@ && kind != "pull_latest"@ ==> ClipMsg::of_fields(m)
            is None,
{
    reveal_strlit("item");
    reveal_strlit("latest");
    reveal_strlit("pull_latest");
    assert("item"@.len() == 4 && "latest"@.len() == 6 && "pull_latest"@.len() == 11);
}

/// The control messages are read from their fields whatever else stands beside them, and a
/// field that may be left out is what it says or absent.
pub proof fn control_messages_are_read_by_field(
    m: Map<Seq<char>, JsonValue>,
    version: u16,
    nonce: Seq<char>,
    proof_text: Seq<char>,
    token: Seq<char>,
    reason: Seq<char>,
    accepted: bool,
)
    requires
        m.contains_key("version"@) && m["version"@] == JsonValue::Unsigned(version as u64),
        m.contains_key("accepted"@) && m["accepted"@] == JsonValue::Bool(accepted),
        m.contains_key("nonce"@) && m["nonce"@] == JsonValue::Text(nonce),
        m.contains_key("auth_token"@) && m["auth_token"@] == JsonValue::Text(token),
        m.contains_key("proof"@) ==> m["proof"@] == JsonValue::Text(proof_text),
        m.contains_key("reason"@) ==> m["reason"@] == JsonValue::Text(reason),
    ensures
        PinChallenge::of_fields(m) == Some(PinChallengeView { version, nonce }),
        PinResponse::of_fields(m) == if m.contains_key("proof"@) {
            Some(PinResponseView { version, proof: proof_text })
        } else {
            None
        },
        PinConfirm::of_fields(m) == Some(
            PinConfirmView {
                version,
                accepted,
                reason: if m.contains_key("reason"@) {
                    Some(reason)
                } else {
                    None
                },
                proof: if m.contains_key("proof"@) {
                    Some(proof_text)
                } else {
                    None
                },
            },
        ),
        AuthResponse::of_fields(m) == Some(
            AuthResponseView {
                version,
                accepted,
                reason: if m.contains_key("reason"@) {
                    Some(reason)
                } else {
                    None
                },
            },
        ),
        m.contains_key("method"@) && m["method"@] == JsonValue::Text("Token"@)
            ==> AuthRequest::of_fields(m) == Some(
            AuthRequestView::Token { version, auth_token: token },
        ),
        m.contains_key("method"@) && m["method"@] == JsonValue::Text("Pin"@)
            ==> AuthRequest::of_fields(m) == Some(AuthRequestView::Pin { version, nonce }),
{
    reveal_strlit("Token");
    reveal_strlit("Pin");
    assert("Token"@.len() == 5 && "Pin"@.len() == 3);
}

/// Each control message is written as its own fields, in order, and leaves out what it does
/// not have.
pub proof fn control_messages_are_written_by_field(
    version: u16,
    nonce: Seq<char>,
    proof_text: Seq<char>,
    token: Seq<char>,
    reason: Seq<char>,
    accepted: bool,
)
    ensures
        PinChallenge::fields_of(PinChallengeView { version, nonce }) == seq![
            ("version"@, JsonValue::Unsigned(version as u64)),
            ("nonce"@, JsonValue::Text(nonce)),
        ],
        PinResponse::fields_of(PinResponseView { version, proof: proof_text }) == seq![
            ("version"@, JsonValue::Unsigned(version as u64)),
            ("proof"@, JsonValue::Text(proof_text)),
        ],
        PinConfirm::fields_of(
            PinConfirmView { version, accepted, reason: None, proof: Some(proof_text) },
        ) == seq![
            ("version"@, JsonValue::Unsigned(version as u64)),
            ("accepted"@, JsonValue::Bool(accepted)),
            ("proof"@, JsonValue::Text(proof_text)),
        ],
        PinConfirm::fields_of(
            PinConfirmView { version, accepted, reason: Some(reason), proof: None },
        ) == seq![
            ("version"@, JsonValue::Unsigned(version as u64)),
            ("accepted"@, JsonValue::Bool(accepted)),
            ("reason"@, JsonValue::Text(reason)),
        ],
        AuthResponse::fields_of(AuthResponseView { version, accepted, reason: Some(reason) })
            == seq![
            ("version"@, JsonValue::Unsigned(version as u64)),
            ("accepted"@, JsonValue::Bool(accepted)),
            ("reason"@, JsonValue::Text(reason)),
        ],
        AuthRequest::fields_of(AuthRequestView::Token { version, auth_token: token }) == seq![
            ("method"@, JsonValue::Text("Token"@)),
            ("version"@, JsonValue::Unsigned(version as u64)),
            ("auth_token"@, JsonValue::Text(token)),
        ],
        AuthRequest::fields_of(AuthRequestView::Pin { version, nonce }) == seq![
            ("method"@, JsonValue::Text("Pin"@)),
            ("version"@, JsonValue::Unsigned(version as u64)),
            ("nonce"@, JsonValue::Text(nonce)),
        ],
{
}

/// Each clipboard message is written with its version, its kind and, for an item or a
/// re-delivery, the text and the time of sending.
pub proof fn clipboard_messages_are_written_by_kind(version: u16, text: Seq<char>, at: u64)
    ensures
        ClipMsg::fields_of(
            ClipMsgView { version, body: ClipBodyView::Item { text, sent_at_ms: at } },
        ) == seq![
            ("version"@, JsonValue::Unsigned(version as u64)),
            ("kind"@, JsonValue::Text("item"@)),
            ("text"@, JsonValue::Text(text)),
            ("sent_at_ms"@, JsonValue::Unsigned(at)),
        ],
        ClipMsg::fields_of(
            ClipMsgView { version, body: ClipBodyView::Latest { text, sent_at_ms: at } },
        ) == seq![
            ("version"@, JsonValue::Unsigned(version as u64)),
            ("kind"@, JsonValue::Text("latest"@)),
            ("text"@, JsonValue::Text(text)),
            ("sent_at_ms"@, JsonValue::Unsigned(at)),
        ],
        ClipMsg::fields_of(ClipMsgView { version, body: ClipBodyView::PullLatest }) == seq![
            ("version"@, JsonValue::Unsigned(version as u64)),
            ("kind"@, JsonValue::Text("pull_latest"@)),
        ],
        ClipMsg::version_of(ClipMsgView { version, body: ClipBodyView::PullLatest }) == version,
{
}

/// A frame that does not open, a body that stands for no message and a message of another
/// version are each refused as what they are.
pub proof fn refused_frames_say_why<T: Message>(data: Seq<u8>, max: nat)
    ensures
        frame_body(data, max, T::report_name()) matches Err(e) ==> decoded::<T>(data, max) == Err::<
            T::V,
            Seq<char>,
        >(e),
        frame_body(data, max, T::report_name()) is Ok ==> match parsed_object(data.skip(4)) {
            None => decoded::<T>(data, max) == Err::<T::V, Seq<char>>(
                "Invalid "@ + T::report_name() + " JSON"@,
            ),
            Some(m) => match T::of_fields(m) {
                None => decoded::<T>(data, max) == Err::<T::V, Seq<char>>(
                    "Invalid "@ + T::report_name() + " JSON"@,
                ),
                Some(v) => T::version_of(v) != 2 ==> decoded::<T>(data, max) == Err::<
                    T::V,
                    Seq<char>,
                >(
                    T::report_name() + " version mismatch: expected "@ + decimal(2) + ", got "@
                        + decimal(T::version_of(v) as nat),
                ),
            },
        },
{
    frames_open_where_the_length_agrees(data, max, T::report_name());
}

/// A frame that is too short, announces too much, or has fewer or more bytes than it
/// announces is refused with the numbers that do not agree.
pub proof fn malformed_frames_say_what_is_off(data: Seq<u8>, max: nat, name: Seq<char>)
    ensures
        data.len() < 4 ==> frame_body(data, max, name) == Err::<Seq<u8>, Seq<char>>(
            name + " too short: "@ + decimal(data.len()) + " bytes"@,
        ),
        data.len() >= 4 ==> {
            let len = (data[0] * 16777216 + data[1] * 65536 + data[2] * 256 + data[3]) as nat;
            &&& len > max ==> frame_body(data, max, name) == Err::<Seq<u8>, Seq<char>>(
                name + " length too large: "@ + decimal(len) + " bytes"@,
            )
            &&& len <= max && data.len() < 4 + len ==> frame_body(data, max, name) == Err::<
                Seq<u8>,
                Seq<char>,
            >(
                name + " incomplete: expected "@ + decimal(4 + len) + " bytes, got "@ + decimal(
                    data.len(),
                ),
            )
            &&& len <= max && data.len() > 4 + len ==> frame_body(data, max, name) == Err::<
                Seq<u8>,
                Seq<char>,
            >(
                name + " has "@ + decimal((data.len() - 4 - len) as nat)
                    + " trailing byte(s) after the frame"@,
            )
        },
{
    if data.len() >= 4 {
        let len = be32_value(data);
        assert((data.len() - 4 - len) as int == (data.len() - (4 + len)) as int);
    }
}

/// A reason that does not fit next to the three dots at all leaves only them.
pub proof fn narrow_limits_leave_the_dots(s: Seq<char>, max: nat)
    requires
        max <= 3,
        encode_utf8(s).len() > max,
    ensures
        truncated(s, max) == seq!['.', '.', '.'],
{
    let bytes = encode_utf8(s);
    reveal_strlit("...");
    encode_utf8_valid_utf8(s);
    assert(bytes.take(0) =~= Seq::<u8>::empty());
    assert(encode_utf8(Seq::<char>::empty()) =~= Seq::<u8>::empty());
    encode_utf8_decode_utf8(Seq::<char>::empty());
    assert(truncated(s, max) =~= seq!['.', '.', '.']);
}

} // verus!
