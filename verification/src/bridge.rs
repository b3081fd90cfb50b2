//! What crosses to a host application: events as JSON, and text in byte buffers of a
//! given size.

use vstd::prelude::*;
use vstd::string::*;
use vstd::utf8::*;

use crate::auth::{
    card_of_text, card_valid_at, fingerprint_of, key_fingerprint, minted, npub_text, nsec_secret,
    secret_public, unix_now, CardView, Identity, IdentityCard, CARD_RENEW_BEFORE_SECS,
};
use crate::identity::{name_error, split_identity, validate_name};
use crate::json::{
    array, array_text, boolean, members_text, members_view, number, object, optional_text, quote,
    quote_optional, quoted, value_text, JsonValue, Members,
};
use crate::net::endpoint::{ConnPath, ConnPathKind, ConnPathView};
use crate::net::{ConnStatus, NetEvent, NetEventView};
use crate::protocol::floor_boundary;
use crate::subnet::{
    entry_hint, entry_placeholder, entry_prefix, resolved, JoinIpConstraint, JoinIpOutcome,
    SubnetView,
};
use crate::text::{decimal, hex_text};

verus! {

// ---------------------------------------------------------------------------
// Events
// ---------------------------------------------------------------------------

/// Seconds of life that a card has left.
pub open spec fn remaining_secs(c: CardView, now: u64) -> nat {
    if card_valid_at(c, now) {
        (c.expires_at - now) as nat
    } else {
        0
    }
}

/// What a host application is told about a card, in alphabetical order.
pub open spec fn card_members(c: CardView, now: u64) -> Members {
    seq![
        ("created_at"@, decimal(c.created_at as nat)),
        ("expired"@, value_text(JsonValue::Bool(!card_valid_at(c, now)))),
        ("expires_at"@, decimal(c.expires_at as nat)),
        ("fingerprint"@, quoted(fingerprint_of(c.public_key))),
        ("name"@, quoted(c.name)),
        (
            "needs_renewal"@,
            value_text(JsonValue::Bool(remaining_secs(c, now) < CARD_RENEW_BEFORE_SECS)),
        ),
        ("npub"@, quoted(npub_text(c.public_key))),
        ("public_key"@, quoted(hex_text(c.public_key))),
        ("remaining_secs"@, decimal(remaining_secs(c, now))),
        ("short_name"@, quoted(split_identity(c.name)->Ok_0.0)),
        ("suffix"@, quoted(split_identity(c.name)->Ok_0.1)),
    ]
}

/// The state that a status is reported as.
pub open spec fn state_name(s: ConnStatus) -> Seq<char> {
    match s {
        ConnStatus::Idle => "idle"@,
        ConnStatus::Starting => "starting"@,
        ConnStatus::Listening => "listening"@,
        ConnStatus::Resolving => "resolving"@,
        ConnStatus::Connecting => "connecting"@,
        ConnStatus::Authenticating => "authenticating"@,
        ConnStatus::Connected => "connected"@,
        ConnStatus::Reconnecting { .. } => "reconnecting"@,
    }
}

/// What a path is reported as, in alphabetical order.
pub open spec fn path_members(p: ConnPathView) -> Members {
    seq![
        ("display"@, quoted(p.display)),
        (
            "kind"@,
            quoted(
                match p.kind {
                    ConnPathKind::Direct => "direct"@,
                    ConnPathKind::Relay => "relay"@,
                    ConnPathKind::Other => "other"@,
                },
            ),
        ),
        ("selected"@, value_text(JsonValue::Bool(p.selected))),
    ]
}

/// What an event is reported as at `now`, in alphabetical order.
pub open spec fn event_members(e: NetEventView, now: u64) -> Members {
    match e {
        NetEventView::ServerReady { node_id, identity_public_key } => seq![
            ("identity_public_key"@, optional_text(identity_public_key)),
            ("node_id"@, quoted(node_id)),
            ("type"@, quoted("server_ready"@)),
        ],
        NetEventView::ClientReady { node_id, identity_public_key } => seq![
            ("identity_public_key"@, optional_text(identity_public_key)),
            ("node_id"@, quoted(node_id)),
            ("type"@, quoted("client_ready"@)),
        ],
        NetEventView::PinRotated { pin_display, seconds_left, host_lan_ip } => seq![
            ("host_lan_ip"@, optional_text(host_lan_ip)),
            ("pin_display"@, quoted(pin_display)),
            ("seconds_left"@, decimal(seconds_left as nat)),
            ("type"@, quoted("pin_rotated"@)),
        ],
        NetEventView::PinCleared => seq![("type"@, quoted("pin_cleared"@))],
        NetEventView::Status(status) => match status {
            ConnStatus::Reconnecting { attempt, max } => seq![
                ("attempt"@, decimal(attempt as nat)),
                ("max"@, decimal(max as nat)),
                ("state"@, quoted(state_name(status))),
                ("type"@, quoted("status"@)),
            ],
            _ => seq![
                ("state"@, quoted(state_name(status))),
                ("type"@, quoted("status"@)),
            ],
        },
        NetEventView::PeerPaired { peer_node_id, peer_public_key } => seq![
            ("peer_node_id"@, quoted(peer_node_id)),
            ("peer_public_key"@, optional_text(peer_public_key)),
            ("type"@, quoted("peer_paired"@)),
        ],
        NetEventView::PeerCardReceived(card) => seq![
            ("card"@, quoted(card.json)),
            ("info"@, members_text(card_members(card, now))),
            ("type"@, quoted("peer_card_received"@)),
        ],
        NetEventView::PeerDisconnected => seq![("type"@, quoted("peer_disconnected"@))],
        NetEventView::ConnPath(paths) => seq![
            (
                "paths"@,
                array_text(paths.map_values(|p: ConnPathView| members_text(path_members(p)))),
            ),
            ("type"@, quoted("conn_path"@)),
        ],
        NetEventView::ItemReceived { text, pulled } => seq![
            ("pulled"@, value_text(JsonValue::Bool(pulled))),
            ("text"@, quoted(text)),
            ("type"@, quoted("item_received"@)),
        ],
        NetEventView::ItemSent => seq![("type"@, quoted("item_sent"@))],
        NetEventView::Error(message) => seq![
            ("message"@, quoted(message)),
            ("type"@, quoted("error"@)),
        ],
    }
}

/// The JSON text of an event at `now`.
pub open spec fn event_text(e: NetEventView, now: u64) -> Seq<char> {
    members_text(event_members(e, now))
}

fn put(out: &mut Vec<(String, String)>, key: &str, value: String)
    ensures
        members_view(final(out)@) == members_view(old(out)@).push((key@, value@)),
{
    out.push((key.to_owned(), value));
    assert(members_view(out@) =~= members_view(old(out)@).push((key@, value@)));
}

fn no_members() -> (r: Vec<(String, String)>)
    ensures
        members_view(r@) == Seq::<(Seq<char>, Seq<char>)>::empty(),
{
    let r: Vec<(String, String)> = Vec::new();
    assert(members_view(r@) =~= Seq::<(Seq<char>, Seq<char>)>::empty());
    r
}

/// What a host application is told about a card at `now`.
pub fn identity_card_json(card: &IdentityCard, now: u64) -> (r: String)
    ensures
        r@ == members_text(card_members(card@, now)),
{
    let remaining: u64 = card.remaining_secs_at(now);
    let mut out = no_members();
    put(&mut out, "created_at", number(card.created_at()));
    put(&mut out, "expired", boolean(!card.is_valid_at(now)));
    put(&mut out, "expires_at", number(card.expires_at()));
    put(&mut out, "fingerprint", quote(card.fingerprint().as_str()));
    put(&mut out, "name", quote(card.name()));
    put(&mut out, "needs_renewal", boolean(remaining < CARD_RENEW_BEFORE_SECS));
    put(&mut out, "npub", quote(card.npub().as_str()));
    put(&mut out, "public_key", quote(card.public_key().to_hex().as_str()));
    put(&mut out, "remaining_secs", number(remaining));
    put(&mut out, "short_name", quote(card.short_name().as_str()));
    put(&mut out, "suffix", quote(card.suffix().as_str()));
    assert(members_view(out@) =~= card_members(card@, now));
    object(&out)
}

fn path_json(path: &ConnPath) -> (r: String)
    ensures
        r@ == members_text(path_members(path@)),
{
    let mut out = no_members();
    put(&mut out, "display", quote(path.display.as_str()));
    let kind = match path.kind {
        ConnPathKind::Direct => quote("direct"),
        ConnPathKind::Relay => quote("relay"),
        ConnPathKind::Other => quote("other"),
    };
    put(&mut out, "kind", kind);
    put(&mut out, "selected", boolean(path.selected));
    assert(members_view(out@) =~= path_members(path@));
    object(&out)
}

fn paths_json(paths: &Vec<ConnPath>) -> (r: String)
    ensures
        r@ == array_text(
            crate::net::endpoint::path_views(paths@).map_values(
                |p: ConnPathView| members_text(path_members(p)),
            ),
        ),
{
    let mut items: Vec<String> = Vec::new();
    let mut i: usize = 0;
    while i < paths.len()
        invariant
            i <= paths@.len(),
            items@.len() == i,
            forall|j: int|
                0 <= j < i ==> (#[trigger] items@[j])@ == members_text(path_members(paths@[j]@)),
        decreases paths@.len() - i,
    {
        items.push(path_json(&paths[i]));
        i += 1;
    }
    assert(items@.map_values(|s: String| s@) =~= crate::net::endpoint::path_views(
        paths@,
    ).map_values(|p: ConnPathView| members_text(path_members(p))));
    array(&items)
}

fn state_text(status: ConnStatus) -> (r: String)
    ensures
        r@ == quoted(state_name(status)),
{
    match status {
        ConnStatus::Idle => quote("idle"),
        ConnStatus::Starting => quote("starting"),
        ConnStatus::Listening => quote("listening"),
        ConnStatus::Resolving => quote("resolving"),
        ConnStatus::Connecting => quote("connecting"),
        ConnStatus::Authenticating => quote("authenticating"),
        ConnStatus::Connected => quote("connected"),
        ConnStatus::Reconnecting { .. } => quote("reconnecting"),
    }
}

fn object_of_1(k1: &str, v1: String) -> (r: String)
    ensures
        r@ == members_text(seq![(k1@, v1@)]),
{
    let mut out = no_members();
    put(&mut out, k1, v1);
    assert(members_view(out@) =~= seq![(k1@, v1@)]);
    object(&out)
}

fn object_of_2(k1: &str, v1: String, k2: &str, v2: String) -> (r: String)
    ensures
        r@ == members_text(seq![(k1@, v1@), (k2@, v2@)]),
{
    let mut out = no_members();
    put(&mut out, k1, v1);
    put(&mut out, k2, v2);
    assert(members_view(out@) =~= seq![(k1@, v1@), (k2@, v2@)]);
    object(&out)
}

fn object_of_3(k1: &str, v1: String, k2: &str, v2: String, k3: &str, v3: String) -> (r: String)
    ensures
        r@ == members_text(seq![(k1@, v1@), (k2@, v2@), (k3@, v3@)]),
{
    let mut out = no_members();
    put(&mut out, k1, v1);
    put(&mut out, k2, v2);
    put(&mut out, k3, v3);
    assert(members_view(out@) =~= seq![(k1@, v1@), (k2@, v2@), (k3@, v3@)]);
    object(&out)
}

fn object_of_4(
    k1: &str,
    v1: String,
    k2: &str,
    v2: String,
    k3: &str,
    v3: String,
    k4: &str,
    v4: String,
) -> (r: String)
    ensures
        r@ == members_text(seq![(k1@, v1@), (k2@, v2@), (k3@, v3@), (k4@, v4@)]),
{
    let mut out = no_members();
    put(&mut out, k1, v1);
    put(&mut out, k2, v2);
    put(&mut out, k3, v3);
    put(&mut out, k4, v4);
    assert(members_view(out@) =~= seq![(k1@, v1@), (k2@, v2@), (k3@, v3@), (k4@, v4@)]);
    object(&out)
}

/// The JSON text of an event at `now`.
#[verifier::spinoff_prover]
#[verifier::rlimit(40)]
pub fn event_json_at(event: &NetEvent, now: u64) -> (r: String)
    ensures
        r@ == event_text(event@, now),
{
    match event {
        NetEvent::ServerReady { node_id, identity_public_key } => object_of_3(
            "identity_public_key",
            quote_optional(identity_public_key),
            "node_id",
            quote(node_id.as_str()),
            "type",
            quote("server_ready"),
        ),
        NetEvent::ClientReady { node_id, identity_public_key } => object_of_3(
            "identity_public_key",
            quote_optional(identity_public_key),
            "node_id",
            quote(node_id.as_str()),
            "type",
            quote("client_ready"),
        ),
        NetEvent::PinRotated { pin_display, seconds_left, host_lan_ip } => object_of_4(
            "host_lan_ip",
            quote_optional(host_lan_ip),
            "pin_display",
            quote(pin_display.as_str()),
            "seconds_left",
            number(*seconds_left),
            "type",
            quote("pin_rotated"),
        ),
        NetEvent::PinCleared => object_of_1("type", quote("pin_cleared")),
        NetEvent::Status(status) => match status {
            ConnStatus::Reconnecting { attempt, max } => object_of_4(
                "attempt",
                number(*attempt as u64),
                "max",
                number(*max as u64),
                "state",
                state_text(*status),
                "type",
                quote("status"),
            ),
            _ => object_of_2("state", state_text(*status), "type", quote("status")),
        },
        NetEvent::PeerPaired { peer_node_id, peer_public_key } => object_of_3(
            "peer_node_id",
            quote(peer_node_id.as_str()),
            "peer_public_key",
            quote_optional(peer_public_key),
            "type",
            quote("peer_paired"),
        ),
        NetEvent::PeerCardReceived(card) => object_of_3(
            "card",
            quote(card.encode().as_str()),
            "info",
            identity_card_json(card, now),
            "type",
            quote("peer_card_received"),
        ),
        NetEvent::PeerDisconnected => object_of_1("type", quote("peer_disconnected")),
        NetEvent::ConnPath(paths) => object_of_2(
            "paths",
            paths_json(paths),
            "type",
            quote("conn_path"),
        ),
        NetEvent::ItemReceived { text, pulled } => object_of_3(
            "pulled",
            boolean(*pulled),
            "text",
            quote(text.as_str()),
            "type",
            quote("item_received"),
        ),
        NetEvent::ItemSent => object_of_1("type", quote("item_sent")),
        NetEvent::Error(message) => object_of_2(
            "message",
            quote(message.as_str()),
            "type",
            quote("error"),
        ),
    }
}

/// The JSON text of an event, by the local clock.
pub fn event_json(event: &NetEvent) -> (r: String)
    ensures
        exists|now: u64| r@ == #[trigger] event_text(event@, now),
{
    let now: u64 = unix_now();
    event_json_at(event, now)
}

// ---------------------------------------------------------------------------
// Buffers
// ---------------------------------------------------------------------------

/// How many bytes of a text fit a buffer of `len` bytes beside the closing NUL,
/// without cutting a character.
pub open spec fn fitting(bytes: Seq<u8>, len: nat) -> nat {
    floor_boundary(bytes, (len - 1) as nat)
}

/// What a buffer holds after `s` was written to it: what fits of the text, a NUL, and
/// behind it what stood there before.
pub open spec fn written(buf: Seq<u8>, s: Seq<char>) -> Seq<u8> {
    let bytes = encode_utf8(s);
    let n = fitting(bytes, buf.len()) as int;
    if buf.len() == 0 {
        buf
    } else {
        bytes.take(n) + seq![0u8] + buf.skip(n + 1)
    }
}

proof fn fitting_is_boundary(bytes: Seq<u8>, i: nat)
    requires
        valid_utf8(bytes),
    ensures
        floor_boundary(bytes, i) <= i || floor_boundary(bytes, i) == bytes.len(),
        floor_boundary(bytes, i) <= bytes.len(),
        floor_boundary(bytes, i) <= i,
        is_char_boundary(bytes, floor_boundary(bytes, i) as int),
    decreases i,
{
    is_char_boundary_start_end_of_seq(bytes);
    if i < bytes.len() && i > 0 && !is_char_boundary(bytes, i as int) {
        fitting_is_boundary(bytes, (i - 1) as nat);
    }
}

/// What is written before the NUL is always whole characters from the front of the
/// text, and the whole text where it fits.
pub proof fn buffers_hold_whole_characters(s: Seq<char>, len: nat)
    requires
        len > 0,
    ensures
        fitting(encode_utf8(s), len) < len,
        is_char_boundary(encode_utf8(s), fitting(encode_utf8(s), len) as int),
        encode_utf8(s).len() < len <==> fitting(encode_utf8(s), len) == encode_utf8(s).len(),
{
    let bytes = encode_utf8(s);
    encode_utf8_valid_utf8(s);
    fitting_is_boundary(bytes, (len - 1) as nat);
}

/// Writes `s` into the buffer as a NUL-terminated string, cut at a character boundary
/// where it does not fit. Returns whether all of it was written.
pub fn write_cstr(buf: &mut Vec<u8>, s: &str) -> (r: bool)
    ensures
        final(buf)@ == written(old(buf)@, s@),
        r == (old(buf)@.len() > 0 && encode_utf8(s@).len() < old(buf)@.len()),
{
    let len: usize = buf.len();
    if len == 0 {
        return false;
    }
    let bytes: &[u8] = s.as_bytes();
    let total: usize = bytes.len();
    let mut copy: usize = if total < len - 1 {
        total
    } else {
        len - 1
    };
    proof {
        encode_utf8_valid_utf8(s@);
        is_char_boundary_start_end_of_seq(bytes@);
        fitting_is_boundary(bytes@, (len - 1) as nat);
    }
    while copy > 0 && !s.is_char_boundary(copy)
        invariant
            len > 0,
            bytes@ == s.spec_bytes(),
            bytes@ == encode_utf8(s@),
            valid_utf8(bytes@),
            is_char_boundary(bytes@, bytes@.len() as int),
            copy <= bytes@.len(),
            copy < len,
            floor_boundary(bytes@, copy as nat) == fitting(bytes@, len as nat),
        decreases copy,
    {
        copy -= 1;
    }
    let mut i: usize = 0;
    while i < copy
        invariant
            i <= copy < len,
            copy <= bytes@.len(),
            len == old(buf)@.len(),
            buf@ == bytes@.take(i as int) + old(buf)@.skip(i as int),
        decreases copy - i,
    {
        buf.set(i, bytes[i]);
        i += 1;
        assert(buf@ =~= bytes@.take(i as int) + old(buf)@.skip(i as int));
    }
    buf.set(copy, 0u8);
    assert(buf@ =~= written(old(buf)@, s@));
    copy == total
}

/// The delivery of events into a caller's buffers. An event that does not fit is kept
/// for the next call.
pub struct EventOutbox {
    pending: Option<String>,
}

impl View for EventOutbox {
    type V = Option<Seq<char>>;

    closed spec fn view(&self) -> Option<Seq<char>> {
        crate::json::text_view(self.pending)
    }
}

/// The text of an event that is offered at `now`, if one is.
pub open spec fn offered(event: Option<NetEvent>, now: u64) -> Option<Seq<char>> {
    match event {
        Some(e) => Some(event_text(e@, now)),
        None => None,
    }
}

/// The text that a call delivers where it fits: the kept one, or else the offered one.
pub open spec fn next_text(kept: Option<Seq<char>>, offer: Option<Seq<char>>) -> Option<Seq<char>> {
    match kept {
        Some(t) => Some(t),
        None => offer,
    }
}

/// The text that a call with a buffer of `room` bytes delivers, if it delivers one.
pub open spec fn delivered(kept: Option<Seq<char>>, offer: Option<Seq<char>>, room: nat) -> Option<
    Seq<char>,
> {
    match next_text(kept, offer) {
        Some(t) => if encode_utf8(t).len() < room {
            Some(t)
        } else {
            None
        },
        None => None,
    }
}

/// The text that is kept after such a call.
pub open spec fn kept_after(kept: Option<Seq<char>>, offer: Option<Seq<char>>, room: nat) -> Option<
    Seq<char>,
> {
    match next_text(kept, offer) {
        Some(t) => if encode_utf8(t).len() < room {
            None
        } else {
            Some(t)
        },
        None => None,
    }
}

/// The list of what an option holds.
pub open spec fn listed(text: Option<Seq<char>>) -> Seq<Seq<char>> {
    match text {
        Some(t) => seq![t],
        None => Seq::empty(),
    }
}

/// What is kept after a run of calls, each with what it was offered and its room.
pub open spec fn kept_after_all(
    kept: Option<Seq<char>>,
    calls: Seq<(Option<Seq<char>>, nat)>,
) -> Option<Seq<char>>
    decreases calls.len(),
{
    if calls.len() == 0 {
        kept
    } else {
        kept_after(
            kept_after_all(kept, calls.drop_last()),
            calls.last().0,
            calls.last().1,
        )
    }
}

/// What a run of calls delivers, in order.
pub open spec fn delivered_by_all(
    kept: Option<Seq<char>>,
    calls: Seq<(Option<Seq<char>>, nat)>,
) -> Seq<Seq<char>>
    decreases calls.len(),
{
    if calls.len() == 0 {
        Seq::empty()
    } else {
        delivered_by_all(kept, calls.drop_last()) + listed(
            delivered(
                kept_after_all(kept, calls.drop_last()),
                calls.last().0,
                calls.last().1,
            ),
        )
    }
}

/// What a run of calls was offered, in order.
pub open spec fn offered_to_all(calls: Seq<(Option<Seq<char>>, nat)>) -> Seq<Seq<char>>
    decreases calls.len(),
{
    if calls.len() == 0 {
        Seq::empty()
    } else {
        offered_to_all(calls.drop_last()) + listed(calls.last().0)
    }
}

/// Whether every call of a run offers an event only where none is kept.
pub open spec fn offers_in_turn(
    kept: Option<Seq<char>>,
    calls: Seq<(Option<Seq<char>>, nat)>,
) -> bool
    decreases calls.len(),
{
    calls.len() > 0 ==> {
        &&& offers_in_turn(kept, calls.drop_last())
        &&& kept_after_all(kept, calls.drop_last()) is Some ==> calls.last().0 is None
    }
}

/// A run of calls loses, repeats and reorders nothing: what was delivered and then what is
/// kept are what was kept at first and then what was offered, in order.
pub proof fn nothing_is_lost_repeated_or_reordered(
    kept: Option<Seq<char>>,
    calls: Seq<(Option<Seq<char>>, nat)>,
)
    requires
        offers_in_turn(kept, calls),
    ensures
        delivered_by_all(kept, calls) + listed(kept_after_all(kept, calls)) == listed(kept)
            + offered_to_all(calls),
    decreases calls.len(),
{
    if calls.len() == 0 {
        assert(listed(kept) + offered_to_all(calls) =~= listed(kept));
        assert(delivered_by_all(kept, calls) + listed(kept) =~= listed(kept));
    } else {
        let front = calls.drop_last();
        let (offer, room) = calls.last();
        nothing_is_lost_repeated_or_reordered(kept, front);
        let held = kept_after_all(kept, front);
        let (given, left) = (delivered(held, offer, room), kept_after(held, offer, room));
        assert(listed(given) + listed(left) =~= listed(held) + listed(offer));
        let before = delivered_by_all(kept, front);
        assert(before + listed(given) + listed(left) =~= before + (listed(given) + listed(left)));
        assert(before + (listed(held) + listed(offer)) =~= before + listed(held) + listed(offer));
        assert(listed(kept) + offered_to_all(front) + listed(offer) =~= listed(kept) + (
        offered_to_all(front) + listed(offer)));
    }
}

impl EventOutbox {
    /// Nothing kept.
    pub fn new() -> (r: EventOutbox)
        ensures
            r@ is None,
    {
        EventOutbox { pending: None }
    }

    /// Whether the next call takes an event from the queue, rather than the kept one.
    pub fn takes_event(&self) -> (r: bool)
        ensures
            r == (self@ is None),
    {
        self.pending.is_none()
    }

    /// Delivers the kept event, or else `event` as of `now`: 1 where it was written
    /// whole, -2 where it did not fit and is kept, 0 where there is none.
    pub fn deliver(&mut self, event: Option<NetEvent>, now: u64, buf: &mut Vec<u8>) -> (r: i32)
        requires
            old(self)@ is Some ==> event is None,
        ensures
            final(self)@ == kept_after(old(self)@, offered(event, now), old(buf)@.len()),
            match next_text(old(self)@, offered(event, now)) {
                None => r == 0 && final(buf)@ == old(buf)@,
                Some(t) => {
                    &&& final(buf)@ == written(old(buf)@, t)
                    &&& r == if delivered(old(self)@, offered(event, now), old(buf)@.len())
                        is Some {
                        1int
                    } else {
                        -2int
                    }
                },
            },
    {
        let json: String = match self.pending.take() {
            Some(json) => json,
            None => match event {
                Some(event) => event_json_at(&event, now),
                None => return 0,
            },
        };
        if write_cstr(buf, json.as_str()) {
            1
        } else {
            self.pending = Some(json);
            -2
        }
    }
}

// ---------------------------------------------------------------------------
// Entry points
// ---------------------------------------------------------------------------

/// Whether a text and its NUL fit a buffer.
pub open spec fn fits(buf: Seq<u8>, s: Seq<char>) -> bool {
    buf.len() > 0 && encode_utf8(s).len() < buf.len()
}

/// Writes a text: 1 where all of it was written, 0 where the buffer is too small.
pub fn write_result(buf: &mut Vec<u8>, s: &str) -> (r: i32)
    ensures
        final(buf)@ == written(old(buf)@, s@),
        r == if fits(old(buf)@, s@) {
            1int
        } else {
            0int
        },
{
    if write_cstr(buf, s) {
        1
    } else {
        0
    }
}

/// Reports a check: 1 where it passed, 0 with the reason in the buffer where it did not.
pub open spec fn reported(error: Option<Seq<char>>, before: Seq<u8>, after: Seq<u8>, r: i32) -> bool {
    match error {
        None => r == 1 && after == before,
        Some(e) => r == 0 && after == written(before, e),
    }
}

fn report(outcome: Result<(), String>, err: &mut Vec<u8>) -> (r: i32)
    ensures
        reported(
            match outcome {
                Ok(()) => None,
                Err(e) => Some(e@),
            },
            old(err)@,
            final(err)@,
            r,
        ),
{
    match outcome {
        Ok(()) => 1,
        Err(e) => {
            write_cstr(err, e.as_str());
            0
        },
    }
}

/// The text in a result that is an error.
pub open spec fn failure<T>(r: Result<T, Seq<char>>) -> Option<Seq<char>> {
    match r {
        Ok(_) => None,
        Err(e) => Some(e),
    }
}

/// Checks an identity private key.
pub fn validate_identity(private_key: &str, err: &mut Vec<u8>) -> (r: i32)
    ensures
        reported(failure(nsec_secret(private_key@)), old(err)@, final(err)@, r),
{
    let outcome: Result<(), String> = match Identity::parse_nsec(private_key) {
        Ok(_) => Ok(()),
        Err(e) => Err(e),
    };
    report(outcome, err)
}

/// Checks a short device name.
pub fn validate_device_name(name: &str, err: &mut Vec<u8>) -> (r: i32)
    ensures
        reported(name_error(name@), old(err)@, final(err)@, r),
{
    report(validate_name(name), err)
}

/// Checks a signed identity card. Expiry is no part of it.
pub fn validate_identity_card(card: &str, err: &mut Vec<u8>) -> (r: i32)
    ensures
        reported(failure(card_of_text(card@)), old(err)@, final(err)@, r),
{
    let outcome: Result<(), String> = match IdentityCard::parse(card) {
        Ok(_) => Ok(()),
        Err(e) => Err(e),
    };
    report(outcome, err)
}

/// Writes a text that there may be none of: 1 where all of it was written, 0 where the
/// buffer is too small, -1 with the buffer untouched where there is none.
pub open spec fn answered(text: Option<Seq<char>>, before: Seq<u8>, after: Seq<u8>, r: i32) -> bool {
    match text {
        None => r == -1 && after == before,
        Some(t) => after == written(before, t) && r == if fits(before, t) {
            1int
        } else {
            0int
        },
    }
}

/// The public key that belongs to an `nsec` text.
pub open spec fn nsec_public(private_key: Seq<char>) -> Option<Seq<u8>> {
    match nsec_secret(private_key) {
        Ok(secret) => secret_public(secret),
        Err(_) => None,
    }
}

/// Writes the bech32 public key of an identity private key.
pub fn identity_public_key(private_key: &str, out: &mut Vec<u8>) -> (r: i32)
    ensures
        answered(
            match nsec_public(private_key@) {
                Some(key) => Some(npub_text(key)),
                None => None,
            },
            old(out)@,
            final(out)@,
            r,
        ),
{
    match Identity::parse_nsec(private_key) {
        Ok(identity) => write_result(out, identity.to_npub().as_str()),
        Err(_) => -1,
    }
}

/// Writes the fingerprint of an identity private key's public key.
pub fn identity_fingerprint(private_key: &str, out: &mut Vec<u8>) -> (r: i32)
    ensures
        answered(
            match nsec_public(private_key@) {
                Some(key) => Some(fingerprint_of(key)),
                None => None,
            },
            old(out)@,
            final(out)@,
            r,
        ),
{
    match Identity::parse_nsec(private_key) {
        Ok(identity) => write_result(out, key_fingerprint(&identity.public_key()).as_str()),
        Err(_) => -1,
    }
}

/// The text of a card, if it was minted.
pub open spec fn minted_text(card: Result<IdentityCard, String>) -> Option<Seq<char>> {
    match card {
        Ok(card) => Some(card@.json),
        Err(_) => None,
    }
}

/// Whether a card that was minted at some time was written.
pub open spec fn card_written(
    key: Seq<u8>,
    name: Seq<char>,
    suffix: Seq<char>,
    before: Seq<u8>,
    after: Seq<u8>,
    r: i32,
) -> bool {
    exists|now: u64, card: Result<IdentityCard, String>| #[trigger]
        minted(key, name, suffix, now, card) && answered(minted_text(card), before, after, r)
}

/// Mints a card and writes it. A private key, a name or a suffix that is not valid gives
/// -1.
pub fn create_identity_card(private_key: &str, name: &str, suffix: &str, out: &mut Vec<u8>) -> (r:
    i32)
    ensures
        match nsec_public(private_key@) {
            None => r == -1 && final(out)@ == old(out)@,
            Some(key) => card_written(key, name@, suffix@, old(out)@, final(out)@, r),
        },
{
    let identity: Identity = match Identity::parse_nsec(private_key) {
        Ok(identity) => identity,
        Err(_) => return -1,
    };
    let card: Result<IdentityCard, String> = identity.card(name, suffix);
    let ghost key = identity.public_bytes();
    let ghost made = card;
    let ghost now = choose|now: u64| #[trigger] minted(key, name@, suffix@, now, made);
    let r: i32 = match card {
        Ok(card) => write_result(out, card.encode().as_str()),
        Err(_) => -1,
    };
    proof {
        assert(nsec_public(private_key@) == Some(key));
        assert(minted(key, name@, suffix@, now, made));
        assert(answered(minted_text(made), old(out)@, out@, r));
        assert(card_written(key, name@, suffix@, old(out)@, out@, r));
    }
    r
}

/// Writes what there is to know of a card at `now`, as JSON.
pub fn identity_card_info(card: &str, now: u64, out: &mut Vec<u8>) -> (r: i32)
    ensures
        answered(
            match card_of_text(card@) {
                Ok(card) => Some(members_text(card_members(card, now))),
                Err(_) => None,
            },
            old(out)@,
            final(out)@,
            r,
        ),
{
    match IdentityCard::parse(card) {
        Ok(card) => write_result(out, identity_card_json(&card, now).as_str()),
        Err(_) => -1,
    }
}

/// Writes how the entry of a host address is constrained, as JSON: the locked prefix, what
/// to type behind it, a hint on the range and the subnet's label.
pub fn join_ip_context(constraint: &JoinIpConstraint, out: &mut Vec<u8>) -> (r: i32)
    ensures
        answered(Some(members_text(join_ip_members(constraint@))), old(out)@, final(out)@, r),
{
    let mut members = no_members();
    put(&mut members, "hint", quote(constraint.hint().as_str()));
    put(&mut members, "label", quote(constraint.label().as_str()));
    put(&mut members, "placeholder", quote(constraint.host_placeholder().as_str()));
    put(&mut members, "prefix", quote(constraint.locked_prefix().as_str()));
    assert(members_view(members@) =~= join_ip_members(constraint@));
    write_result(out, object(&members).as_str())
}

/// The members of the description of a host-address entry.
pub open spec fn join_ip_members(subnets: Seq<SubnetView>) -> Members {
    seq![
        ("hint"@, quoted(entry_hint(subnets))),
        (
            "label"@,
            quoted(
                if subnets.len() > 0 {
                    subnets[0].label()
                } else {
                    Seq::<char>::empty()
                },
            ),
        ),
        ("placeholder"@, quoted(entry_placeholder(subnets))),
        ("prefix"@, quoted(entry_prefix(subnets))),
    ]
}

/// The code that the check of a host address returns, where `fitted` says whether its text
/// went into the buffer.
pub open spec fn entry_code(outcome: JoinIpOutcome, fitted: bool) -> int {
    match outcome {
        JoinIpOutcome::InRange(_) => if fitted {
            1
        } else {
            -1
        },
        JoinIpOutcome::OutOfRange => 0,
        JoinIpOutcome::Empty => 2,
        JoinIpOutcome::Malformed => -1,
    }
}

/// Checks the entry of a host address and writes the address: 1 where it was written, 0
/// where it is out of range, 2 where nothing was typed, -1 otherwise.
pub fn resolve_join_ip(constraint: &JoinIpConstraint, entry: &str, out: &mut Vec<u8>) -> (r: i32)
    ensures
        match resolved(constraint@, entry@) {
            JoinIpOutcome::InRange(ip) => final(out)@ == written(old(out)@, ip.text()) && r
                == if fits(old(out)@, ip.text()) {
                1int
            } else {
                -1int
            },
            JoinIpOutcome::OutOfRange => r == 0 && final(out)@ == old(out)@,
            JoinIpOutcome::Empty => r == 2 && final(out)@ == old(out)@,
            JoinIpOutcome::Malformed => r == -1 && final(out)@ == old(out)@,
        },
        r == entry_code(
            resolved(constraint@, entry@),
            match resolved(constraint@, entry@) {
                JoinIpOutcome::InRange(ip) => fits(old(out)@, ip.text()),
                _ => true,
            },
        ),
{
    match constraint.resolve(entry) {
        JoinIpOutcome::InRange(ip) => {
            if write_cstr(out, ip.to_text().as_str()) {
                1
            } else {
                -1
            }
        },
        JoinIpOutcome::OutOfRange => 0,
        JoinIpOutcome::Empty => 2,
        JoinIpOutcome::Malformed => -1,
    }
}

// ---------------------------------------------------------------------------
// What a host application is promised
// ---------------------------------------------------------------------------

/// What a buffer holds after a text was written to it: whole characters from the front of
/// the text, as many as fit, a NUL behind them, and nothing else changed.
pub proof fn buffers_hold_all_that_fits(buf: Seq<u8>, s: Seq<char>, k: int)
    requires
        buf.len() > 0,
        0 <= k <= s.len(),
        encode_utf8(s.take(k)).len() < buf.len(),
    ensures
        ({
            let n = fitting(encode_utf8(s), buf.len()) as int;
            let after = written(buf, s);
            &&& after.len() == buf.len()
            &&& encode_utf8(s.take(k)).len() <= n
            &&& after.take(n) == encode_utf8(s).take(n)
            &&& after[n] == 0
            &&& after.skip(n + 1) == buf.skip(n + 1)
            &&& is_char_boundary(encode_utf8(s), n)
        }),
{
    let bytes = encode_utf8(s);
    let n = fitting(bytes, buf.len()) as int;
    encode_utf8_valid_utf8(s);
    fitting_is_boundary(bytes, (buf.len() - 1) as nat);
    crate::manual_code::concatenation_has_a_boundary(s.take(k), s.skip(k));
    assert(s.take(k) + s.skip(k) =~= s);
    crate::text::encode_utf8_of_concat(s.take(k), s.skip(k));
    let j = encode_utf8(s.take(k)).len();
    if j > n {
        crate::protocol::floor_boundary_is_the_last(bytes, (buf.len() - 1) as nat, j);
    }
    let after = written(buf, s);
    assert(after.take(n) =~= bytes.take(n));
    assert(after.skip(n + 1) =~= buf.skip(n + 1));
}

/// A text that fits, with its NUL, is written whole; an empty buffer is left alone.
pub proof fn texts_that_fit_are_written_whole(buf: Seq<u8>, s: Seq<char>)
    ensures
        fits(buf, s) <==> encode_utf8(s).len() < buf.len(),
        fits(buf, s) ==> written(buf, s) == encode_utf8(s) + seq![0u8] + buf.skip(
            encode_utf8(s).len() as int + 1,
        ),
        buf.len() == 0 ==> written(buf, s) == buf,
{
    if fits(buf, s) {
        buffers_hold_whole_characters(s, buf.len());
        assert(encode_utf8(s).take(encode_utf8(s).len() as int) =~= encode_utf8(s));
    }
}

/// The kept text comes before anything that is offered; whichever comes is delivered where
/// it fits with its NUL, is kept where it does not, and is never both or neither.
pub proof fn texts_are_delivered_as_soon_as_they_fit(
    kept: Option<Seq<char>>,
    offer: Option<Seq<char>>,
    room: nat,
)
    ensures
        ({
            let next = if kept is Some {
                kept
            } else {
                offer
            };
            &&& next_text(kept, offer) == next
            &&& next matches Some(t) ==> {
                &&& encode_utf8(t).len() < room ==> delivered(kept, offer, room) == Some(t)
                    && kept_after(kept, offer, room) is None
                &&& encode_utf8(t).len() >= room ==> delivered(kept, offer, room) is None
                    && kept_after(kept, offer, room) == Some(t)
            }
            &&& next is None ==> delivered(kept, offer, room) is None && kept_after(
                kept,
                offer,
                room,
            ) is None
        }),
{
}

/// An endpoint that is ready is reported under its role, with its node id and its key.
pub proof fn ready_events_say_all_they_hold(a: Seq<char>, b: Option<Seq<char>>, now: u64)
    ensures
        event_members(NetEventView::ServerReady { node_id: a, identity_public_key: b }, now)
            == seq![
            ("identity_public_key"@, optional_text(b)),
            ("node_id"@, quoted(a)),
            ("type"@, quoted("server_ready"@)),
        ],
        event_members(NetEventView::ClientReady { node_id: a, identity_public_key: b }, now)
            == seq![
            ("identity_public_key"@, optional_text(b)),
            ("node_id"@, quoted(a)),
            ("type"@, quoted("client_ready"@)),
        ],
{
}

/// A PIN is reported as it is displayed, with its time and the address beside it; that none
/// is shown any more is reported too.
pub proof fn pin_events_say_all_they_hold(a: Seq<char>, b: Option<Seq<char>>, n: u64, now: u64)
    ensures
        event_members(
            NetEventView::PinRotated { pin_display: a, seconds_left: n, host_lan_ip: b },
            now,
        ) == seq![
            ("host_lan_ip"@, optional_text(b)),
            ("pin_display"@, quoted(a)),
            ("seconds_left"@, decimal(n as nat)),
            ("type"@, quoted("pin_rotated"@)),
        ],
        event_members(NetEventView::PinCleared, now) == seq![("type"@, quoted("pin_cleared"@))],
{
}

/// A peer is reported when it paired, with its node id and its key, when its card came, with
/// the card's text and what there is to know of it, and when it is lost.
pub proof fn peer_events_say_all_they_hold(
    a: Seq<char>,
    b: Option<Seq<char>>,
    card: CardView,
    now: u64,
)
    ensures
        event_members(NetEventView::PeerPaired { peer_node_id: a, peer_public_key: b }, now)
            == seq![
            ("peer_node_id"@, quoted(a)),
            ("peer_public_key"@, optional_text(b)),
            ("type"@, quoted("peer_paired"@)),
        ],
        event_members(NetEventView::PeerCardReceived(card), now) == seq![
            ("card"@, quoted(card.json)),
            ("info"@, members_text(card_members(card, now))),
            ("type"@, quoted("peer_card_received"@)),
        ],
        event_members(NetEventView::PeerDisconnected, now) == seq![
            ("type"@, quoted("peer_disconnected"@)),
        ],
{
}

/// An item is reported with its text and whether it was pulled, a sent one as sent, and an
/// error with its message.
pub proof fn item_events_say_all_they_hold(a: Seq<char>, now: u64)
    ensures
        event_members(NetEventView::ItemReceived { text: a, pulled: true }, now) == seq![
            ("pulled"@, "true"@),
            ("text"@, quoted(a)),
            ("type"@, quoted("item_received"@)),
        ],
        event_members(NetEventView::ItemReceived { text: a, pulled: false }, now) == seq![
            ("pulled"@, "false"@),
            ("text"@, quoted(a)),
            ("type"@, quoted("item_received"@)),
        ],
        event_members(NetEventView::ItemSent, now) == seq![("type"@, quoted("item_sent"@))],
        event_members(NetEventView::Error(a), now) == seq![
            ("message"@, quoted(a)),
            ("type"@, quoted("error"@)),
        ],
{
}

/// A coming attempt is reported with its number and the bound.
pub proof fn attempts_are_reported_against_their_bound(attempt: u32, max: u32, now: u64)
    ensures
        event_members(NetEventView::Status(ConnStatus::Reconnecting { attempt, max }), now)
            == seq![
            ("attempt"@, decimal(attempt as nat)),
            ("max"@, decimal(max as nat)),
            ("state"@, quoted("reconnecting"@)),
            ("type"@, quoted("status"@)),
        ],
{
}

/// Every status is reported as a state of its own.
pub proof fn states_are_told_apart(status: ConnStatus, now: u64)
    requires
        !(status is Reconnecting),
    ensures
        event_members(NetEventView::Status(status), now) == seq![
            (
                "state"@,
                quoted(
                    match status {
                        ConnStatus::Idle => "idle"@,
                        ConnStatus::Starting => "starting"@,
                        ConnStatus::Listening => "listening"@,
                        ConnStatus::Resolving => "resolving"@,
                        ConnStatus::Connecting => "connecting"@,
                        ConnStatus::Authenticating => "authenticating"@,
                        _ => "connected"@,
                    },
                ),
            ),
            ("type"@, quoted("status"@)),
        ],
{
}

/// Every path of a connection is reported, in order, with its kind, its line and whether it
/// is selected.
pub proof fn every_path_is_reported(paths: Seq<ConnPathView>, p: ConnPathView, now: u64)
    ensures
        event_members(NetEventView::ConnPath(paths), now).len() == 2,
        event_members(NetEventView::ConnPath(paths), now)[0] == (
            "paths"@,
            array_text(
                Seq::new(paths.len(), |i: int| members_text(path_members(paths[i]))),
            ),
        ),
        path_members(p) == seq![
            ("display"@, quoted(p.display)),
            (
                "kind"@,
                quoted(
                    if p.kind is Direct {
                        "direct"@
                    } else if p.kind is Relay {
                        "relay"@
                    } else {
                        "other"@
                    },
                ),
            ),
            (
                "selected"@,
                if p.selected {
                    "true"@
                } else {
                    "false"@
                },
            ),
        ],
{
    assert(paths.map_values(|p: ConnPathView| members_text(path_members(p))) =~= Seq::new(
        paths.len(),
        |i: int| members_text(path_members(paths[i])),
    ));
}

/// What is told of a card: its own times, key and names; whether it has expired, and how
/// long it lasts, at the time of asking; and that it needs renewal once less than the
/// renewal span is left.
pub proof fn cards_are_described_as_of_now(c: CardView, now: u64)
    ensures
        card_members(c, now).len() == 11,
        card_members(c, now)[0] == ("created_at"@, decimal(c.created_at as nat)),
        card_members(c, now)[1] == (
            "expired"@,
            if now < c.expires_at && c.created_at <= now + 300 {
                "false"@
            } else {
                "true"@
            },
        ),
        card_members(c, now)[2] == ("expires_at"@, decimal(c.expires_at as nat)),
        card_members(c, now)[3] == ("fingerprint"@, quoted(fingerprint_of(c.public_key))),
        card_members(c, now)[4] == ("name"@, quoted(c.name)),
        c.created_at <= now < c.expires_at ==> card_members(c, now)[5] == (
            "needs_renewal"@,
            if c.expires_at - now < CARD_RENEW_BEFORE_SECS {
                "true"@
            } else {
                "false"@
            },
        ),
        card_members(c, now)[6] == ("npub"@, quoted(npub_text(c.public_key))),
        card_members(c, now)[7] == ("public_key"@, quoted(hex_text(c.public_key))),
        c.created_at <= now < c.expires_at ==> card_members(c, now)[8] == (
            "remaining_secs"@,
            decimal((c.expires_at - now) as nat),
        ),
        now >= c.expires_at ==> card_members(c, now)[8] == ("remaining_secs"@, decimal(0)),
        split_identity(c.name) matches Ok((name, suffix)) ==> card_members(c, now)[9] == (
            "short_name"@,
            quoted(name),
        ) && card_members(c, now)[10] == ("suffix"@, quoted(suffix)),
{
}

/// A check that passed returns 1 and leaves the buffer alone; one that failed returns 0 and
/// writes its reason.
pub proof fn checks_report_their_reason(
    error: Option<Seq<char>>,
    before: Seq<u8>,
    after: Seq<u8>,
    r: i32,
)
    requires
        reported(error, before, after, r),
    ensures
        error is None <==> r == 1,
        error is Some <==> r == 0,
        error is None ==> after == before,
        error matches Some(e) ==> (encode_utf8(e).len() < before.len() ==> after.take(
            encode_utf8(e).len() as int + 1,
        ) == encode_utf8(e) + seq![0u8]),
{
    if let Some(e) = error {
        if encode_utf8(e).len() < before.len() {
            texts_that_fit_are_written_whole(before, e);
            assert(after.take(encode_utf8(e).len() as int + 1) =~= encode_utf8(e) + seq![0u8]);
        }
    }
}

/// A question that has no answer returns -1 and leaves the buffer alone; an answer is
/// written, and 1 says that all of it was.
pub proof fn answers_are_written(
    text: Option<Seq<char>>,
    before: Seq<u8>,
    after: Seq<u8>,
    r: i32,
)
    requires
        answered(text, before, after, r),
    ensures
        text is None <==> r == -1,
        text is None ==> after == before,
        text matches Some(t) ==> (r == 1 <==> encode_utf8(t).len() < before.len()),
        text matches Some(t) ==> (encode_utf8(t).len() < before.len() ==> after.take(
            encode_utf8(t).len() as int + 1,
        ) == encode_utf8(t) + seq![0u8]),
{
    if let Some(t) = text {
        if encode_utf8(t).len() < before.len() {
            texts_that_fit_are_written_whole(before, t);
            assert(after.take(encode_utf8(t).len() as int + 1) =~= encode_utf8(t) + seq![0u8]);
        }
    }
}

/// The code for a host address tells what was typed: 1 an address that was written, 2
/// nothing, 0 one that is out of range, and -1 anything else.
pub proof fn entry_codes_tell_what_was_typed(outcome: JoinIpOutcome, fitted: bool)
    ensures
        entry_code(outcome, fitted) == 1 <==> outcome is InRange && fitted,
        entry_code(outcome, fitted) == 2 <==> outcome is Empty,
        entry_code(outcome, fitted) == 0 <==> outcome is OutOfRange,
        entry_code(outcome, fitted) == -1 <==> outcome is Malformed || outcome is InRange
            && !fitted,
{
}

/// The description of a host-address entry holds what the entry is typed behind, what is
/// asked for, the range and the subnet, each of the first subnet; without a subnet its name
/// is empty.
pub proof fn entries_are_described_by_the_first_subnet(subnets: Seq<SubnetView>)
    ensures
        join_ip_members(subnets).len() == 4,
        join_ip_members(subnets)[0] == ("hint"@, quoted(entry_hint(subnets))),
        subnets.len() > 0 ==> join_ip_members(subnets)[1] == ("label"@, quoted(subnets[0].label())),
        subnets.len() == 0 ==> join_ip_members(subnets)[1] == (
            "label"@,
            quoted(Seq::<char>::empty()),
        ),
        join_ip_members(subnets)[2] == ("placeholder"@, quoted(entry_placeholder(subnets))),
        join_ip_members(subnets)[3] == ("prefix"@, quoted(entry_prefix(subnets))),
{
}

/// A private key that reads has the public key of the secret that it stands for; one that
/// does not has none.
pub proof fn public_keys_belong_to_their_secret(private_key: Seq<char>, secret: Seq<u8>)
    ensures
        nsec_secret(private_key) == Ok::<Seq<u8>, Seq<char>>(secret) ==> nsec_public(private_key)
            == secret_public(secret) && failure(nsec_secret(private_key)) is None,
        nsec_secret(private_key) matches Err(e) ==> nsec_public(private_key) is None && failure(
            nsec_secret(private_key),
        ) == Some(e),
{
}

/// A card that was written is one for the key that it was asked for, under the name and the
/// suffix it was asked for, and runs for thirty days. Where the name or the suffix is not
/// valid, nothing is written.
pub proof fn written_cards_are_as_asked_for(
    key: Seq<u8>,
    name: Seq<char>,
    suffix: Seq<char>,
    before: Seq<u8>,
    after: Seq<u8>,
    r: i32,
)
    requires
        card_written(key, name, suffix, before, after, r),
    ensures
        r == -1 ==> after == before,
        r == -1 || r == 0 || r == 1,
        r == 1 ==> exists|text: Seq<char>|
            #![trigger encode_utf8(text)]
            {
                &&& card_of_text(text) matches Ok(card) && card.public_key == key && card.name
                    == name + seq!['_'] + suffix && card.expires_at == card.created_at + 2592000
                &&& encode_utf8(text).len() < before.len()
                &&& after.take(encode_utf8(text).len() as int) == encode_utf8(text)
            },
        !(crate::identity::valid_name(name) && crate::identity::valid_suffix(suffix)) ==> r == -1,
{
    let (now, card) = choose|now: u64, card: Result<IdentityCard, String>| #[trigger]
        minted(key, name, suffix, now, card) && answered(minted_text(card), before, after, r);
    crate::identity::only_valid_names_pass(name);
    if crate::identity::valid_name(name) {
        crate::identity::only_valid_suffixes_split(name, suffix);
    }
    if let Ok(made) = card {
        let text = made@.json;
        if r == 1 {
            texts_that_fit_are_written_whole(before, text);
            assert(after.take(encode_utf8(text).len() as int) =~= encode_utf8(text));
        }
    }
}

} // verus!
