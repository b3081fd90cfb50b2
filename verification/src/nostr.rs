//! Signalling over relays: the events that carry pairwise hosting records, and what a
//! lookup makes of the events that a relay returns.

use vstd::prelude::*;
use vstd::string::*;
use vstd::utf8::*;

use crate::auth::{
    curve_point, event_of, event_signed, event_verifies, opened, read_event, secret_public,
    tagged_key, EventView, Identity, PublicKey, SignedEvent,
};
use crate::hash::{sha256, sha256_of};
use crate::hosting_record::{
    encrypt, pair_hash, pair_input, read_record, record_content, record_fields,
    record_fields_read_back, record_text, HOSTING_VERSION,
};
use crate::json::{field_map, parsed_object, writable};
use crate::node::{node_view, parsed_node, NodeId};
use crate::text::{decimal, hex_of, hex_text, push_decimal};

verus! {

/// The kind of a pairwise hosting event.
pub const HOSTING_KIND: u16 = 30385;

/// How long a hosting event stays up, in seconds.
pub const HOSTING_EVENT_TTL_SECS: u64 = 300;

/// How long to wait for a relay to connect, in seconds.
pub const CONNECT_TIMEOUT_SECS: u64 = 10;

/// How long a query may take, in seconds.
pub const LOOKUP_TIMEOUT_SECS: u64 = 15;

/// The relays of a default configuration.
pub const DEFAULT_NOSTR_RELAYS: [&'static str; 4] = [
    "wss://nos.lol",
    "wss://relay.nostr.net",
    "wss://relay.primal.net",
    "wss://relay.snort.social",
];

// ---------------------------------------------------------------------------
// Connecting
// ---------------------------------------------------------------------------

/// Why no connection is tried, or `None`: none of the configured relays could be added.
pub open spec fn relays_error(configured: nat, added: nat) -> Option<Seq<char>> {
    if added == 0 {
        Some("no usable nostr relays among "@ + decimal(configured) + " configured"@)
    } else {
        None
    }
}

/// Why there is no usable connection, or `None`: none of the added relays connected.
pub open spec fn connection_error(added: nat, connected: nat) -> Option<Seq<char>> {
    if connected == 0 {
        Some(
            "could not connect to any of "@ + decimal(added) + " nostr relays within "@ + decimal(
                CONNECT_TIMEOUT_SECS as nat,
            ) + "s"@,
        )
    } else {
        None
    }
}

/// Judges how many of the configured relays could be added.
pub fn relays_usable(configured: usize, added: usize) -> (r: Result<(), String>)
    ensures
        match r {
            Ok(()) => relays_error(configured as nat, added as nat) is None,
            Err(e) => relays_error(configured as nat, added as nat) == Some(e@),
        },
{
    if added == 0 {
        let mut e: String = "no usable nostr relays among ".to_owned();
        push_decimal(&mut e, configured as u64);
        e.append(" configured");
        return Err(e);
    }
    Ok(())
}

/// Judges how many of the added relays connected in time.
pub fn relays_connected(added: usize, connected: usize) -> (r: Result<(), String>)
    ensures
        match r {
            Ok(()) => connection_error(added as nat, connected as nat) is None,
            Err(e) => connection_error(added as nat, connected as nat) == Some(e@),
        },
{
    if connected == 0 {
        let mut e: String = "could not connect to any of ".to_owned();
        push_decimal(&mut e, added as u64);
        e.append(" nostr relays within ");
        push_decimal(&mut e, CONNECT_TIMEOUT_SECS);
        e.append("s");
        return Err(e);
    }
    Ok(())
}

// ---------------------------------------------------------------------------
// Publishing
// ---------------------------------------------------------------------------

/// The `d` tag of a hosting event: the digest of the pair's digest, in hexadecimal.
pub open spec fn pair_tag(host: Seq<u8>, peer: Seq<u8>) -> Seq<char> {
    "duocb:hosting:v1:"@ + hex_text(
        sha256(sha256(pair_input("duocb:pairwise-hosting:v1"@, host, peer))),
    )
}

/// The `d` tag of the event that `host` publishes for `peer`.
pub fn pair_dtag(host: PublicKey, peer: PublicKey) -> (r: String)
    ensures
        r@ == pair_tag(host@, peer@),
{
    let digest: [u8; 32] = pair_hash("duocb:pairwise-hosting:v1", host, peer);
    let outer: [u8; 32] = sha256_of(&digest);
    let mut out: String = "duocb:hosting:v1:".to_owned();
    out.append(hex_of(&outer).as_str());
    out
}

/// When a record published at `now` expires.
pub open spec fn hosting_expiry(now: u64) -> u64 {
    if now + HOSTING_EVENT_TTL_SECS <= u64::MAX {
        (now + HOSTING_EVENT_TTL_SECS) as u64
    } else {
        u64::MAX
    }
}

/// Whether `json` is the event that `host` publishes at `now` for `peer`, which tells it
/// that the host is reachable at `node`.
pub open spec fn hosting_event_for(
    json: Seq<char>,
    host: Seq<u8>,
    peer: Seq<u8>,
    node: Seq<u8>,
    now: u64,
) -> bool {
    &&& event_signed(json)
    &&& event_of(json) matches Some(e) && {
        &&& e.json == json
        &&& e.public_key == host
        &&& e.created_at == now
        &&& e.kind == HOSTING_KIND
        &&& e.identifier == Some(pair_tag(host, peer))
        &&& e.recipient == tagged_key(host, Some(peer))
        &&& e.expiration == Some(hosting_expiry(now))
        &&& forall|secret: Seq<u8>| #[trigger]
            secret_public(secret) == Some(peer) ==> opened(secret, host, e.content) == Some(
                record_text(node),
            )
    }
}

/// The event that tells `peer` where this host is reachable. It fails only for a peer
/// whose key is no point on the curve.
pub fn hosting_event(identity: &Identity, peer: PublicKey, node_id: &NodeId, now: u64) -> (r: Result<
    String,
    String,
>)
    ensures
        match r {
            Ok(json) => curve_point(peer@) && hosting_event_for(
                json@,
                identity.public_bytes(),
                peer@,
                node_id@,
                now,
            ),
            Err(e) => !curve_point(peer@) && e@ == "encrypting pairwise hosting record"@,
        },
{
    let content: String = match encrypt(identity, peer, node_id) {
        Ok(content) => content,
        Err(e) => return Err(e),
    };
    let tag: String = pair_dtag(identity.public_key(), peer);
    proof {
        reveal_strlit("duocb:hosting:v1:");
    }
    Ok(
        identity.sign_record(
            HOSTING_KIND,
            content.as_str(),
            tag.as_str(),
            Some(peer),
            now.saturating_add(HOSTING_EVENT_TTL_SECS),
            now,
        ),
    )
}

/// Whether every send succeeded.
pub open spec fn all_sent(sends: Seq<bool>) -> bool {
    !sends.contains(false)
}

/// The outcome of publishing: an error where one of the sends failed.
pub fn publish_outcome(sends: &Vec<bool>) -> (r: Result<(), String>)
    ensures
        match r {
            Ok(()) => forall|i: int| 0 <= i < sends@.len() ==> #[trigger] sends@[i],
            Err(e) => e@ == "publishing pairwise hosting record"@ && exists|i: int|
                0 <= i < sends@.len() && !#[trigger] sends@[i],
        },
        r is Ok <==> all_sent(sends@),
{
    let mut i: usize = 0;
    while i < sends.len()
        invariant
            i <= sends@.len(),
            forall|j: int| 0 <= j < i ==> #[trigger] sends@[j],
        decreases sends@.len() - i,
    {
        if !sends[i] {
            assert(sends@[i as int] == false);
            return Err("publishing pairwise hosting record".to_owned());
        }
        i += 1;
    }
    Ok(())
}

// ---------------------------------------------------------------------------
// Looking up
// ---------------------------------------------------------------------------

/// The events that a list of JSON texts holds.
pub open spec fn readable_events(texts: Seq<String>) -> Seq<EventView>
    decreases texts.len(),
{
    if texts.len() == 0 {
        Seq::empty()
    } else {
        match event_of(texts.last()@) {
            Some(e) => readable_events(texts.drop_last()).push(e),
            None => readable_events(texts.drop_last()),
        }
    }
}

/// The newest event, and among events of one second the last.
pub open spec fn newest(events: Seq<EventView>) -> Option<EventView>
    decreases events.len(),
{
    if events.len() == 0 {
        None
    } else {
        match newest(events.drop_last()) {
            Some(e) => if e.created_at > events.last().created_at {
                Some(e)
            } else {
                Some(events.last())
            },
            None => Some(events.last()),
        }
    }
}

/// The newest event is one of the events, and none of them is newer.
pub proof fn newest_is_newest(events: Seq<EventView>)
    ensures
        newest(events) is None <==> events.len() == 0,
        newest(events) matches Some(e) ==> events.contains(e) && forall|i: int|
            0 <= i < events.len() ==> (#[trigger] events[i]).created_at <= e.created_at,
    decreases events.len(),
{
    if events.len() > 0 {
        newest_is_newest(events.drop_last());
        let e = newest(events)->0;
        if e == events.last() {
            assert(events[events.len() - 1] == e);
        } else {
            let i = choose|i: int| 0 <= i < events.drop_last().len() && events.drop_last()[i] == e;
            assert(events[i] == e);
        }
        assert forall|i: int| 0 <= i < events.len() implies (#[trigger] events[i]).created_at
            <= e.created_at by {
            if i < events.len() - 1 {
                assert(events.drop_last()[i] == events[i]);
            }
        }
    }
}

/// What the holder of `secret` makes of the newest event of a host: the node it hosts
/// at, nothing, or an error.
pub open spec fn looked_up(secret: Seq<u8>, host: Seq<u8>, event: Option<EventView>) -> Result<
    Option<Seq<u8>>,
    Seq<char>,
> {
    match event {
        None => Ok(None),
        Some(e) => if !event_signed(e.json) {
            Err("hosting record signature is invalid"@)
        } else {
            match opened(secret, host, e.content) {
                None => Err("decrypting pairwise hosting record"@),
                Some(text) => match record_content(parsed_object(encode_utf8(text))) {
                    None => Err("hosting record payload is invalid"@),
                    Some((version, node)) => if version != HOSTING_VERSION {
                        Ok(None)
                    } else {
                        Ok(parsed_node(node))
                    },
                },
            }
        },
    }
}

/// The newest of the events in a list of JSON texts; texts that hold no event do not
/// count.
fn newest_event(texts: &Vec<String>) -> (r: Option<SignedEvent>)
    ensures
        event_view(r) == newest(readable_events(texts@)),
        r matches Some(e) ==> event_of(e.json@) == Some(e@),
{
    let mut best: Option<SignedEvent> = None;
    let mut i: usize = 0;
    while i < texts.len()
        invariant
            i <= texts@.len(),
            event_view(best) == newest(readable_events(texts@.take(i as int))),
            best matches Some(e) ==> event_of(e.json@) == Some(e@),
        decreases texts@.len() - i,
    {
        proof {
            assert(texts@.take(i + 1).drop_last() =~= texts@.take(i as int));
        }
        let ghost before = readable_events(texts@.take(i as int));
        match read_event(texts[i].as_str()) {
            Some(event) => {
                proof {
                    assert(before.push(event@).drop_last() =~= before);
                    assert(before.push(event@).last() == event@);
                }
                best = match best {
                    Some(e) => if e.created_at > event.created_at {
                        Some(e)
                    } else {
                        Some(event)
                    },
                    None => Some(event),
                };
            },
            None => {},
        }
        i += 1;
    }
    assert(texts@.take(i as int) =~= texts@);
    best
}

/// The view of an optional event.
pub open spec fn event_view(e: Option<SignedEvent>) -> Option<EventView> {
    match e {
        Some(e) => Some(e@),
        None => None,
    }
}

/// Finds where a trusted peer hosts, from the events that a query for the peer's hosting
/// record returned, each in its JSON form. The newest event counts.
pub fn hosted_node(identity: &Identity, peer: PublicKey, events: &Vec<String>) -> (r: Result<
    Option<NodeId>,
    String,
>)
    ensures
        match r {
            Ok(node) => looked_up(
                identity.secret_bytes(),
                peer@,
                newest(readable_events(events@)),
            ) == Ok::<Option<Seq<u8>>, Seq<char>>(node_view(node)),
            Err(e) => looked_up(
                identity.secret_bytes(),
                peer@,
                newest(readable_events(events@)),
            ) == Err::<Option<Seq<u8>>, Seq<char>>(e@),
        },
        forall|node: NodeId, now: u64|
            #![trigger record_text(node@), hosting_event_for(events@[0]@, peer@, identity.public_bytes(), node@, now)]
            events@.len() == 1 && hosting_event_for(
                events@[0]@,
                peer@,
                identity.public_bytes(),
                node@,
                now,
            ) && parsed_node(hex_text(node@)) == Some(node@) && secret_public(
                identity.secret_bytes(),
            ) == Some(identity.public_bytes()) ==> r is Ok && node_view(r->Ok_0) == Some(node@),
{
    proof {
        assert forall|node: NodeId| true implies writable(
            #[trigger] record_fields(hex_text(node@)),
        ) && record_content(Some(field_map(record_fields(hex_text(node@))))) == Some(
            (HOSTING_VERSION, hex_text(node@)),
        ) by {
            record_fields_read_back(hex_text(node@));
        }
        if events@.len() == 1 {
            assert(events@.drop_last() =~= Seq::empty());
            reveal_with_fuel(readable_events, 2);
            reveal_with_fuel(newest, 2);
            if event_of(events@[0]@) is Some {
                let e = event_of(events@[0]@)->0;
                assert(readable_events(events@) =~= seq![e]);
                assert(seq![e].drop_last() =~= Seq::empty());
            }
        }
    }
    let event: SignedEvent = match newest_event(events) {
        Some(event) => event,
        None => return Ok(None),
    };
    if !event_verifies(event.json.as_str()) {
        return Err("hosting record signature is invalid".to_owned());
    }
    let text: String = match identity.open_from(peer, event.content.as_str()) {
        Some(text) => text,
        None => return Err("decrypting pairwise hosting record".to_owned()),
    };
    match read_record(text.as_str()) {
        None => Err("hosting record payload is invalid".to_owned()),
        Some((version, node)) => if version != HOSTING_VERSION {
            Ok(None)
        } else {
            Ok(NodeId::parse(node.as_str()))
        },
    }
}

// ---------------------------------------------------------------------------
// What a lookup promises
// ---------------------------------------------------------------------------

/// Every text that holds an event counts, in the order of the list, and no other does.
pub proof fn every_readable_event_counts(texts: Seq<String>)
    ensures
        readable_events(texts) == texts.filter(|t: String| event_of(t@) is Some).map_values(
            |t: String| event_of(t@)->0,
        ),
    decreases texts.len(),
{
    reveal(Seq::filter);
    if texts.len() > 0 {
        every_readable_event_counts(texts.drop_last());
    }
    assert(readable_events(texts) =~= texts.filter(
        |t: String| event_of(t@) is Some,
    ).map_values(|t: String| event_of(t@)->0));
}

/// Of several events the one counts that no other is newer than, and of those the last.
pub proof fn the_last_of_the_newest_counts(events: Seq<EventView>, i: int)
    requires
        0 <= i < events.len(),
        forall|j: int|
            0 <= j < i ==> (#[trigger] events[j]).created_at <= events[i].created_at,
        forall|j: int|
            i < j < events.len() ==> (#[trigger] events[j]).created_at < events[i].created_at,
    ensures
        newest(events) == Some(events[i]),
    decreases events.len(),
{
    let front = events.drop_last();
    if i == events.len() - 1 {
        newest_is_newest(front);
        if let Some(e) = newest(front) {
            let k = choose|k: int| 0 <= k < front.len() && front[k] == e;
            assert(events[k] == e);
        }
    } else {
        the_last_of_the_newest_counts(front, i);
        assert(events[events.len() - 1].created_at < events[i].created_at);
    }
}

/// A lookup finds a node exactly where the newest event is well signed, opens for its
/// reader, and holds a record of the version in use with the id of a node; each way to fall
/// short of that is reported as what it is, and a record of another version as none.
pub proof fn lookups_say_what_they_found(
    secret: Seq<u8>,
    host: Seq<u8>,
    e: EventView,
    node: Seq<u8>,
)
    ensures
        looked_up(secret, host, None) == Ok::<Option<Seq<u8>>, Seq<char>>(None),
        !event_signed(e.json) ==> looked_up(secret, host, Some(e)) == Err::<
            Option<Seq<u8>>,
            Seq<char>,
        >("hosting record signature is invalid"@),
        event_signed(e.json) && opened(secret, host, e.content) is None ==> looked_up(
            secret,
            host,
            Some(e),
        ) == Err::<Option<Seq<u8>>, Seq<char>>("decrypting pairwise hosting record"@),
        looked_up(secret, host, Some(e)) == Ok::<Option<Seq<u8>>, Seq<char>>(Some(node)) <==> {
            &&& event_signed(e.json)
            &&& opened(secret, host, e.content) is Some
            &&& record_content(parsed_object(encode_utf8(opened(secret, host, e.content)->0))) matches
                Some((version, text)) && version == 1 && parsed_node(text) == Some(node)
        },
        event_signed(e.json) && opened(secret, host, e.content) is Some && record_content(
            parsed_object(encode_utf8(opened(secret, host, e.content)->0)),
        ) is None ==> looked_up(secret, host, Some(e)) == Err::<Option<Seq<u8>>, Seq<char>>(
            "hosting record payload is invalid"@,
        ),
{
}

/// What a host publishes is what its peer finds: the event for a peer, read by the holder of
/// that peer's secret, leads to the node that it was published for.
pub proof fn a_published_record_is_found(
    json: Seq<char>,
    host: Seq<u8>,
    peer: Seq<u8>,
    node: Seq<u8>,
    now: u64,
    secret: Seq<u8>,
)
    requires
        hosting_event_for(json, host, peer, node, now),
        secret_public(secret) == Some(peer),
        parsed_object(encode_utf8(record_text(node))) == Some(
            field_map(record_fields(hex_text(node))),
        ),
        parsed_node(hex_text(node)) == Some(node),
    ensures
        looked_up(secret, host, event_of(json)) == Ok::<Option<Seq<u8>>, Seq<char>>(Some(node)),
        event_of(json)->0.public_key == host,
        event_of(json)->0.kind == 30385,
        event_of(json)->0.created_at == now,
        event_of(json)->0.identifier == Some(pair_tag(host, peer)),
        host != peer ==> event_of(json)->0.recipient == Some(peer),
        now <= u64::MAX - 300 ==> event_of(json)->0.expiration == Some((now + 300) as u64),
{
    record_fields_read_back(hex_text(node));
}

/// Relays are usable as soon as one is, and unusable where none is.
pub proof fn one_relay_is_enough(configured: nat, added: nat, connected: nat)
    ensures
        relays_error(configured, added) is None <==> added > 0,
        connection_error(added, connected) is None <==> connected > 0,
        connection_error(added, 0) == Some(
            "could not connect to any of "@ + decimal(added) + " nostr relays within "@ + decimal(
                10,
            ) + "s"@,
        ),
        relays_error(configured, 0) == Some(
            "no usable nostr relays among "@ + decimal(configured) + " configured"@,
        ),
{
}

/// The tag of an event shows the digest of its pair's digest whole.
pub proof fn tags_show_the_digest_of_their_pair(
    host: Seq<u8>,
    peer: Seq<u8>,
    other_host: Seq<u8>,
    other_peer: Seq<u8>,
)
    requires
        pair_tag(host, peer) == pair_tag(other_host, other_peer),
    ensures
        sha256(sha256(encode_utf8("duocb:pairwise-hosting:v1"@) + host + peer)) == sha256(
            sha256(encode_utf8("duocb:pairwise-hosting:v1"@) + other_host + other_peer),
        ),
{
    let p = "duocb:hosting:v1:"@;
    let c = sha256(sha256(pair_input("duocb:pairwise-hosting:v1"@, host, peer)));
    let d = sha256(sha256(pair_input("duocb:pairwise-hosting:v1"@, other_host, other_peer)));
    assert((p + hex_text(c)).skip(p.len() as int) =~= hex_text(c));
    assert((p + hex_text(d)).skip(p.len() as int) =~= hex_text(d));
    crate::text::hex_text_is_unique(c, d);
}

/// Publishing succeeded exactly where every send did, whatever their number.
pub proof fn one_failed_send_fails_all(sends: Seq<bool>, i: int)
    ensures
        0 <= i < sends.len() && !sends[i] ==> !all_sent(sends),
        (forall|j: int| 0 <= j < sends.len() ==> #[trigger] sends[j]) ==> all_sent(sends),
{
    if 0 <= i < sends.len() && !sends[i] {
        assert(sends[i] == false);
    }
}

} // verus!
