//! The pairwise hosting record: a host's ephemeral node id, encrypted for one trusted
//! peer, and the labels under which the two find it.

use vstd::prelude::*;
use vstd::string::*;
use vstd::utf8::*;

use crate::auth::{
    curve_point, in_base64, opened, secret_public, Identity, PublicKey, SEALED_RECORD_CHARS,
};
use crate::hash::{push_bytes, sha256, sha256_of};
use crate::json::{
    field_count, field_map, member_texts, members_text, members_view, number, object, object_text,
    parse_object, parsed_object, plain_text_is_not_escaped, quote, text_at, text_field, unsigned_at,
    unsigned_field, writable, Fields, JsonValue,
};
use crate::node::{node_ids_are_short, parsed_node, NodeId};
use crate::text::{
    ascii, ascii_takes_a_byte_each, hex_of, hex_text, hex_text_shape, trim, trimmed,
    trimming_keeps_tight_text,
};

verus! {

/// What a pair's label is taken over: a domain separator and the two keys, the host's
/// first.
pub open spec fn pair_input(domain: Seq<char>, host: Seq<u8>, peer: Seq<u8>) -> Seq<u8> {
    encode_utf8(domain) + host + peer
}

/// The digest that stands for an ordered pair of keys.
pub fn pair_hash(domain: &str, host: PublicKey, peer: PublicKey) -> (r: [u8; 32])
    ensures
        r@ == sha256(pair_input(domain@, host@, peer@)),
{
    let mut input: Vec<u8> = Vec::new();
    push_bytes(&mut input, domain.as_bytes());
    push_bytes(&mut input, &host.bytes);
    push_bytes(&mut input, &peer.bytes);
    assert(input@ =~= pair_input(domain@, host@, peer@));
    sha256_of(input.as_slice())
}

/// Two pairs have one label only where their digests collide: what is hashed differs
/// with the host, with the peer and with their order.
pub proof fn pairs_are_ordered(
    domain: Seq<char>,
    host: Seq<u8>,
    peer: Seq<u8>,
    other_host: Seq<u8>,
    other_peer: Seq<u8>,
)
    requires
        host.len() == 32,
        peer.len() == 32,
        other_host.len() == 32,
        other_peer.len() == 32,
        pair_input(domain, host, peer) == pair_input(domain, other_host, other_peer),
    ensures
        host == other_host,
        peer == other_peer,
{
    let n = encode_utf8(domain).len() as int;
    let a = pair_input(domain, host, peer);
    let b = pair_input(domain, other_host, other_peer);
    assert(host =~= a.subrange(n, n + 32));
    assert(other_host =~= b.subrange(n, n + 32));
    assert(peer =~= a.subrange(n + 32, n + 64));
    assert(other_peer =~= b.subrange(n + 32, n + 64));
}

/// The `d` tag under which a host publishes its record for a peer.
pub open spec fn nostr_label(host: Seq<u8>, peer: Seq<u8>) -> Seq<char> {
    "duocb:hosting:v1:"@ + hex_text(sha256(pair_input("duocb:pairwise-hosting:v1"@, host, peer)))
}

/// The service instance under which a host advertises its record for a peer on the
/// local network.
pub open spec fn lan_label(host: Seq<u8>, peer: Seq<u8>) -> Seq<char> {
    hex_text(sha256(pair_input("duocb:pairwise-hosting-lan:v1"@, host, peer))).take(32)
}

/// The `d` tag for a pair.
pub fn nostr_dtag(host: PublicKey, peer: PublicKey) -> (r: String)
    ensures
        r@ == nostr_label(host@, peer@),
{
    let digest: [u8; 32] = pair_hash("duocb:pairwise-hosting:v1", host, peer);
    let mut out: String = "duocb:hosting:v1:".to_owned();
    out.append(hex_of(&digest).as_str());
    out
}

/// The service instance for a pair: the first half of the digest, which fits a DNS
/// label.
pub fn lan_instance(host: PublicKey, peer: PublicKey) -> (r: String)
    ensures
        r@ == lan_label(host@, peer@),
        r@.len() == 32,
        encode_utf8(r@).len() == 32,
{
    let digest: [u8; 32] = pair_hash("duocb:pairwise-hosting-lan:v1", host, peer);
    let hex: String = hex_of(&digest);
    proof {
        hex_text_shape(digest@);
        assert(hex@.take(32) =~= hex@.subrange(0, 32));
    }
    let r = hex.as_str().substring_char(0, 32).to_owned();
    assert(is_ascii_chars(r@));
    proof {
        is_ascii_chars_encode_utf8(r@);
    }
    r
}

/// Version of the record.
pub const HOSTING_VERSION: u64 = 1;

/// The fields of the record for a node id.
pub open spec fn record_fields(node: Seq<char>) -> Fields {
    seq![
        ("version"@, JsonValue::Unsigned(HOSTING_VERSION)),
        ("node_id"@, JsonValue::Text(node)),
    ]
}

/// The text of the record for a node.
pub open spec fn record_text(node: Seq<u8>) -> Seq<char> {
    object_text(record_fields(hex_text(node)))
}

/// The version and the node id in a record, which holds these two fields and no other.
pub open spec fn record_content(m: Option<Map<Seq<char>, JsonValue>>) -> Option<(u64, Seq<char>)> {
    match m {
        None => None,
        Some(m) => match (unsigned_at(m, "version"@), text_at(m, "node_id"@)) {
            (Some(version), Some(node)) => if m.dom().len() == 2 && version <= u32::MAX {
                Some((version, node))
            } else {
                None
            },
            _ => None,
        },
    }
}

/// The node that the holder of `secret` reads from a record that `host` sealed. A record
/// that is for someone else, malformed, of another version or without a node id counts
/// as none.
pub open spec fn recorded_node(secret: Seq<u8>, host: Seq<u8>, content: Seq<char>) -> Option<
    Seq<u8>,
> {
    match opened(secret, host, content) {
        None => None,
        Some(text) => match record_content(parsed_object(encode_utf8(text))) {
            Some((version, node)) => if version == HOSTING_VERSION {
                parsed_node(trimmed(node))
            } else {
                None
            },
            None => None,
        },
    }
}

/// The fields of a record read back.
pub proof fn record_fields_read_back(node: Seq<char>)
    ensures
        writable(record_fields(node)),
        record_content(Some(field_map(record_fields(node)))) == Some((HOSTING_VERSION, node)),
{
    reveal_strlit("version");
    reveal_strlit("node_id");
    assert("version"@[0] == 'v');
    assert("node_id"@[0] == 'n');
    reveal_with_fuel(field_map, 3);
    let f = record_fields(node);
    let m0 = Map::<Seq<char>, JsonValue>::empty();
    let m1 = m0.insert(f[0].0, f[0].1);
    let m2 = m1.insert(f[1].0, f[1].1);
    assert(f.drop_last().drop_last() =~= Seq::empty());
    assert(field_map(f) == m2);
    assert(m1.dom() =~= m0.dom().insert("version"@));
    assert(m2.dom() =~= m1.dom().insert("node_id"@));
    assert(m0.dom().len() == 0);
    assert(m2.dom().len() == 2);
}

/// A record takes ninety bytes, which can be sealed.
pub proof fn records_can_be_sealed(node: Seq<u8>)
    requires
        node.len() == 32,
    ensures
        encode_utf8(record_text(node)).len() == 90,
{
    reveal_strlit("version");
    reveal_strlit("node_id");
    hex_text_shape(node);
    let hex = hex_text(node);
    plain_text_is_not_escaped(hex);
    plain_text_is_not_escaped("version"@);
    plain_text_is_not_escaped("node_id"@);
    let m = member_texts(record_fields(hex));
    assert(m.drop_last() =~= seq![m[0]]);
    reveal(members_text);
    reveal_with_fuel(crate::json::joined, 3);
    assert(m[0].1 == crate::text::decimal(1));
    assert(m[1].1 == crate::json::quoted(hex));
    let text = record_text(node);
    assert(crate::text::decimal(1) =~= seq!['1']);
    assert(text =~= seq!['{', '"'] + "version"@ + seq!['"', ':', '1', ',', '"'] + "node_id"@ + seq![
        '"',
        ':',
        '"',
    ] + hex + seq!['"', '}']);
    assert(ascii(text));
    ascii_takes_a_byte_each(text);
}

/// Tight text, such as a node id in hexadecimal digits, is its own trimmed form.
proof fn hex_is_tight(node: Seq<u8>)
    requires
        node.len() > 0,
    ensures
        trimmed(hex_text(node)) == hex_text(node),
{
    hex_text_shape(node);
    trimming_keeps_tight_text(hex_text(node));
}

/// Encrypts a host's node id for one trusted peer: whoever holds the peer's secret key
/// reads the record of that node.
pub fn encrypt(identity: &Identity, peer: PublicKey, node_id: &NodeId) -> (r: Result<
    String,
    String,
>)
    ensures
        match r {
            Ok(content) => curve_point(peer@) && in_base64(content@) && content@.len()
                == SEALED_RECORD_CHARS && forall|secret: Seq<u8>| #[trigger]
                secret_public(secret) == Some(peer@) ==> opened(
                    secret,
                    identity.public_bytes(),
                    content@,
                ) == Some(record_text(node_id@)),
            Err(e) => !curve_point(peer@) && e@ == "encrypting pairwise hosting record"@,
        },
{
    let node: String = node_id.to_text();
    let mut members: Vec<(String, String)> = Vec::new();
    members.push(("version".to_owned(), number(HOSTING_VERSION)));
    members.push(("node_id".to_owned(), quote(node.as_str())));
    let payload: String = object(&members);
    proof {
        node_ids_are_short(*node_id);
        records_can_be_sealed(node_id@);
        assert(members_view(members@) =~= member_texts(record_fields(node@)));
    }
    match identity.seal_for(peer, payload.as_str()) {
        Some(content) => Ok(content),
        None => Err("encrypting pairwise hosting record".to_owned()),
    }
}

/// Reads a record that `host` published for this identity: the node id that was sealed
/// in it. An unreadable record counts as an absent one.
pub fn decrypt(identity: &Identity, host: PublicKey, content: &str) -> (r: Option<NodeId>)
    ensures
        match r {
            Some(node) => recorded_node(identity.secret_bytes(), host@, content@) == Some(node@),
            None => recorded_node(identity.secret_bytes(), host@, content@) is None,
        },
        forall|node: NodeId|
            opened(identity.secret_bytes(), host@, content@) == Some(#[trigger] record_text(node@))
                && parsed_node(hex_text(node@)) == Some(node@) ==> r is Some && r->0@ == node@,
{
    proof {
        assert forall|node: NodeId|
            opened(identity.secret_bytes(), host@, content@) == Some(#[trigger] record_text(node@))
                && parsed_node(hex_text(node@)) == Some(node@) implies trimmed(hex_text(node@))
            == hex_text(node@) && writable(record_fields(hex_text(node@))) && record_content(
            Some(field_map(record_fields(hex_text(node@)))),
        ) == Some((HOSTING_VERSION, hex_text(node@))) by {
            node_ids_are_short(node);
            hex_is_tight(node@);
            record_fields_read_back(hex_text(node@));
        }
    }
    match identity.open_from(host, content) {
        None => None,
        Some(text) => match read_record(text.as_str()) {
            Some((version, node)) => if version == HOSTING_VERSION {
                NodeId::parse(trim(node.as_str()).as_str())
            } else {
                None
            },
            None => None,
        },
    }
}

/// Takes a record apart.
pub(crate) fn read_record(text: &str) -> (r: Option<(u64, String)>)
    ensures
        match r {
            Some((version, node)) => record_content(parsed_object(encode_utf8(text@))) == Some(
                (version, node@),
            ),
            None => record_content(parsed_object(encode_utf8(text@))) is None,
        },
        forall|f: Fields|
            writable(f) && text@ == #[trigger] object_text(f) ==> parsed_object(encode_utf8(text@))
                == Some(field_map(f)),
{
    match parse_object(text.as_bytes()) {
        Ok(m) => match (unsigned_field(&m, "version"), text_field(&m, "node_id")) {
            (Some(version), Some(node)) => if field_count(&m) == 2 && version <= 0xffff_ffff {
                Some((version, node))
            } else {
                None
            },
            _ => None,
        },
        Err(_) => None,
    }
}

/// A record is taken exactly where it holds a version of thirty-two bits and a node id and
/// nothing else.
pub proof fn records_hold_two_fields(m: Map<Seq<char>, JsonValue>, version: u64, node: Seq<char>)
    ensures
        record_content(Some(m)) == Some((version, node)) <==> {
            &&& m.contains_key("version"@) && m["version"@] == JsonValue::Unsigned(version)
            &&& m.contains_key("node_id"@) && m["node_id"@] == JsonValue::Text(node)
            &&& m.dom().len() == 2
            &&& version <= 0xffff_ffff
        },
        record_content(None) is None,
{
}

/// A record names a node exactly where it opens for its reader, is of the version in use,
/// and holds an id that, trimmed, is one.
pub proof fn readable_records_name_their_node(
    secret: Seq<u8>,
    host: Seq<u8>,
    content: Seq<char>,
    node: Seq<u8>,
)
    ensures
        recorded_node(secret, host, content) == Some(node) <==> {
            &&& opened(secret, host, content) is Some
            &&& record_content(parsed_object(encode_utf8(opened(secret, host, content)->0))) matches
                Some((version, text)) && version == 1 && parsed_node(trimmed(text)) == Some(node)
        },
        record_text(node) == object_text(
            seq![
                ("version"@, JsonValue::Unsigned(1)),
                ("node_id"@, JsonValue::Text(hex_text(node))),
            ],
        ),
{
}

/// The label of a pair on the local network shows sixteen bytes of the pair's digest, and
/// the one on relays all of it: pairs with one label agree in those.
pub proof fn labels_show_the_digest_of_their_pair(
    host: Seq<u8>,
    peer: Seq<u8>,
    other_host: Seq<u8>,
    other_peer: Seq<u8>,
)
    requires
        sha256(pair_input("duocb:pairwise-hosting-lan:v1"@, host, peer)).len() == 32,
        sha256(pair_input("duocb:pairwise-hosting-lan:v1"@, other_host, other_peer)).len() == 32,
    ensures
        lan_label(host, peer) == lan_label(other_host, other_peer) ==> sha256(
            encode_utf8("duocb:pairwise-hosting-lan:v1"@) + host + peer,
        ).take(16) == sha256(
            encode_utf8("duocb:pairwise-hosting-lan:v1"@) + other_host + other_peer,
        ).take(16),
        nostr_label(host, peer) == nostr_label(other_host, other_peer) ==> sha256(
            encode_utf8("duocb:pairwise-hosting:v1"@) + host + peer,
        ) == sha256(encode_utf8("duocb:pairwise-hosting:v1"@) + other_host + other_peer),
{
    let a = sha256(pair_input("duocb:pairwise-hosting-lan:v1"@, host, peer));
    let b = sha256(pair_input("duocb:pairwise-hosting-lan:v1"@, other_host, other_peer));
    hex_text_shape(a);
    hex_text_shape(b);
    if lan_label(host, peer) == lan_label(other_host, other_peer) {
        assert forall|i: int| 0 <= i < 16 implies a[i] == b[i] by {
            crate::text::hex_text_spells_each_byte(a, i);
            crate::text::hex_text_spells_each_byte(b, i);
            assert(hex_text(a).take(32)[2 * i] == hex_text(b).take(32)[2 * i]);
            assert(hex_text(a).take(32)[2 * i + 1] == hex_text(b).take(32)[2 * i + 1]);
        }
        assert(a.take(16) =~= b.take(16));
    }
    if nostr_label(host, peer) == nostr_label(other_host, other_peer) {
        let p = "duocb:hosting:v1:"@;
        let c = sha256(pair_input("duocb:pairwise-hosting:v1"@, host, peer));
        let d = sha256(pair_input("duocb:pairwise-hosting:v1"@, other_host, other_peer));
        assert((p + hex_text(c)).skip(p.len() as int) =~= hex_text(c));
        assert((p + hex_text(d)).skip(p.len() as int) =~= hex_text(d));
        crate::text::hex_text_is_unique(c, d);
    }
}

} // verus!
