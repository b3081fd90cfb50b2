//! The PIN rendezvous record: a host's ephemeral node id, encrypted under a key that both
//! sides derive from the PIN and the rotation period.

use vstd::prelude::*;
use vstd::string::*;
use vstd::utf8::*;

use crate::auth::{in_base64, opened, secret_public, Identity, PublicKey, SEALED_RECORD_CHARS};
use crate::json::{
    field_map, joined, member_texts, members_text, members_view, object, object_text, parse_object,
    parsed_object, plain_text_is_not_escaped, quote, quoted, text_at, text_field, writable, Fields,
    JsonValue,
};
use crate::node::{node_ids_are_short, node_view, parsed_node, NodeId};
use crate::text::{
    ascii, ascii_takes_a_byte_each, hex_text, hex_text_shape, trim, trimmed,
    trimming_keeps_tight_text,
};

verus! {

/// The record key for stretched PIN material, if the material is a valid secret key.
pub fn pin_keys(material: &[u8; 32]) -> (r: Result<Identity, String>)
    ensures
        match r {
            Ok(keys) => keys.secret_bytes() == material@ && secret_public(material@) == Some(
                keys.public_bytes(),
            ),
            Err(e) => secret_public(material@) is None && e@
                == "deriving record key from PIN"@,
        },
{
    match Identity::from_secret(material) {
        Some(keys) => Ok(keys),
        None => Err("deriving record key from PIN".to_owned()),
    }
}

/// The rotation periods that a lookup in the period `current` tries.
pub open spec fn tried_buckets(current: u64) -> Seq<u64> {
    seq![
        current,
        if current == 0 {
            u64::MAX
        } else {
            (current - 1) as u64
        },
        (current + 1) as u64,
    ]
}

/// A lookup starts with its own period, and finds what was published one period before or
/// after it.
pub proof fn neighbouring_buckets_are_tried(current: u64, published: u64)
    requires
        current < u64::MAX,
    ensures
        tried_buckets(current).len() == 3,
        tried_buckets(current)[0] == current,
        published <= current + 1 && current <= published + 1 ==> tried_buckets(current).contains(
            published,
        ),
        current > 0 && tried_buckets(current).contains(published) ==> published <= current + 1
            && current <= published + 1,
{
    let tried = tried_buckets(current);
    assert(tried[0] == current && tried[2] == current + 1);
    assert(current > 0 ==> tried[1] == current - 1);
}

/// The rotation periods whose keys a lookup tries, in order: the current one, the
/// previous one, which a late reader still sees, and the next, where this device's clock
/// trails the publisher's.
pub fn candidate_buckets(current: u64) -> (r: [u64; 3])
    requires
        current < u64::MAX,
    ensures
        r@[0] == current,
        r@[1] == if current == 0 {
            u64::MAX
        } else {
            (current - 1) as u64
        },
        r@[2] == current + 1,
        r@ == tried_buckets(current),
{
    let r: [u64; 3] = [current, current.wrapping_sub(1), current + 1];
    assert(r@ =~= tried_buckets(current));
    r
}

/// The field of a record.
pub open spec fn payload_fields(node: Seq<char>) -> Fields {
    seq![("node_id"@, JsonValue::Text(node))]
}

/// The text of the record for a node.
pub open spec fn payload_text(node: Seq<u8>) -> Seq<char> {
    object_text(payload_fields(hex_text(node)))
}

/// The node id in a record.
pub open spec fn payload_content(m: Option<Map<Seq<char>, JsonValue>>) -> Option<Seq<char>> {
    match m {
        None => None,
        Some(m) => text_at(m, "node_id"@),
    }
}

/// The node in a record that was sealed under the record key, or `None` where the record
/// is under another key, malformed or without a node id.
pub open spec fn rendezvous_node(secret: Seq<u8>, public: Seq<u8>, content: Seq<char>) -> Option<
    Seq<u8>,
> {
    match opened(secret, public, content) {
        None => None,
        Some(text) => match payload_content(parsed_object(encode_utf8(text))) {
            Some(node) => parsed_node(trimmed(node)),
            None => None,
        },
    }
}

/// A record reads back, and is short enough to be sealed.
proof fn payload_reads_back(node: Seq<u8>)
    requires
        node.len() == 32,
    ensures
        writable(payload_fields(hex_text(node))),
        payload_content(Some(field_map(payload_fields(hex_text(node))))) == Some(hex_text(node)),
        trimmed(hex_text(node)) == hex_text(node),
        encode_utf8(payload_text(node)).len() == 78,
{
    reveal_strlit("node_id");
    let hex = hex_text(node);
    hex_text_shape(node);
    trimming_keeps_tight_text(hex);
    plain_text_is_not_escaped(hex);
    plain_text_is_not_escaped("node_id"@);
    let f = payload_fields(hex);
    assert(f.drop_last() =~= Seq::empty());
    reveal_with_fuel(field_map, 2);
    let m = member_texts(f);
    reveal(members_text);
    reveal_with_fuel(joined, 2);
    assert(m[0].1 == quoted(hex));
    let text = payload_text(node);
    assert(text =~= seq!['{', '"'] + "node_id"@ + seq!['"', ':', '"'] + hex + seq!['"', '}']);
    assert(ascii(text));
    ascii_takes_a_byte_each(text);
}

/// Encrypts a node id under a record key, to the key itself.
pub fn encrypt_pin_payload(keys: &Identity, node_id: &NodeId) -> (r: Result<String, String>)
    ensures
        r is Ok,
        in_base64(r->Ok_0@) && r->Ok_0@.len() == SEALED_RECORD_CHARS,
        opened(keys.secret_bytes(), keys.public_bytes(), r->Ok_0@) == Some(payload_text(node_id@)),
{
    let node: String = node_id.to_text();
    let mut members: Vec<(String, String)> = Vec::new();
    members.push(("node_id".to_owned(), quote(node.as_str())));
    let payload: String = object(&members);
    proof {
        node_ids_are_short(*node_id);
        payload_reads_back(node_id@);
        assert(members_view(members@) =~= member_texts(payload_fields(node@)));
    }
    let public: PublicKey = keys.public_key();
    match keys.seal_for(public, payload.as_str()) {
        Some(content) => Ok(content),
        None => Err("encrypting PIN payload".to_owned()),
    }
}

/// Decrypts a record with a candidate key: the node id that was sealed under it, or
/// `None`, as candidates are tried in turn.
pub fn decrypt_pin_payload(keys: &Identity, content: &str) -> (r: Option<NodeId>)
    ensures
        match r {
            Some(node) => rendezvous_node(keys.secret_bytes(), keys.public_bytes(), content@)
                == Some(node@),
            None => rendezvous_node(keys.secret_bytes(), keys.public_bytes(), content@) is None,
        },
        forall|node: NodeId|
            opened(keys.secret_bytes(), keys.public_bytes(), content@) == Some(
                #[trigger] payload_text(node@),
            ) && parsed_node(hex_text(node@)) == Some(node@) ==> r is Some && r->0@ == node@,
{
    proof {
        assert forall|node: NodeId| true implies writable(
            #[trigger] payload_fields(hex_text(node@)),
        ) && payload_content(Some(field_map(payload_fields(hex_text(node@))))) == Some(
            hex_text(node@),
        ) && trimmed(hex_text(node@)) == hex_text(node@) by {
            node_ids_are_short(node);
            payload_reads_back(node@);
        }
    }
    let text: String = match keys.open_from(keys.public_key(), content) {
        Some(text) => text,
        None => return None,
    };
    let node: Option<String> = match parse_object(text.as_str().as_bytes()) {
        Ok(m) => text_field(&m, "node_id"),
        Err(_) => None,
    };
    match node {
        Some(node) => NodeId::parse(trim(node.as_str()).as_str()),
        None => None,
    }
}

/// The node that the first of the candidate keys from `from` on that reads a record
/// finds in it.
pub open spec fn first_reading(candidates: Seq<Identity>, content: Seq<char>, from: nat) -> Option<
    Seq<u8>,
>
    decreases candidates.len() - from,
{
    if from >= candidates.len() {
        None
    } else {
        match rendezvous_node(
            candidates[from as int].secret_bytes(),
            candidates[from as int].public_bytes(),
            content,
        ) {
            Some(node) => Some(node),
            None => first_reading(candidates, content, from + 1),
        }
    }
}

/// Whether none of the keys reads a record.
pub open spec fn reads_nothing(candidates: Seq<Identity>, content: Seq<char>) -> bool {
    forall|i: int|
        0 <= i < candidates.len() ==> rendezvous_node(
            (#[trigger] candidates[i]).secret_bytes(),
            candidates[i].public_bytes(),
            content,
        ) is None
}

/// Tries the candidate keys in turn on one record: what was sealed under one of them is
/// found, unless an earlier one reads the record too.
pub fn try_candidates(candidates: &Vec<Identity>, content: &str) -> (r: Option<NodeId>)
    ensures
        node_view(r) == first_reading(candidates@, content@, 0),
        forall|node: NodeId, k: int|
            #![trigger payload_text(node@), candidates@[k]]
            0 <= k < candidates@.len() && opened(
                candidates@[k].secret_bytes(),
                candidates@[k].public_bytes(),
                content@,
            ) == Some(payload_text(node@)) && parsed_node(hex_text(node@)) == Some(node@)
                && reads_nothing(candidates@.take(k), content@) ==> node_view(r) == Some(node@),
{
    let mut i: usize = 0;
    while i < candidates.len()
        invariant
            i <= candidates@.len(),
            first_reading(candidates@, content@, 0) == first_reading(
                candidates@,
                content@,
                i as nat,
            ),
            reads_nothing(candidates@.take(i as int), content@),
            forall|node: NodeId, k: int|
                #![trigger payload_text(node@), candidates@[k]]
                0 <= k < i ==> !(opened(
                    candidates@[k].secret_bytes(),
                    candidates@[k].public_bytes(),
                    content@,
                ) == Some(payload_text(node@)) && parsed_node(hex_text(node@)) == Some(node@)),
        decreases candidates@.len() - i,
    {
        match decrypt_pin_payload(&candidates[i], content) {
            Some(node) => {
                proof {
                    assert forall|other: NodeId, k: int|
                        #![trigger payload_text(other@), candidates@[k]]
                        0 <= k < candidates@.len() && opened(
                            candidates@[k].secret_bytes(),
                            candidates@[k].public_bytes(),
                            content@,
                        ) == Some(payload_text(other@)) && parsed_node(hex_text(other@)) == Some(
                            other@,
                        ) && reads_nothing(candidates@.take(k), content@) implies other@
                        == node@ by {
                        if k > i {
                            assert(candidates@.take(k)[i as int] == candidates@[i as int]);
                        }
                    }
                }
                return Some(node);
            },
            None => {
                proof {
                    assert(candidates@.take(i + 1).drop_last() =~= candidates@.take(i as int));
                    assert forall|j: int| 0 <= j < i + 1 implies rendezvous_node(
                        (#[trigger] candidates@.take(i + 1)[j]).secret_bytes(),
                        candidates@.take(i + 1)[j].public_bytes(),
                        content@,
                    ) is None by {
                        if j < i {
                            assert(candidates@.take(i as int)[j] == candidates@[j]);
                        }
                    }
                }
            },
        }
        i += 1;
    }
    None
}

/// A record is read by the first candidate key that reads it at all, wherever that key
/// stands, and by none where no key does.
pub proof fn the_first_key_that_reads_is_used(
    candidates: Seq<Identity>,
    content: Seq<char>,
    i: int,
    node: Seq<u8>,
)
    requires
        0 <= i < candidates.len(),
        rendezvous_node(candidates[i].secret_bytes(), candidates[i].public_bytes(), content)
            == Some(node),
        forall|j: int|
            0 <= j < i ==> rendezvous_node(
                (#[trigger] candidates[j]).secret_bytes(),
                candidates[j].public_bytes(),
                content,
            ) is None,
    ensures
        first_reading(candidates, content, 0) == Some(node),
{
    the_first_key_from_there_on(candidates, content, i, node, 0);
}

proof fn the_first_key_from_there_on(
    candidates: Seq<Identity>,
    content: Seq<char>,
    i: int,
    node: Seq<u8>,
    from: nat,
)
    requires
        from <= i < candidates.len(),
        rendezvous_node(candidates[i].secret_bytes(), candidates[i].public_bytes(), content)
            == Some(node),
        forall|j: int|
            from <= j < i ==> rendezvous_node(
                (#[trigger] candidates[j]).secret_bytes(),
                candidates[j].public_bytes(),
                content,
            ) is None,
    ensures
        first_reading(candidates, content, from) == Some(node),
    decreases i - from,
{
    if from < i {
        assert(rendezvous_node(
            candidates[from as int].secret_bytes(),
            candidates[from as int].public_bytes(),
            content,
        ) is None);
        the_first_key_from_there_on(candidates, content, i, node, from + 1);
    }
}

/// Without a key that reads it, nothing comes of a record.
pub proof fn unreadable_records_give_no_node(
    candidates: Seq<Identity>,
    content: Seq<char>,
    from: nat,
)
    requires
        reads_nothing(candidates, content),
    ensures
        first_reading(candidates, content, from) is None,
    decreases candidates.len() - from,
{
    if from < candidates.len() {
        assert(rendezvous_node(
            candidates[from as int].secret_bytes(),
            candidates[from as int].public_bytes(),
            content,
        ) is None);
        unreadable_records_give_no_node(candidates, content, from + 1);
    }
}

/// A record names a node exactly where it opens under its own key, holds a node id, and
/// that id, trimmed, is one; the text that is sealed for a node holds that node's id.
pub proof fn records_name_their_node(
    secret: Seq<u8>,
    public: Seq<u8>,
    content: Seq<char>,
    node: Seq<u8>,
)
    ensures
        rendezvous_node(secret, public, content) == Some(node) <==> {
            &&& opened(secret, public, content) is Some
            &&& parsed_object(encode_utf8(opened(secret, public, content)->0)) matches Some(m)
                && m.contains_key("node_id"@) && m["node_id"@] is Text && parsed_node(
                trimmed(m["node_id"@]->Text_0),
            ) == Some(node)
        },
        payload_text(node) == object_text(seq![("node_id"@, JsonValue::Text(hex_text(node)))]),
{
}

} // verus!
