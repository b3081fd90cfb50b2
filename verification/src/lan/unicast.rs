//! The unicast side channel: the record that a host serves to a joiner who typed its
//! address, where multicast does not reach.

use vstd::prelude::*;
use vstd::string::*;
use vstd::utf8::*;

use crate::auth::{in_base64, opened, Identity, SEALED_RECORD_CHARS};
use crate::hash::push_bytes;
use crate::json::{
    array, array_text, field_map, joined, member_texts, members_text, members_view, object,
    object_text, parse_object, parsed_object, plain_text_is_not_escaped, quote, quoted, text_at, text_field, texts_at, texts_field, writable, Fields, JsonValue,
};
use crate::node::{parsed_node, NodeId};
use crate::pin_record::{encrypt_pin_payload, first_reading, payload_text, try_candidates};
use crate::text::{
    ascii, ascii_takes_a_byte_each, decimal, encode_utf8_of_concat, hex_text, push_decimal, texts,
};

verus! {

/// Cap on the record that a host serves and a joiner reads, in bytes.
pub const MAX_RECORD_BYTES: usize = 8192;

/// The fields of a served record: the encrypted node id and the host's addresses.
pub open spec fn served_fields(content: Seq<char>, addrs: Seq<Seq<char>>) -> Fields {
    seq![("e"@, JsonValue::Text(content)), ("addrs"@, JsonValue::Texts(addrs))]
}

/// The bytes of a served record.
pub open spec fn served_bytes(content: Seq<char>, addrs: Seq<Seq<char>>) -> Seq<u8> {
    encode_utf8(object_text(served_fields(content, addrs)))
}

/// The encrypted node id and the addresses in a record.
pub open spec fn served_content(m: Option<Map<Seq<char>, JsonValue>>) -> Option<
    (Seq<char>, Seq<Seq<char>>),
> {
    match m {
        None => None,
        Some(m) => match (text_at(m, "e"@), texts_at(m, "addrs"@)) {
            (Some(content), Some(addrs)) => Some((content, addrs)),
            _ => None,
        },
    }
}

/// What a joiner makes of the bytes that it read: the node id that the first of its
/// candidate keys finds, and the addresses; nothing where the bytes are too many, are no
/// record or are under another key.
pub open spec fn fetched(candidates: Seq<Identity>, bytes: Seq<u8>) -> Option<
    (Seq<u8>, Seq<Seq<char>>),
> {
    if bytes.len() > MAX_RECORD_BYTES {
        None
    } else {
        match served_content(parsed_object(bytes)) {
            None => None,
            Some((content, addrs)) => match first_reading(candidates, content, 0) {
                None => None,
                Some(node) => Some((node, addrs)),
            },
        }
    }
}

/// A served record reads back.
pub proof fn served_records_read_back(content: Seq<char>, addrs: Seq<Seq<char>>)
    ensures
        writable(served_fields(content, addrs)),
        served_content(Some(field_map(served_fields(content, addrs)))) == Some((content, addrs)),
{
    reveal_strlit("e");
    reveal_strlit("addrs");
    assert("e"@.len() != "addrs"@.len());
    reveal_with_fuel(field_map, 3);
    let f = served_fields(content, addrs);
    assert(f.drop_last().drop_last() =~= Seq::empty());
}

/// Whether `bytes` are the record that a host with the record key `keys` serves for
/// `node`.
pub open spec fn serves(keys: Identity, node: Seq<u8>, addrs: Seq<Seq<char>>, bytes: Seq<u8>) -> bool {
    exists|content: Seq<char>|
        #![trigger served_bytes(content, addrs)]
        bytes == served_bytes(content, addrs) && opened(
            keys.secret_bytes(),
            keys.public_bytes(),
            content,
        ) == Some(payload_text(node)) && in_base64(content) && content.len() == SEALED_RECORD_CHARS
}

/// How many bytes the record that a host serves takes: the list of its addresses, and 237
/// for the encrypted node id and what stands around it.
pub open spec fn served_length(addrs: Seq<Seq<char>>) -> nat {
    237 + encode_utf8(array_text(addrs.map_values(|s: Seq<char>| quoted(s)))).len()
}

/// The length of a served record depends on the addresses alone.
proof fn served_records_have_their_length(content: Seq<char>, addrs: Seq<Seq<char>>)
    requires
        in_base64(content),
        content.len() == SEALED_RECORD_CHARS,
    ensures
        served_bytes(content, addrs).len() == served_length(addrs),
{
    reveal_strlit("e");
    reveal_strlit("addrs");
    plain_text_is_not_escaped("e"@);
    plain_text_is_not_escaped("addrs"@);
    plain_text_is_not_escaped(content);
    let f = served_fields(content, addrs);
    let m = member_texts(f);
    let list = array_text(addrs.map_values(|s: Seq<char>| quoted(s)));
    reveal(members_text);
    reveal_with_fuel(joined, 3);
    assert(m.drop_last() =~= seq![m[0]]);
    let head = seq!['{', '"'] + "e"@ + seq!['"', ':', '"'] + content + seq!['"', ',', '"']
        + "addrs"@ + seq!['"', ':'];
    assert(object_text(f) =~= head + list + seq!['}']);
    assert(ascii(head));
    ascii_takes_a_byte_each(head);
    ascii_takes_a_byte_each(seq!['}']);
    encode_utf8_of_concat(head + list, seq!['}']);
    encode_utf8_of_concat(head, list);
}

/// The record that a host serves: its node id, encrypted under the record key, and its
/// direct addresses as texts. A record over the cap is refused.
pub fn served_record(keys: &Identity, node_id: &NodeId, addrs: &Vec<String>) -> (r: Result<
    Vec<u8>,
    String,
>)
    ensures
        match r {
            Ok(bytes) => {
                &&& serves(*keys, node_id@, texts(addrs@), bytes@)
                &&& bytes@.len() == served_length(texts(addrs@)) <= MAX_RECORD_BYTES
            },
            Err(e) => {
                &&& served_length(texts(addrs@)) > MAX_RECORD_BYTES
                &&& e@ == "unicast PIN record too large: "@ + decimal(served_length(texts(addrs@)))
                    + " bytes"@
            },
        },
{
    let content: String = match encrypt_pin_payload(keys, node_id) {
        Ok(content) => content,
        Err(e) => return Err(e),
    };
    let mut items: Vec<String> = Vec::new();
    let mut i: usize = 0;
    while i < addrs.len()
        invariant
            i <= addrs@.len(),
            items@.len() == i,
            forall|j: int| 0 <= j < i ==> (#[trigger] items@[j])@ == quoted(addrs@[j]@),
        decreases addrs@.len() - i,
    {
        items.push(quote(addrs[i].as_str()));
        i += 1;
    }
    let mut members: Vec<(String, String)> = Vec::new();
    members.push(("e".to_owned(), quote(content.as_str())));
    members.push(("addrs".to_owned(), array(&items)));
    let body: String = object(&members);
    proof {
        let listed = texts(addrs@);
        assert(texts(items@) =~= listed.map_values(|s: Seq<char>| quoted(s)));
        assert(items@.map_values(|s: String| s@) =~= texts(items@));
        assert(members_view(members@) =~= member_texts(served_fields(content@, listed)));
        assert(encode_utf8(body@) == served_bytes(content@, listed));
        assert(serves(*keys, node_id@, listed, encode_utf8(body@)));
        served_records_have_their_length(content@, listed);
    }
    let mut bytes: Vec<u8> = Vec::new();
    push_bytes(&mut bytes, body.as_str().as_bytes());
    assert(bytes@ =~= encode_utf8(body@));
    if bytes.len() > MAX_RECORD_BYTES {
        let mut e: String = "unicast PIN record too large: ".to_owned();
        push_decimal(&mut e, bytes.len() as u64);
        e.append(" bytes");
        return Err(e);
    }
    Ok(bytes)
}

/// Reads the record that a side channel answered with: the node id, and the addresses as
/// texts. Anything that is no record of this PIN counts as no answer.
pub fn read_served(candidates: &Vec<Identity>, bytes: &[u8]) -> (r: Option<(NodeId, Vec<String>)>)
    ensures
        match r {
            Some((node, addrs)) => fetched(candidates@, bytes@) == Some((node@, texts(addrs@))),
            None => fetched(candidates@, bytes@) is None,
        },
        forall|content: Seq<char>, addrs: Seq<Seq<char>>|
            bytes@ == #[trigger] served_bytes(content, addrs) && bytes@.len() <= MAX_RECORD_BYTES
                ==> served_content(parsed_object(bytes@)) == Some((content, addrs)),
        forall|node: NodeId, addrs: Seq<Seq<char>>|
            bytes@.len() <= MAX_RECORD_BYTES && candidates@.len() > 0 && #[trigger] serves(
                candidates@[0],
                node@,
                addrs,
                bytes@,
            ) && parsed_node(hex_text(node@)) == Some(node@) ==> r is Some && (r->0).0@ == node@
                && texts((r->0).1@) == addrs,
{
    proof {
        assert forall|content: Seq<char>, addrs: Seq<Seq<char>>| true implies writable(
            #[trigger] served_fields(content, addrs),
        ) && served_content(Some(field_map(served_fields(content, addrs)))) == Some(
            (content, addrs),
        ) by {
            served_records_read_back(content, addrs);
        }
        assert(candidates@.take(0) =~= Seq::empty());
    }
    if bytes.len() > MAX_RECORD_BYTES {
        return None;
    }
    let (content, addrs): (String, Vec<String>) = match parse_object(bytes) {
        Ok(m) => match (text_field(&m, "e"), texts_field(&m, "addrs")) {
            (Some(content), Some(addrs)) => (content, addrs),
            _ => return None,
        },
        Err(_) => return None,
    };
    match try_candidates(candidates, content.as_str()) {
        Some(node) => Some((node, addrs)),
        None => None,
    }
}

/// A record is read exactly where it is within the cap, holds an encrypted node id and a
/// list of addresses, and one of the candidate keys opens it; whatever else it holds does
/// not count.
pub proof fn records_of_this_pin_are_read(
    candidates: Seq<Identity>,
    bytes: Seq<u8>,
    node: Seq<u8>,
    addrs: Seq<Seq<char>>,
)
    ensures
        fetched(candidates, bytes) == Some((node, addrs)) <==> {
            &&& bytes.len() <= 8192
            &&& parsed_object(bytes) matches Some(m) && m.contains_key("e"@) && m["e"@] is Text
                && m.contains_key("addrs"@) && m["addrs"@] == JsonValue::Texts(addrs)
                && first_reading(candidates, m["e"@]->Text_0, 0) == Some(node)
        },
{
}

/// What a host serves under a record key is what the holder of that key reads, wherever the
/// key stands among its candidates, as long as none before it reads the record too.
pub proof fn served_records_are_found(
    candidates: Seq<Identity>,
    i: int,
    content: Seq<char>,
    node: Seq<u8>,
    addrs: Seq<Seq<char>>,
)
    requires
        served_bytes(content, addrs).len() <= 8192,
        parsed_object(served_bytes(content, addrs)) == Some(
            field_map(served_fields(content, addrs)),
        ),
        0 <= i < candidates.len(),
        crate::pin_record::rendezvous_node(
            candidates[i].secret_bytes(),
            candidates[i].public_bytes(),
            content,
        ) == Some(node),
        forall|j: int|
            0 <= j < i ==> crate::pin_record::rendezvous_node(
                (#[trigger] candidates[j]).secret_bytes(),
                candidates[j].public_bytes(),
                content,
            ) is None,
    ensures
        fetched(candidates, served_bytes(content, addrs)) == Some((node, addrs)),
{
    served_records_read_back(content, addrs);
    crate::pin_record::the_first_key_that_reads_is_used(candidates, content, i, node);
}

/// What a host serves takes the bytes that it is said to take.
pub proof fn served_records_take_what_they_are_said_to(
    keys: Identity,
    node: Seq<u8>,
    addrs: Seq<Seq<char>>,
    bytes: Seq<u8>,
)
    requires
        serves(keys, node, addrs, bytes),
    ensures
        bytes.len() == served_length(addrs),
{
    let content = choose|content: Seq<char>|
        #![trigger served_bytes(content, addrs)]
        bytes == served_bytes(content, addrs) && opened(
            keys.secret_bytes(),
            keys.public_bytes(),
            content,
        ) == Some(payload_text(node)) && in_base64(content) && content.len()
            == SEALED_RECORD_CHARS;
    served_records_have_their_length(content, addrs);
}

} // verus!
