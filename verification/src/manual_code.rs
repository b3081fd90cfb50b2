//! The pairing code that a user copies by hand: the host's node id, the secret in PIN
//! form, and the host's addresses with a checksum over them,
//! `<node id>-XXXX-XXXX@ip:port,[v6]:port!crc32`.

use vstd::prelude::*;
use vstd::string::*;
use vstd::utf8::*;

use crate::addr::SocketAddr;
use crate::hash::{crc32, crc32_of};
use crate::json::text_view;
use crate::node::{parsed_node, NodeId};
use crate::pin::{displayed_pin, format_pin, PIN_GROUP_LEN, PIN_LEN};
use crate::text::{
    ascii, ascii_takes_a_byte_each, chars_of, compact, compacted, compacting_keeps_tight_text, encode_utf8_of_concat,
    encoded_length_bounds, find_char, first_at_finds, first_at_is_first, hex_bound, hex_numeral,
    hex_numeral_reads_back, hex_text, hex_text_shape, hex_value, join_texts, joined_by,
    joined_texts_split, last_at, last_at_is_last, lower_char, lowercase, lowered, parse_hex,
    push_hex_numeral, rfind_char, split_all, split_chars, split_once, string_of, text_len, texts,
    white_space,
};

verus! {

/// The part of a code in front of the addresses.
pub open spec fn code_base(node: Seq<u8>, secret: Seq<char>) -> Seq<char> {
    hex_text(node) + seq!['-'] + displayed_pin(secret)
}

/// The list of addresses with its checksum.
pub open spec fn address_tail(addrs: Seq<Seq<char>>) -> Seq<char> {
    let list = joined_by(addrs, ',');
    list + seq!['!'] + hex_numeral(crc32(encode_utf8(list)) as nat, 8)
}

/// The pairing code for a node, a secret and addresses.
pub open spec fn code_text(node: Seq<u8>, secret: Seq<char>, addrs: Seq<Seq<char>>) -> Seq<char> {
    if addrs.len() == 0 {
        code_base(node, secret)
    } else {
        code_base(node, secret) + seq!['@'] + address_tail(addrs)
    }
}

/// Builds the pairing code. The addresses are given as texts.
pub fn encode(node_id: &NodeId, canonical_secret: &str, addrs: &Vec<String>) -> (r: String)
    requires
        canonical_secret@.len() == PIN_LEN,
    ensures
        r@ == code_text(node_id@, canonical_secret@, texts(addrs@)),
{
    let mut out: String = node_id.to_text();
    out.push('-');
    out.append(format_pin(canonical_secret).as_str());
    assert(out@ =~= code_base(node_id@, canonical_secret@));
    if addrs.len() == 0 {
        return out;
    }
    let list: String = join_texts(addrs, ',');
    let crc: u32 = crc32_of(list.as_str().as_bytes());
    out.push('@');
    out.append(list.as_str());
    out.push('!');
    push_hex_numeral(&mut out, crc, 8);
    assert(out@ =~= code_text(node_id@, canonical_secret@, texts(addrs@)));
    out
}

/// `s` without its dashes.
pub open spec fn undashed(s: Seq<char>) -> Seq<char>
    decreases s.len(),
{
    if s.len() == 0 {
        s
    } else if s.last() == '-' {
        undashed(s.drop_last())
    } else {
        undashed(s.drop_last()).push(s.last())
    }
}

/// The characters of a code that count: neither white space nor dashes.
pub open spec fn stripped(s: Seq<char>) -> Seq<char> {
    undashed(compacted(s))
}

/// The node id part and the secret part of a stripped code: the first sixty-four bytes
/// and the rest, which must not be empty.
pub open spec fn code_parts(s: Seq<char>) -> Option<(Seq<char>, Seq<char>)> {
    let bytes = encode_utf8(s);
    if bytes.len() > 64 && is_char_boundary(bytes, 64) {
        Some((decode_utf8(bytes.take(64)), decode_utf8(bytes.skip(64))))
    } else {
        None
    }
}

/// The number that a checksum of eight characters stands for: hexadecimal digits,
/// perhaps behind a plus sign.
pub open spec fn checksum_value(s: Seq<char>) -> Option<nat> {
    if encode_utf8(s).len() != 8 {
        None
    } else if s[0] == '+' {
        hex_value(s.skip(1))
    } else {
        hex_value(s)
    }
}

/// The addresses in the tail of a code, if its checksum is right. White space and case
/// do not count.
pub open spec fn tail_addresses(tail: Seq<char>) -> Option<Seq<Seq<char>>> {
    let s = lowered(compacted(tail));
    match last_at(s, '!') {
        None => None,
        Some(i) => {
            let list = s.take(i);
            if checksum_value(s.skip(i + 1)) == Some(crc32(encode_utf8(list)) as nat) {
                Some(split_all(list, ','))
            } else {
                None
            }
        },
    }
}

/// What a pairing code says: the node, the secret as it was typed, and the addresses.
pub open spec fn read_code(input: Seq<char>) -> Option<(Seq<u8>, Seq<char>, Seq<Seq<char>>)> {
    let (code, tail) = match split_once(input, '@') {
        Some((code, tail)) => (code, Some(tail)),
        None => (input, None),
    };
    match code_parts(stripped(code)) {
        None => None,
        Some((id, secret)) => match parsed_node(lowered(id)) {
            None => None,
            Some(node) => match tail {
                None => Some((node, secret, Seq::empty())),
                Some(tail) => match tail_addresses(tail) {
                    None => None,
                    Some(addrs) => Some((node, secret, addrs)),
                },
            },
        },
    }
}

/// A pairing code that was read. The secret still has to pass the check of a PIN, and
/// the addresses are texts.
pub struct ManualCode {
    pub node_id: NodeId,
    pub secret: String,
    pub addrs: Vec<String>,
}

/// Removes the dashes from a text.
fn without_dashes(s: &str) -> (r: String)
    ensures
        r@ == undashed(s@),
{
    let chars: Vec<char> = chars_of(s);
    let mut out = String::new();
    let mut i: usize = 0;
    while i < chars.len()
        invariant
            i <= chars@.len(),
            out@ == undashed(chars@.take(i as int)),
        decreases chars@.len() - i,
    {
        proof {
            assert(chars@.take(i + 1).drop_last() =~= chars@.take(i as int));
        }
        let c: char = chars[i];
        if c != '-' {
            out.push(c);
        }
        i += 1;
    }
    assert(chars@.take(i as int) =~= chars@);
    out
}

/// Splits a stripped code into its two parts.
fn split_code(s: &str) -> (r: Option<(String, String)>)
    ensures
        match r {
            Some((id, secret)) => code_parts(s@) == Some((id@, secret@)),
            None => code_parts(s@) is None,
        },
{
    if text_len(s) <= 64 || !s.is_char_boundary(64) {
        return None;
    }
    let ghost bytes = encode_utf8(s@);
    let (id, secret) = s.split_at(64);
    proof {
        encode_utf8_decode_utf8(id@);
        encode_utf8_decode_utf8(secret@);
        assert(bytes.subrange(0, 64) =~= bytes.take(64));
        assert(bytes.subrange(64, bytes.len() as int) =~= bytes.skip(64));
    }
    Some((id.to_owned(), secret.to_owned()))
}

/// Reads the addresses in the tail of a code.
fn read_tail(tail: &str) -> (r: Option<Vec<String>>)
    ensures
        match r {
            Some(addrs) => tail_addresses(tail@) == Some(texts(addrs@)),
            None => tail_addresses(tail@) is None,
        },
{
    let s: String = lowercase(compact(tail).as_str());
    let chars: Vec<char> = chars_of(s.as_str());
    let len: usize = chars.len();
    assert(chars@.take(len as int) =~= chars@);
    let at: usize = match rfind_char(&chars, '!', len) {
        Some(at) => at,
        None => return None,
    };
    let list: String = string_of(&chars, 0, at);
    let sum: String = string_of(&chars, at + 1, len);
    assert(list@ =~= s@.take(at as int));
    assert(sum@ =~= s@.skip(at + 1));
    if text_len(sum.as_str()) != 8 {
        return None;
    }
    proof {
        encoded_length_bounds(sum@);
    }
    let digits: Vec<char> = chars_of(sum.as_str());
    let from: usize = if digits[0] == '+' {
        1
    } else {
        0
    };
    proof {
        assert(digits@.subrange(0, digits@.len() as int) =~= sum@);
        assert(digits@.subrange(1, digits@.len() as int) =~= sum@.skip(1));
    }
    let value: Option<u32> = parse_hex(&digits, from, digits.len());
    let crc: u32 = crc32_of(list.as_str().as_bytes());
    match value {
        Some(value) => {
            if value != crc {
                return None;
            }
        },
        None => return None,
    }
    Some(split_chars(&chars, ',', at))
}

/// Reads a pairing code. White space, dashes and case do not count; a node id that does
/// not parse or a checksum that does not match is refused.
pub fn decode(input: &str) -> (r: Option<ManualCode>)
    ensures
        match r {
            Some(code) => read_code(input@) == Some(
                (code.node_id@, code.secret@, texts(code.addrs@)),
            ),
            None => read_code(input@) is None,
        },
{
    let chars: Vec<char> = chars_of(input);
    let len: usize = chars.len();
    let (code, tail): (String, Option<String>) = match find_char(&chars, '@', 0) {
        Some(i) => {
            let code: String = string_of(&chars, 0, i);
            let tail: String = string_of(&chars, i + 1, len);
            assert(code@ =~= input@.take(i as int));
            assert(tail@ =~= input@.skip(i + 1));
            (code, Some(tail))
        },
        None => {
            let code: String = string_of(&chars, 0, len);
            assert(code@ =~= input@);
            (code, None)
        },
    };
    let cleaned: String = without_dashes(compact(code.as_str()).as_str());
    let (id, secret): (String, String) = match split_code(cleaned.as_str()) {
        Some(parts) => parts,
        None => return None,
    };
    let node_id: NodeId = match NodeId::parse(lowercase(id.as_str()).as_str()) {
        Some(node_id) => node_id,
        None => return None,
    };
    match tail {
        None => {
            let addrs: Vec<String> = Vec::new();
            assert(texts(addrs@) =~= Seq::empty());
            Some(ManualCode { node_id, secret, addrs })
        },
        Some(tail) => match read_tail(tail.as_str()) {
            Some(addrs) => Some(ManualCode { node_id, secret, addrs }),
            None => None,
        },
    }
}

// ---------------------------------------------------------------------------
// Own codes are read back
// ---------------------------------------------------------------------------

/// What a code for `node` with `count` addresses is settled to, where `canonical` is its
/// secret as a PIN and `addrs` are its addresses as far as they parse.
pub open spec fn settled(
    node: Seq<u8>,
    count: nat,
    canonical: Option<Seq<char>>,
    addrs: Seq<Option<SocketAddr>>,
) -> Option<(Seq<char>, Seq<char>, Seq<SocketAddr>)> {
    match canonical {
        Some(secret) => if addrs.len() == count && forall|i: int|
            0 <= i < addrs.len() ==> #[trigger] addrs[i] is Some {
            Some((hex_text(node), secret, addrs.map_values(|a: Option<SocketAddr>| a->0)))
        } else {
            None
        },
        None => None,
    }
}

/// Settles a code that was read: `canonical_secret` is its secret as a PIN, if it is one,
/// and `addrs` holds each of its address texts parsed, where it parses. A code with
/// anything off is none at all, and so is one whose addresses were not all looked at.
pub fn settle(
    code: &ManualCode,
    canonical_secret: Option<String>,
    addrs: &Vec<Option<SocketAddr>>,
) -> (r: Option<(String, String, Vec<SocketAddr>)>)
    ensures
        match r {
            Some((node_id, secret, found)) => settled(
                code.node_id@,
                code.addrs@.len(),
                text_view(canonical_secret),
                addrs@,
            ) == Some((node_id@, secret@, found@)),
            None => settled(
                code.node_id@,
                code.addrs@.len(),
                text_view(canonical_secret),
                addrs@,
            ) is None,
        },
{
    let secret: String = match canonical_secret {
        Some(secret) => secret,
        None => return None,
    };
    if addrs.len() != code.addrs.len() {
        return None;
    }
    let mut found: Vec<SocketAddr> = Vec::new();
    let mut i: usize = 0;
    while i < addrs.len()
        invariant
            i <= addrs@.len(),
            found@.len() == i,
            forall|j: int| 0 <= j < i ==> #[trigger] addrs@[j] == Some(found@[j]),
        decreases addrs@.len() - i,
    {
        match addrs[i] {
            Some(addr) => found.push(addr),
            None => return None,
        }
        i += 1;
    }
    assert(found@ =~= addrs@.map_values(|a: Option<SocketAddr>| a->0));
    Some((code.node_id.to_text(), secret, found))
}

/// Whether a secret is made of characters that a code keeps: no white space, no dash and
/// no at sign.
pub open spec fn plain_secret(secret: Seq<char>) -> bool {
    secret.len() == PIN_LEN && forall|i: int|
        0 <= i < secret.len() ==> {
            &&& !white_space(#[trigger] secret[i])
            &&& secret[i] != '-'
            &&& secret[i] != '@'
        }
}

/// Whether an address is made of characters that a code keeps: no white space, no upper
/// case and no comma.
pub open spec fn plain_address(addr: Seq<char>) -> bool {
    forall|i: int|
        0 <= i < addr.len() ==> {
            &&& !white_space(#[trigger] addr[i])
            &&& lower_char(addr[i]) == addr[i]
            &&& addr[i] != ','
        }
}

/// Removing the dashes leaves out one that stands between two texts.
proof fn one_dash_is_removed(a: Seq<char>, b: Seq<char>)
    requires
        dash_free(a),
    ensures
        undashed(a + seq!['-'] + b) == a + undashed(b),
    decreases b.len(),
{
    let s = a + seq!['-'] + b;
    if b.len() == 0 {
        assert(s.drop_last() =~= a);
        dash_free_text_is_kept(a);
        assert(a + undashed(b) =~= a);
    } else {
        assert(s.drop_last() =~= a + seq!['-'] + b.drop_last());
        one_dash_is_removed(a, b.drop_last());
        assert(s.last() == b.last());
        if b.last() != '-' {
            assert((a + undashed(b.drop_last())).push(b.last()) =~= a + undashed(b));
        }
    }
}

/// Whether a text holds no dash.
spec fn dash_free(s: Seq<char>) -> bool {
    forall|i: int| 0 <= i < s.len() ==> #[trigger] s[i] != '-'
}

/// A text without a dash is left alone.
proof fn dash_free_text_is_kept(a: Seq<char>)
    requires
        dash_free(a),
    ensures
        undashed(a) == a,
    decreases a.len(),
{
    if a.len() > 0 {
        assert(a[a.len() - 1] != '-');
        dash_free_text_is_kept(a.drop_last());
        assert(a =~= a.drop_last().push(a.last()));
    }
}

/// The end of one text is a character boundary in front of another.
pub proof fn concatenation_has_a_boundary(a: Seq<char>, b: Seq<char>)
    ensures
        is_char_boundary(encode_utf8(a + b), encode_utf8(a).len() as int),
    decreases a.len(),
{
    let whole = a + b;
    let bytes = encode_utf8(whole);
    encode_utf8_valid_utf8(whole);
    is_char_boundary_start_end_of_seq(bytes);
    if a.len() > 0 {
        encode_utf8_first_scalar(whole);
        encode_utf8_first_scalar(a);
        assert(whole.drop_first() =~= a.drop_first() + b);
        concatenation_has_a_boundary(a.drop_first(), b);
        let n = encode_scalar(a[0] as u32).len() as int;
        assert(pop_first_scalar(bytes) =~= encode_utf8(whole.drop_first()));
        encode_utf8_of_concat(a, b);
        reveal_with_fuel(is_char_boundary, 2);
    }
}

/// The two parts of a stripped code come apart again.
proof fn parts_come_apart(id: Seq<char>, secret: Seq<char>)
    requires
        encode_utf8(id).len() == 64,
        secret.len() > 0,
    ensures
        code_parts(id + secret) == Some((id, secret)),
{
    encode_utf8_of_concat(id, secret);
    encoded_length_bounds(secret);
    concatenation_has_a_boundary(id, secret);
    encode_utf8_decode_utf8(id);
    encode_utf8_decode_utf8(secret);
    let bytes = encode_utf8(id + secret);
    assert(bytes.take(64) =~= encode_utf8(id));
    assert(bytes.skip(64) =~= encode_utf8(secret));
}

/// Whether every character of a text passes a test.
spec fn every(s: Seq<char>, test: spec_fn(char) -> bool) -> bool {
    forall|i: int| 0 <= i < s.len() ==> test(#[trigger] s[i])
}

/// A concatenation passes where its parts do.
proof fn every_of_concat(a: Seq<char>, b: Seq<char>, test: spec_fn(char) -> bool)
    requires
        every(a, test),
        every(b, test),
    ensures
        every(a + b, test),
{
    assert forall|i: int| 0 <= i < (a + b).len() implies test(#[trigger] (a + b)[i]) by {
        if i < a.len() {
            assert((a + b)[i] == a[i]);
        } else {
            assert((a + b)[i] == b[i - a.len()]);
        }
    }
}

/// A character that a code's base keeps and that does not end it.
spec fn base_char() -> spec_fn(char) -> bool {
    |c: char| !white_space(c) && c != '@'
}

/// A character that the tail of a code keeps as it is.
spec fn tail_char() -> spec_fn(char) -> bool {
    |c: char| !white_space(c) && lower_char(c) == c
}

/// Hexadecimal digits are plain.
proof fn digits_are_plain(s: Seq<char>)
    requires
        forall|i: int| 0 <= i < s.len() ==> ('0' <= #[trigger] s[i] <= '9' || 'a' <= s[i] <= 'f'),
    ensures
        every(s, base_char()),
        every(s, tail_char()),
        lowered(s) == s,
        is_ascii_chars(s),
        forall|i: int|
            0 <= i < s.len() ==> #[trigger] s[i] != '-' && s[i] != '!' && s[i] != '+',
{
    assert(lowered(s) =~= s);
}

/// The characters of a code's base.
proof fn base_is_plain(node: Seq<u8>, secret: Seq<char>)
    requires
        plain_secret(secret),
    ensures
        every(code_base(node, secret), base_char()),
{
    hex_text_shape(node);
    digits_are_plain(hex_text(node));
    let front = secret.take(PIN_GROUP_LEN as int);
    let back = secret.skip(PIN_GROUP_LEN as int);
    let dash = seq!['-'];
    let test = base_char();
    assert(every(secret, test));
    assert(every(dash, test));
    assert(every(front, test)) by {
        assert forall|i: int| 0 <= i < front.len() implies test(#[trigger] front[i]) by {
            assert(front[i] == secret[i]);
        }
    }
    assert(every(back, test)) by {
        assert forall|i: int| 0 <= i < back.len() implies test(#[trigger] back[i]) by {
            assert(back[i] == secret[i + PIN_GROUP_LEN]);
        }
    }
    every_of_concat(front, dash, test);
    every_of_concat(front + dash, back, test);
    every_of_concat(hex_text(node), dash, test);
    every_of_concat(hex_text(node) + dash, displayed_pin(secret), test);
}

/// Removing the dashes puts three dash-free texts together.
proof fn dashes_are_removed(a: Seq<char>, b: Seq<char>, c: Seq<char>)
    requires
        dash_free(a),
        dash_free(b),
        dash_free(c),
    ensures
        undashed(a + seq!['-'] + (b + seq!['-'] + c)) == a + (b + c),
{
    one_dash_is_removed(a, b + seq!['-'] + c);
    one_dash_is_removed(b, c);
    dash_free_text_is_kept(c);
}

/// White space is not part of a code's base.
proof fn base_is_tight(node: Seq<u8>, secret: Seq<char>)
    requires
        plain_secret(secret),
    ensures
        compacted(code_base(node, secret)) == code_base(node, secret),
{
    let base = code_base(node, secret);
    base_is_plain(node, secret);
    assert forall|i: int| 0 <= i < base.len() implies !white_space(#[trigger] base[i]) by {
        assert(base_char()(base[i]));
    }
    compacting_keeps_tight_text(base);
}

/// The stripped form of a code's base.
proof fn base_strips(node: Seq<u8>, secret: Seq<char>)
    requires
        plain_secret(secret),
    ensures
        stripped(code_base(node, secret)) == hex_text(node) + secret,
{
    let hex = hex_text(node);
    let front = secret.take(PIN_GROUP_LEN as int);
    let back = secret.skip(PIN_GROUP_LEN as int);
    base_is_tight(node, secret);
    assert(dash_free(hex)) by {
        hex_text_shape(node);
    }
    secret_groups_are_plain(secret);
    dashes_are_removed(hex, front, back);
}

/// The two groups of a secret hold no dash, and make up the secret.
proof fn secret_groups_are_plain(secret: Seq<char>)
    requires
        plain_secret(secret),
    ensures
        ({
            let front = secret.take(PIN_GROUP_LEN as int);
            let back = secret.skip(PIN_GROUP_LEN as int);
            &&& dash_free(front)
            &&& dash_free(back)
            &&& front + back == secret
        }),
{
    let front = secret.take(PIN_GROUP_LEN as int);
    let back = secret.skip(PIN_GROUP_LEN as int);
    assert forall|i: int| 0 <= i < front.len() implies #[trigger] front[i] != '-' by {
        assert(front[i] == secret[i]);
    }
    assert forall|i: int| 0 <= i < back.len() implies #[trigger] back[i] != '-' by {
        assert(back[i] == secret[i + PIN_GROUP_LEN]);
    }
    assert(front + back =~= secret);
}

/// Each character of a joined list comes from one of the parts, or is the comma.
proof fn joined_is_plain(parts: Seq<Seq<char>>)
    requires
        forall|i: int| 0 <= i < parts.len() ==> plain_address(#[trigger] parts[i]),
    ensures
        every(joined_by(parts, ','), tail_char()),
    decreases parts.len(),
{
    let test = tail_char();
    if parts.len() == 1 {
        assert(plain_address(parts[0]));
        assert(every(parts[0], test));
    } else if parts.len() > 1 {
        let front = parts.drop_last();
        let last = parts[parts.len() - 1];
        assert forall|i: int| 0 <= i < front.len() implies plain_address(#[trigger] front[i]) by {
            assert(front[i] == parts[i]);
        }
        joined_is_plain(front);
        assert(plain_address(last));
        assert(every(last, test));
        assert(every(seq![','], test));
        every_of_concat(joined_by(front, ','), seq![','], test);
        every_of_concat(joined_by(front, ',') + seq![','], last, test);
    }
}

/// The tail of a code is left as it is by the removal of white space and case.
proof fn tail_is_plain(addrs: Seq<Seq<char>>)
    requires
        forall|i: int| 0 <= i < addrs.len() ==> plain_address(#[trigger] addrs[i]),
    ensures
        lowered(compacted(address_tail(addrs))) == address_tail(addrs),
{
    let list = joined_by(addrs, ',');
    let sum = hex_numeral(crc32(encode_utf8(list)) as nat, 8);
    let tail = address_tail(addrs);
    let test = tail_char();
    sum_is_eight_digits(list);
    digits_are_plain(sum);
    joined_is_plain(addrs);
    assert(every(seq!['!'], test));
    every_of_concat(list, seq!['!'], test);
    every_of_concat(list + seq!['!'], sum, test);
    assert forall|i: int| 0 <= i < tail.len() implies !white_space(#[trigger] tail[i]) by {
        assert(test(tail[i]));
    }
    compacting_keeps_tight_text(tail);
    assert forall|i: int| 0 <= i < tail.len() implies #[trigger] lowered(tail)[i] == tail[i] by {
        assert(test(tail[i]));
    }
    assert(lowered(tail) =~= tail);
}

/// A checksum is eight digits that stand for it.
proof fn sum_is_eight_digits(list: Seq<char>)
    ensures
        ({
            let crc = crc32(encode_utf8(list)) as nat;
            let sum = hex_numeral(crc, 8);
            &&& sum.len() == 8
            &&& hex_value(sum) == Some(crc)
            &&& forall|i: int|
                0 <= i < 8 ==> ('0' <= #[trigger] sum[i] <= '9' || 'a' <= sum[i] <= 'f')
        }),
{
    assert(hex_bound(8) == 0x1_0000_0000) by {
        reveal_with_fuel(hex_bound, 9);
    }
    hex_numeral_reads_back(crc32(encode_utf8(list)) as nat, 8);
}

/// The tail of a code is read back.
proof fn tail_reads_back(addrs: Seq<Seq<char>>)
    requires
        addrs.len() > 0,
        forall|i: int| 0 <= i < addrs.len() ==> plain_address(#[trigger] addrs[i]),
    ensures
        tail_addresses(address_tail(addrs)) == Some(addrs),
{
    let list = joined_by(addrs, ',');
    let sum = hex_numeral(crc32(encode_utf8(list)) as nat, 8);
    let tail = address_tail(addrs);
    tail_is_plain(addrs);
    sum_is_eight_digits(list);
    digits_are_plain(sum);
    last_at_is_last(list, '!', sum);
    assert(tail.take(list.len() as int) =~= list);
    assert(tail.skip(list.len() as int + 1) =~= sum);
    is_ascii_chars_encode_utf8(sum);
    assert(checksum_value(sum) == Some(crc32(encode_utf8(list)) as nat));
    assert forall|i: int, j: int| 0 <= i < addrs.len() && 0 <= j < addrs[i].len() implies
        #[trigger] addrs[i][j] != ',' by {
        assert(plain_address(addrs[i]));
    }
    joined_texts_split(addrs, ',');
}

/// A device reads its own pairing code: the node, the secret and the addresses that went
/// into a code come out of it.
pub proof fn own_codes_are_read_back(node: Seq<u8>, secret: Seq<char>, addrs: Seq<Seq<char>>)
    requires
        node.len() == 32,
        parsed_node(hex_text(node)) == Some(node),
        plain_secret(secret),
        forall|i: int| 0 <= i < addrs.len() ==> plain_address(#[trigger] addrs[i]),
    ensures
        read_code(code_text(node, secret, addrs)) == Some((node, secret, addrs)),
{
    let base = code_base(node, secret);
    let hex = hex_text(node);
    hex_text_shape(node);
    base_strips(node, secret);
    base_is_plain(node, secret);
    digits_are_plain(hex);
    is_ascii_chars_encode_utf8(hex);
    parts_come_apart(hex, secret);
    assert forall|i: int| 0 <= i < base.len() implies #[trigger] base[i] != '@' by {
        assert(base_char()(base[i]));
    }
    if addrs.len() == 0 {
        first_at_finds(base, '@', 0);
        assert(addrs =~= Seq::empty());
    } else {
        first_at_is_first(base, '@', address_tail(addrs));
        tail_reads_back(addrs);
    }
}

// ---------------------------------------------------------------------------
// Formatting does not count
// ---------------------------------------------------------------------------

/// What counts of a pairing code: the part in front of the first at sign without white
/// space, dashes and case, and the part behind it, if there is one, without white space
/// and case.
pub open spec fn essence(input: Seq<char>) -> (Seq<char>, Option<Seq<char>>) {
    match split_once(input, '@') {
        Some((code, tail)) => (lowered(stripped(code)), Some(lowered(compacted(tail)))),
        None => (lowered(stripped(input)), None),
    }
}

/// Removing the dashes from two texts and from their concatenation is the same.
proof fn undashed_of_concat(a: Seq<char>, b: Seq<char>)
    ensures
        undashed(a + b) == undashed(a) + undashed(b),
    decreases b.len(),
{
    if b.len() == 0 {
        assert(a + b =~= a);
        assert(undashed(a) + undashed(b) =~= undashed(a));
    } else {
        assert((a + b).drop_last() =~= a + b.drop_last());
        undashed_of_concat(a, b.drop_last());
        assert(undashed(a + b) =~= undashed(a) + undashed(b));
    }
}

/// Removing the white space from two texts and from their concatenation is the same.
proof fn compacted_of_concat(a: Seq<char>, b: Seq<char>)
    ensures
        compacted(a + b) == compacted(a) + compacted(b),
{
    Seq::filter_distributes_over_add(a, b, |c: char| !white_space(c));
}

/// A single character is compacted to nothing where it is white space, and kept otherwise.
proof fn compacted_character(c: char)
    ensures
        compacted(seq![c]) == if white_space(c) {
            Seq::empty()
        } else {
            seq![c]
        },
{
    reveal(Seq::filter);
    assert(seq![c].drop_last() =~= Seq::empty());
    assert(compacted(seq![c].drop_last()) =~= Seq::empty());
    assert(Seq::<char>::empty().push(c) =~= seq![c]);
}

/// White space between two texts is removed with the rest.
proof fn compacting_drops_white_space(a: Seq<char>, c: char, b: Seq<char>)
    requires
        white_space(c),
    ensures
        compacted(a + seq![c] + b) == compacted(a + b),
{
    compacted_character(c);
    compacted_of_concat(a + seq![c], b);
    compacted_of_concat(a, seq![c]);
    compacted_of_concat(a, b);
    assert(compacted(a) + Seq::<char>::empty() =~= compacted(a));
}

/// White space or a dash between two texts is stripped with the rest.
proof fn stripping_drops_formatting(a: Seq<char>, c: char, b: Seq<char>)
    requires
        white_space(c) || c == '-',
    ensures
        stripped(a + seq![c] + b) == stripped(a + b),
{
    if white_space(c) {
        compacting_drops_white_space(a, c, b);
    } else {
        let (x, y) = (compacted(a), compacted(b));
        compacted_character(c);
        compacted_of_concat(a + seq![c], b);
        compacted_of_concat(a, seq![c]);
        compacted_of_concat(a, b);
        undashed_of_concat(x + seq![c], y);
        undashed_of_concat(x, seq![c]);
        undashed_of_concat(x, y);
        reveal_with_fuel(undashed, 2);
        assert(seq![c].drop_last() =~= Seq::empty());
        assert(undashed(seq![c]).len() == 0);
        assert(undashed(x) + undashed(seq![c]) =~= undashed(x));
    }
}

/// A text that holds an at sign is split at the first one.
proof fn text_splits_at_the_first(s: Seq<char>)
    ensures
        match split_once(s, '@') {
            Some((code, tail)) => s == code + seq!['@'] + tail && forall|i: int|
                0 <= i < code.len() ==> #[trigger] code[i] != '@',
            None => forall|i: int| 0 <= i < s.len() ==> #[trigger] s[i] != '@',
        },
{
    first_at_finds(s, '@', 0);
    if let Some((code, tail)) = split_once(s, '@') {
        assert(s =~= code + seq!['@'] + tail);
    }
}

/// A text without an at sign is not split.
proof fn text_without_an_at_sign(s: Seq<char>)
    requires
        forall|i: int| 0 <= i < s.len() ==> #[trigger] s[i] != '@',
    ensures
        split_once(s, '@') is None,
{
    first_at_finds(s, '@', 0);
}

/// A character that does not count may stand between two texts: white space anywhere, and
/// a dash in front of the at sign.
proof fn formatting_is_dropped(a: Seq<char>, c: char, b: Seq<char>)
    requires
        white_space(c) || (c == '-' && split_once(a, '@') is None),
    ensures
        essence(a + seq![c] + b) == essence(a + b),
{
    text_splits_at_the_first(a);
    text_splits_at_the_first(b);
    match (split_once(a, '@'), split_once(b, '@')) {
        (Some((code, tail)), _) => {
            assert(a + seq![c] + b =~= code + seq!['@'] + (tail + seq![c] + b));
            assert(a + b =~= code + seq!['@'] + (tail + b));
            first_at_is_first(code, '@', tail + seq![c] + b);
            first_at_is_first(code, '@', tail + b);
            compacting_drops_white_space(tail, c, b);
        },
        (None, Some((code, tail))) => {
            assert(a + seq![c] + b =~= (a + seq![c] + code) + seq!['@'] + tail);
            assert(a + b =~= (a + code) + seq!['@'] + tail);
            first_at_is_first(a + seq![c] + code, '@', tail);
            first_at_is_first(a + code, '@', tail);
            stripping_drops_formatting(a, c, code);
        },
        (None, None) => {
            text_without_an_at_sign(a + seq![c] + b);
            text_without_an_at_sign(a + b);
            stripping_drops_formatting(a, c, b);
        },
    }
}

/// White space may be added to a code anywhere.
pub proof fn added_white_space_does_not_count(a: Seq<char>, c: char, b: Seq<char>)
    requires
        white_space(c),
    ensures
        essence(a + seq![c] + b) == essence(a + b),
{
    formatting_is_dropped(a, c, b);
}

/// A dash in front of the at sign may be dropped from a code.
pub proof fn dropped_dashes_do_not_count(a: Seq<char>, b: Seq<char>)
    requires
        forall|i: int| 0 <= i < a.len() ==> #[trigger] a[i] != '@',
    ensures
        essence(a + b) == essence(a + seq!['-'] + b),
{
    text_without_an_at_sign(a);
    formatting_is_dropped(a, '-', b);
}

/// Lowering the case and removing the white space or the dashes go in either order.
proof fn lowering_commutes(s: Seq<char>)
    ensures
        lowered(compacted(s)) == compacted(lowered(s)),
        lowered(undashed(s)) == undashed(lowered(s)),
    decreases s.len(),
{
    reveal(Seq::filter);
    if s.len() == 0 {
        assert(lowered(s) =~= s);
        assert(compacted(s) =~= s);
    } else {
        let front = s.drop_last();
        let c = s.last();
        lowering_commutes(front);
        assert(lowered(s).drop_last() =~= lowered(front));
        assert(lowered(s).last() == lower_char(c));
        assert(white_space(lower_char(c)) == white_space(c));
        assert((lower_char(c) == '-') == (c == '-'));
        assert(lowered(compacted(front).push(c)) =~= lowered(compacted(front)).push(lower_char(c)));
        assert(lowered(undashed(front).push(c)) =~= lowered(undashed(front)).push(lower_char(c)));
    }
}

/// What counts of a code can be read off its lower-case form.
proof fn essence_of_lowered(s: Seq<char>)
    ensures
        essence(lowered(s)) == essence(s),
{
    text_splits_at_the_first(s);
    assert forall|t: Seq<char>| lowered(#[trigger] lowered(t)) == lowered(t) by {
        assert(lowered(lowered(t)) =~= lowered(t));
    }
    match split_once(s, '@') {
        Some((code, tail)) => {
            assert(lowered(s) =~= lowered(code) + seq!['@'] + lowered(tail));
            assert forall|i: int| 0 <= i < lowered(code).len() implies #[trigger] lowered(code)[i]
                != '@' by {
                assert(code[i] != '@');
            }
            first_at_is_first(lowered(code), '@', lowered(tail));
            lowering_commutes(code);
            lowering_commutes(compacted(code));
            lowering_commutes(tail);
        },
        None => {
            assert forall|i: int| 0 <= i < lowered(s).len() implies #[trigger] lowered(s)[i]
                != '@' by {
                assert(s[i] != '@');
            }
            text_without_an_at_sign(lowered(s));
            lowering_commutes(s);
            lowering_commutes(compacted(s));
        },
    }
}

/// The case of the letters in a code may be changed.
pub proof fn case_does_not_count(s: Seq<char>, t: Seq<char>)
    requires
        lowered(s) == lowered(t),
    ensures
        essence(s) == essence(t),
{
    essence_of_lowered(s);
    essence_of_lowered(t);
}

/// A device reads its own pairing code however it is formatted: with white space added
/// anywhere, the dashes in front of the addresses dropped and the case changed, the node
/// and the addresses that went into the code come out of it, and the secret but for its
/// case.
pub proof fn own_codes_are_read_back_in_any_format(
    input: Seq<char>,
    node: Seq<u8>,
    secret: Seq<char>,
    addrs: Seq<Seq<char>>,
)
    requires
        essence(input) == essence(code_text(node, secret, addrs)),
        node.len() == 32,
        parsed_node(hex_text(node)) == Some(node),
        plain_secret(secret),
        forall|i: int| 0 <= i < addrs.len() ==> plain_address(#[trigger] addrs[i]),
    ensures
        match read_code(input) {
            Some((found, typed, listed)) => {
                found == node && lowered(typed) == lowered(secret) && listed == addrs
            },
            None => false,
        },
{
    let base = code_base(node, secret);
    let hex = hex_text(node);
    hex_text_shape(node);
    base_strips(node, secret);
    base_is_plain(node, secret);
    digits_are_plain(hex);
    assert forall|i: int| 0 <= i < base.len() implies #[trigger] base[i] != '@' by {
        assert(base_char()(base[i]));
    }
    let (code, tail) = match split_once(input, '@') {
        Some((code, tail)) => (code, Some(tail)),
        None => (input, None),
    };
    if addrs.len() == 0 {
        text_without_an_at_sign(base);
        assert(addrs =~= Seq::empty());
    } else {
        first_at_is_first(base, '@', address_tail(addrs));
        tail_reads_back(addrs);
        assert(tail_addresses(tail->0) == tail_addresses(address_tail(addrs)));
    }
    let kept = stripped(code);
    assert(lowered(kept) == lowered(hex + secret));
    assert(kept.len() == lowered(kept).len());
    let id = kept.take(64);
    let typed = kept.skip(64);
    assert(kept =~= id + typed);
    assert(lowered(id) =~= hex) by {
        assert forall|i: int| 0 <= i < 64 implies #[trigger] lowered(id)[i] == hex[i] by {
            assert(lowered(kept)[i] == lowered(hex + secret)[i]);
            assert(lowered(hex)[i] == hex[i]);
        }
    }
    assert(lowered(typed) =~= lowered(secret)) by {
        assert forall|i: int| 0 <= i < typed.len() implies #[trigger] lowered(typed)[i] == lowered(
            secret,
        )[i] by {
            assert(lowered(kept)[i + 64] == lowered(hex + secret)[i + 64]);
        }
    }
    assert(ascii(id)) by {
        assert forall|i: int| 0 <= i < id.len() implies (#[trigger] id[i] as u32) < 128 by {
            assert(lowered(id)[i] == hex[i]);
        }
    }
    ascii_takes_a_byte_each(id);
    parts_come_apart(id, typed);
}

/// A device's own pairing code, however it is formatted, is settled to the node, the secret
/// and the addresses that it was made for, in their order. `canonical` gives the PIN that a
/// typed text stands for and does not look at case; `parse` reads an address from its text,
/// as `addr_texts` were written.
pub proof fn own_codes_settle_in_any_format(
    input: Seq<char>,
    node: Seq<u8>,
    secret: Seq<char>,
    addrs: Seq<SocketAddr>,
    addr_texts: Seq<Seq<char>>,
    canonical: spec_fn(Seq<char>) -> Option<Seq<char>>,
    parse: spec_fn(Seq<char>) -> Option<SocketAddr>,
)
    requires
        essence(input) == essence(code_text(node, secret, addr_texts)),
        node.len() == 32,
        parsed_node(hex_text(node)) == Some(node),
        plain_secret(secret),
        canonical(secret) == Some(secret),
        forall|a: Seq<char>, b: Seq<char>|
            lowered(a) == lowered(b) ==> #[trigger] canonical(a) == #[trigger] canonical(b),
        addr_texts.len() == addrs.len(),
        forall|i: int|
            0 <= i < addr_texts.len() ==> plain_address(#[trigger] addr_texts[i]) && parse(
                addr_texts[i],
            ) == Some(addrs[i]),
    ensures
        match read_code(input) {
            Some((found, typed, listed)) => settled(
                found,
                listed.len(),
                canonical(typed),
                listed.map_values(|t: Seq<char>| parse(t)),
            ) == Some((hex_text(node), secret, addrs)),
            None => false,
        },
{
    own_codes_are_read_back_in_any_format(input, node, secret, addr_texts);
    let (found, typed, listed) = read_code(input)->0;
    let parsed = listed.map_values(|t: Seq<char>| parse(t));
    assert(canonical(typed) == canonical(secret));
    assert forall|i: int| 0 <= i < parsed.len() implies #[trigger] parsed[i] == Some(addrs[i]) by {
        assert(listed[i] == addr_texts[i]);
    }
    assert(parsed.map_values(|a: Option<SocketAddr>| a->0) =~= addrs);
}

// ---------------------------------------------------------------------------
// What is refused
// ---------------------------------------------------------------------------

/// A code is written as the node's sixty-four digits and the two groups of the secret, with
/// dashes between them, and, where there are addresses, an at sign, the addresses with
/// commas between them, and their checksum behind an exclamation mark.
pub proof fn codes_spell_their_parts(node: Seq<u8>, secret: Seq<char>, addrs: Seq<Seq<char>>)
    requires
        secret.len() == 8,
    ensures
        ({
            let base = hex_text(node) + seq!['-'] + secret.take(4) + seq!['-'] + secret.skip(4);
            let list = joined_by(addrs, ',');
            code_text(node, secret, addrs) == if addrs.len() == 0 {
                base
            } else {
                base + seq!['@'] + list + seq!['!'] + hex_numeral(
                    crc32(encode_utf8(list)) as nat,
                    8,
                )
            }
        }),
{
    let base = hex_text(node) + seq!['-'] + secret.take(4) + seq!['-'] + secret.skip(4);
    let list = joined_by(addrs, ',');
    let sum = hex_numeral(crc32(encode_utf8(list)) as nat, 8);
    assert(code_base(node, secret) =~= base);
    assert(base + seq!['@'] + (list + seq!['!'] + sum) =~= base + seq!['@'] + list + seq!['!']
        + sum);
}

/// Addresses are taken exactly where the eight characters behind the last exclamation mark
/// are their checksum; what was changed on the way is refused, and so are addresses without
/// a checksum.
pub proof fn addresses_are_taken_with_their_checksum(
    tail: Seq<char>,
    list: Seq<char>,
    sum: Seq<char>,
)
    ensures
        (forall|i: int| 0 <= i < sum.len() ==> #[trigger] sum[i] != '!') && lowered(
            compacted(tail),
        ) == list + seq!['!'] + sum ==> tail_addresses(tail) == (if encode_utf8(sum).len() == 8
            && hex_value(
            if sum[0] == '+' {
                sum.skip(1)
            } else {
                sum
            },
        ) == Some(crc32(encode_utf8(list)) as nat) {
            Some(split_all(list, ','))
        } else {
            None
        }),
        (forall|i: int|
            0 <= i < lowered(compacted(tail)).len() ==> #[trigger] lowered(compacted(tail))[i]
                != '!') ==> tail_addresses(tail) is None,
{
    let s = lowered(compacted(tail));
    if (forall|i: int| 0 <= i < sum.len() ==> #[trigger] sum[i] != '!') && s == list + seq!['!']
        + sum {
        last_at_is_last(list, '!', sum);
        assert(s.take(list.len() as int) =~= list);
        assert(s.skip(list.len() as int + 1) =~= sum);
    }
    if forall|i: int| 0 <= i < s.len() ==> #[trigger] s[i] != '!' {
        crate::text::last_at_of_free_text(s, '!');
    }
}

/// A code without addresses is taken exactly where more than sixty-four bytes count in it,
/// and the first sixty-four are a node id; the secret is then whatever is left.
pub proof fn codes_begin_with_a_node_id(
    code: Seq<char>,
    id: Seq<char>,
    secret: Seq<char>,
    tail: Seq<char>,
)
    requires
        forall|i: int| 0 <= i < code.len() ==> #[trigger] code[i] != '@',
    ensures
        encode_utf8(stripped(code)).len() <= 64 ==> read_code(code) is None && read_code(
            code + seq!['@'] + tail,
        ) is None,
        stripped(code) == id + secret && encode_utf8(id).len() == 64 && secret.len() > 0
            ==> read_code(code) == (match parsed_node(lowered(id)) {
            Some(node) => Some((node, secret, Seq::<Seq<char>>::empty())),
            None => None,
        }),
        stripped(code) == id + secret && encode_utf8(id).len() == 64 && secret.len() > 0
            ==> read_code(code + seq!['@'] + tail) == (match (
            parsed_node(lowered(id)),
            tail_addresses(tail),
        ) {
            (Some(node), Some(addrs)) => Some((node, secret, addrs)),
            _ => None,
        }),
{
    text_without_an_at_sign(code);
    first_at_is_first(code, '@', tail);
    if stripped(code) == id + secret && encode_utf8(id).len() == 64 && secret.len() > 0 {
        parts_come_apart(id, secret);
    }
}

/// A code is settled exactly where its secret is a PIN and every address in it was parsed,
/// and then to that node, that PIN and those addresses, in order.
pub proof fn codes_settle_whole_or_not_at_all(
    node: Seq<u8>,
    count: nat,
    canonical: Option<Seq<char>>,
    addrs: Seq<Option<SocketAddr>>,
    found: Seq<SocketAddr>,
)
    requires
        found.len() == addrs.len(),
    ensures
        canonical is Some && addrs.len() == count && (forall|i: int|
            0 <= i < addrs.len() ==> #[trigger] addrs[i] == Some(found[i])) ==> settled(
            node,
            count,
            canonical,
            addrs,
        ) == Some((hex_text(node), canonical->0, found)),
        canonical is None || addrs.len() != count || (exists|i: int|
            0 <= i < addrs.len() && #[trigger] addrs[i] is None) ==> settled(
            node,
            count,
            canonical,
            addrs,
        ) is None,
{
    if forall|i: int| 0 <= i < addrs.len() ==> #[trigger] addrs[i] == Some(found[i]) {
        assert(addrs.map_values(|a: Option<SocketAddr>| a->0) =~= found);
    }
}

} // verus!
