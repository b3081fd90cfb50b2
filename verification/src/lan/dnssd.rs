//! The DNS-SD backend of the local-network rendezvous: TXT records, service names, what
//! an advertisement carries, and the bookkeeping of a browse.

use vstd::prelude::*;
use vstd::string::*;
use vstd::utf8::*;

use crate::addr::{IpAddr, SocketAddr};
use crate::auth::{in_base64, SEALED_RECORD_CHARS};
use crate::hash::push_bytes;
use crate::json::text_view;
use crate::lan::{ports_of, split_ports};
use crate::order::{ascending, sorted_unique};
use crate::text::{
    ascii_takes_a_byte_each, chars_of, decimal, find_char, first_at, first_at_finds, last_at,
    lowercase, lowered, push_decimal, rfind_char, same_text, split_once, string_of, text_of_bytes,
};

verus! {

// ---------------------------------------------------------------------------
// TXT records
// ---------------------------------------------------------------------------

/// One attribute of a TXT record as text.
pub open spec fn attribute_text(key: Seq<char>, value: Seq<char>) -> Seq<char> {
    key + seq!['='] + value
}

/// One attribute in wire form: its length in a byte, and its text.
pub open spec fn attribute_bytes(key: Seq<char>, value: Seq<char>) -> Seq<u8> {
    seq![encode_utf8(attribute_text(key, value)).len() as u8] + encode_utf8(
        attribute_text(key, value),
    )
}

/// Whether an attribute fits the one byte of its length.
pub open spec fn attribute_fits(key: Seq<char>, value: Seq<char>) -> bool {
    encode_utf8(attribute_text(key, value)).len() <= 255
}

/// Appends an attribute to a TXT record. One that does not fit leaves the record alone.
pub fn push_txt(buf: &mut Vec<u8>, key: &str, value: &str) -> (r: Result<(), String>)
    ensures
        match r {
            Ok(()) => attribute_fits(key@, value@) && final(buf)@ == old(buf)@ + attribute_bytes(
                key@,
                value@,
            ),
            Err(e) => !attribute_fits(key@, value@) && final(buf)@ == old(buf)@ && e@
                == "rendezvous record does not fit a TXT attribute"@,
        },
{
    let mut entry: String = key.to_owned();
    entry.push('=');
    entry.append(value);
    assert(entry@ =~= attribute_text(key@, value@));
    let bytes: &[u8] = entry.as_str().as_bytes();
    if bytes.len() > 255 {
        return Err("rendezvous record does not fit a TXT attribute".to_owned());
    }
    buf.push(bytes.len() as u8);
    push_bytes(buf, bytes);
    assert(buf@ =~= old(buf)@ + attribute_bytes(key@, value@));
    Ok(())
}

/// The attribute that an entry of a TXT record holds, if it is one: text with an equals
/// sign in it.
pub open spec fn attribute_of(entry: Seq<u8>) -> Option<(Seq<char>, Seq<char>)> {
    if valid_utf8(entry) {
        split_once(decode_utf8(entry), '=')
    } else {
        None
    }
}

/// The attributes of a TXT record, in order. Reading stops at an empty or a cut-off
/// entry; an entry that is no attribute is passed over.
pub open spec fn attributes(data: Seq<u8>) -> Seq<(Seq<char>, Seq<char>)>
    decreases data.len(),
{
    if data.len() == 0 {
        Seq::empty()
    } else {
        let len = data[0] as int;
        if len == 0 || data.len() - 1 < len {
            Seq::empty()
        } else {
            let rest = attributes(data.skip(1 + len));
            match attribute_of(data.subrange(1, 1 + len)) {
                Some(attribute) => seq![attribute] + rest,
                None => rest,
            }
        }
    }
}

/// The value of the last attribute with a key.
pub open spec fn value_of(list: Seq<(Seq<char>, Seq<char>)>, key: Seq<char>) -> Option<Seq<char>>
    decreases list.len(),
{
    if list.len() == 0 {
        None
    } else if list.last().0 == key {
        Some(list.last().1)
    } else {
        value_of(list.drop_last(), key)
    }
}

/// The views of a list of attributes.
pub open spec fn attribute_views(list: Seq<(String, String)>) -> Seq<(Seq<char>, Seq<char>)> {
    list.map_values(|a: (String, String)| (a.0@, a.1@))
}

/// Splits a text at the first equals sign.
fn split_attribute(entry: &str) -> (r: Option<(String, String)>)
    ensures
        match r {
            Some((key, value)) => split_once(entry@, '=') == Some((key@, value@)),
            None => split_once(entry@, '=') is None,
        },
{
    let chars: Vec<char> = chars_of(entry);
    let len: usize = chars.len();
    match find_char(&chars, '=', 0) {
        Some(i) => {
            let key: String = string_of(&chars, 0, i);
            let value: String = string_of(&chars, i + 1, len);
            assert(key@ =~= entry@.take(i as int));
            assert(value@ =~= entry@.skip(i + 1));
            Some((key, value))
        },
        None => None,
    }
}

/// Reads the attributes of a TXT record.
pub fn parse_txt(data: &[u8]) -> (r: Vec<(String, String)>)
    ensures
        attribute_views(r@) == attributes(data@),
{
    let mut out: Vec<(String, String)> = Vec::new();
    let mut at: usize = 0;
    proof {
        assert(data@.skip(0) =~= data@);
        assert(attribute_views(out@) + attributes(data@) =~= attributes(data@));
    }
    while at < data.len()
        invariant
            at <= data@.len(),
            attributes(data@) == attribute_views(out@) + attributes(data@.skip(at as int)),
        ensures
            attributes(data@) == attribute_views(out@),
        decreases data@.len() - at,
    {
        let ghost rest = data@.skip(at as int);
        let len: usize = data[at] as usize;
        if len == 0 || data.len() - at - 1 < len {
            assert(attributes(rest) =~= Seq::empty());
            assert(attributes(data@) =~= attribute_views(out@));
            break;
        }
        let ghost before = out@;
        let entry: Vec<u8> = slice_of(data, at + 1, at + 1 + len);
        proof {
            assert(rest.subrange(1, 1 + len as int) =~= entry@);
            assert(rest.skip(1 + len as int) =~= data@.skip(at + 1 + len));
        }
        match text_of_bytes(entry.as_slice()) {
            Some(text) => {
                proof {
                    encode_utf8_decode_utf8(text@);
                }
                match split_attribute(text.as_str()) {
                    Some(attribute) => {
                        out.push(attribute);
                        proof {
                            assert(attribute_views(out@) =~= attribute_views(before).push(
                                (attribute.0@, attribute.1@),
                            ));
                            let tail = attributes(data@.skip(at + 1 + len));
                            assert(attribute_views(before) + (seq![(attribute.0@, attribute.1@)]
                                + tail) =~= attribute_views(out@) + tail);
                        }
                    },
                    None => {},
                }
            },
            None => {},
        }
        at = at + 1 + len;
        assert(attributes(data@) == attribute_views(out@) + attributes(data@.skip(at as int)));
        proof {
            if at >= data@.len() {
                assert(data@.skip(at as int) =~= Seq::empty());
                assert(attributes(data@.skip(at as int)) =~= Seq::empty());
                assert(attributes(data@) =~= attribute_views(out@));
            }
        }
    }
    out
}

/// The bytes `data[from..to]`.
fn slice_of(data: &[u8], from: usize, to: usize) -> (r: Vec<u8>)
    requires
        from <= to <= data@.len(),
    ensures
        r@ == data@.subrange(from as int, to as int),
{
    let mut out: Vec<u8> = Vec::new();
    let mut i: usize = from;
    while i < to
        invariant
            from <= i <= to <= data@.len(),
            out@ == data@.subrange(from as int, i as int),
        decreases to - i,
    {
        out.push(data[i]);
        assert(out@ =~= data@.subrange(from as int, i + 1));
        i += 1;
    }
    out
}

/// Looks an attribute up: the last one with the key counts.
pub fn attribute(list: &Vec<(String, String)>, key: &str) -> (r: Option<String>)
    ensures
        text_view(r) == value_of(attribute_views(list@), key@),
{
    let ghost views = attribute_views(list@);
    let mut i: usize = list.len();
    assert(views.take(i as int) =~= views);
    while i > 0
        invariant
            i <= list@.len(),
            views == attribute_views(list@),
            value_of(views, key@) == value_of(views.take(i as int), key@),
        decreases i,
    {
        proof {
            assert(views.take(i as int).last() == views[i - 1]);
            assert(views.take(i as int).drop_last() =~= views.take(i - 1));
        }
        if same_text(list[i - 1].0.as_str(), key) {
            return Some(list[i - 1].1.clone());
        }
        i -= 1;
    }
    None
}

/// A record that starts with an attribute reads as that attribute and what follows.
pub proof fn attribute_reads_back(key: Seq<char>, value: Seq<char>, rest: Seq<u8>)
    requires
        attribute_fits(key, value),
        forall|i: int| 0 <= i < key.len() ==> #[trigger] key[i] != '=',
    ensures
        attributes(attribute_bytes(key, value) + rest) == seq![(key, value)] + attributes(rest),
{
    let text = attribute_text(key, value);
    let bytes = encode_utf8(text);
    let data = attribute_bytes(key, value) + rest;
    crate::text::encoded_length_bounds(text);
    encode_utf8_decode_utf8(text);
    encode_utf8_valid_utf8(text);
    assert(data.subrange(1, 1 + bytes.len() as int) =~= bytes);
    assert(data.skip(1 + bytes.len() as int) =~= rest);
    assert(data[0] == bytes.len());
    first_at_finds(text, '=', 0);
    assert(text[key.len() as int] == '=');
    let i = first_at(text, '=', 0);
    assert(i == Some(key.len() as int)) by {
        if i is Some && i->0 < key.len() {
            assert(text[i->0] == key[i->0]);
        }
    }
    assert(text.take(key.len() as int) =~= key);
    assert(text.skip(key.len() as int + 1) =~= value);
}

// ---------------------------------------------------------------------------
// Service names
// ---------------------------------------------------------------------------

/// `s` without the dots at its end.
pub open spec fn without_dots(s: Seq<char>) -> Seq<char>
    decreases s.len(),
{
    if s.len() > 0 && s.last() == '.' {
        without_dots(s.drop_last())
    } else {
        s
    }
}

/// The registration type and the domain of a full service type.
pub open spec fn service_parts(service_type: Seq<char>) -> Option<(Seq<char>, Seq<char>)> {
    let s = without_dots(service_type);
    match last_at(s, '.') {
        Some(i) => Some((s.take(i), s.skip(i + 1).push('.'))),
        None => None,
    }
}

/// Splits a full service type, such as `_duocb-pin._udp.local.`, into the registration
/// type and the domain.
pub fn split_service_type(service_type: &str) -> (r: Result<(String, String), String>)
    ensures
        match r {
            Ok((regtype, domain)) => service_parts(service_type@) == Some((regtype@, domain@)),
            Err(e) => service_parts(service_type@) is None && e@
                == "service type has no domain label"@,
        },
{
    let chars: Vec<char> = chars_of(service_type);
    let mut end: usize = chars.len();
    assert(chars@.take(end as int) =~= chars@);
    while end > 0 && chars[end - 1] == '.'
        invariant
            end <= chars@.len(),
            without_dots(chars@) == without_dots(chars@.take(end as int)),
        decreases end,
    {
        assert(chars@.take(end as int).drop_last() =~= chars@.take(end - 1));
        end -= 1;
    }
    let ghost s = chars@.take(end as int);
    assert(without_dots(service_type@) == s);
    match rfind_char(&chars, '.', end) {
        Some(at) => {
            let regtype: String = string_of(&chars, 0, at);
            let mut domain: String = string_of(&chars, at + 1, end);
            assert(regtype@ =~= s.take(at as int));
            assert(domain@ =~= s.skip(at + 1));
            domain.push('.');
            Ok((regtype, domain))
        },
        None => Err("service type has no domain label".to_owned()),
    }
}

/// The instance label in the full name of a resolved service of the given type.
pub open spec fn instance_of(fullname: Seq<char>, service_type: Seq<char>) -> Option<Seq<char>> {
    let name = lowered(fullname);
    let suffix = seq!['.'] + service_type;
    if suffix.is_suffix_of(name) {
        Some(name.take(name.len() - suffix.len()))
    } else {
        None
    }
}

/// The instance label in a full name, in lower case: names on the network do not tell
/// case apart.
pub fn instance_in(fullname: &str, service_type: &str) -> (r: Option<String>)
    ensures
        text_view(r) == instance_of(fullname@, service_type@),
{
    let name: Vec<char> = chars_of(lowercase(fullname).as_str());
    let mut suffix: Vec<char> = Vec::new();
    suffix.push('.');
    let kind: Vec<char> = chars_of(service_type);
    let mut i: usize = 0;
    while i < kind.len()
        invariant
            i <= kind@.len(),
            kind@ == service_type@,
            suffix@ == seq!['.'] + service_type@.take(i as int),
        decreases kind@.len() - i,
    {
        suffix.push(kind[i]);
        i += 1;
        assert(suffix@ =~= seq!['.'] + service_type@.take(i as int));
    }
    assert(service_type@.take(i as int) =~= service_type@);
    let total: usize = name.len();
    if suffix.len() > total {
        return None;
    }
    let start: usize = total - suffix.len();
    let mut k: usize = 0;
    while k < suffix.len()
        invariant
            k <= suffix@.len(),
            total == name@.len(),
            start + suffix@.len() == total,
            name@ == lowered(fullname@),
            suffix@ == seq!['.'] + service_type@,
            suffix@.take(k as int) == name@.subrange(start as int, start + k),
        decreases suffix@.len() - k,
    {
        if name[start + k] != suffix[k] {
            assert(suffix@[k as int] != name@.subrange(start as int, name@.len() as int)[k as int]);
            return None;
        }
        k += 1;
        assert(suffix@.take(k as int) =~= name@.subrange(start as int, start + k));
    }
    assert(suffix@.take(k as int) =~= suffix@);
    let r: String = string_of(&name, 0, start);
    assert(r@ =~= name@.take(start as int));
    Some(r)
}

// ---------------------------------------------------------------------------
// Advertising
// ---------------------------------------------------------------------------

/// The attributes of an advertisement: the encrypted record, and the IPv6 port where it
/// differs from the SRV port.
pub open spec fn advert_attributes(content: Seq<char>, port6: Option<u16>) -> Seq<
    (Seq<char>, Seq<char>),
> {
    match port6 {
        None => seq![("e"@, content)],
        Some(port) => seq![("e"@, content), ("p6"@, decimal(port as nat))],
    }
}

/// What an advertisement carries.
pub struct DnssdAdvert {
    pub srv_port: u16,
    pub attributes: Vec<(String, String)>,
    /// The addresses, in ascending order and each of them once.
    pub ips: Vec<IpAddr>,
    /// The target of the SRV record.
    pub host: String,
}

/// Whether `advert` is the advertisement of an instance with its record at `addrs`.
pub open spec fn advertises(
    advert: DnssdAdvert,
    instance: Seq<char>,
    content: Seq<char>,
    addrs: Seq<SocketAddr>,
) -> bool {
    &&& ports_of(addrs) is Some
    &&& advert.srv_port == (ports_of(addrs)->0).0
    &&& attribute_views(advert.attributes@) == advert_attributes(content, (ports_of(addrs)->0).1)
    &&& ascending(advert.ips@)
    &&& advert.ips@.no_duplicates()
    &&& forall|ip: IpAddr| #[trigger]
        advert.ips@.contains(ip) <==> addrs.map_values(|a: SocketAddr| a.ip).contains(ip)
    &&& advert.host@ == instance + ".local."@
}

/// Puts an advertisement together. It needs an address to advertise.
pub fn dnssd_advert(instance: &str, content: &str, addrs: &Vec<SocketAddr>) -> (r: Result<
    DnssdAdvert,
    String,
>)
    ensures
        match r {
            Ok(advert) => {
                &&& ports_of(addrs@) is Some
                &&& advert.srv_port == (ports_of(addrs@)->0).0
                &&& attribute_views(advert.attributes@) == advert_attributes(
                    content@,
                    (ports_of(addrs@)->0).1,
                )
                &&& ascending(advert.ips@)
                &&& advert.ips@.no_duplicates()
                &&& forall|ip: IpAddr| #[trigger]
                    advert.ips@.contains(ip) <==> addrs@.map_values(
                        |a: SocketAddr| a.ip,
                    ).contains(ip)
                &&& advert.host@ == instance@ + ".local."@
                &&& advertises(advert, instance@, content@, addrs@)
            },
            Err(e) => ports_of(addrs@) is None && e@
                == "endpoint has no direct addresses to advertise"@,
        },
{
    let (srv_port, port6): (u16, Option<u16>) = match split_ports(addrs) {
        Some(ports) => ports,
        None => return Err("endpoint has no direct addresses to advertise".to_owned()),
    };
    let mut attributes: Vec<(String, String)> = Vec::new();
    attributes.push(("e".to_owned(), content.to_owned()));
    match port6 {
        Some(port) => {
            let mut text: String = String::new();
            push_decimal(&mut text, port as u64);
            attributes.push(("p6".to_owned(), text));
        },
        None => {},
    }
    assert(attribute_views(attributes@) =~= advert_attributes(content@, port6));
    let mut ips: Vec<IpAddr> = Vec::new();
    let mut i: usize = 0;
    while i < addrs.len()
        invariant
            i <= addrs@.len(),
            ips@ == addrs@.take(i as int).map_values(|a: SocketAddr| a.ip),
        decreases addrs@.len() - i,
    {
        ips.push(addrs[i].ip);
        i += 1;
        assert(ips@ =~= addrs@.take(i as int).map_values(|a: SocketAddr| a.ip));
    }
    assert(addrs@.take(i as int) =~= addrs@);
    let mut host: String = instance.to_owned();
    host.append(".local.");
    Ok(DnssdAdvert { srv_port, attributes, ips: sorted_unique(&ips), host })
}

/// The wire form of a list of attributes.
pub open spec fn txt_bytes(list: Seq<(Seq<char>, Seq<char>)>) -> Seq<u8>
    decreases list.len(),
{
    if list.len() == 0 {
        Seq::empty()
    } else {
        txt_bytes(list.drop_last()) + attribute_bytes(list.last().0, list.last().1)
    }
}

/// Whether every attribute of a list fits.
pub open spec fn all_fit(list: Seq<(Seq<char>, Seq<char>)>) -> bool {
    forall|i: int| 0 <= i < list.len() ==> attribute_fits((#[trigger] list[i]).0, list[i].1)
}

/// A sealed record of a node id fits one attribute, whatever its keys.
pub proof fn sealed_records_fit(content: Seq<char>)
    requires
        in_base64(content),
        content.len() == SEALED_RECORD_CHARS,
    ensures
        attribute_fits("e"@, content),
{
    reveal_strlit("e");
    ascii_takes_a_byte_each(attribute_text("e"@, content));
}

/// The TXT record of a list of attributes. It fails where one of them does not fit.
pub fn txt_record(list: &Vec<(String, String)>) -> (r: Result<Vec<u8>, String>)
    ensures
        match r {
            Ok(bytes) => all_fit(attribute_views(list@)) && bytes@ == txt_bytes(
                attribute_views(list@),
            ),
            Err(e) => !all_fit(attribute_views(list@)) && e@
                == "rendezvous record does not fit a TXT attribute"@,
        },
{
    let ghost views = attribute_views(list@);
    let mut out: Vec<u8> = Vec::new();
    let mut i: usize = 0;
    while i < list.len()
        invariant
            i <= list@.len(),
            views == attribute_views(list@),
            out@ == txt_bytes(views.take(i as int)),
            forall|j: int| 0 <= j < i ==> attribute_fits((#[trigger] views[j]).0, views[j].1),
        decreases list@.len() - i,
    {
        proof {
            assert(views.take(i + 1).drop_last() =~= views.take(i as int));
            assert(views[i as int] == (list@[i as int].0@, list@[i as int].1@));
        }
        match push_txt(&mut out, list[i].0.as_str(), list[i].1.as_str()) {
            Ok(()) => {},
            Err(e) => {
                assert(!attribute_fits(views[i as int].0, views[i as int].1));
                return Err(e);
            },
        }
        i += 1;
    }
    assert(views.take(i as int) =~= views);
    Ok(out)
}

/// What is written to a TXT record reads back, for keys without an equals sign.
pub proof fn txt_records_read_back(list: Seq<(Seq<char>, Seq<char>)>)
    requires
        all_fit(list),
        forall|i: int, j: int|
            0 <= i < list.len() && 0 <= j < list[i].0.len() ==> #[trigger] list[i].0[j] != '=',
    ensures
        attributes(txt_bytes(list)) == list,
    decreases list.len(),
{
    txt_prefix_reads_back(list, Seq::empty());
    assert(txt_bytes(list) + Seq::<u8>::empty() =~= txt_bytes(list));
    assert(attributes(Seq::<u8>::empty()) =~= Seq::empty());
    assert(list + Seq::<(Seq<char>, Seq<char>)>::empty() =~= list);
}

/// [`txt_records_read_back`] with bytes behind the record.
proof fn txt_prefix_reads_back(list: Seq<(Seq<char>, Seq<char>)>, rest: Seq<u8>)
    requires
        all_fit(list),
        forall|i: int, j: int|
            0 <= i < list.len() && 0 <= j < list[i].0.len() ==> #[trigger] list[i].0[j] != '=',
    ensures
        attributes(txt_bytes(list) + rest) == list + attributes(rest),
    decreases list.len(),
{
    if list.len() == 0 {
        assert(txt_bytes(list) + rest =~= rest);
        assert(list + attributes(rest) =~= attributes(rest));
    } else {
        let last = list.last();
        let tail = attribute_bytes(last.0, last.1) + rest;
        let front = list.drop_last();
        assert forall|i: int| 0 <= i < front.len() implies attribute_fits(
            (#[trigger] front[i]).0,
            front[i].1,
        ) by {
            assert(front[i] == list[i]);
        }
        assert forall|i: int, j: int|
            0 <= i < front.len() && 0 <= j < front[i].0.len() implies #[trigger] front[i].0[j]
            != '=' by {
            assert(front[i] == list[i]);
        }
        txt_prefix_reads_back(front, tail);
        assert(txt_bytes(list) + rest =~= txt_bytes(front) + tail);
        assert(attribute_fits(list[list.len() - 1].0, list[list.len() - 1].1));
        assert forall|j: int| 0 <= j < last.0.len() implies #[trigger] last.0[j] != '=' by {
            assert(list[list.len() - 1].0[j] != '=');
        }
        attribute_reads_back(last.0, last.1, rest);
        assert(list =~= front.push(last));
        assert(front + (seq![last] + attributes(rest)) =~= list + attributes(rest));
    }
}

/// Attributes are read entry by entry: one that is text with an equals sign counts as what
/// stands before and behind its first one, another is passed over, and reading goes on
/// behind either; at an empty entry, and at one that is cut off, it stops.
pub proof fn entries_are_read_one_by_one(entry: Seq<u8>, rest: Seq<u8>, n: u8)
    ensures
        1 <= entry.len() <= 255 ==> attributes(seq![entry.len() as u8] + entry + rest) == (if attribute_of(
            entry,
        ) is Some {
            seq![attribute_of(entry)->0]
        } else {
            Seq::empty()
        }) + attributes(rest),
        attributes(seq![0u8] + rest) == Seq::<(Seq<char>, Seq<char>)>::empty(),
        rest.len() < n ==> attributes(seq![n] + rest) == Seq::<(Seq<char>, Seq<char>)>::empty(),
        attributes(Seq::<u8>::empty()) == Seq::<(Seq<char>, Seq<char>)>::empty(),
{
    if 1 <= entry.len() <= 255 {
        let data = seq![entry.len() as u8] + entry + rest;
        assert(data[0] == entry.len());
        assert(data.subrange(1, 1 + entry.len() as int) =~= entry);
        assert(data.skip(1 + entry.len() as int) =~= rest);
        assert(Seq::<(Seq<char>, Seq<char>)>::empty() + attributes(rest) =~= attributes(rest));
    }
    assert((seq![0u8] + rest)[0] == 0);
    assert((seq![n] + rest)[0] == n);
}

/// An entry holds an attribute exactly where it is text with an equals sign, and the first
/// one parts the key from the value.
pub proof fn the_first_equals_sign_parts(entry: Seq<u8>, key: Seq<char>, value: Seq<char>)
    ensures
        attribute_of(entry) == Some((key, value)) <==> {
            &&& valid_utf8(entry)
            &&& decode_utf8(entry) == key + seq!['='] + value
            &&& forall|i: int| 0 <= i < key.len() ==> #[trigger] key[i] != '='
        },
{
    if valid_utf8(entry) {
        let text = decode_utf8(entry);
        first_at_finds(text, '=', 0);
        if let Some(i) = first_at(text, '=', 0) {
            assert(text =~= text.take(i) + seq!['='] + text.skip(i + 1));
            assert forall|k: int| 0 <= k < text.take(i).len() implies #[trigger] text.take(i)[k]
                != '=' by {
                assert(text[k] != '=');
            }
        }
        if text == key + seq!['='] + value && forall|i: int|
            0 <= i < key.len() ==> #[trigger] key[i] != '=' {
            crate::text::first_at_is_first(key, '=', value);
        }
    }
}

/// Of several attributes with one key the last counts.
pub proof fn the_last_attribute_counts(
    list: Seq<(Seq<char>, Seq<char>)>,
    key: Seq<char>,
    i: int,
)
    ensures
        0 <= i < list.len() && list[i].0 == key && (forall|j: int|
            i < j < list.len() ==> (#[trigger] list[j]).0 != key) ==> value_of(list, key) == Some(
            list[i].1,
        ),
        (forall|j: int| 0 <= j < list.len() ==> (#[trigger] list[j]).0 != key) ==> value_of(
            list,
            key,
        ) is None,
    decreases list.len(),
{
    if list.len() > 0 {
        let front = list.drop_last();
        the_last_attribute_counts(front, key, i);
        assert(list.last() == list[list.len() - 1]);
        if forall|j: int| 0 <= j < list.len() ==> (#[trigger] list[j]).0 != key {
            assert(list[list.len() - 1].0 != key);
            assert forall|j: int| 0 <= j < front.len() implies (#[trigger] front[j]).0 != key by {
                assert(front[j] == list[j]);
            }
        }
        if 0 <= i < front.len() && list[i].0 == key && forall|j: int|
            i < j < list.len() ==> (#[trigger] list[j]).0 != key {
            assert(list[list.len() - 1].0 != key);
            assert forall|j: int| i < j < front.len() implies (#[trigger] front[j]).0 != key by {
                assert(front[j] == list[j]);
            }
        }
    }
}

/// A service type is parted at its last dot, the dots at its end aside: what stands before
/// it is the registration type, and what stands behind it, with a dot, the domain.
pub proof fn service_types_are_parted_at_the_last_dot(
    regtype: Seq<char>,
    domain: Seq<char>,
    dots: nat,
)
    requires
        domain.len() > 0,
        forall|i: int| 0 <= i < domain.len() ==> #[trigger] domain[i] != '.',
    ensures
        service_parts(regtype + seq!['.'] + domain + Seq::new(dots, |i: int| '.')) == Some(
            (regtype, domain + seq!['.']),
        ),
{
    let s = regtype + seq!['.'] + domain;
    dots_at_the_end_do_not_count(s, dots);
    assert(s.last() == domain[domain.len() - 1]);
    crate::text::last_at_is_last(regtype, '.', domain);
    assert(s.take(regtype.len() as int) =~= regtype);
    assert(s.skip(regtype.len() as int + 1) =~= domain);
    assert(domain.push('.') =~= domain + seq!['.']);
}

proof fn dots_at_the_end_do_not_count(s: Seq<char>, dots: nat)
    ensures
        without_dots(s + Seq::new(dots, |i: int| '.')) == without_dots(s),
    decreases dots,
{
    let all = s + Seq::new(dots, |i: int| '.');
    if dots == 0 {
        assert(all =~= s);
    } else {
        assert(all.last() == '.');
        assert(all.drop_last() =~= s + Seq::new((dots - 1) as nat, |i: int| '.'));
        dots_at_the_end_do_not_count(s, (dots - 1) as nat);
    }
}

/// A service is of a type exactly where its full name, in lower case, ends with a dot and
/// that type; what stands in front is its label.
pub proof fn labels_stand_in_front_of_the_type(
    fullname: Seq<char>,
    service_type: Seq<char>,
    label: Seq<char>,
)
    ensures
        instance_of(fullname, service_type) == Some(label) <==> lowered(fullname) == label + seq![
            '.',
        ] + service_type,
{
    let name = lowered(fullname);
    let suffix = seq!['.'] + service_type;
    let whole = label + seq!['.'] + service_type;
    assert(whole =~= label + suffix);
    if name == whole {
        assert(name.subrange(name.len() - suffix.len(), name.len() as int) =~= suffix);
        assert(name.take(name.len() - suffix.len()) =~= label);
    }
    if instance_of(fullname, service_type) == Some(label) {
        assert(name =~= label + suffix);
    }
}

/// An advertisement carries the record, and the IPv6 port where it differs, and nothing
/// else.
pub proof fn adverts_carry_the_record(content: Seq<char>, port: u16)
    ensures
        advert_attributes(content, None) == seq![("e"@, content)],
        advert_attributes(content, Some(port)) == seq![
            ("e"@, content),
            ("p6"@, decimal(port as nat)),
        ],
{
}

/// An advertisement names every address of its device, each once and no other, under the
/// device's own host name, with the record that was given.
pub proof fn every_address_is_advertised(
    advert: DnssdAdvert,
    instance: Seq<char>,
    content: Seq<char>,
    addrs: Seq<SocketAddr>,
    i: int,
)
    requires
        advertises(advert, instance, content, addrs),
        0 <= i < addrs.len(),
    ensures
        advert.ips@.contains(addrs[i].ip),
        advert.ips@.no_duplicates(),
        forall|k: int|
            0 <= k < advert.ips@.len() ==> exists|j: int|
                0 <= j < addrs.len() && (#[trigger] addrs[j]).ip == #[trigger] advert.ips@[k],
        advert.host@ == instance + ".local."@,
        attribute_views(advert.attributes@).len() > 0,
        attribute_views(advert.attributes@)[0] == ("e"@, content),
{
    let ips = addrs.map_values(|a: SocketAddr| a.ip);
    assert(ips[i] == addrs[i].ip);
    assert(ips.contains(addrs[i].ip));
    assert forall|k: int| 0 <= k < advert.ips@.len() implies exists|j: int|
        0 <= j < addrs.len() && (#[trigger] addrs[j]).ip == #[trigger] advert.ips@[k] by {
        let ip = advert.ips@[k];
        assert(advert.ips@.contains(ip));
        let j = choose|j: int| 0 <= j < ips.len() && ips[j] == ip;
        assert(addrs[j].ip == ip);
    }
}

/// The views of attributes stand in the order of the attributes, one for one.
pub proof fn attribute_views_keep_every_attribute(list: Seq<(String, String)>, i: int)
    ensures
        attribute_views(list).len() == list.len(),
        0 <= i < list.len() ==> attribute_views(list)[i] == (list[i].0@, list[i].1@),
{
}

/// Attributes are written one after the other, each as its length in a byte and its key, an
/// equals sign and its value.
pub proof fn attributes_are_written_one_by_one(
    list: Seq<(Seq<char>, Seq<char>)>,
    key: Seq<char>,
    value: Seq<char>,
)
    ensures
        txt_bytes(Seq::<(Seq<char>, Seq<char>)>::empty()) == Seq::<u8>::empty(),
        attribute_fits(key, value) <==> encode_utf8(key + seq!['='] + value).len() <= 255,
        attribute_fits(key, value) ==> txt_bytes(list.push((key, value))) == txt_bytes(list) + seq![
            encode_utf8(key + seq!['='] + value).len() as u8,
        ] + encode_utf8(key + seq!['='] + value),
{
    assert(list.push((key, value)).drop_last() =~= list);
    let text = encode_utf8(key + seq!['='] + value);
    assert(txt_bytes(list) + (seq![text.len() as u8] + text) =~= txt_bytes(list) + seq![
        text.len() as u8,
    ] + text);
}

} // verus!
