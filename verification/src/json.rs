//! The JSON that crosses the wire: flat objects of strings, unsigned numbers,
//! booleans, nulls and lists of strings, written compactly in a fixed field order and read back
//! with `serde_json`.

use vstd::prelude::*;
use vstd::string::*;
use vstd::utf8::encode_utf8;

use crate::text::{decimal, hex_digit, hex_digit_char, push_decimal, texts};

verus! {

/// What a field of an object holds. `Other` stands for every value that no
/// message uses: objects, arrays of anything but strings, and numbers outside `u64`.
pub enum JsonValue {
    Null,
    Bool(bool),
    Unsigned(u64),
    Text(Seq<char>),
    Texts(Seq<Seq<char>>),
    Other,
}

/// A parsed value as it stands in an object. A number holds itself where it is one of
/// sixty-four bits, and a list the text of each item that is a string.
pub enum JsonNode {
    Null,
    Bool(bool),
    Number(Option<u64>),
    Text(String),
    List(Vec<Option<String>>),
    Object,
}

/// Whether every item of a list is a string.
pub open spec fn all_texts(items: Seq<Option<String>>) -> bool {
    forall|i: int| 0 <= i < items.len() ==> #[trigger] items[i] is Some
}

impl View for JsonNode {
    type V = JsonValue;

    open spec fn view(&self) -> JsonValue {
        match *self {
            JsonNode::Null => JsonValue::Null,
            JsonNode::Bool(b) => JsonValue::Bool(b),
            JsonNode::Number(Some(n)) => JsonValue::Unsigned(n),
            JsonNode::Number(None) => JsonValue::Other,
            JsonNode::Text(s) => JsonValue::Text(s@),
            JsonNode::List(items) => if all_texts(items@) {
                JsonValue::Texts(items@.map_values(|s: Option<String>| s->0@))
            } else {
                JsonValue::Other
            },
            JsonNode::Object => JsonValue::Other,
        }
    }
}

/// The fields of an object in the order in which they are written.
pub type Fields = Seq<(Seq<char>, JsonValue)>;

/// The member texts of an object: each key with its rendered value.
pub type Members = Seq<(Seq<char>, Seq<char>)>;

// ---------------------------------------------------------------------------
// Writing
// ---------------------------------------------------------------------------

/// How one character stands inside a JSON string.
pub open spec fn escaped_char(c: char) -> Seq<char> {
    if c == '"' {
        seq!['\\', '"']
    } else if c == '\\' {
        seq!['\\', '\\']
    } else if c as u32 == 8 {
        seq!['\\', 'b']
    } else if c as u32 == 9 {
        seq!['\\', 't']
    } else if c as u32 == 10 {
        seq!['\\', 'n']
    } else if c as u32 == 12 {
        seq!['\\', 'f']
    } else if c as u32 == 13 {
        seq!['\\', 'r']
    } else if (c as u32) < 32 {
        seq!['\\', 'u', '0', '0', hex_digit((c as u32 / 16) as nat), hex_digit(
            (c as u32 % 16) as nat,
        )]
    } else {
        seq![c]
    }
}

/// The inside of the JSON string that stands for `s`.
pub open spec fn escaped(s: Seq<char>) -> Seq<char>
    decreases s.len(),
{
    if s.len() == 0 {
        Seq::empty()
    } else {
        escaped(s.drop_last()) + escaped_char(s.last())
    }
}

/// A character takes at most six inside a JSON string.
pub proof fn escaped_length_bounds(s: Seq<char>)
    ensures
        s.len() <= escaped(s).len() <= 6 * s.len(),
    decreases s.len(),
{
    if s.len() > 0 {
        escaped_length_bounds(s.drop_last());
    }
}

/// Text without quotes, backslashes and control characters stands in a JSON string as it
/// is.
pub proof fn plain_text_is_not_escaped(s: Seq<char>)
    requires
        forall|i: int|
            0 <= i < s.len() ==> #[trigger] s[i] != '"' && s[i] != '\\' && s[i] as u32 >= 32,
    ensures
        escaped(s) == s,
    decreases s.len(),
{
    if s.len() > 0 {
        let front = s.drop_last();
        assert forall|i: int| 0 <= i < front.len() implies #[trigger] front[i] != '"' && front[i]
            != '\\' && front[i] as u32 >= 32 by {
            assert(front[i] == s[i]);
        }
        plain_text_is_not_escaped(front);
        assert(s.last() == s[s.len() - 1]);
        assert(escaped(s) =~= s);
    }
}

/// The JSON string that stands for `s`.
pub open spec fn quoted(s: Seq<char>) -> Seq<char> {
    seq!['"'] + escaped(s) + seq!['"']
}

/// The JSON text of a value.
pub open spec fn value_text(v: JsonValue) -> Seq<char> {
    match v {
        JsonValue::Null => "null"@,
        JsonValue::Bool(b) => if b {
            "true"@
        } else {
            "false"@
        },
        JsonValue::Unsigned(n) => decimal(n as nat),
        JsonValue::Text(s) => quoted(s),
        JsonValue::Texts(v) => array_text(v.map_values(|s: Seq<char>| quoted(s))),
        JsonValue::Other => Seq::empty(),
    }
}

/// One member: the quoted key, a colon and the value.
pub open spec fn member_text(m: (Seq<char>, Seq<char>)) -> Seq<char> {
    quoted(m.0) + seq![':'] + m.1
}

/// The members, separated by commas.
pub open spec fn joined(m: Members) -> Seq<char>
    decreases m.len(),
{
    if m.len() == 0 {
        Seq::empty()
    } else if m.len() == 1 {
        member_text(m[0])
    } else {
        joined(m.drop_last()) + seq![','] + member_text(m.last())
    }
}

/// The object with the given members.
#[verifier::opaque]
pub open spec fn members_text(m: Members) -> Seq<char> {
    seq!['{'] + joined(m) + seq!['}']
}

/// The member texts of `f`.
pub open spec fn member_texts(f: Fields) -> Members {
    f.map_values(|p: (Seq<char>, JsonValue)| (p.0, value_text(p.1)))
}

/// The compact JSON text of the object with the fields `f`.
pub open spec fn object_text(f: Fields) -> Seq<char> {
    members_text(member_texts(f))
}

/// The view of rendered members.
pub open spec fn members_view(m: Seq<(String, String)>) -> Members {
    m.map_values(|p: (String, String)| (p.0@, p.1@))
}

fn push_escaped(out: &mut String, c: char)
    ensures
        final(out)@ == old(out)@ + escaped_char(c),
{
    let code: u32 = c as u32;
    if c == '"' {
        out.push('\\');
        out.push('"');
    } else if c == '\\' {
        out.push('\\');
        out.push('\\');
    } else if code == 8 {
        out.push('\\');
        out.push('b');
    } else if code == 9 {
        out.push('\\');
        out.push('t');
    } else if code == 10 {
        out.push('\\');
        out.push('n');
    } else if code == 12 {
        out.push('\\');
        out.push('f');
    } else if code == 13 {
        out.push('\\');
        out.push('r');
    } else if code < 32 {
        out.push('\\');
        out.push('u');
        out.push('0');
        out.push('0');
        out.push(hex_digit_char((code / 16) as u8));
        out.push(hex_digit_char((code % 16) as u8));
    } else {
        out.push(c);
    }
}

/// Appends the JSON string that stands for `s`.
fn push_quoted(out: &mut String, s: &str)
    ensures
        final(out)@ == old(out)@ + quoted(s@),
{
    let ghost before = out@;
    out.push('"');
    for c in it: s.chars()
        invariant
            it.seq() == s@,
            out@ == before + seq!['"'] + escaped(s@.take(it.index() as int)),
    {
        proof {
            let done = s@.take(it.index() as int + 1);
            assert(done.drop_last() =~= s@.take(it.index() as int));
        }
        push_escaped(out, c);
    }
    assert(s@.take(s@.len() as int) =~= s@);
    out.push('"');
}

/// The JSON string that stands for `s`.
pub fn quote(s: &str) -> (r: String)
    ensures
        r@ == quoted(s@),
{
    let mut out = String::new();
    push_quoted(&mut out, s);
    out
}

/// The decimal text of `n`.
pub fn number(n: u64) -> (r: String)
    ensures
        r@ == decimal(n as nat),
{
    let mut out = String::new();
    push_decimal(&mut out, n);
    out
}

/// The JSON text of a boolean.
pub fn boolean(b: bool) -> (r: String)
    ensures
        r@ == value_text(JsonValue::Bool(b)),
{
    if b {
        "true".to_owned()
    } else {
        "false".to_owned()
    }
}

/// The text of the object with the given members.
pub fn object(members: &Vec<(String, String)>) -> (r: String)
    ensures
        r@ == members_text(members_view(members@)),
{
    let ghost all = members_view(members@);
    let mut out = String::new();
    out.push('{');
    let mut i: usize = 0;
    while i < members.len()
        invariant
            i <= members@.len(),
            all == members_view(members@),
            out@ == seq!['{'] + joined(all.take(i as int)),
        decreases members@.len() - i,
    {
        proof {
            let done = all.take(i as int + 1);
            assert(done.drop_last() =~= all.take(i as int));
            assert(done.last() == (members@[i as int].0@, members@[i as int].1@));
        }
        if i > 0 {
            out.push(',');
        }
        push_quoted(&mut out, members[i].0.as_str());
        out.push(':');
        out.append(members[i].1.as_str());
        i += 1;
    }
    assert(all.take(i as int) =~= all);
    out.push('}');
    proof {
        reveal(members_text);
    }
    out
}

/// The texts, separated by commas.
pub open spec fn comma_list(items: Seq<Seq<char>>) -> Seq<char>
    decreases items.len(),
{
    if items.len() == 0 {
        Seq::empty()
    } else if items.len() == 1 {
        items[0]
    } else {
        comma_list(items.drop_last()) + seq![','] + items.last()
    }
}

/// The array with the given items.
pub open spec fn array_text(items: Seq<Seq<char>>) -> Seq<char> {
    seq!['['] + comma_list(items) + seq![']']
}

/// The text of the array with the given items.
pub fn array(items: &Vec<String>) -> (r: String)
    ensures
        r@ == array_text(items@.map_values(|s: String| s@)),
{
    let ghost all = items@.map_values(|s: String| s@);
    let mut out = String::new();
    out.push('[');
    let mut i: usize = 0;
    while i < items.len()
        invariant
            i <= items@.len(),
            all == items@.map_values(|s: String| s@),
            out@ == seq!['['] + comma_list(all.take(i as int)),
        decreases items@.len() - i,
    {
        proof {
            let done = all.take(i as int + 1);
            assert(done.drop_last() =~= all.take(i as int));
            assert(done.last() == items@[i as int]@);
        }
        if i > 0 {
            out.push(',');
        }
        out.append(items[i].as_str());
        i += 1;
    }
    assert(all.take(i as int) =~= all);
    out.push(']');
    out
}

/// The JSON text of a string that may be left out: null where it is.
pub open spec fn optional_text(v: Option<Seq<char>>) -> Seq<char> {
    match v {
        Some(s) => quoted(s),
        None => "null"@,
    }
}

/// The JSON text of an optional string.
pub fn quote_optional(v: &Option<String>) -> (r: String)
    ensures
        r@ == optional_text(text_view(*v)),
{
    match v {
        Some(s) => quote(s.as_str()),
        None => "null".to_owned(),
    }
}

// ---------------------------------------------------------------------------
// Reading
// ---------------------------------------------------------------------------

/// `serde_json::Map`, the members of a parsed object.
#[verifier::external_type_specification]
#[verifier::external_body]
#[verifier::reject_recursive_types(K)]
#[verifier::reject_recursive_types(V)]
pub struct ExJsonMap<K, V>(serde_json::Map<K, V>);

/// `serde_json::Value`, one parsed value.
#[verifier::external_type_specification]
#[verifier::external_body]
pub struct ExJsonValue(serde_json::Value);

/// `serde_json::Error`, why a text was refused.
#[verifier::external_type_specification]
#[verifier::external_body]
pub struct ExJsonError(serde_json::Error);

/// The fields that a parsed object holds.
pub uninterp spec fn object_fields(m: serde_json::Map<String, serde_json::Value>) -> Map<
    Seq<char>,
    JsonValue,
>;

/// The fields of the JSON object written in `bytes`, if that is what they hold.
pub uninterp spec fn parsed_object(bytes: Seq<u8>) -> Option<Map<Seq<char>, JsonValue>>;

/// The fields of `f` by key; of two fields with one key the later one counts.
pub open spec fn field_map(f: Fields) -> Map<Seq<char>, JsonValue>
    decreases f.len(),
{
    if f.len() == 0 {
        Map::empty()
    } else {
        field_map(f.drop_last()).insert(f.last().0, f.last().1)
    }
}

/// Whether every field of `f` has a JSON text.
pub open spec fn writable(f: Fields) -> bool {
    forall|i: int| 0 <= i < f.len() ==> !(#[trigger] f[i].1 is Other)
}

/// `serde_json::from_slice` for an object. Its outcome depends on the bytes
/// alone, and from the compact text of an object it reads back that object's
/// fields. Which other texts it takes is not stated here.
#[verifier::external_body]
pub(crate) fn parse_object(bytes: &[u8]) -> (r: Result<
    serde_json::Map<String, serde_json::Value>,
    serde_json::Error,
>)
    ensures
        r is Ok <==> parsed_object(bytes@) is Some,
        r matches Ok(m) ==> parsed_object(bytes@) == Some(object_fields(m)),
        forall|f: Fields|
            writable(f) && bytes@ == encode_utf8(#[trigger] object_text(f)) ==> r is Ok
                && object_fields(r->Ok_0) == field_map(f),
{
    serde_json::from_slice(bytes)
}

/// `serde_json::Map::get`, with the found value as a plain one: a number by its `as_u64`,
/// and each item of a list by its `as_str`.
#[verifier::external_body]
pub(crate) fn field(m: &serde_json::Map<String, serde_json::Value>, key: &str) -> (r: Option<
    JsonNode,
>)
    ensures
        r is Some <==> object_fields(*m).contains_key(key@),
        r matches Some(v) ==> v@ == object_fields(*m)[key@],
{
    m.get(key).map(|value| match value {
        serde_json::Value::Null => JsonNode::Null,
        serde_json::Value::Bool(b) => JsonNode::Bool(*b),
        serde_json::Value::Number(n) => JsonNode::Number(n.as_u64()),
        serde_json::Value::String(s) => JsonNode::Text(s.clone()),
        serde_json::Value::Array(items) => JsonNode::List(
            items.iter().map(|item| item.as_str().map(|text| text.to_owned())).collect(),
        ),
        serde_json::Value::Object(_) => JsonNode::Object,
    })
}

/// `serde_json::Map::len`, the number of fields.
#[verifier::external_body]
pub(crate) fn field_count(m: &serde_json::Map<String, serde_json::Value>) -> (r: usize)
    ensures
        r == object_fields(*m).dom().len(),
{
    m.len()
}

/// The string under `key`.
pub open spec fn text_at(m: Map<Seq<char>, JsonValue>, key: Seq<char>) -> Option<Seq<char>> {
    if m.contains_key(key) && m[key] is Text {
        Some(m[key]->Text_0)
    } else {
        None
    }
}

/// The number under `key`.
pub open spec fn unsigned_at(m: Map<Seq<char>, JsonValue>, key: Seq<char>) -> Option<u64> {
    if m.contains_key(key) && m[key] is Unsigned {
        Some(m[key]->Unsigned_0)
    } else {
        None
    }
}

/// The number under `key`, if it fits sixteen bits.
pub open spec fn short_at(m: Map<Seq<char>, JsonValue>, key: Seq<char>) -> Option<u16> {
    match unsigned_at(m, key) {
        Some(n) => if n <= u16::MAX {
            Some(n as u16)
        } else {
            None
        },
        None => None,
    }
}

/// The list of strings under `key`.
pub open spec fn texts_at(m: Map<Seq<char>, JsonValue>, key: Seq<char>) -> Option<Seq<Seq<char>>> {
    if m.contains_key(key) && m[key] is Texts {
        Some(m[key]->Texts_0)
    } else {
        None
    }
}

/// The boolean under `key`.
pub open spec fn bool_at(m: Map<Seq<char>, JsonValue>, key: Seq<char>) -> Option<bool> {
    if m.contains_key(key) && m[key] is Bool {
        Some(m[key]->Bool_0)
    } else {
        None
    }
}

/// The string under `key` where one may be left out: `Some(None)` where the
/// field is absent or null, `None` where it holds something else.
pub open spec fn optional_text_at(m: Map<Seq<char>, JsonValue>, key: Seq<char>) -> Option<
    Option<Seq<char>>,
> {
    if !m.contains_key(key) || m[key] is Null {
        Some(None)
    } else if m[key] is Text {
        Some(Some(m[key]->Text_0))
    } else {
        None
    }
}

/// The view of an optional string.
pub open spec fn text_view(s: Option<String>) -> Option<Seq<char>> {
    match s {
        Some(t) => Some(t@),
        None => None,
    }
}

/// Reads the string under `key`.
pub(crate) fn text_field(
    m: &serde_json::Map<String, serde_json::Value>,
    key: &str,
) -> (r: Option<String>)
    ensures
        text_view(r) == text_at(object_fields(*m), key@),
{
    match field(m, key) {
        Some(JsonNode::Text(s)) => Some(s),
        _ => None,
    }
}

/// Reads the list of strings under `key`.
pub(crate) fn texts_field(
    m: &serde_json::Map<String, serde_json::Value>,
    key: &str,
) -> (r: Option<Vec<String>>)
    ensures
        r is Some <==> texts_at(object_fields(*m), key@) is Some,
        r matches Some(v) ==> texts_at(object_fields(*m), key@) == Some(texts(v@)),
{
    let items: Vec<Option<String>> = match field(m, key) {
        Some(JsonNode::List(items)) => items,
        _ => return None,
    };
    let mut out: Vec<String> = Vec::new();
    let mut i: usize = 0;
    while i < items.len()
        invariant
            object_fields(*m).contains_key(key@),
            object_fields(*m)[key@] == JsonNode::List(items)@,
            i <= items@.len(),
            out@.len() == i,
            forall|j: int|
                0 <= j < i ==> #[trigger] items@[j] is Some && out@[j]@ == items@[j]->0@,
        decreases items@.len() - i,
    {
        match &items[i] {
            Some(text) => out.push(text.clone()),
            None => {
                assert(items@[i as int] is None);
                return None;
            },
        }
        i += 1;
    }
    assert(texts(out@) =~= items@.map_values(|s: Option<String>| s->0@));
    Some(out)
}

/// Reads the number under `key`.
pub(crate) fn unsigned_field(
    m: &serde_json::Map<String, serde_json::Value>,
    key: &str,
) -> (r: Option<u64>)
    ensures
        r == unsigned_at(object_fields(*m), key@),
{
    match field(m, key) {
        Some(JsonNode::Number(n)) => n,
        _ => None,
    }
}

/// Reads the sixteen-bit number under `key`.
pub(crate) fn short_field(
    m: &serde_json::Map<String, serde_json::Value>,
    key: &str,
) -> (r: Option<u16>)
    ensures
        r == short_at(object_fields(*m), key@),
{
    match unsigned_field(m, key) {
        Some(n) => if n <= 65535 {
            Some(n as u16)
        } else {
            None
        },
        None => None,
    }
}

/// Reads the boolean under `key`.
pub(crate) fn bool_field(
    m: &serde_json::Map<String, serde_json::Value>,
    key: &str,
) -> (r: Option<bool>)
    ensures
        r == bool_at(object_fields(*m), key@),
{
    match field(m, key) {
        Some(JsonNode::Bool(b)) => Some(b),
        _ => None,
    }
}

/// Reads the optional string under `key`.
pub(crate) fn optional_text_field(
    m: &serde_json::Map<String, serde_json::Value>,
    key: &str,
) -> (r: Option<Option<String>>)
    ensures
        r is Some <==> optional_text_at(object_fields(*m), key@) is Some,
        r matches Some(s) ==> optional_text_at(object_fields(*m), key@) == Some(text_view(s)),
{
    match field(m, key) {
        None => Some(None),
        Some(JsonNode::Null) => Some(None),
        Some(JsonNode::Text(s)) => Some(Some(s)),
        _ => None,
    }
}

// ---------------------------------------------------------------------------
// What is written and read
// ---------------------------------------------------------------------------

proof fn escaped_from_the_front(s: Seq<char>)
    requires
        s.len() > 0,
    ensures
        escaped(s) == escaped_char(s[0]) + escaped(s.drop_first()),
    decreases s.len(),
{
    if s.len() == 1 {
        assert(s.drop_last() =~= Seq::empty());
        assert(s.drop_first() =~= Seq::empty());
        assert(escaped(s) =~= escaped_char(s[0]) + escaped(s.drop_first()));
    } else {
        escaped_from_the_front(s.drop_last());
        assert(s.drop_last().drop_first() =~= s.drop_first().drop_last());
        assert(escaped(s) =~= escaped_char(s[0]) + escaped(s.drop_first()));
    }
}

proof fn escaped_chars_come_apart(c: char, d: char, after_c: Seq<char>, after_d: Seq<char>)
    requires
        escaped_char(c) + after_c == escaped_char(d) + after_d,
    ensures
        c == d,
        after_c == after_d,
{
    let x = escaped_char(c);
    let y = escaped_char(d);
    let whole = x + after_c;
    assert(whole == y + after_d);
    assert(whole[0] == x[0] && whole[0] == y[0]);
    if x.len() > 1 && y.len() > 1 {
        assert(whole[1] == x[1] && whole[1] == y[1]);
    }
    if x.len() == 6 && y.len() == 6 {
        assert(whole[4] == x[4] && whole[4] == y[4]);
        assert(whole[5] == x[5] && whole[5] == y[5]);
    }
    assert(c == d);
    assert(after_c =~= whole.skip(x.len() as int));
    assert(after_d =~= whole.skip(y.len() as int));
}

/// Escaping loses nothing: texts that are written alike are the same.
pub proof fn escaping_loses_nothing(a: Seq<char>, b: Seq<char>)
    requires
        escaped(a) == escaped(b),
    ensures
        a == b,
    decreases a.len(),
{
    escaped_length_bounds(a);
    escaped_length_bounds(b);
    if a.len() == 0 || b.len() == 0 {
        assert(a =~= b);
    } else {
        escaped_from_the_front(a);
        escaped_from_the_front(b);
        escaped_chars_come_apart(
            a[0],
            b[0],
            escaped(a.drop_first()),
            escaped(b.drop_first()),
        );
        escaping_loses_nothing(a.drop_first(), b.drop_first());
        assert(a =~= seq![a[0]] + a.drop_first());
        assert(b =~= seq![b[0]] + b.drop_first());
    }
}

/// No control character stands in a JSON string.
pub proof fn escaped_text_has_no_control_characters(s: Seq<char>, i: int)
    requires
        0 <= i < escaped(s).len(),
    ensures
        escaped(s)[i] as u32 >= 32,
    decreases s.len(),
{
    if s.len() > 0 && i < escaped(s.drop_last()).len() {
        escaped_text_has_no_control_characters(s.drop_last(), i);
    }
}

/// A field is read as what it holds, whatever other fields stand beside it, and is not read
/// as anything else.
pub proof fn fields_are_read_as_they_stand(
    m: Map<Seq<char>, JsonValue>,
    key: Seq<char>,
    text: Seq<char>,
    n: u64,
    b: bool,
    list: Seq<Seq<char>>,
)
    ensures
        text_at(m, key) == Some(text) <==> m.contains_key(key) && m[key] == JsonValue::Text(text),
        unsigned_at(m, key) == Some(n) <==> m.contains_key(key) && m[key] == JsonValue::Unsigned(n),
        short_at(m, key) is Some <==> m.contains_key(key) && m[key] is Unsigned
            && m[key]->Unsigned_0 <= 65535,
        short_at(m, key) matches Some(v) ==> m[key] == JsonValue::Unsigned(v as u64),
        bool_at(m, key) == Some(b) <==> m.contains_key(key) && m[key] == JsonValue::Bool(b),
        texts_at(m, key) == Some(list) <==> m.contains_key(key) && m[key] == JsonValue::Texts(list),
        optional_text_at(m, key) == Some(Some(text)) <==> m.contains_key(key) && m[key]
            == JsonValue::Text(text),
        optional_text_at(m, key) == Some(None::<Seq<char>>) <==> !m.contains_key(key) || m[key]
            == JsonValue::Null,
{
}

/// Members and items are written in their order, none left out: an object or a list with one
/// more holds what it held, a comma and the new one.
pub proof fn written_members_keep_their_order(
    m: Members,
    last: (Seq<char>, Seq<char>),
    items: Seq<Seq<char>>,
    item: Seq<char>,
)
    ensures
        members_text(m.push(last)) == seq!['{'] + joined(m) + (if m.len() > 0 {
            seq![',']
        } else {
            Seq::empty()
        }) + seq!['"'] + escaped(last.0) + seq!['"', ':'] + last.1 + seq!['}'],
        array_text(items.push(item)) == seq!['['] + comma_list(items) + (if items.len() > 0 {
            seq![',']
        } else {
            Seq::empty()
        }) + item + seq![']'],
{
    reveal(members_text);
    assert(m.push(last).drop_last() =~= m);
    assert(items.push(item).drop_last() =~= items);
    assert(members_text(m.push(last)) =~= seq!['{'] + joined(m) + (if m.len() > 0 {
        seq![',']
    } else {
        Seq::empty()
    }) + seq!['"'] + escaped(last.0) + seq!['"', ':'] + last.1 + seq!['}']);
    assert(array_text(items.push(item)) =~= seq!['['] + comma_list(items) + (if items.len() > 0 {
        seq![',']
    } else {
        Seq::empty()
    }) + item + seq![']']);
}

/// Each value is written as what it is: a text between quotes, a number by its digits, the
/// truth values and null by their names.
pub proof fn values_are_written_as_they_are(s: Seq<char>, n: u64)
    ensures
        value_text(JsonValue::Text(s)) == seq!['"'] + escaped(s) + seq!['"'],
        value_text(JsonValue::Unsigned(n)) == decimal(n as nat),
        value_text(JsonValue::Bool(true)) == "true"@,
        value_text(JsonValue::Bool(false)) == "false"@,
        value_text(JsonValue::Null) == "null"@,
        optional_text(Some(s)) == quoted(s),
        optional_text(None) == "null"@,
{
}

} // verus!
