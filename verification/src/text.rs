//! Building and taking apart text: decimal and hexadecimal numerals, and the
//! conversions between strings and their characters.

use vstd::prelude::*;
use vstd::string::*;
use vstd::utf8::*;

verus! {

/// `String::push` appends one character.
pub assume_specification[ String::push ](s: &mut String, c: char)
    ensures
        final(s)@ == old(s)@.push(c),
;

/// The decimal digit for `d`, which is below ten.
pub open spec fn digit(d: nat) -> char {
    (48 + d) as char
}

/// The decimal numeral of `n`, without leading zeros.
pub open spec fn decimal(n: nat) -> Seq<char>
    decreases n,
{
    if n < 10 {
        seq![digit(n)]
    } else {
        decimal(n / 10).push(digit(n % 10))
    }
}

/// Ten to the power of `k`.
pub open spec fn ten_to(k: nat) -> nat
    decreases k,
{
    if k == 0 {
        1
    } else {
        10 * ten_to((k - 1) as nat)
    }
}

/// The numeral of a number below ten to the power of `k` has at most `k` characters, each
/// a digit.
pub proof fn decimal_shape(n: nat, k: nat)
    requires
        0 < k,
        n < ten_to(k),
    ensures
        1 <= decimal(n).len() <= k,
        forall|i: int| 0 <= i < decimal(n).len() ==> '0' <= #[trigger] decimal(n)[i] <= '9',
    decreases n,
{
    if n >= 10 {
        assert(k > 1) by {
            reveal_with_fuel(ten_to, 2);
        }
        decimal_shape(n / 10, (k - 1) as nat);
    }
}

/// The numeral of a number of sixty-four bits has at most twenty digits.
pub proof fn numerals_are_short(n: u64)
    ensures
        1 <= decimal(n as nat).len() <= 20,
        forall|i: int|
            0 <= i < decimal(n as nat).len() ==> '0' <= #[trigger] decimal(n as nat)[i] <= '9',
{
    reveal_with_fuel(ten_to, 21);
    decimal_shape(n as nat, 20);
}

/// Appends the decimal numeral of `n` to `out`.
pub fn push_decimal(out: &mut String, n: u64)
    ensures
        final(out)@ == old(out)@ + decimal(n as nat),
    decreases n,
{
    if n >= 10 {
        push_decimal(out, n / 10);
    }
    let d: u8 = (n % 10) as u8;
    out.push((48 + d) as char);
}

/// The hexadecimal digit for `d`, which is below sixteen.
pub open spec fn hex_digit(d: nat) -> char {
    if d < 10 {
        (48 + d) as char
    } else {
        (87 + d) as char
    }
}

/// The lower-case hexadecimal digit for `d`.
pub fn hex_digit_char(d: u8) -> (r: char)
    requires
        d < 16,
    ensures
        r == hex_digit(d as nat),
{
    if d < 10 {
        (48 + d) as char
    } else {
        (87 + d) as char
    }
}

/// The UTF-8 encoding of a concatenation is the concatenation of the encodings.
pub proof fn encode_utf8_of_concat(a: Seq<char>, b: Seq<char>)
    ensures
        encode_utf8(a + b) == encode_utf8(a) + encode_utf8(b),
    decreases a.len(),
{
    if a.len() == 0 {
        assert(a + b =~= b);
        assert(encode_utf8(a) + encode_utf8(b) =~= encode_utf8(b));
    } else {
        assert((a + b).drop_first() =~= a.drop_first() + b);
        encode_utf8_of_concat(a.drop_first(), b);
        assert(encode_utf8(a + b) =~= encode_utf8(a) + encode_utf8(b));
    }
}

/// A character takes one to four bytes.
pub proof fn encoded_length_bounds(s: Seq<char>)
    ensures
        s.len() <= encode_utf8(s).len() <= 4 * s.len(),
    decreases s.len(),
{
    if s.len() > 0 {
        encoded_length_bounds(s.drop_first());
    }
}

/// Whether every character of a text is ASCII.
pub open spec fn ascii(s: Seq<char>) -> bool {
    forall|i: int| 0 <= i < s.len() ==> (#[trigger] s[i] as u32) < 128
}

/// ASCII text takes a byte for each character.
pub proof fn ascii_takes_a_byte_each(s: Seq<char>)
    requires
        ascii(s),
    ensures
        encode_utf8(s).len() == s.len(),
    decreases s.len(),
{
    if s.len() > 0 {
        let rest = s.drop_first();
        assert forall|i: int| 0 <= i < rest.len() implies (#[trigger] rest[i] as u32) < 128 by {
            assert(rest[i] == s[i + 1]);
        }
        assert((s[0] as u32) < 128);
        ascii_takes_a_byte_each(rest);
    }
}

/// The views of a list of texts.
pub open spec fn texts(v: Seq<String>) -> Seq<Seq<char>> {
    v.map_values(|s: String| s@)
}

/// The characters of `s`, in order.
pub fn chars_of(s: &str) -> (r: Vec<char>)
    ensures
        r@ == s@,
{
    let mut out: Vec<char> = Vec::new();
    for c in it: s.chars()
        invariant
            it.seq() == s@,
            out@ == s@.take(it.index() as int),
    {
        out.push(c);
    }
    out
}

/// The string of the characters `v[from..to]`.
pub fn string_of(v: &Vec<char>, from: usize, to: usize) -> (r: String)
    requires
        from <= to <= v@.len(),
    ensures
        r@ == v@.subrange(from as int, to as int),
{
    let mut out = String::new();
    let mut i: usize = from;
    while i < to
        invariant
            from <= i <= to <= v@.len(),
            out@ == v@.subrange(from as int, i as int),
        decreases to - i,
    {
        out.push(v[i]);
        i += 1;
    }
    out
}

/// The first of the characters from `from` on that equals `c`.
pub open spec fn first_at(s: Seq<char>, c: char, from: int) -> Option<int>
    decreases s.len() - from,
{
    if from < 0 || from >= s.len() {
        None
    } else if s[from] == c {
        Some(from)
    } else {
        first_at(s, c, from + 1)
    }
}

/// What stands before and behind the first `c` in `s`.
pub open spec fn split_once(s: Seq<char>, c: char) -> Option<(Seq<char>, Seq<char>)> {
    match first_at(s, c, 0) {
        Some(i) => Some((s.take(i), s.skip(i + 1))),
        None => None,
    }
}

/// What `first_at` finds: a `c` with none before it, or that there is none.
pub proof fn first_at_finds(s: Seq<char>, c: char, from: int)
    requires
        0 <= from <= s.len(),
    ensures
        match first_at(s, c, from) {
            Some(i) => from <= i < s.len() && s[i] == c && forall|j: int|
                from <= j < i ==> s[j] != c,
            None => forall|j: int| from <= j < s.len() ==> s[j] != c,
        },
    decreases s.len() - from,
{
    if from < s.len() && s[from] != c {
        first_at_finds(s, c, from + 1);
    }
}

/// Searches `v[from..]` for `c`.
pub fn find_char(v: &Vec<char>, c: char, from: usize) -> (r: Option<usize>)
    requires
        from <= v@.len(),
    ensures
        match r {
            Some(i) => first_at(v@, c, from as int) == Some(i as int) && from <= i < v@.len(),
            None => first_at(v@, c, from as int) is None,
        },
{
    let mut i: usize = from;
    while i < v.len()
        invariant
            from <= i <= v@.len(),
            first_at(v@, c, from as int) == first_at(v@, c, i as int),
        decreases v@.len() - i,
    {
        if v[i] == c {
            return Some(i);
        }
        i += 1;
    }
    None
}

/// Whether a character has the Unicode property `White_Space`.
pub open spec fn white_space(c: char) -> bool {
    let n = c as u32;
    ||| 0x9 <= n <= 0xd
    ||| n == 0x20
    ||| n == 0x85
    ||| n == 0xa0
    ||| n == 0x1680
    ||| 0x2000 <= n <= 0x200a
    ||| n == 0x2028
    ||| n == 0x2029
    ||| n == 0x202f
    ||| n == 0x205f
    ||| n == 0x3000
}

/// `char::is_whitespace` tells whether a character has the property `White_Space`.
pub assume_specification[ char::is_whitespace ](c: char) -> (r: bool)
    ensures
        r == white_space(c),
;

/// The characters of `s` that are no white space, in order.
pub open spec fn compacted(s: Seq<char>) -> Seq<char> {
    s.filter(|c: char| !white_space(c))
}

/// `s` without the white space at its end.
pub open spec fn trimmed_end(s: Seq<char>) -> Seq<char>
    decreases s.len(),
{
    if s.len() > 0 && white_space(s.last()) {
        trimmed_end(s.drop_last())
    } else {
        s
    }
}

/// `s` without the white space at its front.
pub open spec fn trimmed_start(s: Seq<char>) -> Seq<char>
    decreases s.len(),
{
    if s.len() > 0 && white_space(s[0]) {
        trimmed_start(s.drop_first())
    } else {
        s
    }
}

/// `s` without the white space at both of its ends.
pub open spec fn trimmed(s: Seq<char>) -> Seq<char> {
    trimmed_end(trimmed_start(s))
}

/// Text without white space at its ends is left as it is.
pub proof fn trimming_keeps_tight_text(s: Seq<char>)
    requires
        s.len() > 0 ==> !white_space(s[0]) && !white_space(s.last()),
    ensures
        trimmed(s) == s,
{
}

/// Text without white space is left as it is.
pub proof fn compacting_keeps_tight_text(s: Seq<char>)
    requires
        forall|i: int| 0 <= i < s.len() ==> !white_space(#[trigger] s[i]),
    ensures
        compacted(s) == s,
    decreases s.len(),
{
    reveal(Seq::filter);
    if s.len() > 0 {
        compacting_keeps_tight_text(s.drop_last());
        assert(s =~= s.drop_last().push(s.last()));
    }
}

/// Removes the white space at both ends of `s`.
pub fn trim(s: &str) -> (r: String)
    ensures
        r@ == trimmed(s@),
{
    let chars = chars_of(s);
    let mut from: usize = 0;
    assert(chars@.skip(0) =~= s@);
    while from < chars.len() && chars[from].is_whitespace()
        invariant
            from <= chars@.len(),
            trimmed_start(s@) == trimmed_start(chars@.skip(from as int)),
        decreases chars@.len() - from,
    {
        assert(chars@.skip(from as int).drop_first() =~= chars@.skip(from + 1));
        from += 1;
    }
    let mut to: usize = chars.len();
    assert(chars@.subrange(from as int, to as int) =~= chars@.skip(from as int));
    while from < to && chars[to - 1].is_whitespace()
        invariant
            from <= to <= chars@.len(),
            trimmed(s@) == trimmed_end(chars@.subrange(from as int, to as int)),
        decreases to,
    {
        assert(chars@.subrange(from as int, to as int).drop_last() =~= chars@.subrange(
            from as int,
            to - 1,
        ));
        to -= 1;
    }
    string_of(&chars, from, to)
}

/// Removes all white space from `s`.
pub fn compact(s: &str) -> (r: String)
    ensures
        r@ == compacted(s@),
{
    let chars = chars_of(s);
    let mut out = String::new();
    let mut i: usize = 0;
    proof {
        reveal(Seq::filter);
    }
    while i < chars.len()
        invariant
            i <= chars@.len(),
            out@ == compacted(chars@.take(i as int)),
        decreases chars@.len() - i,
    {
        proof {
            reveal(Seq::filter);
            assert(chars@.take(i + 1).drop_last() =~= chars@.take(i as int));
        }
        if !chars[i].is_whitespace() {
            out.push(chars[i]);
        }
        i += 1;
    }
    assert(chars@.take(i as int) =~= chars@);
    out
}

/// Two lower-case hexadecimal digits for each byte.
pub open spec fn hex_text(b: Seq<u8>) -> Seq<char>
    decreases b.len(),
{
    if b.len() == 0 {
        Seq::empty()
    } else {
        hex_text(b.drop_last()).push(hex_digit((b.last() / 16) as nat)).push(
            hex_digit((b.last() % 16) as nat),
        )
    }
}

/// The length of a hexadecimal text, and that each of its characters is a
/// lower-case hexadecimal digit.
pub proof fn hex_text_shape(b: Seq<u8>)
    ensures
        hex_text(b).len() == 2 * b.len(),
        forall|i: int|
            0 <= i < hex_text(b).len() ==> ('0' <= #[trigger] hex_text(b)[i] <= '9' || 'a'
                <= hex_text(b)[i] <= 'f'),
    decreases b.len(),
{
    if b.len() > 0 {
        hex_text_shape(b.drop_last());
    }
}

/// The lower-case hexadecimal text of `b`.
pub fn hex_of(b: &[u8]) -> (r: String)
    ensures
        r@ == hex_text(b@),
{
    let mut out = String::new();
    let mut i: usize = 0;
    while i < b.len()
        invariant
            i <= b@.len(),
            out@ == hex_text(b@.take(i as int)),
        decreases b@.len() - i,
    {
        proof {
            assert(b@.take(i + 1).drop_last() =~= b@.take(i as int));
        }
        out.push(hex_digit_char(b[i] / 16));
        out.push(hex_digit_char(b[i] % 16));
        i += 1;
    }
    assert(b@.take(i as int) =~= b@);
    out
}

/// The length of `s` in bytes.
pub fn text_len(s: &str) -> (r: usize)
    ensures
        r == encode_utf8(s@).len(),
{
    s.as_bytes().len()
}

/// Whether `s` starts with `prefix`.
pub fn has_prefix(s: &str, prefix: &str) -> (r: bool)
    ensures
        r == prefix@.is_prefix_of(s@),
{
    let chars = chars_of(s);
    let wanted = chars_of(prefix);
    if wanted.len() > chars.len() {
        return false;
    }
    let mut i: usize = 0;
    while i < wanted.len()
        invariant
            i <= wanted@.len() <= chars@.len(),
            forall|j: int| 0 <= j < i ==> wanted@[j] == chars@[j],
            wanted@ == prefix@,
            chars@ == s@,
        decreases wanted@.len() - i,
    {
        if chars[i] != wanted[i] {
            return false;
        }
        i += 1;
    }
    assert(prefix@ =~= s@.subrange(0, prefix@.len() as int));
    true
}

/// `core::str::from_utf8`: the text that bytes encode, if they are valid UTF-8.
#[verifier::external_body]
pub(crate) fn text_of_bytes(bytes: &[u8]) -> (r: Option<String>)
    ensures
        r is Some <==> valid_utf8(bytes@),
        r matches Some(s) ==> encode_utf8(s@) == bytes@,
{
    core::str::from_utf8(bytes).ok().map(|s| s.to_owned())
}

/// The lower-case form of an ASCII letter; any other character is left alone.
pub open spec fn lower_char(c: char) -> char {
    if 'A' <= c <= 'Z' {
        (c as u32 + 32) as char
    } else {
        c
    }
}

/// `s` with its ASCII letters in lower case.
pub open spec fn lowered(s: Seq<char>) -> Seq<char> {
    s.map_values(|c: char| lower_char(c))
}

/// `s` with its ASCII letters in lower case.
pub fn lowercase(s: &str) -> (r: String)
    ensures
        r@ == lowered(s@),
{
    let chars: Vec<char> = chars_of(s);
    let mut out = String::new();
    let mut i: usize = 0;
    while i < chars.len()
        invariant
            i <= chars@.len(),
            out@ == lowered(chars@.take(i as int)),
        decreases chars@.len() - i,
    {
        let c: char = chars[i];
        proof {
            assert(lowered(chars@.take(i + 1)) =~= lowered(chars@.take(i as int)).push(
                lower_char(c),
            ));
        }
        if 'A' <= c && c <= 'Z' {
            let n: u8 = c as u8;
            out.push((n + 32) as char);
        } else {
            out.push(c);
        }
        i += 1;
    }
    assert(chars@.take(i as int) =~= chars@);
    out
}

/// Whether two texts are the same.
pub fn same_text(a: &str, b: &str) -> (r: bool)
    ensures
        r == (a@ == b@),
{
    a.to_owned() == b.to_owned()
}

/// Whether `c` is a decimal digit.
pub open spec fn is_digit(c: char) -> bool {
    '0' <= c <= '9'
}

/// Whether `s` consists of decimal digits.
pub open spec fn all_digits(s: Seq<char>) -> bool {
    forall|i: int| 0 <= i < s.len() ==> is_digit(#[trigger] s[i])
}

/// The number that decimal digits stand for.
pub open spec fn digits_value(s: Seq<char>) -> nat
    decreases s.len(),
{
    if s.len() == 0 {
        0
    } else {
        (digits_value(s.drop_last()) * 10 + (s.last() as int - 48)) as nat
    }
}

/// Longer numerals stand for no smaller numbers.
proof fn digits_value_grows(s: Seq<char>, n: int)
    requires
        all_digits(s),
        0 <= n <= s.len(),
    ensures
        digits_value(s.take(n)) <= digits_value(s),
    decreases s.len() - n,
{
    if n < s.len() {
        digits_value_grows(s, n + 1);
        assert(s.take(n + 1).drop_last() =~= s.take(n));
        assert(is_digit(s[n]));
    } else {
        assert(s.take(n) =~= s);
    }
}

/// The decimal numeral of a number stands for it.
pub proof fn decimal_reads_back(n: nat)
    ensures
        all_digits(decimal(n)),
        decimal(n).len() > 0,
        digits_value(decimal(n)) == n,
    decreases n,
{
    if n >= 10 {
        decimal_reads_back(n / 10);
        assert(decimal(n).drop_last() =~= decimal(n / 10));
    } else {
        assert(decimal(n).drop_last() =~= Seq::empty());
        assert(digits_value(Seq::<char>::empty()) == 0);
    }
}

/// The sixteen-bit number that a text stands for: decimal digits, perhaps behind a plus
/// sign.
pub open spec fn parsed_short(s: Seq<char>) -> Option<u16> {
    let digits = if s.len() > 0 && s[0] == '+' {
        s.skip(1)
    } else {
        s
    };
    if digits.len() > 0 && all_digits(digits) && digits_value(digits) <= 65535 {
        Some(digits_value(digits) as u16)
    } else {
        None
    }
}

/// The numeral of a sixteen-bit number parses to it.
pub proof fn short_numeral_parses_back(n: u16)
    ensures
        parsed_short(decimal(n as nat)) == Some(n),
{
    decimal_reads_back(n as nat);
    assert(is_digit(decimal(n as nat)[0]));
}

/// Reads a sixteen-bit number.
pub fn parse_short(s: &str) -> (r: Option<u16>)
    ensures
        r == parsed_short(s@),
{
    let chars: Vec<char> = chars_of(s);
    let start: usize = if chars.len() > 0 && chars[0] == '+' {
        1
    } else {
        0
    };
    let ghost digits = chars@.skip(start as int);
    proof {
        assert(chars@.skip(0) =~= chars@);
    }
    if chars.len() == start {
        return None;
    }
    let mut value: u32 = 0;
    let mut i: usize = start;
    while i < chars.len()
        invariant
            start <= i <= chars@.len(),
            chars@ == s@,
            digits == chars@.skip(start as int),
            parsed_short(s@) == if digits.len() > 0 && all_digits(digits) && digits_value(digits)
                <= 65535 {
                Some(digits_value(digits) as u16)
            } else {
                None::<u16>
            },
            all_digits(digits.take(i - start)),
            value == digits_value(digits.take(i - start)),
            value <= 65535,
        decreases chars@.len() - i,
    {
        let c: char = chars[i];
        assert(digits[i - start] == c);
        if !('0' <= c && c <= '9') {
            assert(!is_digit(digits[i - start]));
            return None;
        }
        let d: u8 = c as u8 - 48;
        value = value * 10 + d as u32;
        proof {
            let longer = digits.take(i + 1 - start);
            assert(longer.drop_last() =~= digits.take(i - start));
            assert(value == digits_value(longer));
            assert(all_digits(longer));
            if value > 65535 && all_digits(digits) {
                digits_value_grows(digits, i + 1 - start);
            }
        }
        if value > 65535 {
            return None;
        }
        i += 1;
    }
    assert(digits.take(i - start) =~= digits);
    Some(value as u16)
}

/// The index of the last `c` in `s`.
pub open spec fn last_at(s: Seq<char>, c: char) -> Option<int>
    decreases s.len(),
{
    if s.len() == 0 {
        None
    } else if s.last() == c {
        Some(s.len() - 1)
    } else {
        last_at(s.drop_last(), c)
    }
}

/// Behind the last `c` there is none.
pub proof fn last_at_is_last(a: Seq<char>, c: char, b: Seq<char>)
    requires
        forall|i: int| 0 <= i < b.len() ==> #[trigger] b[i] != c,
    ensures
        last_at(a + seq![c] + b, c) == Some(a.len() as int),
    decreases b.len(),
{
    let s = a + seq![c] + b;
    if b.len() == 0 {
        assert(s.last() == c);
    } else {
        assert(s.last() == b.last());
        assert(s.drop_last() =~= a + seq![c] + b.drop_last());
        last_at_is_last(a, c, b.drop_last());
    }
}

/// Before the first `c` there is none.
pub proof fn first_at_is_first(a: Seq<char>, c: char, b: Seq<char>)
    requires
        forall|i: int| 0 <= i < a.len() ==> #[trigger] a[i] != c,
    ensures
        first_at(a + seq![c] + b, c, 0) == Some(a.len() as int),
        split_once(a + seq![c] + b, c) == Some((a, b)),
{
    let s = a + seq![c] + b;
    first_at_finds(s, c, 0);
    assert(s[a.len() as int] == c);
    let i = first_at(s, c, 0);
    if i is Some && i->0 < a.len() {
        assert(s[i->0] == a[i->0]);
    }
    assert(s.take(a.len() as int) =~= a);
    assert(s.skip(a.len() as int + 1) =~= b);
}

/// Finds the last `c` among the first `to` characters.
pub fn rfind_char(v: &Vec<char>, c: char, to: usize) -> (r: Option<usize>)
    requires
        to <= v@.len(),
    ensures
        match r {
            Some(i) => last_at(v@.take(to as int), c) == Some(i as int) && i < to,
            None => last_at(v@.take(to as int), c) is None,
        },
{
    let mut i: usize = to;
    while i > 0
        invariant
            i <= to <= v@.len(),
            last_at(v@.take(to as int), c) == last_at(v@.take(i as int), c),
        decreases i,
    {
        proof {
            assert(v@.take(i as int).last() == v@[i - 1]);
            assert(v@.take(i as int).drop_last() =~= v@.take(i - 1));
        }
        if v[i - 1] == c {
            return Some(i - 1);
        }
        i -= 1;
    }
    None
}

/// The lower-case hexadecimal numeral of `n` with `k` digits.
pub open spec fn hex_numeral(n: nat, k: nat) -> Seq<char>
    decreases k,
{
    if k == 0 {
        Seq::empty()
    } else {
        hex_numeral(n / 16, (k - 1) as nat).push(hex_digit(n % 16))
    }
}

/// Appends the hexadecimal numeral of `n` with `k` digits.
pub fn push_hex_numeral(out: &mut String, n: u32, k: usize)
    ensures
        final(out)@ == old(out)@ + hex_numeral(n as nat, k as nat),
    decreases k,
{
    if k > 0 {
        push_hex_numeral(out, n / 16, k - 1);
        out.push(hex_digit_char((n % 16) as u8));
    }
    assert(out@ =~= old(out)@ + hex_numeral(n as nat, k as nat));
}

/// The value of a lower-case hexadecimal digit.
pub open spec fn hex_digit_value(c: char) -> Option<nat> {
    if '0' <= c <= '9' {
        Some((c as int - 48) as nat)
    } else if 'a' <= c <= 'f' {
        Some((c as int - 87) as nat)
    } else {
        None
    }
}

/// The number that lower-case hexadecimal digits stand for.
pub open spec fn hex_value(s: Seq<char>) -> Option<nat>
    decreases s.len(),
{
    if s.len() == 0 {
        Some(0)
    } else {
        match (hex_value(s.drop_last()), hex_digit_value(s.last())) {
            (Some(front), Some(d)) => Some(front * 16 + d),
            _ => None,
        }
    }
}

/// Sixteen to the power of `k`.
pub open spec fn hex_bound(k: nat) -> nat
    decreases k,
{
    if k == 0 {
        1
    } else {
        16 * hex_bound((k - 1) as nat)
    }
}

/// A hexadecimal numeral with enough digits stands for its number.
pub proof fn hex_numeral_reads_back(n: nat, k: nat)
    requires
        n < hex_bound(k),
    ensures
        hex_numeral(n, k).len() == k,
        hex_value(hex_numeral(n, k)) == Some(n),
        forall|i: int|
            0 <= i < k ==> ('0' <= #[trigger] hex_numeral(n, k)[i] <= '9' || 'a' <= hex_numeral(
                n,
                k,
            )[i] <= 'f'),
    decreases k,
{
    if k > 0 {
        hex_numeral_reads_back(n / 16, (k - 1) as nat);
        assert(hex_numeral(n, k).drop_last() =~= hex_numeral(n / 16, (k - 1) as nat));
    }
}

/// Reads the lower-case hexadecimal digits `v[from..to]`, at most eight of them.
pub fn parse_hex(v: &Vec<char>, from: usize, to: usize) -> (r: Option<u32>)
    requires
        from <= to <= v@.len(),
        to - from <= 8,
    ensures
        match r {
            Some(n) => hex_value(v@.subrange(from as int, to as int)) == Some(n as nat),
            None => hex_value(v@.subrange(from as int, to as int)) is None,
        },
{
    let mut value: u64 = 0;
    let mut i: usize = from;
    let ghost whole = v@.subrange(from as int, to as int);
    proof {
        reveal_with_fuel(hex_bound, 9);
        assert(v@.subrange(from as int, from as int) =~= Seq::empty());
    }
    while i < to
        invariant
            from <= i <= to <= v@.len(),
            to - from <= 8,
            whole == v@.subrange(from as int, to as int),
            hex_value(v@.subrange(from as int, i as int)) == Some(value as nat),
            value < hex_bound((i - from) as nat),
        decreases to - i,
    {
        let c: char = v[i];
        let ghost part = v@.subrange(from as int, i + 1);
        proof {
            assert(part.drop_last() =~= v@.subrange(from as int, i as int));
            assert(part.last() == c);
            assert(hex_bound((i + 1 - from) as nat) == 16 * hex_bound((i - from) as nat));
            hex_bound_grows((i - from) as nat);
        }
        let d: u8 = if '0' <= c && c <= '9' {
            c as u8 - 48
        } else if 'a' <= c && c <= 'f' {
            c as u8 - 87
        } else {
            proof {
                unreadable_prefix(whole, (i + 1 - from) as int);
                assert(whole.take(i + 1 - from) =~= part);
            }
            return None;
        };
        value = value * 16 + d as u64;
        i += 1;
    }
    proof {
        reveal_with_fuel(hex_bound, 9);
        hex_bound_is_monotonic((to - from) as nat, 8);
    }
    Some(value as u32)
}

proof fn hex_bound_grows(k: nat)
    requires
        k < 8,
    ensures
        hex_bound(k) <= 0x1000_0000,
{
    reveal_with_fuel(hex_bound, 9);
}

proof fn hex_bound_is_monotonic(k: nat, n: nat)
    requires
        k <= n,
    ensures
        hex_bound(k) <= hex_bound(n),
    decreases n - k,
{
    if k < n {
        hex_bound_is_monotonic(k + 1, n);
    }
}

/// Digits with an unreadable front are unreadable.
proof fn unreadable_prefix(s: Seq<char>, n: int)
    requires
        0 <= n <= s.len(),
        hex_value(s.take(n)) is None,
    ensures
        hex_value(s) is None,
    decreases s.len() - n,
{
    if n < s.len() {
        assert(s.take(n + 1).drop_last() =~= s.take(n));
        unreadable_prefix(s, n + 1);
    } else {
        assert(s.take(n) =~= s);
    }
}

/// The parts of `s` between the `c`s in it.
pub open spec fn split_all(s: Seq<char>, c: char) -> Seq<Seq<char>>
    decreases s.len(),
{
    match last_at(s, c) {
        Some(i) => if 0 <= i < s.len() {
            split_all(s.take(i), c).push(s.skip(i + 1))
        } else {
            seq![s]
        },
        None => seq![s],
    }
}

/// The texts with a `c` between neighbours.
pub open spec fn joined_by(parts: Seq<Seq<char>>, c: char) -> Seq<char>
    decreases parts.len(),
{
    if parts.len() == 0 {
        Seq::empty()
    } else if parts.len() == 1 {
        parts[0]
    } else {
        joined_by(parts.drop_last(), c) + seq![c] + parts.last()
    }
}

/// A text without `c` has none to find.
pub proof fn last_at_of_free_text(s: Seq<char>, c: char)
    requires
        forall|i: int| 0 <= i < s.len() ==> #[trigger] s[i] != c,
    ensures
        last_at(s, c) is None,
    decreases s.len(),
{
    if s.len() > 0 {
        last_at_of_free_text(s.drop_last(), c);
    }
}

/// Texts without a `c` in them are split off again.
pub proof fn joined_texts_split(parts: Seq<Seq<char>>, c: char)
    requires
        parts.len() > 0,
        forall|i: int, j: int|
            0 <= i < parts.len() && 0 <= j < parts[i].len() ==> #[trigger] parts[i][j] != c,
    ensures
        split_all(joined_by(parts, c), c) == parts,
    decreases parts.len(),
{
    if parts.len() == 1 {
        last_at_of_free_text(parts[0], c);
        assert(parts =~= seq![parts[0]]);
    } else {
        let front = parts.drop_last();
        let head = joined_by(front, c);
        let s = joined_by(parts, c);
        assert forall|i: int, j: int| 0 <= i < front.len() && 0 <= j < front[i].len() implies
            #[trigger] front[i][j] != c by {
            assert(front[i] == parts[i]);
        }
        assert forall|j: int| 0 <= j < parts.last().len() implies #[trigger] parts.last()[j] != c by {
            assert(parts[parts.len() - 1][j] != c);
        }
        joined_texts_split(front, c);
        last_at_is_last(head, c, parts.last());
        assert(s.take(head.len() as int) =~= head);
        assert(s.skip(head.len() as int + 1) =~= parts.last());
        assert(parts =~= front.push(parts.last()));
    }
}

/// Splits the first `to` characters at every `c`.
pub fn split_chars(v: &Vec<char>, c: char, to: usize) -> (r: Vec<String>)
    requires
        to <= v@.len(),
    ensures
        texts(r@) == split_all(v@.take(to as int), c),
    decreases to,
{
    match rfind_char(v, c, to) {
        Some(i) => {
            let mut front: Vec<String> = split_chars(v, c, i);
            let ghost before = front@;
            let last: String = string_of(v, i + 1, to);
            proof {
                assert(v@.take(to as int).take(i as int) =~= v@.take(i as int));
                assert(last@ =~= v@.take(to as int).skip(i + 1));
            }
            front.push(last);
            assert(texts(front@) =~= texts(before).push(last@));
            front
        },
        None => {
            let all: String = string_of(v, 0, to);
            let mut out: Vec<String> = Vec::new();
            assert(all@ =~= v@.take(to as int));
            out.push(all);
            assert(texts(out@) =~= seq![v@.take(to as int)]);
            out
        },
    }
}

/// Joins texts with a `c` between neighbours.
pub fn join_texts(parts: &Vec<String>, c: char) -> (r: String)
    ensures
        r@ == joined_by(texts(parts@), c),
{
    let ghost all = texts(parts@);
    let mut out = String::new();
    let mut i: usize = 0;
    while i < parts.len()
        invariant
            i <= parts@.len(),
            all == texts(parts@),
            out@ == joined_by(all.take(i as int), c),
        decreases parts@.len() - i,
    {
        proof {
            assert(all.take(i + 1).drop_last() =~= all.take(i as int));
            assert(all.take(i + 1).last() == parts@[i as int]@);
        }
        if i > 0 {
            out.push(c);
        }
        out.append(parts[i].as_str());
        i += 1;
        assert(out@ =~= joined_by(all.take(i as int), c));
    }
    assert(all.take(i as int) =~= all);
    out
}

// ---------------------------------------------------------------------------
// Laws of the texts
// ---------------------------------------------------------------------------

proof fn white_front_is_trimmed(a: Seq<char>, s: Seq<char>)
    requires
        forall|i: int| 0 <= i < a.len() ==> white_space(#[trigger] a[i]),
    ensures
        trimmed_start(a + s) == trimmed_start(s),
    decreases a.len(),
{
    if a.len() == 0 {
        assert(a + s =~= s);
    } else {
        assert((a + s)[0] == a[0]);
        assert((a + s).drop_first() =~= a.drop_first() + s);
        white_front_is_trimmed(a.drop_first(), s);
    }
}

proof fn white_end_is_trimmed(s: Seq<char>, b: Seq<char>)
    requires
        forall|i: int| 0 <= i < b.len() ==> white_space(#[trigger] b[i]),
    ensures
        trimmed_end(s + b) == trimmed_end(s),
    decreases b.len(),
{
    if b.len() == 0 {
        assert(s + b =~= s);
    } else {
        assert((s + b).last() == b[b.len() - 1]);
        assert((s + b).drop_last() =~= s + b.drop_last());
        white_end_is_trimmed(s, b.drop_last());
    }
}

/// Trimming takes the white space at both ends and nothing else: a text that neither begins
/// nor ends with white space is what is left of it, whatever white space stands around it,
/// and nothing is left of white space alone.
pub proof fn trimming_takes_only_the_ends(a: Seq<char>, s: Seq<char>, b: Seq<char>)
    requires
        forall|i: int| 0 <= i < a.len() ==> white_space(#[trigger] a[i]),
        forall|i: int| 0 <= i < b.len() ==> white_space(#[trigger] b[i]),
        s.len() > 0 ==> !white_space(s[0]) && !white_space(s.last()),
    ensures
        trimmed(a + s + b) == s,
        trimmed(s) == s,
{
    assert(a + s + b =~= a + (s + b));
    white_front_is_trimmed(a, s + b);
    if s.len() == 0 {
        assert(s + b =~= b);
        assert(b =~= b + Seq::<char>::empty());
        white_front_is_trimmed(b, Seq::empty());
        assert(trimmed_start(Seq::<char>::empty()) =~= Seq::empty());
        assert(s =~= Seq::empty());
    } else {
        assert((s + b)[0] == s[0]);
        white_end_is_trimmed(s, b);
    }
}

/// Characters are white space exactly where Unicode says so: the controls from tab to
/// carriage return, the next-line control, and the space characters, separators included.
pub proof fn white_space_is_as_listed(c: char)
    ensures
        white_space(c) <==> {
            let n = c as u32;
            (9 <= n && n <= 13) || n == 32 || n == 133 || n == 160 || n == 5760 || (8192 <= n && n
                <= 8202) || n == 8232 || n == 8233 || n == 8239 || n == 8287 || n == 12288
        },
{
}

/// Compacting takes all white space and nothing else, and keeps the order: what is left of
/// two texts one after the other is what is left of each.
pub proof fn compacting_takes_only_white_space(a: Seq<char>, c: char)
    ensures
        compacted(Seq::<char>::empty()) == Seq::<char>::empty(),
        white_space(c) ==> compacted(a.push(c)) == compacted(a),
        !white_space(c) ==> compacted(a.push(c)) == compacted(a).push(c),
{
    reveal(Seq::filter);
    assert(a.push(c).drop_last() =~= a);
}

/// The hexadecimal text of a byte string spells each byte by two digits, the higher one
/// first.
pub proof fn hex_text_spells_each_byte(b: Seq<u8>, i: int)
    requires
        0 <= i < b.len(),
    ensures
        hex_text(b).len() == 2 * b.len(),
        hex_digit_value(hex_text(b)[2 * i]) is Some && hex_digit_value(hex_text(b)[2 * i + 1])
            is Some,
        16 * hex_digit_value(hex_text(b)[2 * i])->0 + hex_digit_value(
            hex_text(b)[2 * i + 1],
        )->0 == b[i],
    decreases b.len(),
{
    hex_text_shape(b);
    hex_text_shape(b.drop_last());
    if i < b.len() - 1 {
        hex_text_spells_each_byte(b.drop_last(), i);
    }
}

/// Byte strings with the same hexadecimal text are the same.
pub proof fn hex_text_is_unique(a: Seq<u8>, b: Seq<u8>)
    requires
        hex_text(a) == hex_text(b),
    ensures
        a == b,
{
    hex_text_shape(a);
    hex_text_shape(b);
    assert forall|i: int| 0 <= i < a.len() implies a[i] == b[i] by {
        hex_text_spells_each_byte(a, i);
        hex_text_spells_each_byte(b, i);
    }
    assert(a =~= b);
}

/// Lowering changes the letters `A` to `Z` to `a` to `z` and leaves every other character
/// alone.
pub proof fn lowering_changes_only_upper_case(s: Seq<char>, i: int)
    requires
        0 <= i < s.len(),
    ensures
        lowered(s).len() == s.len(),
        'A' <= s[i] <= 'Z' ==> 'a' <= lowered(s)[i] <= 'z' && lowered(s)[i] as u32 == s[i] as u32
            + 32,
        !('A' <= s[i] <= 'Z') ==> lowered(s)[i] == s[i],
{
}

/// A number of sixteen bits is read from its digits, with a plus sign or without, and with
/// any number of zeros before them; nothing without a digit, and nothing larger, is read.
pub proof fn short_numbers_are_read(s: Seq<char>, n: u16)
    ensures
        parsed_short(seq!['+'] + decimal(n as nat)) == Some(n),
        all_digits(s) && s.len() > 0 ==> parsed_short(s) == parsed_short(seq!['0'] + s),
        parsed_short(Seq::<char>::empty()) is None,
        parsed_short(seq!['+']) is None,
        parsed_short(s) == Some(n) ==> all_digits(
            if s[0] == '+' {
                s.skip(1)
            } else {
                s
            },
        ),
        all_digits(s) && s.len() > 0 && digits_value(s) > 65535 ==> parsed_short(s) is None,
{
    decimal_reads_back(n as nat);
    assert((seq!['+'] + decimal(n as nat)).skip(1) =~= decimal(n as nat));
    assert(seq!['+'].skip(1) =~= Seq::empty());
    if all_digits(s) && s.len() > 0 {
        assert(is_digit(s[0]));
        leading_zero_counts_nothing(s);
        let padded = seq!['0'] + s;
        assert(all_digits(padded)) by {
            assert forall|i: int| 0 <= i < padded.len() implies is_digit(#[trigger] padded[i]) by {
                if i > 0 {
                    assert(padded[i] == s[i - 1]);
                }
            }
        }
    }
}

proof fn leading_zero_counts_nothing(s: Seq<char>)
    ensures
        digits_value(seq!['0'] + s) == digits_value(s),
    decreases s.len(),
{
    let padded = seq!['0'] + s;
    if s.len() == 0 {
        assert(padded.drop_last() =~= Seq::empty());
        assert(digits_value(padded.drop_last()) == 0);
    } else {
        assert(padded.drop_last() =~= seq!['0'] + s.drop_last());
        leading_zero_counts_nothing(s.drop_last());
    }
}

/// A numeral ends with the last digit of its number, and begins with the numeral of the
/// rest.
pub proof fn numerals_spell_their_number(n: nat)
    ensures
        decimal(n).len() > 0,
        decimal(n).last() as int == 48 + n % 10,
        n < 10 ==> decimal(n).len() == 1,
        n >= 10 ==> decimal(n).drop_last() == decimal(n / 10),
{
    if n >= 10 {
        assert(decimal(n).drop_last() =~= decimal(n / 10));
    }
}

/// The views of texts stand in the order of the texts, one for one.
pub proof fn text_views_keep_every_text(v: Seq<String>, i: int)
    ensures
        texts(v).len() == v.len(),
        0 <= i < v.len() ==> texts(v)[i] == v[i]@,
{
}

} // verus!
