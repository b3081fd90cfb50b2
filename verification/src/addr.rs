//! IPv4 addresses as plain values, with their dotted-decimal text.

use vstd::prelude::*;
use vstd::string::*;

use crate::text::{chars_of, decimal, digit, find_char, first_at, first_at_finds, push_decimal};

verus! {

/// An IPv4 address: its four octets, the most significant first.
#[derive(Clone, Copy, Debug, PartialEq, Eq, Structural)]
pub struct Ipv4Addr {
    pub a: u8,
    pub b: u8,
    pub c: u8,
    pub d: u8,
}

impl Ipv4Addr {
    /// The address as a number.
    pub open spec fn value(self) -> nat {
        (self.a * 16777216 + self.b * 65536 + self.c * 256 + self.d) as nat
    }

    /// The dotted-decimal text of the address.
    pub open spec fn text(self) -> Seq<char> {
        decimal(self.a as nat) + seq!['.'] + decimal(self.b as nat) + seq!['.'] + decimal(
            self.c as nat,
        ) + seq!['.'] + decimal(self.d as nat)
    }

    /// The address with the given octets.
    pub fn new(a: u8, b: u8, c: u8, d: u8) -> (r: Ipv4Addr)
        ensures
            r == (Ipv4Addr { a, b, c, d }),
    {
        Ipv4Addr { a, b, c, d }
    }

    /// The address as a number.
    pub fn to_number(&self) -> (r: u64)
        ensures
            r == self.value(),
            r < 0x1_0000_0000,
    {
        self.a as u64 * 16777216 + self.b as u64 * 65536 + self.c as u64 * 256 + self.d as u64
    }

    /// The address that a number below 2^32 stands for.
    pub fn from_number(n: u64) -> (r: Ipv4Addr)
        requires
            n < 0x1_0000_0000,
        ensures
            r == ip_of(n as nat),
            r.value() == n,
    {
        Ipv4Addr {
            a: (n / 16777216) as u8,
            b: (n / 65536 % 256) as u8,
            c: (n / 256 % 256) as u8,
            d: (n % 256) as u8,
        }
    }

    /// Whether the address is in `127.0.0.0/8`.
    pub open spec fn loopback(self) -> bool {
        self.a == 127
    }

    /// Whether the address is in one of the ranges reserved for private networks:
    /// `10.0.0.0/8`, `172.16.0.0/12` and `192.168.0.0/16`.
    pub open spec fn private(self) -> bool {
        ||| self.a == 10
        ||| (self.a == 172 && 16 <= self.b <= 31)
        ||| (self.a == 192 && self.b == 168)
    }

    /// Whether the address is a loopback address.
    pub fn is_loopback(&self) -> (r: bool)
        ensures
            r == self.loopback(),
    {
        self.a == 127
    }

    /// Whether the address belongs to a private network.
    pub fn is_private(&self) -> (r: bool)
        ensures
            r == self.private(),
    {
        self.a == 10 || (self.a == 172 && 16 <= self.b && self.b <= 31) || (self.a == 192 && self.b
            == 168)
    }

    /// The dotted-decimal text of the address.
    pub fn to_text(&self) -> (r: String)
        ensures
            r@ == self.text(),
    {
        let mut out = String::new();
        push_decimal(&mut out, self.a as u64);
        out.push('.');
        push_decimal(&mut out, self.b as u64);
        out.push('.');
        push_decimal(&mut out, self.c as u64);
        out.push('.');
        push_decimal(&mut out, self.d as u64);
        assert(out@ =~= self.text());
        out
    }

    /// Reads an address from its dotted-decimal text: four decimal octets without
    /// leading zeros, and nothing else.
    pub fn parse(s: &str) -> (r: Option<Ipv4Addr>)
        ensures
            r == parsed_ip(s@),
    {
        let chars = chars_of(s);
        proof {
            assert forall|ip: Ipv4Addr| s@ == #[trigger] ip.text() implies dots_of(s@, ip) by {
                text_has_its_dots(ip);
            }
        }
        let i: usize = match find_char(&chars, '.', 0) {
            Some(i) => i,
            None => return None,
        };
        let j: usize = match find_char(&chars, '.', i + 1) {
            Some(j) => j,
            None => return None,
        };
        let k: usize = match find_char(&chars, '.', j + 1) {
            Some(k) => k,
            None => return None,
        };
        let a = parse_octet(&chars, 0, i);
        let b = parse_octet(&chars, i + 1, j);
        let c = parse_octet(&chars, j + 1, k);
        let d = parse_octet(&chars, k + 1, chars.len());
        proof {
            first_at_finds(s@, '.', 0);
            first_at_finds(s@, '.', i + 1);
            first_at_finds(s@, '.', j + 1);
        }
        match (a, b, c, d) {
            (Some(a), Some(b), Some(c), Some(d)) => {
                let r = Ipv4Addr { a, b, c, d };
                proof {
                    assert(s@ =~= r.text());
                    address_text_parses_back(r);
                }
                Some(r)
            },
            _ => None,
        }
    }
}

/// The address that a number below 2^32 stands for.
pub open spec fn ip_of(n: nat) -> Ipv4Addr {
    Ipv4Addr {
        a: (n / 16777216) as u8,
        b: (n / 65536 % 256) as u8,
        c: (n / 256 % 256) as u8,
        d: (n % 256) as u8,
    }
}

/// The address whose text is `s`, if there is one.
pub open spec fn parsed_ip(s: Seq<char>) -> Option<Ipv4Addr> {
    if exists|ip: Ipv4Addr| #[trigger] ip.text() == s {
        Some(choose|ip: Ipv4Addr| #[trigger] ip.text() == s)
    } else {
        None
    }
}

/// The text of an address parses to that address.
pub proof fn address_text_parses_back(ip: Ipv4Addr)
    ensures
        parsed_ip(ip.text()) == Some(ip),
{
    let found = choose|x: Ipv4Addr| #[trigger] x.text() == ip.text();
    address_text_is_unique(found, ip);
}

/// Where the dots of the text `s` of `ip` stand, and what stands between them.
spec fn dots_of(s: Seq<char>, ip: Ipv4Addr) -> bool {
    let i = first_at(s, '.', 0);
    let j = first_at(s, '.', i->0 + 1);
    let k = first_at(s, '.', j->0 + 1);
    &&& i is Some && j is Some && k is Some
    &&& s.subrange(0, i->0) == decimal(ip.a as nat)
    &&& s.subrange(i->0 + 1, j->0) == decimal(ip.b as nat)
    &&& s.subrange(j->0 + 1, k->0) == decimal(ip.c as nat)
    &&& s.subrange(k->0 + 1, s.len() as int) == decimal(ip.d as nat)
}

/// The numeral of an octet: one to three digits, the first not zero where there
/// is a second.
proof fn octet_numeral(v: u8)
    ensures
        v < 10 ==> decimal(v as nat) == seq![digit(v as nat)],
        10 <= v < 100 ==> decimal(v as nat) == seq![
            digit((v / 10) as nat),
            digit((v % 10) as nat),
        ],
        100 <= v ==> decimal(v as nat) == seq![
            digit((v / 100) as nat),
            digit((v / 10 % 10) as nat),
            digit((v % 10) as nat),
        ],
        forall|i: int| 0 <= i < decimal(v as nat).len() ==> '0' <= #[trigger] decimal(v as nat)[i] <= '9',
{
    reveal_with_fuel(decimal, 4);
    if v >= 100 {
        assert(decimal((v / 100) as nat) =~= seq![digit((v / 100) as nat)]);
        assert((v / 10) / 10 == v / 100);
    }
}

/// A run without the character `c`, followed by it, puts it at the run's end.
proof fn first_at_behind(s: Seq<char>, c: char, from: int, to: int)
    requires
        0 <= from <= to < s.len(),
        s[to] == c,
        forall|i: int| from <= i < to ==> s[i] != c,
    ensures
        first_at(s, c, from) == Some(to),
{
    first_at_finds(s, c, from);
}

proof fn text_has_its_dots(ip: Ipv4Addr)
    ensures
        dots_of(ip.text(), ip),
{
    octet_numeral(ip.a);
    octet_numeral(ip.b);
    octet_numeral(ip.c);
    octet_numeral(ip.d);
    let s = ip.text();
    let (a, b, c, d) = (
        decimal(ip.a as nat),
        decimal(ip.b as nat),
        decimal(ip.c as nat),
        decimal(ip.d as nat),
    );
    let i = a.len() as int;
    let j = i + 1 + b.len();
    let k = j + 1 + c.len();
    assert forall|x: int| 0 <= x < i implies s[x] != '.' by {
        assert(s[x] == a[x]);
    }
    assert forall|x: int| i + 1 <= x < j implies s[x] != '.' by {
        assert(s[x] == b[x - i - 1]);
    }
    assert forall|x: int| j + 1 <= x < k implies s[x] != '.' by {
        assert(s[x] == c[x - j - 1]);
    }
    first_at_behind(s, '.', 0, i);
    first_at_behind(s, '.', i + 1, j);
    first_at_behind(s, '.', j + 1, k);
    assert(s.subrange(0, i) =~= a);
    assert(s.subrange(i + 1, j) =~= b);
    assert(s.subrange(j + 1, k) =~= c);
    assert(s.subrange(k + 1, s.len() as int) =~= d);
}

fn digit_value(c: char) -> (r: Option<u8>)
    ensures
        match r {
            Some(v) => v < 10 && c == digit(v as nat),
            None => !('0' <= c <= '9'),
        },
{
    if '0' <= c && c <= '9' {
        Some((c as u32 - 48) as u8)
    } else {
        None
    }
}

/// Reads the decimal numeral of an octet from `v[from..to]`.
fn parse_octet(v: &Vec<char>, from: usize, to: usize) -> (r: Option<u8>)
    requires
        from <= to <= v@.len(),
    ensures
        match r {
            Some(n) => v@.subrange(from as int, to as int) == decimal(n as nat),
            None => forall|n: u8| v@.subrange(from as int, to as int) != #[trigger] decimal(
                n as nat,
            ),
        },
{
    let ghost part = v@.subrange(from as int, to as int);
    proof {
        assert forall|n: u8| part == #[trigger] decimal(n as nat) implies 1 <= part.len() <= 3 && (
        forall|i: int| 0 <= i < part.len() ==> '0' <= #[trigger] part[i] <= '9') && (part.len() > 1
            ==> part[0] != '0') && n == numeral_value(part) by {
            octet_numeral(n);
        }
    }
    let len: usize = to - from;
    if len == 0 || len > 3 {
        return None;
    }
    let first: u8 = match digit_value(v[from]) {
        Some(first) => first,
        None => {
            assert(!('0' <= part[0] <= '9'));
            return None;
        },
    };
    assert(part[0] == v@[from as int]);
    if len == 1 {
        proof {
            octet_numeral(first);
            assert(part =~= seq![part[0]]);
        }
        return Some(first);
    }
    if first == 0 {
        return None;
    }
    let second: u8 = match digit_value(v[from + 1]) {
        Some(second) => second,
        None => {
            assert(!('0' <= part[1] <= '9'));
            return None;
        },
    };
    assert(part[1] == v@[from + 1]);
    if len == 2 {
        let n: u8 = first * 10 + second;
        proof {
            octet_numeral(n);
            assert(part =~= seq![part[0], part[1]]);
        }
        return Some(n);
    }
    let third: u8 = match digit_value(v[from + 2]) {
        Some(third) => third,
        None => {
            assert(!('0' <= part[2] <= '9'));
            return None;
        },
    };
    assert(part[2] == v@[from + 2]);
    let n: u32 = first as u32 * 100 + second as u32 * 10 + third as u32;
    if n > 255 {
        return None;
    }
    let n: u8 = n as u8;
    proof {
        octet_numeral(n);
        assert(part =~= seq![part[0], part[1], part[2]]);
    }
    Some(n)
}

/// Two addresses with one text are the same address.
pub proof fn address_text_is_unique(x: Ipv4Addr, y: Ipv4Addr)
    requires
        x.text() == y.text(),
    ensures
        x == y,
{
    text_has_its_dots(x);
    text_has_its_dots(y);
    numeral_is_unique(x.a, y.a);
    numeral_is_unique(x.b, y.b);
    numeral_is_unique(x.c, y.c);
    numeral_is_unique(x.d, y.d);
}

proof fn numeral_is_unique(x: u8, y: u8)
    requires
        decimal(x as nat) == decimal(y as nat),
    ensures
        x == y,
{
    octet_numeral(x);
    octet_numeral(y);
    assert(numeral_value(decimal(x as nat)) == x);
    assert(numeral_value(decimal(y as nat)) == y);
}

/// The number that up to three digits stand for.
spec fn numeral_value(part: Seq<char>) -> int {
    if part.len() == 1 {
        part[0] as int - 48
    } else if part.len() == 2 {
        (part[0] as int - 48) * 10 + (part[1] as int - 48)
    } else {
        (part[0] as int - 48) * 100 + (part[1] as int - 48) * 10 + (part[2] as int - 48)
    }
}

/// An IPv6 address as a number.
#[derive(Clone, Copy, Debug, PartialEq, Eq, Structural)]
pub struct Ipv6Addr {
    pub number: u128,
}

impl Ipv6Addr {
    /// Whether the address is link-local (`fe80::/10`): its first ten bits are
    /// `1111111010`.
    pub open spec fn link_local(self) -> bool {
        self.number / 332306998946228968225951765070086144 == 1018
    }

    /// Whether the address is link-local.
    pub fn is_link_local(&self) -> (r: bool)
        ensures
            r == self.link_local(),
    {
        self.number / 332306998946228968225951765070086144 == 1018
    }
}

/// An IP address of either family.
#[derive(Clone, Copy, Debug, PartialEq, Eq, Structural)]
pub enum IpAddr {
    V4(Ipv4Addr),
    V6(Ipv6Addr),
}

/// An IP address with a port. An IPv6 address may carry the scope that it is valid in; the
/// scope is zero where there is none.
#[derive(Clone, Copy, Debug, PartialEq, Eq, Structural)]
pub struct SocketAddr {
    pub ip: IpAddr,
    pub port: u16,
    pub scope_id: u32,
}

impl SocketAddr {
    /// The address without a scope.
    pub fn new(ip: IpAddr, port: u16) -> (r: SocketAddr)
        ensures
            r == (SocketAddr { ip, port, scope_id: 0 }),
    {
        SocketAddr { ip, port, scope_id: 0 }
    }

    /// Whether the address is an IPv4 one.
    pub fn is_ipv4(&self) -> (r: bool)
        ensures
            r == (self.ip is V4),
    {
        match self.ip {
            IpAddr::V4(_) => true,
            IpAddr::V6(_) => false,
        }
    }
}

// ---------------------------------------------------------------------------
// Ranges
// ---------------------------------------------------------------------------

/// An address is the one of its number.
pub proof fn addresses_come_of_their_numbers(ip: Ipv4Addr)
    ensures
        ip.value() < 0x1_0000_0000,
        ip_of(ip.value()) == ip,
{
    let n = ip.value() as int;
    let (a, b, c, d) = (ip.a as int, ip.b as int, ip.c as int, ip.d as int);
    vstd::arithmetic::div_mod::lemma_fundamental_div_mod_converse(
        n,
        16777216,
        a,
        b * 65536 + c * 256 + d,
    );
    vstd::arithmetic::div_mod::lemma_fundamental_div_mod_converse(
        n,
        65536,
        a * 256 + b,
        c * 256 + d,
    );
    vstd::arithmetic::div_mod::lemma_fundamental_div_mod_converse(
        n,
        256,
        a * 65536 + b * 256 + c,
        d,
    );
}

/// A number below 2^32 is the one of its address.
pub proof fn numbers_come_of_their_addresses(n: u64)
    requires
        n < 0x1_0000_0000,
    ensures
        ip_of(n as nat).value() == n,
{
}

/// The private addresses are those of three ranges, from `10.0.0.0`, `172.16.0.0` and
/// `192.168.0.0` on, and the loopback addresses those from `127.0.0.0` on.
pub proof fn special_addresses_are_ranges(ip: Ipv4Addr)
    ensures
        ip.private() <==> 0x0a00_0000 <= ip.value() <= 0x0aff_ffff || 0xac10_0000 <= ip.value()
            <= 0xac1f_ffff || 0xc0a8_0000 <= ip.value() <= 0xc0a8_ffff,
        ip.loopback() <==> 0x7f00_0000 <= ip.value() <= 0x7fff_ffff,
{
}

/// The link-local IPv6 addresses are those from `fe80::` up to `febf:ffff:...`.
pub proof fn link_local_addresses_are_a_range(ip: Ipv6Addr)
    ensures
        ip.link_local() <==> 0xfe80_0000_0000_0000_0000_0000_0000_0000 <= ip.number
            <= 0xfebf_ffff_ffff_ffff_ffff_ffff_ffff_ffff,
{
    let size: int = 332306998946228968225951765070086144;
    vstd::arithmetic::div_mod::lemma_fundamental_div_mod(ip.number as int, size);
    assert(0xfe80_0000_0000_0000_0000_0000_0000_0000int == 1018 * size);
    assert(0xfebf_ffff_ffff_ffff_ffff_ffff_ffff_ffffint == 1019 * size - 1);
    if ip.number as int / size == 1018 {
    } else if 1018 * size <= ip.number <= 1019 * size - 1 {
        vstd::arithmetic::div_mod::lemma_fundamental_div_mod_converse(
            ip.number as int,
            size,
            1018,
            ip.number - 1018 * size,
        );
    }
}

/// A text is read as an address exactly where it is that address's own text.
pub proof fn only_address_texts_are_read(s: Seq<char>, ip: Ipv4Addr)
    ensures
        parsed_ip(s) == Some(ip) <==> s == decimal(ip.a as nat) + seq!['.'] + decimal(ip.b as nat)
            + seq!['.'] + decimal(ip.c as nat) + seq!['.'] + decimal(ip.d as nat),
{
    address_text_parses_back(ip);
    if parsed_ip(s) == Some(ip) {
        assert(exists|x: Ipv4Addr| #[trigger] x.text() == s);
    }
}

} // verus!
