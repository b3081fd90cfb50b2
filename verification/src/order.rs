//! Sorting by the bytes that a value stands for.

use vstd::prelude::*;
use vstd::seq_lib::*;

use crate::addr::{IpAddr, SocketAddr};
use crate::auth::PublicKey;

verus! {

/// Whether `a` stands before `b` in the dictionary, or is `b`.
pub open spec fn lex_le(a: Seq<u8>, b: Seq<u8>) -> bool
    decreases a.len(),
{
    if a.len() == 0 {
        true
    } else if b.len() == 0 {
        false
    } else if a[0] != b[0] {
        a[0] < b[0]
    } else {
        lex_le(a.drop_first(), b.drop_first())
    }
}

proof fn lex_le_is_total(a: Seq<u8>, b: Seq<u8>)
    ensures
        lex_le(a, b) || lex_le(b, a),
    decreases a.len(),
{
    if a.len() > 0 && b.len() > 0 && a[0] == b[0] {
        lex_le_is_total(a.drop_first(), b.drop_first());
    }
}

proof fn lex_le_is_transitive(a: Seq<u8>, b: Seq<u8>, c: Seq<u8>)
    requires
        lex_le(a, b),
        lex_le(b, c),
    ensures
        lex_le(a, c),
    decreases a.len(),
{
    if a.len() > 0 && b.len() > 0 && c.len() > 0 && a[0] == b[0] && b[0] == c[0] {
        lex_le_is_transitive(a.drop_first(), b.drop_first(), c.drop_first());
    }
}

fn bytes_le(a: &Vec<u8>, b: &Vec<u8>) -> (r: bool)
    ensures
        r == lex_le(a@, b@),
{
    let mut i: usize = 0;
    assert(a@.skip(0) =~= a@);
    assert(b@.skip(0) =~= b@);
    while i < a.len() && i < b.len() && a[i] == b[i]
        invariant
            i <= a@.len(),
            i <= b@.len(),
            lex_le(a@, b@) == lex_le(a@.skip(i as int), b@.skip(i as int)),
        decreases a@.len() - i,
    {
        assert(a@.skip(i as int).drop_first() =~= a@.skip(i + 1));
        assert(b@.skip(i as int).drop_first() =~= b@.skip(i + 1));
        i += 1;
    }
    if i >= a.len() {
        true
    } else if i >= b.len() {
        false
    } else {
        a[i] < b[i]
    }
}

/// A value that is ordered by bytes that stand for it.
pub trait Ranked: Copy {
    /// The bytes that the value is ordered by.
    spec fn rank(self) -> Seq<u8>;

    fn rank_bytes(&self) -> (r: Vec<u8>)
        ensures
            r@ == self.rank(),
    ;
}

/// Whether `s` is in ascending order.
pub open spec fn ascending<T: Ranked>(s: Seq<T>) -> bool {
    forall|i: int, j: int| 0 <= i < j < s.len() ==> lex_le(#[trigger] s[i].rank(), #[trigger] s[j].rank())
}

/// Inserts `x` into the ascending `v`.
fn insert_ranked<T: Ranked>(v: &mut Vec<T>, x: T)
    requires
        ascending(old(v)@),
    ensures
        ascending(final(v)@),
        final(v)@.to_multiset() == old(v)@.to_multiset().insert(x),
{
    let rank = x.rank_bytes();
    let mut at: usize = v.len();
    while at > 0 && !bytes_le(&v[at - 1].rank_bytes(), &rank)
        invariant
            at <= v@.len(),
            v@ == old(v)@,
            rank@ == x.rank(),
            ascending(v@),
            forall|j: int| at <= j < v@.len() ==> lex_le(x.rank(), #[trigger] v@[j].rank()),
        decreases at,
    {
        proof {
            lex_le_is_total(v@[at - 1].rank(), x.rank());
        }
        at -= 1;
    }
    let ghost before = v@;
    proof {
        if at > 0 {
            assert forall|i: int| 0 <= i < at implies lex_le(#[trigger] before[i].rank(), x.rank()) by {
                if i < at - 1 {
                    lex_le_is_transitive(before[i].rank(), before[at - 1].rank(), x.rank());
                }
            }
        }
    }
    v.insert(at, x);
    proof {
        assert(v@ =~= before.insert(at as int, x));
        to_multiset_insert(before, at as int, x);
        assert forall|i: int, j: int| 0 <= i < j < v@.len() implies lex_le(
            #[trigger] v@[i].rank(),
            #[trigger] v@[j].rank(),
        ) by {
            if i < at && j > at {
                assert(v@[j] == before[j - 1]);
            } else if i == at {
                assert(v@[j] == before[j - 1]);
            } else if i > at {
                assert(v@[i] == before[i - 1] && v@[j] == before[j - 1]);
            }
        }
    }
}

/// Sorts `v` in ascending order.
pub fn sorted<T: Ranked>(v: &Vec<T>) -> (r: Vec<T>)
    ensures
        ascending(r@),
        r@.to_multiset() == v@.to_multiset(),
{
    let mut out: Vec<T> = Vec::new();
    let mut i: usize = 0;
    assert(v@.take(0) =~= out@);
    while i < v.len()
        invariant
            i <= v@.len(),
            ascending(out@),
            out@.to_multiset() == v@.take(i as int).to_multiset(),
        decreases v@.len() - i,
    {
        proof {
            v@.take(i as int).to_multiset_ensures();
            assert(v@.take(i + 1) =~= v@.take(i as int).push(v@[i as int]));
        }
        let x: T = v[i];
        insert_ranked(&mut out, x);
        i += 1;
    }
    assert(v@.take(i as int) =~= v@);
    out
}

impl Ranked for PublicKey {
    open spec fn rank(self) -> Seq<u8> {
        self@
    }

    fn rank_bytes(&self) -> (r: Vec<u8>) {
        let mut out: Vec<u8> = Vec::new();
        crate::hash::push_bytes(&mut out, &self.bytes);
        assert(out@ =~= self@);
        out
    }
}

/// The `n` bytes of a number, the most significant first.
pub open spec fn number_bytes(number: nat, n: nat) -> Seq<u8>
    decreases n,
{
    if n == 0 {
        Seq::empty()
    } else {
        number_bytes(number / 256, (n - 1) as nat).push((number % 256) as u8)
    }
}

fn push_number(out: &mut Vec<u8>, number: u128, n: usize)
    ensures
        final(out)@ == old(out)@ + number_bytes(number as nat, n as nat),
    decreases n,
{
    if n > 0 {
        push_number(out, number / 256, n - 1);
        out.push((number % 256) as u8);
    }
    assert(out@ =~= old(out)@ + number_bytes(number as nat, n as nat));
}

impl Ranked for SocketAddr {
    /// By address, then by port, then by scope.
    open spec fn rank(self) -> Seq<u8> {
        self.ip.rank() + number_bytes(self.port as nat, 2) + number_bytes(self.scope_id as nat, 4)
    }

    fn rank_bytes(&self) -> (r: Vec<u8>) {
        let mut out: Vec<u8> = self.ip.rank_bytes();
        push_number(&mut out, self.port as u128, 2);
        push_number(&mut out, self.scope_id as u128, 4);
        assert(out@ =~= self.rank());
        out
    }
}

impl Ranked for IpAddr {
    /// IPv4 before IPv6, then by address.
    open spec fn rank(self) -> Seq<u8> {
        match self {
            IpAddr::V4(ip) => seq![4u8, ip.a, ip.b, ip.c, ip.d],
            IpAddr::V6(ip) => seq![6u8] + number_bytes(ip.number as nat, 16),
        }
    }

    fn rank_bytes(&self) -> (r: Vec<u8>) {
        let mut out: Vec<u8> = Vec::new();
        match *self {
            IpAddr::V4(ip) => {
                out.push(4u8);
                out.push(ip.a);
                out.push(ip.b);
                out.push(ip.c);
                out.push(ip.d);
            },
            IpAddr::V6(ip) => {
                out.push(6u8);
                push_number(&mut out, ip.number, 16);
            },
        }
        assert(out@ =~= self.rank());
        out
    }
}

/// Sorts addresses in ascending order and keeps one of each.
pub fn sorted_unique(v: &Vec<IpAddr>) -> (r: Vec<IpAddr>)
    ensures
        ascending(r@),
        r@.no_duplicates(),
        forall|ip: IpAddr| #[trigger] r@.contains(ip) <==> v@.contains(ip),
{
    let all: Vec<IpAddr> = sorted(v);
    let mut out: Vec<IpAddr> = Vec::new();
    let mut i: usize = 0;
    while i < all.len()
        invariant
            i <= all@.len(),
            ascending(all@),
            ascending(out@),
            out@.no_duplicates(),
            forall|ip: IpAddr| #[trigger] out@.contains(ip) <==> all@.take(i as int).contains(ip),
        decreases all@.len() - i,
    {
        let ip: IpAddr = all[i];
        let mut known: bool = false;
        let mut k: usize = 0;
        while k < out.len()
            invariant
                k <= out@.len(),
                known <==> out@.take(k as int).contains(ip),
            decreases out@.len() - k,
        {
            let ghost seen = out@.take(k as int);
            assert(out@.take(k + 1) =~= seen.push(out@[k as int]));
            if out[k] == ip {
                known = true;
            }
            proof {
                let next = out@.take(k + 1);
                if known {
                    if out@[k as int] == ip {
                        assert(next[k as int] == ip);
                    } else {
                        let j = choose|j: int| 0 <= j < seen.len() && seen[j] == ip;
                        assert(next[j] == ip);
                    }
                } else if next.contains(ip) {
                    let j = choose|j: int| 0 <= j < next.len() && next[j] == ip;
                    if j < k {
                        assert(seen[j] == ip);
                    }
                }
            }
            k += 1;
        }
        assert(out@.take(k as int) =~= out@);
        let ghost before = out@;
        let ghost prefix = all@.take(i as int);
        assert(all@.take(i + 1) =~= prefix.push(ip));
        proof {
            assert forall|j: int| 0 <= j < before.len() implies lex_le(
                #[trigger] before[j].rank(),
                ip.rank(),
            ) by {
                assert(before.contains(before[j]));
                let m = choose|m: int| 0 <= m < prefix.len() && prefix[m] == before[j];
                assert(all@[m] == before[j]);
            }
        }
        if !known {
            out.push(ip);
        }
        proof {
            let next = all@.take(i + 1);
            assert forall|x: IpAddr| #[trigger] out@.contains(x) <==> next.contains(x) by {
                if out@.contains(x) {
                    let j = choose|j: int| 0 <= j < out@.len() && out@[j] == x;
                    if j < before.len() {
                        assert(before.contains(x));
                        let m = choose|m: int| 0 <= m < prefix.len() && prefix[m] == x;
                        assert(next[m] == x);
                    } else {
                        assert(next[i as int] == x);
                    }
                }
                if next.contains(x) {
                    let m = choose|m: int| 0 <= m < next.len() && next[m] == x;
                    if m < i {
                        assert(prefix[m] == x);
                        assert(before.contains(x));
                        let j = choose|j: int| 0 <= j < before.len() && before[j] == x;
                        assert(out@[j] == x);
                    } else if known {
                        let j = choose|j: int| 0 <= j < before.len() && before[j] == x;
                        assert(out@[j] == x);
                    } else {
                        assert(out@[before.len() as int] == x);
                    }
                }
            }
        }
        i += 1;
    }
    assert(all@.take(i as int) =~= all@);
    proof {
        assert forall|ip: IpAddr| #[trigger] out@.contains(ip) <==> v@.contains(ip) by {
            all@.to_multiset_ensures();
            v@.to_multiset_ensures();
            assert(all@.contains(ip) <==> all@.to_multiset().count(ip) > 0);
            assert(v@.contains(ip) <==> v@.to_multiset().count(ip) > 0);
        }
    }
    out
}

// ---------------------------------------------------------------------------
// Laws of the order
// ---------------------------------------------------------------------------

/// Where two byte strings first differ decides their order; one that the other continues
/// comes first.
pub proof fn the_first_difference_decides(a: Seq<u8>, b: Seq<u8>, k: int)
    requires
        0 <= k <= a.len(),
        k <= b.len(),
        a.take(k) == b.take(k),
    ensures
        k == a.len() ==> lex_le(a, b),
        k == b.len() && k < a.len() ==> !lex_le(a, b),
        k < a.len() && k < b.len() && a[k] < b[k] ==> lex_le(a, b) && !lex_le(b, a),
    decreases k,
{
    if k > 0 {
        assert(a.take(k)[0] == a[0] && b.take(k)[0] == b[0]);
        assert(a[0] == b[0]);
        assert(a.drop_first().take(k - 1) =~= a.take(k).drop_first());
        assert(b.drop_first().take(k - 1) =~= b.take(k).drop_first());
        the_first_difference_decides(a.drop_first(), b.drop_first(), k - 1);
    }
}

/// Strings that each come no later than the other are the same.
pub proof fn the_order_is_strict(a: Seq<u8>, b: Seq<u8>)
    requires
        lex_le(a, b),
        lex_le(b, a),
    ensures
        a == b,
    decreases a.len(),
{
    if a.len() > 0 && b.len() > 0 {
        the_order_is_strict(a.drop_first(), b.drop_first());
        assert(a =~= seq![a[0]] + a.drop_first());
        assert(b =~= seq![b[0]] + b.drop_first());
    } else {
        assert(a =~= b);
    }
}

proof fn the_last_byte_decides_last(a: Seq<u8>, b: Seq<u8>, x: u8, y: u8)
    requires
        a.len() == b.len(),
    ensures
        lex_le(a.push(x), b.push(y)) <==> if a == b {
            x <= y
        } else {
            lex_le(a, b)
        },
    decreases a.len(),
{
    let (p, q) = (a.push(x), b.push(y));
    if a.len() == 0 {
        assert(a =~= b);
        assert(p.drop_first() =~= Seq::empty());
        assert(q.drop_first() =~= Seq::empty());
        reveal_with_fuel(lex_le, 2);
    } else {
        assert(p[0] == a[0] && q[0] == b[0]);
        assert(p.drop_first() =~= a.drop_first().push(x));
        assert(q.drop_first() =~= b.drop_first().push(y));
        the_last_byte_decides_last(a.drop_first(), b.drop_first(), x, y);
        if a[0] == b[0] && a.drop_first() == b.drop_first() {
            assert(a =~= seq![a[0]] + a.drop_first());
            assert(b =~= seq![b[0]] + b.drop_first());
        }
    }
}

/// The number of values of `n` bytes.
pub open spec fn byte_bound(n: nat) -> nat
    decreases n,
{
    if n == 0 {
        1
    } else {
        256 * byte_bound((n - 1) as nat)
    }
}

/// Numbers are ordered as numbers: their bytes stand in the order of their values.
pub proof fn numbers_are_ordered_by_value(x: nat, y: nat, n: nat)
    requires
        x < byte_bound(n),
        y < byte_bound(n),
    ensures
        number_bytes(x, n).len() == n && number_bytes(y, n).len() == n,
        lex_le(number_bytes(x, n), number_bytes(y, n)) <==> x <= y,
        number_bytes(x, n) == number_bytes(y, n) <==> x == y,
    decreases n,
{
    if n > 0 {
        let k: nat = (n - 1) as nat;
        numbers_are_ordered_by_value(x / 256, y / 256, k);
        let (a, b) = (number_bytes(x / 256, k), number_bytes(y / 256, k));
        let (p, q) = ((x % 256) as u8, (y % 256) as u8);
        the_last_byte_decides_last(a, b, p, q);
        if number_bytes(x, n) == number_bytes(y, n) {
            assert(a.push(p).drop_last() =~= a);
            assert(b.push(q).drop_last() =~= b);
            assert(a.push(p).last() == p && b.push(q).last() == q);
        }
    }
}

/// IPv4 addresses come before IPv6 ones, and each kind stands in the order of its addresses.
pub proof fn addresses_are_ordered_by_kind_and_value(
    a: crate::addr::Ipv4Addr,
    b: crate::addr::Ipv4Addr,
    c: crate::addr::Ipv6Addr,
    d: crate::addr::Ipv6Addr,
)
    ensures
        lex_le(IpAddr::V4(a).rank(), IpAddr::V6(c).rank()),
        !lex_le(IpAddr::V6(c).rank(), IpAddr::V4(a).rank()),
        lex_le(IpAddr::V4(a).rank(), IpAddr::V4(b).rank()) <==> a.value() <= b.value(),
        lex_le(IpAddr::V6(c).rank(), IpAddr::V6(d).rank()) <==> c.number <= d.number,
{
    let (v4, v6) = (IpAddr::V4(a).rank(), IpAddr::V6(c).rank());
    assert(v4.take(0) =~= v6.take(0));
    assert(v6.take(0) =~= v4.take(0));
    the_first_difference_decides(v4, v6, 0);
    let w4 = IpAddr::V4(b).rank();
    reveal_with_fuel(lex_le, 6);
    assert(v4.drop_first() =~= seq![a.a, a.b, a.c, a.d]);
    assert(v4.drop_first().drop_first() =~= seq![a.b, a.c, a.d]);
    assert(v4.drop_first().drop_first().drop_first() =~= seq![a.c, a.d]);
    assert(v4.drop_first().drop_first().drop_first().drop_first() =~= seq![a.d]);
    assert(w4.drop_first() =~= seq![b.a, b.b, b.c, b.d]);
    assert(w4.drop_first().drop_first() =~= seq![b.b, b.c, b.d]);
    assert(w4.drop_first().drop_first().drop_first() =~= seq![b.c, b.d]);
    assert(w4.drop_first().drop_first().drop_first().drop_first() =~= seq![b.d]);
    let w6 = IpAddr::V6(d).rank();
    assert(v6.drop_first() =~= number_bytes(c.number as nat, 16));
    assert(w6.drop_first() =~= number_bytes(d.number as nat, 16));
    reveal_with_fuel(byte_bound, 17);
    assert(byte_bound(16) == 0x1_0000_0000_0000_0000_0000_0000_0000_0000int) by (nonlinear_arith)
        requires
            byte_bound(16) == 256 * (256 * (256 * (256 * (256 * (256 * (256 * (256 * (256 * (256 * (
            256 * (256 * (256 * (256 * (256 * (256 * 1))))))))))))))),
    ;
    numbers_are_ordered_by_value(c.number as nat, d.number as nat, 16);
}

/// A list is ascending exactly where none of its values comes before one that stands earlier.
pub proof fn ascending_lists_have_no_step_down<T: Ranked>(s: Seq<T>, i: int, j: int)
    ensures
        ascending(s) && 0 <= i < j < s.len() ==> lex_le(s[i].rank(), s[j].rank()),
        (forall|k: int, l: int|
            0 <= k < l < s.len() ==> lex_le(#[trigger] s[k].rank(), #[trigger] s[l].rank()))
            ==> ascending(s),
{
}

} // verus!
