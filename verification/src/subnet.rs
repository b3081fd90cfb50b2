//! Local IPv4 subnets, and the check of a typed host address against them.
//!
//! A device that joins over the local network may be given the host's address by
//! hand. The entry is held to the private subnets that the device itself is on;
//! loopback addresses always pass, so that testing on one machine works.

use vstd::arithmetic::div_mod::*;
use vstd::arithmetic::mul::*;
use vstd::arithmetic::power2::*;
use vstd::prelude::*;
use vstd::string::*;

use crate::addr::{ip_of, parsed_ip, Ipv4Addr};
use crate::text::{decimal, decimal_reads_back, push_decimal, trim, trimmed};

verus! {

/// The number of addresses that share their first `prefix_len` bits.
pub open spec fn block_size(prefix_len: u8) -> nat {
    pow2((32 - prefix_len) as nat)
}

/// What a subnet is: its network address and the length of its prefix.
pub struct SubnetView {
    pub network: Ipv4Addr,
    pub prefix_len: u8,
}

impl SubnetView {
    /// Whether the network address has no bits behind the prefix.
    pub open spec fn aligned(self) -> bool {
        self.prefix_len <= 32 && self.network.value() % block_size(self.prefix_len) == 0
    }

    /// The last address of the subnet, as a number.
    pub open spec fn last(self) -> int {
        self.network.value() + block_size(self.prefix_len) - 1
    }

    /// Whether `ip` falls within the subnet.
    pub open spec fn holds(self, ip: Ipv4Addr) -> bool {
        self.network.value() <= ip.value() <= self.last()
    }

    /// The octets that the prefix fixes as a whole, each followed by a dot.
    pub open spec fn locked(self) -> Seq<char> {
        dotted(octets(self.network), (self.prefix_len / 8) as nat)
    }

    /// The network address, a slash and the prefix length.
    pub open spec fn label(self) -> Seq<char> {
        self.network.text() + "/"@ + decimal(self.prefix_len as nat)
    }
}

/// The octets of an address.
pub open spec fn octets(ip: Ipv4Addr) -> Seq<u8> {
    seq![ip.a, ip.b, ip.c, ip.d]
}

/// The first `n` of the octets, each followed by a dot.
pub open spec fn dotted(o: Seq<u8>, n: nat) -> Seq<char>
    decreases n,
{
    if n == 0 {
        Seq::empty()
    } else {
        dotted(o, (n - 1) as nat) + decimal(o[n - 1] as nat) + seq!['.']
    }
}

/// The subnet with the given prefix length that `addr` is on.
pub open spec fn subnet_of(addr: Ipv4Addr, prefix_len: u8) -> SubnetView {
    SubnetView {
        network: ip_of((addr.value() - addr.value() % block_size(prefix_len)) as nat),
        prefix_len,
    }
}

/// A subnet ends within the address space.
proof fn subnet_fits(v: SubnetView)
    requires
        v.aligned(),
    ensures
        block_size(v.prefix_len) >= 1,
        v.last() < 0x1_0000_0000,
{
    let size = block_size(v.prefix_len);
    let n = v.network.value();
    lemma_pow2_pos((32 - v.prefix_len) as nat);
    lemma_pow2_adds((32 - v.prefix_len) as nat, v.prefix_len as nat);
    lemma2_to64();
    let count = pow2(v.prefix_len as nat);
    assert(size * count == 0x1_0000_0000);
    lemma_fundamental_div_mod(n as int, size as int);
    let q = n as int / size as int;
    assert(n == size * q);
    assert(q < count) by (nonlinear_arith)
        requires
            size * q < size * count,
            size > 0,
    ;
    assert(size * (q + 1) <= size * count) by (nonlinear_arith)
        requires
            q + 1 <= count,
            size > 0,
    ;
    assert(size * (q + 1) == size * q + size) by (nonlinear_arith);
}

/// A local private IPv4 subnet: the network address with its prefix length.
#[derive(Clone, Copy, Debug, PartialEq, Eq, Structural)]
pub struct Ipv4Subnet {
    network: Ipv4Addr,
    prefix_len: u8,
}

impl View for Ipv4Subnet {
    type V = SubnetView;

    closed spec fn view(&self) -> SubnetView {
        SubnetView { network: self.network, prefix_len: self.prefix_len }
    }
}

/// The size of the block that a prefix leaves open.
fn block_size_of(prefix_len: u8) -> (r: u64)
    requires
        prefix_len <= 32,
    ensures
        r == block_size(prefix_len),
        1 <= r <= 0x1_0000_0000,
{
    let mut r: u64 = 1;
    let mut i: u8 = 32;
    proof {
        lemma2_to64();
    }
    while i > prefix_len
        invariant
            prefix_len <= i <= 32,
            r == pow2((32 - i) as nat),
            1 <= r <= 0x1_0000_0000,
        decreases i,
    {
        proof {
            lemma2_to64();
            lemma_pow2_unfold((33 - i) as nat);
            if 33 - i < 32 {
                lemma_pow2_strictly_increases((33 - i) as nat, 32);
            }
        }
        r = r * 2;
        i -= 1;
    }
    r
}

impl Ipv4Subnet {
    #[verifier::type_invariant]
    spec fn well_formed(self) -> bool {
        self@.aligned()
    }

    /// The subnet that `addr` is on, with the given prefix length.
    pub fn new(addr: Ipv4Addr, prefix_len: u8) -> (r: Ipv4Subnet)
        requires
            prefix_len <= 32,
        ensures
            r@ == subnet_of(addr, prefix_len),
            r@.aligned(),
            r@.holds(addr),
    {
        let size: u64 = block_size_of(prefix_len);
        let n: u64 = addr.to_number();
        proof {
            lemma_fundamental_div_mod(n as int, size as int);
            lemma_mod_multiples_basic(n as int / size as int, size as int);
            lemma_mul_is_commutative(size as int, n as int / size as int);
        }
        let network = Ipv4Addr::from_number(n - n % size);
        Ipv4Subnet { network, prefix_len }
    }

    /// Whether `ip` falls within this subnet.
    pub fn contains(&self, ip: Ipv4Addr) -> (r: bool)
        ensures
            r == self@.holds(ip),
    {
        proof {
            use_type_invariant(self);
        }
        let size: u64 = block_size_of(self.prefix_len);
        let from: u64 = self.network.to_number();
        let n: u64 = ip.to_number();
        from <= n && n - from < size
    }

    /// The leading whole octets fixed by the prefix, as a dotted string ending in
    /// `.`, e.g. `10.22.33.` for a /24 or `10.22.` for a /20; empty where the prefix
    /// is shorter than one octet.
    pub fn locked_prefix(&self) -> (r: String)
        ensures
            r@ == self@.locked(),
    {
        proof {
            use_type_invariant(self);
            reveal_with_fuel(dotted, 5);
        }
        let whole: u8 = self.prefix_len / 8;
        let mut out = String::new();
        if whole >= 1 {
            push_decimal(&mut out, self.network.a as u64);
            out.push('.');
        }
        if whole >= 2 {
            push_decimal(&mut out, self.network.b as u64);
            out.push('.');
        }
        if whole >= 3 {
            push_decimal(&mut out, self.network.c as u64);
            out.push('.');
        }
        if whole >= 4 {
            push_decimal(&mut out, self.network.d as u64);
            out.push('.');
        }
        assert(out@ =~= self@.locked());
        out
    }

    /// Whether the prefix length is not a multiple of eight, so that the editable
    /// tail spans a partial range worth hinting.
    pub fn splits_an_octet(&self) -> (r: bool)
        ensures
            r == (self@.prefix_len % 8 != 0),
    {
        self.prefix_len % 8 != 0
    }

    /// The inclusive address span, network to broadcast.
    pub fn range(&self) -> (r: (Ipv4Addr, Ipv4Addr))
        ensures
            r.0 == self@.network,
            r.1 == ip_of(self@.last() as nat),
            r.1.value() == self@.last(),
    {
        proof {
            use_type_invariant(self);
            subnet_fits(self@);
        }
        let size: u64 = block_size_of(self.prefix_len);
        let last: u64 = self.network.to_number() + (size - 1);
        (self.network, Ipv4Addr::from_number(last))
    }

    /// CIDR label for messages, e.g. `10.22.33.0/24`.
    pub fn label(&self) -> (r: String)
        ensures
            r@ == self@.label(),
    {
        let mut out = self.network.to_text();
        out.append("/");
        push_decimal(&mut out, self.prefix_len as u64);
        out
    }
}

/// An address is within a subnet exactly when it shares the network's bits: dividing
/// both by the block size gives the same number.
pub proof fn holding_is_sharing_the_prefix(v: SubnetView, ip: Ipv4Addr)
    requires
        v.aligned(),
    ensures
        v.holds(ip) <==> ip.value() / block_size(v.prefix_len) == v.network.value() / block_size(
            v.prefix_len,
        ),
{
    let size = block_size(v.prefix_len) as int;
    let n = v.network.value() as int;
    let m = ip.value() as int;
    subnet_fits(v);
    lemma_fundamental_div_mod(n, size);
    lemma_fundamental_div_mod(m, size);
    let q = n / size;
    if v.holds(ip) {
        lemma_fundamental_div_mod_converse(m, size, q, m - n);
    } else if m / size == q {
        assert(m == size * q + m % size);
        lemma_mod_bound(m, size);
    }
}

/// Whether the first `n` octets of two addresses are the same.
spec fn shares_octets(x: Ipv4Addr, y: Ipv4Addr, n: nat) -> bool {
    forall|i: int| 0 <= i < n ==> octets(x)[i] == #[trigger] octets(y)[i]
}

/// The first `n` octets of two addresses are the same exactly when the addresses agree
/// above the bits of the others.
proof fn whole_octets_decide(x: Ipv4Addr, y: Ipv4Addr, n: nat)
    requires
        n <= 4,
    ensures
        shares_octets(x, y, n) <==> x.value() / block_size((8 * n) as u8) == y.value() / block_size(
            (8 * n) as u8,
        ),
{
    lemma2_to64();
    let (p, q) = (octets(x), octets(y));
    let size = block_size((8 * n) as u8);
    if n == 0 {
        assert(size == 0x1_0000_0000);
        assert(x.value() / 0x1_0000_0000 == 0 && y.value() / 0x1_0000_0000 == 0);
    } else if n == 1 {
        assert(size == 0x100_0000);
        assert(shares_octets(x, y, n) <==> p[0] == q[0]);
        assert(x.value() / 0x100_0000 == x.a && y.value() / 0x100_0000 == y.a);
    } else if n == 2 {
        assert(size == 0x1_0000);
        assert(shares_octets(x, y, n) <==> p[0] == q[0] && p[1] == q[1]);
        assert(x.value() / 0x1_0000 == x.a * 256 + x.b);
        assert(y.value() / 0x1_0000 == y.a * 256 + y.b);
    } else if n == 3 {
        assert(size == 0x100);
        assert(shares_octets(x, y, n) <==> p[0] == q[0] && p[1] == q[1] && p[2] == q[2]);
        assert(x.value() / 0x100 == x.a * 65536 + x.b * 256 + x.c);
        assert(y.value() / 0x100 == y.a * 65536 + y.b * 256 + y.c);
    } else {
        assert(size == 1);
        assert(shares_octets(x, y, n) <==> p[0] == q[0] && p[1] == q[1] && p[2] == q[2] && p[3]
            == q[3]);
        assert(x.value() / 1 == x.value() && y.value() / 1 == y.value());
    }
}

/// An address in a subnet has the octets that the prefix fixes as a whole; where the prefix
/// ends with an octet, every address that has them is in the subnet.
proof fn holding_shares_whole_octets(v: SubnetView, ip: Ipv4Addr)
    requires
        v.aligned(),
    ensures
        v.holds(ip) ==> shares_octets(v.network, ip, (v.prefix_len / 8) as nat),
        v.prefix_len % 8 == 0 && shares_octets(v.network, ip, (v.prefix_len / 8) as nat)
            ==> v.holds(ip),
{
    let n: nat = (v.prefix_len / 8) as nat;
    let rest: nat = (v.prefix_len % 8) as nat;
    let size = block_size(v.prefix_len) as int;
    holding_is_sharing_the_prefix(v, ip);
    whole_octets_decide(v.network, ip, n);
    subnet_fits(v);
    lemma_pow2_pos(rest);
    lemma_pow2_adds((32 - v.prefix_len) as nat, rest);
    assert(block_size((8 * n) as u8) == size * pow2(rest));
    lemma_div_denominator(v.network.value() as int, size, pow2(rest) as int);
    lemma_div_denominator(ip.value() as int, size, pow2(rest) as int);
}

/// Fewer octets are in front of more.
proof fn dotted_grows(o: Seq<u8>, n: nat, m: nat)
    requires
        n <= m,
    ensures
        dotted(o, n).is_prefix_of(dotted(o, m)),
    decreases m,
{
    if n < m {
        dotted_grows(o, n, (m - 1) as nat);
        let (short, long) = (dotted(o, n), dotted(o, m));
        let middle = dotted(o, (m - 1) as nat);
        assert(short =~= middle.take(short.len() as int));
        assert(long.take(short.len() as int) =~= middle.take(short.len() as int));
    }
}

/// Equal octets are written alike.
proof fn equal_octets_are_written_alike(o: Seq<u8>, p: Seq<u8>, n: nat)
    requires
        forall|i: int| 0 <= i < n ==> o[i] == #[trigger] p[i],
    ensures
        dotted(o, n) == dotted(p, n),
    decreases n,
{
    if n > 0 {
        assert(o[n - 1] == p[n - 1]);
        equal_octets_are_written_alike(o, p, (n - 1) as nat);
    }
}

/// Octets can be read off what is written.
proof fn written_octets_are_equal(o: Seq<u8>, p: Seq<u8>, n: nat, m: nat)
    requires
        n <= m,
        dotted(o, n).is_prefix_of(dotted(p, m)),
    ensures
        forall|i: int| 0 <= i < n ==> o[i] == #[trigger] p[i],
    decreases n,
{
    if n > 0 {
        let k: nat = (n - 1) as nat;
        dotted_grows(o, k, n);
        dotted_grows(p, n, m);
        let (whole, front) = (dotted(o, n), dotted(o, k));
        let (other, long) = (dotted(p, n), dotted(p, m));
        assert(front =~= long.take(front.len() as int)) by {
            assert(front =~= whole.take(front.len() as int));
            assert(whole =~= long.take(whole.len() as int));
        }
        written_octets_are_equal(o, p, k, m);
        equal_octets_are_written_alike(o, p, k);
        let (x, y) = (decimal(o[k as int] as nat), decimal(p[k as int] as nat));
        let at = front.len() as int;
        decimal_reads_back(o[k as int] as nat);
        decimal_reads_back(p[k as int] as nat);
        assert forall|i: int| 0 <= i < whole.len() implies #[trigger] whole[i] == long[i] by {
            assert(long.take(whole.len() as int)[i] == long[i]);
        }
        assert forall|i: int| 0 <= i < other.len() implies #[trigger] other[i] == long[i] by {
            assert(long.take(other.len() as int)[i] == long[i]);
        }
        assert forall|i: int| 0 <= i < x.len() implies #[trigger] x[i] == whole[at + i] by {}
        assert forall|i: int| 0 <= i < y.len() implies #[trigger] y[i] == other[at + i] by {}
        assert(whole[at + x.len()] == '.');
        assert(other[at + y.len()] == '.');
        if x.len() < y.len() {
            assert(y[x.len() as int] == '.');
        } else if y.len() < x.len() {
            assert(x[y.len() as int] == '.');
        }
        assert forall|i: int| 0 <= i < x.len() implies #[trigger] x[i] == y[i] by {
            assert(whole[at + i] == long[at + i]);
            assert(other[at + i] == long[at + i]);
        }
        assert(x =~= y);
    }
}

/// The text of every address in a subnet, with a dot behind it, starts with the octets that
/// the prefix locks. Where the prefix ends with an octet, only those do.
pub proof fn addresses_start_with_the_locked_prefix(v: SubnetView, ip: Ipv4Addr)
    requires
        v.aligned(),
    ensures
        v.holds(ip) ==> v.locked().is_prefix_of(ip.text().push('.')),
        v.prefix_len % 8 == 0 && v.locked().is_prefix_of(ip.text().push('.')) ==> v.holds(ip),
{
    let n: nat = (v.prefix_len / 8) as nat;
    let (o, p) = (octets(v.network), octets(ip));
    reveal_with_fuel(dotted, 5);
    assert(ip.text().push('.') =~= dotted(p, 4));
    holding_shares_whole_octets(v, ip);
    if v.holds(ip) {
        equal_octets_are_written_alike(o, p, n);
        dotted_grows(p, n, 4);
    }
    if v.locked().is_prefix_of(ip.text().push('.')) {
        written_octets_are_equal(o, p, n, 4);
    }
}

// ---------------------------------------------------------------------------
// The subnets of this device
// ---------------------------------------------------------------------------

/// A network interface: its index, whether it is a loopback interface, and its IPv4
/// addresses with their prefix lengths.
pub struct Interface {
    pub index: u32,
    pub loopback: bool,
    pub nets: Vec<(Ipv4Addr, u8)>,
}

/// What an interface says.
pub struct InterfaceView {
    pub index: u32,
    pub loopback: bool,
    pub nets: Seq<(Ipv4Addr, u8)>,
}

impl View for Interface {
    type V = InterfaceView;

    open spec fn view(&self) -> InterfaceView {
        InterfaceView { index: self.index, loopback: self.loopback, nets: self.nets@ }
    }
}

/// The views of a list of interfaces.
pub open spec fn interface_views(s: Seq<Interface>) -> Seq<InterfaceView> {
    s.map_values(|i: Interface| i@)
}

/// The views of a list of subnets.
pub open spec fn subnet_views(s: Seq<Ipv4Subnet>) -> Seq<SubnetView> {
    s.map_values(|n: Ipv4Subnet| n@)
}

/// The subnets of the private addresses among `nets`, in order.
pub open spec fn private_nets(nets: Seq<(Ipv4Addr, u8)>) -> Seq<SubnetView>
    decreases nets.len(),
{
    if nets.len() == 0 {
        Seq::empty()
    } else if nets.last().0.private() {
        private_nets(nets.drop_last()).push(subnet_of(nets.last().0, nets.last().1))
    } else {
        private_nets(nets.drop_last())
    }
}

/// The private subnets of the interfaces that are no loopback, in order.
pub open spec fn candidates(interfaces: Seq<InterfaceView>) -> Seq<SubnetView>
    decreases interfaces.len(),
{
    if interfaces.len() == 0 {
        Seq::empty()
    } else if interfaces.last().loopback {
        candidates(interfaces.drop_last())
    } else {
        candidates(interfaces.drop_last()) + private_nets(interfaces.last().nets)
    }
}

/// `s` without the entries that stand earlier in it already.
pub open spec fn distinct(s: Seq<SubnetView>) -> Seq<SubnetView>
    decreases s.len(),
{
    if s.len() == 0 {
        Seq::empty()
    } else if distinct(s.drop_last()).contains(s.last()) {
        distinct(s.drop_last())
    } else {
        distinct(s.drop_last()).push(s.last())
    }
}

/// The interfaces with the default-route one in front; the rest keep their order.
pub open spec fn default_first(interfaces: Seq<InterfaceView>, default_index: Option<u32>) -> Seq<
    InterfaceView,
> {
    interfaces.filter(|i: InterfaceView| default_index == Some(i.index)) + interfaces.filter(
        |i: InterfaceView| default_index != Some(i.index),
    )
}

/// The private subnets of a device with the given interfaces.
pub open spec fn private_subnets_of(
    interfaces: Seq<InterfaceView>,
    default_index: Option<u32>,
) -> Seq<SubnetView> {
    distinct(candidates(default_first(interfaces, default_index)))
}

/// No subnet is listed twice, and each listed one is among the candidates.
pub proof fn distinct_has_no_duplicates(s: Seq<SubnetView>)
    ensures
        distinct(s).no_duplicates(),
        forall|v: SubnetView| #[trigger] distinct(s).contains(v) <==> s.contains(v),
    decreases s.len(),
{
    if s.len() > 0 {
        let head = s.drop_last();
        distinct_has_no_duplicates(head);
        assert(s =~= head.push(s.last()));
        assert forall|v: SubnetView| #[trigger] distinct(s).contains(v) <==> s.contains(v) by {
            if s.contains(v) {
                let i = choose|i: int| 0 <= i < s.len() && s[i] == v;
                if i < head.len() {
                    assert(head[i] == v);
                    assert(distinct(head).contains(v));
                    let j = choose|j: int| 0 <= j < distinct(head).len() && distinct(head)[j] == v;
                    assert(distinct(s)[j] == v);
                } else if distinct(head).contains(v) {
                } else {
                    assert(distinct(s).last() == v);
                }
            }
            if distinct(s).contains(v) {
                let j = choose|j: int| 0 <= j < distinct(s).len() && distinct(s)[j] == v;
                if distinct(head).contains(v) {
                    assert(head.contains(v));
                    let i = choose|i: int| 0 <= i < head.len() && head[i] == v;
                    assert(s[i] == v);
                } else {
                    assert(j >= distinct(head).len() || distinct(head)[j] != v);
                    assert(v == s.last());
                }
            }
        }
    }
}

fn holds_subnet(list: &Vec<Ipv4Subnet>, subnet: &Ipv4Subnet) -> (r: bool)
    ensures
        r == subnet_views(list@).contains(subnet@),
{
    let mut i: usize = 0;
    while i < list.len()
        invariant
            i <= list@.len(),
            forall|j: int| 0 <= j < i ==> list@[j] != *subnet,
        decreases list@.len() - i,
    {
        if list[i] == *subnet {
            assert(subnet_views(list@)[i as int] == subnet@);
            return true;
        }
        i += 1;
    }
    assert forall|j: int| 0 <= j < list@.len() implies subnet_views(list@)[j] != subnet@ by {
        assert(list@[j] != *subnet);
    }
    false
}

fn add_interface(out: &mut Vec<Ipv4Subnet>, interface: &Interface, Ghost(done): Ghost<Seq<InterfaceView>>)
    requires
        subnet_views(old(out)@) == distinct(candidates(done)),
        forall|k: int| 0 <= k < interface.nets@.len() ==> #[trigger] interface.nets@[k].1 <= 32,
    ensures
        subnet_views(final(out)@) == distinct(candidates(done.push(interface@))),
{
    proof {
        assert(done.push(interface@).drop_last() =~= done);
    }
    if interface.loopback {
        return;
    }
    let ghost base = candidates(done);
    let mut k: usize = 0;
    assert(base + private_nets(interface.nets@.take(0)) =~= base);
    while k < interface.nets.len()
        invariant
            k <= interface.nets@.len(),
            base == candidates(done),
            subnet_views(out@) == distinct(base + private_nets(interface.nets@.take(k as int))),
            forall|k: int| 0 <= k < interface.nets@.len() ==> #[trigger] interface.nets@[k].1 <= 32,
        decreases interface.nets@.len() - k,
    {
        let net: (Ipv4Addr, u8) = interface.nets[k];
        let ghost before = interface.nets@.take(k as int);
        let ghost after = interface.nets@.take(k + 1);
        assert(after.drop_last() =~= before);
        if net.0.is_private() {
            let subnet = Ipv4Subnet::new(net.0, net.1);
            proof {
                assert((base + private_nets(after)).drop_last() =~= base + private_nets(before));
                assert((base + private_nets(after)).last() == subnet@);
            }
            if !holds_subnet(out, &subnet) {
                let ghost was = out@;
                out.push(subnet);
                assert(subnet_views(out@) =~= subnet_views(was).push(subnet@));
            }
        }
        k += 1;
    }
    assert(interface.nets@.take(k as int) =~= interface.nets@);
}

/// The private IPv4 subnets of a device, the default-route interface's first: the
/// most likely LAN where there are several. Loopback interfaces and addresses that
/// are not private are left out, and no subnet is listed twice.
pub fn private_subnets(interfaces: &Vec<Interface>, default_index: Option<u32>) -> (r: Vec<
    Ipv4Subnet,
>)
    requires
        forall|i: int, k: int|
            0 <= i < interfaces@.len() && 0 <= k < interfaces@[i].nets@.len() ==> (
            #[trigger] interfaces@[i].nets@[k]).1 <= 32,
    ensures
        subnet_views(r@) == private_subnets_of(interface_views(interfaces@), default_index),
{
    let ghost all = interface_views(interfaces@);
    let ghost is_default = |i: InterfaceView| default_index == Some(i.index);
    let ghost is_other = |i: InterfaceView| default_index != Some(i.index);
    let mut out: Vec<Ipv4Subnet> = Vec::new();
    let ghost mut done: Seq<InterfaceView> = Seq::empty();
    let mut i: usize = 0;
    proof {
        reveal(Seq::filter);
        assert(subnet_views(out@) =~= Seq::empty());
        assert(all.take(0).filter(is_default) =~= Seq::empty());
    }
    while i < interfaces.len()
        invariant
            i <= interfaces@.len(),
            all == interface_views(interfaces@),
            done == all.take(i as int).filter(is_default),
            is_default == (|i: InterfaceView| default_index == Some(i.index)),
            subnet_views(out@) == distinct(candidates(done)),
            forall|i: int, k: int|
                0 <= i < interfaces@.len() && 0 <= k < interfaces@[i].nets@.len() ==> (
                #[trigger] interfaces@[i].nets@[k]).1 <= 32,
        decreases interfaces@.len() - i,
    {
        proof {
            reveal(Seq::filter);
            assert(all.take(i + 1).drop_last() =~= all.take(i as int));
        }
        let matches_default = match default_index {
            Some(index) => index == interfaces[i].index,
            None => false,
        };
        if matches_default {
            add_interface(&mut out, &interfaces[i], Ghost(done));
            proof {
                done = done.push(interfaces@[i as int]@);
            }
        }
        i += 1;
    }
    assert(all.take(i as int) =~= all);
    let ghost front = done;
    let mut j: usize = 0;
    proof {
        reveal(Seq::filter);
        assert(all.take(0).filter(is_other) =~= Seq::empty());
        assert(front + all.take(0).filter(is_other) =~= front);
    }
    while j < interfaces.len()
        invariant
            j <= interfaces@.len(),
            all == interface_views(interfaces@),
            done == front + all.take(j as int).filter(is_other),
            is_other == (|i: InterfaceView| default_index != Some(i.index)),
            subnet_views(out@) == distinct(candidates(done)),
            forall|i: int, k: int|
                0 <= i < interfaces@.len() && 0 <= k < interfaces@[i].nets@.len() ==> (
                #[trigger] interfaces@[i].nets@[k]).1 <= 32,
        decreases interfaces@.len() - j,
    {
        proof {
            reveal(Seq::filter);
            assert(all.take(j + 1).drop_last() =~= all.take(j as int));
        }
        let matches_default = match default_index {
            Some(index) => index == interfaces[j].index,
            None => false,
        };
        if !matches_default {
            add_interface(&mut out, &interfaces[j], Ghost(done));
            proof {
                assert(front + all.take(j as int).filter(is_other).push(interfaces@[j as int]@)
                    =~= done.push(interfaces@[j as int]@));
                done = done.push(interfaces@[j as int]@);
            }
        }
        j += 1;
    }
    assert(all.take(j as int) =~= all);
    out
}

// ---------------------------------------------------------------------------
// The typed host address
// ---------------------------------------------------------------------------

/// The outcome of validating a typed host address.
#[derive(Clone, Copy, Debug, PartialEq, Eq, Structural)]
pub enum JoinIpOutcome {
    /// Nothing typed: the host is looked up by multicast instead.
    Empty,
    /// A well-formed address within an allowed subnet, or under an inactive
    /// constraint: the address to dial.
    InRange(Ipv4Addr),
    /// A well-formed address outside every allowed subnet.
    OutOfRange,
    /// Not a well-formed IPv4 address.
    Malformed,
}

/// The constraint that a typed host address is held to: the local private subnets,
/// the primary one first. Without any it is inactive, and any well-formed address is
/// accepted.
pub struct JoinIpConstraint {
    subnets: Vec<Ipv4Subnet>,
}

impl View for JoinIpConstraint {
    type V = Seq<SubnetView>;

    closed spec fn view(&self) -> Seq<SubnetView> {
        subnet_views(self.subnets@)
    }
}

/// The prefix that an entry is typed behind.
pub open spec fn entry_prefix(subnets: Seq<SubnetView>) -> Seq<char> {
    if subnets.len() == 0 {
        Seq::empty()
    } else {
        subnets[0].locked()
    }
}

/// What is typed behind the prefix, in words: the octets that the prefix does not fix as a
/// whole.
pub open spec fn entry_placeholder(subnets: Seq<SubnetView>) -> Seq<char> {
    if subnets.len() == 0 || subnets[0].prefix_len >= 32 {
        Seq::empty()
    } else if subnets[0].prefix_len >= 24 {
        "last octet"@
    } else {
        "last "@ + decimal((4 - subnets[0].prefix_len / 8) as nat) + " octets"@
    }
}

/// Whether `ip` may be dialed under the constraint.
pub open spec fn allowed(subnets: Seq<SubnetView>, ip: Ipv4Addr) -> bool {
    ||| ip.loopback()
    ||| subnets.len() == 0
    ||| exists|i: int| 0 <= i < subnets.len() && #[trigger] subnets[i].holds(ip)
}

/// What a typed entry stands for: the address itself where it is one, else the
/// locked prefix with the entry behind it.
pub open spec fn resolved(subnets: Seq<SubnetView>, entry: Seq<char>) -> JoinIpOutcome {
    let typed = trimmed(entry);
    if typed.len() == 0 {
        JoinIpOutcome::Empty
    } else {
        let full = if parsed_ip(typed) is Some {
            typed
        } else {
            entry_prefix(subnets) + typed
        };
        match parsed_ip(full) {
            None => JoinIpOutcome::Malformed,
            Some(ip) => if allowed(subnets, ip) {
                JoinIpOutcome::InRange(ip)
            } else {
                JoinIpOutcome::OutOfRange
            },
        }
    }
}

/// A pasted loopback address is accepted under every constraint, and without local
/// subnets every well-formed address is.
pub proof fn loopback_and_unconstrained_entries_pass(
    subnets: Seq<SubnetView>,
    entry: Seq<char>,
    ip: Ipv4Addr,
)
    requires
        trimmed(entry) == ip.text(),
        trimmed(entry).len() > 0,
        ip.loopback() || subnets.len() == 0,
    ensures
        resolved(subnets, entry) == JoinIpOutcome::InRange(ip),
{
    crate::addr::address_text_parses_back(ip);
}

/// An accepted address is a loopback address, or within a local subnet, or the
/// constraint is inactive.
pub proof fn accepted_entries_are_local(subnets: Seq<SubnetView>, entry: Seq<char>, ip: Ipv4Addr)
    requires
        resolved(subnets, entry) == JoinIpOutcome::InRange(ip),
    ensures
        allowed(subnets, ip),
{
}

/// The hint on the valid range: the first and the last address of a primary subnet whose
/// prefix splits an octet, nothing otherwise.
pub open spec fn entry_hint(subnets: Seq<SubnetView>) -> Seq<char> {
    if subnets.len() > 0 && subnets[0].prefix_len % 8 != 0 {
        "Valid range: "@ + subnets[0].network.text() + " – "@ + ip_of(
            subnets[0].last() as nat,
        ).text()
    } else {
        Seq::empty()
    }
}

impl JoinIpConstraint {
    /// The constraint of a device with the given interfaces.
    pub fn of_interfaces(interfaces: &Vec<Interface>, default_index: Option<u32>) -> (r:
        JoinIpConstraint)
        requires
            forall|i: int, k: int|
                0 <= i < interfaces@.len() && 0 <= k < interfaces@[i].nets@.len() ==> (
                #[trigger] interfaces@[i].nets@[k]).1 <= 32,
        ensures
            r@ == private_subnets_of(interface_views(interfaces@), default_index),
    {
        JoinIpConstraint { subnets: private_subnets(interfaces, default_index) }
    }

    /// The constraint to the given subnets, the primary one first.
    pub fn of_subnets(subnets: Vec<Ipv4Subnet>) -> (r: JoinIpConstraint)
        ensures
            r@ == subnet_views(subnets@),
    {
        JoinIpConstraint { subnets }
    }

    /// An inactive constraint.
    pub fn unconstrained() -> (r: JoinIpConstraint)
        ensures
            r@.len() == 0,
    {
        JoinIpConstraint { subnets: Vec::new() }
    }

    /// Whether the entry is actually constrained.
    pub fn is_active(&self) -> (r: bool)
        ensures
            r == (self@.len() > 0),
    {
        self.subnets.len() > 0
    }

    /// The locked network prefix that the user types behind; empty where the
    /// constraint is inactive.
    pub fn locked_prefix(&self) -> (r: String)
        ensures
            r@ == entry_prefix(self@),
    {
        if self.subnets.len() > 0 {
            self.subnets[0].locked_prefix()
        } else {
            String::new()
        }
    }

    /// What is typed behind the locked prefix, e.g. `last octet` or `last 2 octets`; empty
    /// where the constraint is inactive.
    pub fn host_placeholder(&self) -> (r: String)
        ensures
            r@ == entry_placeholder(self@),
    {
        if self.subnets.len() == 0 {
            return String::new();
        }
        let prefix_len: u8 = self.subnets[0].prefix_len;
        if prefix_len >= 32 {
            String::new()
        } else if prefix_len >= 24 {
            "last octet".to_owned()
        } else {
            let mut out = "last ".to_owned();
            push_decimal(&mut out, (4 - prefix_len / 8) as u64);
            out.append(" octets");
            out
        }
    }

    /// A hint on the valid range, for a primary subnet whose prefix splits an octet;
    /// empty otherwise.
    pub fn hint(&self) -> (r: String)
        ensures
            r@ == entry_hint(self@),
    {
        if self.subnets.len() > 0 && self.subnets[0].splits_an_octet() {
            let (lo, hi): (Ipv4Addr, Ipv4Addr) = self.subnets[0].range();
            let mut out = "Valid range: ".to_owned();
            out.append(lo.to_text().as_str());
            out.append(" – ");
            out.append(hi.to_text().as_str());
            assert(out@ == entry_hint(self@));
            out
        } else {
            String::new()
        }
    }

    /// The primary subnet's label; empty where the constraint is inactive.
    pub fn label(&self) -> (r: String)
        ensures
            r@ == if self@.len() > 0 {
                self@[0].label()
            } else {
                Seq::<char>::empty()
            },
    {
        if self.subnets.len() > 0 {
            self.subnets[0].label()
        } else {
            String::new()
        }
    }

    fn allows(&self, ip: Ipv4Addr) -> (r: bool)
        ensures
            r == allowed(self@, ip),
    {
        if ip.is_loopback() || self.subnets.len() == 0 {
            return true;
        }
        let mut i: usize = 0;
        while i < self.subnets.len()
            invariant
                i <= self.subnets@.len(),
                forall|j: int| 0 <= j < i ==> !(#[trigger] self@[j].holds(ip)),
            decreases self.subnets@.len() - i,
        {
            if self.subnets[i].contains(ip) {
                assert(self@[i as int].holds(ip));
                return true;
            }
            i += 1;
        }
        false
    }

    /// Validates what the user typed: either a host part that goes behind the locked
    /// prefix, or a whole address.
    pub fn resolve(&self, entry: &str) -> (r: JoinIpOutcome)
        ensures
            r == resolved(self@, entry@),
    {
        let typed = trim(entry);
        if typed.as_str().is_empty() {
            return JoinIpOutcome::Empty;
        }
        let ip: Option<Ipv4Addr> = match Ipv4Addr::parse(typed.as_str()) {
            Some(ip) => Some(ip),
            None => {
                let mut full = self.locked_prefix();
                full.append(typed.as_str());
                Ipv4Addr::parse(full.as_str())
            },
        };
        match ip {
            None => JoinIpOutcome::Malformed,
            Some(ip) => if self.allows(ip) {
                JoinIpOutcome::InRange(ip)
            } else {
                JoinIpOutcome::OutOfRange
            },
        }
    }
}

// ---------------------------------------------------------------------------
// Which subnets are listed, and which entries pass
// ---------------------------------------------------------------------------

/// A prefix that is longer by a bit leaves half as many addresses open; the whole prefix
/// leaves one.
pub proof fn each_bit_halves_the_block(prefix_len: u8)
    ensures
        block_size(32) == 1,
        block_size(24) == 256,
        prefix_len < 32 ==> block_size(prefix_len) == 2 * block_size((prefix_len + 1) as u8),
{
    lemma2_to64();
    if prefix_len < 32 {
        lemma_pow2_unfold((32 - prefix_len) as nat);
    }
}

/// Addresses are on one subnet exactly where they share its prefix, and each is on its own.
pub proof fn subnets_are_shared_by_prefix(a: Ipv4Addr, b: Ipv4Addr, prefix_len: u8)
    requires
        prefix_len <= 32,
    ensures
        subnet_of(a, prefix_len).prefix_len == prefix_len,
        a.value() / block_size(prefix_len) == b.value() / block_size(prefix_len) ==> subnet_of(
            a,
            prefix_len,
        ) == subnet_of(b, prefix_len),
{
    let size = block_size(prefix_len) as int;
    lemma_pow2_pos((32 - prefix_len) as nat);
    lemma_fundamental_div_mod(a.value() as int, size);
    lemma_fundamental_div_mod(b.value() as int, size);
}

proof fn private_nets_list_every_private_net(nets: Seq<(Ipv4Addr, u8)>, v: SubnetView)
    ensures
        private_nets(nets).contains(v) <==> exists|k: int|
            0 <= k < nets.len() && (#[trigger] nets[k]).0.private() && v == subnet_of(
                nets[k].0,
                nets[k].1,
            ),
    decreases nets.len(),
{
    if nets.len() > 0 {
        let rest = nets.drop_last();
        private_nets_list_every_private_net(rest, v);
        let all = private_nets(nets);
        if all.contains(v) {
            let j = choose|j: int| 0 <= j < all.len() && all[j] == v;
            if nets.last().0.private() && j == all.len() - 1 {
                assert(nets[nets.len() - 1].0.private());
            } else {
                assert(private_nets(rest)[j] == v);
                let k = choose|k: int|
                    0 <= k < rest.len() && (#[trigger] rest[k]).0.private() && v == subnet_of(
                        rest[k].0,
                        rest[k].1,
                    );
                assert(nets[k].0.private());
            }
        }
        if exists|k: int|
            0 <= k < nets.len() && (#[trigger] nets[k]).0.private() && v == subnet_of(
                nets[k].0,
                nets[k].1,
            ) {
            let k = choose|k: int|
                0 <= k < nets.len() && (#[trigger] nets[k]).0.private() && v == subnet_of(
                    nets[k].0,
                    nets[k].1,
                );
            if k == nets.len() - 1 {
                assert(all[all.len() - 1] == v);
            } else {
                assert(rest[k].0.private());
                let j = choose|j: int| 0 <= j < private_nets(rest).len() && private_nets(rest)[j] == v;
                assert(all[j] == v);
            }
        }
    } else if private_nets(nets).contains(v) {
        assert(false);
    }
}

proof fn candidates_come_from_interfaces(interfaces: Seq<InterfaceView>, v: SubnetView)
    ensures
        candidates(interfaces).contains(v) <==> exists|i: int|
            0 <= i < interfaces.len() && !(#[trigger] interfaces[i]).loopback && private_nets(
                interfaces[i].nets,
            ).contains(v),
    decreases interfaces.len(),
{
    if interfaces.len() > 0 {
        let rest = interfaces.drop_last();
        let last = interfaces.last();
        candidates_come_from_interfaces(rest, v);
        let (front, back) = (candidates(rest), private_nets(last.nets));
        let all = candidates(interfaces);
        if all.contains(v) {
            let j = choose|j: int| 0 <= j < all.len() && all[j] == v;
            if j < front.len() {
                assert(front[j] == v);
                let i = choose|i: int|
                    0 <= i < rest.len() && !(#[trigger] rest[i]).loopback && private_nets(
                        rest[i].nets,
                    ).contains(v);
                assert(interfaces[i] == rest[i]);
            } else {
                assert(back[j - front.len()] == v);
                assert(interfaces[interfaces.len() - 1] == last);
            }
        }
        if exists|i: int|
            0 <= i < interfaces.len() && !(#[trigger] interfaces[i]).loopback && private_nets(
                interfaces[i].nets,
            ).contains(v) {
            let i = choose|i: int|
                0 <= i < interfaces.len() && !(#[trigger] interfaces[i]).loopback && private_nets(
                    interfaces[i].nets,
                ).contains(v);
            if i < rest.len() {
                assert(rest[i] == interfaces[i]);
                let j = choose|j: int| 0 <= j < front.len() && front[j] == v;
                assert(all[j] == v);
            } else {
                let j = choose|j: int| 0 <= j < back.len() && back[j] == v;
                assert(all[front.len() + j] == v);
            }
        }
    } else if candidates(interfaces).contains(v) {
        assert(false);
    }
}

/// A subnet is listed exactly where an interface that is no loopback has a private address
/// on it, whichever interface the default route is on; and none is listed twice.
pub proof fn every_private_subnet_is_listed(
    interfaces: Seq<InterfaceView>,
    default_index: Option<u32>,
    v: SubnetView,
)
    ensures
        private_subnets_of(interfaces, default_index).contains(v) <==> exists|i: int, k: int|
            0 <= i < interfaces.len() && 0 <= k < interfaces[i].nets.len()
                && !interfaces[i].loopback && (#[trigger] interfaces[i].nets[k]).0.private() && v
                == subnet_of(interfaces[i].nets[k].0, interfaces[i].nets[k].1),
        private_subnets_of(interfaces, default_index).no_duplicates(),
{
    let is_default = |i: InterfaceView| default_index == Some(i.index);
    let is_other = |i: InterfaceView| default_index != Some(i.index);
    let ordered = default_first(interfaces, default_index);
    let (front, back) = (interfaces.filter(is_default), interfaces.filter(is_other));
    assert(ordered == front + back);
    distinct_has_no_duplicates(candidates(ordered));
    candidates_come_from_interfaces(ordered, v);
    if candidates(ordered).contains(v) {
        let i = choose|i: int|
            0 <= i < ordered.len() && !(#[trigger] ordered[i]).loopback && private_nets(
                ordered[i].nets,
            ).contains(v);
        let at = ordered[i];
        if i < front.len() {
            assert(front[i] == at);
            interfaces.lemma_filter_contains_rev(is_default, at);
            assert(interfaces.contains(at));
        } else {
            assert(back[i - front.len()] == at);
            interfaces.lemma_filter_contains_rev(is_other, at);
            assert(interfaces.contains(at));
        }
        let j = choose|j: int| 0 <= j < interfaces.len() && interfaces[j] == at;
        private_nets_list_every_private_net(at.nets, v);
        let k = choose|k: int|
            0 <= k < at.nets.len() && (#[trigger] at.nets[k]).0.private() && v == subnet_of(
                at.nets[k].0,
                at.nets[k].1,
            );
        assert(interfaces[j].nets[k].0.private());
    }
    if exists|i: int, k: int|
        0 <= i < interfaces.len() && 0 <= k < interfaces[i].nets.len() && !interfaces[i].loopback && (
        #[trigger] interfaces[i].nets[k]).0.private() && v == subnet_of(
            interfaces[i].nets[k].0,
            interfaces[i].nets[k].1,
        ) {
        let (i, k) = choose|i: int, k: int|
            0 <= i < interfaces.len() && 0 <= k < interfaces[i].nets.len()
                && !interfaces[i].loopback && (#[trigger] interfaces[i].nets[k]).0.private() && v
                == subnet_of(interfaces[i].nets[k].0, interfaces[i].nets[k].1);
        let at = interfaces[i];
        private_nets_list_every_private_net(at.nets, v);
        assert(at.nets[k].0.private());
        assert(interfaces.contains(at));
        if is_default(at) {
            interfaces.lemma_filter_contains(is_default, i);
            assert(front.contains(at));
            let j = choose|j: int| 0 <= j < front.len() && front[j] == at;
            assert(ordered[j] == at);
        } else {
            interfaces.lemma_filter_contains(is_other, i);
            assert(back.contains(at));
            let j = choose|j: int| 0 <= j < back.len() && back[j] == at;
            assert(ordered[front.len() + j] == at);
        }
    }
}

proof fn candidates_begin_with_the_first_interface(interfaces: Seq<InterfaceView>)
    requires
        interfaces.len() > 0,
        !interfaces[0].loopback,
        private_nets(interfaces[0].nets).len() > 0,
    ensures
        candidates(interfaces).len() > 0,
        candidates(interfaces)[0] == private_nets(interfaces[0].nets)[0],
    decreases interfaces.len(),
{
    let rest = interfaces.drop_last();
    if rest.len() > 0 {
        assert(rest[0] == interfaces[0]);
        candidates_begin_with_the_first_interface(rest);
    } else {
        assert(interfaces.last() == interfaces[0]);
        assert(candidates(rest) =~= Seq::empty());
    }
}

proof fn private_nets_begin_with_the_first_private_net(nets: Seq<(Ipv4Addr, u8)>, k: int)
    requires
        0 <= k < nets.len(),
        nets[k].0.private(),
        forall|j: int| 0 <= j < k ==> !(#[trigger] nets[j]).0.private(),
    ensures
        private_nets(nets).len() > 0,
        private_nets(nets)[0] == subnet_of(nets[k].0, nets[k].1),
    decreases nets.len(),
{
    let rest = nets.drop_last();
    if k < rest.len() {
        assert(rest[k] == nets[k]);
        private_nets_begin_with_the_first_private_net(rest, k);
    } else {
        no_private_net_gives_none(rest);
        assert(nets.last() == nets[k]);
    }
}

proof fn no_private_net_gives_none(nets: Seq<(Ipv4Addr, u8)>)
    requires
        forall|j: int| 0 <= j < nets.len() ==> !(#[trigger] nets[j]).0.private(),
    ensures
        private_nets(nets).len() == 0,
    decreases nets.len(),
{
    if nets.len() > 0 {
        assert(!nets[nets.len() - 1].0.private());
        no_private_net_gives_none(nets.drop_last());
    }
}

proof fn the_first_match_comes_first(s: Seq<InterfaceView>, p: spec_fn(InterfaceView) -> bool, i: int)
    requires
        0 <= i < s.len(),
        p(s[i]),
        forall|j: int| 0 <= j < i ==> !p(#[trigger] s[j]),
    ensures
        s.filter(p).len() > 0,
        s.filter(p)[0] == s[i],
    decreases s.len(),
{
    reveal(Seq::filter);
    let rest = s.drop_last();
    if i < rest.len() {
        assert(rest[i] == s[i]);
        the_first_match_comes_first(rest, p, i);
    } else {
        assert(rest.filter(p).len() == 0) by {
            if rest.filter(p).len() > 0 {
                rest.lemma_filter_pred(p, 0);
                let x = rest.filter(p)[0];
                assert(rest.filter(p).contains(x));
                rest.lemma_filter_contains_rev(p, x);
                let j = choose|j: int| 0 <= j < rest.len() && rest[j] == x;
                assert(s[j] == x);
            }
        }
    }
}

proof fn distinct_keeps_the_first(s: Seq<SubnetView>)
    requires
        s.len() > 0,
    ensures
        distinct(s).len() > 0,
        distinct(s)[0] == s[0],
    decreases s.len(),
{
    if s.len() > 1 {
        distinct_keeps_the_first(s.drop_last());
    } else {
        assert(distinct(s.drop_last()) =~= Seq::empty());
        assert(s.last() == s[0]);
    }
}

/// The subnet that comes first is that of the default route: the first private address of
/// the interface that the default route is on.
pub proof fn the_default_route_comes_first(
    interfaces: Seq<InterfaceView>,
    index: u32,
    i: int,
    k: int,
)
    requires
        0 <= i < interfaces.len(),
        interfaces[i].index == index,
        forall|j: int| 0 <= j < i ==> (#[trigger] interfaces[j]).index != index,
        !interfaces[i].loopback,
        0 <= k < interfaces[i].nets.len(),
        interfaces[i].nets[k].0.private(),
        forall|j: int| 0 <= j < k ==> !(#[trigger] interfaces[i].nets[j]).0.private(),
    ensures
        private_subnets_of(interfaces, Some(index)).len() > 0,
        private_subnets_of(interfaces, Some(index))[0] == subnet_of(
            interfaces[i].nets[k].0,
            interfaces[i].nets[k].1,
        ),
{
    let is_default = |i: InterfaceView| Some(index) == Some(i.index);
    let ordered = default_first(interfaces, Some(index));
    the_first_match_comes_first(interfaces, is_default, i);
    assert(ordered[0] == interfaces[i]) by {
        assert(ordered[0] == interfaces.filter(is_default)[0]);
    }
    private_nets_begin_with_the_first_private_net(interfaces[i].nets, k);
    candidates_begin_with_the_first_interface(ordered);
    distinct_keeps_the_first(candidates(ordered));
}

/// What a typed entry comes to: a whole address, or else a host part behind the first
/// subnet's locked prefix. Whatever address that gives is dialed where it is a loopback
/// address, where any of the subnets holds it, or where there are none, and is out of range
/// otherwise; an entry that gives no address is malformed, and a blank one is none.
pub proof fn entries_are_judged_by_every_subnet(
    subnets: Seq<SubnetView>,
    entry: Seq<char>,
    ip: Ipv4Addr,
    i: int,
)
    ensures
        resolved(subnets, entry) is Empty <==> trimmed(entry).len() == 0,
        trimmed(entry).len() > 0 && (parsed_ip(trimmed(entry)) == Some(ip) || (parsed_ip(
            trimmed(entry),
        ) is None && subnets.len() > 0 && parsed_ip(subnets[0].locked() + trimmed(entry)) == Some(
            ip,
        ))) ==> {
            &&& ip.loopback() || subnets.len() == 0 || (0 <= i < subnets.len()
                && subnets[i].holds(ip)) ==> resolved(subnets, entry) == JoinIpOutcome::InRange(ip)
            &&& !ip.loopback() && subnets.len() > 0 && (forall|j: int|
                0 <= j < subnets.len() ==> !(#[trigger] subnets[j].holds(ip))) ==> resolved(
                subnets,
                entry,
            ) is OutOfRange
        },
        trimmed(entry).len() > 0 && parsed_ip(trimmed(entry)) is None && (subnets.len() == 0
            || parsed_ip(subnets[0].locked() + trimmed(entry)) is None) ==> resolved(subnets, entry)
            is Malformed,
{
    assert(Seq::<char>::empty() + trimmed(entry) =~= trimmed(entry));
}

/// What is asked for behind the locked prefix: as many octets as the prefix leaves open, in
/// whole or in part, and a range where it splits one.
pub proof fn the_open_octets_are_asked_for(subnets: Seq<SubnetView>)
    ensures
        subnets.len() == 0 ==> entry_prefix(subnets).len() == 0 && entry_placeholder(subnets).len()
            == 0 && entry_hint(subnets).len() == 0,
        subnets.len() > 0 ==> {
            let v = subnets[0];
            &&& entry_prefix(subnets) == v.locked()
            &&& v.prefix_len == 32 ==> entry_placeholder(subnets).len() == 0
            &&& 24 <= v.prefix_len < 32 ==> entry_placeholder(subnets) == "last octet"@
            &&& 16 <= v.prefix_len < 24 ==> entry_placeholder(subnets) == "last "@ + decimal(2)
                + " octets"@
            &&& 8 <= v.prefix_len < 16 ==> entry_placeholder(subnets) == "last "@ + decimal(3)
                + " octets"@
            &&& v.prefix_len < 8 ==> entry_placeholder(subnets) == "last "@ + decimal(4)
                + " octets"@
            &&& v.prefix_len % 8 == 0 ==> entry_hint(subnets).len() == 0
            &&& v.prefix_len % 8 != 0 ==> entry_hint(subnets) == "Valid range: "@
                + v.network.text() + " – "@ + ip_of(
                (v.network.value() + block_size(v.prefix_len) - 1) as nat,
            ).text()
            &&& v.label() == v.network.text() + "/"@ + decimal(v.prefix_len as nat)
        },
{
}

/// The views of interfaces and of subnets stand in their order, one for one, each with all
/// that it says.
pub proof fn network_views_keep_every_item(
    interfaces: Seq<Interface>,
    subnets: Seq<Ipv4Subnet>,
    i: int,
)
    ensures
        interface_views(interfaces).len() == interfaces.len(),
        0 <= i < interfaces.len() ==> interface_views(interfaces)[i] == (InterfaceView {
            index: interfaces[i].index,
            loopback: interfaces[i].loopback,
            nets: interfaces[i].nets@,
        }),
        subnet_views(subnets).len() == subnets.len(),
        0 <= i < subnets.len() ==> subnet_views(subnets)[i] == subnets[i]@,
{
}

} // verus!
