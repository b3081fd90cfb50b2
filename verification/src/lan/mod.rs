//! The local-network rendezvous: labels, ports and addresses of advertised records.

pub mod browse;
pub mod dnssd;
pub mod unicast;

use vstd::prelude::*;
use vstd::string::*;
use vstd::utf8::encode_utf8;

use crate::addr::{IpAddr, Ipv4Addr, SocketAddr};
use crate::auth::PublicKey;
use crate::hash::{push_bytes, sha256, sha256_of};
use crate::node::NodeId;
use crate::text::{hex_text, hex_text_shape};

verus! {

/// The full DNS-SD type of the service.
pub const DNSSD_SERVICE_TYPE: &'static str = "_duocb-pin._udp.local.";

/// TXT attribute key that carries the encrypted record.
pub const TXT_KEY: &'static str = "e";

/// TXT attribute key that carries the IPv6 port where it differs from the SRV port.
pub const TXT_KEY_PORT6: &'static str = "p6";

/// Seconds that a lookup browses before it concludes that no record is there.
pub const LOOKUP_TIMEOUT_SECS: u64 = 5;

/// First port of the ephemeral range.
pub const EPHEMERAL_START: u16 = 49152;

/// Size of the ephemeral range.
pub const EPHEMERAL_LEN: u16 = 16384;

/// The instance label of a record key: the first thirty-two of its hexadecimal digits.
pub open spec fn instance_label(key: Seq<u8>) -> Seq<char> {
    hex_text(key).take(32)
}

/// The instance label of a record key. It fits a DNS label.
pub fn instance_name(key: &PublicKey) -> (r: String)
    ensures
        r@ == instance_label(key@),
        r@.len() == 32,
{
    let hex = key.to_hex();
    proof {
        hex_text_shape(key@);
    }
    let r = hex.as_str().substring_char(0, 32).to_owned();
    assert(r@ =~= instance_label(key@));
    r
}

/// What the side-channel port is derived from: a salt and the record key.
pub open spec fn port_input(key: Seq<u8>) -> Seq<u8> {
    encode_utf8("duocb:pin-side-channel-port:v1"@) + key
}

/// The port that a digest maps to, within the ephemeral range.
pub open spec fn port_of_digest(digest: Seq<u8>) -> u16 {
    (EPHEMERAL_START + (digest[0] * 256 + digest[1]) % EPHEMERAL_LEN as int) as u16
}

/// Maps the first two bytes of a digest into the ephemeral range.
pub fn port_from_digest(digest: &[u8]) -> (r: u16)
    requires
        digest@.len() >= 2,
    ensures
        r == port_of_digest(digest@),
        EPHEMERAL_START <= r,
{
    let n: u16 = digest[0] as u16 * 256 + digest[1] as u16;
    EPHEMERAL_START + n % EPHEMERAL_LEN
}

/// The side-channel port of a record key. It is derived from the key and not from the
/// PIN, so that the open port gives no cheap way to test PINs.
pub fn side_channel_port(key: &PublicKey) -> (r: u16)
    ensures
        r == port_of_digest(sha256(port_input(key@))),
        EPHEMERAL_START <= r,
{
    let mut input: Vec<u8> = Vec::new();
    push_bytes(&mut input, "duocb:pin-side-channel-port:v1".as_bytes());
    push_bytes(&mut input, &key.bytes);
    assert(input@ =~= port_input(key@));
    let digest: [u8; 32] = sha256_of(input.as_slice());
    port_from_digest(&digest)
}

/// A resolved hit on the local network: the node id and the direct addresses.
pub struct PinFound {
    pub node_id: NodeId,
    pub addrs: Vec<SocketAddr>,
}

/// The index from `from` on of the first private IPv4 address.
pub open spec fn private_index(addrs: Seq<SocketAddr>, from: int) -> Option<int>
    decreases addrs.len() - from,
{
    if from < 0 || from >= addrs.len() {
        None
    } else {
        match addrs[from].ip {
            IpAddr::V4(ip) => if ip.private() {
                Some(from)
            } else {
                private_index(addrs, from + 1)
            },
            IpAddr::V6(_) => private_index(addrs, from + 1),
        }
    }
}

/// The first private IPv4 address among `addrs`.
pub open spec fn first_private(addrs: Seq<SocketAddr>) -> Option<Ipv4Addr> {
    match private_index(addrs, 0) {
        Some(i) => Some(addrs[i].ip->V4_0),
        None => None,
    }
}

/// Picks the address to show to the joiner: the first private IPv4 one.
pub fn preferred_lan_ipv4(addrs: &Vec<SocketAddr>) -> (r: Option<Ipv4Addr>)
    ensures
        r == first_private(addrs@),
{
    let mut i: usize = 0;
    while i < addrs.len()
        invariant
            i <= addrs@.len(),
            private_index(addrs@, 0) == private_index(addrs@, i as int),
        decreases addrs@.len() - i,
    {
        match addrs[i].ip {
            IpAddr::V4(ip) => {
                if ip.is_private() {
                    return Some(ip);
                }
            },
            IpAddr::V6(_) => {},
        }
        i += 1;
    }
    None
}

/// The port of the first address of one family, from index `from` on.
pub open spec fn family_port(addrs: Seq<SocketAddr>, v4: bool, from: int) -> Option<u16>
    decreases addrs.len() - from,
{
    if from < 0 || from >= addrs.len() {
        None
    } else if addrs[from].ip is V4 == v4 {
        Some(addrs[from].port)
    } else {
        family_port(addrs, v4, from + 1)
    }
}

/// The ports that an advertisement carries: the SRV port, which is the IPv4 one where
/// there is an IPv4 address, and the IPv6 port where it differs. `None` where there is
/// nothing to advertise.
pub open spec fn ports_of(addrs: Seq<SocketAddr>) -> Option<(u16, Option<u16>)> {
    let v4 = family_port(addrs, true, 0);
    let v6 = family_port(addrs, false, 0);
    match v4 {
        Some(srv) => Some(
            (
                srv,
                match v6 {
                    Some(p) => if p != srv {
                        Some(p)
                    } else {
                        None
                    },
                    None => None,
                },
            ),
        ),
        None => match v6 {
            Some(srv) => Some((srv, None)),
            None => None,
        },
    }
}

fn find_port(addrs: &Vec<SocketAddr>, v4: bool) -> (r: Option<u16>)
    ensures
        r == family_port(addrs@, v4, 0),
{
    let mut i: usize = 0;
    while i < addrs.len()
        invariant
            i <= addrs@.len(),
            family_port(addrs@, v4, 0) == family_port(addrs@, v4, i as int),
        decreases addrs@.len() - i,
    {
        if addrs[i].is_ipv4() == v4 {
            return Some(addrs[i].port);
        }
        i += 1;
    }
    None
}

/// The ports that an advertisement of `addrs` carries.
pub fn split_ports(addrs: &Vec<SocketAddr>) -> (r: Option<(u16, Option<u16>)>)
    ensures
        r == ports_of(addrs@),
{
    let v4: Option<u16> = find_port(addrs, true);
    let v6: Option<u16> = find_port(addrs, false);
    match v4 {
        Some(srv) => match v6 {
            Some(port) => if port != srv {
                Some((srv, Some(port)))
            } else {
                Some((srv, None))
            },
            None => Some((srv, None)),
        },
        None => match v6 {
            Some(srv) => Some((srv, None)),
            None => None,
        },
    }
}

/// The address that `ip` is dialed at, or `None` for a link-local IPv6 address, which
/// needs a scope that the record cannot carry.
pub open spec fn dialable(ip: IpAddr, srv_port: u16, port6: Option<u16>) -> Option<SocketAddr> {
    match ip {
        IpAddr::V4(_) => Some(SocketAddr { ip, port: srv_port, scope_id: 0 }),
        IpAddr::V6(v6) => if v6.link_local() {
            None
        } else {
            Some(
                SocketAddr {
                    ip,
                    port: match port6 {
                        Some(p) => p,
                        None => srv_port,
                    },
                    scope_id: 0,
                },
            )
        },
    }
}

/// The dialable addresses of `ips`, in order.
pub open spec fn assembled(ips: Seq<IpAddr>, srv_port: u16, port6: Option<u16>) -> Seq<SocketAddr>
    decreases ips.len(),
{
    if ips.len() == 0 {
        Seq::empty()
    } else {
        match dialable(ips.last(), srv_port, port6) {
            Some(a) => assembled(ips.drop_last(), srv_port, port6).push(a),
            None => assembled(ips.drop_last(), srv_port, port6),
        }
    }
}

/// Rebuilds dialable addresses from resolved ones and the advertised ports.
pub fn assemble_addrs(ips: &Vec<IpAddr>, srv_port: u16, port6: Option<u16>) -> (r: Vec<SocketAddr>)
    ensures
        r@ == assembled(ips@, srv_port, port6),
{
    let mut out: Vec<SocketAddr> = Vec::new();
    let mut i: usize = 0;
    while i < ips.len()
        invariant
            i <= ips@.len(),
            out@ == assembled(ips@.take(i as int), srv_port, port6),
        decreases ips@.len() - i,
    {
        proof {
            assert(ips@.take(i + 1).drop_last() =~= ips@.take(i as int));
        }
        let ip: IpAddr = ips[i];
        match ip {
            IpAddr::V4(_) => out.push(SocketAddr::new(ip, srv_port)),
            IpAddr::V6(v6) => {
                if !v6.is_link_local() {
                    let port: u16 = match port6 {
                        Some(port) => port,
                        None => srv_port,
                    };
                    out.push(SocketAddr::new(ip, port));
                }
            },
        }
        i += 1;
    }
    assert(ips@.take(i as int) =~= ips@);
    out
}

/// Whether all addresses of one family share a port, and none is link-local or scoped: what
/// an endpoint with one socket per family reports.
pub open spec fn one_socket_per_family(addrs: Seq<SocketAddr>) -> bool {
    &&& forall|i: int, j: int|
        0 <= i < addrs.len() && 0 <= j < addrs.len() && (#[trigger] addrs[i]).ip is V4 == (
        #[trigger] addrs[j]).ip is V4 ==> addrs[i].port == addrs[j].port
    &&& forall|i: int|
        0 <= i < addrs.len() && (#[trigger] addrs[i]).ip is V6 ==> !addrs[i].ip->V6_0.link_local()
    &&& forall|i: int| 0 <= i < addrs.len() ==> (#[trigger] addrs[i]).scope_id == 0
}

proof fn family_port_finds(addrs: Seq<SocketAddr>, v4: bool, from: int, i: int)
    requires
        0 <= from <= i < addrs.len(),
        addrs[i].ip is V4 == v4,
        one_socket_per_family(addrs),
    ensures
        family_port(addrs, v4, from) == Some(addrs[i].port),
    decreases addrs.len() - from,
{
    if addrs[from].ip is V4 == v4 {
        assert(addrs[from].port == addrs[i].port);
    } else {
        family_port_finds(addrs, v4, from + 1, i);
    }
}

proof fn assembled_restores(ips: Seq<IpAddr>, addrs: Seq<SocketAddr>, srv_port: u16, port6: Option<u16>)
    requires
        ips.len() == addrs.len(),
        forall|i: int| 0 <= i < ips.len() ==> dialable(#[trigger] ips[i], srv_port, port6) == Some(addrs[i]),
    ensures
        assembled(ips, srv_port, port6) == addrs,
    decreases ips.len(),
{
    if ips.len() > 0 {
        assembled_restores(ips.drop_last(), addrs.drop_last(), srv_port, port6);
        assert(dialable(ips[ips.len() - 1], srv_port, port6) == Some(addrs[ips.len() - 1]));
        assert(addrs =~= addrs.drop_last().push(addrs.last()));
    } else {
        assert(addrs =~= Seq::empty());
    }
}

/// What an endpoint with one socket per family advertises is put together again to the
/// very addresses that it had.
pub proof fn split_ports_reassemble(addrs: Seq<SocketAddr>)
    requires
        addrs.len() > 0,
        one_socket_per_family(addrs),
    ensures
        ports_of(addrs) is Some,
        ({
            let (srv, port6) = ports_of(addrs)->0;
            assembled(addrs.map_values(|a: SocketAddr| a.ip), srv, port6) == addrs
        }),
{
    let ips = addrs.map_values(|a: SocketAddr| a.ip);
    family_port_finds(addrs, addrs[0].ip is V4, 0, 0);
    let (srv, port6) = ports_of(addrs)->0;
    assert forall|i: int| 0 <= i < ips.len() implies dialable(#[trigger] ips[i], srv, port6) == Some(
        addrs[i],
    ) by {
        family_port_finds(addrs, addrs[i].ip is V4, 0, i);
        assert(ips[i] == addrs[i].ip);
    }
    assembled_restores(ips, addrs, srv, port6);
}

/// The label of a record key shows sixteen of its bytes: keys with one label agree in those.
pub proof fn labels_show_sixteen_bytes(a: Seq<u8>, b: Seq<u8>)
    requires
        a.len() == 32,
        b.len() == 32,
        instance_label(a) == instance_label(b),
    ensures
        a.take(16) == b.take(16),
{
    hex_text_shape(a);
    hex_text_shape(b);
    assert forall|i: int| 0 <= i < 16 implies a[i] == b[i] by {
        crate::text::hex_text_spells_each_byte(a, i);
        crate::text::hex_text_spells_each_byte(b, i);
        assert(hex_text(a).take(32)[2 * i] == hex_text(b).take(32)[2 * i]);
        assert(hex_text(a).take(32)[2 * i + 1] == hex_text(b).take(32)[2 * i + 1]);
    }
    assert(a.take(16) =~= b.take(16));
}

/// A side-channel port is in the ephemeral range, is taken from the first two bytes of a
/// digest, and that digest is over the whole key.
pub proof fn side_channel_ports_are_ephemeral(digest: Seq<u8>, a: Seq<u8>, b: Seq<u8>)
    ensures
        49152 <= port_of_digest(digest) <= 65535,
        port_of_digest(digest) == 49152 + (digest[0] * 256 + digest[1]) % 16384,
        port_input(a) == port_input(b) ==> a == b,
{
    let d = encode_utf8("duocb:pin-side-channel-port:v1"@);
    assert((d + a).skip(d.len() as int) =~= a);
    assert((d + b).skip(d.len() as int) =~= b);
}

/// The address shown to a joiner is the first private IPv4 one, wherever it stands, and none
/// where there is none.
pub proof fn the_first_private_address_is_shown(addrs: Seq<SocketAddr>, i: int)
    ensures
        0 <= i < addrs.len() && addrs[i].ip is V4 && addrs[i].ip->V4_0.private() && (forall|j: int|
            0 <= j < i ==> !((#[trigger] addrs[j]).ip is V4 && addrs[j].ip->V4_0.private()))
            ==> first_private(addrs) == Some(addrs[i].ip->V4_0),
        (forall|j: int|
            0 <= j < addrs.len() ==> !((#[trigger] addrs[j]).ip is V4
                && addrs[j].ip->V4_0.private())) ==> first_private(addrs) is None,
{
    private_index_finds(addrs, 0);
    if let Some(k) = private_index(addrs, 0) {
        if 0 <= i < k {
            assert(!(addrs[i].ip is V4 && addrs[i].ip->V4_0.private()));
        }
    }
}

proof fn private_index_finds(addrs: Seq<SocketAddr>, from: int)
    requires
        0 <= from <= addrs.len(),
    ensures
        match private_index(addrs, from) {
            Some(i) => from <= i < addrs.len() && addrs[i].ip is V4 && addrs[i].ip->V4_0.private()
                && forall|j: int|
                from <= j < i ==> !((#[trigger] addrs[j]).ip is V4 && addrs[j].ip->V4_0.private()),
            None => forall|j: int|
                from <= j < addrs.len() ==> !((#[trigger] addrs[j]).ip is V4
                    && addrs[j].ip->V4_0.private()),
        },
    decreases addrs.len() - from,
{
    if from < addrs.len() {
        private_index_finds(addrs, from + 1);
    }
}

/// The advertised ports are those of the first address of each family: the IPv4 one in the
/// SRV record, and the IPv6 one beside it where it differs; alone, the IPv6 one is in the
/// SRV record, and without any address nothing is advertised.
pub proof fn the_first_port_of_each_family_is_advertised(
    addrs: Seq<SocketAddr>,
    i: int,
    j: int,
)
    ensures
        ports_of(addrs) is None <==> addrs.len() == 0,
        0 <= i < addrs.len() && addrs[i].ip is V4 && (forall|k: int|
            0 <= k < i ==> !((#[trigger] addrs[k]).ip is V4)) ==> {
            &&& ports_of(addrs) is Some && (ports_of(addrs)->0).0 == addrs[i].port
            &&& (forall|k: int| 0 <= k < addrs.len() ==> (#[trigger] addrs[k]).ip is V4) ==> (
            ports_of(addrs)->0).1 is None
            &&& 0 <= j < addrs.len() && addrs[j].ip is V6 && (forall|k: int|
                0 <= k < j ==> (#[trigger] addrs[k]).ip is V4) ==> (ports_of(addrs)->0).1
                == if addrs[j].port == addrs[i].port {
                None
            } else {
                Some(addrs[j].port)
            }
        },
        addrs.len() > 0 && (forall|k: int|
            0 <= k < addrs.len() ==> (#[trigger] addrs[k]).ip is V6) ==> ports_of(addrs) == Some(
            (addrs[0].port, None::<u16>),
        ),
{
    family_port_is_the_first(addrs, true, 0, i);
    family_port_is_the_first(addrs, false, 0, j);
    family_port_is_the_first(addrs, false, 0, 0);
    if addrs.len() > 0 {
        let v4 = addrs[0].ip is V4;
        family_port_is_the_first(addrs, v4, 0, 0);
    }
}

proof fn family_port_is_the_first(addrs: Seq<SocketAddr>, v4: bool, from: int, i: int)
    requires
        0 <= from,
    ensures
        from <= i < addrs.len() && addrs[i].ip is V4 == v4 && (forall|k: int|
            from <= k < i ==> (#[trigger] addrs[k]).ip is V4 != v4) ==> family_port(addrs, v4, from)
            == Some(addrs[i].port),
        (forall|k: int| from <= k < addrs.len() ==> (#[trigger] addrs[k]).ip is V4 != v4)
            ==> family_port(addrs, v4, from) is None,
    decreases addrs.len() - from,
{
    if from < addrs.len() {
        family_port_is_the_first(addrs, v4, from + 1, i);
        let here = addrs[from];
    }
}

/// Every resolved address is dialed at its family's port, in order, but for link-local IPv6
/// addresses, which are left out.
pub proof fn every_reachable_address_is_dialed(ips: Seq<IpAddr>, srv_port: u16, port6: Option<u16>)
    ensures
        assembled(ips, srv_port, port6) == ips.filter(
            |ip: IpAddr| !(ip is V6 && ip->V6_0.link_local()),
        ).map_values(
            |ip: IpAddr| SocketAddr {
                ip,
                port: if ip is V6 && port6 is Some {
                    port6->0
                } else {
                    srv_port
                },
                scope_id: 0,
            },
        ),
    decreases ips.len(),
{
    reveal(Seq::filter);
    if ips.len() > 0 {
        every_reachable_address_is_dialed(ips.drop_last(), srv_port, port6);
    }
    assert(assembled(ips, srv_port, port6) =~= ips.filter(
        |ip: IpAddr| !(ip is V6 && ip->V6_0.link_local()),
    ).map_values(
        |ip: IpAddr| SocketAddr {
            ip,
            port: if ip is V6 && port6 is Some {
                port6->0
            } else {
                srv_port
            },
            scope_id: 0,
        },
    ));
}

} // verus!
