use duocb::addr::Ipv4Addr;
use duocb::subnet::{private_subnets, Interface, Ipv4Subnet, JoinIpConstraint, JoinIpOutcome};

fn ip(text: &str) -> Ipv4Addr {
    Ipv4Addr::parse(text).unwrap()
}

fn subnet(cidr: &str) -> Ipv4Subnet {
    let (addr, len) = cidr.split_once('/').unwrap();
    Ipv4Subnet::new(ip(addr), len.parse().unwrap())
}

fn constraint(cidrs: &[&str]) -> JoinIpConstraint {
    JoinIpConstraint::of_subnets(cidrs.iter().map(|c| subnet(c)).collect())
}

#[test]
fn locked_prefix_covers_whole_octets_only() {
    assert_eq!(subnet("10.22.33.0/24").locked_prefix(), "10.22.33.");
    assert_eq!(subnet("10.22.32.0/20").locked_prefix(), "10.22.");
    assert_eq!(subnet("192.168.1.0/16").locked_prefix(), "192.168.");
    assert_eq!(subnet("10.0.0.0/8").locked_prefix(), "10.");
}

#[test]
fn splits_an_octet_flags_non_aligned_prefixes() {
    assert!(!subnet("10.22.33.0/24").splits_an_octet());
    assert!(!subnet("10.0.0.0/8").splits_an_octet());
    assert!(subnet("10.22.32.0/20").splits_an_octet());
    assert!(subnet("10.22.33.0/28").splits_an_octet());
}

#[test]
fn range_and_label_describe_the_subnet() {
    let s = subnet("10.22.32.0/20");
    assert_eq!(s.range(), (ip("10.22.32.0"), ip("10.22.47.255")));
    assert_eq!(s.label(), "10.22.32.0/20");
}

#[test]
fn resolve_accepts_the_host_part_after_the_locked_prefix() {
    let c = constraint(&["10.22.33.0/24"]);
    assert_eq!(c.locked_prefix(), "10.22.33.");
    assert_eq!(c.resolve("15"), JoinIpOutcome::InRange(ip("10.22.33.15")));
}

#[test]
fn resolve_accepts_a_pasted_full_address_in_range() {
    let c = constraint(&["10.22.33.0/24"]);
    assert_eq!(c.resolve("10.22.33.200"), JoinIpOutcome::InRange(ip("10.22.33.200")));
}

#[test]
fn resolve_rejects_out_of_range_for_a_partial_octet_prefix() {
    let c = constraint(&["10.22.32.0/20"]);
    assert_eq!(c.resolve("35.7"), JoinIpOutcome::InRange(ip("10.22.35.7")));
    assert_eq!(c.resolve("60.7"), JoinIpOutcome::OutOfRange);
    assert!(c.hint().starts_with("Valid range: 10.22.32.0"));
}

#[test]
fn resolve_accepts_any_of_several_subnets() {
    let c = constraint(&["10.22.33.0/24", "192.168.1.0/24"]);
    assert!(matches!(c.resolve("192.168.1.9"), JoinIpOutcome::InRange(_)));
    assert_eq!(c.resolve("172.16.0.1"), JoinIpOutcome::OutOfRange);
}

#[test]
fn resolve_always_accepts_loopback_and_empty_and_malformed() {
    let c = constraint(&["10.22.33.0/24"]);
    assert!(matches!(c.resolve("127.0.0.1"), JoinIpOutcome::InRange(_)));
    assert_eq!(c.resolve("   "), JoinIpOutcome::Empty);
    assert_eq!(c.resolve("10.22.33.999"), JoinIpOutcome::Malformed);
}

#[test]
fn inactive_constraint_accepts_any_well_formed_ipv4() {
    let c = JoinIpConstraint::unconstrained();
    assert!(!c.is_active());
    assert_eq!(c.locked_prefix(), "");
    assert_eq!(c.hint(), "");
    assert!(matches!(c.resolve("203.0.113.7"), JoinIpOutcome::InRange(_)));
    assert_eq!(c.resolve("nope"), JoinIpOutcome::Malformed);
    assert_eq!(c.resolve(""), JoinIpOutcome::Empty);
}

#[test]
fn the_default_interface_comes_first() {
    let interfaces = vec![
        Interface { index: 1, loopback: true, nets: vec![(ip("127.0.0.1"), 8)] },
        Interface { index: 2, loopback: false, nets: vec![(ip("192.168.7.3"), 24)] },
        Interface {
            index: 3,
            loopback: false,
            nets: vec![(ip("10.1.2.3"), 16), (ip("8.8.8.8"), 24), (ip("192.168.7.9"), 24)],
        },
    ];
    let labels: Vec<String> =
        private_subnets(&interfaces, Some(3)).iter().map(|s| s.label()).collect();
    assert_eq!(labels, vec!["10.1.0.0/16", "192.168.7.0/24"]);
    let c = JoinIpConstraint::of_interfaces(&interfaces, None);
    assert_eq!(c.label(), "192.168.7.0/24");
}

#[test]
fn addresses_parse_as_they_are_written() {
    assert_eq!(ip("192.168.1.42").to_text(), "192.168.1.42");
    for bad in ["1.2.3", "1.2.3.4.5", "01.2.3.4", "1.2.3.256", "1.2.3.x", " 1.2.3.4", ""] {
        assert_eq!(Ipv4Addr::parse(bad), None, "{bad}");
    }
}

#[test]
fn addresses_of_a_subnet_start_with_its_locked_prefix() {
    let whole = subnet("10.22.33.0/24");
    let split = subnet("10.22.32.0/20");
    for d in [0u8, 1, 255] {
        let ip = Ipv4Addr::new(10, 22, 33, d);
        let text = ip.to_text() + ".";
        assert!(whole.contains(ip) && text.starts_with(&whole.locked_prefix()));
        assert!(split.contains(ip) && text.starts_with(&split.locked_prefix()));
    }
    let other = Ipv4Addr::new(10, 22, 3, 3);
    let text = other.to_text() + ".";
    assert!(!whole.contains(other) && !text.starts_with(&whole.locked_prefix()));
    assert!(text.starts_with(&split.locked_prefix()) && !split.contains(other));
}
