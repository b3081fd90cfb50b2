use duocb::addr::{IpAddr, Ipv4Addr, Ipv6Addr, SocketAddr};
use duocb::auth::{Identity, PublicKey, SEALED_RECORD_CHARS};
use duocb::hosting_record::{decrypt, encrypt, lan_instance, nostr_dtag};
use duocb::lan::browse::{
    decode_hosting_record, decode_pin_record, dialable_hit, hit, read_resolved, register_verdict,
    AddrCollector, Browse, Delivered, RegisterVerdict, ADDR_GRACE_MS, ERR_POLICY_DENIED, FLAG_ADD,
    FLAG_MORE_COMING,
};
use duocb::lan::dnssd::{
    attribute, dnssd_advert, instance_in, parse_txt, push_txt, split_service_type, txt_record,
};
use duocb::lan::unicast::{read_served, served_record, MAX_RECORD_BYTES};
use duocb::lan::{
    assemble_addrs, instance_name, port_from_digest, preferred_lan_ipv4, side_channel_port,
    split_ports, DNSSD_SERVICE_TYPE, EPHEMERAL_START, TXT_KEY,
};
use duocb::node::NodeId;
use duocb::nostr::{
    hosted_node, hosting_event, pair_dtag, publish_outcome, relays_connected, relays_usable,
    DEFAULT_NOSTR_RELAYS, HOSTING_KIND,
};
use duocb::pin_record::{
    candidate_buckets, decrypt_pin_payload, encrypt_pin_payload, pin_keys, try_candidates,
};
use nostr_sdk::{EventBuilder, JsonUtil, Keys, Kind, Timestamp};

fn node() -> NodeId {
    NodeId::parse(&iroh_base::SecretKey::generate().public().to_string()).unwrap()
}

fn v4(a: u8, b: u8, c: u8, d: u8) -> IpAddr {
    IpAddr::V4(Ipv4Addr::new(a, b, c, d))
}

fn v6(number: u128) -> IpAddr {
    IpAddr::V6(Ipv6Addr { number })
}

const DOCUMENTATION: u128 = 0x2001_0db8_0000_0000_0000_0000_0000_0007;
const LINK_LOCAL: u128 = 0xfe80_0000_0000_0000_0000_0000_0000_0001;

#[test]
fn labels_are_ordered_transport_specific_and_stable() {
    let a = Identity::generate().public_key();
    let b = Identity::generate().public_key();

    let labels: [fn(PublicKey, PublicKey) -> String; 2] = [nostr_dtag, lan_instance];
    for label in labels {
        assert_eq!(label(a, b), label(a, b), "must be deterministic");
        assert_ne!(label(a, b), label(b, a), "the pair is ordered");
    }
    assert!(!nostr_dtag(a, b).contains(&lan_instance(a, b)));
    assert_eq!(lan_instance(a, b).len(), 32, "must fit a DNS label");
}

#[test]
fn only_the_addressed_peer_reads_the_record() {
    let host = Identity::generate();
    let peer = Identity::generate();
    let stranger = Identity::generate();
    let node_id = node();

    let content = encrypt(&host, peer.public_key(), &node_id).unwrap();
    assert!(!content.contains(&node_id.to_text()));

    assert_eq!(decrypt(&peer, host.public_key(), &content), Some(node_id));
    assert_eq!(decrypt(&stranger, host.public_key(), &content), None);
    assert_eq!(decrypt(&peer, stranger.public_key(), &content), None);
}

#[test]
fn records_of_another_version_count_as_absent() {
    let host = Identity::generate();
    let peer = Identity::generate();
    let id = node().to_text();
    let seal = |text: &str| host.seal_for(peer.public_key(), text).unwrap();
    let read = |text: &str| decrypt(&peer, host.public_key(), &seal(text));
    assert!(read(&format!("{{\"version\":1,\"node_id\":\" {id} \"}}")).is_some());
    assert!(read(&format!("{{\"version\":2,\"node_id\":\"{id}\"}}")).is_none());
    assert!(read(&format!("{{\"version\":1,\"node_id\":\"{id}\",\"x\":1}}")).is_none());
    assert!(read("{\"version\":1,\"node_id\":\"nothing\"}").is_none());
    assert!(read("nothing").is_none());
    assert!(encrypt(&host, PublicKey { bytes: [0xff; 32] }, &node()).is_err());
}

#[test]
fn pair_tags_are_ordered_and_transport_independent() {
    let a = Identity::generate();
    let b = Identity::generate();
    assert_eq!(
        pair_dtag(a.public_key(), b.public_key()),
        pair_dtag(a.public_key(), b.public_key())
    );
    assert_ne!(
        pair_dtag(a.public_key(), b.public_key()),
        pair_dtag(b.public_key(), a.public_key())
    );
}

#[test]
fn a_known_pair_has_its_known_labels() {
    let host = PublicKey { bytes: [1; 32] };
    let peer = PublicKey { bytes: [2; 32] };
    let digest = |domain: &str| {
        let mut input = domain.as_bytes().to_vec();
        input.extend_from_slice(&[1; 32]);
        input.extend_from_slice(&[2; 32]);
        <sha2::Sha256 as sha2::Digest>::digest(input)
    };
    let hex = |bytes: &[u8]| bytes.iter().map(|b| format!("{b:02x}")).collect::<String>();
    let tag = digest("duocb:pairwise-hosting:v1");
    assert_eq!(nostr_dtag(host, peer), format!("duocb:hosting:v1:{}", hex(&tag)));
    let outer = <sha2::Sha256 as sha2::Digest>::digest(tag);
    assert_eq!(pair_dtag(host, peer), format!("duocb:hosting:v1:{}", hex(&outer)));
    assert_eq!(lan_instance(host, peer), hex(&digest("duocb:pairwise-hosting-lan:v1"))[..32]);
}

#[test]
fn a_published_event_leads_the_peer_to_the_host() {
    let host = Identity::generate();
    let peer = Identity::generate();
    let stranger = Identity::generate();
    let node_id = node();
    let event = hosting_event(&host, peer.public_key(), &node_id, 1_700_000_000).unwrap();

    let found = hosted_node(&peer, host.public_key(), &vec![event.clone()]);
    assert_eq!(found, Ok(Some(node_id)));
    assert_eq!(
        hosted_node(&stranger, host.public_key(), &vec![event.clone()]),
        Err("decrypting pairwise hosting record".to_string())
    );

    // The newest event counts, whatever the order.
    let later = node();
    let newer = hosting_event(&host, peer.public_key(), &later, 1_700_000_001).unwrap();
    let both = vec![newer.clone(), event.clone(), "no event".to_string()];
    assert_eq!(hosted_node(&peer, host.public_key(), &both), Ok(Some(later)));
    assert_eq!(hosted_node(&peer, host.public_key(), &Vec::new()), Ok(None));

    // A changed event is not believed.
    let forged = event.replace("1700000000", "1700000009");
    assert_eq!(
        hosted_node(&peer, host.public_key(), &vec![forged]),
        Err("hosting record signature is invalid".to_string())
    );
}

#[test]
fn events_name_their_kind_pair_and_expiry() {
    let host = Identity::generate();
    let peer = Identity::generate();
    let json = hosting_event(&host, peer.public_key(), &node(), 1_700_000_000).unwrap();
    let event = nostr_sdk::Event::from_json(&json).unwrap();
    assert_eq!(event.kind.as_u16(), HOSTING_KIND);
    assert_eq!(event.created_at.as_secs(), 1_700_000_000);
    assert_eq!(event.tags.expiration().map(|t| t.as_secs()), Some(1_700_000_300));
    assert_eq!(
        event.tags.identifier(),
        Some(pair_dtag(host.public_key(), peer.public_key()).as_str())
    );
    assert_eq!(
        event.tags.public_keys().map(|k| k.to_bytes()).collect::<Vec<_>>(),
        vec![peer.public_key().bytes]
    );
    assert!(hosting_event(&host, PublicKey { bytes: [0xff; 32] }, &node(), 0).is_err());
}

#[test]
fn a_record_that_is_no_record_is_an_error_and_a_later_version_is_not() {
    let keys = Keys::generate();
    let mut secret = [0u8; 32];
    secret.copy_from_slice(&keys.secret_key().to_secret_bytes());
    let host = Identity::from_secret(&secret).unwrap();
    let peer = Identity::generate();
    let event = |text: &str| {
        EventBuilder::new(
            Kind::from_u16(HOSTING_KIND),
            host.seal_for(peer.public_key(), text).unwrap(),
        )
        .custom_created_at(Timestamp::from_secs(5))
        .sign_with_keys(&keys)
        .unwrap()
        .as_json()
    };
    let look = |text: &str| hosted_node(&peer, host.public_key(), &vec![event(text)]);
    assert_eq!(look("{}"), Err("hosting record payload is invalid".to_string()));
    assert_eq!(look("{\"version\":2,\"node_id\":\"x\"}"), Ok(None));
    assert_eq!(look("{\"version\":1,\"node_id\":\"x\"}"), Ok(None));
}

#[test]
fn relay_counts_are_judged() {
    assert_eq!(DEFAULT_NOSTR_RELAYS[0], "wss://nos.lol");
    assert!(relays_usable(3, 1).is_ok());
    assert_eq!(
        relays_usable(3, 0),
        Err("no usable nostr relays among 3 configured".to_string())
    );
    assert!(relays_connected(3, 2).is_ok());
    assert_eq!(
        relays_connected(3, 0),
        Err("could not connect to any of 3 nostr relays within 10s".to_string())
    );
    assert!(publish_outcome(&vec![true, true]).is_ok());
    assert_eq!(
        publish_outcome(&vec![true, false]),
        Err("publishing pairwise hosting record".to_string())
    );
}

#[test]
fn a_pin_record_is_read_under_its_own_key_only() {
    let node_id = node();
    let keys = pin_keys(&[7; 32]).ok().unwrap();
    let content = encrypt_pin_payload(&keys, &node_id).unwrap();
    assert!(!content.contains(&node_id.to_text()));
    assert_eq!(decrypt_pin_payload(&keys, &content), Some(node_id));
    let wrong = pin_keys(&[8; 32]).ok().unwrap();
    assert_eq!(decrypt_pin_payload(&wrong, &content), None);
    assert_eq!(decrypt_pin_payload(&keys, "nothing"), None);
    assert_eq!(pin_keys(&[0; 32]).err().unwrap(), "deriving record key from PIN");

    assert_eq!(candidate_buckets(9), [9, 8, 10]);
    assert_eq!(candidate_buckets(0), [0, u64::MAX, 1]);
    let candidates = vec![wrong, keys];
    assert_eq!(try_candidates(&candidates, &content), Some(node_id));
    assert_eq!(try_candidates(&Vec::new(), &content), None);
}

#[test]
fn lan_instance_name_is_deterministic_and_a_valid_label() {
    let key = Identity::generate().public_key();
    let a = instance_name(&key);
    assert_eq!(a, instance_name(&key));
    assert_eq!(a.len(), 32);
    assert!(a.len() <= 63, "must fit a DNS label");
    assert!(a.chars().all(|c| c.is_ascii_hexdigit()));
    assert_ne!(a, instance_name(&Identity::generate().public_key()));
}

#[test]
fn mod_instance_name_is_deterministic_and_a_valid_label() {
    let key = Identity::generate().public_key();
    let a = instance_name(&key);
    assert_eq!(a, instance_name(&key));
    assert_eq!(a.len(), 32);
    assert!(a.len() <= 63, "must fit a DNS label");
    assert!(a.chars().all(|c| c.is_ascii_hexdigit()));
    assert_ne!(a, instance_name(&Identity::generate().public_key()));
    assert_eq!(a, key.to_hex()[..32]);
}

#[test]
fn lan_record_fits_one_txt_attribute() {
    let keys = Identity::generate();
    let content = encrypt_pin_payload(&keys, &node()).unwrap();
    assert!(
        TXT_KEY.len() + content.len() < 254,
        "TXT attribute too long: {}",
        TXT_KEY.len() + content.len()
    );
}

#[test]
fn mod_record_fits_one_txt_attribute() {
    let keys = Identity::generate();
    let content = encrypt_pin_payload(&keys, &node()).unwrap();
    assert!(
        TXT_KEY.len() + content.len() < 254,
        "TXT attribute too long: {}",
        TXT_KEY.len() + content.len()
    );
    assert_eq!(content.len(), SEALED_RECORD_CHARS);
    let mut buf = Vec::new();
    assert!(push_txt(&mut buf, TXT_KEY, &content).is_ok());

    let host = Identity::generate();
    let hosting = encrypt(&host, keys.public_key(), &node()).unwrap();
    assert_eq!(hosting.len(), SEALED_RECORD_CHARS);
    for n in [1, 32, 33, 64, 65, 255, 256] {
        let sealed = host.seal_for(keys.public_key(), &"x".repeat(n)).unwrap();
        assert_eq!(sealed.len(), (67 + 32 * ((n + 31) / 32) + 2) / 3 * 4);
        assert!(sealed.is_ascii());
    }
}

#[test]
fn ports_split_and_reassemble_per_family() {
    let a = SocketAddr::new(v4(192, 168, 1, 9), 4433);
    let b = SocketAddr::new(v6(DOCUMENTATION), 4444);

    assert_eq!(split_ports(&vec![]), None);
    assert_eq!(split_ports(&vec![a]), Some((4433, None)));
    assert_eq!(split_ports(&vec![b]), Some((4444, None)));
    assert_eq!(split_ports(&vec![a, b]), Some((4433, Some(4444))));
    let b_same = SocketAddr::new(v6(DOCUMENTATION), 4433);
    assert_eq!(split_ports(&vec![a, b_same]), Some((4433, None)));

    let ips = vec![v4(192, 168, 1, 9), v6(DOCUMENTATION), v6(LINK_LOCAL)];
    assert_eq!(assemble_addrs(&ips, 4433, Some(4444)), vec![a, b]);
    assert_eq!(assemble_addrs(&ips[1..2].to_vec(), 4433, None), vec![b_same]);
}

#[test]
fn side_channel_ports_are_ephemeral_and_key_bound() {
    assert_eq!(port_from_digest(&[0, 0]), 49152);
    assert_eq!(port_from_digest(&[0x3f, 0xff]), 65535);
    assert_eq!(port_from_digest(&[0x40, 0x01]), 49153);
    let key = PublicKey { bytes: [3; 32] };
    assert!(side_channel_port(&key) >= EPHEMERAL_START);
    assert_eq!(side_channel_port(&key), side_channel_port(&key));
    let public = SocketAddr::new(v4(8, 8, 8, 8), 1);
    let private = SocketAddr::new(v4(172, 20, 0, 4), 1);
    assert_eq!(preferred_lan_ipv4(&vec![public, private]), Some(Ipv4Addr::new(172, 20, 0, 4)));
    assert_eq!(preferred_lan_ipv4(&vec![public]), None);
}

#[test]
fn txt_records_hold_length_prefixed_attributes() {
    let mut buf = Vec::new();
    push_txt(&mut buf, "e", "abc").unwrap();
    push_txt(&mut buf, "p6", "4444").unwrap();
    assert_eq!(buf, b"\x05e=abc\x07p6=4444".to_vec());
    let list = parse_txt(&buf);
    assert_eq!(attribute(&list, "e").as_deref(), Some("abc"));
    assert_eq!(attribute(&list, "p6").as_deref(), Some("4444"));
    assert_eq!(attribute(&list, "x"), None);
    assert_eq!(txt_record(&list), Ok(buf.clone()));

    // Too long, and nothing is written.
    assert!(push_txt(&mut buf, "e", &"x".repeat(253)).is_ok());
    let before = buf.clone();
    assert_eq!(
        push_txt(&mut buf, "e", &"x".repeat(254)).unwrap_err(),
        "rendezvous record does not fit a TXT attribute"
    );
    assert_eq!(buf, before);
}

#[test]
fn txt_reading_passes_over_what_is_no_attribute() {
    // An entry without an equals sign, one that is no text, a repeated key, an empty
    // value, and an entry that is cut off.
    let data = b"\x02ab\x03e=\xff\x03e=1\x03e=2\x02k=\x09e=tail";
    let list = parse_txt(data);
    assert_eq!(
        list,
        vec![
            ("e".to_string(), "1".to_string()),
            ("e".to_string(), "2".to_string()),
            ("k".to_string(), "".to_string())
        ]
    );
    assert_eq!(attribute(&list, "e").as_deref(), Some("2"));
    // An empty entry ends the record.
    assert!(parse_txt(b"\x00\x03e=1").is_empty());
}

#[test]
fn service_types_and_names_come_apart() {
    assert_eq!(
        split_service_type("_duocb-pin._udp.local."),
        Ok(("_duocb-pin._udp".to_string(), "local.".to_string()))
    );
    assert_eq!(
        split_service_type("local.."),
        Err("service type has no domain label".to_string())
    );
    assert_eq!(
        instance_in("ABC1._duocb-pin._udp.local.", DNSSD_SERVICE_TYPE).as_deref(),
        Some("abc1")
    );
    assert_eq!(instance_in("abc1._other._udp.local.", DNSSD_SERVICE_TYPE), None);
    assert_eq!(instance_in("short", DNSSD_SERVICE_TYPE), None);
}

#[test]
fn adverts_carry_ports_addresses_and_a_host() {
    let a = SocketAddr::new(v4(192, 168, 1, 9), 4433);
    let b = SocketAddr::new(v6(DOCUMENTATION), 4444);
    let advert = dnssd_advert("label", "content", &vec![b, a, a]).ok().unwrap();
    assert_eq!(advert.srv_port, 4433);
    assert_eq!(
        advert.attributes,
        vec![
            ("e".to_string(), "content".to_string()),
            ("p6".to_string(), "4444".to_string())
        ]
    );
    assert_eq!(advert.ips, vec![a.ip, b.ip]);
    assert_eq!(advert.host, "label.local.");
    let list = parse_txt(&txt_record(&advert.attributes).unwrap());
    let resolved = read_resolved(
        DNSSD_SERVICE_TYPE,
        "label._duocb-pin._udp.local.",
        attribute(&list, "e"),
        attribute(&list, "p6"),
    )
    .unwrap();
    assert_eq!(resolved.instance, "label");
    assert_eq!(resolved.content, "content");
    assert_eq!(resolved.port6, Some(4444));
    assert_eq!(
        dnssd_advert("label", "content", &Vec::new()).err().unwrap(),
        "endpoint has no direct addresses to advertise"
    );
}

#[test]
fn resolved_services_are_recognised_by_label_and_key() {
    let node_id = node();
    let current = Identity::generate();
    let previous = Identity::generate();
    let content = encrypt_pin_payload(&previous, &node_id).unwrap();
    let label = instance_name(&previous.public_key());
    let candidates = vec![current, previous];
    assert_eq!(decode_pin_record(&candidates, &label, &content), Some(node_id));
    let other = instance_name(&candidates[0].public_key());
    assert_eq!(decode_pin_record(&candidates, &other, &content), None);
    assert_eq!(decode_pin_record(&candidates, "elsewhere", &content), None);

    let host = Identity::generate();
    let peer = Identity::generate();
    let content = encrypt(&host, peer.public_key(), &node_id).unwrap();
    let label = lan_instance(host.public_key(), peer.public_key());
    assert_eq!(decode_hosting_record(&peer, host.public_key(), &label, &content), Some(node_id));
    assert_eq!(decode_hosting_record(&peer, host.public_key(), "other", &content), None);
    assert_eq!(
        decode_hosting_record(&Identity::generate(), host.public_key(), &label, &content),
        None
    );

    let resolved = read_resolved(
        DNSSD_SERVICE_TYPE,
        "Ab._duocb-pin._udp.local.",
        Some("c".to_string()),
        Some("+4444".to_string()),
    )
    .unwrap();
    assert_eq!((resolved.instance.as_str(), resolved.content.as_str()), ("ab", "c"));
    assert_eq!(resolved.port6, Some(4444));
    assert!(read_resolved(DNSSD_SERVICE_TYPE, "ab", Some("c".to_string()), None).is_none());
    assert!(read_resolved(DNSSD_SERVICE_TYPE, "ab._duocb-pin._udp.local.", None, None).is_none());
    let bad = read_resolved(
        DNSSD_SERVICE_TYPE,
        "ab._duocb-pin._udp.local.",
        Some("c".to_string()),
        Some("65536".to_string()),
    );
    assert_eq!(bad.unwrap().port6, None);

    let found = hit(node_id, &vec![v4(10, 0, 0, 1)], 9, None);
    assert_eq!(found.addrs, vec![SocketAddr::new(v4(10, 0, 0, 1), 9)]);
    assert!(dialable_hit(node_id, &vec![v6(LINK_LOCAL)], 9, None).is_none());
    assert!(dialable_hit(node_id, &vec![v4(10, 0, 0, 1)], 9, None).is_some());
}

#[test]
fn a_browse_resolves_each_name_once() {
    let mut browse = Browse::new();
    browse.report(0, FLAG_ADD, "One".to_string());
    browse.report(0, FLAG_ADD, "One".to_string());
    browse.report(0, 0, "Gone".to_string());
    browse.report(-1, FLAG_ADD, "Bad".to_string());
    browse.report(0, FLAG_ADD | FLAG_MORE_COMING, "Two".to_string());

    assert_eq!(browse.next_name().as_deref(), Some("One"));
    let one = browse.resolve_started("One");
    assert_eq!(browse.next_name().as_deref(), Some("Two"));
    let two = browse.resolve_started("Two");
    assert_eq!(browse.next_name(), None);
    assert_eq!((one, two), (0, 1));
    assert!(browse.take_answers().is_empty());

    let delivered = |attributes: Vec<(String, String)>| Delivered {
        host: "host.local.".to_string(),
        srv_port: 7,
        attributes,
    };
    browse.deliver(one, delivered(vec![("x".to_string(), "y".to_string())]));
    browse.deliver(
        two,
        delivered(vec![
            ("e".to_string(), "record".to_string()),
            ("p6".to_string(), "8".to_string()),
        ]),
    );
    let answers = browse.take_answers();
    assert_eq!(answers.len(), 1);
    assert_eq!(answers[0].instance, "two");
    assert_eq!(answers[0].content, "record");
    assert_eq!((answers[0].srv_port, answers[0].port6), (7, Some(8)));
    assert!(browse.take_answers().is_empty());
}

#[test]
fn addresses_are_collected_for_a_short_grace() {
    let mut collector = AddrCollector::new();
    assert_eq!(collector.window_after(5000, 1000), 5000);
    collector.callback(0, FLAG_ADD | FLAG_MORE_COMING, Some(v4(10, 0, 0, 1)));
    collector.callback(0, FLAG_MORE_COMING, Some(v4(10, 0, 0, 2)));
    assert!(!collector.is_complete());
    assert_eq!(collector.window_after(5000, 1000), 1000 + ADDR_GRACE_MS);
    assert_eq!(collector.window_after(1200, 1000), 1200);
    collector.callback(0, 0, None);
    assert!(collector.is_complete());
    assert_eq!(collector.ips, vec![v4(10, 0, 0, 1)]);

    assert_eq!(register_verdict(None), RegisterVerdict::Live);
    assert_eq!(register_verdict(Some(0)), RegisterVerdict::Live);
    assert_eq!(register_verdict(Some(ERR_POLICY_DENIED)), RegisterVerdict::Denied);
    assert_eq!(register_verdict(Some(-3)), RegisterVerdict::Failed(-3));
}

#[test]
fn a_served_record_reaches_the_joiner_with_its_addresses() {
    let node_id = node();
    let keys = pin_keys(&[5; 32]).ok().unwrap();
    let addrs = vec!["192.168.1.9:4433".to_string(), "[2001:db8::7]:4444".to_string()];
    let bytes = served_record(&keys, &node_id, &addrs).unwrap();
    let candidates = vec![keys, pin_keys(&[6; 32]).ok().unwrap()];
    assert_eq!(read_served(&candidates, &bytes), Some((node_id, addrs.clone())));

    let json: serde_json::Value = serde_json::from_slice(&bytes).unwrap();
    assert_eq!(json["addrs"][1], "[2001:db8::7]:4444");

    let others = vec![pin_keys(&[9; 32]).ok().unwrap()];
    assert_eq!(read_served(&others, &bytes), None);
    assert_eq!(read_served(&candidates, b"{\"e\":\"x\"}"), None);
    assert_eq!(read_served(&candidates, b"{\"e\":\"x\",\"addrs\":[1]}"), None);
    assert_eq!(read_served(&candidates, &vec![b' '; MAX_RECORD_BYTES + 1]), None);

    let many = vec!["a".repeat(100); 100];
    let error = served_record(&candidates[0], &node_id, &many).unwrap_err();
    assert!(error.starts_with("unicast PIN record too large: "), "{error}");
    assert_eq!(served_record(&candidates[0], &node_id, &Vec::new()).unwrap().len(), 239);
}
