use duocb::addr::{IpAddr, Ipv4Addr};
use duocb::auth::{unix_now, Identity, IdentityCard};
use duocb::bridge::{
    create_identity_card, event_json, event_json_at, identity_card_info, identity_card_json,
    identity_fingerprint, identity_public_key, join_ip_context, resolve_join_ip,
    validate_device_name, validate_identity, validate_identity_card, write_cstr, write_result,
    EventOutbox,
};
use duocb::net::{ConnStatus, DialSpec, NetEvent, ServerMode, SignalChannel, UiCommand};
use duocb::start_plan::{build_start_plan, Role, StartConfig, StartPlan};
use duocb::subnet::{Ipv4Subnet, JoinIpConstraint};

const PIN: &str = "K7P29QXM";

fn identity_with_card() -> (String, String) {
    let identity = Identity::generate();
    let card = identity.card("mac-book", "a7B2c3D4").unwrap();
    (identity.to_nsec(), card.encode())
}

fn config(role: Role) -> StartConfig {
    StartConfig {
        role,
        identity_secret: None,
        self_card: None,
        peers: Vec::new(),
        peer_public_key: None,
        pin: None,
        ip: None,
        channel: None,
        relays: Vec::new(),
    }
}

fn build(cfg: StartConfig) -> Result<StartPlan, String> {
    let pin = cfg.pin.clone();
    build_start_plan(cfg, pin)
}

fn refusal(cfg: StartConfig) -> String {
    build(cfg).err().expect("the configuration must be refused")
}

#[test]
fn start_maps_to_a_key_server_on_the_default_channel() {
    let (nsec, card) = identity_with_card();
    let mut cfg = config(Role::Start);
    cfg.identity_secret = Some(nsec);
    cfg.self_card = Some(card);
    let resolved = build(cfg).ok().expect("valid start config");
    match resolved.session_cmd {
        UiCommand::StartServer { mode: ServerMode::Key { channel, identity } } => {
            assert_eq!(channel, SignalChannel::LanThenNostr);
            assert_eq!(identity.relays[0], "wss://nos.lol");
        }
        _ => panic!("unexpected command"),
    }
    assert!(matches!(resolved.disconnect_cmd, UiCommand::StopServer));
}

#[test]
fn join_resolves_the_selected_peer_and_rejects_a_stranger() {
    let (nsec, card) = identity_with_card();
    let peer = Identity::generate();
    let peer_card = peer.card("pixel", "9zKtm4Qp").unwrap();
    let with_key = |key: String| {
        let mut cfg = config(Role::Join);
        cfg.identity_secret = Some(nsec.clone());
        cfg.self_card = Some(card.clone());
        cfg.peers = vec![peer_card.encode()];
        cfg.peer_public_key = Some(key);
        cfg
    };

    let resolved =
        build(with_key(peer.public_key().to_hex())).ok().expect("hex public key selects the peer");
    match resolved.session_cmd {
        UiCommand::Connect { spec: DialSpec::Key { peer_public_key, .. } } => {
            assert_eq!(peer_public_key, peer.public_key())
        }
        _ => panic!("unexpected command"),
    }
    assert!(matches!(resolved.disconnect_cmd, UiCommand::Disconnect));

    // The npub form of the same key is accepted too.
    assert!(build(with_key(peer_card.npub())).is_ok(), "npub selects the peer");

    // A key that is not in the local trusted list never dials.
    assert!(refusal(with_key(Identity::generate().public_key().to_hex()))
        .contains("not in the local trusted peer list"));
    assert!(build(with_key("nothing".to_string())).is_err());
}

#[test]
fn a_self_card_signed_by_another_key_is_refused() {
    let (nsec, _) = identity_with_card();
    let other_card = Identity::generate().card("pixel", "9zKtm4Qp").unwrap();
    let mut cfg = config(Role::Start);
    cfg.identity_secret = Some(nsec);
    cfg.self_card = Some(other_card.encode());
    assert!(refusal(cfg).contains("not signed by identity_secret"));
}

#[test]
fn card_setup_roles_are_identity_less() {
    let (nsec, card) = identity_with_card();

    let mut cfg = config(Role::CardHost);
    cfg.self_card = Some(card.clone());
    let resolved = build(cfg).ok().expect("valid card_host config");
    assert!(matches!(
        resolved.session_cmd,
        UiCommand::StartServer { mode: ServerMode::CardSetup { .. } }
    ));

    let mut cfg = config(Role::CardHost);
    cfg.self_card = Some(card);
    cfg.identity_secret = Some(nsec);
    assert!(refusal(cfg).contains("card setup accepts only"));
}

#[test]
fn card_join_takes_a_pin_that_passed_its_check() {
    let (_, card) = identity_with_card();
    let mut cfg = config(Role::CardJoin);
    cfg.self_card = Some(card.clone());
    cfg.pin = Some("k7p2-9qxm".to_string());
    let plan = build_start_plan(cfg, Some(PIN.to_string())).ok().expect("valid PIN");
    match plan.session_cmd {
        UiCommand::Connect { spec: DialSpec::CardSetup { canonical_pin, target_ip, .. } } => {
            assert_eq!(canonical_pin, PIN);
            assert!(target_ip.is_none(), "no ip given: browse");
        }
        _ => panic!("unexpected command"),
    }

    let mut cfg = config(Role::CardJoin);
    cfg.self_card = Some(card);
    cfg.pin = Some("k7p2-9qxx".to_string());
    assert!(build_start_plan(cfg, None).err().unwrap().contains("invalid PIN"));
}

#[test]
fn a_host_ip_needs_a_lan_channel() {
    let (_, card) = identity_with_card();
    let cfg = |channel: SignalChannel| {
        let mut cfg = config(Role::CardJoin);
        cfg.self_card = Some(card.clone());
        cfg.pin = Some(PIN.to_string());
        cfg.ip = Some("192.168.1.42".to_string());
        cfg.channel = Some(channel);
        cfg
    };
    match build(cfg(SignalChannel::LanOnly)).ok().expect("lan_only accepts an ip").session_cmd {
        UiCommand::Connect { spec: DialSpec::CardSetup { target_ip, .. } } => {
            assert_eq!(target_ip, Some(IpAddr::V4(Ipv4Addr::new(192, 168, 1, 42))))
        }
        _ => panic!("unexpected command"),
    }
    assert!(refusal(cfg(SignalChannel::NostrOnly))
        .contains("needs a channel that uses the local network"));
}

#[test]
fn cross_role_fields_are_rejected_rather_than_ignored() {
    let (nsec, card) = identity_with_card();
    let mut cfg = config(Role::Start);
    cfg.identity_secret = Some(nsec);
    cfg.self_card = Some(card.clone());
    cfg.pin = Some("K7P29QXM".to_string());
    assert!(refusal(cfg).contains("only valid for the card_join role"));

    let mut cfg = config(Role::CardHost);
    cfg.self_card = Some(card);
    cfg.ip = Some("192.168.1.9".to_string());
    assert!(refusal(cfg).contains("only valid for the card_join role"));
}

#[test]
fn card_info_reports_fingerprint_and_a_live_expiry() {
    let identity = Identity::generate();
    let card = identity.card("mac-book", "a7B2c3D4").unwrap();
    let info: serde_json::Value =
        serde_json::from_str(&identity_card_json(&card, unix_now())).unwrap();
    assert_eq!(info["name"], "mac-book_a7B2c3D4");
    assert_eq!(info["fingerprint"], card.fingerprint());
    assert_eq!(info["expired"], false);
    assert_eq!(info["needs_renewal"], false);
}

#[test]
fn a_card_reports_its_age_exactly() {
    let card = Identity::generate().card_issued_at("pixel", "9zKtm4Qp", 1_700_000_000).unwrap();
    let at = |now: u64| -> serde_json::Value {
        serde_json::from_str(&identity_card_json(&card, now)).unwrap()
    };
    let end = card.expires_at();
    assert_eq!(at(end)["expired"], true);
    assert_eq!(at(end)["remaining_secs"], 0);
    assert_eq!(at(end - 1)["expired"], false);
    assert_eq!(at(end - 1)["remaining_secs"], 1);
    assert_eq!(at(end - 1)["needs_renewal"], true);
    assert_eq!(at(1_700_000_000)["created_at"], 1_700_000_000u64);
    assert_eq!(at(1_700_000_000)["npub"], card.npub());
}

#[test]
fn event_json_maps_the_card_setup_events() {
    let card = Identity::generate().card("pixel", "9zKtm4Qp").unwrap();
    let text = card.encode();
    let fingerprint = card.fingerprint();
    let json: serde_json::Value =
        serde_json::from_str(&event_json(&NetEvent::PeerCardReceived(Box::new(card)))).unwrap();
    assert_eq!(json["type"], "peer_card_received");
    assert_eq!(json["card"], text);
    assert_eq!(json["info"]["fingerprint"], fingerprint);

    let json: serde_json::Value = serde_json::from_str(&event_json(&NetEvent::PinRotated {
        pin_display: "K7P2-9QXM".into(),
        seconds_left: 42,
        host_lan_ip: Some("192.168.1.9".into()),
    }))
    .unwrap();
    assert_eq!(json["type"], "pin_rotated");
    assert_eq!(json["seconds_left"], 42);
    assert_eq!(json["host_lan_ip"], "192.168.1.9");

    let json: serde_json::Value = serde_json::from_str(&event_json(&NetEvent::Status(
        ConnStatus::Reconnecting { attempt: 3, max: 10 },
    )))
    .unwrap();
    assert_eq!(json["state"], "reconnecting");
    assert_eq!(json["attempt"], 3);
    assert_eq!(json["max"], 10);
}

#[test]
fn events_escape_what_the_user_typed() {
    let event = NetEvent::ItemReceived { text: "a\"b\\c\n\u{1}é".into(), pulled: true };
    let json: serde_json::Value = serde_json::from_str(&event_json_at(&event, 0)).unwrap();
    assert_eq!(json["text"], "a\"b\\c\n\u{1}é");
    assert_eq!(json["pulled"], true);
}

fn text_in(buf: &[u8]) -> &str {
    let end = buf.iter().position(|b| *b == 0).unwrap();
    std::str::from_utf8(&buf[..end]).unwrap()
}

#[test]
fn write_cstr_truncates_on_utf8_boundaries() {
    let mut buf = vec![0u8; 8];
    assert!(write_cstr(&mut buf, "abc"));
    assert_eq!(text_in(&buf), "abc");

    let mut buf = vec![0u8; 3];
    assert!(!write_cstr(&mut buf, "aéb"));
    assert_eq!(text_in(&buf), "a");
}

#[test]
fn buffers_tell_whether_a_text_fits() {
    let mut exact = vec![9u8; 4];
    assert_eq!(write_result(&mut exact, "abc"), 1);
    assert_eq!(exact, b"abc\0".to_vec());
    let mut small = vec![9u8; 3];
    assert_eq!(write_result(&mut small, "abc"), 0);
    assert_eq!(small, b"ab\0".to_vec());
    let mut none = Vec::new();
    assert_eq!(write_result(&mut none, "abc"), 0);
    let mut wide = vec![9u8; 6];
    assert_eq!(write_result(&mut wide, "abc"), 1);
    assert_eq!(wide, b"abc\0\x09\x09".to_vec());
}

#[test]
fn an_event_that_does_not_fit_is_kept_for_the_next_call() {
    let mut outbox = EventOutbox::new();
    let mut small = vec![0u8; 4];
    assert_eq!(outbox.deliver(None, 0, &mut small), 0);
    assert_eq!(outbox.deliver(Some(NetEvent::PinCleared), 0, &mut small), -2);
    assert!(!outbox.takes_event());
    assert_eq!(outbox.deliver(None, 0, &mut small), -2);
    let mut large = vec![0u8; 64];
    assert_eq!(outbox.deliver(None, 0, &mut large), 1);
    assert_eq!(text_in(&large), "{\"type\":\"pin_cleared\"}");
    assert!(outbox.takes_event());
}

#[test]
fn the_entry_points_answer_in_codes_and_text() {
    let (nsec, card) = identity_with_card();
    let identity = Identity::parse_nsec(&nsec).ok().unwrap();
    let mut err = vec![0u8; 200];
    assert_eq!(validate_identity(&nsec, &mut err), 1);
    assert_eq!(validate_identity("nsec1", &mut err), 0);
    assert!(!text_in(&err).is_empty());
    assert_eq!(validate_device_name("pixel", &mut err), 1);
    assert_eq!(validate_device_name("Not A Name", &mut err), 0);
    assert_eq!(validate_identity_card(&card, &mut err), 1);
    assert_eq!(validate_identity_card("{}", &mut err), 0);

    let mut out = vec![0u8; 200];
    assert_eq!(identity_public_key(&nsec, &mut out), 1);
    assert_eq!(text_in(&out), identity.to_npub());
    assert_eq!(identity_public_key("nothing", &mut out), -1);
    assert_eq!(text_in(&out), identity.to_npub(), "nothing is written on failure");
    assert_eq!(identity_fingerprint(&nsec, &mut out), 1);
    assert_eq!(
        text_in(&out),
        IdentityCard::parse(&card).unwrap().fingerprint()
    );

    let mut out = vec![0u8; 2000];
    assert_eq!(create_identity_card(&nsec, "pixel", "9zKtm4Qp", &mut out), 1);
    let minted = IdentityCard::parse(text_in(&out)).unwrap();
    assert_eq!(minted.name(), "pixel_9zKtm4Qp");
    assert_eq!(minted.public_key(), identity.public_key());
    assert_eq!(create_identity_card(&nsec, "pixel", "short", &mut out), -1);
    assert_eq!(create_identity_card("no", "pixel", "9zKtm4Qp", &mut out), -1);

    assert_eq!(identity_card_info(&card, 0, &mut out), 1);
    let info: serde_json::Value = serde_json::from_str(text_in(&out)).unwrap();
    assert_eq!(info["name"], "mac-book_a7B2c3D4");
    assert_eq!(identity_card_info("{}", 0, &mut out), -1);
}

#[test]
fn the_host_address_entry_is_offered_and_resolved() {
    let on = |prefix_len: u8| {
        let own = Ipv4Addr::new(192, 168, 1, 23);
        JoinIpConstraint::of_subnets(vec![Ipv4Subnet::new(own, prefix_len)])
    };
    let constraint = on(24);
    let mut out = vec![0u8; 300];
    assert_eq!(join_ip_context(&constraint, &mut out), 1);
    let context: serde_json::Value = serde_json::from_str(text_in(&out)).unwrap();
    assert_eq!(context["prefix"], "192.168.1.");
    assert_eq!(context["placeholder"], "last octet");
    assert_eq!(context["hint"], "");
    assert_eq!(context["label"], "192.168.1.0/24");
    assert_eq!(on(20).host_placeholder(), "last 2 octets");
    assert_eq!(on(8).host_placeholder(), "last 3 octets");
    assert_eq!(JoinIpConstraint::unconstrained().host_placeholder(), "");
    assert_eq!(resolve_join_ip(&constraint, "42", &mut out), 1);
    assert_eq!(text_in(&out), "192.168.1.42");
    assert_eq!(resolve_join_ip(&constraint, "10.0.0.1", &mut out), 0);
    assert_eq!(resolve_join_ip(&constraint, "  ", &mut out), 2);
    assert_eq!(resolve_join_ip(&constraint, "x", &mut out), -1);
}

#[test]
fn a_run_of_deliveries_loses_and_reorders_nothing() {
    let sent: Vec<NetEvent> = ["one", "two", "three"]
        .iter()
        .map(|text| NetEvent::Error(text.to_string()))
        .collect();
    let expected: Vec<String> = sent.iter().map(|event| event_json_at(event, 0)).collect();
    let mut queue = sent.into_iter();
    let mut outbox = EventOutbox::new();
    let mut got = Vec::new();
    // Every other buffer is too small.
    for room in [4, 100, 0, 100, 9, 100, 100] {
        let mut buf = vec![0u8; room];
        let event = if outbox.takes_event() { queue.next() } else { None };
        match outbox.deliver(event, 0, &mut buf) {
            1 => got.push(text_in(&buf).to_string()),
            -2 => assert!(!outbox.takes_event()),
            code => assert_eq!(code, 0),
        }
    }
    assert_eq!(got, expected);
    assert!(outbox.takes_event());
}

#[test]
fn a_join_without_an_address_has_no_target() {
    let (_, card) = identity_with_card();
    let plan = |ip: Option<&str>| {
        let cfg = StartConfig {
            role: Role::CardJoin,
            identity_secret: None,
            self_card: Some(card.clone()),
            peers: Vec::new(),
            peer_public_key: None,
            pin: Some(PIN.to_string()),
            ip: ip.map(|ip| ip.to_string()),
            channel: Some(SignalChannel::LanOnly),
            relays: Vec::new(),
        };
        match build_start_plan(cfg, Some(PIN.to_string())).ok().unwrap().session_cmd {
            UiCommand::Connect { spec: DialSpec::CardSetup { target_ip, .. } } => target_ip,
            _ => panic!("a card-setup dial was due"),
        }
    };
    assert_eq!(plan(None), None);
    assert_eq!(plan(Some("10.0.0.7")), Some(IpAddr::V4(Ipv4Addr::new(10, 0, 0, 7))));
}
