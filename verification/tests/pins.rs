use duocb::addr::{IpAddr, Ipv4Addr, Ipv6Addr, SocketAddr};
use duocb::manual_code::{decode, encode, settle};
use duocb::net::claim::RecentPins;
use duocb::node::NodeId;
use duocb::pin::format_pin;
use duocb::pin_auth::{
    confirm_mac, DialerHandshake, Direction, ListenerHandshake, PinPassword, SlotVerdict,
    PAKE_SLOTS,
};

const SECRET: &str = "K7P29QXM";

const V4: &str = "192.168.1.10:4433";
const V6: &str = "[2001:db8::1]:4433";

fn node() -> NodeId {
    NodeId::parse(&iroh_base::SecretKey::generate().public().to_string()).unwrap()
}

fn addr_of(text: &str) -> Option<SocketAddr> {
    match text {
        V4 => Some(SocketAddr::new(IpAddr::V4(Ipv4Addr::new(192, 168, 1, 10)), 4433)),
        V6 => Some(SocketAddr::new(
            IpAddr::V6(Ipv6Addr { number: 0x2001_0db8_0000_0000_0000_0000_0000_0001 }),
            4433,
        )),
        _ => None,
    }
}

fn test_addrs() -> Vec<String> {
    vec![V4.to_string(), V6.to_string()]
}

fn read(input: &str) -> Option<(String, String, Vec<SocketAddr>)> {
    let code = decode(input)?;
    let secret = if code.secret == SECRET { Some(SECRET.to_string()) } else { None };
    let addrs = code.addrs.iter().map(|a| addr_of(a)).collect::<Vec<_>>();
    settle(&code, secret, &addrs)
}

#[test]
fn code_round_trips_and_tolerates_formatting() {
    let node_id = node();
    let code = encode(&node_id, SECRET, &test_addrs());

    let (got_id, got_secret, got_addrs) = read(&code).expect("own code must decode");
    assert_eq!(got_id, node_id.to_text());
    assert_eq!(got_secret, SECRET);
    assert_eq!(got_addrs, vec![addr_of(V4).unwrap(), addr_of(V6).unwrap()]);

    // Pastes survive extra whitespace, dropped dashes, and case changes.
    let mangled = format!(" {} \n", code.to_ascii_uppercase().replace('-', " "));
    assert_eq!(read(&mangled), Some((got_id, got_secret, got_addrs)));
}

#[test]
fn formatting_of_a_code_does_not_count() {
    let code = encode(&node(), SECRET, &test_addrs());
    let plain = read(&code);
    let spaced: String = code.chars().flat_map(|c| [c, ' ']).collect();
    assert_eq!(read(&spaced), plain);
    assert_eq!(read(&code.replacen('-', "", 1)), plain);
    assert_eq!(read(&code.to_ascii_uppercase()), plain);
    assert_ne!(read(&code.replace('@', "")), plain);
}

#[test]
fn a_code_is_settled_with_all_its_addresses_or_not_at_all() {
    let code = decode(&encode(&node(), SECRET, &test_addrs())).unwrap();
    let (v4, v6) = (addr_of(V4), addr_of(V6));
    let secret = || Some(SECRET.to_string());
    let whole = settle(&code, secret(), &vec![v4, v6]).unwrap();
    assert_eq!(whole.2, vec![v4.unwrap(), v6.unwrap()]);
    assert!(settle(&code, secret(), &vec![v4]).is_none(), "an address is lost");
    assert!(settle(&code, secret(), &vec![v4, None]).is_none());
    assert!(settle(&code, None, &vec![v4, v6]).is_none());
}

#[test]
fn addressless_code_round_trips() {
    let node_id = node();
    let code = encode(&node_id, SECRET, &Vec::new());
    assert!(!code.contains('@'), "no addrs, no @ part: {code}");
    let (got_id, got_secret, got_addrs) = read(&code).expect("own code must decode");
    assert_eq!(got_id, node_id.to_text());
    assert_eq!(got_secret, SECRET);
    assert!(got_addrs.is_empty());
}

#[test]
fn truncated_or_mistyped_codes_are_rejected() {
    let node_id = node();
    let code = encode(&node_id, SECRET, &test_addrs());

    // Missing tail characters (a partial copy, which clips the last address).
    assert_eq!(read(&code[..code.len() - 2]), None);
    // Node id alone.
    assert_eq!(read(&node_id.to_text()), None);
    // A mangled address.
    assert_eq!(read(&format!("{code},not-an-addr")), None);
    // A flipped secret character.
    let addrless = encode(&node_id, SECRET, &Vec::new());
    let mut chars: Vec<char> = addrless.chars().collect();
    let last = chars.len() - 1;
    chars[last] = if chars[last] == '2' { '3' } else { '2' };
    let flipped: String = chars.into_iter().collect();
    assert_eq!(read(&flipped), None);
    assert_eq!(read(""), None);
}

#[test]
fn a_code_has_its_exact_form() {
    let node_id = node();
    let code = encode(&node_id, SECRET, &vec![V4.to_string()]);
    let sum = crc32fast::hash(V4.as_bytes());
    assert_eq!(code, format!("{}-K7P2-9QXM@{V4}!{sum:08x}", node_id.to_text()));
    assert_eq!(format_pin(SECRET), "K7P2-9QXM");

    // The checksum is right, but what it covers is no address.
    let junk = encode(&node_id, SECRET, &vec!["not-an-addr".to_string()]);
    assert!(decode(&junk).is_some());
    assert_eq!(read(&junk), None);
    // A clipped port is still a port, but the checksum tells.
    assert!(decode(&code.replace(":4433", ":443")).is_none());
}

#[test]
fn recent_pin_cache_keeps_only_current_and_previous() {
    let mut recent: RecentPins<[u8; 32]> = RecentPins::new();
    let expired = [1u8; 32];
    let previous = [2u8; 32];
    let current = [3u8; 32];

    recent.push(expired);
    recent.push(previous);
    recent.push(current);

    assert_eq!(*recent.snapshot(), vec![current, previous]);
    recent.clear();
    assert!(recent.snapshot().is_empty());
}

#[test]
fn confirm_mac_separates_direction_slot_and_ids() {
    let key = [7u8; 32];
    let base = confirm_mac(&key, Direction::Dialer, 0, "id-d", "id-l");
    assert_eq!(base, confirm_mac(&key, Direction::Dialer, 0, "id-d", "id-l"));
    assert_ne!(base, confirm_mac(&key, Direction::Listener, 0, "id-d", "id-l"));
    assert_ne!(base, confirm_mac(&key, Direction::Dialer, 1, "id-d", "id-l"));
    assert_ne!(base, confirm_mac(&key, Direction::Dialer, 0, "other", "id-l"));
    assert_ne!(base, confirm_mac(&key, Direction::Dialer, 0, "id-d", "other"));
    assert_ne!(base, confirm_mac(&[8u8; 32], Direction::Dialer, 0, "id-d", "id-l"));
}

const ID_D: &str = "dialer-node-id";
const ID_L: &str = "listener-node-id";

fn run_handshake_with_ids(
    dialer_pin: &PinPassword,
    listener_pins: &[PinPassword],
    dialer_ids: (&str, &str),
    listener_ids: (&str, &str),
    commit: bool,
) -> (Result<(), String>, Result<(), String>) {
    let (dialer, pakes) = DialerHandshake::open(dialer_pin, dialer_ids.0, dialer_ids.1);
    let candidates = listener_pins.to_vec();
    let (listener, answers) =
        match ListenerHandshake::challenge(&candidates, &pakes, listener_ids.0, listener_ids.1) {
            Ok(pair) => pair,
            Err(e) => return (Err("cut off".to_string()), Err(e)),
        };
    let (keys, confirms) = match dialer.answer(&answers) {
        Ok(pair) => pair,
        Err(e) => return (Err(e), Err("cut off".to_string())),
    };
    match listener.judge(&confirms, || commit) {
        Ok((verdict, end)) => (keys.conclude(&verdict), end),
        Err(e) => (Err("cut off".to_string()), Err(e)),
    }
}

fn run_handshake(
    dialer_pin: &PinPassword,
    listener_pins: &[PinPassword],
) -> (Result<(), String>, Result<(), String>) {
    run_handshake_with_ids(dialer_pin, listener_pins, (ID_D, ID_L), (ID_D, ID_L), true)
}

#[test]
fn handshake_succeeds_with_matching_pin() {
    let pin = [11u8; 32];
    let (d, l) = run_handshake(&pin, &[pin]);
    assert!(d.is_ok(), "dialer: {d:?}");
    assert!(l.is_ok(), "listener: {l:?}");
}

#[test]
fn handshake_succeeds_when_pin_is_a_recent_bucket() {
    let dialer_pin = [11u8; 32];
    let newer = [12u8; 32];
    let (d, l) = run_handshake(&dialer_pin, &[newer, dialer_pin]);
    assert!(d.is_ok(), "dialer: {d:?}");
    assert!(l.is_ok(), "listener: {l:?}");
}

#[test]
fn handshake_rejects_when_commit_denies() {
    let pin = [11u8; 32];
    let (d, l) = run_handshake_with_ids(&pin, &[pin], (ID_D, ID_L), (ID_D, ID_L), false);
    let err = d.expect_err("dialer must be rejected when the commit is denied");
    assert!(
        err.contains("PIN authentication rejected"),
        "dialer must see an explicit PIN rejection, got: {err}"
    );
    assert!(l.is_err(), "listener must reject when the commit is denied");
}

#[test]
fn handshake_fails_with_wrong_pin() {
    let (d, l) = run_handshake(&[11u8; 32], &[[12u8; 32]]);
    assert!(d.is_err(), "dialer should be rejected");
    assert!(l.is_err(), "listener should reject");
}

#[test]
fn a_dialer_that_proved_nothing_commits_nothing() {
    let (dialer, pakes) = DialerHandshake::open(&[11u8; 32], ID_D, ID_L);
    let (listener, answers) =
        ListenerHandshake::challenge(&vec![[12u8; 32]], &pakes, ID_D, ID_L).ok().unwrap();
    let (_, confirms) = dialer.answer(&answers).ok().unwrap();
    let never = || -> bool { panic!("the claim was asked for") };
    let (verdict, end) = listener.judge(&confirms, never).ok().unwrap();
    assert!(!verdict.accepted && end.is_err());
    assert!(listener.judge(&Vec::new(), never).is_err());
}

#[test]
fn handshake_rejects_cleanly_with_no_candidates() {
    let (d, l) = run_handshake(&[11u8; 32], &[]);
    let err = d.expect_err("dialer must be rejected when no PIN is live");
    assert!(
        err.contains("PIN authentication rejected"),
        "dialer must see an explicit rejection, got: {err}"
    );
    assert!(l.is_err(), "listener must reject with no candidates");
}

#[test]
fn handshake_fails_when_the_dialer_node_id_disagrees() {
    let pin = [11u8; 32];
    let (d, l) = run_handshake_with_ids(
        &pin,
        &[pin],
        (ID_D, ID_L),
        ("some-other-dialer-id", ID_L),
        true,
    );
    assert!(d.is_err(), "dialer must be rejected on a node-id mismatch");
    assert!(l.is_err(), "listener must reject on a node-id mismatch");
}

#[test]
fn handshake_fails_when_the_listener_node_id_disagrees() {
    let pin = [11u8; 32];
    let (d, l) = run_handshake_with_ids(
        &pin,
        &[pin],
        (ID_D, "some-other-listener-id"),
        (ID_D, ID_L),
        true,
    );
    assert!(d.is_err(), "dialer must be rejected on a node-id mismatch");
    assert!(l.is_err(), "listener must reject on a node-id mismatch");
}

#[test]
fn listener_rejects_a_wrong_slot_count() {
    let candidates: Vec<PinPassword> = vec![[11u8; 32]];
    let err = ListenerHandshake::challenge(
        &candidates,
        &vec!["b25seS1vbmU".to_string()],
        ID_D,
        ID_L,
    )
    .err()
    .expect("a short PAKE vector must be refused");
    assert!(err.contains("PAKE messages"), "got: {err}");
}

#[test]
fn each_step_of_the_handshake_refuses_what_is_malformed() {
    let pin = [11u8; 32];
    let good = |n: usize| vec!["AAAA".to_string(); n];

    // The listener: text that is no base64, and bytes that are no exchange message.
    let no_text = vec!["!".to_string(); PAKE_SLOTS];
    assert!(ListenerHandshake::challenge(&vec![pin], &no_text, ID_D, ID_L).is_err());
    assert!(ListenerHandshake::challenge(&vec![pin], &good(PAKE_SLOTS), ID_D, ID_L).is_err());

    // The dialer: a wrong number of answers, and answers that are none.
    let (dialer, _) = DialerHandshake::open(&pin, ID_D, ID_L);
    assert!(dialer.answer(&good(PAKE_SLOTS + 1)).is_err());
    let (dialer, _) = DialerHandshake::open(&pin, ID_D, ID_L);
    assert!(dialer.answer(&no_text).is_err());

    // The listener again: a wrong number of confirmations. Ones that are none match no slot.
    let (dialer, pakes) = DialerHandshake::open(&pin, ID_D, ID_L);
    let (listener, answers) =
        ListenerHandshake::challenge(&vec![pin], &pakes, ID_D, ID_L).ok().unwrap();
    assert!(listener.matched(&good(PAKE_SLOTS - 1)).is_err());
    assert_eq!(listener.matched(&no_text), Ok(None));
    assert_eq!(listener.matched(&good(PAKE_SLOTS)), Ok(None));

    // The dialer: a slot beyond the last, no slot, and a confirmation of its own.
    let (keys, confirms) = dialer.answer(&answers).ok().unwrap();
    assert_eq!(listener.matched(&confirms), Ok(Some(0)));
    let verdict = |slot: Option<usize>, confirm: Option<String>| SlotVerdict {
        accepted: true,
        reason: None,
        slot,
        confirm,
    };
    assert!(keys.conclude(&verdict(Some(PAKE_SLOTS), Some(confirms[0].clone()))).is_err());
    assert!(keys.conclude(&verdict(None, Some(confirms[0].clone()))).is_err());
    assert!(keys.conclude(&verdict(Some(0), None)).is_err());
    assert!(keys.conclude(&verdict(Some(0), Some(confirms[0].clone()))).is_err());
    let (honest, end) = listener.verdict(Some(0), true);
    assert!(end.is_ok());
    assert!(keys.conclude(&honest).is_ok());
}
