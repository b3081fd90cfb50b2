use duocb::addr::{IpAddr, Ipv4Addr, SocketAddr};
use duocb::auth::{unix_now, Identity, IdentityCard, CARD_TTL_SECS};
use duocb::card_exchange::{CardExchange, ExchangeAction, ExchangeEvent, MAX_TRAILING_BYTES};
use duocb::net::actions::Action;
use duocb::net::card_setup::{HostInput, HostLoop, JoinInput, JoinLoop};
use duocb::net::claim::{PairClaim, RecentPins};
use duocb::net::client::{ClientInput, ClientLoop};
use duocb::net::endpoint::{
    describe_path, endpoint_usable, format_paths, paths_key, snapshot_paths, ConnPathKind,
    EndpointReadiness, RawPath,
};
use duocb::net::handshake::{
    accept_proof, admit_key_request, answer_challenge, auth_close_reason, dialer_outcome,
    pin_dialer_allowed, random_nonce, read_verdict, sign_challenge, Handshake, HandshakeEnd,
    Refusal,
};
use duocb::net::listener::{ListenerAction, ListenerAuth, ListenerInput};
use duocb::net::publisher::{HostingPublisher, PeriodEnd, PinPublisher, Published};
use duocb::net::pump::{ClipboardPump, Incoming};
use duocb::net::resolve::{asks_lan, asks_relays, resolve_card_setup, resolve_hosting, Lookup};
use duocb::net::server::{ServerInput, ServerLoop};
use duocb::net::session::{CommandLoop, LoopAction, Runner};
use duocb::net::{
    ConnStatus, DialSpec, EventSender, KeyIdentity, NetEvent, ServerMode, SignalChannel, UiCommand,
};
use duocb::node::NodeId;
use duocb::pin_auth::{DialerHandshake, PinPassword};

fn node() -> NodeId {
    NodeId::parse(&iroh_base::SecretKey::generate().public().to_string()).unwrap()
}

fn copy(identity: &Identity) -> Identity {
    Identity::parse_nsec(&identity.to_nsec()).ok().unwrap()
}

fn key_identity(identity: &Identity, name: &str, peers: Vec<IdentityCard>) -> KeyIdentity {
    KeyIdentity {
        identity: copy(identity),
        self_card: identity.card(name, "a7B2c3D4").unwrap(),
        peers,
        relays: Vec::new(),
    }
}

fn stale_card(identity: &Identity, name: &str, suffix: &str) -> IdentityCard {
    identity.card_issued_at(name, suffix, unix_now() - CARD_TTL_SECS - 1).unwrap()
}

/// A short name for each action, for comparing lists of them.
fn names(actions: &[Action]) -> Vec<String> {
    actions
        .iter()
        .map(|a| match a {
            Action::Emit(NetEvent::Status(s)) => format!("{s:?}"),
            Action::Emit(NetEvent::Error(e)) => format!("error: {e}"),
            Action::Emit(NetEvent::ServerReady { .. }) => "server ready".to_string(),
            Action::Emit(NetEvent::ClientReady { .. }) => "client ready".to_string(),
            Action::Emit(NetEvent::PeerPaired { peer_node_id, .. }) => {
                format!("paired {peer_node_id}")
            }
            Action::Emit(NetEvent::PeerCardReceived(card)) => format!("card {}", card.name()),
            Action::Emit(NetEvent::PeerDisconnected) => "disconnected".to_string(),
            Action::Emit(_) => "other event".to_string(),
            Action::Bind => "bind".to_string(),
            Action::StartPublisher => "publish".to_string(),
            Action::Accept { allow_new_transport } => format!("accept {allow_new_transport}"),
            Action::Resolve => "resolve".to_string(),
            Action::Connect => "connect".to_string(),
            Action::Authenticate => "authenticate".to_string(),
            Action::HoldConnection => "hold".to_string(),
            Action::ReleaseConnection => "release".to_string(),
            Action::Pump => "pump".to_string(),
            Action::ExchangeCards => "exchange".to_string(),
            Action::RefuseLatecomers => "refuse".to_string(),
            Action::WaitToRetry => "wait".to_string(),
            Action::Close { reason, .. } => format!("close {reason}"),
            Action::CloseEndpoint => "close endpoint".to_string(),
        })
        .collect()
}

// ---------------------------------------------------------------------------
// Key handshake
// ---------------------------------------------------------------------------

#[test]
fn application_keys_mutually_authenticate_over_independent_iroh_keys() {
    let server_identity = Identity::generate();
    let client_identity = Identity::generate();
    let server = key_identity(
        &server_identity,
        "server",
        vec![client_identity.card("client", "x9Y8z7W6").unwrap()],
    );
    let (server_node, client_node) = (node(), node());
    assert_ne!(
        server_node.to_text(),
        server_identity.public_key().to_hex(),
        "iroh and application identities must be distinct"
    );

    let mut claim = PairClaim::new();
    let client_nonce = random_nonce();
    let client_text = client_identity.public_key().to_hex();
    let key = admit_key_request(Some(&server), &claim, &client_text, unix_now()).ok().unwrap();
    assert_eq!(key, client_identity.public_key());

    let server_nonce = random_nonce();
    assert_ne!(client_nonce, server_nonce);
    let handshake = Handshake {
        client_key: key,
        server_key: server_identity.public_key(),
        client_nonce: client_nonce.clone(),
        server_nonce: server_nonce.clone(),
        client_node,
        server_node,
    };
    let challenge = sign_challenge(&server.identity, &handshake);
    let answer = |expected: &Identity, server_at: NodeId| {
        answer_challenge(
            &client_identity,
            expected.public_key(),
            &server_identity.public_key().to_hex(),
            &challenge,
            &client_nonce,
            &server_nonce,
            client_node,
            server_at,
        )
    };
    // Another key than the selected peer's, and a proof made for another connection.
    assert_eq!(
        answer(&Identity::generate(), server_node),
        Err("listener application key does not match the selected peer".to_string())
    );
    assert!(answer(&server_identity, node()).is_err());

    let proof = answer(&server_identity, server_node).unwrap();
    assert!(accept_proof(&mut claim, &handshake, &challenge).is_err(), "a proof of its own");
    assert!(!claim.is_paired());
    assert!(accept_proof(&mut claim, &handshake, &proof).is_ok());
    assert_eq!(
        claim.peek().and_then(|peer| peer.application_key),
        Some(client_identity.public_key())
    );
}

#[test]
fn an_expired_peer_card_is_refused_by_the_listener() {
    let server_identity = Identity::generate();
    let client_identity = Identity::generate();
    let stale = stale_card(&client_identity, "client", "x9Y8z7W6");
    assert!(stale.is_expired());
    let server = key_identity(&server_identity, "server", vec![stale]);
    let claim = PairClaim::new();

    let refusal = admit_key_request(
        Some(&server),
        &claim,
        &client_identity.public_key().to_hex(),
        unix_now(),
    )
    .err()
    .expect("listener must refuse the expired card");
    assert!(matches!(refusal, Refusal::ExpiredCard(_)));
    let told = dialer_outcome(
        HandshakeEnd::Failed {
            error: "connection lost".to_string(),
            close_code: Some(refusal.close_code() as u64),
        },
        "timed out",
    );
    let error = told.err().expect("an expired card must not authenticate").0;
    assert!(
        error.contains("expired"),
        "dialer should be told the card expired, got: {error}"
    );
    assert!(claim.peek().is_none(), "a refused dialer must not claim the pairing");
}

#[test]
fn the_listener_names_every_reason_to_refuse() {
    let server_identity = Identity::generate();
    let friend = Identity::generate();
    let server = key_identity(
        &server_identity,
        "server",
        vec![friend.card("client", "x9Y8z7W6").unwrap()],
    );
    let text = friend.public_key().to_hex();
    let judge = |server: Option<&KeyIdentity>, claim: &PairClaim, text: &str| {
        match admit_key_request(server, claim, text, unix_now()).err() {
            Some(Refusal::Failed(e)) => e,
            _ => panic!("a plain refusal was due"),
        }
    };
    let free = PairClaim::new();
    assert_eq!(judge(None, &free, &text), "listener is not in key-auth mode");
    assert_eq!(judge(Some(&server), &free, "?"), "dialer application key is invalid");
    assert_eq!(
        judge(Some(&server), &free, &Identity::generate().public_key().to_hex()),
        "dialer application key is not locally trusted"
    );
    let mut held = PairClaim::new();
    assert!(held.commit_key(Identity::generate().public_key(), node()));
    assert_eq!(
        judge(Some(&server), &held, &text),
        "already paired with another application identity"
    );
}

#[test]
fn close_codes_tell_the_dialer_what_happened() {
    for refusal in [
        Refusal::ExpiredCard("x".to_string()),
        Refusal::Failed("x".to_string()),
        Refusal::TimedOut,
    ] {
        assert!(auth_close_reason(refusal.close_code() as u64).is_some());
    }
    assert_eq!(Refusal::TimedOut.close_reason(), "auth_timeout");
    assert_eq!(auth_close_reason(0), None);
    assert!(dialer_outcome(HandshakeEnd::Done, "late").is_ok());
    assert_eq!(dialer_outcome(HandshakeEnd::TimedOut, "late").err().unwrap().0, "late");
    assert_eq!(
        read_verdict(false, None),
        Err("authentication rejected: unknown reason".to_string())
    );
    assert_eq!(
        read_verdict(false, Some("no".to_string())),
        Err("authentication rejected: no".to_string())
    );
    assert!(read_verdict(true, None).is_ok());
}

#[test]
fn one_pair_holds_the_claim() {
    let (a, b) = (Identity::generate().public_key(), Identity::generate().public_key());
    let (first, second) = (node(), node());
    let mut claim = PairClaim::new();
    assert!(claim.admits(first, false));
    assert!(claim.commit_key(a, first));
    assert!(!claim.commit_key(b, second), "another key never takes the claim");
    assert!(claim.held_by(first));
    assert!(!claim.admits(second, false));
    assert!(claim.admits(second, true), "the key may come back on a new transport");
    assert!(claim.commit_key(a, second));
    assert!(claim.held_by(second));
    assert!(!pin_dialer_allowed(&claim, second), "a key claim takes no PIN");

    let mut pin = PairClaim::new();
    assert!(pin.commit_pin(first));
    assert!(pin.commit_pin(first));
    assert!(!pin.commit_pin(second));
    assert!(pin_dialer_allowed(&pin, first));
    assert!(!pin_dialer_allowed(&pin, second));
    assert!(!pin.commit_key(a, first), "a PIN claim is not taken over by a key");
}

// ---------------------------------------------------------------------------
// The listener's machine
// ---------------------------------------------------------------------------

fn refusal_of(action: ListenerAction) -> Refusal {
    match action {
        ListenerAction::Close(refusal) => refusal,
        _ => panic!("a refusal was due"),
    }
}

/// What a plain refusal says.
fn failure(action: ListenerAction) -> String {
    match refusal_of(action) {
        Refusal::Failed(e) => e,
        _ => panic!("a plain refusal was due"),
    }
}

#[test]
fn the_listener_takes_a_trusted_key() {
    let server_identity = Identity::generate();
    let client = Identity::generate();
    let server = key_identity(
        &server_identity,
        "server",
        vec![client.card("client", "x9Y8z7W6").unwrap()],
    );
    let (own, remote) = (node(), node());
    let no_pins: RecentPins<PinPassword> = RecentPins::new();
    let mut claim = PairClaim::new();
    let nonce = random_nonce();

    let run = |claim: &mut PairClaim, honest: bool| {
        let mut auth = ListenerAuth::new(remote, own, claim);
        let request = ListenerInput::KeyRequest {
            public_key: client.public_key().to_hex(),
            nonce: nonce.clone(),
        };
        let challenge = auth.step(request, Some(&server), &no_pins, claim, unix_now());
        let ListenerAction::Challenge { public_key, nonce: server_nonce, proof } = challenge else {
            panic!("a challenge was due");
        };
        assert_eq!(public_key, server_identity.public_key().to_hex());
        let answer = answer_challenge(
            &client,
            server_identity.public_key(),
            &public_key,
            &proof,
            &nonce,
            &server_nonce,
            remote,
            own,
        )
        .unwrap();
        let sent = if honest { answer } else { proof };
        let end = auth.step(ListenerInput::Proof(sent), Some(&server), &no_pins, claim, unix_now());
        // Whatever comes after the end is refused.
        let again = auth.step(
            ListenerInput::Proof("again".to_string()),
            Some(&server),
            &no_pins,
            claim,
            unix_now(),
        );
        assert_eq!(failure(again), "the handshake is out of step");
        end
    };

    assert!(matches!(run(&mut claim, false), ListenerAction::Close(Refusal::Failed(_))));
    assert!(!claim.is_paired(), "a listener's own proof takes nothing");
    match run(&mut claim, true) {
        ListenerAction::Accept { key } => assert_eq!(key, client.public_key()),
        _ => panic!("the key was to be accepted"),
    }
    assert!(claim.held_by(remote));

    // Between the challenge and the proof another key took the claim.
    let mut raced = PairClaim::new();
    let mut auth = ListenerAuth::new(remote, own, &raced);
    let request = ListenerInput::KeyRequest {
        public_key: client.public_key().to_hex(),
        nonce: nonce.clone(),
    };
    let challenge = auth.step(request, Some(&server), &no_pins, &mut raced, unix_now());
    let ListenerAction::Challenge { public_key, nonce: server_nonce, proof } = challenge else {
        panic!("a challenge was due");
    };
    assert!(raced.commit_key(Identity::generate().public_key(), node()));
    let answer = answer_challenge(
        &client,
        server_identity.public_key(),
        &public_key,
        &proof,
        &nonce,
        &server_nonce,
        remote,
        own,
    )
    .unwrap();
    let end =
        auth.step(ListenerInput::Proof(answer), Some(&server), &no_pins, &mut raced, unix_now());
    assert_eq!(failure(end), "another application identity paired first");
}

#[test]
fn the_listener_signs_nothing_for_those_it_does_not_admit() {
    let client = Identity::generate();
    let server =
        key_identity(&Identity::generate(), "server", vec![stale_card(&client, "a", "x9Y8z7W6")]);
    let no_pins: RecentPins<PinPassword> = RecentPins::new();
    let mut claim = PairClaim::new();
    let mut ask = |server: Option<&KeyIdentity>, key: &Identity| {
        let request = ListenerInput::KeyRequest {
            public_key: key.public_key().to_hex(),
            nonce: random_nonce(),
        };
        let mut auth = ListenerAuth::new(node(), node(), &claim);
        auth.step(request, server, &no_pins, &mut claim, unix_now())
    };
    assert!(matches!(
        refusal_of(ask(Some(&server), &client)),
        Refusal::ExpiredCard(_)
    ));
    assert_eq!(
        failure(ask(Some(&server), &Identity::generate())),
        "dialer application key is not locally trusted"
    );
    assert_eq!(failure(ask(None, &client)), "listener is not in key-auth mode");
    assert!(!claim.is_paired());
}

/// Runs a PIN handshake of the device at `remote` against a listener: what the dialer
/// concludes, and the refusal that the listener closes with.
fn pin_dial(
    pin: &PinPassword,
    recent: &RecentPins<PinPassword>,
    claim: &mut PairClaim,
    remote: NodeId,
) -> (Result<(), String>, Option<String>) {
    let own = node();
    let mut auth = ListenerAuth::new(remote, own, claim);
    let (dialer, pakes) = DialerHandshake::open(pin, &remote.to_text(), &own.to_text());
    let request = ListenerInput::PinRequest { pakes };
    let ListenerAction::Pakes(pakes) = auth.step(request, None, recent, claim, 0) else {
        panic!("the exchange messages were due");
    };
    let (keys, confirms) = dialer.answer(&pakes).ok().unwrap();
    match auth.step(ListenerInput::Confirms(confirms), None, recent, claim, 0) {
        ListenerAction::Verdict { verdict, refusal } => {
            let refusal = refusal.map(|r| match r {
                Refusal::Failed(e) => e,
                _ => panic!("a plain refusal was due"),
            });
            (keys.conclude(&verdict), refusal)
        }
        _ => panic!("a verdict was due"),
    }
}

#[test]
fn the_listener_takes_a_recent_pin_from_one_device() {
    let mut recent: RecentPins<PinPassword> = RecentPins::new();
    recent.push([1u8; 32]);
    recent.push([2u8; 32]);
    let (first, second) = (node(), node());
    let mut claim = PairClaim::new();

    let (told, refusal) = pin_dial(&[9u8; 32], &recent, &mut claim, first);
    assert!(told.is_err() && refusal.is_some());
    assert!(!claim.is_paired(), "a wrong PIN takes nothing");

    // The PIN before the current one still counts.
    let (told, refusal) = pin_dial(&[1u8; 32], &recent, &mut claim, first);
    assert_eq!(told, Ok(()));
    assert_eq!(refusal, None);
    assert!(claim.held_by(first));

    // The same device may come back; another is refused though it has the PIN.
    assert_eq!(pin_dial(&[2u8; 32], &recent, &mut claim, first).0, Ok(()));
    let (told, refusal) = pin_dial(&[2u8; 32], &recent, &mut claim, second);
    assert!(told.err().unwrap().contains("PIN authentication rejected"));
    assert!(refusal.is_some());
    assert!(claim.held_by(first));
}

#[test]
fn the_listener_gives_up_on_what_it_cannot_read() {
    let none: RecentPins<PinPassword> = RecentPins::new();
    let mut claim = PairClaim::new();
    let mut first = |input: ListenerInput| {
        let mut auth = ListenerAuth::new(node(), node(), &claim);
        auth.step(input, None, &none, &mut claim, 0)
    };
    assert_eq!(failure(first(ListenerInput::Broken("reset".to_string()))), "reset");
    assert!(matches!(refusal_of(first(ListenerInput::TimedOut)), Refusal::TimedOut));
    assert!(failure(first(ListenerInput::PinRequest { pakes: Vec::new() }))
        .contains("PAKE messages"));
    for early in
        [ListenerInput::Proof("x".to_string()), ListenerInput::Confirms(vec!["x".to_string()])]
    {
        assert_eq!(failure(first(early)), "the handshake is out of step");
    }
    assert!(!claim.is_paired());
}

// ---------------------------------------------------------------------------
// Card exchange
// ---------------------------------------------------------------------------

/// Runs one side of an exchange against what the peer offers.
fn exchange(own: &IdentityCard, offer: String) -> Result<IdentityCard, String> {
    let (mut side, _) = CardExchange::start(own);
    assert!(matches!(side.handle(ExchangeEvent::Sent), ExchangeAction::ReadOffer));
    match side.handle(ExchangeEvent::Offered(offer)) {
        ExchangeAction::Finish => (),
        ExchangeAction::Fail(e) => return Err(e),
        _ => panic!("out of order"),
    }
    match side.handle(ExchangeEvent::Finished) {
        ExchangeAction::AwaitEnd(n) => assert_eq!(n, MAX_TRAILING_BYTES),
        _ => panic!("out of order"),
    }
    match side.handle(ExchangeEvent::PeerEnded) {
        ExchangeAction::Done(card) => Ok(card),
        _ => panic!("out of order"),
    }
}

#[test]
fn both_sides_receive_the_others_card() {
    let a_identity = Identity::generate();
    let b_identity = Identity::generate();
    let a_card = a_identity.card("mac-book", "a7B2c3D4").unwrap();
    let b_card = b_identity.card("pixel", "9zKtm4Qp").unwrap();
    let (_, a_offer) = CardExchange::start(&a_card);
    let (_, b_offer) = CardExchange::start(&b_card);

    let a_got = exchange(&a_card, b_offer).unwrap();
    let b_got = exchange(&b_card, a_offer).unwrap();
    assert_eq!(a_got.public_key(), b_identity.public_key());
    assert_eq!(a_got.name(), "pixel_9zKtm4Qp");
    assert_eq!(b_got.public_key(), a_identity.public_key());
    assert_eq!(b_got.name(), "mac-book_a7B2c3D4");
}

#[test]
fn a_malformed_offer_is_rejected() {
    let card = Identity::generate().card("mac-book", "a7B2c3D4").unwrap();
    let err = exchange(&card, "{\"not\":\"a card\"}".to_string()).err().unwrap();
    assert!(err.contains("invalid identity card"), "unexpected error: {err}");
}

#[test]
fn a_tampered_card_is_rejected() {
    let good = Identity::generate().card("pixel", "9zKtm4Qp").unwrap();
    let tampered = good.encode().replace("pixel", "spoof");
    let card = Identity::generate().card("mac-book", "a7B2c3D4").unwrap();
    assert!(exchange(&card, tampered).is_err());
}

#[test]
fn a_lost_peer_at_the_end_costs_nothing() {
    let card = Identity::generate().card("mac-book", "a7B2c3D4").unwrap();
    let (mut side, offer) = CardExchange::start(&card);
    side.handle(ExchangeEvent::Sent);
    side.handle(ExchangeEvent::Offered(offer.clone()));
    side.handle(ExchangeEvent::Finished);
    let end = side.handle(ExchangeEvent::Failed("reset".to_string()));
    assert!(matches!(end, ExchangeAction::Done(_)));

    let (mut side, _) = CardExchange::start(&card);
    assert!(matches!(
        side.handle(ExchangeEvent::Failed("reset".to_string())),
        ExchangeAction::Fail(e) if e == "reset"
    ));
    let (mut side, _) = CardExchange::start(&card);
    assert!(matches!(side.handle(ExchangeEvent::Offered(offer)), ExchangeAction::Fail(_)));
}

// ---------------------------------------------------------------------------
// Sessions
// ---------------------------------------------------------------------------

#[test]
fn joining_a_peer_with_an_expired_card_fails_before_dialing() {
    let identity = Identity::generate();
    let peer_identity = Identity::generate();
    let stale = stale_card(&peer_identity, "server", "a7B2c3D4");
    let client = key_identity(&identity, "client", vec![stale]);
    let (mut session, actions) =
        ClientLoop::start(&client, peer_identity.public_key(), unix_now());
    let said = names(&actions);
    assert_eq!(said.len(), 3);
    assert!(
        said[1].contains("expired") && said[1].contains("server_a7B2c3D4"),
        "the error should name the expired peer: {}",
        said[1]
    );
    assert_eq!(said[2], "Idle");
    let ready = ClientInput::EndpointReady { node_id: node(), npub: identity.to_npub() };
    assert!(
        session.step(ready).is_empty(),
        "no endpoint should be created for an expired peer"
    );
}

#[test]
fn a_client_gives_up_after_ten_failures_in_a_row() {
    let identity = Identity::generate();
    let peer = Identity::generate();
    let client = key_identity(&identity, "client", vec![peer.card("server", "a7B2c3D4").unwrap()]);
    let (mut session, actions) = ClientLoop::start(&client, peer.public_key(), unix_now());
    assert_eq!(names(&actions), ["Starting", "bind"]);
    let own = node();
    let ready = ClientInput::EndpointReady { node_id: own, npub: identity.to_npub() };
    assert_eq!(names(&session.step(ready)), ["client ready", "Resolving", "resolve"]);

    // A success in between starts the count again.
    session.step(ClientInput::ResolveFailed);
    session.step(ClientInput::Paused);
    let target = node();
    assert_eq!(names(&session.step(ClientInput::Resolved(target))), ["Connecting", "connect"]);
    assert_eq!(names(&session.step(ClientInput::Connected)), ["Authenticating", "authenticate"]);
    assert_eq!(
        names(&session.step(ClientInput::AuthDone { remote: target })),
        [format!("paired {}", target.to_text()), "Connected".into(), "hold".into(), "pump".into()]
    );
    let lost = names(&session.step(ClientInput::PumpEnded { cancelled: false }));
    assert_eq!(
        lost,
        ["release", "disconnected", "Reconnecting { attempt: 1, max: 10 }", "wait"]
    );
    for attempt in 2..10 {
        assert_eq!(names(&session.step(ClientInput::Paused)), ["Resolving", "resolve"]);
        assert_eq!(
            names(&session.step(ClientInput::ResolveFailed)),
            [format!("Reconnecting {{ attempt: {attempt}, max: 10 }}"), "wait".into()]
        );
    }
    session.step(ClientInput::Paused);
    assert_eq!(
        names(&session.step(ClientInput::ResolveFailed)),
        [
            "error: Could not reach the peer after 10 attempts — press Join to try again",
            "Idle",
            "close endpoint"
        ]
    );
}

#[test]
fn a_client_refuses_itself_and_stops_on_a_rejection() {
    let identity = Identity::generate();
    let peer = Identity::generate();
    let client = key_identity(&identity, "client", vec![peer.card("server", "a7B2c3D4").unwrap()]);
    let own = node();
    let begin = || {
        let (mut session, _) = ClientLoop::start(&client, peer.public_key(), unix_now());
        session.step(ClientInput::EndpointReady { node_id: own, npub: identity.to_npub() });
        session
    };
    assert_eq!(
        names(&begin().step(ClientInput::Resolved(own)))[0],
        "error: That is this device's own node id — enter the other device's id"
    );
    let mut session = begin();
    session.step(ClientInput::Resolved(node()));
    session.step(ClientInput::Connected);
    assert_eq!(
        names(&session.step(ClientInput::AuthFatal("no".to_string()))),
        ["error: no", "Idle", "close endpoint"]
    );
    assert!(session.step(ClientInput::Paused).is_empty());

    let (mut failed, _) = ClientLoop::start(&client, peer.public_key(), unix_now());
    assert_eq!(
        names(&failed.step(ClientInput::EndpointFailed("x".to_string()))),
        ["error: Failed to start: x", "Idle"]
    );
}

#[test]
fn a_server_serves_one_peer_at_a_time() {
    let (mut session, actions) = ServerLoop::start();
    assert_eq!(names(&actions), ["Starting", "bind"]);
    let ready = ServerInput::EndpointReady { node_id: node(), npub: "npub".to_string() };
    assert_eq!(
        names(&session.step(ready)),
        ["server ready", "Listening", "publish", "accept true"]
    );
    let first = node();
    assert_eq!(
        names(&session.step(ServerInput::Accepted(first))),
        ["Authenticating", "authenticate"]
    );
    assert_eq!(names(&session.step(ServerInput::AuthFailed)), ["Listening", "accept true"]);
    session.step(ServerInput::Accepted(first));
    let key = Identity::generate().public_key();
    assert_eq!(
        names(&session.step(ServerInput::AuthDone { peer_public_key: Some(key) })),
        [
            format!("paired {}", first.to_text()),
            "hold".into(),
            "Connected".into(),
            "pump".into(),
            "accept false".into()
        ]
    );
    assert_eq!(
        names(&session.step(ServerInput::Preempted { next: first, cancelled: false })),
        ["release", "close superseded", "Authenticating", "authenticate"]
    );
    session.step(ServerInput::AuthDone { peer_public_key: None });
    assert_eq!(
        names(&session.step(ServerInput::PumpEnded { cancelled: false })),
        ["release", "disconnected", "Listening", "accept true"]
    );
    assert_eq!(names(&session.step(ServerInput::AcceptEnded)), ["close endpoint"]);
    assert!(session.step(ServerInput::Accepted(first)).is_empty());
}

#[test]
fn card_setup_swaps_one_card_and_ends() {
    let (mut host, _) = HostLoop::start();
    let (mut joiner, _) = JoinLoop::start();
    let (host_node, join_node) = (node(), node());
    assert_eq!(
        names(&host.step(HostInput::EndpointReady { node_id: host_node })),
        ["server ready", "Listening", "publish", "accept false"]
    );
    joiner.step(JoinInput::EndpointReady { node_id: join_node });

    // A wrong PIN leaves the host listening; once the claim is held the PIN is spent.
    host.step(HostInput::Accepted(join_node));
    let typo = HostInput::Failed { error: "wrong".to_string(), claim_held: false };
    assert_eq!(
        names(&host.step(typo)),
        ["close card-setup-failed", "Listening", "accept false"]
    );
    host.step(HostInput::Accepted(join_node));
    assert_eq!(
        names(&host.step(HostInput::PinProven)),
        [format!("paired {}", join_node.to_text()), "Connected".into(), "exchange".into()]
    );
    joiner.step(JoinInput::Resolved(host_node));
    joiner.step(JoinInput::Connected);
    joiner.step(JoinInput::PinProven { remote: host_node });

    let host_card = Identity::generate().card("host", "a7B2c3D4").unwrap();
    let join_card = Identity::generate().card("joiner", "x9Y8z7W6").unwrap();
    assert_eq!(
        names(&host.step(HostInput::Exchanged(Box::new(join_card)))),
        [
            "card joiner_x9Y8z7W6",
            "close card-setup-complete",
            "refuse",
            "close endpoint",
            "Idle"
        ]
    );
    assert_eq!(
        names(&joiner.step(JoinInput::Exchanged(Box::new(host_card)))),
        ["close card-setup-complete", "card host_a7B2c3D4", "close endpoint", "Idle"]
    );
    assert!(host.step(HostInput::Accepted(join_node)).is_empty());

    let (mut spent, _) = HostLoop::start();
    spent.step(HostInput::EndpointReady { node_id: host_node });
    spent.step(HostInput::Accepted(join_node));
    spent.step(HostInput::PinProven);
    let broken = HostInput::Failed { error: "broken".to_string(), claim_held: true };
    assert_eq!(
        names(&spent.step(broken)),
        ["close card-setup-failed", "error: broken", "close endpoint", "Idle"]
    );

    let (mut lost, _) = JoinLoop::start();
    lost.step(JoinInput::EndpointReady { node_id: join_node });
    assert!(names(&lost.step(JoinInput::Resolved(join_node)))[0].contains("belongs to this device"));
}

#[test]
fn card_setup_never_carries_clipboard_content() {
    let card = Identity::generate().card("host", "a7B2c3D4").unwrap();
    let mut commands = CommandLoop::new();
    let begun = commands.handle(
        UiCommand::StartServer {
            mode: ServerMode::CardSetup {
                self_card: Box::new(card),
                channel: SignalChannel::LanOnly,
                relays: Vec::new(),
            },
        },
        [1; 32],
    );
    assert!(matches!(
        begun[1],
        LoopAction::StartSession { plan, .. } if plan.runner == Runner::CardSetupHost
    ));
    let sent = commands.handle(
        UiCommand::SendClipboard { text: "should never arrive".to_string() },
        [2; 32],
    );
    assert!(matches!(
        &sent[0],
        LoopAction::Emit(NetEvent::Error(e))
            if e == "Not connected — start or join a session first"
    ));
    let refreshed = commands.handle(UiCommand::RefreshPin, [3; 32]);
    assert!(matches!(refreshed[0], LoopAction::RefreshPin));
}

#[test]
fn a_card_setup_joiner_carries_no_clipboard_content() {
    let card = Identity::generate().card("joiner", "x9Y8z7W6").unwrap();
    let mut commands = CommandLoop::new();
    let begun = commands.handle(
        UiCommand::Connect {
            spec: DialSpec::CardSetup {
                canonical_pin: "K7P29QXM".to_string(),
                self_card: Box::new(card),
                target_ip: None,
                channel: SignalChannel::LanOnly,
                relays: Vec::new(),
            },
        },
        [1; 32],
    );
    assert!(matches!(
        begun[1],
        LoopAction::StartSession { plan, .. }
            if plan.runner == Runner::CardSetupJoiner && !plan.carries_clipboard
    ));
    let sent = commands.handle(
        UiCommand::SendClipboard { text: "should never arrive".to_string() },
        [2; 32],
    );
    assert!(matches!(
        &sent[0],
        LoopAction::Emit(NetEvent::Error(e))
            if e == "Not connected — start or join a session first"
    ));
}

#[test]
fn a_fresh_pin_is_refused_where_none_is_published() {
    let refused = |commands: &mut CommandLoop| {
        let actions = commands.handle(UiCommand::RefreshPin, [9; 32]);
        actions.len() == 1
            && matches!(
                &actions[0],
                LoopAction::Emit(NetEvent::Error(e)) if e == "No PIN is being published"
            )
    };
    let host = |commands: &mut CommandLoop| {
        let card = Identity::generate().card("host", "a7B2c3D4").unwrap();
        let mode = ServerMode::CardSetup {
            self_card: Box::new(card),
            channel: SignalChannel::LanOnly,
            relays: Vec::new(),
        };
        commands.handle(UiCommand::StartServer { mode }, [1; 32]);
    };
    let mut commands = CommandLoop::new();
    assert!(refused(&mut commands), "no session");

    // Another role.
    let mode = ServerMode::Key {
        identity: Box::new(key_identity(&Identity::generate(), "host", Vec::new())),
        channel: SignalChannel::LanOnly,
    };
    commands.handle(UiCommand::StartServer { mode }, [1; 32]);
    assert!(refused(&mut commands), "a clipboard session shows no PIN");

    // A host that a peer has paired with.
    host(&mut commands);
    assert!(!refused(&mut commands));
    assert!(commands.memory.as_mut().unwrap().claim.commit_pin(node()));
    assert!(refused(&mut commands), "a peer has paired");

    // A host whose session is over; what was remembered stays.
    let mut commands = CommandLoop::new();
    host(&mut commands);
    commands.session_ended();
    assert!(refused(&mut commands), "the session is over");
    assert!(commands.memory.is_some());
}

#[test]
fn a_session_is_remembered_until_it_is_stopped() {
    let host = Identity::generate();
    let start = |identity: &Identity| UiCommand::StartServer {
        mode: ServerMode::Key {
            identity: Box::new(key_identity(identity, "host", Vec::new())),
            channel: SignalChannel::LanOnly,
        },
    };
    let mut commands = CommandLoop::new();
    commands.handle(start(&host), [1; 32]);
    assert_eq!(commands.memory.as_ref().unwrap().secret, [1; 32]);
    commands.handle(start(&host), [2; 32]);
    assert_eq!(commands.memory.as_ref().unwrap().secret, [1; 32], "the node id stays");
    commands.handle(start(&Identity::generate()), [3; 32]);
    assert_eq!(commands.memory.as_ref().unwrap().secret, [3; 32]);
    assert!(matches!(
        commands.handle(UiCommand::SendClipboard { text: "x".to_string() }, [4; 32])[0],
        LoopAction::SendText(_)
    ));
    commands.handle(UiCommand::StopServer, [5; 32]);
    assert!(commands.memory.is_none() && commands.session.is_none());

    let peer = Identity::generate();
    commands.handle(
        UiCommand::Connect {
            spec: DialSpec::Key {
                identity: Box::new(key_identity(&host, "host", Vec::new())),
                peer_public_key: peer.public_key(),
                channel: SignalChannel::LanOnly,
            },
        },
        [6; 32],
    );
    assert_eq!(commands.session.unwrap().runner, Runner::Client);
    let end = commands.handle(UiCommand::Shutdown, [7; 32]);
    assert!(matches!(end[1], LoopAction::Exit));
}

#[test]
fn resume_pulls_latest_from_both_sides() {
    // What each side holds outlives a connection.
    let mut server = ClipboardPump::new();
    let mut client = ClipboardPump::new();
    let pull = ClipboardPump::opening_frame().unwrap();
    assert!(matches!(server.on_frame(&pull), Ok(Incoming::Answer(None))));
    assert!(matches!(client.on_frame(&pull), Ok(Incoming::Answer(None))));

    // One item each way: what one side sends the other receives.
    let received = |side: &ClipboardPump, frame: &[u8]| match side.on_frame(frame) {
        Ok(Incoming::Emit(NetEvent::ItemReceived { text, pulled })) => (text, pulled),
        _ => panic!("an item was due"),
    };
    let frame = server.prepare_item("server latest", 7).ok().unwrap();
    assert_eq!(received(&client, &frame), ("server latest".to_string(), false));
    assert!(matches!(server.item_written("server latest".to_string(), 7), NetEvent::ItemSent));
    let frame = client.prepare_item("client latest", 8).ok().unwrap();
    assert_eq!(received(&server, &frame), ("client latest".to_string(), false));
    assert!(matches!(client.item_written("client latest".to_string(), 8), NetEvent::ItemSent));

    // On resume each side asks for the other's latest, marked for the receiver.
    let latest = |side: &ClipboardPump| match side.on_frame(&pull) {
        Ok(Incoming::Answer(Some(frame))) => frame,
        _ => panic!("a request for the latest item must be answered"),
    };
    assert_eq!(received(&client, &latest(&server)), ("server latest".to_string(), true));
    assert_eq!(received(&server, &latest(&client)), ("client latest".to_string(), true));

    assert!(server.on_frame(b"junk").is_err());
    let large = "x".repeat(1024 * 1024 + 1);
    match server.prepare_item(&large, 7) {
        Err(NetEvent::Error(e)) => assert!(e.starts_with("Not sent — ") && e.ends_with("(limit 1024 KiB)")),
        _ => panic!("an item that is too large must be reported"),
    }
}

// ---------------------------------------------------------------------------
// Finding and announcing
// ---------------------------------------------------------------------------

#[test]
fn a_lan_only_miss_reports_the_local_network() {
    let lan: Lookup<NodeId> = Lookup::Missing;
    assert!(!asks_relays(SignalChannel::LanOnly, &lan));
    let error = resolve_card_setup(SignalChannel::LanOnly, false, lan, Lookup::NotAsked)
        .err()
        .expect("nothing is advertising that PIN");
    assert!(
        error.contains("this network"),
        "a LAN-only card-setup miss should point at the network: {error}"
    );
    let error =
        resolve_hosting(SignalChannel::LanOnly, Lookup::<NodeId>::Missing, Lookup::NotAsked)
            .err()
            .expect("nobody is hosting for this identity");
    assert!(
        error.contains("this network") && error.contains("Start"),
        "a LAN-only hosting miss should name the network and the fix: {error}"
    );
}

#[test]
fn the_local_network_comes_first_and_a_clean_miss_wins_over_an_error() {
    let target = node();
    assert!(!asks_lan(SignalChannel::NostrOnly));
    assert!(!asks_relays(SignalChannel::LanThenNostr, &Lookup::Found(target)));
    assert!(asks_relays(SignalChannel::LanThenNostr, &Lookup::<NodeId>::Missing));
    let resolve = |lan, relays| resolve_hosting(SignalChannel::LanThenNostr, lan, relays);
    assert_eq!(resolve(Lookup::Found(target), Lookup::NotAsked), Ok(target));
    assert_eq!(resolve(Lookup::Failed("x".to_string()), Lookup::Found(target)), Ok(target));
    let miss = resolve(Lookup::Failed("x".to_string()), Lookup::Missing).unwrap_err();
    assert!(miss.contains("not hosting"), "{miss}");
    let miss = resolve(Lookup::Missing, Lookup::Failed("x".to_string())).unwrap_err();
    assert!(miss.contains("not hosting"), "{miss}");
    // Only where nobody could look is there an error: of two the first.
    let failed =
        resolve(Lookup::Failed("x".to_string()), Lookup::Failed("y".to_string())).unwrap_err();
    assert_eq!(failed, "LAN hosting lookup failed: x");
    let failed = resolve_hosting(
        SignalChannel::NostrOnly,
        Lookup::<NodeId>::NotAsked,
        Lookup::Failed("y".to_string()),
    );
    assert_eq!(failed, Err("nostr hosting lookup failed: y".to_string()));
    let failed = resolve_card_setup(
        SignalChannel::LanThenNostr,
        false,
        Lookup::<NodeId>::Missing,
        Lookup::Failed("y".to_string()),
    )
    .unwrap_err();
    assert!(failed.contains("on this network or through the relays"), "{failed}");
}

#[test]
fn a_relay_only_publisher_puts_up_no_advertisement() {
    let now = unix_now();
    let peers = vec![Identity::generate().card("new", "x9Y8z7W6").unwrap()];
    let addrs = vec![SocketAddr::new(IpAddr::V4(Ipv4Addr::new(10, 0, 0, 1)), 5)];
    let mut publisher = HostingPublisher::new();
    let mut complaints = 0;
    // The relays fail twice in a row, work, and fail again.
    for works in [false, false, true, false] {
        let round = publisher.plan_round(&peers, now, SignalChannel::NostrOnly, &addrs);
        assert!(round.advertise.is_none() && !round.withdraw && round.publish_relays);
        complaints += publisher.finish_round(round, 0, works).iter().count();
    }
    assert_eq!(complaints, 2, "each outage is reported once");
}

#[test]
fn a_lapsed_peer_is_no_longer_advertised() {
    let now = unix_now();
    let (stays, lapses) = (Identity::generate(), Identity::generate());
    let lapsing = lapses.card_issued_at("old", "x9Y8z7W6", now - CARD_TTL_SECS + 10).unwrap();
    let peers = vec![stays.card("new", "x9Y8z7W6").unwrap(), lapsing];
    let mut publisher = HostingPublisher::new();
    let round = publisher.plan_round(&peers, now, SignalChannel::LanOnly, &Vec::new());
    assert_eq!(round.advertise.as_ref().unwrap().keys.len(), 2);
    publisher.finish_round(round, 2, false);
    let round = publisher.plan_round(&peers, now + 10, SignalChannel::LanOnly, &Vec::new());
    assert!(round.withdraw);
    assert_eq!(round.advertise.unwrap().keys, vec![stays.public_key()]);
}

#[test]
fn a_publisher_announces_changes_and_complains_once() {
    let now = unix_now();
    let friend = Identity::generate();
    let lapsed = Identity::generate();
    let peers = vec![
        stale_card(&lapsed, "old", "x9Y8z7W6"),
        friend.card("new", "x9Y8z7W6").unwrap(),
    ];
    let addr = SocketAddr::new(IpAddr::V4(Ipv4Addr::new(10, 0, 0, 1)), 5);
    let mut publisher = HostingPublisher::new();
    let round = publisher.plan_round(&peers, now, SignalChannel::LanThenNostr, &vec![addr]);
    assert_eq!(round.live, vec![friend.public_key()]);
    assert!(round.withdraw && round.publish_relays);
    assert_eq!(round.advertise.as_ref().unwrap().addrs, vec![addr]);
    assert!(matches!(publisher.finish_round(round, 0, false), Some(NetEvent::Error(_))));
    let round = publisher.plan_round(&peers, now, SignalChannel::LanThenNostr, &vec![addr]);
    assert!(publisher.finish_round(round, 0, false).is_none(), "reported once");
    let round = publisher.plan_round(&peers, now, SignalChannel::LanThenNostr, &vec![addr]);
    assert!(publisher.finish_round(round, 1, false).is_none());
    let round = publisher.plan_round(&peers, now, SignalChannel::LanThenNostr, &vec![addr]);
    assert!(round.advertise.is_none() && !round.withdraw, "nothing changed");
    publisher.finish_round(round, 0, true);
    let round = publisher.plan_round(&Vec::new(), now, SignalChannel::LanOnly, &vec![addr]);
    assert!(round.advertise.is_none() && round.withdraw && !round.publish_relays);
}

#[test]
fn pins_rotate_and_a_refresh_revokes_them() {
    let private = SocketAddr::new(IpAddr::V4(Ipv4Addr::new(192, 168, 1, 9)), 5);
    match PinPublisher::begin(false, "K7P29QXM", SignalChannel::LanOnly, &vec![private]) {
        Ok(NetEvent::PinRotated { pin_display, seconds_left, host_lan_ip }) => {
            assert_eq!(pin_display, "K7P2-9QXM");
            assert_eq!(seconds_left, 60);
            assert_eq!(host_lan_ip.as_deref(), Some("192.168.1.9"));
        }
        _ => panic!("a PIN must be shown"),
    }
    assert!(matches!(
        PinPublisher::begin(true, "K7P29QXM", SignalChannel::LanOnly, &Vec::new()),
        Err(NetEvent::PinCleared)
    ));

    let all = Published { record_key: true, dnssd: true, side_channel: true, relays: true };
    let mut publisher = PinPublisher::new();
    let mut down = Vec::new();
    for _ in 0..4 {
        let (adverts, listeners, complaint) = publisher.published(SignalChannel::LanThenNostr, all);
        assert!(complaint.is_none());
        assert_eq!(adverts, listeners);
        down.push(adverts);
    }
    assert_eq!(down[0], 0);
    assert_eq!(down[3], 1, "only the latest stay up");
    let side = Published { record_key: true, dnssd: false, side_channel: true, relays: false };
    match publisher.published(SignalChannel::LanOnly, side).2 {
        Some(NetEvent::Error(e)) => assert!(e.contains("enter the IP shown below"), "{e}"),
        _ => panic!("a PIN that cannot be found must be reported"),
    }

    let mut recent: RecentPins<[u8; 32]> = RecentPins::new();
    recent.push([1; 32]);
    assert!(matches!(publisher.end_period(PeriodEnd::Elapsed, &mut recent), (true, None)));
    assert_eq!(recent.snapshot().len(), 1);
    assert!(matches!(publisher.end_period(PeriodEnd::Refreshed, &mut recent), (true, None)));
    assert!(recent.snapshot().is_empty());
    assert!(matches!(
        publisher.end_period(PeriodEnd::Paired, &mut recent),
        (false, Some(NetEvent::PinCleared))
    ));
}

#[test]
fn paths_are_described() {
    let direct = RawPath {
        kind: ConnPathKind::Direct,
        remote: "1.2.3.4:52186".to_string(),
        rtt: "1ms".to_string(),
        selected: true,
    };
    let relay = RawPath {
        kind: ConnPathKind::Relay,
        remote: "https://relay".to_string(),
        rtt: "20ms".to_string(),
        selected: false,
    };
    assert_eq!(describe_path(&direct), "Direct 1.2.3.4:52186 (rtt 1ms)");
    let paths = vec![direct, relay];
    assert_eq!(format_paths(&paths), "Direct 1.2.3.4:52186 (rtt 1ms)");
    assert_eq!(format_paths(&Vec::new()), "establishing...");
    assert_eq!(paths_key(&paths), (false, vec!["1.2.3.4:52186".to_string()]));
    assert_eq!(paths_key(&Vec::new()), (true, Vec::new()));
    let shown = snapshot_paths(&paths);
    assert_eq!(shown[1].display, "Relay https://relay (rtt 20ms)");
    assert!(!shown[1].selected);
    assert!(endpoint_usable(EndpointReadiness::RelayPreferred, false).is_ok());
    assert!(endpoint_usable(EndpointReadiness::LanDirect, false).is_err());
}

#[test]
fn events_queue_up_with_their_wakes() {
    let mut events = EventSender::new(true);
    events.status(ConnStatus::Starting);
    events.error("no");
    let (taken, wakes) = events.drain();
    assert_eq!((taken.len(), wakes), (2, 2));
    assert!(matches!(&taken[1], NetEvent::Error(e) if e == "no"));
    assert_eq!(events.drain().1, 0);
    let mut silent = EventSender::new(false);
    silent.send(NetEvent::PinCleared);
    assert_eq!(silent.drain().1, 0);
}
