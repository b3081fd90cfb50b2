//! From a start configuration to the command that starts the session: which fields a
//! role takes, and what each of them has to hold.

use vstd::prelude::*;
use vstd::string::*;

use crate::addr::{parsed_ip, IpAddr, Ipv4Addr};
use crate::auth::{
    card_of_text, npub_text, nsec_secret, secret_public, CardView, Identity, IdentityCard,
    PublicKey, MAX_TRUSTED_PEERS,
};
use crate::json::text_view;
use crate::net::{
    card_views, find_card, trusted_card, DialSpec, KeyIdentity, ServerMode, SignalChannel,
    UiCommand,
};
use crate::text::{hex_text, texts, trim, trimmed};

verus! {

/// The role that a session plays.
#[derive(Clone, Copy, Debug, PartialEq, Eq, Structural)]
pub enum Role {
    /// Host a clipboard session for locally trusted peers.
    Start,
    /// Dial one locally trusted peer.
    Join,
    /// Card setup: show a rotating PIN and trade identity cards.
    CardHost,
    /// Card setup: dial a typed PIN and trade identity cards.
    CardJoin,
}

/// A start configuration.
pub struct StartConfig {
    pub role: Role,
    /// `Start` and `Join`: this installation's `nsec`.
    pub identity_secret: Option<String>,
    /// Every role: this installation's signed card.
    pub self_card: Option<String>,
    /// `Start` and `Join`: locally trusted signed cards.
    pub peers: Vec<String>,
    /// `Join`: the selected peer's public key, in hexadecimal or bech32.
    pub peer_public_key: Option<String>,
    /// `CardJoin`: the PIN shown on the hosting device.
    pub pin: Option<String>,
    /// `CardJoin`: the host's IPv4 address as shown on the hosting device.
    pub ip: Option<String>,
    pub channel: Option<SignalChannel>,
    /// The relays; none means the default ones.
    pub relays: Vec<String>,
}

/// What a [`StartConfig`] says.
pub struct ConfigView {
    pub role: Role,
    pub identity_secret: Option<Seq<char>>,
    pub self_card: Option<Seq<char>>,
    pub peers: Seq<Seq<char>>,
    pub peer_public_key: Option<Seq<char>>,
    pub pin: Option<Seq<char>>,
    pub ip: Option<Seq<char>>,
    pub channel: Option<SignalChannel>,
    pub relays: Seq<Seq<char>>,
}

impl View for StartConfig {
    type V = ConfigView;

    open spec fn view(&self) -> ConfigView {
        ConfigView {
            role: self.role,
            identity_secret: text_view(self.identity_secret),
            self_card: text_view(self.self_card),
            peers: texts(self.peers@),
            peer_public_key: text_view(self.peer_public_key),
            pin: text_view(self.pin),
            ip: text_view(self.ip),
            channel: self.channel,
            relays: texts(self.relays@),
        }
    }
}

/// What a session is started with.
pub enum PlanView {
    CardHost { self_card: CardView, channel: SignalChannel, relays: Seq<Seq<char>> },
    CardJoin {
        pin: Seq<char>,
        self_card: CardView,
        target_ip: Option<IpAddr>,
        channel: SignalChannel,
        relays: Seq<Seq<char>>,
    },
    Host {
        secret: Seq<u8>,
        self_card: CardView,
        peers: Seq<CardView>,
        channel: SignalChannel,
        relays: Seq<Seq<char>>,
    },
    Join {
        secret: Seq<u8>,
        self_card: CardView,
        peers: Seq<CardView>,
        peer: Seq<u8>,
        channel: SignalChannel,
        relays: Seq<Seq<char>>,
    },
}

/// The default relays.
pub open spec fn default_relays() -> Seq<Seq<char>> {
    seq![
        "wss://nos.lol"@,
        "wss://relay.nostr.net"@,
        "wss://relay.primal.net"@,
        "wss://relay.snort.social"@,
    ]
}

/// The relays that a session uses.
pub open spec fn chosen_relays(relays: Seq<Seq<char>>) -> Seq<Seq<char>> {
    if relays.len() == 0 {
        default_relays()
    } else {
        relays
    }
}

/// The channel that a session uses.
pub open spec fn chosen_channel(channel: Option<SignalChannel>) -> SignalChannel {
    match channel {
        Some(c) => c,
        None => SignalChannel::LanThenNostr,
    }
}

/// Which field stands where its role does not take it, if any does. Card setup knows no
/// identity; the PIN and the address belong to the role that dials a PIN, the selected
/// peer to the role that dials a peer.
pub open spec fn misplaced_field(c: ConfigView) -> Option<Seq<char>> {
    let card_setup = c.role == Role::CardHost || c.role == Role::CardJoin;
    if card_setup && (c.identity_secret is Some || c.peers.len() > 0) {
        Some("card setup accepts only role, self_card, pin, ip, channel and relays"@)
    } else if c.role != Role::CardJoin && (c.pin is Some || c.ip is Some) {
        Some("pin and ip are only valid for the card_join role"@)
    } else if c.role != Role::Join && c.peer_public_key is Some {
        Some("peer_public_key is only valid for the join role"@)
    } else {
        None
    }
}

/// The typed host address, where one was typed: it takes the local network, and has to
/// be an IPv4 address.
pub open spec fn typed_address(ip: Option<Seq<char>>, channel: SignalChannel) -> Result<
    Option<Ipv4Addr>,
    Seq<char>,
> {
    if ip is None || trimmed(ip->0).len() == 0 {
        Ok(None)
    } else if channel == SignalChannel::NostrOnly {
        Err("ip needs a channel that uses the local network"@)
    } else {
        match parsed_ip(trimmed(ip->0)) {
            Some(ip) => Ok(Some(ip)),
            None => Err("invalid host IP (enter the IPv4 address shown on the other device)"@),
        }
    }
}

/// The trusted cards: each one parses, none is this installation's own, and no key
/// occurs twice.
pub open spec fn trusted_cards(own: Seq<u8>, peers: Seq<Seq<char>>) -> Result<
    Seq<CardView>,
    Seq<char>,
>
    decreases peers.len(),
{
    if peers.len() == 0 {
        Ok(Seq::empty())
    } else {
        match trusted_cards(own, peers.drop_last()) {
            Err(e) => Err(e),
            Ok(cards) => match card_of_text(peers.last()) {
                Err(e) => Err("invalid peer identity card: "@ + e),
                Ok(card) => if card.public_key == own {
                    Err("peers contains this installation's self_card"@)
                } else if trusted_card(cards, card.public_key) is Some {
                    Err("peers contains a duplicate public key"@)
                } else {
                    Ok(cards.push(card))
                },
            },
        }
    }
}

/// The index from `from` on of the first card that is selected by its key, in
/// hexadecimal or bech32.
pub open spec fn selected_index(cards: Seq<CardView>, selected: Seq<char>, from: int) -> Option<int>
    decreases cards.len() - from,
{
    if from < 0 || from >= cards.len() {
        None
    } else if hex_text(cards[from].public_key) == selected || npub_text(cards[from].public_key)
        == selected {
        Some(from)
    } else {
        selected_index(cards, selected, from + 1)
    }
}

/// The key of the selected peer, which has to be one of the trusted ones.
pub open spec fn selected_peer(cards: Seq<CardView>, key: Option<Seq<char>>) -> Result<
    Seq<u8>,
    Seq<char>,
> {
    if key is None || trimmed(key->0).len() == 0 {
        Err("peer_public_key is required for join"@)
    } else {
        match selected_index(cards, trimmed(key->0), 0) {
            Some(i) => Ok(cards[i].public_key),
            None => Err("peer_public_key is not in the local trusted peer list"@),
        }
    }
}

/// The plan of the two key roles.
pub open spec fn key_plan(c: ConfigView, self_card: CardView) -> Result<PlanView, Seq<char>> {
    let channel = chosen_channel(c.channel);
    let relays = chosen_relays(c.relays);
    if c.identity_secret is None {
        Err("identity_secret is required"@)
    } else {
        match nsec_secret(c.identity_secret->0) {
            Err(e) => Err("invalid identity_secret: "@ + e),
            Ok(secret) => {
                let own = secret_public(secret)->0;
                if self_card.public_key != own {
                    Err("self_card is not signed by identity_secret"@)
                } else if c.peers.len() > MAX_TRUSTED_PEERS {
                    Err("peers exceeds the limit of 128"@)
                } else {
                    match trusted_cards(own, c.peers) {
                        Err(e) => Err(e),
                        Ok(peers) => if c.role == Role::Join {
                            match selected_peer(peers, c.peer_public_key) {
                                Err(e) => Err(e),
                                Ok(peer) => Ok(
                                    PlanView::Join { secret, self_card, peers, peer, channel, relays },
                                ),
                            }
                        } else {
                            Ok(PlanView::Host { secret, self_card, peers, channel, relays })
                        },
                    }
                }
            },
        }
    }
}

/// The plan of a configuration, or why it has none. `canonical_pin` is the canonical
/// form of the typed PIN, where it has one.
pub open spec fn plan_for(c: ConfigView, canonical_pin: Option<Seq<char>>) -> Result<
    PlanView,
    Seq<char>,
> {
    let channel = chosen_channel(c.channel);
    let relays = chosen_relays(c.relays);
    if c.self_card is None {
        Err("self_card is required"@)
    } else {
        match card_of_text(c.self_card->0) {
            Err(e) => Err("invalid self_card: "@ + e),
            Ok(self_card) => match misplaced_field(c) {
                Some(e) => Err(e),
                None => match c.role {
                    Role::CardHost => Ok(PlanView::CardHost { self_card, channel, relays }),
                    Role::CardJoin => match canonical_pin {
                        None => Err(
                            "invalid PIN (enter the 8 characters shown on the other device)"@,
                        ),
                        Some(pin) => match typed_address(c.ip, channel) {
                            Err(e) => Err(e),
                            Ok(typed) => {
                                let target_ip = match typed {
                                    Some(ip) => Some(IpAddr::V4(ip)),
                                    None => None,
                                };
                                Ok(PlanView::CardJoin { pin, self_card, target_ip, channel, relays })
                            },
                        },
                    },
                    _ => key_plan(c, self_card),
                },
            },
        }
    }
}

/// Trusted cards never hold this installation's own key, and never the same key twice.
pub proof fn trusted_cards_are_distinct(own: Seq<u8>, peers: Seq<Seq<char>>)
    requires
        trusted_cards(own, peers) is Ok,
    ensures
        ({
            let cards = trusted_cards(own, peers)->Ok_0;
            &&& cards.len() == peers.len()
            &&& forall|i: int| 0 <= i < cards.len() ==> (#[trigger] cards[i]).public_key != own
            &&& forall|i: int, j: int|
                0 <= i < j < cards.len() ==> (#[trigger] cards[i]).public_key != (
                #[trigger] cards[j]).public_key
        }),
    decreases peers.len(),
{
    if peers.len() > 0 {
        trusted_cards_are_distinct(own, peers.drop_last());
        let before = trusted_cards(own, peers.drop_last())->Ok_0;
        let card = card_of_text(peers.last())->Ok_0;
        crate::net::lookup_finds_the_key(before, card.public_key, 0);
        let cards = trusted_cards(own, peers)->Ok_0;
        assert forall|i: int, j: int| 0 <= i < j < cards.len() implies (
        #[trigger] cards[i]).public_key != (#[trigger] cards[j]).public_key by {
            if j == before.len() {
                assert(cards[i] == before[i]);
            } else {
                assert(cards[i] == before[i] && cards[j] == before[j]);
            }
        }
    }
}

proof fn selected_index_is_in_range(cards: Seq<CardView>, selected: Seq<char>, from: int)
    requires
        0 <= from <= cards.len(),
    ensures
        match selected_index(cards, selected, from) {
            Some(i) => from <= i < cards.len(),
            None => true,
        },
    decreases cards.len() - from,
{
    if from < cards.len() {
        selected_index_is_in_range(cards, selected, from + 1);
    }
}

/// A joining session dials a key that one of its trusted cards carries, never its own.
pub proof fn joins_dial_only_trusted_peers(c: ConfigView, pin: Option<Seq<char>>)
    requires
        plan_for(c, pin) matches Ok(PlanView::Join { .. }),
    ensures
        plan_for(c, pin) matches Ok(PlanView::Join { secret, self_card, peers, peer, .. }) && {
            &&& exists|i: int| 0 <= i < peers.len() && (#[trigger] peers[i]).public_key == peer
            &&& peer != self_card.public_key
            &&& secret_public(secret)->0 == self_card.public_key
            &&& peers.len() <= MAX_TRUSTED_PEERS
        },
{
    let self_card = card_of_text(c.self_card->0)->Ok_0;
    let secret = nsec_secret(c.identity_secret->0)->Ok_0;
    let own = secret_public(secret)->0;
    trusted_cards_are_distinct(own, c.peers);
    let peers = trusted_cards(own, c.peers)->Ok_0;
    let selected = trimmed(c.peer_public_key->0);
    selected_index_is_in_range(peers, selected, 0);
    let i = selected_index(peers, selected, 0)->0;
    let peer = selected_peer(peers, c.peer_public_key)->Ok_0;
    assert(key_plan(c, self_card) == plan_for(c, pin));
    assert(peers[i].public_key == peer);
    assert(peer != own);
}

/// Fields of another role are refused, not ignored: no plan comes of a configuration
/// that holds one.
pub proof fn cross_role_fields_give_no_plan(c: ConfigView, pin: Option<Seq<char>>)
    requires
        (c.role == Role::CardHost || c.role == Role::CardJoin) && (c.identity_secret is Some
            || c.peers.len() > 0) || c.role != Role::CardJoin && (c.pin is Some || c.ip is Some)
            || c.role != Role::Join && c.peer_public_key is Some,
    ensures
        plan_for(c, pin) is Err,
{
}

/// What a command starts, if it starts a session.
pub open spec fn command_view(cmd: UiCommand) -> Option<PlanView> {
    match cmd {
        UiCommand::StartServer { mode: ServerMode::CardSetup { self_card, channel, relays } } => Some(
            PlanView::CardHost { self_card: self_card@, channel, relays: texts(relays@) },
        ),
        UiCommand::StartServer { mode: ServerMode::Key { identity, channel } } => Some(
            PlanView::Host {
                secret: identity.identity.secret_bytes(),
                self_card: identity.self_card@,
                peers: card_views(identity.peers@),
                channel,
                relays: texts(identity.relays@),
            },
        ),
        UiCommand::Connect {
            spec: DialSpec::CardSetup { canonical_pin, self_card, target_ip, channel, relays },
        } => Some(
            PlanView::CardJoin {
                pin: canonical_pin@,
                self_card: self_card@,
                target_ip,
                channel,
                relays: texts(relays@),
            },
        ),
        UiCommand::Connect { spec: DialSpec::Key { identity, peer_public_key, channel } } => Some(
            PlanView::Join {
                secret: identity.identity.secret_bytes(),
                self_card: identity.self_card@,
                peers: card_views(identity.peers@),
                peer: peer_public_key@,
                channel,
                relays: texts(identity.relays@),
            },
        ),
        _ => None,
    }
}

/// The command that ends a session of a role.
pub open spec fn ended_by(role: Role) -> UiCommand {
    if role == Role::Start || role == Role::CardHost {
        UiCommand::StopServer
    } else {
        UiCommand::Disconnect
    }
}

/// The two hosting roles are ended by stopping the server, and the two dialing roles by
/// hanging up.
pub proof fn hosts_stop_and_dialers_hang_up(role: Role)
    ensures
        ended_by(role) is StopServer <==> role is Start || role is CardHost,
        ended_by(role) is Disconnect <==> role is Join || role is CardJoin,
{
}

/// A session's commands: the one that starts it, and the one that ends it.
pub struct StartPlan {
    pub session_cmd: UiCommand,
    pub disconnect_cmd: UiCommand,
}

impl StartPlan {
    /// A host: ended by stopping the server.
    pub fn host(cmd: UiCommand) -> (r: StartPlan)
        ensures
            r.session_cmd == cmd,
            r.disconnect_cmd == UiCommand::StopServer,
    {
        StartPlan { session_cmd: cmd, disconnect_cmd: UiCommand::StopServer }
    }

    /// A dialer: ended by hanging up.
    pub fn dial(cmd: UiCommand) -> (r: StartPlan)
        ensures
            r.session_cmd == cmd,
            r.disconnect_cmd == UiCommand::Disconnect,
    {
        StartPlan { session_cmd: cmd, disconnect_cmd: UiCommand::Disconnect }
    }
}

fn relays_or_default(relays: Vec<String>) -> (r: Vec<String>)
    ensures
        texts(r@) == chosen_relays(texts(relays@)),
{
    if relays.len() > 0 {
        return relays;
    }
    let mut out: Vec<String> = Vec::new();
    out.push("wss://nos.lol".to_owned());
    out.push("wss://relay.nostr.net".to_owned());
    out.push("wss://relay.primal.net".to_owned());
    out.push("wss://relay.snort.social".to_owned());
    assert(texts(out@) =~= default_relays());
    out
}

fn with_context(context: &str, error: &str) -> (r: String)
    ensures
        r@ == context@ + error@,
{
    let mut out = context.to_owned();
    out.append(error);
    out
}

fn check_fields(cfg: &StartConfig) -> (r: Result<(), String>)
    ensures
        match r {
            Ok(()) => misplaced_field(cfg@) is None,
            Err(e) => misplaced_field(cfg@) == Some(e@),
        },
{
    let card_setup = cfg.role == Role::CardHost || cfg.role == Role::CardJoin;
    if card_setup && (cfg.identity_secret.is_some() || cfg.peers.len() > 0) {
        return Err(
            "card setup accepts only role, self_card, pin, ip, channel and relays".to_owned(),
        );
    }
    if cfg.role != Role::CardJoin && (cfg.pin.is_some() || cfg.ip.is_some()) {
        return Err("pin and ip are only valid for the card_join role".to_owned());
    }
    if cfg.role != Role::Join && cfg.peer_public_key.is_some() {
        return Err("peer_public_key is only valid for the join role".to_owned());
    }
    Ok(())
}

fn read_address(ip: &Option<String>, channel: SignalChannel) -> (r: Result<Option<Ipv4Addr>, String>)
    ensures
        match r {
            Ok(a) => typed_address(text_view(*ip), channel) == Ok::<Option<Ipv4Addr>, Seq<char>>(a),
            Err(e) => typed_address(text_view(*ip), channel) == Err::<
                Option<Ipv4Addr>,
                Seq<char>,
            >(e@),
        },
{
    let typed: String = match ip {
        Some(ip) => trim(ip.as_str()),
        None => return Ok(None),
    };
    if typed.as_str().is_empty() {
        return Ok(None);
    }
    if !channel.lan() {
        return Err("ip needs a channel that uses the local network".to_owned());
    }
    match Ipv4Addr::parse(typed.as_str()) {
        Some(ip) => Ok(Some(ip)),
        None => Err(
            "invalid host IP (enter the IPv4 address shown on the other device)".to_owned(),
        ),
    }
}

fn read_peers(own: PublicKey, peers: &Vec<String>) -> (r: Result<Vec<IdentityCard>, String>)
    ensures
        match r {
            Ok(cards) => trusted_cards(own@, texts(peers@)) == Ok::<Seq<CardView>, Seq<char>>(
                card_views(cards@),
            ),
            Err(e) => trusted_cards(own@, texts(peers@)) == Err::<Seq<CardView>, Seq<char>>(e@),
        },
{
    let ghost all = texts(peers@);
    let mut cards: Vec<IdentityCard> = Vec::new();
    let mut i: usize = 0;
    assert(card_views(cards@) =~= Seq::empty());
    while i < peers.len()
        invariant
            i <= peers@.len(),
            all == texts(peers@),
            trusted_cards(own@, all.take(i as int)) == Ok::<Seq<CardView>, Seq<char>>(
                card_views(cards@),
            ),
        decreases peers@.len() - i,
    {
        let ghost next = all.take(i + 1);
        proof {
            assert(next.drop_last() =~= all.take(i as int));
        }
        let card: IdentityCard = match IdentityCard::parse(peers[i].as_str()) {
            Ok(card) => card,
            Err(e) => {
                let e = with_context("invalid peer identity card: ", e.as_str());
                proof {
                    trusted_cards_fail_early(own@, all, i + 1);
                }
                return Err(e);
            },
        };
        if card.public_key().same(&own) {
            proof {
                trusted_cards_fail_early(own@, all, i + 1);
            }
            return Err("peers contains this installation's self_card".to_owned());
        }
        if find_card(&cards, card.public_key()).is_some() {
            proof {
                trusted_cards_fail_early(own@, all, i + 1);
            }
            return Err("peers contains a duplicate public key".to_owned());
        }
        let ghost before = cards@;
        cards.push(card);
        assert(card_views(cards@) =~= card_views(before).push(card@));
        i += 1;
    }
    assert(all.take(i as int) =~= all);
    Ok(cards)
}

/// A list of peers is refused for the first peer that is to be refused.
proof fn trusted_cards_fail_early(own: Seq<u8>, peers: Seq<Seq<char>>, n: int)
    requires
        0 <= n <= peers.len(),
        trusted_cards(own, peers.take(n)) is Err,
    ensures
        trusted_cards(own, peers) == trusted_cards(own, peers.take(n)),
    decreases peers.len() - n,
{
    if n < peers.len() {
        assert(peers.take(n + 1).drop_last() =~= peers.take(n));
        trusted_cards_fail_early(own, peers, n + 1);
    } else {
        assert(peers.take(n) =~= peers);
    }
}

fn read_selected(cards: &Vec<IdentityCard>, key: &Option<String>) -> (r: Result<PublicKey, String>)
    ensures
        match r {
            Ok(k) => selected_peer(card_views(cards@), text_view(*key)) == Ok::<
                Seq<u8>,
                Seq<char>,
            >(k@),
            Err(e) => selected_peer(card_views(cards@), text_view(*key)) == Err::<
                Seq<u8>,
                Seq<char>,
            >(e@),
        },
{
    let selected: String = match key {
        Some(key) => trim(key.as_str()),
        None => return Err("peer_public_key is required for join".to_owned()),
    };
    if selected.as_str().is_empty() {
        return Err("peer_public_key is required for join".to_owned());
    }
    let ghost views = card_views(cards@);
    let mut i: usize = 0;
    while i < cards.len()
        invariant
            i <= cards@.len(),
            views == card_views(cards@),
            text_view(*key) is Some,
            selected@ == trimmed(text_view(*key)->0),
            selected@.len() > 0,
            selected_index(views, selected@, 0) == selected_index(views, selected@, i as int),
        decreases cards@.len() - i,
    {
        let candidate: PublicKey = cards[i].public_key();
        if candidate.to_hex() == selected || cards[i].npub() == selected {
            return Ok(candidate);
        }
        i += 1;
    }
    Err("peer_public_key is not in the local trusted peer list".to_owned())
}

/// Builds the commands of a session from its configuration. `canonical_pin` is the
/// canonical form of the typed PIN, where it has one.
pub fn build_start_plan(cfg: StartConfig, canonical_pin: Option<String>) -> (r: Result<
    StartPlan,
    String,
>)
    ensures
        match r {
            Ok(plan) => {
                &&& command_view(plan.session_cmd) is Some
                &&& plan_for(cfg@, text_view(canonical_pin)) == Ok::<PlanView, Seq<char>>(
                    command_view(plan.session_cmd)->0,
                )
                &&& if cfg.role == Role::Start || cfg.role == Role::CardHost {
                    plan.disconnect_cmd == UiCommand::StopServer
                } else {
                    plan.disconnect_cmd == UiCommand::Disconnect
                }
                &&& plan.disconnect_cmd == ended_by(cfg.role)
            },
            Err(e) => plan_for(cfg@, text_view(canonical_pin)) == Err::<PlanView, Seq<char>>(e@),
        },
{
    let channel: SignalChannel = match cfg.channel {
        Some(channel) => channel,
        None => SignalChannel::LanThenNostr,
    };
    let self_card: IdentityCard = match &cfg.self_card {
        Some(text) => match IdentityCard::parse(text.as_str()) {
            Ok(card) => card,
            Err(e) => return Err(with_context("invalid self_card: ", e.as_str())),
        },
        None => return Err("self_card is required".to_owned()),
    };
    match check_fields(&cfg) {
        Ok(()) => {},
        Err(e) => return Err(e),
    }
    match cfg.role {
        Role::CardHost => {
            let relays = relays_or_default(cfg.relays);
            return Ok(
                StartPlan::host(
                    UiCommand::StartServer {
                        mode: ServerMode::CardSetup {
                            self_card: Box::new(self_card),
                            channel,
                            relays,
                        },
                    },
                ),
            );
        },
        Role::CardJoin => {
            let canonical_pin: String = match canonical_pin {
                Some(pin) => pin,
                None => {
                    return Err(
                        "invalid PIN (enter the 8 characters shown on the other device)".to_owned(),
                    )
                },
            };
            let target_ip: Option<IpAddr> = match read_address(&cfg.ip, channel) {
                Ok(Some(ip)) => Some(IpAddr::V4(ip)),
                Ok(None) => None,
                Err(e) => return Err(e),
            };
            let relays = relays_or_default(cfg.relays);
            return Ok(
                StartPlan::dial(
                    UiCommand::Connect {
                        spec: DialSpec::CardSetup {
                            canonical_pin,
                            self_card: Box::new(self_card),
                            target_ip,
                            channel,
                            relays,
                        },
                    },
                ),
            );
        },
        _ => {},
    }
    let identity: Identity = match &cfg.identity_secret {
        Some(secret) => match Identity::parse_nsec(secret.as_str()) {
            Ok(identity) => identity,
            Err(e) => return Err(with_context("invalid identity_secret: ", e.as_str())),
        },
        None => return Err("identity_secret is required".to_owned()),
    };
    let own: PublicKey = identity.public_key();
    if !self_card.public_key().same(&own) {
        return Err("self_card is not signed by identity_secret".to_owned());
    }
    if cfg.peers.len() > MAX_TRUSTED_PEERS {
        return Err("peers exceeds the limit of 128".to_owned());
    }
    let peers: Vec<IdentityCard> = match read_peers(own, &cfg.peers) {
        Ok(peers) => peers,
        Err(e) => return Err(e),
    };
    let selected: Option<PublicKey> = if cfg.role == Role::Join {
        match read_selected(&peers, &cfg.peer_public_key) {
            Ok(key) => Some(key),
            Err(e) => return Err(e),
        }
    } else {
        None
    };
    let relays = relays_or_default(cfg.relays);
    let key_identity = KeyIdentity { identity, self_card, peers, relays };
    match selected {
        None => Ok(
            StartPlan::host(
                UiCommand::StartServer {
                    mode: ServerMode::Key { identity: Box::new(key_identity), channel },
                },
            ),
        ),
        Some(peer_public_key) => Ok(
            StartPlan::dial(
                UiCommand::Connect {
                    spec: DialSpec::Key {
                        identity: Box::new(key_identity),
                        peer_public_key,
                        channel,
                    },
                },
            ),
        ),
    }
}

// ---------------------------------------------------------------------------
// What a plan holds
// ---------------------------------------------------------------------------

proof fn selected_index_is_the_first(cards: Seq<CardView>, selected: Seq<char>, from: int)
    requires
        0 <= from <= cards.len(),
    ensures
        match selected_index(cards, selected, from) {
            Some(i) => from <= i < cards.len() && (hex_text(cards[i].public_key) == selected
                || npub_text(cards[i].public_key) == selected),
            None => forall|j: int|
                from <= j < cards.len() ==> hex_text((#[trigger] cards[j]).public_key) != selected
                    && npub_text(cards[j].public_key) != selected,
        },
    decreases cards.len() - from,
{
    if from < cards.len() {
        selected_index_is_the_first(cards, selected, from + 1);
    }
}

/// A joining session dials the peer that was selected: the dialed key, written in
/// hexadecimal or in bech32, is the trimmed selection.
pub proof fn joins_dial_the_selected_peer(c: ConfigView, pin: Option<Seq<char>>)
    requires
        plan_for(c, pin) matches Ok(PlanView::Join { .. }),
    ensures
        c.role == Role::Join,
        c.peer_public_key is Some,
        plan_for(c, pin) matches Ok(PlanView::Join { peer, .. }) && (hex_text(peer) == trimmed(
            c.peer_public_key->0,
        ) || npub_text(peer) == trimmed(c.peer_public_key->0)),
{
    let self_card = card_of_text(c.self_card->0)->Ok_0;
    assert(key_plan(c, self_card) == plan_for(c, pin));
    let own = secret_public(nsec_secret(c.identity_secret->0)->Ok_0)->0;
    let peers = trusted_cards(own, c.peers)->Ok_0;
    selected_index_is_the_first(peers, trimmed(c.peer_public_key->0), 0);
}

/// A list of peers is accepted exactly where every text is a card, none is this
/// installation's own and no two carry the same key; and what is trusted is then the card
/// of every text, in the order of the list.
pub proof fn every_listed_card_is_trusted(own: Seq<u8>, peers: Seq<Seq<char>>)
    ensures
        trusted_cards(own, peers) is Ok <==> {
            &&& forall|i: int|
                0 <= i < peers.len() ==> card_of_text(#[trigger] peers[i]) is Ok && card_of_text(
                    peers[i],
                )->Ok_0.public_key != own
            &&& forall|i: int, j: int|
                0 <= i < j < peers.len() ==> card_of_text(#[trigger] peers[i])->Ok_0.public_key
                    != card_of_text(#[trigger] peers[j])->Ok_0.public_key
        },
        trusted_cards(own, peers) matches Ok(cards) ==> cards.len() == peers.len() && forall|i: int|
            0 <= i < cards.len() ==> #[trigger] cards[i] == card_of_text(peers[i])->Ok_0,
    decreases peers.len(),
{
    if peers.len() > 0 {
        let rest = peers.drop_last();
        let last = peers.len() - 1;
        every_listed_card_is_trusted(own, rest);
        assert(forall|i: int| 0 <= i < rest.len() ==> rest[i] == peers[i]);
        assert(peers[last] == peers.last());
        if let Ok(before) = trusted_cards(own, rest) {
            if let Ok(card) = card_of_text(peers.last()) {
                crate::net::lookup_finds_the_key(before, card.public_key, 0);
                if trusted_card(before, card.public_key) is Some {
                    let k = crate::net::card_index(before, card.public_key, 0)->0;
                    assert(before[k].public_key == card.public_key);
                    assert(before[k] == card_of_text(peers[k])->Ok_0);
                    assert(!(card_of_text(peers[k])->Ok_0.public_key != card_of_text(
                        peers[last],
                    )->Ok_0.public_key));
                } else {
                    assert forall|i: int, j: int| 0 <= i < j < peers.len() implies card_of_text(
                        #[trigger] peers[i],
                    )->Ok_0.public_key != card_of_text(#[trigger] peers[j])->Ok_0.public_key by {
                        assert(before[i] == card_of_text(peers[i])->Ok_0);
                        assert(rest[i] == peers[i]);
                        if j < last {
                            assert(rest[j] == peers[j]);
                        }
                    }
                    assert forall|i: int| 0 <= i < peers.len() implies card_of_text(
                        #[trigger] peers[i],
                    ) is Ok && card_of_text(peers[i])->Ok_0.public_key != own || card.public_key
                        == own by {
                        if i < last {
                            assert(rest[i] == peers[i]);
                        }
                    }
                }
            }
        } else {
            if forall|i: int|
                0 <= i < peers.len() ==> card_of_text(#[trigger] peers[i]) is Ok && card_of_text(
                    peers[i],
                )->Ok_0.public_key != own {
                assert forall|i: int| 0 <= i < rest.len() implies card_of_text(#[trigger] rest[i])
                    is Ok && card_of_text(rest[i])->Ok_0.public_key != own by {
                    assert(rest[i] == peers[i]);
                }
                let (i, j) = choose|i: int, j: int|
                    0 <= i < j < rest.len() && card_of_text(#[trigger] rest[i])->Ok_0.public_key
                        == card_of_text(#[trigger] rest[j])->Ok_0.public_key;
                assert(rest[i] == peers[i] && rest[j] == peers[j]);
                assert(card_of_text(peers[i])->Ok_0.public_key == card_of_text(
                    peers[j],
                )->Ok_0.public_key);
            }
        }
    }
}

/// A plan holds what its configuration says: the card and the secret that were given, a
/// card that belongs to that secret, the card of every peer in order, the typed PIN and
/// address, and the channel and relays that were chosen, where any were.
pub proof fn plans_hold_what_was_configured(c: ConfigView, pin: Option<Seq<char>>)
    requires
        plan_for(c, pin) is Ok,
    ensures
        c.self_card is Some,
        ({
            let card = card_of_text(c.self_card->0);
            let channel = match c.channel {
                Some(channel) => channel,
                None => SignalChannel::LanThenNostr,
            };
            &&& card is Ok
            &&& match plan_for(c, pin)->Ok_0 {
                PlanView::CardHost { self_card, channel: ch, relays } => {
                    &&& c.role == Role::CardHost
                    &&& self_card == card->Ok_0
                    &&& ch == channel
                    &&& c.relays.len() > 0 ==> relays == c.relays
                },
                PlanView::CardJoin { pin: p, self_card, target_ip, channel: ch, relays } => {
                    &&& c.role == Role::CardJoin
                    &&& pin == Some(p)
                    &&& self_card == card->Ok_0
                    &&& ch == channel
                    &&& c.relays.len() > 0 ==> relays == c.relays
                    &&& target_ip is Some <==> c.ip is Some && trimmed(c.ip->0).len() > 0
                    &&& target_ip matches Some(ip) ==> ch != SignalChannel::NostrOnly
                        && parsed_ip(trimmed(c.ip->0)) is Some && ip == IpAddr::V4(
                        parsed_ip(trimmed(c.ip->0))->0,
                    )
                },
                PlanView::Host { secret, self_card, peers, channel: ch, relays } => {
                    &&& c.role == Role::Start
                    &&& c.identity_secret is Some && nsec_secret(c.identity_secret->0) == Ok::<
                        Seq<u8>,
                        Seq<char>,
                    >(secret)
                    &&& self_card == card->Ok_0
                    &&& self_card.public_key == secret_public(secret)->0
                    &&& peers.len() == c.peers.len() && peers.len() <= 128
                    &&& forall|i: int|
                        0 <= i < peers.len() ==> #[trigger] peers[i] == card_of_text(
                            c.peers[i],
                        )->Ok_0
                    &&& ch == channel
                    &&& c.relays.len() > 0 ==> relays == c.relays
                },
                PlanView::Join { secret, self_card, peers, peer, channel: ch, relays } => {
                    &&& c.role == Role::Join
                    &&& c.identity_secret is Some && nsec_secret(c.identity_secret->0) == Ok::<
                        Seq<u8>,
                        Seq<char>,
                    >(secret)
                    &&& self_card == card->Ok_0
                    &&& self_card.public_key == secret_public(secret)->0
                    &&& peers.len() == c.peers.len() && peers.len() <= 128
                    &&& forall|i: int|
                        0 <= i < peers.len() ==> #[trigger] peers[i] == card_of_text(
                            c.peers[i],
                        )->Ok_0
                    &&& ch == channel
                    &&& c.relays.len() > 0 ==> relays == c.relays
                },
            }
        }),
{
    if c.role == Role::Start || c.role == Role::Join {
        assert(plan_for(c, pin) == key_plan(c, card_of_text(c.self_card->0)->Ok_0));
        let own = secret_public(nsec_secret(c.identity_secret->0)->Ok_0)->0;
        every_listed_card_is_trusted(own, c.peers);
    }
}

/// Every complete configuration of a key role has a plan: where the card belongs to the
/// secret, the peers are at most 128 distinct cards of others, and no field of another role
/// is given, a host is started; and a dialer is, where the selection names one of the peers
/// in hexadecimal or in bech32.
pub proof fn complete_key_configurations_have_a_plan(
    c: ConfigView,
    pin: Option<Seq<char>>,
    card: CardView,
    secret: Seq<u8>,
    i: int,
)
    requires
        c.self_card is Some && card_of_text(c.self_card->0) == Ok::<CardView, Seq<char>>(card),
        c.identity_secret is Some && nsec_secret(c.identity_secret->0) == Ok::<
            Seq<u8>,
            Seq<char>,
        >(secret),
        secret_public(secret)->0 == card.public_key,
        c.peers.len() <= 128,
        forall|k: int|
            0 <= k < c.peers.len() ==> card_of_text(#[trigger] c.peers[k]) is Ok && card_of_text(
                c.peers[k],
            )->Ok_0.public_key != card.public_key,
        forall|k: int, l: int|
            0 <= k < l < c.peers.len() ==> card_of_text(#[trigger] c.peers[k])->Ok_0.public_key
                != card_of_text(#[trigger] c.peers[l])->Ok_0.public_key,
        c.pin is None && c.ip is None,
    ensures
        c.role == Role::Start && c.peer_public_key is None ==> (plan_for(c, pin) matches Ok(
            PlanView::Host { .. },
        )),
        c.role == Role::Join && c.peer_public_key is Some && trimmed(c.peer_public_key->0).len() > 0
            && 0 <= i < c.peers.len() && (hex_text(card_of_text(c.peers[i])->Ok_0.public_key)
            == trimmed(c.peer_public_key->0) || npub_text(card_of_text(c.peers[i])->Ok_0.public_key)
            == trimmed(c.peer_public_key->0)) ==> (plan_for(c, pin) matches Ok(
            PlanView::Join { .. },
        )),
{
    every_listed_card_is_trusted(card.public_key, c.peers);
    let peers = trusted_cards(card.public_key, c.peers)->Ok_0;
    if c.peer_public_key is Some {
        selected_index_is_the_first(peers, trimmed(c.peer_public_key->0), 0);
        if 0 <= i < c.peers.len() {
            assert(peers[i] == card_of_text(c.peers[i])->Ok_0);
        }
    }
}

/// Every complete configuration of card setup has a plan: a host needs its card alone; a
/// joiner also a PIN, and may name the host's IPv4 address where the local network is used.
pub proof fn complete_card_setups_have_a_plan(c: ConfigView, pin: Option<Seq<char>>)
    requires
        c.self_card is Some && card_of_text(c.self_card->0) is Ok,
        c.identity_secret is None && c.peers.len() == 0 && c.peer_public_key is None,
    ensures
        c.role == Role::CardHost && c.pin is None && c.ip is None ==> (plan_for(c, pin) matches Ok(
            PlanView::CardHost { .. },
        )),
        c.role == Role::CardJoin && pin is Some && (c.ip is None || trimmed(c.ip->0).len() == 0
            || (c.channel != Some(SignalChannel::NostrOnly) && parsed_ip(trimmed(c.ip->0))
            is Some)) ==> (plan_for(c, pin) matches Ok(PlanView::CardJoin { .. })),
        c.role == Role::CardJoin && pin is None ==> plan_for(c, pin) is Err,
{
}

/// Whatever is chosen is used: relays and a channel that are given are never replaced, and
/// where none are given there are relays, and both channels are used.
pub proof fn choices_are_kept(relays: Seq<Seq<char>>, channel: SignalChannel)
    ensures
        relays.len() > 0 ==> chosen_relays(relays) == relays,
        chosen_relays(relays).len() > 0,
        chosen_channel(Some(channel)) == channel,
        chosen_channel(None) == SignalChannel::LanThenNostr,
{
}

/// A command starts what it holds: the session of its kind, with its cards, its secret, its
/// peer, its PIN and address, its channel and its relays.
pub proof fn commands_start_what_they_hold(
    identity: Box<KeyIdentity>,
    self_card: Box<IdentityCard>,
    peer_public_key: PublicKey,
    canonical_pin: String,
    target_ip: Option<IpAddr>,
    channel: SignalChannel,
    relays: Vec<String>,
)
    ensures
        command_view(UiCommand::StartServer { mode: ServerMode::Key { identity, channel } }) == Some(
            PlanView::Host {
                secret: identity.identity.secret_bytes(),
                self_card: identity.self_card@,
                peers: card_views(identity.peers@),
                channel,
                relays: texts(identity.relays@),
            },
        ),
        command_view(
            UiCommand::Connect { spec: DialSpec::Key { identity, peer_public_key, channel } },
        ) == Some(
            PlanView::Join {
                secret: identity.identity.secret_bytes(),
                self_card: identity.self_card@,
                peers: card_views(identity.peers@),
                peer: peer_public_key@,
                channel,
                relays: texts(identity.relays@),
            },
        ),
        command_view(
            UiCommand::StartServer { mode: ServerMode::CardSetup { self_card, channel, relays } },
        ) == Some(PlanView::CardHost { self_card: self_card@, channel, relays: texts(relays@) }),
        command_view(
            UiCommand::Connect {
                spec: DialSpec::CardSetup { canonical_pin, self_card, target_ip, channel, relays },
            },
        ) == Some(
            PlanView::CardJoin {
                pin: canonical_pin@,
                self_card: self_card@,
                target_ip,
                channel,
                relays: texts(relays@),
            },
        ),
{
}

/// A configuration is taken as it stands: every field, and every peer and relay in order.
pub proof fn configurations_are_taken_whole(cfg: StartConfig, i: int)
    ensures
        cfg@.role == cfg.role,
        cfg@.channel == cfg.channel,
        cfg@.identity_secret is Some <==> cfg.identity_secret is Some,
        cfg.identity_secret is Some ==> cfg@.identity_secret->0 == cfg.identity_secret->0@,
        cfg@.self_card is Some <==> cfg.self_card is Some,
        cfg.self_card is Some ==> cfg@.self_card->0 == cfg.self_card->0@,
        cfg@.peer_public_key is Some <==> cfg.peer_public_key is Some,
        cfg.peer_public_key is Some ==> cfg@.peer_public_key->0 == cfg.peer_public_key->0@,
        cfg@.pin is Some <==> cfg.pin is Some,
        cfg.pin is Some ==> cfg@.pin->0 == cfg.pin->0@,
        cfg@.ip is Some <==> cfg.ip is Some,
        cfg.ip is Some ==> cfg@.ip->0 == cfg.ip->0@,
        cfg@.peers.len() == cfg.peers@.len(),
        0 <= i < cfg.peers@.len() ==> cfg@.peers[i] == cfg.peers@[i]@,
        cfg@.relays.len() == cfg.relays@.len(),
        0 <= i < cfg.relays@.len() ==> cfg@.relays[i] == cfg.relays@[i]@,
{
}

/// A configuration of any role that has no plan says what is wrong with it: first of the own
/// card, and then of a field that its role does not take.
pub proof fn misplaced_fields_are_named(c: ConfigView, pin: Option<Seq<char>>)
    ensures
        c.self_card is None ==> plan_for(c, pin) == Err::<PlanView, Seq<char>>(
            "self_card is required"@,
        ),
        c.self_card is Some ==> (card_of_text(c.self_card->0) matches Err(e) ==> plan_for(c, pin)
            == Err::<PlanView, Seq<char>>("invalid self_card: "@ + e)),
        c.self_card is Some && card_of_text(c.self_card->0) is Ok ==> {
            &&& (c.role is CardHost || c.role is CardJoin) && (c.identity_secret is Some
                || c.peers.len() > 0) ==> plan_for(c, pin) == Err::<PlanView, Seq<char>>(
                "card setup accepts only role, self_card, pin, ip, channel and relays"@,
            )
            &&& !((c.role is CardHost || c.role is CardJoin) && (c.identity_secret is Some
                || c.peers.len() > 0)) && !(c.role is CardJoin) && (c.pin is Some || c.ip is Some)
                ==> plan_for(c, pin) == Err::<PlanView, Seq<char>>(
                "pin and ip are only valid for the card_join role"@,
            )
            &&& c.role is Start && c.pin is None && c.ip is None && c.peer_public_key is Some
                ==> plan_for(c, pin) == Err::<PlanView, Seq<char>>(
                "peer_public_key is only valid for the join role"@,
            )
        },
{
}

/// A joiner without a usable PIN, or with an address that is none or that its channel cannot
/// reach, is told so.
pub proof fn unusable_pins_and_addresses_are_named(c: ConfigView, pin: Option<Seq<char>>)
    requires
        c.role is CardJoin,
        c.self_card is Some && card_of_text(c.self_card->0) is Ok,
        c.identity_secret is None && c.peers.len() == 0 && c.peer_public_key is None,
    ensures
        pin is None ==> plan_for(c, pin) == Err::<PlanView, Seq<char>>(
            "invalid PIN (enter the 8 characters shown on the other device)"@,
        ),
        pin is Some && c.ip is Some && trimmed(c.ip->0).len() > 0 ==> {
            &&& c.channel == Some(SignalChannel::NostrOnly) ==> plan_for(c, pin) == Err::<
                PlanView,
                Seq<char>,
            >("ip needs a channel that uses the local network"@)
            &&& c.channel != Some(SignalChannel::NostrOnly) && parsed_ip(trimmed(c.ip->0)) is None
                ==> plan_for(c, pin) == Err::<PlanView, Seq<char>>(
                "invalid host IP (enter the IPv4 address shown on the other device)"@,
            )
        },
{
}

/// A configuration of a key role that has no plan says what is wrong with its secret, its
/// peers or its selection.
pub proof fn unusable_keys_and_peers_are_named(
    c: ConfigView,
    pin: Option<Seq<char>>,
    card: CardView,
)
    requires
        c.role is Start && c.peer_public_key is None || c.role is Join,
        c.self_card is Some && card_of_text(c.self_card->0) == Ok::<CardView, Seq<char>>(card),
        c.pin is None && c.ip is None,
    ensures
        c.identity_secret is None ==> plan_for(c, pin) == Err::<PlanView, Seq<char>>(
            "identity_secret is required"@,
        ),
        c.identity_secret is Some ==> match nsec_secret(c.identity_secret->0) {
            Err(e) => plan_for(c, pin) == Err::<PlanView, Seq<char>>(
                "invalid identity_secret: "@ + e,
            ),
            Ok(secret) => {
                let own = secret_public(secret)->0;
                &&& card.public_key != own ==> plan_for(c, pin) == Err::<PlanView, Seq<char>>(
                    "self_card is not signed by identity_secret"@,
                )
                &&& card.public_key == own && c.peers.len() > 128 ==> plan_for(c, pin) == Err::<
                    PlanView,
                    Seq<char>,
                >("peers exceeds the limit of 128"@)
                &&& card.public_key == own && c.peers.len() <= 128 ==> match trusted_cards(
                    own,
                    c.peers,
                ) {
                    Err(e) => plan_for(c, pin) == Err::<PlanView, Seq<char>>(e),
                    Ok(peers) => {
                        &&& c.role is Join && (c.peer_public_key is None || trimmed(
                            c.peer_public_key->0,
                        ).len() == 0) ==> plan_for(c, pin) == Err::<PlanView, Seq<char>>(
                            "peer_public_key is required for join"@,
                        )
                        &&& c.role is Join && c.peer_public_key is Some && trimmed(
                            c.peer_public_key->0,
                        ).len() > 0 && (forall|i: int|
                            0 <= i < peers.len() ==> hex_text((#[trigger] peers[i]).public_key)
                                != trimmed(c.peer_public_key->0) && npub_text(peers[i].public_key)
                                != trimmed(c.peer_public_key->0)) ==> plan_for(c, pin) == Err::<
                            PlanView,
                            Seq<char>,
                        >("peer_public_key is not in the local trusted peer list"@)
                    },
                }
            },
        },
{
    if c.peer_public_key is Some {
        let own = secret_public(nsec_secret(c.identity_secret->0)->Ok_0)->0;
        if let Ok(peers) = trusted_cards(own, c.peers) {
            selected_index_is_the_first(peers, trimmed(c.peer_public_key->0), 0);
            if let Some(i) = selected_index(peers, trimmed(c.peer_public_key->0), 0) {
                let at = peers[i];
            }
        }
    }
}

/// A peer that is refused is refused for what it is: a text that is no card, this
/// installation's own card, or a key that an earlier peer has.
pub proof fn refused_peers_are_named(own: Seq<u8>, front: Seq<Seq<char>>, text: Seq<char>)
    requires
        trusted_cards(own, front) is Ok,
    ensures
        card_of_text(text) matches Err(e) ==> trusted_cards(own, front.push(text)) == Err::<
            Seq<CardView>,
            Seq<char>,
        >("invalid peer identity card: "@ + e),
        card_of_text(text) matches Ok(card) ==> {
            let before = trusted_cards(own, front)->Ok_0;
            &&& card.public_key == own ==> trusted_cards(own, front.push(text)) == Err::<
                Seq<CardView>,
                Seq<char>,
            >("peers contains this installation's self_card"@)
            &&& card.public_key != own && (exists|i: int|
                0 <= i < before.len() && (#[trigger] before[i]).public_key == card.public_key)
                ==> trusted_cards(own, front.push(text)) == Err::<Seq<CardView>, Seq<char>>(
                "peers contains a duplicate public key"@,
            )
        },
{
    assert(front.push(text).drop_last() =~= front);
    if let Ok(card) = card_of_text(text) {
        crate::net::lookup_finds_the_key(trusted_cards(own, front)->Ok_0, card.public_key, 0);
    }
}

/// Where no relays are chosen, the four default ones are used.
pub proof fn four_relays_are_the_default()
    ensures
        chosen_relays(Seq::<Seq<char>>::empty()) == seq![
            "wss://nos.lol"@,
            "wss://relay.nostr.net"@,
            "wss://relay.primal.net"@,
            "wss://relay.snort.social"@,
        ],
{
}

} // verus!
