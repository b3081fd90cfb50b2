//! The networking runtime's vocabulary: channels, modes, commands, statuses and
//! events, and the order in which events reach the user interface.

use vstd::prelude::*;
use vstd::string::*;

use crate::addr::IpAddr;
use crate::auth::{CardView, Identity, IdentityCard, PublicKey};
use crate::json::text_view;

pub mod actions;
pub mod card_setup;
pub mod claim;
pub mod client;
pub mod endpoint;
pub mod handshake;
pub mod listener;
pub mod publisher;
pub mod pump;
pub mod resolve;
pub mod server;
pub mod session;

verus! {

/// Persistent configure-mode identity plus its local trust store.
pub struct KeyIdentity {
    pub identity: Identity,
    pub self_card: IdentityCard,
    pub peers: Vec<IdentityCard>,
    pub relays: Vec<String>,
}

/// The views of a list of cards.
pub open spec fn card_views(cards: Seq<IdentityCard>) -> Seq<CardView> {
    cards.map_values(|c: IdentityCard| c@)
}

/// The index from `from` on of the first card with the key `key`.
pub open spec fn card_index(cards: Seq<CardView>, key: Seq<u8>, from: int) -> Option<int>
    decreases cards.len() - from,
{
    if from < 0 || from >= cards.len() {
        None
    } else if cards[from].public_key == key {
        Some(from)
    } else {
        card_index(cards, key, from + 1)
    }
}

/// The first card with the key `key`.
pub open spec fn trusted_card(cards: Seq<CardView>, key: Seq<u8>) -> Option<CardView> {
    match card_index(cards, key, 0) {
        Some(i) => Some(cards[i]),
        None => None,
    }
}

/// A card that is found carries the key it was looked up by; where none is found, no
/// card carries it.
pub proof fn lookup_finds_the_key(cards: Seq<CardView>, key: Seq<u8>, from: int)
    requires
        0 <= from <= cards.len(),
    ensures
        match card_index(cards, key, from) {
            Some(i) => from <= i < cards.len() && cards[i].public_key == key,
            None => forall|i: int| from <= i < cards.len() ==> (#[trigger] cards[i]).public_key != key,
        },
    decreases cards.len() - from,
{
    if from < cards.len() && cards[from].public_key != key {
        lookup_finds_the_key(cards, key, from + 1);
    }
}

/// A lookup finds the first card with its key, and no other.
pub proof fn lookup_finds_the_first(cards: Seq<CardView>, key: Seq<u8>, i: int)
    requires
        0 <= i < cards.len(),
        cards[i].public_key == key,
        forall|j: int| 0 <= j < i ==> (#[trigger] cards[j]).public_key != key,
    ensures
        card_index(cards, key, 0) == Some(i),
        trusted_card(cards, key) == Some(cards[i]),
{
    lookup_finds_the_first_from(cards, key, i, 0);
}

proof fn lookup_finds_the_first_from(cards: Seq<CardView>, key: Seq<u8>, i: int, from: int)
    requires
        0 <= from <= i < cards.len(),
        cards[i].public_key == key,
        forall|j: int| from <= j < i ==> (#[trigger] cards[j]).public_key != key,
    ensures
        card_index(cards, key, from) == Some(i),
    decreases i - from,
{
    if from < i {
        lookup_finds_the_first_from(cards, key, i, from + 1);
    }
}

/// Finds the first of the cards with the key `key`.
pub fn find_card<'a>(cards: &'a Vec<IdentityCard>, key: PublicKey) -> (r: Option<&'a IdentityCard>)
    ensures
        match r {
            Some(card) => trusted_card(card_views(cards@), key@) == Some(card@),
            None => trusted_card(card_views(cards@), key@) is None,
        },
{
    let ghost views = card_views(cards@);
    let mut i: usize = 0;
    while i < cards.len()
        invariant
            i <= cards@.len(),
            views == card_views(cards@),
            card_index(views, key@, 0) == card_index(views, key@, i as int),
        decreases cards@.len() - i,
    {
        if cards[i].public_key().same(&key) {
            return Some(&cards[i]);
        }
        i += 1;
    }
    None
}

impl KeyIdentity {
    /// The locally trusted card with the given key.
    pub fn peer(&self, public_key: PublicKey) -> (r: Option<&IdentityCard>)
        ensures
            match r {
                Some(card) => trusted_card(card_views(self.peers@), public_key@) == Some(card@),
                None => trusted_card(card_views(self.peers@), public_key@) is None,
            },
    {
        find_card(&self.peers, public_key)
    }
}

/// Which transports carry the rendezvous records.
#[derive(Clone, Copy, Debug, PartialEq, Eq, Structural)]
pub enum SignalChannel {
    /// Try the local network first, and fall back to the relays when nothing local
    /// answers.
    LanThenNostr,
    /// Relays only.
    NostrOnly,
    /// Local network only.
    LanOnly,
}

impl Default for SignalChannel {
    fn default() -> (r: SignalChannel)
        ensures
            r == SignalChannel::LanThenNostr,
    {
        SignalChannel::LanThenNostr
    }
}

/// Whether the local network is used on a channel.
pub open spec fn uses_lan(channel: SignalChannel) -> bool {
    channel != SignalChannel::NostrOnly
}

/// Whether the relays are used on a channel.
pub open spec fn uses_relays(channel: SignalChannel) -> bool {
    channel != SignalChannel::LanOnly
}

/// Each restricted channel uses the one backend that it is restricted to, and the default
/// uses both.
pub proof fn channels_use_what_they_name()
    ensures
        uses_lan(SignalChannel::LanOnly) && !uses_relays(SignalChannel::LanOnly),
        !uses_lan(SignalChannel::NostrOnly) && uses_relays(SignalChannel::NostrOnly),
        uses_lan(SignalChannel::LanThenNostr) && uses_relays(SignalChannel::LanThenNostr),
{
}

impl SignalChannel {
    /// Whether the local-network backends participate.
    pub fn lan(self) -> (r: bool)
        ensures
            r == (self != SignalChannel::NostrOnly),
            r == uses_lan(self),
    {
        match self {
            SignalChannel::LanThenNostr => true,
            SignalChannel::LanOnly => true,
            SignalChannel::NostrOnly => false,
        }
    }

    /// Whether the relay backend participates.
    pub fn nostr(self) -> (r: bool)
        ensures
            r == (self != SignalChannel::LanOnly),
            r == uses_relays(self),
    {
        match self {
            SignalChannel::LanThenNostr => true,
            SignalChannel::NostrOnly => true,
            SignalChannel::LanOnly => false,
        }
    }
}

/// How the server signals its ephemeral node id to the client.
pub enum ServerMode {
    /// Configure mode: publish a pairwise hosting record for each trusted peer on
    /// every enabled channel, and authenticate with the persistent application key.
    Key { identity: Box<KeyIdentity>, channel: SignalChannel },
    /// Card setup: show a rotating PIN, and swap identity cards with the one joiner
    /// that proves it.
    CardSetup { self_card: Box<IdentityCard>, channel: SignalChannel, relays: Vec<String> },
}

/// What the client dials.
pub enum DialSpec {
    /// Resolve and authenticate exactly one locally trusted application key.
    Key { identity: Box<KeyIdentity>, peer_public_key: PublicKey, channel: SignalChannel },
    /// Resolve the host through the rotating-PIN rendezvous, prove the PIN, then swap
    /// identity cards. `target_ip` is the host address that the user typed, if any: the
    /// record is then fetched from that host's side channel.
    CardSetup {
        canonical_pin: String,
        self_card: Box<IdentityCard>,
        target_ip: Option<IpAddr>,
        channel: SignalChannel,
        relays: Vec<String>,
    },
}

/// Commands from the user interface to the networking runtime.
pub enum UiCommand {
    StartServer { mode: ServerMode },
    StopServer,
    Connect { spec: DialSpec },
    Disconnect,
    /// Card setup: mint and publish a fresh PIN immediately, invalidating every
    /// previously shown PIN.
    RefreshPin,
    SendClipboard { text: String },
    /// Request a snapshot of the live connection's paths.
    QueryConnPath,
    Shutdown,
}

/// Connection status surfaced to the user interface.
#[derive(Clone, Copy, Debug, PartialEq, Eq, Structural)]
pub enum ConnStatus {
    /// No session running.
    Idle,
    /// Session starting.
    Starting,
    /// Server: listening, no peer yet.
    Listening,
    /// Client: resolving the target.
    Resolving,
    /// Client: dialing the resolved node id.
    Connecting,
    /// Authenticating with the peer.
    Authenticating,
    /// Paired and the channel is up.
    Connected,
    /// Client: waiting to retry, showing the attempt against the give-up bound.
    Reconnecting { attempt: u32, max: u32 },
}

/// Events from the networking runtime to the user interface.
pub enum NetEvent {
    ServerReady { node_id: String, identity_public_key: Option<String> },
    ClientReady { node_id: String, identity_public_key: Option<String> },
    /// Card setup: a fresh PIN was minted.
    PinRotated { pin_display: String, seconds_left: u64, host_lan_ip: Option<String> },
    /// Card setup: paired (or stopped), stop showing a PIN.
    PinCleared,
    Status(ConnStatus),
    /// A peer authenticated. `peer_public_key` is the trusted application key in
    /// configure mode, and always `None` in card setup.
    PeerPaired { peer_node_id: String, peer_public_key: Option<String> },
    /// Card setup: the peer's signed identity card arrived. Whether it is trusted is
    /// not decided here.
    PeerCardReceived(Box<IdentityCard>),
    PeerDisconnected,
    /// Answer to [`UiCommand::QueryConnPath`].
    ConnPath(Vec<endpoint::ConnPath>),
    /// A clipboard item arrived. `pulled` marks a re-delivery after a resume.
    ItemReceived { text: String, pulled: bool },
    ItemSent,
    Error(String),
}

/// What an event says.
pub enum NetEventView {
    ServerReady { node_id: Seq<char>, identity_public_key: Option<Seq<char>> },
    ClientReady { node_id: Seq<char>, identity_public_key: Option<Seq<char>> },
    PinRotated { pin_display: Seq<char>, seconds_left: u64, host_lan_ip: Option<Seq<char>> },
    PinCleared,
    Status(ConnStatus),
    PeerPaired { peer_node_id: Seq<char>, peer_public_key: Option<Seq<char>> },
    PeerCardReceived(CardView),
    PeerDisconnected,
    ConnPath(Seq<endpoint::ConnPathView>),
    ItemReceived { text: Seq<char>, pulled: bool },
    ItemSent,
    Error(Seq<char>),
}

impl View for NetEvent {
    type V = NetEventView;

    open spec fn view(&self) -> NetEventView {
        match *self {
            NetEvent::ServerReady { node_id, identity_public_key } => NetEventView::ServerReady {
                node_id: node_id@,
                identity_public_key: text_view(identity_public_key),
            },
            NetEvent::ClientReady { node_id, identity_public_key } => NetEventView::ClientReady {
                node_id: node_id@,
                identity_public_key: text_view(identity_public_key),
            },
            NetEvent::PinRotated { pin_display, seconds_left, host_lan_ip } => {
                NetEventView::PinRotated {
                    pin_display: pin_display@,
                    seconds_left,
                    host_lan_ip: text_view(host_lan_ip),
                }
            },
            NetEvent::PinCleared => NetEventView::PinCleared,
            NetEvent::Status(status) => NetEventView::Status(status),
            NetEvent::PeerPaired { peer_node_id, peer_public_key } => NetEventView::PeerPaired {
                peer_node_id: peer_node_id@,
                peer_public_key: text_view(peer_public_key),
            },
            NetEvent::PeerCardReceived(card) => NetEventView::PeerCardReceived(card@),
            NetEvent::PeerDisconnected => NetEventView::PeerDisconnected,
            NetEvent::ConnPath(paths) => NetEventView::ConnPath(endpoint::path_views(paths@)),
            NetEvent::ItemReceived { text, pulled } => NetEventView::ItemReceived {
                text: text@,
                pulled,
            },
            NetEvent::ItemSent => NetEventView::ItemSent,
            NetEvent::Error(message) => NetEventView::Error(message@),
        }
    }
}

/// The views of a list of events.
pub open spec fn event_views(events: Seq<NetEvent>) -> Seq<NetEventView> {
    events.map_values(|e: NetEvent| e@)
}

/// How many wakes are due after one more event, where `wake` says whether any are wanted.
pub open spec fn wakes_after(wake: bool, due: u64) -> u64 {
    if wake && due < u64::MAX {
        (due + 1) as u64
    } else {
        due
    }
}

/// A wake is due after each event where wakes are wanted, and none where they are not.
pub proof fn every_event_wakes(due: u64)
    ensures
        due < u64::MAX ==> wakes_after(true, due) == due + 1,
        wakes_after(true, u64::MAX) == u64::MAX,
        wakes_after(false, due) == due,
{
}

/// The views of cards and of events stand in the order of what they show, one for one.
pub proof fn views_keep_every_item(cards: Seq<IdentityCard>, events: Seq<NetEvent>, i: int)
    ensures
        card_views(cards).len() == cards.len(),
        0 <= i < cards.len() ==> card_views(cards)[i] == cards[i]@,
        event_views(events).len() == events.len(),
        0 <= i < events.len() ==> event_views(events)[i] == events[i]@,
{
}

/// The outgoing event queue. Events leave in the order in which they were sent, and
/// where the user interface asked to be woken, a wake is due after each of them.
pub struct EventSender {
    queue: Vec<NetEvent>,
    wake: bool,
    wakes_due: u64,
}

impl EventSender {
    /// The events sent and not yet taken, oldest first.
    pub closed spec fn pending(self) -> Seq<NetEventView> {
        event_views(self.queue@)
    }

    /// Whether the user interface asked to be woken.
    pub closed spec fn wakes(self) -> bool {
        self.wake
    }

    /// How many wakes are due; none are counted beyond what fits sixty-four bits.
    pub closed spec fn due(self) -> u64 {
        self.wakes_due
    }

    /// An empty queue.
    pub fn new(wake: bool) -> (r: EventSender)
        ensures
            r.pending() == Seq::<NetEventView>::empty(),
            r.wakes() == wake,
            r.due() == 0,
    {
        let r = EventSender { queue: Vec::new(), wake, wakes_due: 0 };
        assert(r.pending() =~= Seq::<NetEventView>::empty());
        r
    }

    /// Queues an event, and a wake after it.
    pub fn send(&mut self, event: NetEvent)
        ensures
            final(self).pending() == old(self).pending().push(event@),
            final(self).wakes() == old(self).wakes(),
            final(self).due() == if old(self).wakes() && old(self).due() < u64::MAX {
                (old(self).due() + 1) as u64
            } else {
                old(self).due()
            },
            final(self).due() == wakes_after(old(self).wakes(), old(self).due()),
    {
        self.queue.push(event);
        if self.wake {
            self.wakes_due = self.wakes_due.saturating_add(1);
        }
        assert(self.pending() =~= old(self).pending().push(event@));
    }

    /// Queues a status.
    pub fn status(&mut self, status: ConnStatus)
        ensures
            final(self).pending() == old(self).pending().push(NetEventView::Status(status)),
            final(self).wakes() == old(self).wakes(),
            final(self).due() == if old(self).wakes() && old(self).due() < u64::MAX {
                (old(self).due() + 1) as u64
            } else {
                old(self).due()
            },
            final(self).due() == wakes_after(old(self).wakes(), old(self).due()),
    {
        self.send(NetEvent::Status(status));
    }

    /// Queues an error message.
    pub fn error(&mut self, message: &str)
        ensures
            final(self).pending() == old(self).pending().push(NetEventView::Error(message@)),
            final(self).wakes() == old(self).wakes(),
            final(self).due() == if old(self).wakes() && old(self).due() < u64::MAX {
                (old(self).due() + 1) as u64
            } else {
                old(self).due()
            },
            final(self).due() == wakes_after(old(self).wakes(), old(self).due()),
    {
        self.send(NetEvent::Error(message.to_owned()));
    }

    /// Takes the queued events and the number of wakes that go with them.
    pub fn drain(&mut self) -> (r: (Vec<NetEvent>, u64))
        ensures
            event_views(r.0@) == old(self).pending(),
            r.1 == old(self).due(),
            final(self).pending() == Seq::<NetEventView>::empty(),
            final(self).due() == 0,
            final(self).wakes() == old(self).wakes(),
    {
        let mut taken: Vec<NetEvent> = Vec::new();
        core::mem::swap(&mut taken, &mut self.queue);
        let wakes: u64 = self.wakes_due;
        self.wakes_due = 0;
        assert(self.pending() =~= Seq::<NetEventView>::empty());
        (taken, wakes)
    }
}

} // verus!
