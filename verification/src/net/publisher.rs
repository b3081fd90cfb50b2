//! The publishers: what a listening device announces, to whom, and when it says that
//! nobody can find it.

use vstd::prelude::*;
use vstd::string::*;

use crate::addr::SocketAddr;
use crate::auth::{card_valid_at, CLOCK_SKEW_GRACE_SECS, CardView, IdentityCard, PublicKey};
use crate::lan::{first_private, preferred_lan_ipv4};
use crate::net::claim::RecentPins;
use crate::net::{card_views, NetEvent, NetEventView, SignalChannel};
use crate::order::{ascending, sorted};
use crate::pin::{displayed_pin, format_pin, BUCKET_SECS, PIN_LEN};

verus! {

/// Seconds between two rounds of the hosting publisher.
pub const HOSTING_REFRESH_SECS: u64 = 120;

// ---------------------------------------------------------------------------
// Hosting records
// ---------------------------------------------------------------------------

/// What the local-network advertisements say: for whom they stand and where this
/// device is reached.
pub struct Announcement {
    pub keys: Vec<PublicKey>,
    pub addrs: Vec<SocketAddr>,
}

/// The contents of an [`Announcement`].
pub struct AnnouncementView {
    pub keys: Seq<Seq<u8>>,
    pub addrs: Seq<SocketAddr>,
}

/// The bytes of a list of keys.
pub open spec fn key_views(keys: Seq<PublicKey>) -> Seq<Seq<u8>> {
    keys.map_values(|k: PublicKey| k@)
}

impl View for Announcement {
    type V = AnnouncementView;

    open spec fn view(&self) -> AnnouncementView {
        AnnouncementView { keys: key_views(self.keys@), addrs: self.addrs@ }
    }
}

impl Announcement {
    /// Whether two announcements say the same.
    pub fn same(&self, other: &Announcement) -> (r: bool)
        ensures
            r == (self@ == other@),
    {
        if self.keys.len() != other.keys.len() || self.addrs.len() != other.addrs.len() {
            assert(self@.keys.len() != other@.keys.len() || self@.addrs.len()
                != other@.addrs.len());
            return false;
        }
        let mut i: usize = 0;
        while i < self.keys.len()
            invariant
                i <= self.keys@.len() == other.keys@.len(),
                forall|j: int| 0 <= j < i ==> (#[trigger] self.keys@[j])@ == other.keys@[j]@,
            decreases self.keys@.len() - i,
        {
            if !self.keys[i].same(&other.keys[i]) {
                assert(self@.keys[i as int] != other@.keys[i as int]);
                return false;
            }
            i += 1;
        }
        assert(self@.keys =~= other@.keys);
        let mut k: usize = 0;
        while k < self.addrs.len()
            invariant
                k <= self.addrs@.len() == other.addrs@.len(),
                self@.keys == other@.keys,
                forall|j: int| 0 <= j < k ==> self.addrs@[j] == other.addrs@[j],
            decreases self.addrs@.len() - k,
        {
            if self.addrs[k] != other.addrs[k] {
                assert(self@.addrs[k as int] != other@.addrs[k as int]);
                return false;
            }
            k += 1;
        }
        assert(self@.addrs =~= other@.addrs);
        true
    }
}

/// The keys of the cards that are valid at `now`, in order.
pub open spec fn live_keys(peers: Seq<CardView>, now: u64) -> Seq<Seq<u8>>
    decreases peers.len(),
{
    if peers.len() == 0 {
        Seq::empty()
    } else if card_valid_at(peers.last(), now) {
        live_keys(peers.drop_last(), now).push(peers.last().public_key)
    } else {
        live_keys(peers.drop_last(), now)
    }
}

/// Collects the keys of the cards that are valid at `now`.
pub fn live_peers(peers: &Vec<IdentityCard>, now: u64) -> (r: Vec<PublicKey>)
    ensures
        key_views(r@) == live_keys(card_views(peers@), now),
{
    let ghost views = card_views(peers@);
    let mut out: Vec<PublicKey> = Vec::new();
    let mut i: usize = 0;
    assert(key_views(out@) =~= live_keys(views.take(0), now));
    while i < peers.len()
        invariant
            i <= peers@.len(),
            views == card_views(peers@),
            key_views(out@) == live_keys(views.take(i as int), now),
        decreases peers@.len() - i,
    {
        proof {
            assert(views.take(i + 1).drop_last() =~= views.take(i as int));
        }
        if peers[i].is_valid_at(now) {
            let ghost before = out@;
            out.push(peers[i].public_key());
            assert(key_views(out@) =~= key_views(before).push(peers@[i as int]@.public_key));
        }
        i += 1;
    }
    assert(views.take(i as int) =~= views);
    out
}

/// No record stands for a peer whose card is not valid: every live key is one of a
/// card that is.
pub proof fn live_keys_have_valid_cards(peers: Seq<CardView>, now: u64, key: Seq<u8>)
    requires
        live_keys(peers, now).contains(key),
    ensures
        exists|i: int|
            0 <= i < peers.len() && (#[trigger] peers[i]).public_key == key && card_valid_at(
                peers[i],
                now,
            ),
    decreases peers.len(),
{
    let keys = live_keys(peers, now);
    let j = choose|j: int| 0 <= j < keys.len() && keys[j] == key;
    if peers.len() > 0 {
        let rest = live_keys(peers.drop_last(), now);
        if j < rest.len() && rest[j] == key {
            assert(rest.contains(key));
            live_keys_have_valid_cards(peers.drop_last(), now, key);
            let i = choose|i: int|
                0 <= i < peers.drop_last().len() && (#[trigger] peers.drop_last()[i]).public_key
                    == key && card_valid_at(peers.drop_last()[i], now);
            assert(peers[i] == peers.drop_last()[i]);
        } else {
            assert(peers[peers.len() - 1].public_key == key);
        }
    }
}

/// What one round of the hosting publisher does.
pub struct HostingRound {
    /// The peers whose cards are valid, for the relay records.
    pub live: Vec<PublicKey>,
    /// Whether the advertisements that are up are withdrawn first.
    pub withdraw: bool,
    /// The advertisements to put up, one for each key, if they are to change.
    pub advertise: Option<Announcement>,
    /// Whether records go to the relays.
    pub publish_relays: bool,
}

/// The hosting publisher's state: what the advertisements say, how many of them are
/// up, and whether the user was told that nobody can find this device.
pub struct HostingPublisher {
    advertised: Option<Announcement>,
    up: usize,
    reported: bool,
}

/// What the publisher's state says.
pub struct PublisherView {
    pub advertised: Option<AnnouncementView>,
    pub up: nat,
    pub reported: bool,
}

/// The view of an optional announcement.
pub open spec fn announcement_view(a: Option<Announcement>) -> Option<AnnouncementView> {
    match a {
        Some(a) => Some(a@),
        None => None,
    }
}

impl View for HostingPublisher {
    type V = PublisherView;

    closed spec fn view(&self) -> PublisherView {
        PublisherView {
            advertised: announcement_view(self.advertised),
            up: self.up as nat,
            reported: self.reported,
        }
    }
}

/// Whether `want` says what `live` and `addrs` ask for: their keys and addresses, each
/// in ascending order.
pub open spec fn announces(want: Announcement, live: Seq<PublicKey>, addrs: Seq<SocketAddr>) -> bool {
    &&& ascending(want.keys@)
    &&& want.keys@.to_multiset() == live.to_multiset()
    &&& ascending(want.addrs@)
    &&& want.addrs@.to_multiset() == addrs.to_multiset()
}

/// Whether `r` is the round of a publisher in the state `p`: the live peers, and the
/// advertisements that change where the live peers or the addresses did.
pub open spec fn round_planned(
    p: PublisherView,
    peers: Seq<CardView>,
    now: u64,
    channel: SignalChannel,
    addrs: Seq<SocketAddr>,
    r: HostingRound,
) -> bool {
    &&& key_views(r.live@) == live_keys(peers, now)
    &&& r.publish_relays == (r.live@.len() > 0 && channel != SignalChannel::LanOnly)
    &&& if r.live@.len() == 0 {
        r.advertise is None && r.withdraw == (p.advertised is Some)
    } else if channel == SignalChannel::NostrOnly {
        r.advertise is None && !r.withdraw
    } else {
        &&& r.withdraw == (r.advertise is Some)
        &&& match r.advertise {
            Some(want) => announces(want, r.live@, addrs) && p.advertised != Some(want@),
            None => exists|want: Announcement| #[trigger]
                announces(want, r.live@, addrs) && p.advertised == Some(want@),
        }
    }
}

/// What the advertisements say after a round, and how many are up, where `advertised` of
/// the round's went up.
pub open spec fn advertised_after(p: PublisherView, round: HostingRound, advertised: usize) -> (
    Option<AnnouncementView>,
    nat,
) {
    match round.advertise {
        Some(want) => if advertised > 0 {
            (Some(want@), advertised as nat)
        } else {
            (None, 0)
        },
        None => if round.withdraw {
            (None, 0)
        } else {
            (p.advertised, p.up)
        },
    }
}

/// Whether a round announced this device anywhere.
pub open spec fn announced(
    p: PublisherView,
    round: HostingRound,
    advertised: usize,
    relays: bool,
) -> bool {
    advertised_after(p, round, advertised).1 > 0 || (round.publish_relays && relays)
}

/// Whether a round took a publisher from one state to another and sent `event`: a total
/// failure is reported when it begins.
pub open spec fn round_finished(
    before: PublisherView,
    round: HostingRound,
    advertised: usize,
    relays: bool,
    after: PublisherView,
    event: Option<NetEventView>,
) -> bool {
    let published = announced(before, round, advertised, relays);
    &&& (after.advertised, after.up) == advertised_after(before, round, advertised)
    &&& if round.live@.len() == 0 {
        event is None && after.reported == before.reported
    } else {
        &&& after.reported == !published
        &&& event == if !published && !before.reported {
            Some(NetEventView::Error(unannounced()))
        } else {
            None
        }
    }
}

/// The view of an event that may be sent.
pub open spec fn sent(event: Option<NetEvent>) -> Option<NetEventView> {
    match event {
        Some(event) => Some(event@),
        None => None,
    }
}

/// The error that a device reports which cannot announce itself.
pub open spec fn unannounced() -> Seq<char> {
    "Could not announce this device on any channel — the other device will not find it. Check this device's network connection."@
}

impl HostingPublisher {
    /// Advertisements are up exactly where it is known what they say.
    #[verifier::type_invariant]
    spec fn well_formed(self) -> bool {
        (self.advertised is Some) == (self.up > 0)
    }

    /// A publisher that has announced nothing.
    pub fn new() -> (r: HostingPublisher)
        ensures
            r@ == (PublisherView { advertised: None, up: 0, reported: false }),
    {
        HostingPublisher { advertised: None, up: 0, reported: false }
    }

    /// Plans a round. The peers are looked through again in every round, so that one
    /// whose card lapses is no longer signalled to; the advertisements change only where
    /// the live peers or this device's addresses did.
    pub fn plan_round(
        &self,
        peers: &Vec<IdentityCard>,
        now: u64,
        channel: SignalChannel,
        addrs: &Vec<SocketAddr>,
    ) -> (r: HostingRound)
        ensures
            round_planned(self@, card_views(peers@), now, channel, addrs@, r),
    {
        let live = live_peers(peers, now);
        let publish_relays = live.len() > 0 && channel.nostr();
        if live.len() == 0 {
            let withdraw = self.advertised.is_some();
            return HostingRound { live, withdraw, advertise: None, publish_relays };
        }
        if !channel.lan() {
            return HostingRound { live, withdraw: false, advertise: None, publish_relays };
        }
        let want = Announcement { keys: sorted(&live), addrs: sorted(addrs) };
        assert(announces(want, live@, addrs@));
        let unchanged = match &self.advertised {
            Some(current) => current.same(&want),
            None => false,
        };
        if unchanged {
            HostingRound { live, withdraw: false, advertise: None, publish_relays }
        } else {
            HostingRound { live, withdraw: true, advertise: Some(want), publish_relays }
        }
    }

    /// Concludes a round: `advertised` of its advertisements went up, and `relays` says
    /// whether the relay records were published. Returns the event to send, if any: a
    /// total failure is reported once, when it begins.
    pub fn finish_round(&mut self, round: HostingRound, advertised: usize, relays: bool) -> (r: Option<
        NetEvent,
    >)
        ensures
            round_finished(old(self)@, round, advertised, relays, final(self)@, sent(r)),
    {
        proof {
            use_type_invariant(&*self);
        }
        let silent = round.live.len() == 0;
        let relays_published = round.publish_relays && relays;
        match round.advertise {
            Some(want) => {
                if advertised > 0 {
                    *self = HostingPublisher {
                        advertised: Some(want),
                        up: advertised,
                        reported: self.reported,
                    };
                } else {
                    *self = HostingPublisher { advertised: None, up: 0, reported: self.reported };
                }
            },
            None => {
                if round.withdraw {
                    *self = HostingPublisher { advertised: None, up: 0, reported: self.reported };
                }
            },
        }
        if silent {
            return None;
        }
        let published = self.up > 0 || relays_published;
        let tell = !published && !self.reported;
        self.reported = !published;
        if tell {
            Some(
                NetEvent::Error(
                    "Could not announce this device on any channel — the other device will not find it. Check this device's network connection.".to_owned(),
                ),
            )
        } else {
            None
        }
    }
}

/// A session that signals over relays alone never has an advertisement up.
pub proof fn a_relay_only_session_never_advertises(
    before: PublisherView,
    peers: Seq<CardView>,
    now: u64,
    addrs: Seq<SocketAddr>,
    round: HostingRound,
    advertised: usize,
    relays: bool,
    after: PublisherView,
    event: Option<NetEventView>,
)
    requires
        before.advertised is None,
        before.up == 0,
        round_planned(before, peers, now, SignalChannel::NostrOnly, addrs, round),
        round_finished(before, round, advertised, relays, after, event),
    ensures
        round.advertise is None,
        after.advertised is None,
        after.up == 0,
{
}

/// No advertisement for a peer whose card is not valid outlives a round: every key that is
/// advertised after it is one of the live ones.
pub proof fn only_live_peers_stay_advertised(
    before: PublisherView,
    peers: Seq<CardView>,
    now: u64,
    channel: SignalChannel,
    addrs: Seq<SocketAddr>,
    round: HostingRound,
    advertised: usize,
    relays: bool,
    after: PublisherView,
    event: Option<NetEventView>,
    key: Seq<u8>,
)
    requires
        channel == SignalChannel::NostrOnly ==> before.advertised is None,
        round_planned(before, peers, now, channel, addrs, round),
        round_finished(before, round, advertised, relays, after, event),
        after.advertised matches Some(says) && says.keys.contains(key),
    ensures
        live_keys(peers, now).contains(key),
{
    let want: Announcement = match round.advertise {
        Some(want) => want,
        None => choose|want: Announcement| #[trigger]
            announces(want, round.live@, addrs) && before.advertised == Some(want@),
    };
    assert(announces(want, round.live@, addrs));
    assert(want@.keys == key_views(want.keys@));
    let i = choose|i: int| 0 <= i < want@.keys.len() && want@.keys[i] == key;
    let k: PublicKey = want.keys@[i];
    want.keys@.to_multiset_ensures();
    round.live@.to_multiset_ensures();
    assert(want.keys@.contains(k));
    assert(round.live@.to_multiset().count(k) > 0) by {
        assert(want.keys@.to_multiset().count(k) > 0);
    }
    assert(round.live@.contains(k));
    let j = choose|j: int| 0 <= j < round.live@.len() && round.live@[j] == k;
    assert(key_views(round.live@)[j] == key);
}

/// Where no card is valid nothing is published, nothing stays advertised and nothing is
/// complained of.
pub proof fn without_valid_cards_all_is_silent(
    before: PublisherView,
    peers: Seq<CardView>,
    now: u64,
    channel: SignalChannel,
    addrs: Seq<SocketAddr>,
    round: HostingRound,
    advertised: usize,
    relays: bool,
    after: PublisherView,
    event: Option<NetEventView>,
)
    requires
        live_keys(peers, now).len() == 0,
        round_planned(before, peers, now, channel, addrs, round),
        round_finished(before, round, advertised, relays, after, event),
    ensures
        round.advertise is None && !round.publish_relays,
        after.advertised is None,
        event is None,
{
    assert(key_views(round.live@).len() == round.live@.len());
}

/// In an unbroken run of rounds that announce this device nowhere, the error is sent in the
/// first at most.
pub proof fn an_outage_is_reported_once(
    states: Seq<PublisherView>,
    rounds: Seq<(HostingRound, usize, bool)>,
    events: Seq<Option<NetEventView>>,
    i: int,
)
    requires
        states.len() == rounds.len() + 1,
        events.len() == rounds.len(),
        forall|k: int|
            0 <= k < rounds.len() ==> {
                let (round, advertised, relays) = #[trigger] rounds[k];
                &&& round.live@.len() > 0
                &&& !announced(states[k], round, advertised, relays)
                &&& round_finished(
                    states[k],
                    round,
                    advertised,
                    relays,
                    states[k + 1],
                    events[k],
                )
            },
        0 < i < rounds.len(),
    ensures
        events[i] is None,
{
    let earlier = rounds[i - 1];
    let this = rounds[i];
    assert(states[i].reported);
}

// ---------------------------------------------------------------------------
// The rotating PIN
// ---------------------------------------------------------------------------

/// Advertisements and side-channel listeners that are kept up: the current rotation's
/// and the previous one's.
pub const ADVERTS_KEPT: usize = 2;

/// Why a rotation period ended.
#[derive(Clone, Copy, Debug, PartialEq, Eq, Structural)]
pub enum PeriodEnd {
    Cancelled,
    /// A peer paired.
    Paired,
    /// The period ran out.
    Elapsed,
    /// The user asked for a new PIN now.
    Refreshed,
}

/// What was published under a PIN, and what failed.
#[derive(Clone, Copy, Debug)]
pub struct Published {
    /// Whether the record key could be derived; without it nothing was tried.
    pub record_key: bool,
    pub dnssd: bool,
    pub side_channel: bool,
    pub relays: bool,
}

/// The PIN publisher's state: how many advertisements and side-channel listeners are
/// up.
pub struct PinPublisher {
    adverts: usize,
    listeners: usize,
}

/// What the PIN publisher's state says.
pub struct PinPublisherView {
    pub adverts: nat,
    pub listeners: nat,
}

impl View for PinPublisher {
    type V = PinPublisherView;

    closed spec fn view(&self) -> PinPublisherView {
        PinPublisherView { adverts: self.adverts as nat, listeners: self.listeners as nat }
    }
}

/// One more of what is kept, up to [`ADVERTS_KEPT`].
pub open spec fn one_more(n: nat, added: bool) -> nat {
    if added && n < ADVERTS_KEPT {
        n + 1
    } else {
        n
    }
}

/// The address that is shown with a PIN: only where the local network is in play is
/// there a side channel to type it at.
pub open spec fn shown_address(channel: SignalChannel, addrs: Seq<SocketAddr>) -> Option<Seq<char>> {
    if channel == SignalChannel::NostrOnly {
        None
    } else {
        match first_private(addrs) {
            Some(ip) => Some(ip.text()),
            None => None,
        }
    }
}

/// What is reported of a PIN that was shown but cannot be found.
pub open spec fn publish_complaint(channel: SignalChannel, p: Published) -> Option<Seq<char>> {
    let discoverable = (channel != SignalChannel::NostrOnly && p.dnssd) || (channel
        != SignalChannel::LanOnly && p.relays);
    if !p.record_key || discoverable {
        None
    } else if channel != SignalChannel::NostrOnly && p.side_channel {
        Some(
            "Could not publish the PIN for automatic discovery — the other device will have to enter the IP shown below"@,
        )
    } else {
        Some(
            "Could not publish the PIN on any channel — check this device's network connection and press New PIN"@,
        )
    }
}

/// The event that a rotation begins with: the fresh PIN, or that none is shown any more.
pub open spec fn rotation_event(
    paired: bool,
    pin: Seq<char>,
    channel: SignalChannel,
    addrs: Seq<SocketAddr>,
) -> Result<NetEventView, NetEventView> {
    if paired {
        Err(NetEventView::PinCleared)
    } else {
        Ok(
            NetEventView::PinRotated {
                pin_display: displayed_pin(pin),
                seconds_left: BUCKET_SECS,
                host_lan_ip: shown_address(channel, addrs),
            },
        )
    }
}

/// What is up after a publication, and how many advertisements and listeners come down.
pub open spec fn publication(p: PinPublisherView, channel: SignalChannel, done: Published) -> (
    PinPublisherView,
    nat,
    nat,
) {
    let advert = done.record_key && channel != SignalChannel::NostrOnly && done.dnssd;
    let listener = done.record_key && channel != SignalChannel::NostrOnly && done.side_channel;
    (
        PinPublisherView {
            adverts: one_more(p.adverts, advert),
            listeners: one_more(p.listeners, listener),
        },
        if advert && p.adverts == ADVERTS_KEPT {
            1
        } else {
            0
        },
        if listener && p.listeners == ADVERTS_KEPT {
            1
        } else {
            0
        },
    )
}

/// Whether the publisher goes on after a period, and the event that is sent, if any.
pub open spec fn period_result(end: PeriodEnd) -> (bool, Option<NetEventView>) {
    match end {
        PeriodEnd::Cancelled => (false, None),
        PeriodEnd::Paired => (false, Some(NetEventView::PinCleared)),
        PeriodEnd::Elapsed => (true, None),
        PeriodEnd::Refreshed => (true, None),
    }
}

impl PinPublisher {
    #[verifier::type_invariant]
    spec fn well_formed(self) -> bool {
        self.adverts <= ADVERTS_KEPT && self.listeners <= ADVERTS_KEPT
    }

    /// Nothing published yet.
    pub fn new() -> (r: PinPublisher)
        ensures
            r@ == (PinPublisherView { adverts: 0, listeners: 0 }),
    {
        PinPublisher { adverts: 0, listeners: 0 }
    }

    /// Begins a rotation: `Ok` with the event that shows the fresh PIN for a full
    /// period, or `Err` with the event that takes the PIN off the screen where a peer
    /// has paired already, which ends the publisher.
    pub fn begin(
        paired: bool,
        pin: &str,
        channel: SignalChannel,
        addrs: &Vec<SocketAddr>,
    ) -> (r: Result<NetEvent, NetEvent>)
        requires
            pin@.len() == PIN_LEN,
        ensures
            match r {
                Ok(event) => !paired && event@ == NetEventView::PinRotated {
                    pin_display: displayed_pin(pin@),
                    seconds_left: BUCKET_SECS,
                    host_lan_ip: shown_address(channel, addrs@),
                },
                Err(event) => paired && event@ == NetEventView::PinCleared,
            },
            match r {
                Ok(event) => rotation_event(paired, pin@, channel, addrs@) == Ok::<
                    NetEventView,
                    NetEventView,
                >(event@),
                Err(event) => rotation_event(paired, pin@, channel, addrs@) == Err::<
                    NetEventView,
                    NetEventView,
                >(event@),
            },
    {
        if paired {
            return Err(NetEvent::PinCleared);
        }
        let host_lan_ip: Option<String> = if channel.lan() {
            match preferred_lan_ipv4(addrs) {
                Some(ip) => Some(ip.to_text()),
                None => None,
            }
        } else {
            None
        };
        Ok(
            NetEvent::PinRotated {
                pin_display: format_pin(pin),
                seconds_left: BUCKET_SECS,
                host_lan_ip,
            },
        )
    }

    /// Notes what was published, and returns how many of the oldest advertisements and
    /// listeners to take down, and the complaint to report, if any.
    pub fn published(&mut self, channel: SignalChannel, p: Published) -> (r: (
        usize,
        usize,
        Option<NetEvent>,
    ))
        ensures
            ({
                let advert = p.record_key && channel != SignalChannel::NostrOnly && p.dnssd;
                let listener = p.record_key && channel != SignalChannel::NostrOnly
                    && p.side_channel;
                &&& final(self)@.adverts == one_more(old(self)@.adverts, advert)
                &&& final(self)@.listeners == one_more(old(self)@.listeners, listener)
                &&& r.0 == if advert && old(self)@.adverts == ADVERTS_KEPT {
                    1nat
                } else {
                    0nat
                }
                &&& r.1 == if listener && old(self)@.listeners == ADVERTS_KEPT {
                    1nat
                } else {
                    0nat
                }
                &&& match (publish_complaint(channel, p), r.2) {
                    (Some(e), Some(event)) => event@ == NetEventView::Error(e),
                    (None, None) => true,
                    _ => false,
                }
            }),
            (final(self)@, r.0 as nat, r.1 as nat) == publication(old(self)@, channel, p),
    {
        proof {
            use_type_invariant(&*self);
        }
        if !p.record_key {
            return (0, 0, None);
        }
        let advert = channel.lan() && p.dnssd;
        let listener = channel.lan() && p.side_channel;
        let mut adverts_down: usize = 0;
        let mut listeners_down: usize = 0;
        let mut adverts: usize = self.adverts;
        let mut listeners: usize = self.listeners;
        if advert {
            if adverts == ADVERTS_KEPT {
                adverts_down = 1;
            } else {
                adverts += 1;
            }
        }
        if listener {
            if listeners == ADVERTS_KEPT {
                listeners_down = 1;
            } else {
                listeners += 1;
            }
        }
        *self = PinPublisher { adverts, listeners };
        let discoverable = advert || (channel.nostr() && p.relays);
        let complaint: Option<NetEvent> = if discoverable {
            None
        } else if listener {
            Some(
                NetEvent::Error(
                    "Could not publish the PIN for automatic discovery — the other device will have to enter the IP shown below".to_owned(),
                ),
            )
        } else {
            Some(
                NetEvent::Error(
                    "Could not publish the PIN on any channel — check this device's network connection and press New PIN".to_owned(),
                ),
            )
        };
        (adverts_down, listeners_down, complaint)
    }

    /// Ends a rotation period. Returns whether the publisher goes on, and the event to
    /// send, if any. A refresh revokes everything shown so far: the auth keys are
    /// dropped, and all advertisements and listeners come down.
    pub fn end_period<T>(&mut self, end: PeriodEnd, recent: &mut RecentPins<T>) -> (r: (
        bool,
        Option<NetEvent>,
    ))
        ensures
            r.0 == (end == PeriodEnd::Elapsed || end == PeriodEnd::Refreshed),
            match r.1 {
                Some(event) => end == PeriodEnd::Paired && event@ == NetEventView::PinCleared,
                None => end != PeriodEnd::Paired,
            },
            (r.0, sent(r.1)) == period_result(end),
            if end == PeriodEnd::Refreshed {
                final(recent)@ == Seq::<T>::empty() && final(self)@ == (PinPublisherView {
                    adverts: 0,
                    listeners: 0,
                })
            } else {
                final(recent)@ == old(recent)@ && final(self)@ == old(self)@
            },
    {
        match end {
            PeriodEnd::Cancelled => (false, None),
            PeriodEnd::Paired => (false, Some(NetEvent::PinCleared)),
            PeriodEnd::Elapsed => (true, None),
            PeriodEnd::Refreshed => {
                recent.clear();
                *self = PinPublisher { adverts: 0, listeners: 0 };
                (true, None)
            },
        }
    }
}

/// A shown PIN is reported as not to be found exactly where its record could be built
/// and no channel that a joiner searches carries it.
pub proof fn complaints_mean_undiscoverable(channel: SignalChannel, p: Published)
    ensures
        publish_complaint(channel, p) is Some <==> p.record_key && !(channel
            != SignalChannel::NostrOnly && p.dnssd) && !(channel != SignalChannel::LanOnly
            && p.relays),
{
}

// ---------------------------------------------------------------------------
// Who is told
// ---------------------------------------------------------------------------

/// The live keys are the keys of the valid cards, all of them, in the order of the trusted
/// list.
pub proof fn live_keys_are_those_of_the_valid_cards(peers: Seq<CardView>, now: u64)
    ensures
        live_keys(peers, now) == peers.filter(
            |c: CardView| now < c.expires_at && c.created_at <= now + CLOCK_SKEW_GRACE_SECS,
        ).map_values(|c: CardView| c.public_key),
    decreases peers.len(),
{
    let valid = |c: CardView| now < c.expires_at && c.created_at <= now + CLOCK_SKEW_GRACE_SECS;
    reveal(Seq::filter);
    if peers.len() > 0 {
        live_keys_are_those_of_the_valid_cards(peers.drop_last(), now);
    }
    assert(live_keys(peers, now) =~= peers.filter(valid).map_values(|c: CardView| c.public_key));
}

/// Every trusted card that is valid has its key among the live keys.
pub proof fn every_valid_card_is_live(peers: Seq<CardView>, now: u64, i: int)
    requires
        0 <= i < peers.len(),
        now < peers[i].expires_at,
        peers[i].created_at <= now + CLOCK_SKEW_GRACE_SECS,
    ensures
        live_keys(peers, now).contains(peers[i].public_key),
    decreases peers.len(),
{
    let key = peers[i].public_key;
    let rest = live_keys(peers.drop_last(), now);
    if i == peers.len() - 1 {
        assert(rest.push(key)[rest.len() as int] == key);
    } else {
        every_valid_card_is_live(peers.drop_last(), now, i);
        let j = choose|j: int| 0 <= j < rest.len() && rest[j] == key;
        assert(rest.push(peers.last().public_key)[j] == key);
    }
}

/// A round with a live peer announces this device on every channel in use: records go to
/// the relays unless the local network alone is used, and, unless the relays alone are,
/// every live peer and every address is advertised from then on, and nothing else.
pub proof fn live_peers_are_announced_to(
    before: PublisherView,
    peers: Seq<CardView>,
    now: u64,
    channel: SignalChannel,
    addrs: Seq<SocketAddr>,
    round: HostingRound,
    advertised: usize,
    relays: bool,
    after: PublisherView,
    event: Option<NetEventView>,
    key: Seq<u8>,
    addr: SocketAddr,
)
    requires
        live_keys(peers, now).contains(key),
        round_planned(before, peers, now, channel, addrs, round),
        round_finished(before, round, advertised, relays, after, event),
        round.advertise is Some ==> advertised > 0,
    ensures
        round.publish_relays <==> channel != SignalChannel::LanOnly,
        channel != SignalChannel::NostrOnly ==> after.advertised is Some,
        channel != SignalChannel::NostrOnly ==> after.advertised->0.keys.contains(key),
        channel != SignalChannel::NostrOnly ==> (after.advertised->0.addrs.contains(addr)
            <==> addrs.contains(addr)),
        before.advertised is None && channel != SignalChannel::NostrOnly ==> round.advertise is Some
            && after.up == advertised,
        before.advertised is Some && before.advertised->0.addrs.to_multiset()
            != addrs.to_multiset() && channel != SignalChannel::NostrOnly ==> round.advertise
            is Some && round.withdraw,
{
    let j = choose|j: int| 0 <= j < live_keys(peers, now).len() && live_keys(peers, now)[j] == key;
    assert(key_views(round.live@)[j] == key);
    let k: PublicKey = round.live@[j];
    assert(k@ == key);
    if channel != SignalChannel::NostrOnly {
        let want: Announcement = match round.advertise {
            Some(want) => want,
            None => choose|want: Announcement| #[trigger]
                announces(want, round.live@, addrs) && before.advertised == Some(want@),
        };
        assert(announces(want, round.live@, addrs));
        assert(after.advertised == Some(want@));
        assert(want@.keys == key_views(want.keys@));
        want.keys@.to_multiset_ensures();
        round.live@.to_multiset_ensures();
        want.addrs@.to_multiset_ensures();
        addrs.to_multiset_ensures();
        assert(round.live@.contains(k));
        assert(want.keys@.to_multiset().count(k) > 0) by {
            assert(round.live@.to_multiset().count(k) > 0);
        }
        assert(want.keys@.contains(k));
        let i = choose|i: int| 0 <= i < want.keys@.len() && want.keys@[i] == k;
        assert(want@.keys[i] == key);
        assert(want.addrs@.contains(addr) <==> want.addrs@.to_multiset().count(addr) > 0);
        assert(addrs.contains(addr) <==> addrs.to_multiset().count(addr) > 0);
    }
}

/// An outage is reported when it begins, and again when the next one does: a round with
/// live peers that reaches nobody sends the error unless the one before it did too, and one
/// that reaches somebody, by an advertisement that is up or a record on the relays, sends
/// nothing and ends the outage.
pub proof fn an_outage_is_reported_when_it_begins(
    before: PublisherView,
    round: HostingRound,
    advertised: usize,
    relays: bool,
    after: PublisherView,
    event: Option<NetEventView>,
)
    requires
        round.live@.len() > 0,
        round_finished(before, round, advertised, relays, after, event),
    ensures
        after.reported <==> !(after.up > 0 || (round.publish_relays && relays)),
        event is Some <==> after.reported && !before.reported,
        event is Some ==> event->0 == NetEventView::Error(
            "Could not announce this device on any channel — the other device will not find it. Check this device's network connection."@,
        ),
        round.advertise matches Some(want) ==> after.up == advertised && (after.advertised
            == if advertised > 0 {
            Some(want@)
        } else {
            None
        }),
        round.advertise is None && !round.withdraw ==> after.up == before.up && after.advertised
            == before.advertised,
        round.advertise is None && round.withdraw ==> after.up == 0 && after.advertised is None,
{
}

/// The advertisements of a rotation and of the one before it are kept up: each that goes
/// up counts until two do, and none that did not go up counts.
pub proof fn two_rotations_stay_up(n: nat)
    requires
        n <= 2,
    ensures
        one_more(n, false) == n,
        n < 2 ==> one_more(n, true) == n + 1,
        n == 2 ==> one_more(n, true) == 2,
{
}

/// A joiner is sent to the address shown below the PIN exactly where that address is
/// listened at, and to the network settings where nothing was published at all.
pub proof fn complaints_point_at_what_works(channel: SignalChannel, p: Published)
    requires
        publish_complaint(channel, p) is Some,
    ensures
        channel != SignalChannel::NostrOnly && p.side_channel ==> publish_complaint(channel, p)
            == Some(
            "Could not publish the PIN for automatic discovery — the other device will have to enter the IP shown below"@,
        ),
        !(channel != SignalChannel::NostrOnly && p.side_channel) ==> publish_complaint(channel, p)
            == Some(
            "Could not publish the PIN on any channel — check this device's network connection and press New PIN"@,
        ),
{
}

/// A rotation shows the fresh PIN for a full minute, with the address to type where the
/// local network is in use, unless a joiner has paired, in which case the PIN is taken off
/// the screen.
pub proof fn a_rotation_shows_its_pin(
    pin: Seq<char>,
    channel: SignalChannel,
    addrs: Seq<SocketAddr>,
)
    ensures
        rotation_event(true, pin, channel, addrs) == Err::<NetEventView, NetEventView>(
            NetEventView::PinCleared,
        ),
        rotation_event(false, pin, channel, addrs) matches Ok(
            NetEventView::PinRotated { pin_display, seconds_left, host_lan_ip },
        ) && pin_display == displayed_pin(pin) && seconds_left == 60 && host_lan_ip == (if channel
            is NostrOnly {
            None
        } else {
            match first_private(addrs) {
                Some(ip) => Some(ip.text()),
                None => None,
            }
        }),
{
}

/// What was published on the local network stays up beside what was published before it, and
/// the third oldest comes down; nothing that failed counts, and nothing on relays alone does.
pub proof fn publications_replace_the_oldest(
    p: PinPublisherView,
    channel: SignalChannel,
    done: Published,
)
    requires
        p.adverts <= 2 && p.listeners <= 2,
    ensures
        ({
            let (after, adverts_down, listeners_down) = publication(p, channel, done);
            let advert: nat = if done.record_key && !(channel is NostrOnly) && done.dnssd {
                1
            } else {
                0
            };
            let listener: nat = if done.record_key && !(channel is NostrOnly)
                && done.side_channel {
                1
            } else {
                0
            };
            &&& after.adverts <= 2 && after.listeners <= 2
            &&& after.adverts + adverts_down == p.adverts + advert
            &&& after.listeners + listeners_down == p.listeners + listener
            &&& adverts_down == 1 <==> p.adverts == 2 && advert == 1
            &&& listeners_down == 1 <==> p.listeners == 2 && listener == 1
        }),
{
}

/// A publisher goes on after a period that ran out or was refreshed, and stops where it was
/// cancelled or a joiner paired; only the last takes the PIN off the screen.
pub proof fn periods_end_as_they_should(end: PeriodEnd)
    ensures
        period_result(end).0 <==> end is Elapsed || end is Refreshed,
        period_result(end).1 == if end is Paired {
            Some(NetEventView::PinCleared)
        } else {
            None
        },
{
}

/// The views of keys stand in the order of the keys, one for one.
pub proof fn key_views_keep_every_key(keys: Seq<PublicKey>, i: int)
    ensures
        key_views(keys).len() == keys.len(),
        0 <= i < keys.len() ==> key_views(keys)[i] == keys[i]@,
{
}

} // verus!
