//! The pair claim and the recent PIN keys: whom a listening endpoint admits.
//!
//! duocb links one pair of devices at a time. Once a client authenticates, it claims
//! the endpoint, and any other dialer is refused until the server is stopped. The
//! claim outlives a dropped connection, so that the paired device, and only that
//! device, can come back without pairing again.

use vstd::prelude::*;

use crate::auth::{key_view, PublicKey};
use crate::node::{node_view, NodeId};

verus! {

/// PIN keys that are retained: the current rotation's and the previous one's.
pub const RECENT_PIN_CACHE: usize = 2;

/// The PIN keys of the latest rotations, newest first.
pub struct RecentPins<T> {
    keys: Vec<T>,
}

impl<T> View for RecentPins<T> {
    type V = Seq<T>;

    closed spec fn view(&self) -> Seq<T> {
        self.keys@
    }
}

/// `keys` with `key` in front, cut to the newest [`RECENT_PIN_CACHE`].
pub open spec fn retained<T>(keys: Seq<T>, key: T) -> Seq<T> {
    let all = seq![key] + keys;
    if all.len() > RECENT_PIN_CACHE {
        all.take(RECENT_PIN_CACHE as int)
    } else {
        all
    }
}

impl<T> RecentPins<T> {
    #[verifier::type_invariant]
    spec fn well_formed(self) -> bool {
        self.keys@.len() <= RECENT_PIN_CACHE
    }

    /// No keys.
    pub fn new() -> (r: RecentPins<T>)
        ensures
            r@ == Seq::<T>::empty(),
    {
        RecentPins { keys: Vec::new() }
    }

    /// Adds the key of a new rotation and drops what is older than the previous one.
    pub fn push(&mut self, key: T)
        ensures
            final(self)@ == retained(old(self)@, key),
            final(self)@.len() <= RECENT_PIN_CACHE,
    {
        proof {
            use_type_invariant(&*self);
        }
        let mut keys: Vec<T> = Vec::new();
        core::mem::swap(&mut keys, &mut self.keys);
        keys.insert(0, key);
        keys.truncate(RECENT_PIN_CACHE);
        assert(keys@ =~= retained(old(self)@, key));
        self.keys = keys;
    }

    /// The retained keys, newest first: at most two.
    pub fn snapshot(&self) -> (r: &Vec<T>)
        ensures
            r@ == self@,
            r@.len() <= RECENT_PIN_CACHE,
    {
        proof {
            use_type_invariant(self);
        }
        &self.keys
    }

    /// Drops every retained key: no PIN shown so far can authenticate any more.
    pub fn clear(&mut self)
        ensures
            final(self)@ == Seq::<T>::empty(),
    {
        self.keys = Vec::new();
    }
}

/// After two rotations, a PIN that was shown before them is gone, and exactly the two
/// new ones are left, the latest in front.
pub proof fn two_rotations_retire_older_pins<T>(keys: Seq<T>, previous: T, current: T)
    requires
        keys.len() <= RECENT_PIN_CACHE,
    ensures
        retained(retained(keys, previous), current) == seq![current, previous],
{
    let once = retained(keys, previous);
    assert(once[0] == previous);
    assert(retained(once, current) =~= seq![current, previous]);
}

/// The peer that holds a claim. Configure mode claims the stable application key;
/// card setup has none and claims the transport id alone.
#[derive(Clone, Copy, Debug)]
pub struct ClaimedPeer {
    pub application_key: Option<PublicKey>,
    pub node_id: Option<NodeId>,
}

/// What a claim says.
pub struct ClaimView {
    pub application_key: Option<Seq<u8>>,
    pub node_id: Option<Seq<u8>>,
}

impl View for ClaimedPeer {
    type V = ClaimView;

    open spec fn view(&self) -> ClaimView {
        ClaimView {
            application_key: key_view(self.application_key),
            node_id: node_view(self.node_id),
        }
    }
}

/// The single peer that a serving endpoint is paired with.
pub struct PairClaim {
    peer: Option<ClaimedPeer>,
}

impl View for PairClaim {
    type V = Option<ClaimView>;

    closed spec fn view(&self) -> Option<ClaimView> {
        match self.peer {
            Some(p) => Some(p@),
            None => None,
        }
    }
}

/// Whether a dialer with the transport id `remote` may go on to authenticate. A dialer
/// that is not the claimed peer is turned away, except that the holder of a claimed
/// application key may arrive on a new transport id where that is allowed.
pub open spec fn admitted(claim: Option<ClaimView>, remote: Seq<u8>, allow_new_transport: bool) -> bool {
    match claim {
        None => true,
        Some(c) => c.node_id == Some(remote) || (c.application_key is Some && allow_new_transport),
    }
}

/// Whether the holder of `key` may commit the claim.
pub open spec fn key_may_commit(claim: Option<ClaimView>, key: Seq<u8>) -> bool {
    match claim {
        None => true,
        Some(c) => c.application_key == Some(key),
    }
}

/// Whether the card-setup joiner at `node` may commit the claim.
pub open spec fn pin_may_commit(claim: Option<ClaimView>, node: Seq<u8>) -> bool {
    match claim {
        None => true,
        Some(c) => c.node_id == Some(node),
    }
}

/// The claim after the holder of `key` at `node` asked for it.
pub open spec fn after_key_commit(claim: Option<ClaimView>, key: Seq<u8>, node: Seq<u8>) -> Option<
    ClaimView,
> {
    if key_may_commit(claim, key) {
        Some(ClaimView { application_key: Some(key), node_id: Some(node) })
    } else {
        claim
    }
}

/// The claim after the card-setup joiner at `node` asked for it.
pub open spec fn after_pin_commit(claim: Option<ClaimView>, node: Seq<u8>) -> Option<ClaimView> {
    match claim {
        None => Some(ClaimView { application_key: None, node_id: Some(node) }),
        Some(c) => Some(c),
    }
}

/// Once an application key holds the claim, no commit takes it away: the key stays, and
/// a commit by any other key or by a card-setup joiner elsewhere is refused and
/// changes nothing.
pub proof fn a_key_claim_is_kept(claim: ClaimView, key: Seq<u8>, other: Seq<u8>, node: Seq<u8>)
    requires
        claim.application_key == Some(key),
    ensures
        after_key_commit(Some(claim), other, node)->0.application_key == Some(key),
        other != key ==> !key_may_commit(Some(claim), other) && after_key_commit(
            Some(claim),
            other,
            node,
        ) == Some(claim),
        after_pin_commit(Some(claim), node) == Some(claim),
        claim.node_id != Some(node) ==> !pin_may_commit(Some(claim), node),
{
}

/// Once a card-setup joiner holds the claim, one PIN admits one device: every other
/// device is refused at the door and cannot commit, and the joiner itself may.
pub proof fn one_pin_admits_one_device(
    node: Seq<u8>,
    other: Seq<u8>,
    key: Seq<u8>,
    allow_new_transport: bool,
)
    ensures
        ({
            let claim = after_pin_commit(None, node);
            &&& admitted(claim, node, allow_new_transport) && pin_may_commit(claim, node)
            &&& other != node ==> !admitted(claim, other, allow_new_transport) && !pin_may_commit(
                claim,
                other,
            )
            &&& !key_may_commit(claim, key)
            &&& after_pin_commit(claim, other) == claim
            &&& after_key_commit(claim, key, other) == claim
        }),
{
}

/// While a session is live, no new transport id is admitted: only the one that holds
/// the claim is.
pub proof fn a_live_session_admits_only_its_peer(claim: ClaimView, remote: Seq<u8>)
    requires
        admitted(Some(claim), remote, false),
    ensures
        claim.node_id == Some(remote),
{
}

impl PairClaim {
    /// An endpoint that nobody has claimed.
    pub fn new() -> (r: PairClaim)
        ensures
            r@ is None,
    {
        PairClaim { peer: None }
    }

    /// The current claim.
    pub fn peek(&self) -> (r: Option<ClaimedPeer>)
        ensures
            match r {
                Some(p) => self@ == Some(p@),
                None => self@ is None,
            },
    {
        self.peer
    }

    /// The claim as it stands, which later commits do not change.
    pub fn snapshot(&self) -> (r: PairClaim)
        ensures
            r@ == self@,
    {
        PairClaim { peer: self.peer }
    }

    /// Whether a peer has committed the claim: the PIN publisher then stops.
    pub fn is_paired(&self) -> (r: bool)
        ensures
            r == (self@ is Some),
    {
        self.peer.is_some()
    }

    /// Whether a dialer may go on to authenticate.
    pub fn admits(&self, remote: NodeId, allow_new_transport: bool) -> (r: bool)
        ensures
            r == admitted(self@, remote@, allow_new_transport),
    {
        match self.peer {
            None => true,
            Some(claimed) => {
                let same = match claimed.node_id {
                    Some(node) => node.same(&remote),
                    None => false,
                };
                same || (claimed.application_key.is_some() && allow_new_transport)
            },
        }
    }

    /// Whether the claim is held by the peer at `remote`.
    pub fn held_by(&self, remote: NodeId) -> (r: bool)
        ensures
            r == (self@ is Some && self@->0.node_id == Some(remote@)),
    {
        match self.peer {
            None => false,
            Some(claimed) => match claimed.node_id {
                Some(node) => node.same(&remote),
                None => false,
            },
        }
    }

    /// Whether a key other than `key` (or no key at all) holds the claim.
    pub fn held_by_other_key(&self, key: PublicKey) -> (r: bool)
        ensures
            r == !key_may_commit(self@, key@),
    {
        match self.peer {
            None => false,
            Some(claimed) => match claimed.application_key {
                Some(held) => !held.same(&key),
                None => true,
            },
        }
    }

    /// Commits a freshly authenticated key as the pair. Returns whether it now holds
    /// the claim: it was free, or the same key held it already and comes back, possibly
    /// on a new transport id.
    pub fn commit_key(&mut self, public_key: PublicKey, node_id: NodeId) -> (r: bool)
        ensures
            r == key_may_commit(old(self)@, public_key@),
            final(self)@ == after_key_commit(old(self)@, public_key@, node_id@),
    {
        if self.held_by_other_key(public_key) {
            return false;
        }
        self.peer = Some(
            ClaimedPeer { application_key: Some(public_key), node_id: Some(node_id) },
        );
        true
    }

    /// Commits a card-setup joiner as the pair. Returns whether it now holds the claim.
    pub fn commit_pin(&mut self, node_id: NodeId) -> (r: bool)
        ensures
            r == pin_may_commit(old(self)@, node_id@),
            final(self)@ == after_pin_commit(old(self)@, node_id@),
    {
        match self.peer {
            Some(_) => self.held_by(node_id),
            None => {
                self.peer = Some(ClaimedPeer { application_key: None, node_id: Some(node_id) });
                true
            },
        }
    }
}

/// Whether a dialer may go on, and whether it may commit, in terms of who holds the pairing:
/// anyone where nobody does; the peer at the same transport id; and, where that is allowed,
/// whoever comes for a pairing that a key holds. A key commits exactly where the pairing is
/// free or its own, and a card-setup joiner where it is free or at the same transport id.
pub proof fn the_pairing_decides_who_goes_on(
    key: Seq<u8>,
    node: Seq<u8>,
    held: ClaimView,
    allow_new_transport: bool,
)
    ensures
        admitted(None, node, allow_new_transport),
        key_may_commit(None, key),
        pin_may_commit(None, node),
        held.node_id == Some(node) ==> admitted(Some(held), node, allow_new_transport)
            && pin_may_commit(Some(held), node),
        held.node_id != Some(node) ==> !pin_may_commit(Some(held), node) && (admitted(
            Some(held),
            node,
            allow_new_transport,
        ) <==> allow_new_transport && held.application_key is Some),
        key_may_commit(Some(held), key) <==> held.application_key == Some(key),
{
}

/// Whoever commits holds the pairing after it, at the transport id it came from; a
/// card-setup joiner leaves a pairing that is held as it is.
pub proof fn commits_take_the_pairing(claim: Option<ClaimView>, key: Seq<u8>, node: Seq<u8>)
    ensures
        key_may_commit(claim, key) ==> after_key_commit(claim, key, node) == Some(
            ClaimView { application_key: Some(key), node_id: Some(node) },
        ),
        !key_may_commit(claim, key) ==> after_key_commit(claim, key, node) == claim,
        claim is None ==> after_pin_commit(claim, node) == Some(
            ClaimView { application_key: None, node_id: Some(node) },
        ),
        claim is Some ==> after_pin_commit(claim, node) == claim,
        pin_may_commit(claim, node) ==> after_pin_commit(claim, node)->0.node_id == Some(node),
{
}

/// The newest key comes first, and the one before it is kept.
pub proof fn the_newest_pin_comes_first<T>(keys: Seq<T>, key: T)
    requires
        keys.len() <= RECENT_PIN_CACHE,
    ensures
        retained(keys, key).len() >= 1 && retained(keys, key)[0] == key,
        keys.len() > 0 ==> retained(keys, key) == seq![key, keys[0]],
        keys.len() == 0 ==> retained(keys, key) == seq![key],
{
    assert(keys.len() == 0 ==> retained(keys, key) =~= seq![key]);
    assert(keys.len() > 0 ==> retained(keys, key) =~= seq![key, keys[0]]);
}

} // verus!
