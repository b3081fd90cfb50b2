//! The listener's side of authentication: a state machine that is told what arrived from
//! the dialer and says what to send.

use vstd::prelude::*;
use vstd::string::*;
use vstd::utf8::encode_utf8;

use crate::auth::{auth_signature_error, parsed_key, CardView, PublicKey};
use crate::hash::{base64_bytes, base64_text};
use crate::net::claim::{
    after_key_commit, after_pin_commit, key_may_commit, pin_may_commit, ClaimView, PairClaim,
    RecentPins,
};
use crate::net::handshake::{
    accept_proof, admit_key_request, admitted_key, challenge_error, pin_dialer_allowed,
    random_nonce, sign_challenge, transcript, Handshake, HandshakeView, Refusal, RefusalView,
};
use crate::net::{card_views, KeyIdentity};
use crate::node::NodeId;
use crate::pake::PakeParty;
use crate::pin_auth::{
    a_shared_pin_is_matched, agrees, an_honest_verdict_is_taken, confirm_texts,
    confirms_are_readable, confirms_error, dialer_party, exchange_error, listener_party,
    listener_report, matched_slot, matched_slots_are_live, message_of, messages_are_well_formed,
    sent_messages_are_taken, sent_texts, slot_confirmed, slot_keys, verdict_error, verdict_for,
    verdict_is_readable, Direction, ListenerHandshake, PinPassword, SlotVerdict, SlotVerdictView,
    PAKE_SLOTS,
};
use crate::text::{hex_text, texts};

verus! {

// ---------------------------------------------------------------------------
// What comes in and what goes out
// ---------------------------------------------------------------------------

/// What arrived from the dialer, or ended the wait for it.
pub enum ListenerInput {
    /// A request to authenticate with an application key.
    KeyRequest { public_key: String, nonce: String },
    /// A request to authenticate with a PIN: the opening messages.
    PinRequest { pakes: Vec<String> },
    /// The dialer's proof of its application key.
    Proof(String),
    /// The dialer's key confirmations.
    Confirms(Vec<String>),
    /// The stream broke, or held something that is no message.
    Broken(String),
    TimedOut,
}

/// The content of a [`ListenerInput`].
pub enum ListenerInputView {
    KeyRequest { public_key: Seq<char>, nonce: Seq<char> },
    PinRequest { pakes: Seq<Seq<char>> },
    Proof(Seq<char>),
    Confirms(Seq<Seq<char>>),
    Broken(Seq<char>),
    TimedOut,
}

impl View for ListenerInput {
    type V = ListenerInputView;

    open spec fn view(&self) -> ListenerInputView {
        match *self {
            ListenerInput::KeyRequest { public_key, nonce } => ListenerInputView::KeyRequest {
                public_key: public_key@,
                nonce: nonce@,
            },
            ListenerInput::PinRequest { pakes } => ListenerInputView::PinRequest {
                pakes: texts(pakes@),
            },
            ListenerInput::Proof(proof) => ListenerInputView::Proof(proof@),
            ListenerInput::Confirms(confirms) => ListenerInputView::Confirms(texts(confirms@)),
            ListenerInput::Broken(e) => ListenerInputView::Broken(e@),
            ListenerInput::TimedOut => ListenerInputView::TimedOut,
        }
    }
}

/// What the listener does next.
pub enum ListenerAction {
    /// Send the challenge of the key handshake and wait for the proof.
    Challenge { public_key: String, nonce: String, proof: String },
    /// Send the exchange messages and wait for the confirmations.
    Pakes(Vec<String>),
    /// Tell the dialer that its proof was accepted; it holds `key`.
    Accept { key: PublicKey },
    /// Send the verdict on the PIN. Where `refusal` is none the dialer is accepted, and
    /// otherwise the connection is closed with it.
    Verdict { verdict: SlotVerdict, refusal: Option<Refusal> },
    /// Close the connection.
    Close(Refusal),
}

/// The content of a [`ListenerAction`].
pub enum ListenerActionView {
    Challenge { public_key: Seq<char>, nonce: Seq<char>, proof: Seq<char> },
    Pakes(Seq<Seq<char>>),
    Accept { key: Seq<u8> },
    Verdict { verdict: SlotVerdictView, refusal: Option<RefusalView> },
    Close(RefusalView),
}

/// The view of an optional refusal.
pub open spec fn refusal_view(r: Option<Refusal>) -> Option<RefusalView> {
    match r {
        Some(r) => Some(r@),
        None => None,
    }
}

impl View for ListenerAction {
    type V = ListenerActionView;

    open spec fn view(&self) -> ListenerActionView {
        match *self {
            ListenerAction::Challenge { public_key, nonce, proof } => {
                ListenerActionView::Challenge {
                    public_key: public_key@,
                    nonce: nonce@,
                    proof: proof@,
                }
            },
            ListenerAction::Pakes(pakes) => ListenerActionView::Pakes(texts(pakes@)),
            ListenerAction::Accept { key } => ListenerActionView::Accept { key: key@ },
            ListenerAction::Verdict { verdict, refusal } => ListenerActionView::Verdict {
                verdict: verdict@,
                refusal: refusal_view(refusal),
            },
            ListenerAction::Close(refusal) => ListenerActionView::Close(refusal@),
        }
    }
}

// ---------------------------------------------------------------------------
// The machine
// ---------------------------------------------------------------------------

/// A PIN handshake that waits for the dialer's confirmations.
pub struct PinWait {
    /// How many slots run on a PIN that the listener honours.
    pub live: nat,
    pub parties: Seq<PakeParty>,
    pub keys: Seq<Seq<u8>>,
    pub dialer: Seq<char>,
    pub listener: Seq<char>,
}

/// Where an authentication stands.
pub enum ListenerView {
    /// The dialer's request is awaited; it will be judged by the claim as it stood when
    /// the dialer came.
    Fresh(Option<ClaimView>),
    /// The challenge is sent.
    AwaitingProof(HandshakeView),
    /// The exchange messages are sent.
    AwaitingConfirms(PinWait),
    Over,
}

enum ListenerState {
    Fresh(PairClaim),
    AwaitingProof(Handshake),
    AwaitingConfirms(ListenerHandshake),
    Over,
}

/// What a listener goes by: the trusted cards and the own key where it takes keys, the
/// passwords of the PINs that it honours, and the time.
pub struct ListenerTrust {
    pub own_key: Option<Seq<u8>>,
    pub peers: Option<Seq<CardView>>,
    pub passwords: Seq<PinPassword>,
    pub now: u64,
}

/// The passwords that a PIN dialer at `remote` is judged against: none where the claim is
/// held by a key or by another device.
pub open spec fn candidates_for(
    claim: Option<ClaimView>,
    passwords: Seq<PinPassword>,
    remote: Seq<u8>,
) -> Seq<PinPassword> {
    let allowed = match claim {
        None => true,
        Some(c) => c.application_key is None && c.node_id == Some(remote),
    };
    if allowed {
        passwords
    } else {
        Seq::empty()
    }
}

/// Whether a PIN handshake with the device at `remote` runs slot for slot on `candidates`
/// and on the messages `pakes`.
pub open spec fn runs_on(
    wait: PinWait,
    candidates: Seq<PinPassword>,
    pakes: Seq<Seq<char>>,
    remote: Seq<u8>,
    own: Seq<u8>,
) -> bool {
    &&& wait.live == if candidates.len() < PAKE_SLOTS {
        candidates.len()
    } else {
        PAKE_SLOTS as nat
    }
    &&& wait.dialer == hex_text(remote)
    &&& wait.listener == hex_text(own)
    &&& wait.parties.len() == PAKE_SLOTS
    &&& forall|i: int|
        0 <= i < PAKE_SLOTS && i < candidates.len() ==> listener_party(
            #[trigger] wait.parties[i],
            candidates[i]@,
            i as nat,
            wait.dialer,
            wait.listener,
        )
    &&& forall|i: int| 0 <= i < PAKE_SLOTS ==> !(#[trigger] wait.parties[i]).dialer
    &&& wait.keys == slot_keys(wait.parties, pakes)
    &&& messages_are_well_formed(wait.parties)
    &&& forall|i: int|
        0 <= i < PAKE_SLOTS ==> agrees(#[trigger] wait.parties[i], message_of(pakes[i]))
}

/// What an input that does not fit the state is answered with.
pub open spec fn out_of_step() -> ListenerActionView {
    ListenerActionView::Close(RefusalView::Failed("the handshake is out of step"@))
}

/// The reaction to a request with the key `key_text` and the dialer's nonce.
pub open spec fn key_request_reacts(
    own_key: Option<Seq<u8>>,
    peers: Option<Seq<CardView>>,
    now: u64,
    claim: Option<ClaimView>,
    remote: Seq<u8>,
    own: Seq<u8>,
    key_text: Seq<char>,
    nonce: Seq<char>,
    after: ListenerView,
    action: ListenerActionView,
) -> bool {
    match admitted_key(peers, claim, key_text, now) {
        Err(refusal) => after == ListenerView::Over && action == ListenerActionView::Close(refusal),
        Ok(key) => match (after, action) {
            (
                ListenerView::AwaitingProof(h),
                ListenerActionView::Challenge { public_key, nonce: server_nonce, proof },
            ) => {
                &&& own_key == Some(h.server_key)
                &&& h == HandshakeView {
                    client_key: key,
                    server_key: h.server_key,
                    client_nonce: nonce,
                    server_nonce,
                    client_node: remote,
                    server_node: own,
                }
                &&& public_key == hex_text(h.server_key)
                &&& base64_bytes(server_nonce) is Some
                &&& base64_bytes(server_nonce)->0.len() == 32
                &&& auth_signature_error(h.server_key, transcript("listener"@, h), proof) is None
            },
            _ => false,
        },
    }
}

/// The reaction to a request with the opening messages `pakes`.
pub open spec fn pin_request_reacts(
    candidates: Seq<PinPassword>,
    remote: Seq<u8>,
    own: Seq<u8>,
    pakes: Seq<Seq<char>>,
    after: ListenerView,
    action: ListenerActionView,
) -> bool {
    match exchange_error(false, pakes) {
        Some(e) => after == ListenerView::Over && action == ListenerActionView::Close(
            RefusalView::Failed(e),
        ),
        None => match (after, action) {
            (ListenerView::AwaitingConfirms(wait), ListenerActionView::Pakes(reply)) => {
                runs_on(wait, candidates, pakes, remote, own) && reply == sent_texts(wait.parties)
            },
            _ => false,
        },
    }
}

/// The claim and the action after the dialer's proof over the handshake `h`.
pub open spec fn after_proof(claim: Option<ClaimView>, h: HandshakeView, proof: Seq<char>) -> (
    Option<ClaimView>,
    ListenerActionView,
) {
    match auth_signature_error(h.client_key, transcript("dialer"@, h), proof) {
        Some(e) => (claim, ListenerActionView::Close(RefusalView::Failed(e))),
        None => if key_may_commit(claim, h.client_key) {
            (
                after_key_commit(claim, h.client_key, h.client_node),
                ListenerActionView::Accept { key: h.client_key },
            )
        } else {
            (
                claim,
                ListenerActionView::Close(
                    RefusalView::Failed("another application identity paired first"@),
                ),
            )
        },
    }
}

/// The slot whose PIN the dialer's confirmations prove, if there is one.
pub open spec fn proven_slot(wait: PinWait, confirms: Seq<Seq<char>>) -> Option<usize> {
    matched_slot(wait.live, wait.keys, confirms, wait.dialer, wait.listener, 0)
}

/// The claim and the action after the dialer's confirmations.
pub open spec fn after_confirms(
    claim: Option<ClaimView>,
    remote: Seq<u8>,
    wait: PinWait,
    confirms: Seq<Seq<char>>,
) -> (Option<ClaimView>, ListenerActionView) {
    match confirms_error(confirms) {
        Some(e) => (claim, ListenerActionView::Close(RefusalView::Failed(e))),
        None => {
            let slot = proven_slot(wait, confirms);
            let committed = slot is Some && pin_may_commit(claim, remote);
            (
                if slot is Some {
                    after_pin_commit(claim, remote)
                } else {
                    claim
                },
                ListenerActionView::Verdict {
                    verdict: verdict_for(wait.keys, wait.dialer, wait.listener, slot, committed),
                    refusal: match listener_report(slot, committed) {
                        Some(e) => Some(RefusalView::Failed(e)),
                        None => None,
                    },
                },
            )
        },
    }
}

/// Whether a step is the right one: from a state and a claim, on an input, to a state, a
/// claim and an action. Nonces, signatures and exchange messages are drawn, so the step
/// is a relation.
pub open spec fn listener_reacts(
    trust: ListenerTrust,
    remote: Seq<u8>,
    own: Seq<u8>,
    before: (ListenerView, Option<ClaimView>),
    input: ListenerInputView,
    after: (ListenerView, Option<ClaimView>),
    action: ListenerActionView,
) -> bool {
    match (before.0, input) {
        (_, ListenerInputView::Broken(e)) => {
            &&& after == (ListenerView::Over, before.1)
            &&& action == ListenerActionView::Close(RefusalView::Failed(e))
        },
        (_, ListenerInputView::TimedOut) => {
            &&& after == (ListenerView::Over, before.1)
            &&& action == ListenerActionView::Close(RefusalView::TimedOut)
        },
        (ListenerView::Fresh(seen), ListenerInputView::KeyRequest { public_key, nonce }) => {
            &&& after.1 == before.1
            &&& key_request_reacts(
                trust.own_key,
                trust.peers,
                trust.now,
                seen,
                remote,
                own,
                public_key,
                nonce,
                after.0,
                action,
            )
        },
        (ListenerView::Fresh(seen), ListenerInputView::PinRequest { pakes }) => {
            &&& after.1 == before.1
            &&& pin_request_reacts(
                candidates_for(seen, trust.passwords, remote),
                remote,
                own,
                pakes,
                after.0,
                action,
            )
        },
        (ListenerView::AwaitingProof(h), ListenerInputView::Proof(proof)) => {
            &&& after.0 == ListenerView::Over
            &&& (after.1, action) == after_proof(before.1, h, proof)
        },
        (ListenerView::AwaitingConfirms(wait), ListenerInputView::Confirms(confirms)) => {
            &&& after.0 == ListenerView::Over
            &&& (after.1, action) == after_confirms(before.1, remote, wait, confirms)
            &&& action matches ListenerActionView::Verdict { verdict, .. } ==> verdict_is_readable(
                wait.keys,
                wait.dialer,
                wait.listener,
                verdict,
            )
        },
        _ => after == (ListenerView::Over, before.1) && action == out_of_step(),
    }
}

/// The authentication of one dialer.
pub struct ListenerAuth {
    remote: NodeId,
    own: NodeId,
    state: ListenerState,
}

impl View for ListenerAuth {
    type V = ListenerView;

    closed spec fn view(&self) -> ListenerView {
        match self.state {
            ListenerState::Fresh(seen) => ListenerView::Fresh(seen@),
            ListenerState::AwaitingProof(h) => ListenerView::AwaitingProof(h@),
            ListenerState::AwaitingConfirms(l) => ListenerView::AwaitingConfirms(pin_wait(l)),
            ListenerState::Over => ListenerView::Over,
        }
    }
}

/// What a PIN handshake waits with.
pub open spec fn pin_wait(l: ListenerHandshake) -> PinWait {
    PinWait {
        live: l.live(),
        parties: l.parties(),
        keys: l.keys(),
        dialer: l.dialer(),
        listener: l.listener(),
    }
}

/// The key of a listener that takes keys.
pub open spec fn own_key_of(identity: Option<&KeyIdentity>) -> Option<Seq<u8>> {
    match identity {
        Some(k) => Some(k.identity.public_bytes()),
        None => None,
    }
}

/// The trusted cards of a listener that takes keys.
pub open spec fn peers_of(identity: Option<&KeyIdentity>) -> Option<Seq<CardView>> {
    match identity {
        Some(k) => Some(card_views(k.peers@)),
        None => None,
    }
}

impl ListenerAuth {
    /// The node id of the dialer.
    pub closed spec fn remote(self) -> Seq<u8> {
        self.remote@
    }

    /// The node id of this device.
    pub closed spec fn own(self) -> Seq<u8> {
        self.own@
    }

    /// The nonces of a handshake are short enough to be signed.
    #[verifier::type_invariant]
    spec fn well_formed(self) -> bool {
        match self.state {
            ListenerState::AwaitingProof(h) => {
                &&& encode_utf8(h@.client_nonce).len() < 0x1_0000_0000
                &&& encode_utf8(h@.server_nonce).len() < 0x1_0000_0000
            },
            _ => true,
        }
    }

    /// Waits for the request of the dialer at `remote`.
    pub fn new(remote: NodeId, own: NodeId, claim: &PairClaim) -> (r: ListenerAuth)
        ensures
            r@ == ListenerView::Fresh(claim@),
            r.remote() == remote@,
            r.own() == own@,
    {
        ListenerAuth { remote, own, state: ListenerState::Fresh(claim.snapshot()) }
    }

    fn on_key_request(
        &mut self,
        identity: Option<&KeyIdentity>,
        claim: &PairClaim,
        key_text: &str,
        nonce: String,
        now: u64,
    ) -> (r: ListenerAction)
        requires
            encode_utf8(nonce@).len() < 0x1_0000_0000,
        ensures
            final(self).remote() == old(self).remote(),
            final(self).own() == old(self).own(),
            key_request_reacts(
                own_key_of(identity),
                peers_of(identity),
                now,
                claim@,
                old(self).remote(),
                old(self).own(),
                key_text@,
                nonce@,
                final(self)@,
                r@,
            ),
    {
        let (remote, own) = (self.remote, self.own);
        let client_key: PublicKey = match admit_key_request(identity, claim, key_text, now) {
            Ok(key) => key,
            Err(refusal) => {
                *self = ListenerAuth { remote, own, state: ListenerState::Over };
                return ListenerAction::Close(refusal);
            },
        };
        let identity: &KeyIdentity = match identity {
            Some(identity) => identity,
            None => {
                *self = ListenerAuth { remote, own, state: ListenerState::Over };
                return ListenerAction::Close(
                    Refusal::Failed("listener is not in key-auth mode".to_owned()),
                );
            },
        };
        let server_nonce: String = random_nonce();
        let h = Handshake {
            client_key,
            server_key: identity.identity.public_key(),
            client_nonce: nonce,
            server_nonce: server_nonce.clone(),
            client_node: remote,
            server_node: own,
        };
        let proof: String = sign_challenge(&identity.identity, &h);
        let public_key: String = identity.identity.public_key().to_hex();
        *self = ListenerAuth { remote, own, state: ListenerState::AwaitingProof(h) };
        ListenerAction::Challenge { public_key, nonce: server_nonce, proof }
    }

    fn on_pin_request(
        &mut self,
        passwords: &RecentPins<PinPassword>,
        claim: &PairClaim,
        pakes: &Vec<String>,
    ) -> (r: ListenerAction)
        ensures
            final(self).remote() == old(self).remote(),
            final(self).own() == old(self).own(),
            pin_request_reacts(
                candidates_for(claim@, passwords@, old(self).remote()),
                old(self).remote(),
                old(self).own(),
                texts(pakes@),
                final(self)@,
                r@,
            ),
    {
        let (remote, own) = (self.remote, self.own);
        let none: Vec<PinPassword> = Vec::new();
        let candidates: &Vec<PinPassword> = if pin_dialer_allowed(claim, remote) {
            passwords.snapshot()
        } else {
            &none
        };
        assert(candidates@ =~= candidates_for(claim@, passwords@, remote@));
        let (dialer, listener): (String, String) = (remote.to_text(), own.to_text());
        match ListenerHandshake::challenge(candidates, pakes, dialer.as_str(), listener.as_str()) {
            Err(e) => {
                *self = ListenerAuth { remote, own, state: ListenerState::Over };
                ListenerAction::Close(Refusal::Failed(e))
            },
            Ok((handshake, reply)) => {
                *self = ListenerAuth {
                    remote,
                    own,
                    state: ListenerState::AwaitingConfirms(handshake),
                };
                ListenerAction::Pakes(reply)
            },
        }
    }

    /// Takes what arrived, and says what to do. `identity` is given where the listener
    /// takes keys, and `passwords` are those of the PINs that it honours.
    pub fn step(
        &mut self,
        input: ListenerInput,
        identity: Option<&KeyIdentity>,
        passwords: &RecentPins<PinPassword>,
        claim: &mut PairClaim,
        now: u64,
    ) -> (r: ListenerAction)
        requires
            input@ matches ListenerInputView::KeyRequest { nonce, .. } ==> encode_utf8(nonce).len()
                < 0x1_0000_0000,
        ensures
            final(self).remote() == old(self).remote(),
            final(self).own() == old(self).own(),
            listener_reacts(
                ListenerTrust {
                    own_key: own_key_of(identity),
                    peers: peers_of(identity),
                    passwords: passwords@,
                    now,
                },
                old(self).remote(),
                old(self).own(),
                (old(self)@, old(claim)@),
                input@,
                (final(self)@, final(claim)@),
                r@,
            ),
    {
        proof {
            use_type_invariant(&*self);
        }
        let (remote, own) = (self.remote, self.own);
        let mut machine = ListenerAuth { remote, own, state: ListenerState::Over };
        core::mem::swap(&mut machine, self);
        match (machine.state, input) {
            (_, ListenerInput::Broken(e)) => ListenerAction::Close(Refusal::Failed(e)),
            (_, ListenerInput::TimedOut) => ListenerAction::Close(Refusal::TimedOut),
            (ListenerState::Fresh(seen), ListenerInput::KeyRequest { public_key, nonce }) => {
                self.on_key_request(identity, &seen, public_key.as_str(), nonce, now)
            },
            (ListenerState::Fresh(seen), ListenerInput::PinRequest { pakes }) => {
                self.on_pin_request(passwords, &seen, &pakes)
            },
            (ListenerState::AwaitingProof(h), ListenerInput::Proof(proof)) => {
                match accept_proof(claim, &h, proof.as_str()) {
                    Ok(()) => ListenerAction::Accept { key: h.client_key },
                    Err(refusal) => ListenerAction::Close(refusal),
                }
            },
            (ListenerState::AwaitingConfirms(l), ListenerInput::Confirms(confirms)) => {
                match l.matched(&confirms) {
                    Err(e) => ListenerAction::Close(Refusal::Failed(e)),
                    Ok(slot) => {
                        proof {
                            matched_slots_are_live(
                                l.live(),
                                l.keys(),
                                texts(confirms@),
                                l.dialer(),
                                l.listener(),
                                0,
                            );
                        }
                        let committed: bool = if slot.is_some() {
                            claim.commit_pin(remote)
                        } else {
                            false
                        };
                        let (verdict, report) = l.verdict(slot, committed);
                        let refusal: Option<Refusal> = match report {
                            Ok(()) => None,
                            Err(e) => Some(Refusal::Failed(e)),
                        };
                        ListenerAction::Verdict { verdict, refusal }
                    },
                }
            },
            _ => ListenerAction::Close(
                Refusal::Failed("the handshake is out of step".to_owned()),
            ),
        }
    }
}

// ---------------------------------------------------------------------------
// What holds of every step
// ---------------------------------------------------------------------------

/// Whether a state is one that an authentication of the dialer at `remote` by this device
/// can be in.
pub open spec fn belongs_to(state: ListenerView, remote: Seq<u8>, own: Seq<u8>) -> bool {
    match state {
        ListenerView::AwaitingProof(h) => h.client_node == remote && h.server_node == own,
        ListenerView::AwaitingConfirms(wait) => wait.dialer == hex_text(remote) && wait.listener
            == hex_text(own),
        _ => true,
    }
}

/// Every step keeps the handshake bound to the two devices that run it.
pub proof fn steps_stay_with_their_devices(
    trust: ListenerTrust,
    remote: Seq<u8>,
    own: Seq<u8>,
    before: (ListenerView, Option<ClaimView>),
    input: ListenerInputView,
    after: (ListenerView, Option<ClaimView>),
    action: ListenerActionView,
)
    requires
        listener_reacts(trust, remote, own, before, input, after, action),
    ensures
        belongs_to(after.0, remote, own),
{
}

/// Both trust checks run before this device signs anything: a challenge goes only to a
/// dialer whose key a trusted and current card carries.
pub proof fn only_admitted_dialers_are_challenged(
    trust: ListenerTrust,
    remote: Seq<u8>,
    own: Seq<u8>,
    before: (ListenerView, Option<ClaimView>),
    input: ListenerInputView,
    after: (ListenerView, Option<ClaimView>),
    action: ListenerActionView,
)
    requires
        listener_reacts(trust, remote, own, before, input, after, action),
        action is Challenge,
    ensures
        match (before.0, input) {
            (
                ListenerView::Fresh(seen),
                ListenerInputView::KeyRequest { public_key, .. },
            ) => admitted_key(trust.peers, seen, public_key, trust.now) is Ok,
            _ => false,
        },
{
}

/// The claim changes hands only with a proof: of an application key over this very
/// handshake, or of a PIN that the listener honours.
pub proof fn only_proofs_take_the_claim(
    trust: ListenerTrust,
    remote: Seq<u8>,
    own: Seq<u8>,
    before: (ListenerView, Option<ClaimView>),
    input: ListenerInputView,
    after: (ListenerView, Option<ClaimView>),
    action: ListenerActionView,
)
    requires
        listener_reacts(trust, remote, own, before, input, after, action),
        after.1 != before.1,
    ensures
        match (before.0, input) {
            (
                ListenerView::AwaitingProof(h),
                ListenerInputView::Proof(proof),
            ) => auth_signature_error(h.client_key, transcript("dialer"@, h), proof) is None,
            (ListenerView::AwaitingConfirms(wait), ListenerInputView::Confirms(confirms)) => {
                exists|slot: int|
                    0 <= slot < PAKE_SLOTS && slot < wait.live && #[trigger] slot_confirmed(
                        wait.keys,
                        slot,
                        confirms[slot],
                        wait.dialer,
                        wait.listener,
                    )
            },
            _ => false,
        },
{
    if let (ListenerView::AwaitingConfirms(wait), ListenerInputView::Confirms(confirms)) = (
        before.0,
        input,
    ) {
        matched_slots_are_live(wait.live, wait.keys, confirms, wait.dialer, wait.listener, 0);
    }
}

/// A dialer is told that it was accepted only when it holds the claim: acceptance is
/// never taken back for a lost race.
pub proof fn the_accepted_dialer_holds_the_claim(
    trust: ListenerTrust,
    remote: Seq<u8>,
    own: Seq<u8>,
    before: (ListenerView, Option<ClaimView>),
    input: ListenerInputView,
    after: (ListenerView, Option<ClaimView>),
    action: ListenerActionView,
)
    requires
        belongs_to(before.0, remote, own),
        listener_reacts(trust, remote, own, before, input, after, action),
        action is Accept || (action matches ListenerActionView::Verdict { verdict, .. }
            && verdict.accepted),
    ensures
        after.1 is Some,
        after.1->0.node_id == Some(remote),
        action matches ListenerActionView::Accept { key } ==> after.1->0.application_key == Some(
            key,
        ),
        action matches ListenerActionView::Verdict { refusal, .. } ==> refusal is None,
{
}

/// A dialer whose key is trusted and current pairs, where the pairing is free or its own:
/// it is challenged, the challenge holds before it, and its proof over the same handshake
/// wins it the claim.
pub proof fn a_trusted_dialer_pairs(
    trust: ListenerTrust,
    remote: Seq<u8>,
    own: Seq<u8>,
    seen: Option<ClaimView>,
    key_text: Seq<char>,
    nonce: Seq<char>,
    asked: (ListenerView, Option<ClaimView>),
    challenge: ListenerActionView,
    claim: Option<ClaimView>,
    proof: Seq<char>,
    after: (ListenerView, Option<ClaimView>),
    action: ListenerActionView,
)
    requires
        admitted_key(trust.peers, seen, key_text, trust.now) is Ok,
        listener_reacts(
            trust,
            remote,
            own,
            (ListenerView::Fresh(seen), asked.1),
            ListenerInputView::KeyRequest { public_key: key_text, nonce },
            asked,
            challenge,
        ),
        key_may_commit(claim, asked.0->AwaitingProof_0.client_key),
        auth_signature_error(
            asked.0->AwaitingProof_0.client_key,
            transcript("dialer"@, asked.0->AwaitingProof_0),
            proof,
        ) is None,
        listener_reacts(
            trust,
            remote,
            own,
            (asked.0, claim),
            ListenerInputView::Proof(proof),
            after,
            action,
        ),
    ensures
        match (asked.0, challenge) {
            (
                ListenerView::AwaitingProof(h),
                ListenerActionView::Challenge { public_key, nonce: server_nonce, proof: signed },
            ) => {
                &&& admitted_key(trust.peers, seen, key_text, trust.now) == Ok::<
                    Seq<u8>,
                    RefusalView,
                >(h.client_key)
                &&& h.client_nonce == nonce && h.server_nonce == server_nonce
                &&& parsed_key(public_key) == Some(h.server_key) ==> challenge_error(
                    h.server_key,
                    public_key,
                    signed,
                    h,
                ) is None
                &&& action == ListenerActionView::Accept { key: h.client_key }
                &&& after.1 == Some(
                    ClaimView { application_key: Some(h.client_key), node_id: Some(remote) },
                )
            },
            _ => false,
        },
{
}

/// A dialer that holds a PIN which the listener honours pairs, where the pairing is free
/// or its own: the listener takes its confirmations and gives it the claim. Where no
/// earlier slot happened to match, the dialer takes the answer.
pub proof fn a_dialer_with_a_live_pin_pairs(
    trust: ListenerTrust,
    remote: Seq<u8>,
    own: Seq<u8>,
    seen: Option<ClaimView>,
    slot: usize,
    dialer: Seq<PakeParty>,
    reply: Seq<Seq<char>>,
    asked: (ListenerView, Option<ClaimView>),
    claim: Option<ClaimView>,
    after: (ListenerView, Option<ClaimView>),
    action: ListenerActionView,
)
    requires
        slot < PAKE_SLOTS,
        slot < trust.passwords.len(),
        candidates_for(seen, trust.passwords, remote) == trust.passwords,
        pin_may_commit(claim, remote),
        dialer.len() == PAKE_SLOTS,
        forall|i: int|
            0 <= i < PAKE_SLOTS ==> dialer_party(
                #[trigger] dialer[i],
                trust.passwords[slot as int]@,
                i as nat,
                hex_text(remote),
                hex_text(own),
            ),
        messages_are_well_formed(dialer),
        agrees(dialer[slot as int], message_of(reply[slot as int])),
        confirms_are_readable(
            slot_keys(dialer, reply),
            Direction::Dialer,
            hex_text(remote),
            hex_text(own),
        ),
        listener_reacts(
            trust,
            remote,
            own,
            (ListenerView::Fresh(seen), asked.1),
            ListenerInputView::PinRequest { pakes: sent_texts(dialer) },
            asked,
            ListenerActionView::Pakes(reply),
        ),
        listener_reacts(
            trust,
            remote,
            own,
            (asked.0, claim),
            ListenerInputView::Confirms(
                confirm_texts(
                    slot_keys(dialer, reply),
                    Direction::Dialer,
                    hex_text(remote),
                    hex_text(own),
                ),
            ),
            after,
            action,
        ),
    ensures
        match action {
            ListenerActionView::Verdict { verdict, refusal } => {
                &&& verdict.accepted
                &&& refusal is None
                &&& verdict.slot is Some && verdict.slot->0 <= slot
                &&& verdict.slot == Some(slot) ==> verdict_error(
                    slot_keys(dialer, reply),
                    hex_text(remote),
                    hex_text(own),
                    verdict,
                ) is None
            },
            _ => false,
        },
        after.1 is Some && after.1->0.node_id == Some(remote),
{
    sent_messages_are_taken(dialer, false);
    if let ListenerView::AwaitingConfirms(wait) = asked.0 {
        let s = slot as int;
        assert(listener_party(
            wait.parties[s],
            trust.passwords[s]@,
            slot as nat,
            wait.dialer,
            wait.listener,
        ));
        assert(sent_texts(wait.parties)[s] == base64_text(wait.parties[s].sent));
        a_shared_pin_is_matched(
            trust.passwords[s]@,
            slot,
            wait.live,
            dialer,
            wait.parties,
            wait.dialer,
            wait.listener,
        );
        let dialer_keys = slot_keys(dialer, reply);
        let confirms = confirm_texts(dialer_keys, Direction::Dialer, wait.dialer, wait.listener);
        if proven_slot(wait, confirms) == Some(slot) {
            an_honest_verdict_is_taken(dialer_keys, wait.keys, slot, wait.dialer, wait.listener);
        }
    }
}

/// A proof that verifies wins its dialer the pairing exactly where the pairing is free or
/// its own; a proof that does not, or one that comes too late, leaves the pairing as it was
/// and is answered with the reason.
pub proof fn a_valid_proof_wins_a_free_pairing(
    claim: Option<ClaimView>,
    h: HandshakeView,
    proof: Seq<char>,
)
    ensures
        auth_signature_error(h.client_key, transcript("dialer"@, h), proof) is None && (claim
            is None || claim->0.application_key == Some(h.client_key)) ==> after_proof(
            claim,
            h,
            proof,
        ) == (
            Some(
                ClaimView {
                    application_key: Some(h.client_key),
                    node_id: Some(h.client_node),
                },
            ),
            ListenerActionView::Accept { key: h.client_key },
        ),
        auth_signature_error(h.client_key, transcript("dialer"@, h), proof) is None && claim is Some
            && claim->0.application_key != Some(h.client_key) ==> after_proof(claim, h, proof) == (
            claim,
            ListenerActionView::Close(
                RefusalView::Failed("another application identity paired first"@),
            ),
        ),
        auth_signature_error(h.client_key, transcript("dialer"@, h), proof) matches Some(e)
            ==> after_proof(claim, h, proof) == (
            claim,
            ListenerActionView::Close(RefusalView::Failed(e)),
        ),
{
}

/// Confirmations win their dialer the pairing exactly where some slot on a live PIN is
/// proven and the pairing is free or held from the same transport id; nothing else changes
/// it, and a dialer that does not win it is not accepted.
pub proof fn a_proven_pin_wins_a_free_pairing(
    claim: Option<ClaimView>,
    remote: Seq<u8>,
    wait: PinWait,
    confirms: Seq<Seq<char>>,
    slot: int,
)
    requires
        confirms.len() == 2,
    ensures
        ({
            let (after, action) = after_confirms(claim, remote, wait, confirms);
            let proven = 0 <= slot < 2 && slot < wait.live && slot_confirmed(
                wait.keys,
                slot,
                confirms[slot],
                wait.dialer,
                wait.listener,
            );
            &&& action is Verdict
            &&& action->verdict.accepted <==> action->refusal is None
            &&& claim is Some ==> after == claim
            &&& claim is None ==> after == (if action->verdict.accepted {
                Some(ClaimView { application_key: None, node_id: Some(remote) })
            } else {
                None
            })
            &&& proven && (claim is None || claim->0.node_id == Some(remote))
                ==> action->verdict.accepted && action->verdict.slot is Some
                && action->verdict.slot->0 <= slot
            &&& claim is Some && claim->0.node_id != Some(remote) ==> !action->verdict.accepted
            &&& action->verdict.accepted ==> exists|i: int|
                0 <= i < 2 && i < wait.live && action->verdict.slot == Some(i as usize)
                    && #[trigger] slot_confirmed(
                    wait.keys,
                    i,
                    confirms[i],
                    wait.dialer,
                    wait.listener,
                )
        }),
{
    matched_slots_are_live(wait.live, wait.keys, confirms, wait.dialer, wait.listener, 0);
    if 0 <= slot < 2 && slot < wait.live && slot_confirmed(
        wait.keys,
        slot,
        confirms[slot],
        wait.dialer,
        wait.listener,
    ) {
        crate::pin_auth::first_match_is_no_later(
            wait.live,
            wait.keys,
            confirms,
            wait.dialer,
            wait.listener,
            0,
            slot as nat,
        );
    }
    if let Some(i) = proven_slot(wait, confirms) {
        assert(slot_confirmed(
            wait.keys,
            i as int,
            confirms[i as int],
            wait.dialer,
            wait.listener,
        ));
    }
}

/// Which PINs a dialer is judged by: all that are honoured where the pairing is free or held
/// by a card-setup joiner at the same transport id, and none otherwise.
pub proof fn held_pairings_honour_no_pin(
    claim: Option<ClaimView>,
    passwords: Seq<PinPassword>,
    remote: Seq<u8>,
)
    ensures
        claim is None ==> candidates_for(claim, passwords, remote) == passwords,
        claim matches Some(c) ==> candidates_for(claim, passwords, remote) == (if c.application_key
            is None && c.node_id == Some(remote) {
            passwords
        } else {
            Seq::empty()
        }),
{
}

/// A stream that breaks, times out or gets out of step ends the handshake at once, whatever
/// its state, leaves the pairing as it was, and is answered for what it was.
pub proof fn a_broken_handshake_changes_nothing(
    trust: ListenerTrust,
    remote: Seq<u8>,
    own: Seq<u8>,
    before: (ListenerView, Option<ClaimView>),
    input: ListenerInputView,
    after: (ListenerView, Option<ClaimView>),
    action: ListenerActionView,
)
    requires
        listener_reacts(trust, remote, own, before, input, after, action),
    ensures
        input matches ListenerInputView::Broken(e) ==> after == (ListenerView::Over, before.1)
            && action == ListenerActionView::Close(RefusalView::Failed(e)),
        input is TimedOut ==> after == (ListenerView::Over, before.1) && action
            == ListenerActionView::Close(RefusalView::TimedOut),
        (before.0 is Fresh && (input is Proof || input is Confirms)) || (before.0 is AwaitingProof
            && (input is KeyRequest || input is PinRequest || input is Confirms)) || (before.0
            is AwaitingConfirms && (input is KeyRequest || input is PinRequest || input is Proof))
            || (before.0 is Over && !(input is Broken) && !(input is TimedOut)) ==> after == (
            ListenerView::Over,
            before.1,
        ) && action == ListenerActionView::Close(
            RefusalView::Failed("the handshake is out of step"@),
        ),
{
}

/// A request is answered for what it is and leaves the pairing as it was: a key that is not
/// admitted is told why, one that is gets a challenge that this device signed over both
/// nonces, both keys and both node ids; opening messages that cannot be used are told why,
/// and others get the messages of the slots that run on the honoured PINs.
pub proof fn requests_are_answered(
    trust: ListenerTrust,
    remote: Seq<u8>,
    own: Seq<u8>,
    seen: Option<ClaimView>,
    claim: Option<ClaimView>,
    input: ListenerInputView,
    after: (ListenerView, Option<ClaimView>),
    action: ListenerActionView,
)
    requires
        listener_reacts(trust, remote, own, (ListenerView::Fresh(seen), claim), input, after, action),
    ensures
        after.1 == claim,
        input matches ListenerInputView::KeyRequest { public_key, nonce } ==> match admitted_key(
            trust.peers,
            seen,
            public_key,
            trust.now,
        ) {
            Err(refusal) => after.0 is Over && action == ListenerActionView::Close(refusal),
            Ok(key) => {
                &&& after.0 is AwaitingProof && action is Challenge
                &&& after.0->AwaitingProof_0.client_key == key
                &&& Some(after.0->AwaitingProof_0.server_key) == trust.own_key
                &&& after.0->AwaitingProof_0.client_nonce == nonce
                &&& after.0->AwaitingProof_0.server_nonce == action->Challenge_nonce
                &&& after.0->AwaitingProof_0.client_node == remote
                &&& after.0->AwaitingProof_0.server_node == own
                &&& action->Challenge_public_key == hex_text(trust.own_key->0)
            },
        },
        input matches ListenerInputView::PinRequest { pakes } ==> match exchange_error(
            false,
            pakes,
        ) {
            Some(e) => after.0 is Over && action == ListenerActionView::Close(
                RefusalView::Failed(e),
            ),
            None => {
                &&& after.0 is AwaitingConfirms && action is Pakes
                &&& action->Pakes_0.len() == 2
                &&& after.0->AwaitingConfirms_0.dialer == hex_text(remote)
                &&& after.0->AwaitingConfirms_0.listener == hex_text(own)
                &&& seen is None && trust.passwords.len() <= 2
                    ==> after.0->AwaitingConfirms_0.live == trust.passwords.len()
            },
        },
{
}

/// A listener that takes keys goes by its own key and by every trusted card, in order; one
/// that does not has neither.
pub proof fn listeners_go_by_all_they_are_given(identity: KeyIdentity, i: int)
    ensures
        own_key_of(Some(&identity)) == Some(identity.identity.public_bytes()),
        own_key_of(None) is None && peers_of(None) is None,
        peers_of(Some(&identity)) is Some && peers_of(Some(&identity))->0.len()
            == identity.peers@.len(),
        0 <= i < identity.peers@.len() ==> peers_of(Some(&identity))->0[i] == identity.peers@[i]@,
{
}

/// What arrives from a dialer is taken whole.
pub proof fn inputs_are_taken_whole(
    public_key: String,
    nonce: String,
    proof_text: String,
    pakes: Vec<String>,
    i: int,
)
    ensures
        (ListenerInput::KeyRequest { public_key, nonce })@ == (ListenerInputView::KeyRequest {
            public_key: public_key@,
            nonce: nonce@,
        }),
        ListenerInput::Proof(proof_text)@ == ListenerInputView::Proof(proof_text@),
        ListenerInput::Broken(proof_text)@ == ListenerInputView::Broken(proof_text@),
        ListenerInput::TimedOut@ is TimedOut,
        (ListenerInput::PinRequest { pakes })@->pakes.len() == pakes@.len(),
        0 <= i < pakes@.len() ==> (ListenerInput::PinRequest { pakes })@->pakes[i] == pakes@[i]@,
        ListenerInput::Confirms(pakes)@->Confirms_0.len() == pakes@.len(),
        0 <= i < pakes@.len() ==> ListenerInput::Confirms(pakes)@->Confirms_0[i] == pakes@[i]@,
{
}

/// The slots of a PIN handshake run on the honoured PINs, the first slot on the first of
/// them, as far as there are slots.
pub proof fn slots_run_on_the_honoured_pins(
    wait: PinWait,
    candidates: Seq<PinPassword>,
    pakes: Seq<Seq<char>>,
    remote: Seq<u8>,
    own: Seq<u8>,
    i: int,
)
    requires
        runs_on(wait, candidates, pakes, remote, own),
    ensures
        candidates.len() <= 2 ==> wait.live == candidates.len(),
        candidates.len() > 2 ==> wait.live == 2,
        wait.parties.len() == 2 && wait.keys.len() == 2,
        0 <= i < 2 && i < candidates.len() ==> wait.parties[i].password == candidates[i]@
            && !wait.parties[i].dialer,
        wait.dialer == hex_text(remote) && wait.listener == hex_text(own),
{
    if 0 <= i < 2 && i < candidates.len() {
        assert(listener_party(
            wait.parties[i],
            candidates[i]@,
            i as nat,
            wait.dialer,
            wait.listener,
        ));
    }
}

} // verus!
