//! The dialing session: resolve, connect, authenticate, pump, and retry at a fixed
//! interval until a run of failures has lasted too long.

use vstd::prelude::*;
use vstd::string::*;

use crate::auth::{card_valid_at, CardView, PublicKey};
use crate::net::actions::{
    action_views, complains, failed_to_start, says, start_failure, Action, ActionView, Actions,
};
use crate::net::handshake::{expired_card_message, expired_card_text, SHUTDOWN_CODE};
use crate::net::{card_views, trusted_card, ConnStatus, KeyIdentity, NetEvent, NetEventView};
use crate::node::{node_view, NodeId};
use crate::text::hex_text;

verus! {

/// Seconds between two attempts.
pub const RECONNECT_DELAY_SECS: u64 = 3;

/// Consecutive failed attempts after which the session gives up.
pub const MAX_CONNECT_ATTEMPTS: u32 = 10;

/// Where a dialing session stands.
#[derive(Clone, Copy, Debug, PartialEq, Eq, Structural)]
pub enum ClientPhase {
    Starting,
    Resolving,
    Connecting,
    Authenticating,
    Pumping,
    /// Waiting for the next attempt.
    Pausing,
    Stopped,
}

/// What happened to a dialing session.
pub enum ClientInput {
    EndpointFailed(String),
    /// The endpoint is up; `npub` is this device's public key.
    EndpointReady { node_id: NodeId, npub: String },
    /// The target was found.
    Resolved(NodeId),
    ResolveFailed,
    Connected,
    ConnectFailed,
    /// The handshake succeeded with the peer at `remote`.
    AuthDone { remote: NodeId },
    /// The handshake failed for good.
    AuthFatal(String),
    /// The connection broke during the handshake.
    AuthBroken,
    PumpEnded { cancelled: bool },
    /// The pause is over.
    Paused,
    Cancelled,
}

/// A dialing session's state: the phase, the failures since the last success, and this
/// device's own node id once the endpoint is up.
pub struct ClientView {
    pub phase: ClientPhase,
    pub attempts: u32,
    pub own_id: Option<Seq<u8>>,
}

/// What follows a failure: another attempt after a pause, or giving up.
pub open spec fn after_failure(c: ClientView) -> (ClientView, Seq<ActionView>) {
    let attempts = (c.attempts + 1) as u32;
    if attempts >= MAX_CONNECT_ATTEMPTS {
        (
            ClientView { phase: ClientPhase::Stopped, attempts, ..c },
            seq![
                complains(
                    "Could not reach the peer after 10 attempts — press Join to try again"@,
                ),
                says(ConnStatus::Idle),
                ActionView::CloseEndpoint,
            ],
        )
    } else {
        (
            ClientView { phase: ClientPhase::Pausing, attempts, ..c },
            seq![
                says(ConnStatus::Reconnecting { attempt: attempts, max: MAX_CONNECT_ATTEMPTS }),
                ActionView::WaitToRetry,
            ],
        )
    }
}

/// The next state and what is done, for what happened. `peer` is the key of the peer
/// that the session dials. What cannot happen in a phase changes nothing.
pub open spec fn client_step(c: ClientView, peer: Seq<u8>, input: ClientInput) -> (
    ClientView,
    Seq<ActionView>,
) {
    let stopped = ClientView { phase: ClientPhase::Stopped, ..c };
    match (c.phase, input) {
        (ClientPhase::Starting, ClientInput::EndpointFailed(error)) => (
            stopped,
            seq![complains(failed_to_start(error@)), says(ConnStatus::Idle)],
        ),
        (ClientPhase::Starting, ClientInput::EndpointReady { node_id, npub }) => (
            ClientView { phase: ClientPhase::Resolving, own_id: Some(node_id@), ..c },
            seq![
                ActionView::Emit(
                    NetEventView::ClientReady {
                        node_id: hex_text(node_id@),
                        identity_public_key: Some(npub@),
                    },
                ),
                says(ConnStatus::Resolving),
                ActionView::Resolve,
            ],
        ),
        (ClientPhase::Resolving, ClientInput::Resolved(target)) => if c.own_id == Some(target@) {
            (
                stopped,
                seq![
                    complains(
                        "That is this device's own node id — enter the other device's id"@,
                    ),
                    says(ConnStatus::Idle),
                    ActionView::CloseEndpoint,
                ],
            )
        } else {
            (
                ClientView { phase: ClientPhase::Connecting, ..c },
                seq![says(ConnStatus::Connecting), ActionView::Connect],
            )
        },
        (ClientPhase::Resolving, ClientInput::ResolveFailed) => after_failure(c),
        (ClientPhase::Resolving, ClientInput::Cancelled) => (stopped, Seq::empty()),
        (ClientPhase::Connecting, ClientInput::Connected) => (
            ClientView { phase: ClientPhase::Authenticating, ..c },
            seq![says(ConnStatus::Authenticating), ActionView::Authenticate],
        ),
        (ClientPhase::Connecting, ClientInput::ConnectFailed) => after_failure(c),
        (ClientPhase::Connecting, ClientInput::Cancelled) => (
            stopped,
            seq![ActionView::CloseEndpoint],
        ),
        (ClientPhase::Authenticating, ClientInput::AuthDone { remote }) => (
            ClientView { phase: ClientPhase::Pumping, attempts: 0, ..c },
            seq![
                ActionView::Emit(
                    NetEventView::PeerPaired {
                        peer_node_id: hex_text(remote@),
                        peer_public_key: Some(hex_text(peer)),
                    },
                ),
                says(ConnStatus::Connected),
                ActionView::HoldConnection,
                ActionView::Pump,
            ],
        ),
        (ClientPhase::Authenticating, ClientInput::AuthFatal(message)) => (
            stopped,
            seq![complains(message@), says(ConnStatus::Idle), ActionView::CloseEndpoint],
        ),
        (ClientPhase::Authenticating, ClientInput::AuthBroken) => after_failure(c),
        (ClientPhase::Pumping, ClientInput::PumpEnded { cancelled }) => if cancelled {
            (
                stopped,
                seq![
                    ActionView::ReleaseConnection,
                    ActionView::Close { code: SHUTDOWN_CODE, reason: "shutdown"@ },
                    ActionView::CloseEndpoint,
                ],
            )
        } else {
            (
                after_failure(c).0,
                seq![
                    ActionView::ReleaseConnection,
                    ActionView::Emit(NetEventView::PeerDisconnected),
                ] + after_failure(c).1,
            )
        },
        (ClientPhase::Pausing, ClientInput::Paused) => (
            ClientView { phase: ClientPhase::Resolving, ..c },
            seq![says(ConnStatus::Resolving), ActionView::Resolve],
        ),
        (ClientPhase::Pausing, ClientInput::Cancelled) => (
            stopped,
            seq![ActionView::CloseEndpoint],
        ),
        _ => (c, Seq::empty()),
    }
}

/// Whether the failure count is one that a running session can have: below the bound
/// until the session stops.
pub open spec fn client_valid(c: ClientView) -> bool {
    c.phase == ClientPhase::Stopped || c.attempts < MAX_CONNECT_ATTEMPTS
}

/// Every step keeps the failure count below the bound while the session runs.
pub proof fn attempts_stay_bounded(c: ClientView, peer: Seq<u8>, input: ClientInput)
    requires
        client_valid(c),
    ensures
        client_valid(client_step(c, peer, input).0),
{
}

/// A finished handshake forgets earlier failures, so that only an unbroken run of
/// failures ends the session.
pub proof fn success_resets_the_count(c: ClientView, peer: Seq<u8>, remote: NodeId)
    requires
        c.phase == ClientPhase::Authenticating,
    ensures
        client_step(c, peer, ClientInput::AuthDone { remote }).0.attempts == 0,
        client_step(c, peer, ClientInput::AuthDone { remote }).0.phase == ClientPhase::Pumping,
{
}

/// The state of a session that looks for its target, after `n` searches in a row that
/// failed, each followed by its pause.
pub open spec fn after_failures(c: ClientView, peer: Seq<u8>, n: nat) -> ClientView
    decreases n,
{
    if n == 0 {
        c
    } else {
        let before = after_failures(c, peer, (n - 1) as nat);
        let failed = client_step(before, peer, ClientInput::ResolveFailed).0;
        client_step(failed, peer, ClientInput::Paused).0
    }
}

/// From a fresh start, nine failures in a row leave the session trying, and the tenth
/// ends it.
pub proof fn ten_failures_in_a_row_give_up(c: ClientView, peer: Seq<u8>, n: nat)
    requires
        c.attempts == 0,
        c.phase == ClientPhase::Resolving,
        n <= MAX_CONNECT_ATTEMPTS,
    ensures
        after_failures(c, peer, n).attempts == n,
        after_failures(c, peer, n).phase == if n == MAX_CONNECT_ATTEMPTS {
            ClientPhase::Stopped
        } else {
            ClientPhase::Resolving
        },
    decreases n,
{
    if n > 0 {
        ten_failures_in_a_row_give_up(c, peer, (n - 1) as nat);
    }
}

/// The phase that a session begins in, and what is done first, where `card` is the trusted
/// card of the peer that it dials.
pub open spec fn client_begins(card: Option<CardView>, now: u64) -> (ClientPhase, Seq<ActionView>) {
    if card is Some && !card_valid_at(card->0, now) {
        (
            ClientPhase::Stopped,
            seq![
                says(ConnStatus::Starting),
                complains(expired_card_text(card->0.name)),
                says(ConnStatus::Idle),
            ],
        )
    } else {
        (ClientPhase::Starting, seq![says(ConnStatus::Starting), ActionView::Bind])
    }
}

/// A dialing session.
pub struct ClientLoop {
    phase: ClientPhase,
    attempts: u32,
    own_id: Option<NodeId>,
    peer: PublicKey,
}

impl View for ClientLoop {
    type V = ClientView;

    closed spec fn view(&self) -> ClientView {
        ClientView {
            phase: self.phase,
            attempts: self.attempts,
            own_id: node_view(self.own_id),
        }
    }
}

impl ClientLoop {
    #[verifier::type_invariant]
    spec fn well_formed(self) -> bool {
        self.phase == ClientPhase::Stopped || self.attempts < MAX_CONNECT_ATTEMPTS
    }

    /// The key of the peer that the session dials.
    pub closed spec fn target(self) -> Seq<u8> {
        self.peer@
    }

    /// Begins a session with the trusted peer `peer`. A peer whose card has lapsed is
    /// refused before anything is bound or looked up.
    pub fn start(identity: &KeyIdentity, peer: PublicKey, now: u64) -> (r: (ClientLoop, Vec<Action>))
        ensures
            r.0.target() == peer@,
            r.0@.attempts == 0,
            r.0@.own_id is None,
            ({
                let card = trusted_card(card_views(identity.peers@), peer@);
                if card is Some && !card_valid_at(card->0, now) {
                    &&& r.0@.phase == ClientPhase::Stopped
                    &&& action_views(r.1@) == seq![
                        says(ConnStatus::Starting),
                        complains(expired_card_text(card->0.name)),
                        says(ConnStatus::Idle),
                    ]
                } else {
                    &&& r.0@.phase == ClientPhase::Starting
                    &&& action_views(r.1@) == seq![says(ConnStatus::Starting), ActionView::Bind]
                }
            }),
            (r.0@.phase, action_views(r.1@)) == client_begins(
                trusted_card(card_views(identity.peers@), peer@),
                now,
            ),
    {
        let mut out = Actions::new();
        out.status(ConnStatus::Starting);
        if let Some(card) = identity.peer(peer) {
            if !card.is_valid_at(now) {
                out.error(expired_card_message(card));
                out.status(ConnStatus::Idle);
                return (
                    ClientLoop { phase: ClientPhase::Stopped, attempts: 0, own_id: None, peer },
                    out.into_list(),
                );
            }
        }
        out.then_do(Action::Bind);
        (
            ClientLoop { phase: ClientPhase::Starting, attempts: 0, own_id: None, peer },
            out.into_list(),
        )
    }

    fn to(&mut self, phase: ClientPhase)
        requires
            phase == ClientPhase::Stopped || old(self)@.attempts < MAX_CONNECT_ATTEMPTS,
        ensures
            final(self)@ == (ClientView { phase, ..old(self)@ }),
            final(self).target() == old(self).target(),
    {
        self.phase = phase;
    }

    fn fail(&mut self, out: &mut Actions)
        requires
            old(self)@.phase != ClientPhase::Stopped,
        ensures
            final(self)@ == after_failure(old(self)@).0,
            final(out)@ == old(out)@ + after_failure(old(self)@).1,
            final(self).target() == old(self).target(),
    {
        proof {
            use_type_invariant(&*self);
        }
        let attempts: u32 = self.attempts + 1;
        if attempts >= MAX_CONNECT_ATTEMPTS {
            *self = ClientLoop {
                phase: ClientPhase::Stopped,
                attempts,
                own_id: self.own_id,
                peer: self.peer,
            };
            out.error(
                "Could not reach the peer after 10 attempts — press Join to try again".to_owned(),
            );
            out.status(ConnStatus::Idle);
            out.then_do(Action::CloseEndpoint);
        } else {
            *self = ClientLoop {
                phase: ClientPhase::Pausing,
                attempts,
                own_id: self.own_id,
                peer: self.peer,
            };
            out.status(
                ConnStatus::Reconnecting { attempt: attempts, max: MAX_CONNECT_ATTEMPTS },
            );
            out.then_do(Action::WaitToRetry);
        }
        assert(out@ =~= old(out)@ + after_failure(old(self)@).1);
    }

    /// Takes what happened, and returns what is to be done.
    pub fn step(&mut self, input: ClientInput) -> (r: Vec<Action>)
        ensures
            (final(self)@, action_views(r@)) == client_step(
                old(self)@,
                old(self).target(),
                input,
            ),
            final(self).target() == old(self).target(),
    {
        proof {
            use_type_invariant(&*self);
        }
        let mut out = Actions::new();
        match self.phase {
            ClientPhase::Starting => match input {
                ClientInput::EndpointFailed(error) => {
                    out.error(start_failure(error.as_str()));
                    out.status(ConnStatus::Idle);
                    self.to(ClientPhase::Stopped);
                },
                ClientInput::EndpointReady { node_id, npub } => {
                    out.then_do(
                        Action::Emit(
                            NetEvent::ClientReady {
                                node_id: node_id.to_text(),
                                identity_public_key: Some(npub),
                            },
                        ),
                    );
                    out.status(ConnStatus::Resolving);
                    out.then_do(Action::Resolve);
                    self.own_id = Some(node_id);
                    self.to(ClientPhase::Resolving);
                },
                _ => {},
            },
            ClientPhase::Resolving => match input {
                ClientInput::Resolved(target) => {
                    let own = match self.own_id {
                        Some(own) => own.same(&target),
                        None => false,
                    };
                    if own {
                        out.error(
                            "That is this device's own node id — enter the other device's id".to_owned(),
                        );
                        out.status(ConnStatus::Idle);
                        out.then_do(Action::CloseEndpoint);
                        self.to(ClientPhase::Stopped);
                    } else {
                        out.status(ConnStatus::Connecting);
                        out.then_do(Action::Connect);
                        self.to(ClientPhase::Connecting);
                    }
                },
                ClientInput::ResolveFailed => self.fail(&mut out),
                ClientInput::Cancelled => self.to(ClientPhase::Stopped),
                _ => {},
            },
            ClientPhase::Connecting => match input {
                ClientInput::Connected => {
                    out.status(ConnStatus::Authenticating);
                    out.then_do(Action::Authenticate);
                    self.to(ClientPhase::Authenticating);
                },
                ClientInput::ConnectFailed => self.fail(&mut out),
                ClientInput::Cancelled => {
                    out.then_do(Action::CloseEndpoint);
                    self.to(ClientPhase::Stopped);
                },
                _ => {},
            },
            ClientPhase::Authenticating => match input {
                ClientInput::AuthDone { remote } => {
                    out.then_do(
                        Action::Emit(
                            NetEvent::PeerPaired {
                                peer_node_id: remote.to_text(),
                                peer_public_key: Some(self.peer.to_hex()),
                            },
                        ),
                    );
                    out.status(ConnStatus::Connected);
                    out.then_do(Action::HoldConnection);
                    out.then_do(Action::Pump);
                    self.attempts = 0;
                    self.to(ClientPhase::Pumping);
                },
                ClientInput::AuthFatal(message) => {
                    out.error(message);
                    out.status(ConnStatus::Idle);
                    out.then_do(Action::CloseEndpoint);
                    self.to(ClientPhase::Stopped);
                },
                ClientInput::AuthBroken => self.fail(&mut out),
                _ => {},
            },
            ClientPhase::Pumping => match input {
                ClientInput::PumpEnded { cancelled } => {
                    out.then_do(Action::ReleaseConnection);
                    if cancelled {
                        out.close(SHUTDOWN_CODE, "shutdown");
                        out.then_do(Action::CloseEndpoint);
                        self.to(ClientPhase::Stopped);
                    } else {
                        out.then_do(Action::Emit(NetEvent::PeerDisconnected));
                        self.fail(&mut out);
                    }
                },
                _ => {},
            },
            ClientPhase::Pausing => match input {
                ClientInput::Paused => {
                    out.status(ConnStatus::Resolving);
                    out.then_do(Action::Resolve);
                    self.to(ClientPhase::Resolving);
                },
                ClientInput::Cancelled => {
                    out.then_do(Action::CloseEndpoint);
                    self.to(ClientPhase::Stopped);
                },
                _ => {},
            },
            ClientPhase::Stopped => {},
        }
        assert(out@ =~= client_step(old(self)@, old(self).target(), input).1);
        out.into_list()
    }
}

// ---------------------------------------------------------------------------
// What a dialing session promises
// ---------------------------------------------------------------------------

/// Whatever fails short of the bound is tried again: a failed search, a failed dial, a
/// connection that breaks in the handshake and one that is lost later each count once, are
/// reported as the attempt that comes next, and lead after a pause to the next search.
pub proof fn failures_are_tried_again(c: ClientView, peer: Seq<u8>, input: ClientInput)
    requires
        c.attempts < 9,
        (c.phase == ClientPhase::Resolving && input is ResolveFailed) || (c.phase
            == ClientPhase::Connecting && input is ConnectFailed) || (c.phase
            == ClientPhase::Authenticating && input is AuthBroken) || (c.phase
            == ClientPhase::Pumping && input == (ClientInput::PumpEnded { cancelled: false })),
    ensures
        ({
            let (failed, actions) = client_step(c, peer, input);
            let tail = seq![
                ActionView::Emit(
                    NetEventView::Status(
                        ConnStatus::Reconnecting { attempt: failed.attempts, max: 10 },
                    ),
                ),
                ActionView::WaitToRetry,
            ];
            &&& failed.attempts == c.attempts + 1
            &&& failed.own_id == c.own_id
            &&& actions == if c.phase == ClientPhase::Pumping {
                seq![
                    ActionView::ReleaseConnection,
                    ActionView::Emit(NetEventView::PeerDisconnected),
                ] + tail
            } else {
                tail
            }
            &&& client_step(failed, peer, ClientInput::Paused) == (
                ClientView { phase: ClientPhase::Resolving, ..failed },
                seq![ActionView::Emit(NetEventView::Status(ConnStatus::Resolving)), ActionView::Resolve],
            )
        }),
{
}

/// The tenth failure in a row, of whichever kind, ends the session: it says so, is idle and
/// closes its endpoint.
pub proof fn the_tenth_failure_is_the_last(c: ClientView, peer: Seq<u8>, input: ClientInput)
    requires
        c.attempts == 9,
        (c.phase == ClientPhase::Resolving && input is ResolveFailed) || (c.phase
            == ClientPhase::Connecting && input is ConnectFailed) || (c.phase
            == ClientPhase::Authenticating && input is AuthBroken) || (c.phase
            == ClientPhase::Pumping && input == (ClientInput::PumpEnded { cancelled: false })),
    ensures
        client_step(c, peer, input).0.phase == ClientPhase::Stopped,
        client_step(c, peer, input).1.skip(client_step(c, peer, input).1.len() - 3) == seq![
            ActionView::Emit(
                NetEventView::Error(
                    "Could not reach the peer after 10 attempts — press Join to try again"@,
                ),
            ),
            ActionView::Emit(NetEventView::Status(ConnStatus::Idle)),
            ActionView::CloseEndpoint,
        ],
{
    let actions = client_step(c, peer, input).1;
    assert(actions.skip(actions.len() - 3) =~= seq![
        ActionView::Emit(
            NetEventView::Error(
                "Could not reach the peer after 10 attempts — press Join to try again"@,
            ),
        ),
        ActionView::Emit(NetEventView::Status(ConnStatus::Idle)),
        ActionView::CloseEndpoint,
    ]);
}

/// A dialing session that meets no failure goes through: it shows itself, looks for the
/// peer, dials what it found, proves its key, reports the peer under the key that it dialed,
/// and runs the clipboard, with no failure counted.
pub proof fn an_undisturbed_dialer_connects(
    c: ClientView,
    peer: Seq<u8>,
    own: NodeId,
    npub: String,
    target: NodeId,
    remote: NodeId,
)
    requires
        c.phase == ClientPhase::Starting,
        target@ != own@,
    ensures
        ({
            let up = client_step(c, peer, ClientInput::EndpointReady { node_id: own, npub });
            let found = client_step(up.0, peer, ClientInput::Resolved(target));
            let dialed = client_step(found.0, peer, ClientInput::Connected);
            let done = client_step(dialed.0, peer, ClientInput::AuthDone { remote });
            &&& up.1 == seq![
                ActionView::Emit(
                    NetEventView::ClientReady {
                        node_id: hex_text(own@),
                        identity_public_key: Some(npub@),
                    },
                ),
                ActionView::Emit(NetEventView::Status(ConnStatus::Resolving)),
                ActionView::Resolve,
            ]
            &&& found.1 == seq![ActionView::Emit(NetEventView::Status(ConnStatus::Connecting)), ActionView::Connect]
            &&& dialed.1 == seq![ActionView::Emit(NetEventView::Status(ConnStatus::Authenticating)), ActionView::Authenticate]
            &&& done.1 == seq![
                ActionView::Emit(
                    NetEventView::PeerPaired {
                        peer_node_id: hex_text(remote@),
                        peer_public_key: Some(hex_text(peer)),
                    },
                ),
                ActionView::Emit(NetEventView::Status(ConnStatus::Connected)),
                ActionView::HoldConnection,
                ActionView::Pump,
            ]
            &&& done.0 == ClientView {
                phase: ClientPhase::Pumping,
                attempts: 0,
                own_id: Some(own@),
            }
        }),
{
}

/// A device never dials itself: a target that is this device ends the session with an
/// explanation, and every other target is dialed.
pub proof fn a_dialer_never_dials_itself(c: ClientView, peer: Seq<u8>, target: NodeId)
    requires
        c.phase == ClientPhase::Resolving,
    ensures
        ({
            let (next, actions) = client_step(c, peer, ClientInput::Resolved(target));
            &&& c.own_id == Some(target@) ==> next.phase == ClientPhase::Stopped && actions == seq![
                ActionView::Emit(
                    NetEventView::Error(
                        "That is this device's own node id — enter the other device's id"@,
                    ),
                ),
                ActionView::Emit(NetEventView::Status(ConnStatus::Idle)),
                ActionView::CloseEndpoint,
            ]
            &&& c.own_id != Some(target@) ==> next == ClientView {
                phase: ClientPhase::Connecting,
                ..c
            } && actions == seq![ActionView::Emit(NetEventView::Status(ConnStatus::Connecting)), ActionView::Connect]
        }),
{
}

/// A refusal is final: a handshake that fails for good ends the session at once, which
/// reports that very message and counts no attempt.
pub proof fn a_refusal_is_final(c: ClientView, peer: Seq<u8>, message: String)
    requires
        c.phase == ClientPhase::Authenticating,
    ensures
        client_step(c, peer, ClientInput::AuthFatal(message)) == (
            ClientView { phase: ClientPhase::Stopped, ..c },
            seq![
                ActionView::Emit(NetEventView::Error(message@)),
                ActionView::Emit(NetEventView::Status(ConnStatus::Idle)),
                ActionView::CloseEndpoint,
            ],
        ),
{
}

/// A session that is cancelled stops wherever it waits, closing what is open, and complains
/// of nothing; one that cannot come up says why. What does not belong to a phase changes
/// nothing, and a session that is over does nothing more.
pub proof fn a_dialer_ends_when_cancelled(
    c: ClientView,
    peer: Seq<u8>,
    input: ClientInput,
    error: String,
)
    ensures
        c.phase == ClientPhase::Resolving || c.phase == ClientPhase::Connecting || c.phase
            == ClientPhase::Pausing ==> (client_step(c, peer, ClientInput::Cancelled).0
            == ClientView { phase: ClientPhase::Stopped, ..c } && client_step(
            c,
            peer,
            ClientInput::Cancelled,
        ).1 == if c.phase == ClientPhase::Resolving {
            Seq::<ActionView>::empty()
        } else {
            seq![ActionView::CloseEndpoint]
        }),
        c.phase == ClientPhase::Pumping ==> client_step(
            c,
            peer,
            ClientInput::PumpEnded { cancelled: true },
        ) == (
            ClientView { phase: ClientPhase::Stopped, ..c },
            seq![
                ActionView::ReleaseConnection,
                ActionView::Close { code: SHUTDOWN_CODE, reason: "shutdown"@ },
                ActionView::CloseEndpoint,
            ],
        ),
        c.phase == ClientPhase::Starting ==> client_step(
            c,
            peer,
            ClientInput::EndpointFailed(error),
        ) == (
            ClientView { phase: ClientPhase::Stopped, ..c },
            seq![
                ActionView::Emit(NetEventView::Error("Failed to start: "@ + error@)),
                ActionView::Emit(NetEventView::Status(ConnStatus::Idle)),
            ],
        ),
        client_step(c, peer, input).0.phase == c.phase ==> client_step(c, peer, input) == (
            c,
            Seq::<ActionView>::empty(),
        ),
        client_step(c, peer, input).0.phase != c.phase <==> match c.phase {
            ClientPhase::Starting => input is EndpointFailed || input is EndpointReady,
            ClientPhase::Resolving => input is Resolved || input is ResolveFailed || input
                is Cancelled,
            ClientPhase::Connecting => input is Connected || input is ConnectFailed || input
                is Cancelled,
            ClientPhase::Authenticating => input is AuthDone || input is AuthFatal || input
                is AuthBroken,
            ClientPhase::Pumping => input is PumpEnded,
            ClientPhase::Pausing => input is Paused || input is Cancelled,
            ClientPhase::Stopped => false,
        },
{
}

/// A session is begun with every peer whose card is valid, and with a peer whose card has
/// lapsed it is over before anything is bound, with the name of that card in the report.
pub proof fn only_lapsed_cards_stop_a_session(card: CardView, now: u64)
    ensures
        card.created_at <= now < card.expires_at ==> client_begins(Some(card), now) == (
            ClientPhase::Starting,
            seq![
                ActionView::Emit(NetEventView::Status(ConnStatus::Starting)),
                ActionView::Bind,
            ],
        ),
        now >= card.expires_at ==> client_begins(Some(card), now) == (
            ClientPhase::Stopped,
            seq![
                ActionView::Emit(NetEventView::Status(ConnStatus::Starting)),
                ActionView::Emit(
                    NetEventView::Error(
                        "The identity card for "@ + card.name
                            + " expired — ask that device for a fresh card and import it again"@,
                    ),
                ),
                ActionView::Emit(NetEventView::Status(ConnStatus::Idle)),
            ],
        ),
{
}

} // verus!
