//! The serving session: accept, authenticate, pump, and wait for the paired peer to
//! come back.

use vstd::prelude::*;
use vstd::string::*;

use crate::auth::{key_view, PublicKey};
use crate::net::actions::{
    action_views, complains, failed_to_start, says, start_failure, Action, ActionView, Actions,
};
use crate::net::handshake::SHUTDOWN_CODE;
use crate::net::{ConnStatus, NetEvent, NetEventView};
use crate::node::NodeId;
use crate::text::hex_text;

verus! {

/// Where a serving session stands.
pub enum ServerPhase {
    /// The endpoint is coming up.
    Starting,
    /// Waiting for a dialer.
    Waiting,
    /// A dialer is authenticating.
    Authenticating(NodeId),
    /// A peer is served.
    Serving(NodeId),
    Stopped,
}

/// What a [`ServerPhase`] says.
pub enum ServerPhaseView {
    Starting,
    Waiting,
    Authenticating(Seq<u8>),
    Serving(Seq<u8>),
    Stopped,
}

impl View for ServerPhase {
    type V = ServerPhaseView;

    open spec fn view(&self) -> ServerPhaseView {
        match *self {
            ServerPhase::Starting => ServerPhaseView::Starting,
            ServerPhase::Waiting => ServerPhaseView::Waiting,
            ServerPhase::Authenticating(id) => ServerPhaseView::Authenticating(id@),
            ServerPhase::Serving(id) => ServerPhaseView::Serving(id@),
            ServerPhase::Stopped => ServerPhaseView::Stopped,
        }
    }
}

/// What happened to a serving session.
pub enum ServerInput {
    EndpointFailed(String),
    /// The endpoint is up; `npub` is this device's public key.
    EndpointReady { node_id: NodeId, npub: String },
    /// The session was cancelled, or the endpoint closed, while waiting.
    AcceptEnded,
    Accepted(NodeId),
    AuthFailed,
    AuthDone { peer_public_key: Option<PublicKey> },
    /// The pump ended; `cancelled` says whether the session was cancelled.
    PumpEnded { cancelled: bool },
    /// The paired peer dialed again while it was served.
    Preempted { next: NodeId, cancelled: bool },
}

/// The hexadecimal text of an optional key.
pub open spec fn key_text(key: Option<Seq<u8>>) -> Option<Seq<char>> {
    match key {
        Some(k) => Some(hex_text(k)),
        None => None,
    }
}

/// The end of a session that was cancelled while it served a peer.
pub open spec fn shut_down() -> Seq<ActionView> {
    seq![
        ActionView::ReleaseConnection,
        ActionView::Close { code: SHUTDOWN_CODE, reason: "shutdown"@ },
        ActionView::CloseEndpoint,
    ]
}

/// The next phase and what is done, for what happened in a phase. What cannot happen
/// in a phase changes nothing.
pub open spec fn server_step(phase: ServerPhaseView, input: ServerInput) -> (
    ServerPhaseView,
    Seq<ActionView>,
) {
    match (phase, input) {
        (ServerPhaseView::Starting, ServerInput::EndpointFailed(error)) => (
            ServerPhaseView::Stopped,
            seq![complains(failed_to_start(error@)), says(ConnStatus::Idle)],
        ),
        (ServerPhaseView::Starting, ServerInput::EndpointReady { node_id, npub }) => (
            ServerPhaseView::Waiting,
            seq![
                ActionView::Emit(
                    NetEventView::ServerReady {
                        node_id: hex_text(node_id@),
                        identity_public_key: Some(npub@),
                    },
                ),
                says(ConnStatus::Listening),
                ActionView::StartPublisher,
                ActionView::Accept { allow_new_transport: true },
            ],
        ),
        (ServerPhaseView::Waiting, ServerInput::AcceptEnded) => (
            ServerPhaseView::Stopped,
            seq![ActionView::CloseEndpoint],
        ),
        (ServerPhaseView::Waiting, ServerInput::Accepted(remote)) => (
            ServerPhaseView::Authenticating(remote@),
            seq![says(ConnStatus::Authenticating), ActionView::Authenticate],
        ),
        (ServerPhaseView::Authenticating(_), ServerInput::AuthFailed) => (
            ServerPhaseView::Waiting,
            seq![
                says(ConnStatus::Listening),
                ActionView::Accept { allow_new_transport: true },
            ],
        ),
        (ServerPhaseView::Authenticating(remote), ServerInput::AuthDone { peer_public_key }) => (
            ServerPhaseView::Serving(remote),
            seq![
                ActionView::Emit(
                    NetEventView::PeerPaired {
                        peer_node_id: hex_text(remote),
                        peer_public_key: key_text(key_view(peer_public_key)),
                    },
                ),
                ActionView::HoldConnection,
                says(ConnStatus::Connected),
                ActionView::Pump,
                ActionView::Accept { allow_new_transport: false },
            ],
        ),
        (ServerPhaseView::Serving(_), ServerInput::PumpEnded { cancelled }) => if cancelled {
            (ServerPhaseView::Stopped, shut_down())
        } else {
            (
                ServerPhaseView::Waiting,
                seq![
                    ActionView::ReleaseConnection,
                    ActionView::Emit(NetEventView::PeerDisconnected),
                    says(ConnStatus::Listening),
                    ActionView::Accept { allow_new_transport: true },
                ],
            )
        },
        (ServerPhaseView::Serving(_), ServerInput::Preempted { next, cancelled }) => if cancelled {
            (ServerPhaseView::Stopped, shut_down())
        } else {
            (
                ServerPhaseView::Authenticating(next@),
                seq![
                    ActionView::ReleaseConnection,
                    ActionView::Close { code: SHUTDOWN_CODE, reason: "superseded"@ },
                    says(ConnStatus::Authenticating),
                    ActionView::Authenticate,
                ],
            )
        },
        _ => (phase, Seq::empty()),
    }
}

/// A peer is reported as paired, and a session as connected, only when its handshake
/// is done.
pub proof fn pairing_needs_a_finished_handshake(phase: ServerPhaseView, input: ServerInput, i: int)
    requires
        0 <= i < server_step(phase, input).1.len(),
        server_step(phase, input).1[i] == says(ConnStatus::Connected) || (server_step(
            phase,
            input,
        ).1[i] matches ActionView::Emit(NetEventView::PeerPaired { .. })),
    ensures
        phase is Authenticating && input is AuthDone,
{
}

/// A stopped session does nothing more.
pub proof fn a_stopped_server_stays_stopped(input: ServerInput)
    ensures
        server_step(ServerPhaseView::Stopped, input) == (
            ServerPhaseView::Stopped,
            Seq::<ActionView>::empty(),
        ),
{
}

/// Only while nobody is served may the holder of the claimed key arrive on a new
/// transport id.
pub proof fn no_new_transport_while_serving(phase: ServerPhaseView, input: ServerInput, i: int)
    requires
        0 <= i < server_step(phase, input).1.len(),
        server_step(phase, input).1[i] == (ActionView::Accept { allow_new_transport: true }),
    ensures
        server_step(phase, input).0 == ServerPhaseView::Waiting,
{
}

/// A serving session.
pub struct ServerLoop {
    phase: ServerPhase,
}

impl View for ServerLoop {
    type V = ServerPhaseView;

    closed spec fn view(&self) -> ServerPhaseView {
        self.phase@
    }
}

/// The text of an optional key.
pub fn optional_key_text(key: Option<PublicKey>) -> (r: Option<String>)
    ensures
        crate::json::text_view(r) == key_text(key_view(key)),
{
    match key {
        Some(key) => Some(key.to_hex()),
        None => None,
    }
}

impl ServerLoop {
    /// Begins a session.
    pub fn start() -> (r: (ServerLoop, Vec<Action>))
        ensures
            r.0@ == ServerPhaseView::Starting,
            action_views(r.1@) == seq![says(ConnStatus::Starting), ActionView::Bind],
    {
        let mut out = Actions::new();
        out.status(ConnStatus::Starting);
        out.then_do(Action::Bind);
        (ServerLoop { phase: ServerPhase::Starting }, out.into_list())
    }

    /// Takes what happened, and returns what is to be done.
    pub fn step(&mut self, input: ServerInput) -> (r: Vec<Action>)
        ensures
            (final(self)@, action_views(r@)) == server_step(old(self)@, input),
    {
        let mut out = Actions::new();
        match self.phase {
            ServerPhase::Starting => match input {
                ServerInput::EndpointFailed(error) => {
                    out.error(start_failure(error.as_str()));
                    out.status(ConnStatus::Idle);
                    self.phase = ServerPhase::Stopped;
                },
                ServerInput::EndpointReady { node_id, npub } => {
                    out.then_do(
                        Action::Emit(
                            NetEvent::ServerReady {
                                node_id: node_id.to_text(),
                                identity_public_key: Some(npub),
                            },
                        ),
                    );
                    out.status(ConnStatus::Listening);
                    out.then_do(Action::StartPublisher);
                    out.then_do(Action::Accept { allow_new_transport: true });
                    self.phase = ServerPhase::Waiting;
                },
                _ => {},
            },
            ServerPhase::Waiting => match input {
                ServerInput::AcceptEnded => {
                    out.then_do(Action::CloseEndpoint);
                    self.phase = ServerPhase::Stopped;
                },
                ServerInput::Accepted(remote) => {
                    out.status(ConnStatus::Authenticating);
                    out.then_do(Action::Authenticate);
                    self.phase = ServerPhase::Authenticating(remote);
                },
                _ => {},
            },
            ServerPhase::Authenticating(remote) => match input {
                ServerInput::AuthFailed => {
                    out.status(ConnStatus::Listening);
                    out.then_do(Action::Accept { allow_new_transport: true });
                    self.phase = ServerPhase::Waiting;
                },
                ServerInput::AuthDone { peer_public_key } => {
                    out.then_do(
                        Action::Emit(
                            NetEvent::PeerPaired {
                                peer_node_id: remote.to_text(),
                                peer_public_key: optional_key_text(peer_public_key),
                            },
                        ),
                    );
                    out.then_do(Action::HoldConnection);
                    out.status(ConnStatus::Connected);
                    out.then_do(Action::Pump);
                    out.then_do(Action::Accept { allow_new_transport: false });
                    self.phase = ServerPhase::Serving(remote);
                },
                _ => {},
            },
            ServerPhase::Serving(_) => match input {
                ServerInput::PumpEnded { cancelled } => {
                    out.then_do(Action::ReleaseConnection);
                    if cancelled {
                        out.close(SHUTDOWN_CODE, "shutdown");
                        out.then_do(Action::CloseEndpoint);
                        self.phase = ServerPhase::Stopped;
                    } else {
                        out.then_do(Action::Emit(NetEvent::PeerDisconnected));
                        out.status(ConnStatus::Listening);
                        out.then_do(Action::Accept { allow_new_transport: true });
                        self.phase = ServerPhase::Waiting;
                    }
                },
                ServerInput::Preempted { next, cancelled } => {
                    out.then_do(Action::ReleaseConnection);
                    if cancelled {
                        out.close(SHUTDOWN_CODE, "shutdown");
                        out.then_do(Action::CloseEndpoint);
                        self.phase = ServerPhase::Stopped;
                    } else {
                        out.close(SHUTDOWN_CODE, "superseded");
                        out.status(ConnStatus::Authenticating);
                        out.then_do(Action::Authenticate);
                        self.phase = ServerPhase::Authenticating(next);
                    }
                },
                _ => {},
            },
            ServerPhase::Stopped => {},
        }
        assert(out@ =~= server_step(old(self)@, input).1);
        out.into_list()
    }
}

// ---------------------------------------------------------------------------
// What a serving session promises
// ---------------------------------------------------------------------------

/// A dialer that fails its handshake leaves the session as it found it: the session listens
/// on, for anyone, on any transport id, and takes the next dialer.
pub proof fn a_failed_dialer_changes_nothing(remote: Seq<u8>, next: NodeId)
    ensures
        server_step(ServerPhaseView::Authenticating(remote), ServerInput::AuthFailed) == (
            ServerPhaseView::Waiting,
            seq![ActionView::Emit(NetEventView::Status(ConnStatus::Listening)), ActionView::Accept { allow_new_transport: true }],
        ),
        server_step(ServerPhaseView::Waiting, ServerInput::Accepted(next)) == (
            ServerPhaseView::Authenticating(next@),
            seq![ActionView::Emit(NetEventView::Status(ConnStatus::Authenticating)), ActionView::Authenticate],
        ),
{
}

/// An authenticated peer is reported under the key that it proved, is connected, and has the
/// clipboard run; meanwhile only a dialer at its own transport id is accepted.
pub proof fn an_authenticated_peer_is_served(remote: Seq<u8>, peer: PublicKey)
    ensures
        server_step(
            ServerPhaseView::Authenticating(remote),
            ServerInput::AuthDone { peer_public_key: Some(peer) },
        ) == (
            ServerPhaseView::Serving(remote),
            seq![
                ActionView::Emit(
                    NetEventView::PeerPaired {
                        peer_node_id: hex_text(remote),
                        peer_public_key: Some(hex_text(peer@)),
                    },
                ),
                ActionView::HoldConnection,
                ActionView::Emit(NetEventView::Status(ConnStatus::Connected)),
                ActionView::Pump,
                ActionView::Accept { allow_new_transport: false },
            ],
        ),
{
}

/// A peer that is lost is reported once, and the session listens for it to come back, on
/// any transport id; a session that is cancelled closes the connection and its endpoint
/// instead, and reports no loss.
pub proof fn a_lost_peer_may_come_back(remote: Seq<u8>, next: NodeId)
    ensures
        server_step(
            ServerPhaseView::Serving(remote),
            ServerInput::PumpEnded { cancelled: false },
        ) == (
            ServerPhaseView::Waiting,
            seq![
                ActionView::ReleaseConnection,
                ActionView::Emit(NetEventView::PeerDisconnected),
                ActionView::Emit(NetEventView::Status(ConnStatus::Listening)),
                ActionView::Accept { allow_new_transport: true },
            ],
        ),
        server_step(
            ServerPhaseView::Serving(remote),
            ServerInput::PumpEnded { cancelled: true },
        ) == (
            ServerPhaseView::Stopped,
            seq![
                ActionView::ReleaseConnection,
                ActionView::Close { code: SHUTDOWN_CODE, reason: "shutdown"@ },
                ActionView::CloseEndpoint,
            ],
        ),
        server_step(
            ServerPhaseView::Serving(remote),
            ServerInput::Preempted { next, cancelled: true },
        ) == server_step(
            ServerPhaseView::Serving(remote),
            ServerInput::PumpEnded { cancelled: true },
        ),
{
}

/// A peer that dials again while it is served replaces its own connection: the old one is
/// closed as superseded, and the new one authenticates before anything else happens.
pub proof fn a_returning_peer_supersedes_itself(remote: Seq<u8>, next: NodeId)
    ensures
        server_step(
            ServerPhaseView::Serving(remote),
            ServerInput::Preempted { next, cancelled: false },
        ) == (
            ServerPhaseView::Authenticating(next@),
            seq![
                ActionView::ReleaseConnection,
                ActionView::Close { code: SHUTDOWN_CODE, reason: "superseded"@ },
                ActionView::Emit(NetEventView::Status(ConnStatus::Authenticating)),
                ActionView::Authenticate,
            ],
        ),
{
}

/// A session that comes up shows itself under this device's key, listens, publishes its
/// whereabouts and accepts; one that cannot come up says why. A waiting session that is told
/// to end closes its endpoint. What does not belong to a phase changes nothing.
pub proof fn a_server_comes_up_and_ends(
    phase: ServerPhaseView,
    input: ServerInput,
    node_id: NodeId,
    npub: String,
    error: String,
)
    ensures
        server_step(ServerPhaseView::Starting, ServerInput::EndpointReady { node_id, npub }) == (
            ServerPhaseView::Waiting,
            seq![
                ActionView::Emit(
                    NetEventView::ServerReady {
                        node_id: hex_text(node_id@),
                        identity_public_key: Some(npub@),
                    },
                ),
                ActionView::Emit(NetEventView::Status(ConnStatus::Listening)),
                ActionView::StartPublisher,
                ActionView::Accept { allow_new_transport: true },
            ],
        ),
        server_step(ServerPhaseView::Starting, ServerInput::EndpointFailed(error)) == (
            ServerPhaseView::Stopped,
            seq![
                ActionView::Emit(NetEventView::Error("Failed to start: "@ + error@)),
                ActionView::Emit(NetEventView::Status(ConnStatus::Idle)),
            ],
        ),
        server_step(ServerPhaseView::Waiting, ServerInput::AcceptEnded) == (
            ServerPhaseView::Stopped,
            seq![ActionView::CloseEndpoint],
        ),
        server_step(phase, input).0 == phase ==> server_step(phase, input).1.len() == 0,
        server_step(phase, input).0 != phase <==> match phase {
            ServerPhaseView::Starting => input is EndpointFailed || input is EndpointReady,
            ServerPhaseView::Waiting => input is AcceptEnded || input is Accepted,
            ServerPhaseView::Authenticating(_) => input is AuthFailed || input is AuthDone,
            ServerPhaseView::Serving(_) => input is PumpEnded || input is Preempted,
            ServerPhaseView::Stopped => false,
        },
{
}

} // verus!
