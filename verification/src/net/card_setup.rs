//! The card-setup sessions: one PIN, one joiner, one swap of identity cards, and the
//! end. Neither role is ever given clipboard content.

use vstd::prelude::*;
use vstd::string::*;

use crate::auth::IdentityCard;
use crate::net::actions::{
    action_views, complains, failed_to_start, says, start_failure, Action, ActionView, Actions,
};
use crate::net::handshake::{AUTH_FAILED_CODE, SHUTDOWN_CODE};
use crate::net::{ConnStatus, NetEvent, NetEventView};
use crate::node::{node_view, NodeId};
use crate::text::hex_text;

verus! {

/// Seconds that the swap of cards may take.
pub const CARD_EXCHANGE_TIMEOUT_SECS: u64 = 10;

/// Seconds for which a finished host still turns dialers away properly.
pub const LATECOMER_GRACE_SECS: u64 = 3;

/// What is reported of a peer that goes silent during the swap.
pub const EXCHANGE_TIMEOUT_MESSAGE: &'static str =
    "The other device stopped responding before its identity card arrived";

// ---------------------------------------------------------------------------
// The host
// ---------------------------------------------------------------------------

/// Where a hosting session stands.
pub enum HostPhase {
    Starting,
    /// Waiting for a joiner.
    Waiting,
    /// A joiner is proving the PIN.
    Proving(NodeId),
    /// The cards are crossing.
    Exchanging(NodeId),
    Stopped,
}

/// What a [`HostPhase`] says.
pub enum HostPhaseView {
    Starting,
    Waiting,
    Proving(Seq<u8>),
    Exchanging(Seq<u8>),
    Stopped,
}

impl View for HostPhase {
    type V = HostPhaseView;

    open spec fn view(&self) -> HostPhaseView {
        match *self {
            HostPhase::Starting => HostPhaseView::Starting,
            HostPhase::Waiting => HostPhaseView::Waiting,
            HostPhase::Proving(id) => HostPhaseView::Proving(id@),
            HostPhase::Exchanging(id) => HostPhaseView::Exchanging(id@),
            HostPhase::Stopped => HostPhaseView::Stopped,
        }
    }
}

/// What happened to a hosting session.
pub enum HostInput {
    EndpointFailed(String),
    EndpointReady { node_id: NodeId },
    /// The session was cancelled, or the endpoint closed, while waiting.
    AcceptEnded,
    Accepted(NodeId),
    /// The joiner proved the PIN.
    PinProven,
    /// The attempt failed; `claim_held` says whether this joiner holds the claim, so
    /// that the PIN is spent.
    Failed { error: String, claim_held: bool },
    /// The peer's card arrived.
    Exchanged(Box<IdentityCard>),
}

/// The end of every hosting session that came up.
pub open spec fn host_end() -> Seq<ActionView> {
    seq![ActionView::CloseEndpoint, says(ConnStatus::Idle)]
}

/// What follows a failed attempt: before the PIN is spent the host listens on, since
/// the usual cause is a typo; after that there is no code left that anyone could use.
pub open spec fn after_failed_attempt(error: Seq<char>, claim_held: bool) -> (
    HostPhaseView,
    Seq<ActionView>,
) {
    let close = seq![
        ActionView::Close { code: AUTH_FAILED_CODE, reason: "card-setup-failed"@ },
    ];
    if claim_held {
        (HostPhaseView::Stopped, close + seq![complains(error)] + host_end())
    } else {
        (
            HostPhaseView::Waiting,
            close + seq![
                says(ConnStatus::Listening),
                ActionView::Accept { allow_new_transport: false },
            ],
        )
    }
}

/// The next phase and what is done, for what happened in a phase. What cannot happen
/// in a phase changes nothing.
pub open spec fn host_step(phase: HostPhaseView, input: HostInput) -> (
    HostPhaseView,
    Seq<ActionView>,
) {
    match (phase, input) {
        (HostPhaseView::Starting, HostInput::EndpointFailed(error)) => (
            HostPhaseView::Stopped,
            seq![complains(failed_to_start(error@)), says(ConnStatus::Idle)],
        ),
        (HostPhaseView::Starting, HostInput::EndpointReady { node_id }) => (
            HostPhaseView::Waiting,
            seq![
                ActionView::Emit(
                    NetEventView::ServerReady {
                        node_id: hex_text(node_id@),
                        identity_public_key: None,
                    },
                ),
                says(ConnStatus::Listening),
                ActionView::StartPublisher,
                ActionView::Accept { allow_new_transport: false },
            ],
        ),
        (HostPhaseView::Waiting, HostInput::AcceptEnded) => (HostPhaseView::Stopped, host_end()),
        (HostPhaseView::Waiting, HostInput::Accepted(remote)) => (
            HostPhaseView::Proving(remote@),
            seq![says(ConnStatus::Authenticating), ActionView::Authenticate],
        ),
        (HostPhaseView::Proving(remote), HostInput::PinProven) => (
            HostPhaseView::Exchanging(remote),
            seq![
                ActionView::Emit(
                    NetEventView::PeerPaired {
                        peer_node_id: hex_text(remote),
                        peer_public_key: None,
                    },
                ),
                says(ConnStatus::Connected),
                ActionView::ExchangeCards,
            ],
        ),
        (HostPhaseView::Proving(_), HostInput::Failed { error, claim_held }) => {
            after_failed_attempt(error@, claim_held)
        },
        (HostPhaseView::Exchanging(_), HostInput::Failed { error, claim_held }) => {
            after_failed_attempt(error@, claim_held)
        },
        (HostPhaseView::Exchanging(_), HostInput::Exchanged(card)) => (
            HostPhaseView::Stopped,
            seq![
                ActionView::Emit(NetEventView::PeerCardReceived(card@)),
                ActionView::Close { code: SHUTDOWN_CODE, reason: "card-setup-complete"@ },
                ActionView::RefuseLatecomers,
            ] + host_end(),
        ),
        _ => (phase, Seq::empty()),
    }
}

/// A received card is reported before the session is reported as over, and the session
/// ends with it: a host takes one card.
pub proof fn a_host_takes_one_card(phase: HostPhaseView, card: Box<IdentityCard>)
    requires
        phase is Exchanging,
    ensures
        ({
            let (next, actions) = host_step(phase, HostInput::Exchanged(card));
            &&& next == HostPhaseView::Stopped
            &&& actions[0] == ActionView::Emit(NetEventView::PeerCardReceived(card@))
            &&& actions.last() == says(ConnStatus::Idle)
            &&& forall|i: int| 0 <= i < actions.len() - 1 ==> #[trigger] actions[i] != says(ConnStatus::Idle)
        }),
{
}

/// No session action of either card-setup role touches the clipboard pump.
pub proof fn hosting_never_pumps(phase: HostPhaseView, input: HostInput, i: int)
    requires
        0 <= i < host_step(phase, input).1.len(),
    ensures
        host_step(phase, input).1[i] != ActionView::Pump,
{
}

/// A hosting session.
pub struct HostLoop {
    phase: HostPhase,
}

impl View for HostLoop {
    type V = HostPhaseView;

    closed spec fn view(&self) -> HostPhaseView {
        self.phase@
    }
}

fn fail_attempt(out: &mut Actions, error: String, claim_held: bool) -> (r: HostPhase)
    ensures
        r@ == after_failed_attempt(error@, claim_held).0,
        final(out)@ == old(out)@ + after_failed_attempt(error@, claim_held).1,
{
    out.close(AUTH_FAILED_CODE, "card-setup-failed");
    if claim_held {
        out.error(error);
        out.then_do(Action::CloseEndpoint);
        out.status(ConnStatus::Idle);
        assert(out@ =~= old(out)@ + after_failed_attempt(error@, claim_held).1);
        HostPhase::Stopped
    } else {
        out.status(ConnStatus::Listening);
        out.then_do(Action::Accept { allow_new_transport: false });
        assert(out@ =~= old(out)@ + after_failed_attempt(error@, claim_held).1);
        HostPhase::Waiting
    }
}

impl HostLoop {
    /// Begins a session.
    pub fn start() -> (r: (HostLoop, Vec<Action>))
        ensures
            r.0@ == HostPhaseView::Starting,
            action_views(r.1@) == seq![says(ConnStatus::Starting), ActionView::Bind],
    {
        let mut out = Actions::new();
        out.status(ConnStatus::Starting);
        out.then_do(Action::Bind);
        (HostLoop { phase: HostPhase::Starting }, out.into_list())
    }

    /// Takes what happened, and returns what is to be done.
    pub fn step(&mut self, input: HostInput) -> (r: Vec<Action>)
        ensures
            (final(self)@, action_views(r@)) == host_step(old(self)@, input),
    {
        let mut out = Actions::new();
        match self.phase {
            HostPhase::Starting => match input {
                HostInput::EndpointFailed(error) => {
                    out.error(start_failure(error.as_str()));
                    out.status(ConnStatus::Idle);
                    self.phase = HostPhase::Stopped;
                },
                HostInput::EndpointReady { node_id } => {
                    out.then_do(
                        Action::Emit(
                            NetEvent::ServerReady {
                                node_id: node_id.to_text(),
                                identity_public_key: None,
                            },
                        ),
                    );
                    out.status(ConnStatus::Listening);
                    out.then_do(Action::StartPublisher);
                    out.then_do(Action::Accept { allow_new_transport: false });
                    self.phase = HostPhase::Waiting;
                },
                _ => {},
            },
            HostPhase::Waiting => match input {
                HostInput::AcceptEnded => {
                    out.then_do(Action::CloseEndpoint);
                    out.status(ConnStatus::Idle);
                    self.phase = HostPhase::Stopped;
                },
                HostInput::Accepted(remote) => {
                    out.status(ConnStatus::Authenticating);
                    out.then_do(Action::Authenticate);
                    self.phase = HostPhase::Proving(remote);
                },
                _ => {},
            },
            HostPhase::Proving(remote) => match input {
                HostInput::PinProven => {
                    out.then_do(
                        Action::Emit(
                            NetEvent::PeerPaired {
                                peer_node_id: remote.to_text(),
                                peer_public_key: None,
                            },
                        ),
                    );
                    out.status(ConnStatus::Connected);
                    out.then_do(Action::ExchangeCards);
                    self.phase = HostPhase::Exchanging(remote);
                },
                HostInput::Failed { error, claim_held } => {
                    self.phase = fail_attempt(&mut out, error, claim_held);
                },
                _ => {},
            },
            HostPhase::Exchanging(_) => match input {
                HostInput::Failed { error, claim_held } => {
                    self.phase = fail_attempt(&mut out, error, claim_held);
                },
                HostInput::Exchanged(card) => {
                    out.then_do(Action::Emit(NetEvent::PeerCardReceived(card)));
                    out.close(SHUTDOWN_CODE, "card-setup-complete");
                    out.then_do(Action::RefuseLatecomers);
                    out.then_do(Action::CloseEndpoint);
                    out.status(ConnStatus::Idle);
                    self.phase = HostPhase::Stopped;
                },
                _ => {},
            },
            HostPhase::Stopped => {},
        }
        assert(out@ =~= host_step(old(self)@, input).1);
        out.into_list()
    }
}

// ---------------------------------------------------------------------------
// The joiner
// ---------------------------------------------------------------------------

/// Where a joining session stands.
#[derive(Clone, Copy, Debug, PartialEq, Eq, Structural)]
pub enum JoinPhase {
    Starting,
    Resolving,
    Connecting,
    Proving,
    Exchanging,
    Stopped,
}

/// What happened to a joining session.
pub enum JoinInput {
    EndpointFailed(String),
    EndpointReady { node_id: NodeId },
    Resolved(NodeId),
    Connected,
    /// The PIN was proven to the host at `remote`.
    PinProven { remote: NodeId },
    /// The peer's card arrived.
    Exchanged(Box<IdentityCard>),
    /// The current stage failed.
    Failed(String),
    Cancelled,
}

/// A joining session's state.
pub struct JoinView {
    pub phase: JoinPhase,
    pub own_id: Option<Seq<u8>>,
}

/// The end of every joining session that came up.
pub open spec fn join_end() -> Seq<ActionView> {
    seq![ActionView::CloseEndpoint, says(ConnStatus::Idle)]
}

/// The next state and what is done, for what happened. A failure ends the session: the
/// typed PIN rotates, so trying again by itself would mostly fail again.
pub open spec fn join_step(j: JoinView, input: JoinInput) -> (JoinView, Seq<ActionView>) {
    let stopped = JoinView { phase: JoinPhase::Stopped, ..j };
    match (j.phase, input) {
        (JoinPhase::Stopped, _) => (j, Seq::empty()),
        (JoinPhase::Starting, JoinInput::EndpointFailed(error)) => (
            stopped,
            seq![complains(failed_to_start(error@)), says(ConnStatus::Idle)],
        ),
        (JoinPhase::Starting, JoinInput::EndpointReady { node_id }) => (
            JoinView { phase: JoinPhase::Resolving, own_id: Some(node_id@) },
            seq![
                ActionView::Emit(
                    NetEventView::ClientReady {
                        node_id: hex_text(node_id@),
                        identity_public_key: None,
                    },
                ),
                says(ConnStatus::Resolving),
                ActionView::Resolve,
            ],
        ),
        (JoinPhase::Starting, _) => (j, Seq::empty()),
        (JoinPhase::Resolving, JoinInput::Resolved(target)) => if j.own_id == Some(target@) {
            (
                stopped,
                seq![
                    complains(
                        "That PIN belongs to this device — show it on one device and type it on the other"@,
                    ),
                ] + join_end(),
            )
        } else {
            (
                JoinView { phase: JoinPhase::Connecting, ..j },
                seq![says(ConnStatus::Connecting), ActionView::Connect],
            )
        },
        (JoinPhase::Resolving, JoinInput::Cancelled) => (stopped, join_end()),
        (JoinPhase::Connecting, JoinInput::Cancelled) => (stopped, join_end()),
        (JoinPhase::Connecting, JoinInput::Connected) => (
            JoinView { phase: JoinPhase::Proving, ..j },
            seq![says(ConnStatus::Authenticating), ActionView::Authenticate],
        ),
        (JoinPhase::Proving, JoinInput::PinProven { remote }) => (
            JoinView { phase: JoinPhase::Exchanging, ..j },
            seq![
                ActionView::Emit(
                    NetEventView::PeerPaired {
                        peer_node_id: hex_text(remote@),
                        peer_public_key: None,
                    },
                ),
                says(ConnStatus::Connected),
                ActionView::ExchangeCards,
            ],
        ),
        (JoinPhase::Exchanging, JoinInput::Exchanged(card)) => (
            stopped,
            seq![
                ActionView::Close { code: SHUTDOWN_CODE, reason: "card-setup-complete"@ },
                ActionView::Emit(NetEventView::PeerCardReceived(card@)),
            ] + join_end(),
        ),
        (_, JoinInput::Failed(error)) => (stopped, seq![complains(error@)] + join_end()),
        _ => (j, Seq::empty()),
    }
}

/// Whenever a joining session that came up stops, it closes its endpoint and then
/// reports that it is idle, and it does neither before.
pub proof fn joining_ends_once(j: JoinView, input: JoinInput)
    requires
        j.phase != JoinPhase::Stopped,
        j.phase != JoinPhase::Starting,
    ensures
        ({
            let (next, actions) = join_step(j, input);
            if next.phase == JoinPhase::Stopped {
                &&& actions.len() >= 2
                &&& actions[actions.len() - 2] == ActionView::CloseEndpoint
                &&& actions[actions.len() - 1] == says(ConnStatus::Idle)
            } else {
                forall|i: int|
                    0 <= i < actions.len() ==> #[trigger] actions[i] != says(ConnStatus::Idle)
                        && actions[i] != ActionView::CloseEndpoint
            }
        }),
{
}

/// A joining session never touches the clipboard pump.
pub proof fn joining_never_pumps(j: JoinView, input: JoinInput, i: int)
    requires
        0 <= i < join_step(j, input).1.len(),
    ensures
        join_step(j, input).1[i] != ActionView::Pump,
{
}

/// A joining session.
pub struct JoinLoop {
    phase: JoinPhase,
    own_id: Option<NodeId>,
}

impl View for JoinLoop {
    type V = JoinView;

    closed spec fn view(&self) -> JoinView {
        JoinView { phase: self.phase, own_id: node_view(self.own_id) }
    }
}

impl JoinLoop {
    /// Begins a session.
    pub fn start() -> (r: (JoinLoop, Vec<Action>))
        ensures
            r.0@ == (JoinView { phase: JoinPhase::Starting, own_id: None }),
            action_views(r.1@) == seq![says(ConnStatus::Starting), ActionView::Bind],
    {
        let mut out = Actions::new();
        out.status(ConnStatus::Starting);
        out.then_do(Action::Bind);
        (JoinLoop { phase: JoinPhase::Starting, own_id: None }, out.into_list())
    }

    fn finish(&mut self, out: &mut Actions)
        ensures
            final(self)@ == (JoinView { phase: JoinPhase::Stopped, ..old(self)@ }),
            final(out)@ == old(out)@ + join_end(),
    {
        self.phase = JoinPhase::Stopped;
        out.then_do(Action::CloseEndpoint);
        out.status(ConnStatus::Idle);
        assert(out@ =~= old(out)@ + join_end());
    }

    /// Takes what happened, and returns what is to be done.
    pub fn step(&mut self, input: JoinInput) -> (r: Vec<Action>)
        ensures
            (final(self)@, action_views(r@)) == join_step(old(self)@, input),
    {
        let mut out = Actions::new();
        match (self.phase, input) {
            (JoinPhase::Stopped, _) => {},
            (JoinPhase::Starting, JoinInput::EndpointFailed(error)) => {
                out.error(start_failure(error.as_str()));
                out.status(ConnStatus::Idle);
                self.phase = JoinPhase::Stopped;
            },
            (JoinPhase::Starting, JoinInput::EndpointReady { node_id }) => {
                out.then_do(
                    Action::Emit(
                        NetEvent::ClientReady {
                            node_id: node_id.to_text(),
                            identity_public_key: None,
                        },
                    ),
                );
                out.status(ConnStatus::Resolving);
                out.then_do(Action::Resolve);
                self.own_id = Some(node_id);
                self.phase = JoinPhase::Resolving;
            },
            (JoinPhase::Starting, _) => {},
            (JoinPhase::Resolving, JoinInput::Resolved(target)) => {
                let own = match self.own_id {
                    Some(own) => own.same(&target),
                    None => false,
                };
                if own {
                    out.error(
                        "That PIN belongs to this device — show it on one device and type it on the other".to_owned(),
                    );
                    self.finish(&mut out);
                } else {
                    out.status(ConnStatus::Connecting);
                    out.then_do(Action::Connect);
                    self.phase = JoinPhase::Connecting;
                }
            },
            (JoinPhase::Resolving, JoinInput::Cancelled) => self.finish(&mut out),
            (JoinPhase::Connecting, JoinInput::Cancelled) => self.finish(&mut out),
            (JoinPhase::Connecting, JoinInput::Connected) => {
                out.status(ConnStatus::Authenticating);
                out.then_do(Action::Authenticate);
                self.phase = JoinPhase::Proving;
            },
            (JoinPhase::Proving, JoinInput::PinProven { remote }) => {
                out.then_do(
                    Action::Emit(
                        NetEvent::PeerPaired {
                            peer_node_id: remote.to_text(),
                            peer_public_key: None,
                        },
                    ),
                );
                out.status(ConnStatus::Connected);
                out.then_do(Action::ExchangeCards);
                self.phase = JoinPhase::Exchanging;
            },
            (JoinPhase::Exchanging, JoinInput::Exchanged(card)) => {
                out.close(SHUTDOWN_CODE, "card-setup-complete");
                out.then_do(Action::Emit(NetEvent::PeerCardReceived(card)));
                self.finish(&mut out);
            },
            (_, JoinInput::Failed(error)) => {
                out.error(error);
                self.finish(&mut out);
            },
            _ => {},
        }
        assert(out@ =~= join_step(old(self)@, input).1);
        out.into_list()
    }
}

// ---------------------------------------------------------------------------
// What the two roles promise
// ---------------------------------------------------------------------------

/// A joiner's failed attempt closes its connection. Where it had not spent the PIN the host
/// listens on without a complaint and takes the next joiner; where it had, the host reports
/// that very error and ends.
pub proof fn a_failed_attempt_spends_only_a_proven_pin(
    phase: HostPhaseView,
    error: String,
    next: NodeId,
)
    requires
        phase is Proving || phase is Exchanging,
    ensures
        host_step(phase, HostInput::Failed { error, claim_held: false }) == (
            HostPhaseView::Waiting,
            seq![
                ActionView::Close { code: AUTH_FAILED_CODE, reason: "card-setup-failed"@ },
                ActionView::Emit(NetEventView::Status(ConnStatus::Listening)),
                ActionView::Accept { allow_new_transport: false },
            ],
        ),
        host_step(
            host_step(phase, HostInput::Failed { error, claim_held: false }).0,
            HostInput::Accepted(next),
        ).0 == HostPhaseView::Proving(next@),
        host_step(phase, HostInput::Failed { error, claim_held: true }) == (
            HostPhaseView::Stopped,
            seq![
                ActionView::Close { code: AUTH_FAILED_CODE, reason: "card-setup-failed"@ },
                ActionView::Emit(NetEventView::Error(error@)),
                ActionView::CloseEndpoint,
                ActionView::Emit(NetEventView::Status(ConnStatus::Idle)),
            ],
        ),
{
    let spent = host_step(phase, HostInput::Failed { error, claim_held: true }).1;
    assert(spent =~= seq![
        ActionView::Close { code: AUTH_FAILED_CODE, reason: "card-setup-failed"@ },
        ActionView::Emit(NetEventView::Error(error@)),
        ActionView::CloseEndpoint,
        ActionView::Emit(NetEventView::Status(ConnStatus::Idle)),
    ]);
    let open = host_step(phase, HostInput::Failed { error, claim_held: false }).1;
    assert(open =~= seq![
        ActionView::Close { code: AUTH_FAILED_CODE, reason: "card-setup-failed"@ },
        ActionView::Emit(NetEventView::Status(ConnStatus::Listening)),
        ActionView::Accept { allow_new_transport: false },
    ]);
}

/// A hosting session that meets no failure goes through: it shows itself, publishes the
/// PIN, takes a joiner, reports that joiner as paired, swaps cards with it, reports the card
/// that came, turns latecomers away and ends.
pub proof fn an_undisturbed_host_swaps_cards(
    own: NodeId,
    joiner: NodeId,
    card: Box<IdentityCard>,
)
    ensures
        ({
            let up = host_step(
                HostPhaseView::Starting,
                HostInput::EndpointReady { node_id: own },
            );
            let taken = host_step(up.0, HostInput::Accepted(joiner));
            let proven = host_step(taken.0, HostInput::PinProven);
            let done = host_step(proven.0, HostInput::Exchanged(card));
            &&& up.1 == seq![
                ActionView::Emit(
                    NetEventView::ServerReady {
                        node_id: hex_text(own@),
                        identity_public_key: None,
                    },
                ),
                ActionView::Emit(NetEventView::Status(ConnStatus::Listening)),
                ActionView::StartPublisher,
                ActionView::Accept { allow_new_transport: false },
            ]
            &&& taken.1 == seq![ActionView::Emit(NetEventView::Status(ConnStatus::Authenticating)), ActionView::Authenticate]
            &&& proven.1 == seq![
                ActionView::Emit(
                    NetEventView::PeerPaired {
                        peer_node_id: hex_text(joiner@),
                        peer_public_key: None,
                    },
                ),
                ActionView::Emit(NetEventView::Status(ConnStatus::Connected)),
                ActionView::ExchangeCards,
            ]
            &&& done == (
                HostPhaseView::Stopped,
                seq![
                    ActionView::Emit(NetEventView::PeerCardReceived(card@)),
                    ActionView::Close { code: SHUTDOWN_CODE, reason: "card-setup-complete"@ },
                    ActionView::RefuseLatecomers,
                    ActionView::CloseEndpoint,
                    ActionView::Emit(NetEventView::Status(ConnStatus::Idle)),
                ],
            )
        }),
{
    let up = host_step(HostPhaseView::Starting, HostInput::EndpointReady { node_id: own });
    let taken = host_step(up.0, HostInput::Accepted(joiner));
    let proven = host_step(taken.0, HostInput::PinProven);
    let done = host_step(proven.0, HostInput::Exchanged(card));
    assert(done.1 =~= seq![
        ActionView::Emit(NetEventView::PeerCardReceived(card@)),
        ActionView::Close { code: SHUTDOWN_CODE, reason: "card-setup-complete"@ },
        ActionView::RefuseLatecomers,
        ActionView::CloseEndpoint,
        ActionView::Emit(NetEventView::Status(ConnStatus::Idle)),
    ]);
}

/// A host that waits ends when it is told to, with its endpoint closed and nothing to
/// complain of; one that cannot come up says why. What does not belong to a phase changes
/// nothing, and a host that is over does nothing more.
pub proof fn a_host_ends_when_told(phase: HostPhaseView, input: HostInput, error: String)
    ensures
        host_step(HostPhaseView::Waiting, HostInput::AcceptEnded) == (
            HostPhaseView::Stopped,
            seq![ActionView::CloseEndpoint, ActionView::Emit(NetEventView::Status(ConnStatus::Idle))],
        ),
        host_step(HostPhaseView::Starting, HostInput::EndpointFailed(error)) == (
            HostPhaseView::Stopped,
            seq![
                ActionView::Emit(NetEventView::Error("Failed to start: "@ + error@)),
                ActionView::Emit(NetEventView::Status(ConnStatus::Idle)),
            ],
        ),
        host_step(HostPhaseView::Stopped, input) == (
            HostPhaseView::Stopped,
            Seq::<ActionView>::empty(),
        ),
        host_step(phase, input).0 == phase ==> host_step(phase, input).1.len() == 0,
        host_step(phase, input).0 != phase <==> match phase {
            HostPhaseView::Starting => input is EndpointFailed || input is EndpointReady,
            HostPhaseView::Waiting => input is AcceptEnded || input is Accepted,
            HostPhaseView::Proving(_) => input is PinProven || input is Failed,
            HostPhaseView::Exchanging(_) => input is Exchanged || input is Failed,
            HostPhaseView::Stopped => false,
        },
{
}

/// A failure ends joining: in every phase after the endpoint came up and before the session
/// is over, it stops the session, which reports that very error, closes its endpoint and is
/// idle, in this order.
pub proof fn a_failure_ends_joining(j: JoinView, error: String)
    requires
        j.phase != JoinPhase::Starting,
        j.phase != JoinPhase::Stopped,
    ensures
        join_step(j, JoinInput::Failed(error)).0.phase == JoinPhase::Stopped,
        join_step(j, JoinInput::Failed(error)).1 == seq![
            ActionView::Emit(NetEventView::Error(error@)),
            ActionView::CloseEndpoint,
            ActionView::Emit(NetEventView::Status(ConnStatus::Idle)),
        ],
{
    assert(join_step(j, JoinInput::Failed(error)).1 =~= seq![
        ActionView::Emit(NetEventView::Error(error@)),
        ActionView::CloseEndpoint,
        ActionView::Emit(NetEventView::Status(ConnStatus::Idle)),
    ]);
}

/// A joining session that meets no failure goes through: it looks the PIN up, dials the
/// host it found, proves the PIN, reports that host as paired, swaps cards with it, reports
/// the card that came and ends.
pub proof fn an_undisturbed_joiner_swaps_cards(
    own: NodeId,
    target: NodeId,
    remote: NodeId,
    card: Box<IdentityCard>,
)
    requires
        target@ != own@,
    ensures
        ({
            let up = join_step(
                JoinView { phase: JoinPhase::Starting, own_id: None },
                JoinInput::EndpointReady { node_id: own },
            );
            let found = join_step(up.0, JoinInput::Resolved(target));
            let dialed = join_step(found.0, JoinInput::Connected);
            let proven = join_step(dialed.0, JoinInput::PinProven { remote });
            let done = join_step(proven.0, JoinInput::Exchanged(card));
            &&& up.1 == seq![
                ActionView::Emit(
                    NetEventView::ClientReady {
                        node_id: hex_text(own@),
                        identity_public_key: None,
                    },
                ),
                ActionView::Emit(NetEventView::Status(ConnStatus::Resolving)),
                ActionView::Resolve,
            ]
            &&& found.1 == seq![ActionView::Emit(NetEventView::Status(ConnStatus::Connecting)), ActionView::Connect]
            &&& dialed.1 == seq![ActionView::Emit(NetEventView::Status(ConnStatus::Authenticating)), ActionView::Authenticate]
            &&& proven.1 == seq![
                ActionView::Emit(
                    NetEventView::PeerPaired {
                        peer_node_id: hex_text(remote@),
                        peer_public_key: None,
                    },
                ),
                ActionView::Emit(NetEventView::Status(ConnStatus::Connected)),
                ActionView::ExchangeCards,
            ]
            &&& done.0.phase == JoinPhase::Stopped
            &&& done.1 == seq![
                ActionView::Close { code: SHUTDOWN_CODE, reason: "card-setup-complete"@ },
                ActionView::Emit(NetEventView::PeerCardReceived(card@)),
                ActionView::CloseEndpoint,
                ActionView::Emit(NetEventView::Status(ConnStatus::Idle)),
            ]
        }),
{
    let up = join_step(
        JoinView { phase: JoinPhase::Starting, own_id: None },
        JoinInput::EndpointReady { node_id: own },
    );
    let found = join_step(up.0, JoinInput::Resolved(target));
    let dialed = join_step(found.0, JoinInput::Connected);
    let proven = join_step(dialed.0, JoinInput::PinProven { remote });
    let done = join_step(proven.0, JoinInput::Exchanged(card));
    assert(done.1 =~= seq![
        ActionView::Close { code: SHUTDOWN_CODE, reason: "card-setup-complete"@ },
        ActionView::Emit(NetEventView::PeerCardReceived(card@)),
        ActionView::CloseEndpoint,
        ActionView::Emit(NetEventView::Status(ConnStatus::Idle)),
    ]);
}

/// A device never joins itself: a PIN that leads back to the device it was typed on ends the
/// session with an explanation, and every other target is dialed.
pub proof fn a_joiner_never_dials_itself(j: JoinView, target: NodeId)
    requires
        j.phase == JoinPhase::Resolving,
    ensures
        ({
            let (next, actions) = join_step(j, JoinInput::Resolved(target));
            &&& j.own_id == Some(target@) ==> next.phase == JoinPhase::Stopped && actions == seq![
                ActionView::Emit(
                    NetEventView::Error(
                        "That PIN belongs to this device — show it on one device and type it on the other"@,
                    ),
                ),
                ActionView::CloseEndpoint,
                ActionView::Emit(NetEventView::Status(ConnStatus::Idle)),
            ]
            &&& j.own_id != Some(target@) ==> next.phase == JoinPhase::Connecting && actions
                == seq![ActionView::Emit(NetEventView::Status(ConnStatus::Connecting)), ActionView::Connect]
        }),
{
    let (next, actions) = join_step(j, JoinInput::Resolved(target));
    if j.own_id == Some(target@) {
        assert(actions =~= seq![
            ActionView::Emit(
                NetEventView::Error(
                    "That PIN belongs to this device — show it on one device and type it on the other"@,
                ),
            ),
            ActionView::CloseEndpoint,
            ActionView::Emit(NetEventView::Status(ConnStatus::Idle)),
        ]);
    }
}

/// A joiner that looks for its host or dials it ends quietly when it is cancelled; one that
/// cannot come up says why. What does not belong to a phase changes nothing, and a joiner
/// that is over does nothing more.
pub proof fn a_joiner_ends_when_cancelled(j: JoinView, input: JoinInput, error: String)
    ensures
        j.phase == JoinPhase::Resolving || j.phase == JoinPhase::Connecting ==> (join_step(
            j,
            JoinInput::Cancelled,
        ).0.phase == JoinPhase::Stopped && join_step(j, JoinInput::Cancelled).1 == seq![
            ActionView::CloseEndpoint,
            ActionView::Emit(NetEventView::Status(ConnStatus::Idle)),
        ]),
        j.phase == JoinPhase::Starting ==> (join_step(j, JoinInput::EndpointFailed(error)).0.phase
            == JoinPhase::Stopped && join_step(j, JoinInput::EndpointFailed(error)).1 == seq![
            ActionView::Emit(NetEventView::Error("Failed to start: "@ + error@)),
            ActionView::Emit(NetEventView::Status(ConnStatus::Idle)),
        ]),
        join_step(j, input).0.phase == j.phase ==> join_step(j, input) == (
            j,
            Seq::<ActionView>::empty(),
        ),
        join_step(j, input).0.phase != j.phase <==> match j.phase {
            JoinPhase::Starting => input is EndpointFailed || input is EndpointReady,
            JoinPhase::Resolving => input is Resolved || input is Cancelled || input is Failed,
            JoinPhase::Connecting => input is Connected || input is Cancelled || input is Failed,
            JoinPhase::Proving => input is PinProven || input is Failed,
            JoinPhase::Exchanging => input is Exchanged || input is Failed,
            JoinPhase::Stopped => false,
        },
        !(input is EndpointReady) ==> join_step(j, input).0.own_id == j.own_id,
{
}

} // verus!
