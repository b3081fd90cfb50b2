//! Sessions: what identifies one, what it remembers, and what the command loop does
//! with each command.

use vstd::prelude::*;
use vstd::string::*;

use crate::auth::PublicKey;
use crate::net::claim::{PairClaim, RecentPins};
use crate::net::{
    ConnStatus, DialSpec, NetEvent, NetEventView, ServerMode, SignalChannel, UiCommand,
};

verus! {

/// Seconds that a session may take to shut down before it is aborted.
pub const STOP_TIMEOUT_SECS: u64 = 3;

/// A session to run: either role, with what it needs.
pub enum SessionKind {
    Server(ServerMode),
    Client(DialSpec),
}

/// What a session's memory is bound to: the role, the credential or target, and the
/// channel, which decides the transport stack.
pub enum SessionKey {
    ServerCardSetup { channel: SignalChannel },
    ServerKey { public_key: PublicKey, channel: SignalChannel },
    ClientCardSetup { canonical_pin: String, channel: SignalChannel },
    ClientKey { public_key: PublicKey, peer_public_key: PublicKey, channel: SignalChannel },
}

/// What a [`SessionKey`] says.
pub enum SessionKeyView {
    ServerCardSetup { channel: SignalChannel },
    ServerKey { public_key: Seq<u8>, channel: SignalChannel },
    ClientCardSetup { canonical_pin: Seq<char>, channel: SignalChannel },
    ClientKey { public_key: Seq<u8>, peer_public_key: Seq<u8>, channel: SignalChannel },
}

impl View for SessionKey {
    type V = SessionKeyView;

    open spec fn view(&self) -> SessionKeyView {
        match *self {
            SessionKey::ServerCardSetup { channel } => SessionKeyView::ServerCardSetup { channel },
            SessionKey::ServerKey { public_key, channel } => SessionKeyView::ServerKey {
                public_key: public_key@,
                channel,
            },
            SessionKey::ClientCardSetup { canonical_pin, channel } => {
                SessionKeyView::ClientCardSetup { canonical_pin: canonical_pin@, channel }
            },
            SessionKey::ClientKey { public_key, peer_public_key, channel } => {
                SessionKeyView::ClientKey {
                    public_key: public_key@,
                    peer_public_key: peer_public_key@,
                    channel,
                }
            },
        }
    }
}

/// The key of a session.
pub open spec fn session_key_of(kind: SessionKind) -> SessionKeyView {
    match kind {
        SessionKind::Server(ServerMode::CardSetup { channel, .. }) => {
            SessionKeyView::ServerCardSetup { channel }
        },
        SessionKind::Server(ServerMode::Key { identity, channel }) => SessionKeyView::ServerKey {
            public_key: identity.identity.public_bytes(),
            channel,
        },
        SessionKind::Client(DialSpec::CardSetup { canonical_pin, channel, .. }) => {
            SessionKeyView::ClientCardSetup { canonical_pin: canonical_pin@, channel }
        },
        SessionKind::Client(DialSpec::Key { identity, peer_public_key, channel }) => {
            SessionKeyView::ClientKey {
                public_key: identity.identity.public_bytes(),
                peer_public_key: peer_public_key@,
                channel,
            }
        },
    }
}

/// The key of a session.
pub fn session_key(kind: &SessionKind) -> (r: SessionKey)
    ensures
        r@ == session_key_of(*kind),
{
    match kind {
        SessionKind::Server(ServerMode::CardSetup { channel, .. }) => SessionKey::ServerCardSetup {
            channel: *channel,
        },
        SessionKind::Server(ServerMode::Key { identity, channel }) => SessionKey::ServerKey {
            public_key: identity.identity.public_key(),
            channel: *channel,
        },
        SessionKind::Client(DialSpec::CardSetup { canonical_pin, channel, .. }) => {
            SessionKey::ClientCardSetup { canonical_pin: canonical_pin.clone(), channel: *channel }
        },
        SessionKind::Client(DialSpec::Key { identity, peer_public_key, channel }) => {
            SessionKey::ClientKey {
                public_key: identity.identity.public_key(),
                peer_public_key: *peer_public_key,
                channel: *channel,
            }
        },
    }
}

impl SessionKey {
    /// Whether two keys are the same.
    pub fn same(&self, other: &SessionKey) -> (r: bool)
        ensures
            r == (self@ == other@),
    {
        match (self, other) {
            (
                SessionKey::ServerCardSetup { channel: a },
                SessionKey::ServerCardSetup { channel: b },
            ) => *a == *b,
            (
                SessionKey::ServerKey { public_key: k, channel: a },
                SessionKey::ServerKey { public_key: l, channel: b },
            ) => k.same(l) && *a == *b,
            (
                SessionKey::ClientCardSetup { canonical_pin: p, channel: a },
                SessionKey::ClientCardSetup { canonical_pin: q, channel: b },
            ) => *p == *q && *a == *b,
            (
                SessionKey::ClientKey { public_key: k, peer_public_key: p, channel: a },
                SessionKey::ClientKey { public_key: l, peer_public_key: q, channel: b },
            ) => k.same(l) && p.same(q) && *a == *b,
            _ => false,
        }
    }
}

/// Identity and pairing state of one logical session. It outlives the session's task,
/// so that the next task comes back as the same peer instead of being refused as a
/// stranger.
pub struct SessionMemory {
    pub key: SessionKey,
    /// The transport secret, and with it the node id.
    pub secret: [u8; 32],
    pub claim: PairClaim,
    /// Card-setup host: the recent rotations' auth keys.
    pub recent_pins: RecentPins<[u8; 32]>,
}

impl SessionMemory {
    /// Fresh memory: unclaimed and without PINs.
    pub fn new(key: SessionKey, secret: [u8; 32]) -> (r: SessionMemory)
        ensures
            r.key@ == key@,
            r.secret == secret,
            r.claim@ is None,
            r.recent_pins@ == Seq::<[u8; 32]>::empty(),
    {
        SessionMemory { key, secret, claim: PairClaim::new(), recent_pins: RecentPins::new() }
    }
}

/// Whether the memory belongs to the session with the given key.
pub open spec fn remembers(memory: Option<SessionMemory>, key: SessionKeyView) -> bool {
    memory is Some && memory->0.key@ == key
}

/// Keeps the memory where the new session continues the one it belongs to; mints fresh
/// identity and pairing state otherwise.
pub fn remember(memory: &mut Option<SessionMemory>, key: SessionKey, fresh_secret: [u8; 32])
    ensures
        remembers(*final(memory), key@),
        if remembers(*old(memory), key@) {
            *final(memory) == *old(memory)
        } else {
            final(memory)->0.secret == fresh_secret && final(memory)->0.claim@ is None
                && final(memory)->0.recent_pins@ == Seq::<[u8; 32]>::empty()
        },
{
    let keep = match memory.as_ref() {
        Some(m) => m.key.same(&key),
        None => false,
    };
    if !keep {
        *memory = Some(SessionMemory::new(key, fresh_secret));
    }
}

/// Which runner a session uses.
#[derive(Clone, Copy, Debug, PartialEq, Eq, Structural)]
pub enum Runner {
    Server,
    CardSetupHost,
    Client,
    CardSetupJoiner,
}

/// How a session is run.
#[derive(Clone, Copy, Debug, PartialEq, Eq, Structural)]
pub struct SessionPlan {
    pub runner: Runner,
    /// Whether the session is given the clipboard channel and the connection slot.
    pub carries_clipboard: bool,
    /// Whether the session publishes a rotating PIN that can be refreshed.
    pub publishes_pin: bool,
}

/// The plan of a session.
pub open spec fn plan_of(kind: SessionKind) -> SessionPlan {
    match kind {
        SessionKind::Server(ServerMode::CardSetup { .. }) => SessionPlan {
            runner: Runner::CardSetupHost,
            carries_clipboard: false,
            publishes_pin: true,
        },
        SessionKind::Server(ServerMode::Key { .. }) => SessionPlan {
            runner: Runner::Server,
            carries_clipboard: true,
            publishes_pin: false,
        },
        SessionKind::Client(DialSpec::CardSetup { .. }) => SessionPlan {
            runner: Runner::CardSetupJoiner,
            carries_clipboard: false,
            publishes_pin: false,
        },
        SessionKind::Client(DialSpec::Key { .. }) => SessionPlan {
            runner: Runner::Client,
            carries_clipboard: true,
            publishes_pin: false,
        },
    }
}

/// A card-setup session, of either role, is never given the clipboard.
pub proof fn card_setup_never_carries_clipboard_content(kind: SessionKind)
    requires
        plan_of(kind).runner == Runner::CardSetupHost || plan_of(kind).runner
            == Runner::CardSetupJoiner,
    ensures
        !plan_of(kind).carries_clipboard,
{
}

/// Plans a session.
pub fn plan_session(kind: &SessionKind) -> (r: SessionPlan)
    ensures
        r == plan_of(*kind),
{
    match kind {
        SessionKind::Server(ServerMode::CardSetup { .. }) => SessionPlan {
            runner: Runner::CardSetupHost,
            carries_clipboard: false,
            publishes_pin: true,
        },
        SessionKind::Server(ServerMode::Key { .. }) => SessionPlan {
            runner: Runner::Server,
            carries_clipboard: true,
            publishes_pin: false,
        },
        SessionKind::Client(DialSpec::CardSetup { .. }) => SessionPlan {
            runner: Runner::CardSetupJoiner,
            carries_clipboard: false,
            publishes_pin: false,
        },
        SessionKind::Client(DialSpec::Key { .. }) => SessionPlan {
            runner: Runner::Client,
            carries_clipboard: true,
            publishes_pin: false,
        },
    }
}

/// What the command loop has done, in order.
pub enum LoopAction {
    /// Stop the running session, if there is one, and wait for it.
    StopSession,
    /// Start a session on the remembered identity and claim.
    StartSession { kind: SessionKind, plan: SessionPlan },
    /// Have the PIN publisher rotate now and revoke what was shown.
    RefreshPin,
    /// Hand text to the running session.
    SendText(String),
    /// Snapshot the paths of the live connection and report them.
    QueryPaths,
    Emit(NetEvent),
    /// Leave the loop.
    Exit,
}

/// What a [`LoopAction`] says.
pub enum LoopActionView {
    StopSession,
    StartSession { kind: SessionKind, plan: SessionPlan },
    RefreshPin,
    SendText(Seq<char>),
    QueryPaths,
    Emit(NetEventView),
    Exit,
}

impl View for LoopAction {
    type V = LoopActionView;

    open spec fn view(&self) -> LoopActionView {
        match *self {
            LoopAction::StopSession => LoopActionView::StopSession,
            LoopAction::StartSession { kind, plan } => LoopActionView::StartSession { kind, plan },
            LoopAction::RefreshPin => LoopActionView::RefreshPin,
            LoopAction::SendText(text) => LoopActionView::SendText(text@),
            LoopAction::QueryPaths => LoopActionView::QueryPaths,
            LoopAction::Emit(event) => LoopActionView::Emit(event@),
            LoopAction::Exit => LoopActionView::Exit,
        }
    }
}

/// The views of a list of actions.
pub open spec fn loop_views(actions: Seq<LoopAction>) -> Seq<LoopActionView> {
    actions.map_values(|a: LoopAction| a@)
}

/// The command loop's state: the running session's plan, and the memory of the logical
/// session.
pub struct CommandLoop {
    pub session: Option<SessionPlan>,
    pub memory: Option<SessionMemory>,
}

/// The session that a command starts, if it starts one.
pub open spec fn started_by(cmd: UiCommand) -> Option<SessionKind> {
    match cmd {
        UiCommand::StartServer { mode } => Some(SessionKind::Server(mode)),
        UiCommand::Connect { spec } => Some(SessionKind::Client(spec)),
        _ => None,
    }
}

/// Whether a PIN is being published: a card-setup host runs, and no peer has paired with
/// it.
pub open spec fn publishing(session: Option<SessionPlan>, memory: Option<SessionMemory>) -> bool {
    &&& session is Some && session->0.publishes_pin
    &&& !(memory is Some && memory->0.claim@ is Some)
}

/// What is done with a command while `session` runs on `memory`.
pub open spec fn actions_for(
    session: Option<SessionPlan>,
    memory: Option<SessionMemory>,
    cmd: UiCommand,
) -> Seq<LoopActionView> {
    match cmd {
        UiCommand::StartServer { mode } => seq![
            LoopActionView::StopSession,
            LoopActionView::StartSession {
                kind: SessionKind::Server(mode),
                plan: plan_of(SessionKind::Server(mode)),
            },
        ],
        UiCommand::Connect { spec } => seq![
            LoopActionView::StopSession,
            LoopActionView::StartSession {
                kind: SessionKind::Client(spec),
                plan: plan_of(SessionKind::Client(spec)),
            },
        ],
        UiCommand::StopServer => seq![
            LoopActionView::StopSession,
            LoopActionView::Emit(NetEventView::Status(ConnStatus::Idle)),
        ],
        UiCommand::Disconnect => seq![
            LoopActionView::StopSession,
            LoopActionView::Emit(NetEventView::Status(ConnStatus::Idle)),
        ],
        UiCommand::RefreshPin => if publishing(session, memory) {
            seq![LoopActionView::RefreshPin]
        } else {
            seq![LoopActionView::Emit(NetEventView::Error("No PIN is being published"@))]
        },
        UiCommand::SendClipboard { text } => if session is Some && session->0.carries_clipboard {
            seq![LoopActionView::SendText(text@)]
        } else {
            seq![
                LoopActionView::Emit(
                    NetEventView::Error("Not connected — start or join a session first"@),
                ),
            ]
        },
        UiCommand::QueryConnPath => seq![LoopActionView::QueryPaths],
        UiCommand::Shutdown => seq![LoopActionView::StopSession, LoopActionView::Exit],
    }
}

/// The session that runs after a command.
pub open spec fn session_after(session: Option<SessionPlan>, cmd: UiCommand) -> Option<SessionPlan> {
    match cmd {
        UiCommand::StartServer { mode } => Some(plan_of(SessionKind::Server(mode))),
        UiCommand::Connect { spec } => Some(plan_of(SessionKind::Client(spec))),
        UiCommand::StopServer => None,
        UiCommand::Disconnect => None,
        UiCommand::Shutdown => None,
        _ => session,
    }
}

/// Clipboard text reaches only a session that was started to carry it.
pub proof fn clipboard_goes_only_to_clipboard_sessions(
    session: Option<SessionPlan>,
    memory: Option<SessionMemory>,
    text: String,
    i: int,
)
    requires
        0 <= i < actions_for(session, memory, UiCommand::SendClipboard { text }).len(),
        actions_for(session, memory, UiCommand::SendClipboard { text })[i] is SendText,
    ensures
        session is Some && session->0.carries_clipboard,
{
}

/// A request for a fresh PIN is answered with an error, and rotates nothing, where no PIN
/// is being published: the session has another role or is over, or a peer has paired.
pub proof fn a_refresh_needs_a_published_pin(
    session: Option<SessionPlan>,
    memory: Option<SessionMemory>,
)
    requires
        session is None || !session->0.publishes_pin || (memory is Some && memory->0.claim@
            is Some),
    ensures
        actions_for(session, memory, UiCommand::RefreshPin) == seq![
            LoopActionView::Emit(NetEventView::Error("No PIN is being published"@)),
        ],
{
}

/// Whether what is remembered goes from `before` to `after` with a command, where a session
/// of which nothing is remembered gets the transport secret `fresh`.
pub open spec fn memory_follows(
    before: Option<SessionMemory>,
    cmd: UiCommand,
    fresh: [u8; 32],
    after: Option<SessionMemory>,
) -> bool {
    match started_by(cmd) {
        Some(kind) => {
            &&& after is Some && after->0.key@ == session_key_of(kind)
            &&& if before is Some && before->0.key@ == session_key_of(kind) {
                after == before
            } else {
                &&& after->0.secret == fresh
                &&& after->0.claim@ is None
                &&& after->0.recent_pins@ == Seq::<[u8; 32]>::empty()
            }
        },
        None => if cmd is StopServer || cmd is Disconnect {
            after is None
        } else {
            after == before
        },
    }
}

impl CommandLoop {
    /// No session and nothing remembered.
    pub fn new() -> (r: CommandLoop)
        ensures
            r.session is None,
            r.memory is None,
    {
        CommandLoop { session: None, memory: None }
    }

    fn start(&mut self, kind: SessionKind, fresh_secret: [u8; 32]) -> (r: Vec<LoopAction>)
        ensures
            loop_views(r@) == seq![
                LoopActionView::StopSession,
                LoopActionView::StartSession { kind, plan: plan_of(kind) },
            ],
            final(self).session == Some(plan_of(kind)),
            remembers(final(self).memory, session_key_of(kind)),
            if remembers(old(self).memory, session_key_of(kind)) {
                final(self).memory == old(self).memory
            } else {
                final(self).memory->0.secret == fresh_secret && final(self).memory->0.claim@ is None
                    && final(self).memory->0.recent_pins@ == Seq::<[u8; 32]>::empty()
            },
    {
        let key = session_key(&kind);
        remember(&mut self.memory, key, fresh_secret);
        let plan = plan_session(&kind);
        self.session = Some(plan);
        let mut r: Vec<LoopAction> = Vec::new();
        r.push(LoopAction::StopSession);
        r.push(LoopAction::StartSession { kind, plan });
        assert(loop_views(r@) =~= seq![
            LoopActionView::StopSession,
            LoopActionView::StartSession { kind, plan },
        ]);
        r
    }

    /// Handles one command. `fresh_secret` is the transport secret that a session gets
    /// where nothing is remembered of it. Stopping forgets the pairing; starting the
    /// same session again keeps it.
    pub fn handle(&mut self, cmd: UiCommand, fresh_secret: [u8; 32]) -> (r: Vec<LoopAction>)
        ensures
            loop_views(r@) == actions_for(old(self).session, old(self).memory, cmd),
            final(self).session == session_after(old(self).session, cmd),
            memory_follows(old(self).memory, cmd, fresh_secret, final(self).memory),
            match started_by(cmd) {
                Some(kind) => {
                    &&& remembers(final(self).memory, session_key_of(kind))
                    &&& if remembers(old(self).memory, session_key_of(kind)) {
                        final(self).memory == old(self).memory
                    } else {
                        final(self).memory->0.secret == fresh_secret
                            && final(self).memory->0.claim@ is None
                            && final(self).memory->0.recent_pins@ == Seq::<[u8; 32]>::empty()
                    }
                },
                None => if cmd is StopServer || cmd is Disconnect {
                    final(self).memory is None
                } else {
                    final(self).memory == old(self).memory
                },
            },
    {
        match cmd {
            UiCommand::StartServer { mode } => self.start(SessionKind::Server(mode), fresh_secret),
            UiCommand::Connect { spec } => self.start(SessionKind::Client(spec), fresh_secret),
            UiCommand::StopServer => self.stop(),
            UiCommand::Disconnect => self.stop(),
            UiCommand::RefreshPin => {
                let hosts = match self.session {
                    Some(plan) => plan.publishes_pin,
                    None => false,
                };
                let paired = match self.memory.as_ref() {
                    Some(memory) => memory.claim.is_paired(),
                    None => false,
                };
                if hosts && !paired {
                    one(LoopAction::RefreshPin)
                } else {
                    one(LoopAction::Emit(NetEvent::Error("No PIN is being published".to_owned())))
                }
            },
            UiCommand::SendClipboard { text } => {
                let carries = match self.session {
                    Some(plan) => plan.carries_clipboard,
                    None => false,
                };
                if carries {
                    one(LoopAction::SendText(text))
                } else {
                    one(LoopAction::Emit(not_connected()))
                }
            },
            UiCommand::QueryConnPath => one(LoopAction::QueryPaths),
            UiCommand::Shutdown => {
                self.session = None;
                let mut r: Vec<LoopAction> = Vec::new();
                r.push(LoopAction::StopSession);
                r.push(LoopAction::Exit);
                assert(loop_views(r@) =~= seq![LoopActionView::StopSession, LoopActionView::Exit]);
                r
            },
        }
    }

    /// Notes that the running session came to its end by itself. What is remembered of it
    /// stays, so that starting it again continues it.
    pub fn session_ended(&mut self)
        ensures
            final(self).session is None,
            final(self).memory == old(self).memory,
    {
        self.session = None;
    }

    fn stop(&mut self) -> (r: Vec<LoopAction>)
        ensures
            loop_views(r@) == seq![
                LoopActionView::StopSession,
                LoopActionView::Emit(NetEventView::Status(ConnStatus::Idle)),
            ],
            final(self).session is None,
            final(self).memory is None,
    {
        self.session = None;
        self.memory = None;
        let mut r: Vec<LoopAction> = Vec::new();
        r.push(LoopAction::StopSession);
        r.push(LoopAction::Emit(NetEvent::Status(ConnStatus::Idle)));
        assert(loop_views(r@) =~= seq![
            LoopActionView::StopSession,
            LoopActionView::Emit(NetEventView::Status(ConnStatus::Idle)),
        ]);
        r
    }
}

fn one(action: LoopAction) -> (r: Vec<LoopAction>)
    ensures
        loop_views(r@) == seq![action@],
{
    let mut r: Vec<LoopAction> = Vec::new();
    r.push(action);
    assert(loop_views(r@) =~= seq![action@]);
    r
}

/// The error for clipboard text that no session takes.
pub fn not_connected() -> (r: NetEvent)
    ensures
        r@ == NetEventView::Error("Not connected — start or join a session first"@),
{
    NetEvent::Error("Not connected — start or join a session first".to_owned())
}

// ---------------------------------------------------------------------------
// What the sessions promise
// ---------------------------------------------------------------------------

/// A session carries the clipboard exactly where it is hosted for trusted peers or dials
/// one, and it publishes a PIN exactly where it hosts a card setup. Every kind of session
/// has a runner of its own.
pub proof fn key_sessions_carry_the_clipboard(mode: ServerMode, spec: DialSpec)
    ensures
        plan_of(SessionKind::Server(mode)).carries_clipboard <==> mode is Key,
        plan_of(SessionKind::Client(spec)).carries_clipboard <==> spec is Key,
        plan_of(SessionKind::Server(mode)).publishes_pin <==> mode is CardSetup,
        !plan_of(SessionKind::Client(spec)).publishes_pin,
        plan_of(SessionKind::Server(mode)).runner == Runner::Server <==> mode is Key,
        plan_of(SessionKind::Server(mode)).runner == Runner::CardSetupHost <==> mode is CardSetup,
        plan_of(SessionKind::Client(spec)).runner == Runner::Client <==> spec is Key,
        plan_of(SessionKind::Client(spec)).runner == Runner::CardSetupJoiner <==> spec
            is CardSetup,
{
}

/// Whatever ran before, a command that starts a session stops that one and starts the
/// session that it names. Text sent next is handed to the new session where that session
/// is with a trusted peer, and is refused where it is a card setup.
pub proof fn text_reaches_the_session_that_was_started(
    before: Option<SessionPlan>,
    memory: Option<SessionMemory>,
    later: Option<SessionMemory>,
    mode: ServerMode,
    spec: DialSpec,
    text: String,
)
    ensures
        ({
            let cmd = UiCommand::StartServer { mode };
            let actions = actions_for(before, memory, cmd);
            &&& actions.len() == 2
            &&& actions[0] is StopSession
            &&& actions[1] is StartSession
            &&& actions[1]->kind == SessionKind::Server(mode)
            &&& session_after(before, cmd) == Some(actions[1]->plan)
            &&& mode is Key ==> actions_for(
                session_after(before, cmd),
                later,
                UiCommand::SendClipboard { text },
            ) == seq![LoopActionView::SendText(text@)]
            &&& mode is CardSetup ==> actions_for(
                session_after(before, cmd),
                later,
                UiCommand::SendClipboard { text },
            ) == seq![
                LoopActionView::Emit(
                    NetEventView::Error("Not connected — start or join a session first"@),
                ),
            ]
        }),
        ({
            let cmd = UiCommand::Connect { spec };
            let actions = actions_for(before, memory, cmd);
            &&& actions.len() == 2
            &&& actions[0] is StopSession
            &&& actions[1] is StartSession
            &&& actions[1]->kind == SessionKind::Client(spec)
            &&& session_after(before, cmd) == Some(actions[1]->plan)
            &&& spec is Key ==> actions_for(
                session_after(before, cmd),
                later,
                UiCommand::SendClipboard { text },
            ) == seq![LoopActionView::SendText(text@)]
            &&& spec is CardSetup ==> actions_for(
                session_after(before, cmd),
                later,
                UiCommand::SendClipboard { text },
            ) == seq![
                LoopActionView::Emit(
                    NetEventView::Error("Not connected — start or join a session first"@),
                ),
            ]
        }),
{
}

/// Once a session is stopped, by whichever command, nothing takes text any more; the two
/// commands that stop it report that the device is idle, and leaving the loop comes last.
pub proof fn a_stopped_session_takes_nothing(
    before: Option<SessionPlan>,
    memory: Option<SessionMemory>,
    later: Option<SessionMemory>,
    cmd: UiCommand,
    text: String,
)
    requires
        cmd is StopServer || cmd is Disconnect || cmd is Shutdown,
    ensures
        actions_for(before, memory, cmd).len() == 2,
        actions_for(before, memory, cmd)[0] is StopSession,
        cmd is Shutdown <==> actions_for(before, memory, cmd)[1] is Exit,
        !(cmd is Shutdown) ==> actions_for(before, memory, cmd)[1] == LoopActionView::Emit(
            NetEventView::Status(ConnStatus::Idle),
        ),
        actions_for(session_after(before, cmd), later, UiCommand::SendClipboard { text }) == seq![
            LoopActionView::Emit(
                NetEventView::Error("Not connected — start or join a session first"@),
            ),
        ],
        actions_for(session_after(before, cmd), later, UiCommand::RefreshPin) == seq![
            LoopActionView::Emit(NetEventView::Error("No PIN is being published"@)),
        ],
{
}

/// Sending, refreshing and asking for the paths never stop or replace the session that
/// runs; the paths are looked up whenever they are asked for.
pub proof fn requests_leave_the_session_running(
    session: Option<SessionPlan>,
    memory: Option<SessionMemory>,
    text: String,
)
    ensures
        session_after(session, UiCommand::SendClipboard { text }) == session,
        session_after(session, UiCommand::RefreshPin) == session,
        session_after(session, UiCommand::QueryConnPath) == session,
        actions_for(session, memory, UiCommand::QueryConnPath) == seq![LoopActionView::QueryPaths],
{
}

/// A card-setup host that no joiner has paired with can always have its PIN rotated.
pub proof fn an_unpaired_host_refreshes_its_pin(
    before: Option<SessionPlan>,
    memory: Option<SessionMemory>,
    mode: ServerMode,
)
    requires
        mode is CardSetup,
        memory is Some ==> memory->0.claim@ is None,
    ensures
        actions_for(
            session_after(before, UiCommand::StartServer { mode }),
            memory,
            UiCommand::RefreshPin,
        ) == seq![LoopActionView::RefreshPin],
{
}

/// What is remembered is bound to the role, to the own key, the dialed key or the PIN, and
/// to the channel: two sessions share their memory exactly where all of these agree.
pub proof fn memory_is_bound_to_the_session(a: SessionKind, b: SessionKind)
    ensures
        session_key_of(a) == session_key_of(b) <==> match (a, b) {
            (SessionKind::Server(ServerMode::CardSetup { channel: c, .. }), SessionKind::Server(
                ServerMode::CardSetup { channel: d, .. },
            )) => c == d,
            (
                SessionKind::Server(ServerMode::Key { identity: i, channel: c }),
                SessionKind::Server(ServerMode::Key { identity: j, channel: d }),
            ) => c == d && i.identity.public_bytes() == j.identity.public_bytes(),
            (
                SessionKind::Client(DialSpec::CardSetup { canonical_pin: p, channel: c, .. }),
                SessionKind::Client(DialSpec::CardSetup { canonical_pin: q, channel: d, .. }),
            ) => c == d && p@ == q@,
            (
                SessionKind::Client(DialSpec::Key { identity: i, peer_public_key: k, channel: c }),
                SessionKind::Client(DialSpec::Key { identity: j, peer_public_key: l, channel: d }),
            ) => c == d && k@ == l@ && i.identity.public_bytes() == j.identity.public_bytes(),
            _ => false,
        },
{
}

/// Starting the session that is remembered again continues it, with its transport id, its
/// pairing and its PINs; starting another one begins with fresh ones; stopping forgets; and
/// no other command touches what is remembered.
pub proof fn the_same_session_is_continued(
    before: Option<SessionMemory>,
    kind: SessionKind,
    cmd: UiCommand,
    fresh: [u8; 32],
    after: Option<SessionMemory>,
)
    requires
        memory_follows(before, cmd, fresh, after),
    ensures
        cmd == (UiCommand::StartServer { mode: kind->Server_0 }) && kind is Server || cmd == (
        UiCommand::Connect { spec: kind->Client_0 }) && kind is Client ==> {
            &&& after is Some
            &&& before is Some && before->0.key@ == session_key_of(kind) ==> after == before
            &&& before is None || before->0.key@ != session_key_of(kind) ==> after->0.secret
                == fresh && after->0.claim@ is None && after->0.recent_pins@.len() == 0
                && after->0.key@ == session_key_of(kind)
        },
        cmd is StopServer || cmd is Disconnect ==> after is None,
        cmd is RefreshPin || cmd is SendClipboard || cmd is QueryConnPath || cmd is Shutdown
            ==> after == before,
{
}

/// The views of actions stand in the order of the actions, one for one.
pub proof fn loop_views_keep_every_action(actions: Seq<LoopAction>, i: int)
    ensures
        loop_views(actions).len() == actions.len(),
        0 <= i < actions.len() ==> loop_views(actions)[i] == actions[i]@,
{
}

} // verus!
