//! What a session asks the transport to do, one step at a time.

use vstd::prelude::*;
use vstd::string::*;

use crate::net::{ConnStatus, NetEvent, NetEventView};

verus! {

/// One thing that a session does. Each step of a session answers what happened with a
/// list of these, to be done in order.
pub enum Action {
    Emit(NetEvent),
    /// Bring the endpoint up.
    Bind,
    /// Start publishing this endpoint's whereabouts.
    StartPublisher,
    /// Accept the next admissible dialer. The flag says whether the holder of a claimed
    /// key may arrive on a new transport id.
    Accept { allow_new_transport: bool },
    /// Look for the target.
    Resolve,
    /// Dial the resolved target.
    Connect,
    /// Run the handshake.
    Authenticate,
    /// Make the connection available to path queries.
    HoldConnection,
    ReleaseConnection,
    /// Run the clipboard both ways.
    Pump,
    /// Swap identity cards.
    ExchangeCards,
    /// Turn away whoever is still dialing.
    RefuseLatecomers,
    /// Wait before the next attempt.
    WaitToRetry,
    /// Close the connection with a code and a reason.
    Close { code: u32, reason: String },
    CloseEndpoint,
}

/// What an [`Action`] says.
pub enum ActionView {
    Emit(NetEventView),
    Bind,
    StartPublisher,
    Accept { allow_new_transport: bool },
    Resolve,
    Connect,
    Authenticate,
    HoldConnection,
    ReleaseConnection,
    Pump,
    ExchangeCards,
    RefuseLatecomers,
    WaitToRetry,
    Close { code: u32, reason: Seq<char> },
    CloseEndpoint,
}

impl View for Action {
    type V = ActionView;

    open spec fn view(&self) -> ActionView {
        match *self {
            Action::Emit(event) => ActionView::Emit(event@),
            Action::Bind => ActionView::Bind,
            Action::StartPublisher => ActionView::StartPublisher,
            Action::Accept { allow_new_transport } => ActionView::Accept { allow_new_transport },
            Action::Resolve => ActionView::Resolve,
            Action::Connect => ActionView::Connect,
            Action::Authenticate => ActionView::Authenticate,
            Action::HoldConnection => ActionView::HoldConnection,
            Action::ReleaseConnection => ActionView::ReleaseConnection,
            Action::Pump => ActionView::Pump,
            Action::ExchangeCards => ActionView::ExchangeCards,
            Action::RefuseLatecomers => ActionView::RefuseLatecomers,
            Action::WaitToRetry => ActionView::WaitToRetry,
            Action::Close { code, reason } => ActionView::Close { code, reason: reason@ },
            Action::CloseEndpoint => ActionView::CloseEndpoint,
        }
    }
}

/// The views of a list of actions.
pub open spec fn action_views(actions: Seq<Action>) -> Seq<ActionView> {
    actions.map_values(|a: Action| a@)
}

/// The action that reports a status.
pub open spec fn says(status: ConnStatus) -> ActionView {
    ActionView::Emit(NetEventView::Status(status))
}

/// The action that reports an error.
pub open spec fn complains(message: Seq<char>) -> ActionView {
    ActionView::Emit(NetEventView::Error(message))
}

/// A list of actions under construction.
pub struct Actions {
    list: Vec<Action>,
}

impl View for Actions {
    type V = Seq<ActionView>;

    closed spec fn view(&self) -> Seq<ActionView> {
        action_views(self.list@)
    }
}

impl Actions {
    /// Nothing to do.
    pub fn new() -> (r: Actions)
        ensures
            r@ == Seq::<ActionView>::empty(),
    {
        let r = Actions { list: Vec::new() };
        assert(r@ =~= Seq::<ActionView>::empty());
        r
    }

    /// Adds an action.
    pub fn then_do(&mut self, action: Action)
        ensures
            final(self)@ == old(self)@.push(action@),
    {
        self.list.push(action);
        assert(self@ =~= old(self)@.push(action@));
    }

    /// Adds a status report.
    pub fn status(&mut self, status: ConnStatus)
        ensures
            final(self)@ == old(self)@.push(says(status)),
    {
        self.then_do(Action::Emit(NetEvent::Status(status)));
    }

    /// Adds an error report.
    pub fn error(&mut self, message: String)
        ensures
            final(self)@ == old(self)@.push(complains(message@)),
    {
        self.then_do(Action::Emit(NetEvent::Error(message)));
    }

    /// Adds closing the connection.
    pub fn close(&mut self, code: u32, reason: &str)
        ensures
            final(self)@ == old(self)@.push(ActionView::Close { code, reason: reason@ }),
    {
        self.then_do(Action::Close { code, reason: reason.to_owned() });
    }

    /// The finished list.
    pub fn into_list(self) -> (r: Vec<Action>)
        ensures
            action_views(r@) == self@,
    {
        self.list
    }
}

/// What is reported of an endpoint that did not come up.
pub open spec fn failed_to_start(error: Seq<char>) -> Seq<char> {
    "Failed to start: "@ + error
}

/// Renders the report on an endpoint that did not come up.
pub fn start_failure(error: &str) -> (r: String)
    ensures
        r@ == failed_to_start(error@),
{
    let mut out = "Failed to start: ".to_owned();
    out.append(error);
    out
}

/// The views of actions stand in the order of the actions, one for one; an event that is
/// emitted and a connection that is closed keep all that they say.
pub proof fn action_views_keep_every_action(
    actions: Seq<Action>,
    i: int,
    event: NetEvent,
    code: u32,
    reason: String,
)
    ensures
        action_views(actions).len() == actions.len(),
        0 <= i < actions.len() ==> action_views(actions)[i] == actions[i]@,
        Action::Emit(event)@ == ActionView::Emit(event@),
        (Action::Close { code, reason })@ == (ActionView::Close { code, reason: reason@ }),
{
}

} // verus!
