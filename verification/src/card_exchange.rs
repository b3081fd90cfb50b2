//! Card setup's payload step: two devices that authenticated with a PIN swap their signed
//! identity cards.
//!
//! Both sides send their card at once and then read the other's. A side finishes its
//! stream only when it holds the other's card, so the end of the peer's stream tells that
//! the peer holds this one, and that the connection can be closed. What is received
//! grants no trust: it is parsed like a pasted card, and a human compares codes.

use vstd::prelude::*;
use vstd::string::*;

use crate::auth::{card_of_text, CardView, IdentityCard};

verus! {

/// How many bytes to absorb while waiting for the end of the peer's stream.
pub const MAX_TRAILING_BYTES: u64 = 1024;

/// Where an exchange stands.
pub enum ExchangeView {
    /// The own card is being sent.
    Sending,
    /// The peer's card is awaited.
    Reading,
    /// The peer's card is there, and the own stream is being finished.
    Finishing(CardView),
    /// The end of the peer's stream is awaited.
    Draining(CardView),
    /// The exchange is over.
    Over,
}

/// What the connection reported.
pub enum ExchangeEvent {
    /// The own card is sent and flushed.
    Sent,
    /// The peer's offer arrived: the text of a card.
    Offered(String),
    /// The own stream is finished.
    Finished,
    /// The peer's stream ended, or broke, or held more than it should.
    PeerEnded,
    /// A step failed.
    Failed(String),
}

/// The content of an event.
pub enum ExchangeEventView {
    Sent,
    Offered(Seq<char>),
    Finished,
    PeerEnded,
    Failed(Seq<char>),
}

impl View for ExchangeEvent {
    type V = ExchangeEventView;

    open spec fn view(&self) -> ExchangeEventView {
        match *self {
            ExchangeEvent::Sent => ExchangeEventView::Sent,
            ExchangeEvent::Offered(text) => ExchangeEventView::Offered(text@),
            ExchangeEvent::Finished => ExchangeEventView::Finished,
            ExchangeEvent::PeerEnded => ExchangeEventView::PeerEnded,
            ExchangeEvent::Failed(e) => ExchangeEventView::Failed(e@),
        }
    }
}

/// What to do next.
pub enum ExchangeAction {
    /// Read the peer's offer.
    ReadOffer,
    /// Finish the own stream.
    Finish,
    /// Wait for the end of the peer's stream, for at most so many bytes.
    AwaitEnd(u64),
    /// The exchange is done: here is the peer's card. The connection may be closed.
    Done(IdentityCard),
    /// The exchange failed.
    Fail(String),
}

/// The content of an action.
pub enum ExchangeActionView {
    ReadOffer,
    Finish,
    AwaitEnd(u64),
    Done(CardView),
    Fail(Seq<char>),
}

impl View for ExchangeAction {
    type V = ExchangeActionView;

    open spec fn view(&self) -> ExchangeActionView {
        match *self {
            ExchangeAction::ReadOffer => ExchangeActionView::ReadOffer,
            ExchangeAction::Finish => ExchangeActionView::Finish,
            ExchangeAction::AwaitEnd(n) => ExchangeActionView::AwaitEnd(n),
            ExchangeAction::Done(card) => ExchangeActionView::Done(card@),
            ExchangeAction::Fail(e) => ExchangeActionView::Fail(e@),
        }
    }
}

/// The step that an exchange takes on an event: its next state and what to do.
pub open spec fn exchange_step(state: ExchangeView, event: ExchangeEventView) -> (
    ExchangeView,
    ExchangeActionView,
) {
    match (state, event) {
        (ExchangeView::Draining(card), ExchangeEventView::PeerEnded) => (
            ExchangeView::Over,
            ExchangeActionView::Done(card),
        ),
        (ExchangeView::Draining(card), ExchangeEventView::Failed(_)) => (
            ExchangeView::Over,
            ExchangeActionView::Done(card),
        ),
        (_, ExchangeEventView::Failed(e)) => (ExchangeView::Over, ExchangeActionView::Fail(e)),
        (ExchangeView::Sending, ExchangeEventView::Sent) => (
            ExchangeView::Reading,
            ExchangeActionView::ReadOffer,
        ),
        (ExchangeView::Reading, ExchangeEventView::Offered(text)) => match card_of_text(text) {
            Ok(card) => (ExchangeView::Finishing(card), ExchangeActionView::Finish),
            Err(_) => (
                ExchangeView::Over,
                ExchangeActionView::Fail("the peer offered an invalid identity card"@),
            ),
        },
        (ExchangeView::Finishing(card), ExchangeEventView::Finished) => (
            ExchangeView::Draining(card),
            ExchangeActionView::AwaitEnd(MAX_TRAILING_BYTES),
        ),
        _ => (
            ExchangeView::Over,
            ExchangeActionView::Fail("the identity-card exchange is out of step"@),
        ),
    }
}

enum ExchangeState {
    Sending,
    Reading,
    Finishing(IdentityCard),
    Draining(IdentityCard),
    Over,
}

/// An exchange of cards. It starts out with sending the own card.
pub struct CardExchange {
    state: ExchangeState,
}

impl View for CardExchange {
    type V = ExchangeView;

    closed spec fn view(&self) -> ExchangeView {
        match self.state {
            ExchangeState::Sending => ExchangeView::Sending,
            ExchangeState::Reading => ExchangeView::Reading,
            ExchangeState::Finishing(card) => ExchangeView::Finishing(card@),
            ExchangeState::Draining(card) => ExchangeView::Draining(card@),
            ExchangeState::Over => ExchangeView::Over,
        }
    }
}

impl CardExchange {
    /// Starts an exchange: the first thing to do is to send the text of the own card.
    pub fn start(own_card: &IdentityCard) -> (r: (CardExchange, String))
        ensures
            r.0@ == ExchangeView::Sending,
            r.1@ == own_card@.json,
            card_of_text(r.1@) == Ok::<CardView, Seq<char>>(own_card@),
    {
        (CardExchange { state: ExchangeState::Sending }, own_card.encode())
    }

    /// Takes an event and says what to do next.
    pub fn handle(&mut self, event: ExchangeEvent) -> (r: ExchangeAction)
        ensures
            (final(self)@, r@) == exchange_step(old(self)@, event@),
    {
        let mut state = ExchangeState::Over;
        core::mem::swap(&mut state, &mut self.state);
        match (state, event) {
            (ExchangeState::Draining(card), ExchangeEvent::PeerEnded) => ExchangeAction::Done(card),
            (ExchangeState::Draining(card), ExchangeEvent::Failed(_)) => ExchangeAction::Done(card),
            (_, ExchangeEvent::Failed(e)) => ExchangeAction::Fail(e),
            (ExchangeState::Sending, ExchangeEvent::Sent) => {
                self.state = ExchangeState::Reading;
                ExchangeAction::ReadOffer
            },
            (ExchangeState::Reading, ExchangeEvent::Offered(text)) => match IdentityCard::parse(
                text.as_str(),
            ) {
                Ok(card) => {
                    self.state = ExchangeState::Finishing(card);
                    ExchangeAction::Finish
                },
                Err(_) => ExchangeAction::Fail(
                    "the peer offered an invalid identity card".to_owned(),
                ),
            },
            (ExchangeState::Finishing(card), ExchangeEvent::Finished) => {
                self.state = ExchangeState::Draining(card);
                ExchangeAction::AwaitEnd(MAX_TRAILING_BYTES)
            },
            _ => ExchangeAction::Fail("the identity-card exchange is out of step".to_owned()),
        }
    }
}

/// Whether the state of an exchange holds only cards that some text stands for.
pub open spec fn holds_verified_card(state: ExchangeView) -> bool {
    match state {
        ExchangeView::Finishing(card) => exists|text: Seq<char>|
            #[trigger] card_of_text(text) == Ok::<CardView, Seq<char>>(card),
        ExchangeView::Draining(card) => exists|text: Seq<char>|
            #[trigger] card_of_text(text) == Ok::<CardView, Seq<char>>(card),
        _ => true,
    }
}

/// Only a card that passed the same verification as a pasted one is ever held, the own
/// stream is finished only once it is there, and the exchange is done only after that.
pub proof fn only_verified_cards_are_exchanged(state: ExchangeView, event: ExchangeEventView)
    requires
        holds_verified_card(state),
    ensures
        ({
            let (next, action) = exchange_step(state, event);
            &&& holds_verified_card(next)
            &&& action is Finish ==> next is Finishing
            &&& action is Done ==> state == ExchangeView::Draining(action->Done_0)
            &&& action matches ExchangeActionView::Done(card) ==> exists|text: Seq<char>|
                #[trigger] card_of_text(text) == Ok::<CardView, Seq<char>>(card)
        }),
{
    match event {
        ExchangeEventView::Offered(text) => {
            assert(card_of_text(text) == card_of_text(text));
        },
        _ => {},
    }
}

/// What the peer sends is what this side gets: an exchange that goes through hands out
/// the very card whose text the peer offered.
pub proof fn the_offered_card_arrives(text: Seq<char>, card: CardView)
    requires
        card_of_text(text) == Ok::<CardView, Seq<char>>(card),
    ensures
        ({
            let (s1, a1) = exchange_step(ExchangeView::Sending, ExchangeEventView::Sent);
            let (s2, a2) = exchange_step(s1, ExchangeEventView::Offered(text));
            let (s3, a3) = exchange_step(s2, ExchangeEventView::Finished);
            let (s4, a4) = exchange_step(s3, ExchangeEventView::PeerEnded);
            &&& a1 == ExchangeActionView::ReadOffer
            &&& a2 == ExchangeActionView::Finish
            &&& a3 == ExchangeActionView::AwaitEnd(MAX_TRAILING_BYTES)
            &&& a4 == ExchangeActionView::Done(card)
        }),
{
}

/// A failure before the peer's card is there ends the exchange with that very failure; one
/// after this side has finished changes nothing, since the peer has this side's card or will
/// not read it any more.
pub proof fn a_failed_exchange_says_why(state: ExchangeView, e: Seq<char>, card: CardView)
    ensures
        !(state is Draining) ==> exchange_step(state, ExchangeEventView::Failed(e)) == (
            ExchangeView::Over,
            ExchangeActionView::Fail(e),
        ),
        exchange_step(ExchangeView::Draining(card), ExchangeEventView::Failed(e)) == (
            ExchangeView::Over,
            ExchangeActionView::Done(card),
        ),
        exchange_step(ExchangeView::Draining(card), ExchangeEventView::PeerEnded) == (
            ExchangeView::Over,
            ExchangeActionView::Done(card),
        ),
{
}

/// A text that is no card ends the exchange, and so does every event out of its order; no
/// card comes of either.
pub proof fn out_of_step_exchanges_fail(
    state: ExchangeView,
    event: ExchangeEventView,
    text: Seq<char>,
)
    requires
        !(event is Failed),
        match state {
            ExchangeView::Sending => !(event is Sent),
            ExchangeView::Reading => !(event is Offered),
            ExchangeView::Finishing(_) => !(event is Finished),
            ExchangeView::Draining(_) => !(event is PeerEnded),
            ExchangeView::Over => true,
        },
    ensures
        exchange_step(state, event) == (
            ExchangeView::Over,
            ExchangeActionView::Fail("the identity-card exchange is out of step"@),
        ),
        card_of_text(text) is Err ==> exchange_step(
            ExchangeView::Reading,
            ExchangeEventView::Offered(text),
        ) == (
            ExchangeView::Over,
            ExchangeActionView::Fail("the peer offered an invalid identity card"@),
        ),
{
}

} // verus!
