//! The clipboard pump: what goes out on an open session stream, and what comes in.
//!
//! Whenever the stream opens or opens again, each side first asks for the latest item
//! that the other sent this session. What was sent while the connection was down is so
//! delivered again, marked for the receiver to drop where it holds it already.

use vstd::prelude::*;
use vstd::string::*;

use crate::json::{
    escaped_length_bounds, joined, member_text, member_texts, members_text, object_text, quoted,
    value_text, JsonValue,
};
use crate::net::{NetEvent, NetEventView};
use crate::protocol::{
    decode_clip_msg, decoded, encode_clip_msg, encoded, outcome, ClipBody, ClipBodyView, ClipMsg,
    ClipMsgView, Message, DUOCB_PROTO_VERSION, MAX_CLIP_MESSAGE_SIZE,
};
use crate::text::encoded_length_bounds;

verus! {

/// The item that a session sent last, and when; it is kept across reconnects.
pub struct ClipboardPump {
    last_sent: Option<(String, u64)>,
}

impl View for ClipboardPump {
    type V = Option<(Seq<char>, u64)>;

    closed spec fn view(&self) -> Option<(Seq<char>, u64)> {
        match self.last_sent {
            Some((text, at)) => Some((text@, at)),
            None => None,
        }
    }
}

/// The frame of an item.
pub open spec fn item_frame(text: Seq<char>, at: u64) -> Result<Seq<u8>, Seq<char>> {
    encoded::<ClipMsg>(
        ClipMsgView {
            version: DUOCB_PROTO_VERSION,
            body: ClipBodyView::Item { text, sent_at_ms: at },
        },
        MAX_CLIP_MESSAGE_SIZE as nat,
    )
}

/// The frame of a re-delivery.
pub open spec fn latest_frame(text: Seq<char>, at: u64) -> Result<Seq<u8>, Seq<char>> {
    encoded::<ClipMsg>(
        ClipMsgView {
            version: DUOCB_PROTO_VERSION,
            body: ClipBodyView::Latest { text, sent_at_ms: at },
        },
        MAX_CLIP_MESSAGE_SIZE as nat,
    )
}

/// The request for the peer's latest item.
pub open spec fn pull_message() -> ClipMsgView {
    ClipMsgView { version: DUOCB_PROTO_VERSION, body: ClipBodyView::PullLatest }
}

/// The request for the peer's latest item fits a frame, so a stream can always be opened
/// with it.
pub proof fn the_request_fits()
    ensures
        encoded::<ClipMsg>(pull_message(), MAX_CLIP_MESSAGE_SIZE as nat) is Ok,
{
    let fields = ClipMsg::fields_of(pull_message());
    let m = member_texts(fields);
    reveal_strlit("version");
    reveal_strlit("kind");
    reveal_strlit("pull_latest");
    escaped_length_bounds("version"@);
    escaped_length_bounds("kind"@);
    escaped_length_bounds("pull_latest"@);
    assert(m[0] == ("version"@, value_text(JsonValue::Unsigned(DUOCB_PROTO_VERSION as u64))));
    assert(m[1] == ("kind"@, quoted("pull_latest"@)));
    assert(m.drop_last() =~= seq![m[0]]);
    assert(joined(m.drop_last()) == member_text(m[0]));
    assert(object_text(fields).len() <= 1000) by {
        reveal(members_text);
    }
    encoded_length_bounds(object_text(fields));
}

/// What is reported of an item that is too large to send.
pub open spec fn not_sent(error: Seq<char>) -> Seq<char> {
    "Not sent — "@ + error + " (limit 1024 KiB)"@
}

/// What the pump does with a received frame.
pub enum Incoming {
    /// Report an item to the user interface.
    Emit(NetEvent),
    /// The peer asked for the latest item: answer with this frame, or not at all.
    Answer(Option<Vec<u8>>),
}

/// The answer to a request for the latest item: none where nothing was sent yet, or
/// where the item does not fit a re-delivery.
pub open spec fn pull_answer(last: Option<(Seq<char>, u64)>) -> Option<Seq<u8>> {
    match last {
        Some((text, at)) => match latest_frame(text, at) {
            Ok(frame) => Some(frame),
            Err(_) => None,
        },
        None => None,
    }
}

/// The view of an optional frame.
pub open spec fn frame_view(f: Option<Vec<u8>>) -> Option<Seq<u8>> {
    match f {
        Some(f) => Some(f@),
        None => None,
    }
}

/// Whether `r` is the right reaction to `frame` after `last` was sent: an item is
/// reported as new, a re-delivery as pulled, a request is answered, and anything else
/// ends the stream with the decoder's error.
pub open spec fn reacts(
    frame: Seq<u8>,
    last: Option<(Seq<char>, u64)>,
    r: Result<Incoming, String>,
) -> bool {
    match decoded::<ClipMsg>(frame, MAX_CLIP_MESSAGE_SIZE as nat) {
        Err(e) => r is Err && r->Err_0@ == e,
        Ok(m) => match m.body {
            ClipBodyView::Item { text, .. } => {
                r matches Ok(Incoming::Emit(event)) && event@ == NetEventView::ItemReceived {
                    text,
                    pulled: false,
                }
            },
            ClipBodyView::Latest { text, .. } => {
                r matches Ok(Incoming::Emit(event)) && event@ == NetEventView::ItemReceived {
                    text,
                    pulled: true,
                }
            },
            ClipBodyView::PullLatest => {
                r matches Ok(Incoming::Answer(answer)) && frame_view(answer) == pull_answer(last)
            },
        },
    }
}

impl ClipboardPump {
    /// A session that has sent nothing yet.
    pub fn new() -> (r: ClipboardPump)
        ensures
            r@ is None,
    {
        ClipboardPump { last_sent: None }
    }

    /// The frame that opens every stream: the request for the peer's latest item.
    pub fn opening_frame() -> (r: Result<Vec<u8>, String>)
        ensures
            r is Ok,
            outcome(r) == encoded::<ClipMsg>(pull_message(), MAX_CLIP_MESSAGE_SIZE as nat),
    {
        proof {
            the_request_fits();
        }
        encode_clip_msg(&ClipMsg::pull_latest())
    }

    /// Prepares an item for sending: its frame, or the event that reports it as too
    /// large. Nothing is written in that case, and the session goes on.
    pub fn prepare_item(&self, text: &str, now_ms: u64) -> (r: Result<Vec<u8>, NetEvent>)
        ensures
            match (item_frame(text@, now_ms), r) {
                (Ok(frame), Ok(f)) => f@ == frame,
                (Err(e), Err(event)) => event@ == NetEventView::Error(not_sent(e)),
                _ => false,
            },
    {
        match encode_clip_msg(&ClipMsg::item(text, now_ms)) {
            Ok(frame) => Ok(frame),
            Err(e) => {
                let mut message = "Not sent — ".to_owned();
                message.append(e.as_str());
                message.append(" (limit 1024 KiB)");
                Err(NetEvent::Error(message))
            },
        }
    }

    /// Notes that an item was written to the stream.
    pub fn item_written(&mut self, text: String, now_ms: u64) -> (r: NetEvent)
        ensures
            final(self)@ == Some((text@, now_ms)),
            r@ == NetEventView::ItemSent,
    {
        self.last_sent = Some((text, now_ms));
        NetEvent::ItemSent
    }

    /// The answer to a request for the latest item, if there is one to give.
    pub fn answer_pull(&self) -> (r: Option<Vec<u8>>)
        ensures
            frame_view(r) == pull_answer(self@),
    {
        match &self.last_sent {
            Some((text, at)) => match encode_clip_msg(&ClipMsg::latest(text.as_str(), *at)) {
                Ok(frame) => Some(frame),
                Err(_) => None,
            },
            None => None,
        }
    }

    /// Takes a received frame. An error ends the stream.
    pub fn on_frame(&self, frame: &[u8]) -> (r: Result<Incoming, String>)
        ensures
            reacts(frame@, self@, r),
            forall|text: Seq<char>, at: u64|
                #[trigger] item_frame(text, at) == Ok::<Seq<u8>, Seq<char>>(frame@) ==> (
                r matches Ok(Incoming::Emit(event)) && event@ == NetEventView::ItemReceived {
                    text,
                    pulled: false,
                }),
            forall|text: Seq<char>, at: u64|
                #[trigger] latest_frame(text, at) == Ok::<Seq<u8>, Seq<char>>(frame@) ==> (
                r matches Ok(Incoming::Emit(event)) && event@ == NetEventView::ItemReceived {
                    text,
                    pulled: true,
                }),
            encoded::<ClipMsg>(pull_message(), MAX_CLIP_MESSAGE_SIZE as nat) == Ok::<
                Seq<u8>,
                Seq<char>,
            >(frame@) ==> (r matches Ok(Incoming::Answer(answer)) && frame_view(answer)
                == pull_answer(self@)),
    {
        match decode_clip_msg(frame) {
            Err(e) => Err(e),
            Ok(msg) => match msg.body {
                ClipBody::Item { text, sent_at_ms: _ } => Ok(
                    Incoming::Emit(NetEvent::ItemReceived { text, pulled: false }),
                ),
                ClipBody::PullLatest => Ok(Incoming::Answer(self.answer_pull())),
                ClipBody::Latest { text, sent_at_ms: _ } => Ok(
                    Incoming::Emit(NetEvent::ItemReceived { text, pulled: true }),
                ),
            },
        }
    }
}

/// What is reported of a received frame: an item as new, a re-delivery as pulled, each with
/// the very text that was sent; a request is answered with the item that was sent last, if
/// any was; and a frame that is no message ends the stream.
pub proof fn received_items_are_reported(
    frame: Seq<u8>,
    last: Option<(Seq<char>, u64)>,
    r: Result<Incoming, String>,
    version: u16,
    text: Seq<char>,
    at: u64,
)
    requires
        reacts(frame, last, r),
    ensures
        decoded::<ClipMsg>(frame, 1048576) == Ok::<ClipMsgView, Seq<char>>(
            ClipMsgView { version, body: ClipBodyView::Item { text, sent_at_ms: at } },
        ) ==> (r matches Ok(Incoming::Emit(event)) && event@ == (NetEventView::ItemReceived {
            text,
            pulled: false,
        })),
        decoded::<ClipMsg>(frame, 1048576) == Ok::<ClipMsgView, Seq<char>>(
            ClipMsgView { version, body: ClipBodyView::Latest { text, sent_at_ms: at } },
        ) ==> (r matches Ok(Incoming::Emit(event)) && event@ == (NetEventView::ItemReceived {
            text,
            pulled: true,
        })),
        decoded::<ClipMsg>(frame, 1048576) == Ok::<ClipMsgView, Seq<char>>(
            ClipMsgView { version, body: ClipBodyView::PullLatest },
        ) ==> (r matches Ok(Incoming::Answer(answer)) && frame_view(answer) == pull_answer(last)),
        decoded::<ClipMsg>(frame, 1048576) is Err <==> r is Err,
{
}

/// What was sent last is what a request gets: after an item with some text and time, the
/// answer is a re-delivery of that text and time wherever such a message fits, and before
/// any item there is none. An item goes out wherever its message fits.
pub proof fn the_last_item_is_delivered_again(text: Seq<char>, at: u64)
    ensures
        pull_answer(None) is None,
        ({
            let again = ClipMsgView {
                version: 2,
                body: ClipBodyView::Latest { text, sent_at_ms: at },
            };
            match pull_answer(Some((text, at))) {
                Some(f) => encoded::<ClipMsg>(again, 1048576) == Ok::<Seq<u8>, Seq<char>>(f),
                None => encoded::<ClipMsg>(again, 1048576) is Err,
            }
        }),
        item_frame(text, at) == encoded::<ClipMsg>(
            ClipMsgView { version: 2, body: ClipBodyView::Item { text, sent_at_ms: at } },
            1048576,
        ),
        not_sent(text) == "Not sent — "@ + text + " (limit 1024 KiB)"@,
        pull_message() == (ClipMsgView { version: 2, body: ClipBodyView::PullLatest }),
{
}

} // verus!
