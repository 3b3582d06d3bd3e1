//! One client's side of the protocol: what to do with each frame it sends.
//!
//! A session owns nothing but its identity. It is handed the frames of its
//! connection one by one and answers each with a [`Reaction`] for the caller
//! to carry out.

use crate::clock::get_timestamp;
use crate::codec::{decode, decoded_text, encode, encoded, DecodeError};
use crate::message::{chat_event, system_notice, Action, Message, MessageView};
use vstd::prelude::*;
use vstd::string::StringExecFns;

verus! {

/// A frame as it arrives from a client, reduced to what the session reads.
#[derive(Debug)]
pub enum Frame {
    /// A keepalive probe with its payload.
    Ping(Vec<u8>),
    /// The answer to a probe of ours.
    Pong,
    /// A text frame.
    Text(String),
    /// A binary frame.
    Binary,
    /// The client asks to close.
    Close,
    /// A piece of a fragmented message.
    Continuation,
    /// A frame that carries nothing.
    Nop,
    /// The transport failed or the peer broke the protocol.
    Broken,
}

/// A frame as a mathematical value.
pub enum FrameView {
    Ping(Seq<u8>),
    Pong,
    Text(Seq<char>),
    Binary,
    Close,
    Continuation,
    Nop,
    Broken,
}

impl View for Frame {
    type V = FrameView;

    open spec fn view(&self) -> FrameView {
        match self {
            Frame::Ping(payload) => FrameView::Ping(payload@),
            Frame::Pong => FrameView::Pong,
            Frame::Text(text) => FrameView::Text(text@),
            Frame::Binary => FrameView::Binary,
            Frame::Close => FrameView::Close,
            Frame::Continuation => FrameView::Continuation,
            Frame::Nop => FrameView::Nop,
            Frame::Broken => FrameView::Broken,
        }
    }
}

/// What the caller is to do in answer to a frame.
#[derive(Debug)]
pub enum Reaction {
    /// Answer the probe, with the payload it came with.
    Pong(Vec<u8>),
    /// Do nothing.
    Nothing,
    /// Hand the event to the registry, for everyone.
    Broadcast(Message),
    /// Write the payload to this client, and to this client only. The
    /// complaint says why its frame was refused; it is for the log, not for
    /// the wire.
    Reply { payload: String, complaint: String },
    /// Acknowledge the close, then end the session.
    Close,
    /// End the session.
    Stop,
}

/// A reaction as a mathematical value.
pub enum ReactionView {
    Pong(Seq<u8>),
    Nothing,
    Broadcast(MessageView),
    Reply { payload: Seq<char>, complaint: Seq<char> },
    Close,
    Stop,
}

impl View for Reaction {
    type V = ReactionView;

    open spec fn view(&self) -> ReactionView {
        match self {
            Reaction::Pong(payload) => ReactionView::Pong(payload@),
            Reaction::Nothing => ReactionView::Nothing,
            Reaction::Broadcast(event) => ReactionView::Broadcast(event@),
            Reaction::Reply { payload, complaint } => ReactionView::Reply {
                payload: payload@,
                complaint: complaint@,
            },
            Reaction::Close => ReactionView::Close,
            Reaction::Stop => ReactionView::Stop,
        }
    }
}

/// The notice a client gets back for a text frame that cannot be read.
pub open spec fn bad_message_notice(now: u64) -> MessageView {
    system_notice(Action::Error, "bad message"@, now)
}

/// The reaction to a text frame, given what decoding made of it. A frame
/// that was read is passed on as a chat event: only its contents are kept,
/// the sender is this session and the time is the server's. A frame that was
/// refused is answered to the client alone, with the error notice; the
/// complaint about the frame goes along for the caller's log.
pub open spec fn reaction_to_decoded(
    identity: Seq<char>,
    decoded: Result<MessageView, Seq<char>>,
    now: u64,
) -> ReactionView {
    match decoded {
        Ok(message) => ReactionView::Broadcast(chat_event(identity, message.contents, now)),
        Err(complaint) => ReactionView::Reply {
            payload: encoded(bad_message_notice(now)),
            complaint,
        },
    }
}

/// The reaction of the session of `identity` to `frame` at the time `now`.
pub open spec fn reaction(identity: Seq<char>, frame: FrameView, now: u64) -> ReactionView {
    match frame {
        FrameView::Ping(payload) => ReactionView::Pong(payload),
        FrameView::Pong => ReactionView::Nothing,
        FrameView::Text(text) => reaction_to_decoded(identity, decoded_text(text), now),
        FrameView::Binary => ReactionView::Nothing,
        FrameView::Close => ReactionView::Close,
        FrameView::Continuation => ReactionView::Stop,
        FrameView::Nop => ReactionView::Nothing,
        FrameView::Broken => ReactionView::Stop,
    }
}

/// `uuid::Uuid::new_v4`, written out by the `Display` of `Uuid`: a random
/// identifier in its hyphenated form, which is 36 characters long. Nothing
/// else is claimed of it; the call panics if the system has no randomness to
/// give.
#[verifier::external_body]
fn fresh_identity() -> (identity: String)
    ensures
        identity@.len() == 36,
{
    uuid::Uuid::new_v4().to_string()
}

/// The per-connection protocol state: the identity the connection was given.
#[derive(Debug)]
pub struct Session {
    identity: String,
}

impl View for Session {
    type V = Seq<char>;

    /// A session is known by its identity.
    closed spec fn view(&self) -> Seq<char> {
        self.identity@
    }
}

impl Session {
    /// A session under a freshly drawn identity of 36 characters.
    pub fn new() -> (session: Session)
        ensures
            session@.len() == 36,
    {
        Session::with_identity(fresh_identity())
    }

    /// A session under the given identity.
    pub fn with_identity(identity: String) -> (session: Session)
        ensures
            session@ == identity@,
    {
        Session { identity }
    }

    /// The identity of this session: its key in the registry and the sender
    /// of what it passes on.
    pub fn identity(&self) -> (identity: &str)
        ensures
            identity@ == self@,
    {
        self.identity.as_str()
    }

    /// Reacts to a text frame, given what decoding made of it.
    pub fn on_decoded(&self, outcome: Result<Message, DecodeError>, now: u64) -> (answer: Reaction)
        ensures
            match outcome {
                Ok(message) => answer@ == reaction_to_decoded(
                    self@,
                    Ok::<MessageView, Seq<char>>(message@),
                    now,
                ),
                Err(DecodeError::InvalidFormat(complaint)) => answer@ == reaction_to_decoded(
                    self@,
                    Err::<MessageView, Seq<char>>(complaint@),
                    now,
                ),
            },
    {
        match outcome {
            Ok(message) => Reaction::Broadcast(
                Message::chat_at(self.identity.clone(), message.contents, now),
            ),
            Err(DecodeError::InvalidFormat(complaint)) => {
                let notice = Message::system_at(Action::Error, String::from_str("bad message"), now);
                Reaction::Reply { payload: encode(&notice), complaint }
            },
        }
    }

    /// Reacts to a frame at the time `now`.
    pub fn handle_at(&self, frame: Frame, now: u64) -> (answer: Reaction)
        ensures
            answer@ == reaction(self@, frame@, now),
    {
        match frame {
            Frame::Ping(payload) => Reaction::Pong(payload),
            Frame::Pong => Reaction::Nothing,
            Frame::Text(text) => self.on_decoded(decode(text.as_str()), now),
            Frame::Binary => Reaction::Nothing,
            Frame::Close => Reaction::Close,
            Frame::Continuation => Reaction::Stop,
            Frame::Nop => Reaction::Nothing,
            Frame::Broken => Reaction::Stop,
        }
    }

    /// Reacts to a frame, stamping what it makes with the current time. The
    /// reaction is that of [`Session::handle_at`] for whatever time the clock
    /// gave; the clock is read for text frames only.
    pub fn handle(&self, frame: Frame) -> (answer: Reaction)
        ensures
            exists|now: u64| answer@ == #[trigger] reaction(self@, frame@, now),
    {
        let ghost seen = frame@;
        let now = match &frame {
            Frame::Text(_) => get_timestamp(),
            _ => 0,
        };
        let answer = self.handle_at(frame, now);
        assert(answer@ == reaction(self@, seen, now));
        answer
    }
}

/// A close frame is acknowledged and ends the session; a continuation frame
/// and a broken transport end it without more ado; no other frame ends it.
pub proof fn lemma_session_ends(identity: Seq<char>, frame: FrameView, now: u64)
    ensures
        (reaction(identity, frame, now) is Close) <==> (frame is Close),
        (reaction(identity, frame, now) is Stop) <==> (frame is Continuation || frame is Broken),
{
}

/// A text frame that is refused is answered with the error notice: the
/// reaction is a reply to its sender, not a broadcast, and it carries the
/// complaint about the frame.
pub proof fn lemma_refused_frame_is_answered(identity: Seq<char>, text: Seq<char>, now: u64)
    requires
        decoded_text(text) is Err,
    ensures
        reaction(identity, FrameView::Text(text), now) == (ReactionView::Reply {
            payload: encoded(bad_message_notice(now)),
            complaint: decoded_text(text)->Err_0,
        }),
{
}

/// A text frame that is read goes out under the session's own identity and
/// the server's time as a `Chat` event: whatever sender, action and timestamp
/// the client wrote are dropped.
pub proof fn lemma_sender_is_overwritten(identity: Seq<char>, text: Seq<char>, now: u64)
    requires
        decoded_text(text) is Ok,
    ensures
        reaction(identity, FrameView::Text(text), now) matches ReactionView::Broadcast(event)
            && event.sender == identity && event.action == Action::Chat && event.timestamp == now
            && event.contents == decoded_text(text)->Ok_0.contents,
{
}

} // verus!
