//! The chat event and its action tag.

pub use crate::clock::get_timestamp;
use crate::text::same_text;
use vstd::prelude::*;
use vstd::string::StringExecFns;

verus! {

/// What kind of event a message is.
#[derive(Clone, Copy, Debug, PartialEq, Eq, Structural)]
pub enum Action {
    Connect,
    Chat,
    Disconnect,
    Error,
}

/// The action of a message that names none.
pub fn action_chat() -> (action: Action)
    ensures
        action == Action::Chat,
{
    Action::Chat
}

/// The token an action is written as on the wire. The token for `Disconnect`
/// is spelled with a doubled `c`; deployed clients expect it that way.
pub open spec fn written_token(action: Action) -> Seq<char> {
    match action {
        Action::Connect => "connect"@,
        Action::Chat => "chat"@,
        Action::Disconnect => "discconnect"@,
        Action::Error => "error"@,
    }
}

/// The action a token read from the wire stands for, if any. Tokens are case
/// sensitive. Reading takes the regular spelling of `disconnect`.
pub open spec fn read_token(token: Seq<char>) -> Option<Action> {
    if token == "connect"@ {
        Some(Action::Connect)
    } else if token == "chat"@ {
        Some(Action::Chat)
    } else if token == "error"@ {
        Some(Action::Error)
    } else if token == "disconnect"@ {
        Some(Action::Disconnect)
    } else {
        None
    }
}

/// The complaint about a token that stands for no action.
pub open spec fn token_complaint(token: Seq<char>) -> Seq<char> {
    "invalid value: "@ + token
}

impl Action {
    /// The token this action is written as on the wire.
    pub fn as_str(self) -> (token: &'static str)
        ensures
            token@ == written_token(self),
    {
        match self {
            Action::Connect => "connect",
            Action::Chat => "chat",
            Action::Disconnect => "discconnect",
            Action::Error => "error",
        }
    }

    /// Reads an action from its wire token. Any text but the four tokens is
    /// refused, with a complaint that quotes it.
    pub fn from_str(s: &str) -> (parsed: Result<Action, String>)
        ensures
            match parsed {
                Ok(action) => read_token(s@) == Some(action),
                Err(complaint) => read_token(s@).is_none() && complaint@ == token_complaint(s@),
            },
    {
        if same_text(s, "connect") {
            Ok(Action::Connect)
        } else if same_text(s, "chat") {
            Ok(Action::Chat)
        } else if same_text(s, "error") {
            Ok(Action::Error)
        } else if same_text(s, "disconnect") {
            Ok(Action::Disconnect)
        } else {
            Err(String::from_str("invalid value: ").concat(s))
        }
    }
}

impl std::str::FromStr for Action {
    type Err = String;

    /// Reads an action from its wire token, as [`Action::from_str`] does:
    /// this is what `parse` on a string slice arrives at.
    fn from_str(s: &str) -> (parsed: Result<Action, String>)
        ensures
            match parsed {
                Ok(action) => read_token(s@) == Some(action),
                Err(complaint) => read_token(s@).is_none() && complaint@ == token_complaint(s@),
            },
    {
        Action::from_str(s)
    }
}

/// A chat event: who sent it, what kind it is, what it says, and when the
/// server made it.
#[derive(Debug)]
pub struct Message {
    pub sender: String,
    pub action: Action,
    pub contents: String,
    pub timestamp: u64,
}

/// A chat event as a mathematical value.
pub struct MessageView {
    pub sender: Seq<char>,
    pub action: Action,
    pub contents: Seq<char>,
    pub timestamp: u64,
}

impl View for Message {
    type V = MessageView;

    open spec fn view(&self) -> MessageView {
        MessageView {
            sender: self.sender@,
            action: self.action,
            contents: self.contents@,
            timestamp: self.timestamp,
        }
    }
}

/// The notice the server itself sends: its sender is the word `system`.
pub open spec fn system_notice(action: Action, contents: Seq<char>, timestamp: u64) -> MessageView {
    MessageView { sender: "system"@, action, contents, timestamp }
}

/// The event that carries a client's text to everyone.
pub open spec fn chat_event(sender: Seq<char>, contents: Seq<char>, timestamp: u64) -> MessageView {
    MessageView { sender, action: Action::Chat, contents, timestamp }
}

impl Message {
    /// A system notice stamped with the given time.
    pub fn system_at(action: Action, contents: String, timestamp: u64) -> (notice: Message)
        ensures
            notice@ == system_notice(action, contents@, timestamp),
    {
        Message { sender: String::from_str("system"), action, contents, timestamp }
    }

    /// A chat event from `sender`, stamped with the given time.
    pub fn chat_at(sender: String, contents: String, timestamp: u64) -> (event: Message)
        ensures
            event@ == chat_event(sender@, contents@, timestamp),
    {
        Message { sender, action: Action::Chat, contents, timestamp }
    }

    /// A system notice stamped with the current time. The stamp is whatever
    /// the clock says; the rest is fixed.
    pub fn new_system(action: Action, contents: String) -> (notice: Message)
        ensures
            notice@ == system_notice(action, contents@, notice.timestamp),
    {
        Message::system_at(action, contents, get_timestamp())
    }

    /// A chat event from `sender`, stamped with the current time. The stamp
    /// is whatever the clock says; the rest is fixed.
    pub fn new_chat(sender: String, contents: String) -> (event: Message)
        ensures
            event@ == chat_event(sender@, contents@, event.timestamp),
    {
        Message::chat_at(sender, contents, get_timestamp())
    }
}

} // verus!
