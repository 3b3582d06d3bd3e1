//! The wire form of a chat event: a JSON object with the members `sender`,
//! `action`, `contents` and `timestamp`.
//!
//! JSON itself is left to `serde_json`: it parses a frame into the members of
//! an object and it quotes strings. Which members a message has, what they
//! default to and when a frame is refused is decided here.

use crate::message::{
    action_chat, read_token, token_complaint, written_token, Action, Message, MessageView,
};
use crate::text::{decimal, decimal_text, same_text};
use vstd::prelude::*;
use vstd::string::StringExecFns;

verus! {

/// What a member of a parsed JSON object holds, as far as the codec reads it.
#[derive(Debug)]
pub enum Member {
    /// A JSON string.
    Text(String),
    /// A JSON number, with its value where that is an unsigned 64-bit integer.
    Number(Option<u64>),
    /// Anything else: `null`, a boolean, an array or an object.
    Other,
}

/// A member as a mathematical value.
pub enum MemberView {
    Text(Seq<char>),
    Number(Option<u64>),
    Other,
}

impl View for Member {
    type V = MemberView;

    open spec fn view(&self) -> MemberView {
        match self {
            Member::Text(text) => MemberView::Text(text@),
            Member::Number(value) => MemberView::Number(*value),
            Member::Other => MemberView::Other,
        }
    }
}

/// The members of an object as mathematical values, in the same order.
pub open spec fn members_view(members: Seq<(String, Member)>) -> Seq<(Seq<char>, MemberView)> {
    members.map_values(|entry: (String, Member)| (entry.0@, entry.1@))
}

/// Why a frame was refused.
#[derive(Debug)]
pub enum DecodeError {
    /// The frame is not a well-formed chat event; the text says what is wrong
    /// with it.
    InvalidFormat(String),
}

impl DecodeError {
    /// The human-readable account of what was wrong.
    pub fn description(&self) -> (text: &str)
        ensures
            self matches DecodeError::InvalidFormat(d) && text@ == d@,
    {
        match self {
            DecodeError::InvalidFormat(d) => d.as_str(),
        }
    }
}

/// What `serde_json::to_string` writes for a string: the string between
/// double quotes, with the escapes JSON asks for.
pub uninterp spec fn json_quoted(text: Seq<char>) -> Seq<char>;

/// What `serde_json::from_str` makes of a text that is read as an object: its
/// members, or the parser's complaint when the text is not one JSON object.
pub uninterp spec fn json_object(text: Seq<char>) -> Result<Seq<(Seq<char>, MemberView)>, Seq<char>>;

/// `serde_json::to_string` on a string slice. The result is a function of the
/// text alone and is named [`json_quoted`]. Writing a string into memory
/// cannot fail, so the call always succeeds.
#[verifier::external_body]
fn quote(text: &str) -> (quoted: String)
    ensures
        quoted@ == json_quoted(text@),
{
    serde_json::to_string(text).unwrap_or_default()
}

/// `serde_json::from_str`, reading the text as a `serde_json::Map`. On
/// success the members come back one for one: a string as its text, a number
/// as what `Number::as_u64` gives for it, any other value as `Other`. On
/// failure the parser's message comes back. Either way the result is a
/// function of the text alone and is named [`json_object`].
#[verifier::external_body]
fn parse_object(text: &str) -> (parsed: Result<Vec<(String, Member)>, String>)
    ensures
        match parsed {
            Ok(members) => json_object(text@) == Ok::<Seq<(Seq<char>, MemberView)>, Seq<char>>(
                members_view(members@),
            ),
            Err(complaint) => json_object(text@) == Err::<Seq<(Seq<char>, MemberView)>, Seq<char>>(
                complaint@,
            ),
        },
{
    match serde_json::from_str::<serde_json::Map<String, serde_json::Value>>(text) {
        Ok(object) => Ok(object.into_iter().map(|(key, value)| (key, match value {
            serde_json::Value::String(text) => Member::Text(text),
            serde_json::Value::Number(number) => Member::Number(number.as_u64()),
            serde_json::Value::Null => Member::Other,
            serde_json::Value::Bool(_) => Member::Other,
            serde_json::Value::Array(_) => Member::Other,
            serde_json::Value::Object(_) => Member::Other,
        })).collect()),
        Err(e) => Err(e.to_string()),
    }
}

/// The wire form of a message: the four members in a fixed order, with no
/// space between them.
pub open spec fn encoded(message: MessageView) -> Seq<char> {
    "{\"sender\":"@ + json_quoted(message.sender) + ",\"action\":"@ + json_quoted(
        written_token(message.action),
    ) + ",\"contents\":"@ + json_quoted(message.contents) + ",\"timestamp\":"@ + decimal(
        message.timestamp as nat,
    ) + "}"@
}

/// Writes a message in its wire form. Every message can be written.
pub fn encode(message: &Message) -> (payload: String)
    ensures
        payload@ == encoded(message@),
{
    let mut payload = String::from_str("{\"sender\":");
    payload.append(quote(message.sender.as_str()).as_str());
    payload.append(",\"action\":");
    payload.append(quote(message.action.as_str()).as_str());
    payload.append(",\"contents\":");
    payload.append(quote(message.contents.as_str()).as_str());
    payload.append(",\"timestamp\":");
    payload.append(decimal_text(message.timestamp).as_str());
    payload.append("}");
    payload
}

/// The value of the member called `key`, if the object has one. Where a key
/// occurs more than once the last occurrence counts.
pub open spec fn member(members: Seq<(Seq<char>, MemberView)>, key: Seq<char>) -> Option<
    MemberView,
>
    decreases members.len(),
{
    if members.len() == 0 {
        None
    } else if members.last().0 == key {
        Some(members.last().1)
    } else {
        member(members.drop_last(), key)
    }
}

/// The complaint about a member that must be there and is not.
pub open spec fn missing_complaint(key: Seq<char>) -> Seq<char> {
    "missing field `"@ + key + "`"@
}

/// The complaint about a member that must be a string and is not.
pub open spec fn not_text_complaint(key: Seq<char>) -> Seq<char> {
    "field `"@ + key + "` must be a string"@
}

/// The complaint about a member that must be an unsigned integer and is not.
pub open spec fn not_number_complaint(key: Seq<char>) -> Seq<char> {
    "field `"@ + key + "` must be an unsigned 64-bit integer"@
}

/// The action an object names: `Chat` where it names none.
pub open spec fn action_member(members: Seq<(Seq<char>, MemberView)>) -> Result<
    Action,
    Seq<char>,
> {
    match member(members, "action"@) {
        None => Ok(Action::Chat),
        Some(MemberView::Text(token)) => match read_token(token) {
            Some(action) => Ok(action),
            None => Err(token_complaint(token)),
        },
        Some(_) => Err(not_text_complaint("action"@)),
    }
}

/// The sender an object names. This member has no default.
pub open spec fn sender_member(members: Seq<(Seq<char>, MemberView)>) -> Result<
    Seq<char>,
    Seq<char>,
> {
    match member(members, "sender"@) {
        None => Err(missing_complaint("sender"@)),
        Some(MemberView::Text(text)) => Ok(text),
        Some(_) => Err(not_text_complaint("sender"@)),
    }
}

/// The contents an object holds: empty where it holds none.
pub open spec fn contents_member(members: Seq<(Seq<char>, MemberView)>) -> Result<
    Seq<char>,
    Seq<char>,
> {
    match member(members, "contents"@) {
        None => Ok(Seq::empty()),
        Some(MemberView::Text(text)) => Ok(text),
        Some(_) => Err(not_text_complaint("contents"@)),
    }
}

/// The timestamp an object holds: 0 where it holds none.
pub open spec fn timestamp_member(members: Seq<(Seq<char>, MemberView)>) -> Result<
    u64,
    Seq<char>,
> {
    match member(members, "timestamp"@) {
        None => Ok(0),
        Some(MemberView::Number(Some(value))) => Ok(value),
        Some(_) => Err(not_number_complaint("timestamp"@)),
    }
}

/// The message an object stands for, or the complaint about the first member
/// that is wrong. The members are looked at in the order `action`, `sender`,
/// `contents`, `timestamp`; members of any other name are passed over.
pub open spec fn decoded(members: Seq<(Seq<char>, MemberView)>) -> Result<MessageView, Seq<char>> {
    match action_member(members) {
        Err(complaint) => Err(complaint),
        Ok(action) => match sender_member(members) {
            Err(complaint) => Err(complaint),
            Ok(sender) => match contents_member(members) {
                Err(complaint) => Err(complaint),
                Ok(contents) => match timestamp_member(members) {
                    Err(complaint) => Err(complaint),
                    Ok(timestamp) => Ok(MessageView { sender, action, contents, timestamp }),
                },
            },
        },
    }
}

/// The message a frame stands for, or the complaint about it.
pub open spec fn decoded_text(text: Seq<char>) -> Result<MessageView, Seq<char>> {
    match json_object(text) {
        Ok(members) => decoded(members),
        Err(complaint) => Err(complaint),
    }
}

/// Whether what came out of decoding is what the model asks for.
pub open spec fn decodes_to(
    outcome: Result<Message, DecodeError>,
    expected: Result<MessageView, Seq<char>>,
) -> bool {
    match outcome {
        Ok(message) => expected == Ok::<MessageView, Seq<char>>(message@),
        Err(DecodeError::InvalidFormat(complaint)) => expected == Err::<MessageView, Seq<char>>(
            complaint@,
        ),
    }
}

/// Looks up the member called `key`. Where a key occurs more than once the
/// last occurrence counts.
pub fn find_member<'a>(members: &'a Vec<(String, Member)>, key: &str) -> (found: Option<
    &'a Member,
>)
    ensures
        match found {
            Some(value) => member(members_view(members@), key@) == Some(value@),
            None => member(members_view(members@), key@).is_none(),
        },
{
    let ghost all = members_view(members@);
    let mut i: usize = members.len();
    assert(all.take(i as int) =~= all);
    while i > 0
        invariant
            i <= members.len(),
            all == members_view(members@),
            member(all, key@) == member(all.take(i as int), key@),
        decreases i,
    {
        i -= 1;
        proof {
            let upto = all.take(i + 1);
            assert(upto.last() == all[i as int]);
            assert(upto.drop_last() =~= all.take(i as int));
        }
        if same_text(members[i].0.as_str(), key) {
            return Some(&members[i].1);
        }
    }
    None
}

fn complaint(before: &str, key: &str, after: &str) -> (text: String)
    ensures
        text@ == before@ + key@ + after@,
{
    String::from_str(before).concat(key).concat(after)
}

/// Reads a message from the members of a parsed object. A member that is
/// absent takes its default, except `sender`, which must be there; a member
/// of the wrong type, or an `action` that is none of the four tokens, refuses
/// the whole object.
pub fn decode_members(members: &Vec<(String, Member)>) -> (outcome: Result<Message, DecodeError>)
    ensures
        decodes_to(outcome, decoded(members_view(members@))),
{
    let action = match find_member(members, "action") {
        None => action_chat(),
        Some(Member::Text(token)) => match Action::from_str(token.as_str()) {
            Ok(action) => action,
            Err(complaint) => {
                return Err(DecodeError::InvalidFormat(complaint));
            },
        },
        Some(_) => {
            return Err(
                DecodeError::InvalidFormat(complaint("field `", "action", "` must be a string")),
            );
        },
    };
    let sender = match find_member(members, "sender") {
        None => {
            return Err(DecodeError::InvalidFormat(complaint("missing field `", "sender", "`")));
        },
        Some(Member::Text(text)) => text.clone(),
        Some(_) => {
            return Err(
                DecodeError::InvalidFormat(complaint("field `", "sender", "` must be a string")),
            );
        },
    };
    let contents = match find_member(members, "contents") {
        None => String::new(),
        Some(Member::Text(text)) => text.clone(),
        Some(_) => {
            return Err(
                DecodeError::InvalidFormat(complaint("field `", "contents", "` must be a string")),
            );
        },
    };
    let timestamp = match find_member(members, "timestamp") {
        None => 0,
        Some(Member::Number(Some(value))) => *value,
        Some(_) => {
            return Err(
                DecodeError::InvalidFormat(
                    complaint("field `", "timestamp", "` must be an unsigned 64-bit integer"),
                ),
            );
        },
    };
    Ok(Message { sender, action, contents, timestamp })
}

/// Parses a text frame into the members of the JSON object it holds. A
/// frame that is not one JSON object is refused with the parser's complaint.
/// What comes back is what [`json_object`] names for this text, so a caller
/// who holds the members knows what the parser made of the frame.
pub fn read_members(text: &str) -> (parsed: Result<Vec<(String, Member)>, DecodeError>)
    ensures
        match parsed {
            Ok(members) => json_object(text@) == Ok::<Seq<(Seq<char>, MemberView)>, Seq<char>>(
                members_view(members@),
            ),
            Err(DecodeError::InvalidFormat(complaint)) => json_object(text@) == Err::<
                Seq<(Seq<char>, MemberView)>,
                Seq<char>,
            >(complaint@),
        },
{
    match parse_object(text) {
        Ok(members) => Ok(members),
        Err(complaint) => Err(DecodeError::InvalidFormat(complaint)),
    }
}

/// Reads a message from a text frame. The frame must be one JSON object;
/// from there on the rules are those of [`decode_members`].
pub fn decode(text: &str) -> (outcome: Result<Message, DecodeError>)
    ensures
        decodes_to(outcome, decoded_text(text@)),
{
    match read_members(text) {
        Ok(members) => decode_members(&members),
        Err(refusal) => Err(refusal),
    }
}

/// An object whose `action` is a string that is none of the four tokens is
/// refused with the complaint about that token, whatever else it holds: such
/// an object is never read as a `Chat` event.
pub proof fn lemma_unknown_action_refused(members: Seq<(Seq<char>, MemberView)>, token: Seq<char>)
    requires
        member(members, "action"@) == Some(MemberView::Text(token)),
        read_token(token).is_none(),
    ensures
        decoded(members) == Err::<MessageView, Seq<char>>(token_complaint(token)),
{
}

/// A frame that parses to an object whose `action` is a string that is none
/// of the four tokens is refused.
pub proof fn lemma_unknown_action_frame_refused(text: Seq<char>, token: Seq<char>)
    requires
        json_object(text) matches Ok(members) && member(members, "action"@) == Some(
            MemberView::Text(token),
        ),
        read_token(token).is_none(),
    ensures
        decoded_text(text) == Err::<MessageView, Seq<char>>(token_complaint(token)),
{
    lemma_unknown_action_refused(json_object(text)->Ok_0, token);
}

/// Every token that is written for an action other than `Disconnect` is read
/// back as that action; the token written for `Disconnect` is read as none.
pub proof fn lemma_written_token_read_back(action: Action)
    ensures
        action != Action::Disconnect ==> read_token(written_token(action)) == Some(action),
        action == Action::Disconnect ==> read_token(written_token(action)).is_none(),
{
    reveal_strlit("connect");
    reveal_strlit("chat");
    reveal_strlit("error");
    reveal_strlit("disconnect");
    reveal_strlit("discconnect");
    assert("connect"@.len() == 7);
    assert("chat"@.len() == 4);
    assert("error"@.len() == 5);
    assert("disconnect"@.len() == 10);
    assert("discconnect"@.len() == 11);
}

/// Whether an object holds, under the four names, what [`encode`] writes for
/// `message`.
pub open spec fn holds_written(members: Seq<(Seq<char>, MemberView)>, message: MessageView) -> bool {
    &&& member(members, "sender"@) == Some(MemberView::Text(message.sender))
    &&& member(members, "action"@) == Some(MemberView::Text(written_token(message.action)))
    &&& member(members, "contents"@) == Some(MemberView::Text(message.contents))
    &&& member(members, "timestamp"@) == Some(MemberView::Number(Some(message.timestamp)))
}

/// Reading undoes writing, member by member: an object that holds what
/// [`encode`] writes for a message is read back as that very message, sender,
/// contents and timestamp included. The one exception is a `Disconnect`
/// event, whose written token is not among those that are read.
pub proof fn lemma_written_members_read_back(
    members: Seq<(Seq<char>, MemberView)>,
    message: MessageView,
)
    requires
        holds_written(members, message),
        message.action != Action::Disconnect,
    ensures
        decoded(members) == Ok::<MessageView, Seq<char>>(message),
{
    lemma_written_token_read_back(message.action);
}

/// The same of a frame: if parsing a frame finds an object that holds what
/// [`encode`] writes for a message, and the message is no `Disconnect` event,
/// the frame is read back as that very message.
pub proof fn lemma_written_frame_read_back(text: Seq<char>, message: MessageView)
    requires
        json_object(text) matches Ok(members) && holds_written(members, message),
        message.action != Action::Disconnect,
    ensures
        decoded_text(text) == Ok::<MessageView, Seq<char>>(message),
{
    lemma_written_members_read_back(json_object(text)->Ok_0, message);
}

/// An object that holds what [`encode`] writes for a `Disconnect` event is
/// refused: the token it carries is not one that is read.
pub proof fn lemma_written_disconnect_refused(
    members: Seq<(Seq<char>, MemberView)>,
    message: MessageView,
)
    requires
        holds_written(members, message),
        message.action == Action::Disconnect,
    ensures
        decoded(members) == Err::<MessageView, Seq<char>>(
            token_complaint(written_token(Action::Disconnect)),
        ),
{
    lemma_written_token_read_back(message.action);
}

} // verus!
