//! Messages of a websocket.
use vstd::prelude::*;

use crate::error::{is_internal, Error};

verus! {

/// A message of a websocket.
#[derive(Debug, PartialEq, Eq)]
pub enum Message {
    Text(String),
    Binary(Vec<u8>),
    Ping(Vec<u8>),
    Pong(Vec<u8>),
    Close,
}

/// A message of a websocket in a browser, which keeps the others to itself.
#[derive(Debug, PartialEq, Eq)]
pub enum WsMessage {
    Text(String),
    Binary(Vec<u8>),
}

/// What a message carries.
#[derive(Debug)]
pub enum Payload<'a> {
    Text(&'a str),
    Bytes(&'a [u8]),
}

impl Message {
    /// Whether the message carries something to decode.
    pub open spec fn carries_payload(self) -> bool {
        self is Text || self is Binary
    }

    /// What there is to decode in a message.
    pub fn payload(&self) -> (payload: Option<Payload<'_>>)
        ensures
            match *self {
                Message::Text(t) => payload matches Some(Payload::Text(s)) && s@ == t@,
                Message::Binary(b) => payload matches Some(Payload::Bytes(s)) && s@ == b@,
                _ => payload is None,
            },
    {
        match self {
            Message::Text(t) => Some(Payload::Text(t.as_str())),
            Message::Binary(b) => Some(Payload::Bytes(b.as_slice())),
            _ => None,
        }
    }

    /// The message that a browser delivered.
    pub open spec fn of_browser(message: WsMessage) -> Message {
        match message {
            WsMessage::Text(t) => Message::Text(t),
            WsMessage::Binary(b) => Message::Binary(b),
        }
    }

    /// The message that a browser can send; the others are passed over.
    pub open spec fn for_browser(self) -> Option<WsMessage> {
        match self {
            Message::Text(t) => Some(WsMessage::Text(t)),
            Message::Binary(b) => Some(WsMessage::Binary(b)),
            _ => None,
        }
    }

    /// Takes a message that a browser delivered.
    pub fn from_browser(message: WsMessage) -> (taken: Message)
        ensures
            taken == Message::of_browser(message),
    {
        match message {
            WsMessage::Text(t) => Message::Text(t),
            WsMessage::Binary(b) => Message::Binary(b),
        }
    }

    /// Gives the message to a browser, or `None` if there is nothing to send.
    pub fn into_browser(self) -> (given: Option<WsMessage>)
        ensures
            given == self.for_browser(),
    {
        match self {
            Message::Text(t) => Some(WsMessage::Text(t)),
            Message::Binary(b) => Some(WsMessage::Binary(b)),
            _ => None,
        }
    }
}

/// What a peer does about what its websocket yields: it decodes the text and
/// the binary messages, and passes over a `Close`. Anything else ends the
/// negotiation.
///
/// `shown` is how the item is shown in the error.
pub fn receive(item: Option<Result<Message, String>>, shown: &str) -> (received: Result<
    Option<Message>,
    Error,
>)
    ensures
        match item {
            None => received matches Err(e) && is_internal(e, "Stream ended"@),
            Some(Ok(message)) if message.carries_payload() => received matches Ok(Some(m)) && m
                == message,
            Some(Ok(Message::Close)) => received matches Ok(None),
            _ => received matches Err(e) && is_internal(
                e,
                "Connection to signaling server closed ("@ + shown@ + ")"@,
            ),
        },
{
    match item {
        None => Err(Error::Internal("Stream ended".to_owned())),
        Some(Ok(Message::Text(t))) => Ok(Some(Message::Text(t))),
        Some(Ok(Message::Binary(b))) => Ok(Some(Message::Binary(b))),
        Some(Ok(Message::Close)) => Ok(None),
        Some(_) => {
            let mut reason = "Connection to signaling server closed (".to_owned();
            reason.append(shown);
            reason.append(")");
            Err(Error::Internal(reason))
        },
    }
}

/// A browser is given back the message that it delivered.
pub proof fn law_browser_round_trip(message: WsMessage)
    ensures
        Message::of_browser(message).for_browser() == Some(message),
{
}

/// What a browser is given to send is a message with a payload, and a browser
/// would deliver it as that message.
pub proof fn law_browser_sends_payloads(message: Message)
    ensures
        message.for_browser() is Some <==> message.carries_payload(),
        message.for_browser() matches Some(given) ==> Message::of_browser(given) == message,
{
}

/// There is something to decode in texts and in binary messages, all of it, and
/// in no others.
pub proof fn law_payloads(message: Message, payload: Option<Payload<'_>>)
    requires
        call_ensures(Message::payload, (&message,), payload),
    ensures
        payload matches Some(Payload::Text(s)) ==> (message matches Message::Text(t) && s@ == t@),
        payload matches Some(Payload::Bytes(s)) ==> (message matches Message::Binary(b) && s@
            == b@),
        payload is None <==> message is Ping || message is Pong || message is Close,
{
}

/// A browser exchanges texts and binary messages as they are, and no others.
pub proof fn law_browser_exchanges(
    delivered: WsMessage,
    taken: Message,
    message: Message,
    given: Option<WsMessage>,
)
    requires
        call_ensures(Message::from_browser, (delivered,), taken),
        call_ensures(Message::into_browser, (message,), given),
    ensures
        delivered matches WsMessage::Text(t) ==> taken == Message::Text(t),
        delivered matches WsMessage::Binary(b) ==> taken == Message::Binary(b),
        given matches Some(WsMessage::Text(t)) ==> message == Message::Text(t),
        given matches Some(WsMessage::Binary(b)) ==> message == Message::Binary(b),
        given is None <==> message is Ping || message is Pong || message is Close,
{
}

/// What is received is what came, and only texts and binary messages are. Only a
/// `Close` is passed over. Every failure is an internal one, which says that the
/// stream ended exactly where it did, and shows what came otherwise.
pub proof fn law_messages_are_received(
    item: Option<Result<Message, String>>,
    shown: &str,
    received: Result<Option<Message>, Error>,
)
    requires
        call_ensures(receive, (item, shown), received),
    ensures
        received matches Ok(Some(m)) ==> item == Some(Ok::<Message, String>(m)) && (m is Text
            || m is Binary),
        received matches Ok(None) <==> item == Some(Ok::<Message, String>(Message::Close)),
        item matches Some(Ok(m)) && (m is Text || m is Binary) ==> received matches Ok(Some(_)),
        item is None ==> (received matches Err(Error::Internal(reason)) && reason@
            == "Stream ended"@),
        received is Err && item is Some ==> (received matches Err(Error::Internal(reason))
            && reason@ == "Connection to signaling server closed ("@ + shown@ + ")"@),
{
}

} // verus!
