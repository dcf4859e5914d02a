//! The negotiation of a connection between two peers, as each of them sees it.
use vstd::pervasive::unreached;
use vstd::prelude::*;

use crate::error::{is_internal, Error};
use crate::peer::PeerId;
use crate::signaling::{SignalingId, SignalingMessage};

verus! {

/// What happens to a peer in the course of a negotiation. `C` is the
/// connection that is negotiated, `S` a signal.
pub enum Event<C, S> {
    /// The signaling server could not be reached, and why.
    Unreachable(String),
    /// The connection to the signaling server is lost, and why.
    Lost(String),
    /// The connection stands or has failed, or nothing more will come of it.
    Connection(Option<Result<C, String>>),
    /// The signaling server has passed on a message, which could be decoded or
    /// not.
    Decoded(Result<SignalingMessage<PeerId, S>, String>),
    /// There is a signal for the other peer, or there will be no more.
    Signal(Option<S>),
}

/// What a peer does about an event. `D` is what a negotiation comes to.
pub enum Action<D, S> {
    /// The negotiation is over.
    Finish(D),
    /// The negotiation has failed.
    Fail(Error),
    /// Hand the signal to the connection.
    Deliver(S),
    /// Pass over a message that belongs to another request.
    Unexpected(SignalingId<PeerId>),
    /// Pass over a message that could not be decoded.
    Malformed(String),
    /// Send the message to the signaling server.
    Send(SignalingMessage<PeerId, S>),
}

/// The side of a negotiation that dials.
#[derive(Debug)]
pub struct Dialer {
    /// Identifies this negotiation.
    pub identifier: SignalingId<PeerId>,
    /// The peer that is dialed.
    pub callee: PeerId,
}

impl Dialer {
    /// What the dialing peer is to do about an event.
    pub open spec fn answers<C, S>(self, event: Event<C, S>, action: Action<C, S>) -> bool {
        match event {
            Event::Unreachable(reason) => action matches Action::Fail(e) && is_internal(e, reason@),
            Event::Lost(reason) => action matches Action::Fail(e) && is_internal(e, reason@),
            Event::Connection(None) => action matches Action::Fail(e) && is_internal(
                e,
                "Stream ended"@,
            ),
            Event::Connection(Some(Err(reason))) => action matches Action::Fail(e) && is_internal(
                e,
                reason@,
            ),
            Event::Connection(Some(Ok(connection))) => action matches Action::Finish(c) && c
                == connection,
            Event::Decoded(Err(reason)) => action matches Action::Malformed(r) && r == reason,
            Event::Decoded(Ok(message)) => if message.intent_id@ == self.identifier@ {
                action matches Action::Deliver(s) && s == message.signal
            } else {
                action matches Action::Unexpected(id) && id == message.intent_id
            },
            Event::Signal(None) => action matches Action::Fail(e) && is_internal(
                e,
                "Stream ended"@,
            ),
            Event::Signal(Some(signal)) => {
                &&& action matches Action::Send(m)
                &&& m.intent_id@ == self.identifier@
                &&& m.callee@ == self.callee@
                &&& m.signal == signal
            },
        }
    }

    /// Decides what the dialing peer does about an event.
    pub fn step<C, S>(&self, event: Event<C, S>) -> (action: Action<C, S>)
        ensures
            self.answers(event, action),
    {
        match event {
            Event::Unreachable(reason) => Action::Fail(Error::Internal(reason)),
            Event::Lost(reason) => Action::Fail(Error::Internal(reason)),
            Event::Connection(None) => Action::Fail(Error::Internal("Stream ended".to_owned())),
            Event::Connection(Some(Err(reason))) => Action::Fail(Error::Internal(reason)),
            Event::Connection(Some(Ok(connection))) => Action::Finish(connection),
            Event::Decoded(Err(reason)) => Action::Malformed(reason),
            Event::Decoded(Ok(message)) => if message.intent_id.same(&self.identifier) {
                Action::Deliver(message.signal)
            } else {
                Action::Unexpected(message.intent_id)
            },
            Event::Signal(None) => Action::Fail(Error::Internal("Stream ended".to_owned())),
            Event::Signal(Some(signal)) => Action::Send(
                SignalingMessage {
                    intent_id: self.identifier.duplicate(),
                    callee: self.callee.clone(),
                    signal,
                },
            ),
        }
    }
}

/// The side of a negotiation that listens.
#[derive(Debug)]
pub struct Listener {
    /// The peer that listens.
    pub own_peer_id: PeerId,
    /// Identifies the negotiation, once the first message has come in.
    pub identifier: Option<SignalingId<PeerId>>,
}

impl Listener {
    /// The identifier of the negotiation, if it has one yet.
    pub open spec fn intent(self) -> Option<(Seq<u8>, usize)> {
        match self.identifier {
            Some(id) => Some(id@),
            None => None,
        }
    }

    /// The event presumes that a message has come in before: there is neither a
    /// connection nor a signal for the other peer before that.
    pub open spec fn presumes_identifier<C, S>(event: Event<C, S>) -> bool {
        event matches Event::Connection(Some(Ok(_))) || event matches Event::Signal(Some(_))
    }

    /// The identifier of the negotiation after an event.
    pub open spec fn intent_after<C, S>(self, event: Event<C, S>) -> Option<(Seq<u8>, usize)> {
        next_intent(self.intent(), event)
    }

    /// What the listening peer is to do about an event.
    pub open spec fn answers<C, S>(
        self,
        event: Event<C, S>,
        action: Action<(PeerId, C), S>,
    ) -> bool {
        match event {
            Event::Unreachable(reason) => action matches Action::Fail(
                Error::ConnectionToSignalingServerFailed(r),
            ) && r == reason,
            Event::Lost(reason) => action matches Action::Fail(e) && is_internal(e, reason@),
            Event::Connection(None) => action matches Action::Fail(e) && is_internal(
                e,
                "Stream ended"@,
            ),
            Event::Connection(Some(Err(reason))) => action matches Action::Fail(e) && is_internal(
                e,
                reason@,
            ),
            Event::Connection(Some(Ok(connection))) => {
                &&& action matches Action::Finish((caller, c))
                &&& c == connection
                &&& self.intent() matches Some((initiator, _))
                &&& caller@ == initiator
            },
            Event::Decoded(Err(reason)) => action matches Action::Malformed(r) && r == reason,
            Event::Decoded(Ok(message)) => if self.intent_after(event) == Some(
                message.intent_id@,
            ) {
                action matches Action::Deliver(s) && s == message.signal
            } else {
                action matches Action::Unexpected(id) && id == message.intent_id
            },
            Event::Signal(None) => action matches Action::Fail(e) && is_internal(
                e,
                "Stream ended"@,
            ),
            Event::Signal(Some(signal)) => {
                &&& action matches Action::Send(m)
                &&& Some(m.intent_id@) == self.intent()
                &&& m.callee@ == self.own_peer_id@
                &&& m.signal == signal
            },
        }
    }

    /// A listening peer that has not heard from anyone yet.
    pub fn new(own_peer_id: PeerId) -> (listener: Listener)
        ensures
            listener.own_peer_id@ == own_peer_id@,
            listener.intent() is None,
    {
        Listener { own_peer_id, identifier: None }
    }

    /// Whether a message has come in.
    pub fn is_identified(&self) -> (identified: bool)
        ensures
            identified == (self.intent() is Some),
    {
        self.identifier.is_some()
    }

    /// Decides what the listening peer does about an event. The first message
    /// decides whom it negotiates with.
    pub fn step<C, S>(&mut self, event: Event<C, S>) -> (action: Action<(PeerId, C), S>)
        requires
            Self::presumes_identifier(event) ==> old(self).intent() is Some,
        ensures
            old(self).answers(event, action),
            final(self).intent() == old(self).intent_after(event),
            final(self).own_peer_id@ == old(self).own_peer_id@,
    {
        match event {
            Event::Unreachable(reason) => Action::Fail(
                Error::ConnectionToSignalingServerFailed(reason),
            ),
            Event::Lost(reason) => Action::Fail(Error::Internal(reason)),
            Event::Connection(None) => Action::Fail(Error::Internal("Stream ended".to_owned())),
            Event::Connection(Some(Err(reason))) => Action::Fail(Error::Internal(reason)),
            Event::Connection(Some(Ok(connection))) => match &self.identifier {
                Some(id) => Action::Finish((id.caller.clone(), connection)),
                None => unreached(),
            },
            Event::Decoded(Err(reason)) => Action::Malformed(reason),
            Event::Decoded(Ok(message)) => {
                let known = match &self.identifier {
                    Some(id) => Some(id.same(&message.intent_id)),
                    None => None,
                };
                match known {
                    None => {
                        self.identifier = Some(message.intent_id);
                        Action::Deliver(message.signal)
                    },
                    Some(true) => Action::Deliver(message.signal),
                    Some(false) => Action::Unexpected(message.intent_id),
                }
            },
            Event::Signal(None) => Action::Fail(Error::Internal("Stream ended".to_owned())),
            Event::Signal(Some(signal)) => match &self.identifier {
                Some(id) => Action::Send(
                    SignalingMessage {
                        intent_id: id.duplicate(),
                        callee: self.own_peer_id.clone(),
                        signal,
                    },
                ),
                None => unreached(),
            },
        }
    }
}

/// The identifier of a negotiation after an event: the first message that can
/// be decoded decides it.
pub open spec fn next_intent<C, S>(
    intent: Option<(Seq<u8>, usize)>,
    event: Event<C, S>,
) -> Option<(Seq<u8>, usize)> {
    match event {
        Event::Decoded(Ok(message)) if intent is None => Some(message.intent_id@),
        _ => intent,
    }
}

/// The identifier of a negotiation after a series of events.
pub open spec fn intent_after_all<C, S>(
    intent: Option<(Seq<u8>, usize)>,
    events: Seq<Event<C, S>>,
) -> Option<(Seq<u8>, usize)>
    decreases events.len(),
{
    if events.len() == 0 {
        intent
    } else {
        next_intent(intent_after_all(intent, events.drop_last()), events.last())
    }
}

/// Once a listening peer has heard from someone, no series of events makes it
/// negotiate with anyone else.
pub proof fn law_identifier_stays<C, S>(intent: Option<(Seq<u8>, usize)>, events: Seq<Event<C, S>>)
    requires
        intent is Some,
    ensures
        intent_after_all(intent, events) == intent,
    decreases events.len(),
{
    if events.len() > 0 {
        law_identifier_stays(intent, events.drop_last());
    }
}

/// A negotiation of a listening peer fails for want of the signaling server
/// exactly when the server could not be reached. Once it was, every failure is
/// an internal one.
pub proof fn law_listener_blames_server<C, S>(listener: Listener, event: Event<C, S>, error: Error)
    requires
        listener.answers(event, Action::Fail(error)),
    ensures
        error.is_unreachable() <==> event is Unreachable,
        error is Internal <==> !(event is Unreachable),
{
}

/// Every failure of a dialing peer is an internal one, also where the signaling
/// server could not be reached.
pub proof fn law_dialer_fails_internally<C, S>(dialer: Dialer, event: Event<C, S>, error: Error)
    requires
        dialer.answers(event, Action::Fail(error)),
    ensures
        error is Internal,
{
}

/// A listening peer delivers a message exactly when the message belongs to the
/// negotiation that it is in afterwards, and passes over every other.
pub proof fn law_listener_delivers_own<C, S>(
    listener: Listener,
    message: SignalingMessage<PeerId, S>,
    action: Action<(PeerId, C), S>,
)
    requires
        listener.answers(Event::Decoded(Ok(message)), action),
    ensures
        action is Deliver <==> (listener.intent() is None || listener.intent() == Some(
            message.intent_id@,
        )),
        action is Deliver || action is Unexpected,
{
}

/// What a dialing peer sends is what it takes back: a message of the same
/// request is delivered, and a message of any other is not.
pub proof fn law_dialer_delivers_own<C, S>(
    dialer: Dialer,
    message: SignalingMessage<PeerId, S>,
    action: Action<C, S>,
)
    requires
        dialer.answers(Event::Decoded(Ok(message)), action),
    ensures
        action is Deliver <==> message.intent_id@ == dialer.identifier@,
        action is Deliver || action is Unexpected,
{
}

/// What a dialing peer does, by what it does: it is done with the connection
/// that stands; it hands on the signals of its own request, and names those of
/// others; it sends its signals to the peer that it dials, under its request;
/// and it fails, for an internal reason, where something failed or ended.
pub proof fn law_dialer_acts<C, S>(dialer: Dialer, event: Event<C, S>, action: Action<C, S>)
    requires
        call_ensures(Dialer::step::<C, S>, (&dialer, event), action),
    ensures
        match action {
            Action::Finish(c) => event == Event::<C, S>::Connection(Some(Ok(c))),
            Action::Deliver(s) => event matches Event::Decoded(Ok(m)) && s == m.signal
                && m.intent_id.caller@ == dialer.identifier.caller@ && m.intent_id.counter
                == dialer.identifier.counter,
            Action::Unexpected(id) => event matches Event::Decoded(Ok(m)) && id == m.intent_id && (
            id.caller@ != dialer.identifier.caller@ || id.counter != dialer.identifier.counter),
            Action::Malformed(reason) => event == Event::<C, S>::Decoded(Err(reason)),
            Action::Send(m) => event == Event::<C, S>::Signal(Some(m.signal))
                && m.intent_id.caller@ == dialer.identifier.caller@ && m.intent_id.counter
                == dialer.identifier.counter && m.callee@ == dialer.callee@,
            Action::Fail(e) => e matches Error::Internal(reason) && match event {
                Event::Unreachable(r) => reason@ == r@,
                Event::Lost(r) => reason@ == r@,
                Event::Connection(None) => reason@ == "Stream ended"@,
                Event::Connection(Some(Err(r))) => reason@ == r@,
                Event::Signal(None) => reason@ == "Stream ended"@,
                _ => false,
            },
        },
{
}

/// What a listening peer does in a negotiation, by what it does: it is done with
/// the connection that stands, and names who made the request; it hands on the
/// signals of the request that came first, and names those of others; it sends
/// its signals as its own, under that request; and it fails, for want of the
/// server exactly where that could not be reached, and for an internal reason
/// where anything else failed or ended.
pub proof fn law_listener_acts<C, S>(
    listener: &mut Listener,
    event: Event<C, S>,
    action: Action<(PeerId, C), S>,
)
    requires
        call_ensures(Listener::step::<C, S>, (listener, event), action),
    ensures
        match action {
            Action::Finish((caller, c)) => event == Event::<C, S>::Connection(Some(Ok(c))) && (old(
                listener,
            ).identifier matches Some(id) && caller@ == id.caller@),
            Action::Deliver(s) => event matches Event::Decoded(Ok(m)) && s == m.signal && (old(
                listener,
            ).identifier matches Some(id) ==> m.intent_id.caller@ == id.caller@
                && m.intent_id.counter == id.counter),
            Action::Unexpected(other) => event matches Event::Decoded(Ok(m)) && other == m.intent_id
                && (old(listener).identifier matches Some(id) && (other.caller@ != id.caller@
                || other.counter != id.counter)),
            Action::Malformed(reason) => event == Event::<C, S>::Decoded(Err(reason)),
            Action::Send(m) => event == Event::<C, S>::Signal(Some(m.signal)) && m.callee@ == old(
                listener,
            ).own_peer_id@ && (old(listener).identifier matches Some(id) && m.intent_id.caller@
                == id.caller@ && m.intent_id.counter == id.counter),
            Action::Fail(Error::ConnectionToSignalingServerFailed(reason)) => event
                == Event::<C, S>::Unreachable(reason),
            Action::Fail(Error::Internal(reason)) => match event {
                Event::Lost(r) => reason@ == r@,
                Event::Connection(None) => reason@ == "Stream ended"@,
                Event::Connection(Some(Err(r))) => reason@ == r@,
                Event::Signal(None) => reason@ == "Stream ended"@,
                _ => false,
            },
        },
{
}

/// The request that a listening peer negotiates is that of the first message,
/// and no other event changes it.
pub proof fn law_first_message_decides<C, S>(
    listener: &mut Listener,
    event: Event<C, S>,
    action: Action<(PeerId, C), S>,
)
    requires
        call_ensures(Listener::step::<C, S>, (listener, event), action),
    ensures
        final(listener).own_peer_id@ == old(listener).own_peer_id@,
        old(listener).identifier matches Some(id) ==> (final(listener).identifier matches Some(now)
            && now.caller@ == id.caller@ && now.counter == id.counter),
        old(listener).identifier is None ==> match event {
            Event::Decoded(Ok(m)) => final(listener).identifier matches Some(now) && now.caller@
                == m.intent_id.caller@ && now.counter == m.intent_id.counter,
            _ => final(listener).identifier is None,
        },
{
    let before = old(listener).intent();
    let after = final(listener).intent();
    if old(listener).identifier is Some {
        assert(before == Some(old(listener).identifier->0@));
        assert(after == before);
    }
}

/// A listening peer is identified exactly when it has a request, and has none at
/// first.
pub proof fn law_listener_begins_unidentified(
    own: PeerId,
    fresh: Listener,
    listener: Listener,
    identified: bool,
)
    requires
        call_ensures(Listener::new, (own,), fresh),
        call_ensures(Listener::is_identified, (&listener,), identified),
    ensures
        fresh.identifier is None,
        fresh.own_peer_id@ == own@,
        identified <==> listener.identifier is Some,
{
}

} // verus!
