//! All negotiations that a listening peer is in at the same time, over one
//! connection to the signaling server.
use vstd::pervasive::unreached;
use vstd::prelude::*;

use crate::error::{is_internal, Error};
use crate::peer::PeerId;
use crate::session::{Action, Event, Listener};
use crate::signaling::{SignalingId, SignalingMessage};

verus! {

/// What happens to a listening peer. `C` is a connection that is negotiated,
/// `S` a signal.
pub enum Happening<C, S> {
    /// The signaling server could not be reached, and why.
    Unreachable(String),
    /// The connection to the signaling server is lost, and why.
    Lost(String),
    /// The signaling server has passed on a message, which could be decoded or
    /// not.
    Decoded(Result<SignalingMessage<PeerId, S>, String>),
    /// The connection of a request stands or has failed, or nothing more will
    /// come of it.
    Connection(SignalingId<PeerId>, Option<Result<C, String>>),
    /// There is a signal for the peer that made a request, or there will be no
    /// more.
    Signal(SignalingId<PeerId>, Option<S>),
}

/// What a listening peer does about it.
pub enum Response<C, S> {
    /// Report the failure, drop all negotiations, and connect to the signaling
    /// server anew.
    Reconnect(Error),
    /// Begin the negotiation of a request, and hand the signal to it.
    Open(SignalingId<PeerId>, S),
    /// Hand the signal to the negotiation of a request.
    Deliver(SignalingId<PeerId>, S),
    /// Pass over a message that could not be decoded.
    Malformed(String),
    /// The negotiation of a request is over. Report the connection with the
    /// peer that made it.
    Finish { intent: SignalingId<PeerId>, caller: PeerId, connection: C },
    /// The negotiation of a request has failed. Report the failure.
    Fail(SignalingId<PeerId>, Error),
    /// Send the message to the signaling server.
    Send(SignalingMessage<PeerId, S>),
    /// Pass over what concerns no negotiation.
    Ignore,
}

/// The requests that are negotiated after something happened.
pub open spec fn pending_after<C, S>(
    pending: Set<(Seq<u8>, usize)>,
    happening: Happening<C, S>,
) -> Set<(Seq<u8>, usize)> {
    match happening {
        Happening::Unreachable(_) => Set::empty(),
        Happening::Lost(_) => Set::empty(),
        Happening::Decoded(Ok(message)) => pending.insert(message.intent_id@),
        Happening::Decoded(Err(_)) => pending,
        Happening::Connection(id, _) => pending.remove(id@),
        Happening::Signal(id, None) => pending.remove(id@),
        Happening::Signal(_, Some(_)) => pending,
    }
}

/// What the listening peer `own` is to do about what happened while `pending`
/// are negotiated.
pub open spec fn responds<C, S>(
    own: Seq<u8>,
    pending: Set<(Seq<u8>, usize)>,
    happening: Happening<C, S>,
    response: Response<C, S>,
) -> bool {
    match happening {
        Happening::Unreachable(reason) => response matches Response::Reconnect(
            Error::ConnectionToSignalingServerFailed(r),
        ) && r == reason,
        Happening::Lost(reason) => response matches Response::Reconnect(e) && is_internal(
            e,
            reason@,
        ),
        Happening::Decoded(Err(reason)) => response matches Response::Malformed(r) && r == reason,
        Happening::Decoded(Ok(message)) => if pending.contains(message.intent_id@) {
            response matches Response::Deliver(id, s) && id@ == message.intent_id@ && s
                == message.signal
        } else {
            response matches Response::Open(id, s) && id@ == message.intent_id@ && s
                == message.signal
        },
        Happening::Connection(id, _) if !pending.contains(id@) => response is Ignore,
        Happening::Connection(id, None) => response matches Response::Fail(i, e) && i@ == id@
            && is_internal(e, "Stream ended"@),
        Happening::Connection(id, Some(Err(reason))) => response matches Response::Fail(i, e) && i@
            == id@ && is_internal(e, reason@),
        Happening::Connection(id, Some(Ok(c))) => {
            &&& response matches Response::Finish { intent, caller, connection }
            &&& intent@ == id@
            &&& caller@ == id.caller@
            &&& connection == c
        },
        Happening::Signal(id, _) if !pending.contains(id@) => response is Ignore,
        Happening::Signal(id, None) => response matches Response::Fail(i, e) && i@ == id@
            && is_internal(e, "Stream ended"@),
        Happening::Signal(id, Some(signal)) => {
            &&& response matches Response::Send(m)
            &&& m.intent_id@ == id@
            &&& m.callee@ == own
            &&& m.signal == signal
        },
    }
}

/// The negotiations of a listening peer, one for each request.
#[derive(Debug)]
pub struct Negotiations {
    own_peer_id: PeerId,
    listeners: Vec<Listener>,
}

impl Negotiations {
    /// The peer that listens.
    pub closed spec fn own(self) -> Seq<u8> {
        self.own_peer_id@
    }

    spec fn holds_at(self, i: int, intent: (Seq<u8>, usize)) -> bool {
        0 <= i < self.listeners@.len() && self.listeners@[i].intent() == Some(intent)
    }

    /// The requests that are negotiated.
    pub closed spec fn pending(self) -> Set<(Seq<u8>, usize)> {
        Set::new(|intent: (Seq<u8>, usize)| exists|i: int| self.holds_at(i, intent))
    }

    /// Every negotiation is one of this peer and has a request, and no two have
    /// the same.
    pub closed spec fn well_formed(self) -> bool {
        &&& forall|i: int|
            0 <= i < self.listeners@.len() ==> (#[trigger] self.listeners@[i]).intent() is Some
                && self.listeners@[i].own_peer_id@ == self.own()
        &&& forall|i: int, j: int|
            0 <= i < j < self.listeners@.len() ==> (#[trigger] self.listeners@[i]).intent() != (
            #[trigger] self.listeners@[j]).intent()
    }

    /// A listening peer that no one has dialed yet.
    pub fn new(own_peer_id: PeerId) -> (negotiations: Negotiations)
        ensures
            negotiations.well_formed(),
            negotiations.own() == own_peer_id@,
            negotiations.pending() == Set::<(Seq<u8>, usize)>::empty(),
    {
        let negotiations = Negotiations { own_peer_id, listeners: Vec::new() };
        assert(negotiations.pending() =~= Set::<(Seq<u8>, usize)>::empty());
        negotiations
    }

    fn position(&self, intent: &SignalingId<PeerId>) -> (position: Option<usize>)
        requires
            self.well_formed(),
        ensures
            match position {
                Some(i) => self.holds_at(i as int, intent@) && self.pending().contains(intent@),
                None => !self.pending().contains(intent@),
            },
    {
        let mut i: usize = 0;
        while i < self.listeners.len()
            invariant
                self.well_formed(),
                i <= self.listeners.len(),
                forall|k: int| 0 <= k < i ==> !#[trigger] self.holds_at(k, intent@),
            decreases self.listeners.len() - i,
        {
            match &self.listeners[i].identifier {
                Some(id) => {
                    if id.same(intent) {
                        assert(self.holds_at(i as int, intent@));
                        return Some(i);
                    }
                },
                None => {},
            }
            assert(!self.holds_at(i as int, intent@));
            i = i + 1;
        }
        None
    }

    /// Ends the negotiation at a position.
    fn take(&mut self, at: usize) -> (taken: Listener)
        requires
            old(self).well_formed(),
            at < old(self).listeners@.len(),
        ensures
            final(self).well_formed(),
            final(self).own() == old(self).own(),
            taken == old(self).listeners@[at as int],
            taken.intent() matches Some(intent) && final(self).pending() == old(
                self,
            ).pending().remove(intent),
    {
        let ghost before = *self;
        let taken = self.listeners.remove(at);
        proof {
            let intent = taken.intent()->0;
            let n = before.listeners@.len() as int;
            assert(forall|i: int|
                0 <= i < at ==> #[trigger] self.listeners@[i] == before.listeners@[i]);
            assert(forall|i: int|
                at <= i < n - 1 ==> #[trigger] self.listeners@[i] == before.listeners@[i + 1]);
            assert forall|k: (Seq<u8>, usize)| #[trigger]
                self.pending().contains(k) == before.pending().remove(intent).contains(k) by {
                if self.pending().contains(k) {
                    let i = choose|i: int| self.holds_at(i, k);
                    assert(self.holds_at(i, k));
                    let j = if i < at {
                        i
                    } else {
                        i + 1
                    };
                    assert(self.listeners@[i] == before.listeners@[j]);
                    assert(before.holds_at(j, k));
                    assert(before.listeners@[j].intent() != before.listeners@[at as int].intent());
                }
                if before.pending().remove(intent).contains(k) {
                    let j = choose|j: int| before.holds_at(j, k);
                    assert(before.holds_at(j, k));
                    let i = if j < at {
                        j
                    } else {
                        j - 1
                    };
                    assert(self.listeners@[i] == before.listeners@[j]);
                    assert(self.holds_at(i, k));
                }
            }
            assert(self.pending() =~= before.pending().remove(intent));
        }
        taken
    }

    /// Begins a negotiation.
    fn put(&mut self, listener: Listener)
        requires
            old(self).well_formed(),
            listener.own_peer_id@ == old(self).own(),
            listener.intent() matches Some(intent) && !old(self).pending().contains(intent),
        ensures
            final(self).well_formed(),
            final(self).own() == old(self).own(),
            final(self).pending() == old(self).pending().insert(listener.intent()->0),
    {
        let ghost before = *self;
        let ghost intent = listener.intent()->0;
        self.listeners.push(listener);
        proof {
            let n = before.listeners@.len() as int;
            assert(forall|i: int|
                0 <= i < n ==> #[trigger] self.listeners@[i] == before.listeners@[i]);
            assert forall|i: int, j: int| 0 <= i < j < self.listeners@.len() implies (
            #[trigger] self.listeners@[i]).intent() != (#[trigger] self.listeners@[j]).intent() by {
                if j == n && self.listeners@[i].intent() == Some(intent) {
                    assert(before.holds_at(i, intent));
                }
            }
            assert forall|k: (Seq<u8>, usize)| #[trigger]
                self.pending().contains(k) == before.pending().insert(intent).contains(k) by {
                if self.pending().contains(k) {
                    let i = choose|i: int| self.holds_at(i, k);
                    assert(self.holds_at(i, k));
                    if i < n {
                        assert(before.holds_at(i, k));
                    }
                }
                if k == intent {
                    assert(self.holds_at(n, k));
                } else if before.pending().contains(k) {
                    let i = choose|i: int| before.holds_at(i, k);
                    assert(before.holds_at(i, k));
                    assert(self.holds_at(i, k));
                }
            }
            assert(self.pending() =~= before.pending().insert(intent));
        }
    }

    /// Decides what the listening peer does about what happened. Every message
    /// goes to the negotiation of its request, whatever else is negotiated; the
    /// first message of a request begins it.
    pub fn step<C, S>(&mut self, happening: Happening<C, S>) -> (response: Response<C, S>)
        requires
            old(self).well_formed(),
        ensures
            final(self).well_formed(),
            final(self).own() == old(self).own(),
            final(self).pending() == pending_after(old(self).pending(), happening),
            responds(old(self).own(), old(self).pending(), happening, response),
    {
        match happening {
            Happening::Unreachable(reason) => {
                let mut listener = Listener::new(self.own_peer_id.clone());
                self.clear();
                match listener.step::<C, S>(Event::Unreachable(reason)) {
                    Action::Fail(e) => Response::Reconnect(e),
                    _ => unreached(),
                }
            },
            Happening::Lost(reason) => {
                let mut listener = Listener::new(self.own_peer_id.clone());
                self.clear();
                match listener.step::<C, S>(Event::Lost(reason)) {
                    Action::Fail(e) => Response::Reconnect(e),
                    _ => unreached(),
                }
            },
            Happening::Decoded(Err(reason)) => Response::Malformed(reason),
            Happening::Decoded(Ok(message)) => {
                let intent = message.intent_id.duplicate();
                let (mut listener, known) = match self.position(&intent) {
                    Some(at) => (self.take(at), true),
                    None => (Listener::new(self.own_peer_id.clone()), false),
                };
                let action = listener.step::<C, S>(Event::Decoded(Ok(message)));
                self.put(listener);
                proof {
                    let before = old(self).pending();
                    assert(before.remove(intent@).insert(intent@) =~= before.insert(intent@));
                    assert(!before.contains(intent@) ==> before.remove(intent@) =~= before);
                }
                match action {
                    Action::Deliver(signal) => if known {
                        Response::Deliver(intent, signal)
                    } else {
                        Response::Open(intent, signal)
                    },
                    _ => unreached(),
                }
            },
            Happening::Connection(intent, outcome) => match self.position(&intent) {
                Some(at) => {
                    let mut listener = self.take(at);
                    match listener.step::<C, S>(Event::Connection(outcome)) {
                        Action::Finish((caller, connection)) => Response::Finish {
                            intent,
                            caller,
                            connection,
                        },
                        Action::Fail(e) => Response::Fail(intent, e),
                        _ => unreached(),
                    }
                },
                None => {
                    assert(self.pending().remove(intent@) =~= self.pending());
                    Response::Ignore
                },
            },
            Happening::Signal(intent, signal) => match self.position(&intent) {
                Some(at) => {
                    let last = signal.is_none();
                    let mut listener = self.take(at);
                    let action = listener.step::<C, S>(Event::Signal(signal));
                    if !last {
                        self.put(listener);
                        assert(old(self).pending().remove(intent@).insert(intent@) =~= old(
                            self,
                        ).pending());
                    }
                    match action {
                        Action::Send(message) => Response::Send(message),
                        Action::Fail(e) => Response::Fail(intent, e),
                        _ => unreached(),
                    }
                },
                None => {
                    assert(self.pending().remove(intent@) =~= self.pending());
                    Response::Ignore
                },
            },
        }
    }

    /// Ends all negotiations.
    fn clear(&mut self)
        ensures
            final(self).well_formed(),
            final(self).own() == old(self).own(),
            final(self).pending() == Set::<(Seq<u8>, usize)>::empty(),
    {
        self.listeners = Vec::new();
        assert(self.pending() =~= Set::<(Seq<u8>, usize)>::empty());
    }
}

/// The requests that are negotiated after a series of happenings.
pub open spec fn pending_after_all<C, S>(
    pending: Set<(Seq<u8>, usize)>,
    happenings: Seq<Happening<C, S>>,
) -> Set<(Seq<u8>, usize)>
    decreases happenings.len(),
{
    if happenings.len() == 0 {
        pending
    } else {
        pending_after(pending_after_all(pending, happenings.drop_last()), happenings.last())
    }
}

/// Something happens to a request, or to the connection to the server.
pub open spec fn concerns<C, S>(happening: Happening<C, S>, request: (Seq<u8>, usize)) -> bool {
    match happening {
        Happening::Unreachable(_) | Happening::Lost(_) => true,
        Happening::Decoded(Ok(message)) => message.intent_id@ == request,
        Happening::Decoded(Err(_)) => false,
        Happening::Connection(id, _) => id@ == request,
        Happening::Signal(id, _) => id@ == request,
    }
}

/// The negotiation of a request ends, if there is one.
pub open spec fn ends<C, S>(happening: Happening<C, S>, request: (Seq<u8>, usize)) -> bool {
    match happening {
        Happening::Unreachable(_) | Happening::Lost(_) => true,
        Happening::Decoded(_) => false,
        Happening::Connection(id, _) => id@ == request,
        Happening::Signal(id, signal) => id@ == request && signal is None,
    }
}

/// What happens to other requests makes no difference to a request.
pub proof fn law_requests_do_not_interfere<C, S>(
    pending: Set<(Seq<u8>, usize)>,
    happenings: Seq<Happening<C, S>>,
    request: (Seq<u8>, usize),
)
    requires
        forall|i: int|
            0 <= i < happenings.len() ==> !concerns(#[trigger] happenings[i], request),
    ensures
        pending_after_all(pending, happenings).contains(request) <==> pending.contains(request),
    decreases happenings.len(),
{
    if happenings.len() > 0 {
        let before = happenings.drop_last();
        assert(forall|i: int| 0 <= i < before.len() ==> #[trigger] before[i] == happenings[i]);
        law_requests_do_not_interfere(pending, before, request);
        assert(!concerns(happenings[happenings.len() - 1], request));
    }
}

/// No offer is lost: once a message of a request has come in, the request is
/// negotiated until its own negotiation ends, or the connection to the server,
/// whatever other requests come in before and after. Its connection, when it
/// stands, is reported as one with the peer that made the request.
pub proof fn law_request_is_served<C, S>(
    own: Seq<u8>,
    pending: Set<(Seq<u8>, usize)>,
    happenings: Seq<Happening<C, S>>,
    at: int,
    message: SignalingMessage<PeerId, S>,
    id: SignalingId<PeerId>,
    connection: C,
    response: Response<C, S>,
)
    requires
        0 <= at < happenings.len(),
        happenings[at] == Happening::<C, S>::Decoded(Ok(message)),
        forall|i: int|
            at < i < happenings.len() ==> !ends(#[trigger] happenings[i], message.intent_id@),
        id@ == message.intent_id@,
        responds(
            own,
            pending_after_all(pending, happenings),
            Happening::Connection(id, Some(Ok(connection))),
            response,
        ),
    ensures
        pending_after_all(pending, happenings).contains(message.intent_id@),
        response matches Response::Finish { intent, caller, connection: c } && intent@
            == message.intent_id@ && caller@ == message.intent_id.caller@ && c == connection,
{
    lemma_request_is_kept(pending, happenings, at, message);
}

proof fn lemma_request_is_kept<C, S>(
    pending: Set<(Seq<u8>, usize)>,
    happenings: Seq<Happening<C, S>>,
    at: int,
    message: SignalingMessage<PeerId, S>,
)
    requires
        0 <= at < happenings.len(),
        happenings[at] == Happening::<C, S>::Decoded(Ok(message)),
        forall|i: int|
            at < i < happenings.len() ==> !ends(#[trigger] happenings[i], message.intent_id@),
    ensures
        pending_after_all(pending, happenings).contains(message.intent_id@),
    decreases happenings.len(),
{
    let last = happenings.len() - 1;
    if at < last {
        let before = happenings.drop_last();
        assert(forall|i: int| 0 <= i < before.len() ==> #[trigger] before[i] == happenings[i]);
        lemma_request_is_kept(pending, before, at, message);
        assert(!ends(happenings[last], message.intent_id@));
    }
}

/// The messages, as they come in.
pub open spec fn incoming<C, S>(messages: Seq<SignalingMessage<PeerId, S>>) -> Seq<
    Happening<C, S>,
> {
    messages.map_values(|m: SignalingMessage<PeerId, S>| Happening::<C, S>::Decoded(Ok(m)))
}

/// However many peers dial at once, each gets a negotiation of its own: the
/// offer of each begins one, and all of them go on side by side.
pub proof fn law_concurrent_requests_are_all_served<C, S>(
    own: Seq<u8>,
    offers: Seq<SignalingMessage<PeerId, S>>,
    i: int,
    response: Response<C, S>,
)
    requires
        0 <= i < offers.len(),
        forall|j: int, k: int|
            0 <= j < k < offers.len() ==> (#[trigger] offers[j]).intent_id@ != (
            #[trigger] offers[k]).intent_id@,
        responds(
            own,
            pending_after_all(Set::empty(), incoming::<C, S>(offers.take(i))),
            Happening::Decoded(Ok(offers[i])),
            response,
        ),
    ensures
        response matches Response::Open(id, signal) && id@ == offers[i].intent_id@ && signal
            == offers[i].signal,
        pending_after_all(Set::empty(), incoming::<C, S>(offers)).contains(offers[i].intent_id@),
{
    let none = Set::<(Seq<u8>, usize)>::empty();
    let earlier = incoming::<C, S>(offers.take(i));
    assert forall|j: int| 0 <= j < earlier.len() implies !concerns(
        #[trigger] earlier[j],
        offers[i].intent_id@,
    ) by {
        assert(earlier[j] == Happening::<C, S>::Decoded(Ok(offers[j])));
    }
    law_requests_do_not_interfere(none, earlier, offers[i].intent_id@);
    let all = incoming::<C, S>(offers);
    assert forall|j: int| i < j < all.len() implies !ends(
        #[trigger] all[j],
        offers[i].intent_id@,
    ) by {
        assert(all[j] == Happening::<C, S>::Decoded(Ok(offers[j])));
    }
    lemma_request_is_kept(none, all, i, offers[i]);
}

/// The connection to the server is kept until it is lost: nothing that happens
/// to a request makes a listening peer connect anew.
pub proof fn law_server_connection_is_kept<C, S>(
    own: Seq<u8>,
    pending: Set<(Seq<u8>, usize)>,
    happening: Happening<C, S>,
    response: Response<C, S>,
)
    requires
        responds(own, pending, happening, response),
    ensures
        response is Reconnect <==> happening is Unreachable || happening is Lost,
{
}

/// A listening peer reports that the server could not be reached exactly when
/// that is so. Every other failure that it reports is an internal one.
pub proof fn law_failures_are_told_apart<C, S>(
    own: Seq<u8>,
    pending: Set<(Seq<u8>, usize)>,
    happening: Happening<C, S>,
    response: Response<C, S>,
)
    requires
        responds(own, pending, happening, response),
    ensures
        happening is Unreachable <==> (response matches Response::Reconnect(e)
            && e.is_unreachable()),
        response matches Response::Fail(_, e) ==> e is Internal,
{
}

/// What a listening peer does, by what it does. A message begins a negotiation
/// exactly when its request has none, and goes to the one that its request has
/// otherwise, whatever the request. Only requests that are negotiated come to a
/// connection, fail, or send, and what concerns any other is passed over.
pub proof fn law_responses<C, S>(
    negotiations: &mut Negotiations,
    happening: Happening<C, S>,
    response: Response<C, S>,
)
    requires
        call_ensures(Negotiations::step::<C, S>, (negotiations, happening), response),
    ensures
        ({
            let negotiated = |id: SignalingId<PeerId>|
                old(negotiations).pending().contains((id.caller@, id.counter));
            let same = |a: SignalingId<PeerId>, b: SignalingId<PeerId>|
                a.caller@ == b.caller@ && a.counter == b.counter;
            match response {
                Response::Open(id, s) => happening matches Happening::Decoded(Ok(m)) && same(
                    id,
                    m.intent_id,
                ) && s == m.signal && !negotiated(m.intent_id),
                Response::Deliver(id, s) => happening matches Happening::Decoded(Ok(m)) && same(
                    id,
                    m.intent_id,
                ) && s == m.signal && negotiated(m.intent_id),
                Response::Malformed(reason) => happening == Happening::<C, S>::Decoded(
                    Err(reason),
                ),
                Response::Finish { intent, caller, connection } => happening matches Happening::Connection(
                    id,
                    Some(Ok(c)),
                ) && same(intent, id) && caller@ == id.caller@ && connection == c && negotiated(id),
                Response::Fail(intent, e) => e matches Error::Internal(reason) && match happening {
                    Happening::Connection(id, None) => same(intent, id) && negotiated(id) && reason@
                        == "Stream ended"@,
                    Happening::Connection(id, Some(Err(r))) => same(intent, id) && negotiated(id)
                        && reason@ == r@,
                    Happening::Signal(id, None) => same(intent, id) && negotiated(id) && reason@
                        == "Stream ended"@,
                    _ => false,
                },
                Response::Send(m) => happening matches Happening::Signal(id, Some(s)) && same(
                    m.intent_id,
                    id,
                ) && m.signal == s && m.callee@ == old(negotiations).own() && negotiated(id),
                Response::Reconnect(Error::ConnectionToSignalingServerFailed(reason)) => happening
                    == Happening::<C, S>::Unreachable(reason),
                Response::Reconnect(Error::Internal(reason)) => happening matches Happening::Lost(r)
                    && reason@ == r@,
                Response::Ignore => match happening {
                    Happening::Connection(id, _) => !negotiated(id),
                    Happening::Signal(id, _) => !negotiated(id),
                    _ => false,
                },
            }
        }),
        final(negotiations).own() == old(negotiations).own(),
{
}

/// Which requests are negotiated afterwards: a request is taken up by a message
/// of its own, stays until its connection has come out or its signals are over,
/// and is given up with the connection to the server.
pub proof fn law_requests_come_and_go<C, S>(
    negotiations: &mut Negotiations,
    happening: Happening<C, S>,
    response: Response<C, S>,
    caller: Seq<u8>,
    counter: usize,
)
    requires
        call_ensures(Negotiations::step::<C, S>, (negotiations, happening), response),
    ensures
        final(negotiations).pending().contains((caller, counter)) <==> match happening {
            Happening::Unreachable(_) => false,
            Happening::Lost(_) => false,
            Happening::Decoded(Ok(m)) if m.intent_id.caller@ == caller && m.intent_id.counter
                == counter => true,
            Happening::Connection(id, _) if id.caller@ == caller && id.counter == counter => false,
            Happening::Signal(id, None) if id.caller@ == caller && id.counter == counter => false,
            _ => old(negotiations).pending().contains((caller, counter)),
        },
{
}

/// At first no request is negotiated.
pub proof fn law_nothing_is_negotiated_at_first(
    own: PeerId,
    negotiations: Negotiations,
    caller: Seq<u8>,
    counter: usize,
)
    requires
        call_ensures(Negotiations::new, (own,), negotiations),
    ensures
        !negotiations.pending().contains((caller, counter)),
        negotiations.own() == own@,
{
}

/// Nothing in a series of happenings ends the negotiation of a request.
pub open spec fn goes_on<C, S>(
    happenings: Seq<Happening<C, S>>,
    caller: Seq<u8>,
    counter: usize,
) -> bool {
    forall|k: int|
        0 <= k < happenings.len() ==> {
            let h = #[trigger] happenings[k];
            &&& !(h is Unreachable)
            &&& !(h is Lost)
            &&& !(h matches Happening::Connection(id, _) && id.caller@ == caller && id.counter
                == counter)
            &&& !(h matches Happening::Signal(id, None) && id.caller@ == caller && id.counter
                == counter)
        }
}

/// Every further message of a request, whatever its counter and whatever came
/// between, is handed to the negotiation that the first one began, until that
/// has ended.
pub proof fn law_later_messages_are_delivered<C, S>(
    own: Seq<u8>,
    pending: Set<(Seq<u8>, usize)>,
    first: SignalingMessage<PeerId, S>,
    between: Seq<Happening<C, S>>,
    second: SignalingMessage<PeerId, S>,
    response: Response<C, S>,
)
    requires
        second.intent_id.caller@ == first.intent_id.caller@,
        second.intent_id.counter == first.intent_id.counter,
        goes_on(between, first.intent_id.caller@, first.intent_id.counter),
        responds(
            own,
            pending_after_all(
                pending_after(pending, Happening::<C, S>::Decoded(Ok(first))),
                between,
            ),
            Happening::Decoded(Ok(second)),
            response,
        ),
    ensures
        response matches Response::Deliver(id, s) && id.caller@ == first.intent_id.caller@
            && id.counter == first.intent_id.counter && s == second.signal,
{
    let start = pending_after(pending, Happening::<C, S>::Decoded(Ok(first)));
    lemma_goes_on(start, between, first.intent_id.caller@, first.intent_id.counter);
}

proof fn lemma_goes_on<C, S>(
    pending: Set<(Seq<u8>, usize)>,
    happenings: Seq<Happening<C, S>>,
    caller: Seq<u8>,
    counter: usize,
)
    requires
        pending.contains((caller, counter)),
        goes_on(happenings, caller, counter),
    ensures
        pending_after_all(pending, happenings).contains((caller, counter)),
    decreases happenings.len(),
{
    if happenings.len() > 0 {
        let before = happenings.drop_last();
        assert(forall|k: int| 0 <= k < before.len() ==> #[trigger] before[k] == happenings[k]);
        lemma_goes_on(pending, before, caller, counter);
        let last = happenings[happenings.len() - 1];
        assert(!(last is Unreachable));
    }
}

/// A message of a request whose negotiation has just ended, for whatever reason,
/// begins a new one.
pub proof fn law_ended_request_begins_anew<C, S>(
    ended: &mut Negotiations,
    end: Happening<C, S>,
    of_end: Response<C, S>,
    next: &mut Negotiations,
    message: SignalingMessage<PeerId, S>,
    response: Response<C, S>,
)
    requires
        match end {
            Happening::Unreachable(_) => true,
            Happening::Lost(_) => true,
            Happening::Decoded(_) => false,
            Happening::Connection(id, _) => id.caller@ == message.intent_id.caller@ && id.counter
                == message.intent_id.counter,
            Happening::Signal(id, s) => s is None && id.caller@ == message.intent_id.caller@
                && id.counter == message.intent_id.counter,
        },
        call_ensures(Negotiations::step::<C, S>, (ended, end), of_end),
        *next == *final(ended),
        call_ensures(
            Negotiations::step::<C, S>,
            (next, Happening::<C, S>::Decoded(Ok(message))),
            response,
        ),
    ensures
        response matches Response::Open(id, s) && id.caller@ == message.intent_id.caller@
            && id.counter == message.intent_id.counter && s == message.signal,
{
}

/// Two messages of one request, one right after the other: the first sees to it
/// that there is a negotiation, and the second goes to that.
pub proof fn law_second_message_is_delivered<C, S>(
    once: &mut Negotiations,
    first: SignalingMessage<PeerId, S>,
    of_first: Response<C, S>,
    again: &mut Negotiations,
    second: SignalingMessage<PeerId, S>,
    of_second: Response<C, S>,
)
    requires
        second.intent_id.caller@ == first.intent_id.caller@,
        second.intent_id.counter == first.intent_id.counter,
        call_ensures(
            Negotiations::step::<C, S>,
            (once, Happening::<C, S>::Decoded(Ok(first))),
            of_first,
        ),
        *again == *final(once),
        call_ensures(
            Negotiations::step::<C, S>,
            (again, Happening::<C, S>::Decoded(Ok(second))),
            of_second,
        ),
    ensures
        of_first is Open || of_first is Deliver,
        of_second matches Response::Deliver(_, s) && s == second.signal,
{
}

} // verus!
