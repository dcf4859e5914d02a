//! Listening from the first attempt to reach the signaling server on.
use vstd::arithmetic::power2::{lemma2_to64, lemma_pow2_unfold, pow2};
use vstd::prelude::*;

use crate::error::Error;
use crate::multiaddr::{p2p_component, Multiaddr};
use crate::negotiations::{ends, pending_after, responds, Happening, Negotiations, Response};
use crate::peer::PeerId;
use crate::signaling::{SignalingId, SignalingMessage};
use crate::transport::{next_backoff, ListenStream, Outcome, Upgrade};

verus! {

/// What a listening peer meets with. `C` is a connection that is negotiated,
/// `S` a signal.
pub enum Occurrence<C, S> {
    /// The signaling server has been reached.
    Reached,
    /// Anything else.
    Happened(Happening<C, S>),
}

/// What a listening peer does about it. There is no order to stop listening.
pub enum Order<C, S> {
    /// Announce the address that others can dial.
    Announce(Multiaddr),
    /// Report how a negotiation came out, or that the signaling server could not
    /// be reached or is lost, and wait as long as the report says. What ended is
    /// the negotiation of a request, or all of them together with the connection
    /// to the server.
    Report { ended: Option<SignalingId<PeerId>>, outcome: Result<C, Error>, upgrade: Upgrade },
    /// Begin the negotiation of a request, and hand the signal to it.
    Open(SignalingId<PeerId>, S),
    /// Hand the signal to the negotiation of a request.
    Deliver(SignalingId<PeerId>, S),
    /// Pass over a message that could not be decoded.
    Malformed(String),
    /// Send the message to the signaling server.
    Send(SignalingMessage<PeerId, S>),
    /// There is nothing to do.
    Ignore,
}

/// Where a listening peer stands.
pub struct Standing {
    /// The peer that listens.
    pub own: Seq<u8>,
    /// The address that it was told to listen on.
    pub addr: Seq<u8>,
    /// The address that it announces.
    pub local_addr: Seq<u8>,
    /// Where it connects to the signaling server.
    pub signaling_uri: Seq<char>,
    /// The address has been announced.
    pub announced: bool,
    /// There is a connection to the signaling server.
    pub connected: bool,
    /// How long the last wait for the signaling server was, in seconds.
    pub backoff: Option<nat>,
    /// The requests that are negotiated.
    pub pending: Set<(Seq<u8>, usize)>,
}

impl Standing {
    /// The next wait would be too long to count its seconds.
    pub open spec fn exhausted(self) -> bool {
        self.backoff matches Some(b) && b * 2 > u64::MAX
    }

    /// How what happened bears on the next wait.
    pub open spec fn outcome<C, S>(self, happening: Happening<C, S>) -> Outcome {
        match happening {
            Happening::Unreachable(_) => Outcome::Unreachable,
            Happening::Connection(id, Some(Ok(_))) if self.pending.contains(id@) =>
                Outcome::Connected,
            _ => Outcome::Failed,
        }
    }

    /// Where the peer stands afterwards.
    pub open spec fn after<C, S>(self, occurrence: Occurrence<C, S>) -> Standing {
        match occurrence {
            Occurrence::Reached => Standing { announced: true, connected: true, ..self },
            Occurrence::Happened(happening) => Standing {
                connected: self.connected && !(happening is Unreachable) && !(happening is Lost),
                backoff: next_backoff(self.backoff, self.outcome(happening)),
                pending: pending_after(self.pending, happening),
                ..self
            },
        }
    }

    /// `upgrade` is what is to be reported of what happened, where `caller` is
    /// the peer with which there is a connection, if there is one.
    pub open spec fn reports<C, S>(
        self,
        happening: Happening<C, S>,
        caller: Option<Seq<u8>>,
        upgrade: Upgrade,
    ) -> bool {
        &&& upgrade.local_addr@ == self.local_addr
        &&& upgrade.remote_addr@ == match caller {
            Some(peer) => self.addr + p2p_component(peer),
            None => self.addr,
        }
        &&& match upgrade.wait_for {
            Some(seconds) => happening is Unreachable && self.after(
                Occurrence::Happened(happening),
            ).backoff == Some(seconds as nat),
            None => !(happening is Unreachable),
        }
    }

    /// What the peer is to do.
    pub open spec fn orders<C, S>(self, occurrence: Occurrence<C, S>, order: Order<C, S>) -> bool {
        match occurrence {
            Occurrence::Reached => match order {
                Order::Announce(addr) => !self.announced && addr@ == self.local_addr,
                Order::Ignore => self.announced,
                _ => false,
            },
            Occurrence::Happened(happening) => match order {
                Order::Announce(_) => false,
                Order::Report { ended: Some(id), outcome: Ok(connection), upgrade } => {
                    &&& happening matches Happening::Connection(request, Some(Ok(c)))
                    &&& self.pending.contains(request@)
                    &&& id@ == request@
                    &&& connection == c
                    &&& self.reports(happening, Some(request.caller@), upgrade)
                },
                Order::Report { ended: Some(id), outcome: Err(e), upgrade } => responds(
                    self.own,
                    self.pending,
                    happening,
                    Response::Fail(id, e),
                ) && self.reports(happening, None, upgrade),
                Order::Report { ended: None, outcome: Err(e), upgrade } => responds(
                    self.own,
                    self.pending,
                    happening,
                    Response::Reconnect(e),
                ) && self.reports(happening, None, upgrade),
                Order::Report { ended: None, outcome: Ok(_), upgrade: _ } => false,
                Order::Open(id, signal) => responds(
                    self.own,
                    self.pending,
                    happening,
                    Response::Open(id, signal),
                ),
                Order::Deliver(id, signal) => responds(
                    self.own,
                    self.pending,
                    happening,
                    Response::Deliver(id, signal),
                ),
                Order::Malformed(reason) => responds(
                    self.own,
                    self.pending,
                    happening,
                    Response::Malformed(reason),
                ),
                Order::Send(message) => responds(
                    self.own,
                    self.pending,
                    happening,
                    Response::Send(message),
                ),
                Order::Ignore => responds(self.own, self.pending, happening, Response::Ignore),
            },
        }
    }
}

/// A peer that listens.
#[derive(Debug)]
pub struct Listening {
    stream: ListenStream,
    negotiations: Negotiations,
    connected: bool,
}

impl View for Listening {
    type V = Standing;

    closed spec fn view(&self) -> Standing {
        Standing {
            own: self.negotiations.own(),
            addr: self.stream.addr(),
            local_addr: self.stream.local_addr(),
            signaling_uri: self.stream.signaling_uri(),
            announced: self.stream.announced(),
            connected: self.connected,
            backoff: self.stream.backoff(),
            pending: self.negotiations.pending(),
        }
    }
}

impl Listening {
    pub closed spec fn well_formed(self) -> bool {
        self.stream.well_formed() && self.negotiations.well_formed()
    }

    /// A peer that begins to listen.
    pub fn new(stream: ListenStream, own_peer_id: PeerId) -> (listening: Listening)
        requires
            stream.well_formed(),
        ensures
            listening.well_formed(),
            listening@ == (Standing {
                own: own_peer_id@,
                addr: stream.addr(),
                local_addr: stream.local_addr(),
                signaling_uri: stream.signaling_uri(),
                announced: stream.announced(),
                connected: false,
                backoff: stream.backoff(),
                pending: Set::empty(),
            }),
    {
        Listening { stream, negotiations: Negotiations::new(own_peer_id), connected: false }
    }

    /// Where to connect to the signaling server.
    pub fn uri(&self) -> (uri: &str)
        ensures
            uri@ == self@.signaling_uri,
    {
        self.stream.uri()
    }

    /// Whether there is a connection to the signaling server. Where there is
    /// none, the next thing to do is to make one.
    pub fn is_connected(&self) -> (connected: bool)
        ensures
            connected == self@.connected,
    {
        self.connected
    }

    /// Whether the next wait would be too long to count its seconds.
    pub fn is_exhausted(&self) -> (exhausted: bool)
        ensures
            exhausted == self@.exhausted(),
    {
        self.stream.is_exhausted()
    }

    /// Decides what the listening peer does.
    pub fn step<C, S>(&mut self, occurrence: Occurrence<C, S>) -> (order: Order<C, S>)
        requires
            old(self).well_formed(),
            occurrence matches Occurrence::Happened(Happening::Unreachable(_)) ==> !old(
                self,
            )@.exhausted(),
        ensures
            final(self).well_formed(),
            final(self)@ == old(self)@.after(occurrence),
            old(self)@.orders(occurrence, order),
    {
        match occurrence {
            Occurrence::Reached => {
                self.connected = true;
                match self.stream.on_reached() {
                    Some(addr) => Order::Announce(addr),
                    None => Order::Ignore,
                }
            },
            Occurrence::Happened(happening) => match self.negotiations.step(happening) {
                Response::Reconnect(e) => {
                    self.connected = false;
                    let upgrade = self.stream.on_upgrade(Err(&e));
                    Order::Report { ended: None, outcome: Err(e), upgrade }
                },
                Response::Finish { intent, caller, connection } => {
                    let upgrade = self.stream.on_upgrade(Ok(&caller));
                    Order::Report { ended: Some(intent), outcome: Ok(connection), upgrade }
                },
                Response::Fail(intent, e) => {
                    let upgrade = self.stream.on_upgrade(Err(&e));
                    Order::Report { ended: Some(intent), outcome: Err(e), upgrade }
                },
                Response::Open(intent, signal) => Order::Open(intent, signal),
                Response::Deliver(intent, signal) => Order::Deliver(intent, signal),
                Response::Malformed(reason) => Order::Malformed(reason),
                Response::Send(message) => Order::Send(message),
                Response::Ignore => Order::Ignore,
            },
        }
    }
}

/// Where a listening peer stands after a series of occurrences.
pub open spec fn standing_after<C, S>(
    standing: Standing,
    occurrences: Seq<Occurrence<C, S>>,
) -> Standing
    decreases occurrences.len(),
{
    if occurrences.len() == 0 {
        standing
    } else {
        standing_after(standing, occurrences.drop_last()).after(occurrences.last())
    }
}

/// `orders` are what a peer that stands so does about one occurrence after the
/// other.
pub open spec fn is_course<C, S>(
    standing: Standing,
    occurrences: Seq<Occurrence<C, S>>,
    orders: Seq<Order<C, S>>,
) -> bool {
    &&& orders.len() == occurrences.len()
    &&& forall|i: int|
        0 <= i < orders.len() ==> standing_after(standing, occurrences.take(i)).orders(
            occurrences[i],
            #[trigger] orders[i],
        )
}

/// The occurrence ends the negotiation of a request, if there is one.
pub open spec fn ends_request<C, S>(
    occurrence: Occurrence<C, S>,
    request: (Seq<u8>, usize),
) -> bool {
    occurrence matches Occurrence::Happened(happening) && ends(happening, request)
}

/// Some things stay as they are while a peer listens.
pub proof fn lemma_standing_keeps<C, S>(standing: Standing, occurrences: Seq<Occurrence<C, S>>)
    ensures
        ({
            let after = standing_after(standing, occurrences);
            &&& after.own == standing.own
            &&& after.addr == standing.addr
            &&& after.local_addr == standing.local_addr
            &&& after.signaling_uri == standing.signaling_uri
        }),
    decreases occurrences.len(),
{
    if occurrences.len() > 0 {
        lemma_standing_keeps(standing, occurrences.drop_last());
    }
}

/// Listening never ends, whatever comes of it: a peer that is not connected to
/// the signaling server connects under the URI that it began with, a failure
/// shows in the report of it and nowhere else, and after a failure to reach or
/// to keep the server another attempt follows.
pub proof fn law_listening_goes_on<C, S>(
    standing: Standing,
    occurrences: Seq<Occurrence<C, S>>,
    orders: Seq<Order<C, S>>,
    i: int,
)
    requires
        is_course(standing, occurrences, orders),
        0 <= i < orders.len(),
    ensures
        standing_after(standing, occurrences).signaling_uri == standing.signaling_uri,
        orders[i] matches Order::Report { ended, outcome, upgrade } ==> {
            &&& upgrade.local_addr@ == standing.local_addr
            &&& outcome is Err ==> upgrade.remote_addr@ == standing.addr
            &&& ended is None ==> outcome is Err && !standing_after(
                standing,
                occurrences.take(i + 1),
            ).connected
        },
        occurrences[i] matches Occurrence::Happened(Happening::Unreachable(_)) ==> orders[i] matches Order::Report {
            ended: None,
            outcome: Err(e),
            upgrade,
        } && e.is_unreachable() && upgrade.wait_for is Some,
        occurrences[i] matches Occurrence::Happened(Happening::Lost(_)) ==> orders[i] matches Order::Report {
            ended: None,
            outcome: Err(e),
            upgrade,
        } && e is Internal && upgrade.wait_for is None,
{
    lemma_standing_keeps(standing, occurrences);
    lemma_standing_keeps(standing, occurrences.take(i));
    assert(standing_after(standing, occurrences.take(i)).orders(occurrences[i], orders[i]));
    assert(occurrences.take(i + 1).drop_last() =~= occurrences.take(i));
    assert(occurrences.take(i + 1).last() == occurrences[i]);
}

/// Every negotiation that ends is reported, once, and so is every failure to
/// reach or to keep the signaling server; nothing else is.
pub proof fn law_outcomes_are_reported<C, S>(
    standing: Standing,
    happening: Happening<C, S>,
    order: Order<C, S>,
)
    requires
        standing.orders(Occurrence::Happened(happening), order),
    ensures
        order is Report <==> match happening {
            Happening::Unreachable(_) => true,
            Happening::Lost(_) => true,
            Happening::Decoded(_) => false,
            Happening::Connection(id, _) => standing.pending.contains(id@),
            Happening::Signal(id, signal) => signal is None && standing.pending.contains(id@),
        },
{
}

/// A request is negotiated from its message on until something ends that.
pub proof fn lemma_request_stays_pending<C, S>(
    standing: Standing,
    occurrences: Seq<Occurrence<C, S>>,
    from: int,
    to: int,
    message: SignalingMessage<PeerId, S>,
)
    requires
        0 <= from < to <= occurrences.len(),
        occurrences[from] == Occurrence::Happened(Happening::<C, S>::Decoded(Ok(message))),
        forall|k: int|
            from < k < to ==> !ends_request(#[trigger] occurrences[k], message.intent_id@),
    ensures
        standing_after(standing, occurrences.take(to)).pending.contains(message.intent_id@),
    decreases to,
{
    let now = occurrences.take(to);
    assert(now.drop_last() =~= occurrences.take(to - 1));
    assert(now.last() == occurrences[to - 1]);
    if from < to - 1 {
        lemma_request_stays_pending(standing, occurrences, from, to - 1, message);
        assert(!ends_request(occurrences[to - 1], message.intent_id@));
    }
}

/// A request whose message came in at `from` and whose connection stands at
/// `to`.
pub struct Served<C, S> {
    pub from: int,
    pub to: int,
    pub message: SignalingMessage<PeerId, S>,
    pub id: SignalingId<PeerId>,
    pub connection: C,
}

impl<C, S> Served<C, S> {
    /// This is what occurred, and nothing ended the negotiation in between.
    pub open spec fn occurred(self, occurrences: Seq<Occurrence<C, S>>) -> bool {
        &&& 0 <= self.from < self.to < occurrences.len()
        &&& occurrences[self.from] == Occurrence::Happened(
            Happening::<C, S>::Decoded(Ok(self.message)),
        )
        &&& self.id@ == self.message.intent_id@
        &&& occurrences[self.to] == Occurrence::Happened(
            Happening::<C, S>::Connection(self.id, Some(Ok(self.connection))),
        )
        &&& forall|k: int|
            self.from < k < self.to ==> !ends_request(
                #[trigger] occurrences[k],
                self.message.intent_id@,
            )
    }

    /// The order is to report the connection, with the peer that dialed as the
    /// remote end.
    pub open spec fn is_reported(self, standing: Standing, order: Order<C, S>) -> bool {
        &&& order matches Order::Report { ended: Some(id), outcome: Ok(c), upgrade }
        &&& id@ == self.message.intent_id@
        &&& c == self.connection
        &&& upgrade.remote_addr@ == standing.addr + p2p_component(self.message.intent_id.caller@)
        &&& upgrade.local_addr@ == standing.local_addr
        &&& upgrade.wait_for is None
    }
}

/// However many peers dial at once, and however their negotiations interleave,
/// each connection that comes to stand is reported, with the peer that dialed
/// as the remote end.
pub proof fn law_all_dialers_are_reported<C, S>(
    standing: Standing,
    occurrences: Seq<Occurrence<C, S>>,
    orders: Seq<Order<C, S>>,
    dialers: Seq<Served<C, S>>,
)
    requires
        is_course(standing, occurrences, orders),
        forall|n: int| 0 <= n < dialers.len() ==> (#[trigger] dialers[n]).occurred(occurrences),
    ensures
        forall|n: int|
            0 <= n < dialers.len() ==> (#[trigger] dialers[n]).is_reported(
                standing,
                orders[dialers[n].to],
            ),
{
    assert forall|n: int| 0 <= n < dialers.len() implies (#[trigger] dialers[n]).is_reported(
        standing,
        orders[dialers[n].to],
    ) by {
        let d = dialers[n];
        assert(d.occurred(occurrences));
        lemma_request_stays_pending(standing, occurrences, d.from, d.to, d.message);
        lemma_standing_keeps(standing, occurrences.take(d.to));
        let before = standing_after(standing, occurrences.take(d.to));
        assert(before.orders(occurrences[d.to], orders[d.to]));
        assert(d.id@.0 == d.message.intent_id@.0);
    }
}

/// What a listening peer does, by what it does. An address is announced only
/// when the server is reached, and only if it was not before. A connection that
/// is reported stands, of a request that is negotiated, and its remote end is
/// the peer that made the request. A failure that is reported is one of a request
/// that is negotiated, or one to reach or to keep the server. There is a wait
/// exactly where the server could not be reached. All else goes to the
/// negotiation of its request, begins it if there is none, or comes from it.
pub proof fn law_orders<C, S>(
    listening: &mut Listening,
    occurrence: Occurrence<C, S>,
    order: Order<C, S>,
)
    requires
        call_ensures(Listening::step::<C, S>, (listening, occurrence), order),
    ensures
        ({
            let was = old(listening)@;
            let negotiated = |id: SignalingId<PeerId>|
                was.pending.contains((id.caller@, id.counter));
            let same = |a: SignalingId<PeerId>, b: SignalingId<PeerId>|
                a.caller@ == b.caller@ && a.counter == b.counter;
            match order {
                Order::Announce(addr) => occurrence is Reached && !was.announced && addr@
                    == was.local_addr,
                Order::Report { ended, outcome: Ok(connection), upgrade } => {
                    &&& occurrence matches Occurrence::Happened(
                        Happening::Connection(id, Some(Ok(c))),
                    )
                    &&& negotiated(id)
                    &&& ended matches Some(e) && same(e, id)
                    &&& connection == c
                    &&& upgrade.remote_addr@ == was.addr + p2p_component(id.caller@)
                    &&& upgrade.local_addr@ == was.local_addr
                    &&& upgrade.wait_for is None
                },
                Order::Report { ended: Some(e), outcome: Err(error), upgrade } => {
                    &&& error matches Error::Internal(reason)
                    &&& upgrade.remote_addr@ == was.addr
                    &&& upgrade.local_addr@ == was.local_addr
                    &&& upgrade.wait_for is None
                    &&& match occurrence {
                        Occurrence::Happened(Happening::Connection(id, None)) => same(e, id)
                            && negotiated(id) && reason@ == "Stream ended"@,
                        Occurrence::Happened(Happening::Connection(id, Some(Err(r)))) => same(e, id)
                            && negotiated(id) && reason@ == r@,
                        Occurrence::Happened(Happening::Signal(id, None)) => same(e, id)
                            && negotiated(id) && reason@ == "Stream ended"@,
                        _ => false,
                    }
                },
                Order::Report { ended: None, outcome: Err(error), upgrade } => {
                    &&& upgrade.remote_addr@ == was.addr
                    &&& upgrade.local_addr@ == was.local_addr
                    &&& match error {
                        Error::ConnectionToSignalingServerFailed(reason) => occurrence
                            == Occurrence::Happened(Happening::<C, S>::Unreachable(reason))
                            && upgrade.wait_for is Some,
                        Error::Internal(reason) => (occurrence matches Occurrence::Happened(
                            Happening::Lost(r),
                        ) && reason@ == r@) && upgrade.wait_for is None,
                    }
                },
                Order::Open(id, s) => occurrence matches Occurrence::Happened(
                    Happening::Decoded(Ok(m)),
                ) && same(id, m.intent_id) && s == m.signal && !negotiated(m.intent_id),
                Order::Deliver(id, s) => occurrence matches Occurrence::Happened(
                    Happening::Decoded(Ok(m)),
                ) && same(id, m.intent_id) && s == m.signal && negotiated(m.intent_id),
                Order::Malformed(reason) => occurrence == Occurrence::Happened(
                    Happening::<C, S>::Decoded(Err(reason)),
                ),
                Order::Send(m) => occurrence matches Occurrence::Happened(
                    Happening::Signal(id, Some(s)),
                ) && same(m.intent_id, id) && m.signal == s && m.callee@ == was.own && negotiated(
                    id,
                ),
                Order::Ignore => match occurrence {
                    Occurrence::Reached => was.announced,
                    Occurrence::Happened(Happening::Connection(id, _)) => !negotiated(id),
                    Occurrence::Happened(Happening::Signal(id, _)) => !negotiated(id),
                    _ => false,
                },
            }
        }),
{
}

/// How a listening peer stands afterwards. The peer, the addresses and the URI
/// stay. It is connected from reaching the server until it is lost or found
/// unreachable. The address stays announced once it is. What is waited is kept
/// but for a connection that is reported, which forgets it, and a server that
/// could not be reached, for which the wait is the one that is reported: one
/// second, or twice the last.
pub proof fn law_standings<C, S>(
    listening: &mut Listening,
    occurrence: Occurrence<C, S>,
    order: Order<C, S>,
)
    requires
        call_ensures(Listening::step::<C, S>, (listening, occurrence), order),
    ensures
        ({
            let was = old(listening)@;
            let now = final(listening)@;
            &&& now.own == was.own
            &&& now.addr == was.addr
            &&& now.local_addr == was.local_addr
            &&& now.signaling_uri == was.signaling_uri
            &&& now.connected <==> match occurrence {
                Occurrence::Reached => true,
                Occurrence::Happened(Happening::Unreachable(_)) => false,
                Occurrence::Happened(Happening::Lost(_)) => false,
                _ => was.connected,
            }
            &&& now.announced <==> was.announced || occurrence is Reached
            &&& match order {
                Order::Report { outcome: Ok(_), .. } => now.backoff is None,
                Order::Report { upgrade, .. } if upgrade.wait_for is Some => {
                    &&& now.backoff == Some(upgrade.wait_for->0 as nat)
                    &&& was.backoff is None ==> upgrade.wait_for == Some(1u64)
                    &&& was.backoff matches Some(b) ==> upgrade.wait_for->0 == b + b
                },
                _ => now.backoff == was.backoff,
            }
        }),
        forall|caller: Seq<u8>, counter: usize| #[trigger]
            final(listening)@.pending.contains((caller, counter)) <==> match occurrence {
                Occurrence::Happened(Happening::Unreachable(_)) => false,
                Occurrence::Happened(Happening::Lost(_)) => false,
                Occurrence::Happened(Happening::Decoded(Ok(m))) if m.intent_id.caller@ == caller
                    && m.intent_id.counter == counter => true,
                Occurrence::Happened(Happening::Connection(id, _)) if id.caller@ == caller
                    && id.counter == counter => false,
                Occurrence::Happened(Happening::Signal(id, None)) if id.caller@ == caller
                    && id.counter == counter => false,
                _ => old(listening)@.pending.contains((caller, counter)),
            },
{
}

/// A peer that begins to listen is not connected and negotiates nothing.
pub proof fn law_listening_begins(
    stream: ListenStream,
    own: PeerId,
    listening: Listening,
    of_stream: &str,
    uri: &str,
    connected: bool,
    limited: bool,
    exhausted: bool,
)
    requires
        call_ensures(Listening::new, (stream, own), listening),
        call_ensures(ListenStream::uri, (&stream,), of_stream),
        call_ensures(Listening::uri, (&listening,), uri),
        call_ensures(Listening::is_connected, (&listening,), connected),
        call_ensures(ListenStream::is_exhausted, (&stream,), limited),
        call_ensures(Listening::is_exhausted, (&listening,), exhausted),
    ensures
        uri@ == of_stream@,
        !connected,
        exhausted == limited,
        listening@.own == own@,
        listening@.addr == stream.addr(),
        listening@.local_addr == stream.local_addr(),
        listening@.announced == stream.announced(),
        listening@.backoff == stream.backoff(),
        forall|request: (Seq<u8>, usize)| !#[trigger] listening@.pending.contains(request),
{
}

/// How often the signaling server could not be reached since a connection was
/// reported.
pub open spec fn failures_since_report<C, S>(
    occurrences: Seq<Occurrence<C, S>>,
    orders: Seq<Order<C, S>>,
) -> nat
    decreases occurrences.len(),
{
    if occurrences.len() == 0 {
        0
    } else {
        let before = failures_since_report(occurrences.drop_last(), orders.drop_last());
        if orders.last() matches Order::Report { outcome: Ok(_), .. } {
            0
        } else if occurrences.last() matches Occurrence::Happened(Happening::Unreachable(_)) {
            before + 1
        } else {
            before
        }
    }
}

proof fn lemma_course_waits<C, S>(
    standing: Standing,
    occurrences: Seq<Occurrence<C, S>>,
    orders: Seq<Order<C, S>>,
)
    requires
        is_course(standing, occurrences, orders),
        standing.backoff is None,
    ensures
        match standing_after(standing, occurrences).backoff {
            Some(b) => {
                &&& failures_since_report(occurrences, orders) > 0
                &&& b == pow2((failures_since_report(occurrences, orders) - 1) as nat)
            },
            None => failures_since_report(occurrences, orders) == 0,
        },
    decreases occurrences.len(),
{
    if occurrences.len() > 0 {
        let n = occurrences.len() - 1;
        let earlier = occurrences.drop_last();
        let before = orders.drop_last();
        assert(earlier =~= occurrences.take(n));
        assert forall|i: int| 0 <= i < before.len() implies standing_after(
            standing,
            earlier.take(i),
        ).orders(earlier[i], #[trigger] before[i]) by {
            assert(before[i] == orders[i]);
            assert(earlier.take(i) =~= occurrences.take(i));
            assert(standing_after(standing, occurrences.take(i)).orders(occurrences[i], orders[i]));
        }
        lemma_course_waits(standing, earlier, before);
        assert(standing_after(standing, occurrences.take(n)).orders(occurrences[n], orders[n]));
        let k = failures_since_report(earlier, before);
        if k > 0 {
            lemma_pow2_unfold(k);
        } else {
            lemma2_to64();
        }
    }
}

/// The wait for a server that could not be reached is one second after a
/// connection was reported, or at first, and doubles with every failure since:
/// for the `n`th it is two to the power of `n - 1` seconds. Nothing but a
/// connection that is reported starts this anew.
pub proof fn law_waits_start_anew<C, S>(
    standing: Standing,
    occurrences: Seq<Occurrence<C, S>>,
    orders: Seq<Order<C, S>>,
    i: int,
)
    requires
        is_course(standing, occurrences, orders),
        standing.backoff is None,
        0 <= i < occurrences.len(),
    ensures
        occurrences[i] matches Occurrence::Happened(Happening::Unreachable(_)) ==> {
            &&& orders[i] matches Order::Report { upgrade, .. }
            &&& upgrade.wait_for matches Some(seconds)
            &&& failures_since_report(occurrences.take(i + 1), orders.take(i + 1)) > 0
            &&& seconds == pow2(
                (failures_since_report(occurrences.take(i + 1), orders.take(i + 1)) - 1) as nat,
            )
        },
        orders[i] matches Order::Report { outcome: Ok(_), .. } ==> standing_after(
            standing,
            occurrences.take(i + 1),
        ).backoff is None,
{
    let now = occurrences.take(i + 1);
    let done = orders.take(i + 1);
    assert forall|k: int| 0 <= k < done.len() implies standing_after(standing, now.take(k)).orders(
        now[k],
        #[trigger] done[k],
    ) by {
        assert(done[k] == orders[k]);
        assert(now.take(k) =~= occurrences.take(k));
        assert(standing_after(standing, occurrences.take(k)).orders(occurrences[k], orders[k]));
    }
    lemma_course_waits(standing, now, done);
    assert(now.drop_last() =~= occurrences.take(i));
    assert(now.last() == occurrences[i]);
    assert(standing_after(standing, occurrences.take(i)).orders(occurrences[i], orders[i]));
    assert(done.last() == orders[i]);
}

/// The address is announced the first time that the server is reached, and at no
/// other time.
pub proof fn law_announced_when_first_reached<C, S>(
    standing: Standing,
    occurrences: Seq<Occurrence<C, S>>,
    orders: Seq<Order<C, S>>,
    i: int,
)
    requires
        is_course(standing, occurrences, orders),
        !standing.announced,
        0 <= i < occurrences.len(),
    ensures
        orders[i] is Announce <==> occurrences[i] is Reached && forall|k: int|
            0 <= k < i ==> !(#[trigger] occurrences[k] is Reached),
        orders[i] matches Order::Announce(addr) ==> addr@ == standing.local_addr,
{
    lemma_announced(standing, occurrences, i);
    lemma_standing_keeps(standing, occurrences.take(i));
    assert(standing_after(standing, occurrences.take(i)).orders(occurrences[i], orders[i]));
}

proof fn lemma_announced<C, S>(standing: Standing, occurrences: Seq<Occurrence<C, S>>, n: int)
    requires
        !standing.announced,
        0 <= n <= occurrences.len(),
    ensures
        standing_after(standing, occurrences.take(n)).announced <==> exists|k: int|
            0 <= k < n && #[trigger] occurrences[k] is Reached,
    decreases n,
{
    if n > 0 {
        lemma_announced(standing, occurrences, n - 1);
        assert(occurrences.take(n).drop_last() =~= occurrences.take(n - 1));
        assert(occurrences.take(n).last() == occurrences[n - 1]);
    }
}

/// A peer is connected to the server exactly when the last that was heard of the
/// server is that it was reached.
pub proof fn law_connected_since_reached<C, S>(
    standing: Standing,
    occurrences: Seq<Occurrence<C, S>>,
    i: int,
)
    requires
        0 <= i < occurrences.len(),
        forall|k: int|
            i < k < occurrences.len() ==> !(#[trigger] occurrences[k] is Reached) && !(
            occurrences[k] matches Occurrence::Happened(Happening::Unreachable(_))) && !(
            occurrences[k] matches Occurrence::Happened(Happening::Lost(_))),
    ensures
        occurrences[i] is Reached ==> standing_after(standing, occurrences).connected,
        occurrences[i] matches Occurrence::Happened(Happening::Unreachable(_)) ==> !standing_after(
            standing,
            occurrences,
        ).connected,
        occurrences[i] matches Occurrence::Happened(Happening::Lost(_)) ==> !standing_after(
            standing,
            occurrences,
        ).connected,
    decreases occurrences.len(),
{
    if i < occurrences.len() - 1 {
        let before = occurrences.drop_last();
        assert(forall|k: int| 0 <= k < before.len() ==> #[trigger] before[k] == occurrences[k]);
        law_connected_since_reached(standing, before, i);
        assert(!(occurrences[occurrences.len() - 1] is Reached));
    }
}

/// What a peer that listens does is a step of a course.
pub proof fn law_steps_make_a_course<C, S>(
    listening: &mut Listening,
    occurrence: Occurrence<C, S>,
    order: Order<C, S>,
)
    requires
        call_ensures(Listening::step::<C, S>, (listening, occurrence), order),
    ensures
        final(listening)@ == standing_after(old(listening)@, seq![occurrence]),
        is_course(old(listening)@, seq![occurrence], seq![order]),
{
    assert(seq![occurrence].drop_last() =~= Seq::<Occurrence<C, S>>::empty());
    assert(seq![occurrence].take(0) =~= Seq::<Occurrence<C, S>>::empty());
    assert(standing_after(old(listening)@, seq![occurrence].drop_last()) == old(listening)@);
    assert(standing_after(old(listening)@, seq![occurrence].take(0)) == old(listening)@);
}

} // verus!
