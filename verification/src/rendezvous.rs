//! How two peers meet at the signaling server: the paths under which they
//! connect make them known by what their messages are addressed to.
use vstd::prelude::*;

use crate::listening::{
    is_course, law_all_dialers_are_reported, lemma_request_stays_pending, lemma_standing_keeps,
    standing_after, Occurrence, Order, Served, Standing,
};
use crate::multiaddr::p2p_component;
use crate::negotiations::{pending_after, responds, Happening, Response};
use crate::peer::{displayed, peer_id_text, text_names, PeerId};
use crate::server::{passed_on, Passed};
use crate::session::{Action, Dialer, Event};
use crate::signaling::{client_of_path, destination, SignalingId, SignalingMessage};
use crate::text::{
    all_digits, decimal, lemma_counter_round_trip, lemma_decimal_digits, lemma_split_append,
    lemma_split_plain, split,
};
use crate::transport::{dial_path, listen_path};
use crate::ws::Message;

verus! {

proof fn lemma_split_listen_path(own: Seq<u8>)
    requires
        displayed(own, peer_id_text(own)),
    ensures
        split(listen_path(own), '/') == seq![Seq::empty(), peer_id_text(own)],
{
    reveal_strlit("/");
    let empty = Seq::<char>::empty();
    assert(!empty.contains('/'));
    lemma_split_plain(empty, '/');
    lemma_split_append(empty, '/', peer_id_text(own));
    assert(listen_path(own) =~= empty.push('/') + peer_id_text(own));
    assert(seq![empty].push(peer_id_text(own)) =~= seq![empty, peer_id_text(own)]);
}

/// A peer that listens becomes known to the server by itself alone, be the
/// server one that goes by texts or one that goes by peer ids.
pub proof fn law_listener_is_known_by_itself(own: Seq<u8>)
    requires
        displayed(own, peer_id_text(own)),
    ensures
        client_of_path(listen_path(own)) == Some((peer_id_text(own), None::<usize>)),
        text_names(peer_id_text(own), own),
{
    lemma_split_listen_path(own);
}

/// A peer that dials becomes known to the server by itself and the counter of
/// the request, be the server one that goes by texts or one that goes by peer
/// ids.
pub proof fn law_dialer_is_known_by_request(own: Seq<u8>, counter: usize)
    requires
        displayed(own, peer_id_text(own)),
    ensures
        client_of_path(dial_path(own, counter)) == Some((peer_id_text(own), Some(counter))),
        text_names(peer_id_text(own), own),
{
    reveal_strlit("/");
    lemma_split_listen_path(own);
    let digits = decimal(counter as nat);
    lemma_decimal_digits(counter as nat);
    assert(!digits.contains('/')) by {
        if digits.contains('/') {
            let i = choose|i: int| 0 <= i < digits.len() && digits[i] == '/';
            assert(all_digits(digits));
            assert(digits[i] == '/');
        }
    }
    lemma_split_append(listen_path(own), '/', digits);
    assert(dial_path(own, counter) =~= listen_path(own).push('/') + digits);
    lemma_counter_round_trip(counter);
}

/// What a dialing peer sends arrives: the server passes it on to the listening
/// peer, which hands it to the negotiation of this request, whatever other
/// requests it is negotiating. This is said of two peers; a peer that dials
/// itself is another matter.
pub proof fn law_offer_arrives<C, S>(
    dialer: Dialer,
    signal: S,
    offer: SignalingMessage<PeerId, S>,
    pending: Set<(Seq<u8>, usize)>,
    response: Response<C, S>,
)
    requires
        dialer.answers::<C, S>(Event::Signal(Some(signal)), Action::Send(offer)),
        dialer.identifier.caller@ != dialer.callee@,
        responds(dialer.callee@, pending, Happening::Decoded(Ok(offer)), response),
    ensures
        destination(dialer.identifier.caller@, offer.intent_id@, offer.callee@) == (
            dialer.callee@,
            None::<usize>,
        ),
        match response {
            Response::Open(id, s) => id@ == dialer.identifier@ && s == signal,
            Response::Deliver(id, s) => id@ == dialer.identifier@ && s == signal,
            _ => false,
        },
        pending_after::<C, S>(pending, Happening::Decoded(Ok(offer))).contains(dialer.identifier@),
{
}

/// What a listening peer sends in reply arrives: the server passes it on to the
/// connection that the dialing peer opened for this request, and the dialing
/// peer delivers it.
pub proof fn law_answer_arrives<C, S>(
    dialer: Dialer,
    signal: S,
    answer: SignalingMessage<PeerId, S>,
    own: Seq<u8>,
    pending: Set<(Seq<u8>, usize)>,
    id: SignalingId<PeerId>,
)
    requires
        id@ == dialer.identifier@,
        pending.contains(id@),
        responds::<C, S>(
            own,
            pending,
            Happening::Signal(id, Some(signal)),
            Response::Send(answer),
        ),
    ensures
        destination(own, answer.intent_id@, answer.callee@) == (
            dialer.identifier.caller@,
            Some(dialer.identifier.counter),
        ),
        dialer.answers::<C, S>(Event::Decoded(Ok(answer)), Action::Deliver(signal)),
{
}

/// The connection that both come to is with the peer that dialed.
pub proof fn law_caller_is_reported<C, S>(
    dialer: Dialer,
    connection: C,
    own: Seq<u8>,
    pending: Set<(Seq<u8>, usize)>,
    id: SignalingId<PeerId>,
    response: Response<C, S>,
)
    requires
        id@ == dialer.identifier@,
        pending.contains(id@),
        responds(own, pending, Happening::Connection(id, Some(Ok(connection))), response),
    ensures
        response matches Response::Finish { intent, caller, connection: c } && intent@
            == dialer.identifier@ && caller@ == dialer.identifier.caller@ && c == connection,
{
}

/// A peer that dials itself gets its own offers back: the server takes them for
/// answers.
pub proof fn law_own_offer_comes_back<C, S>(
    dialer: Dialer,
    signal: S,
    offer: SignalingMessage<PeerId, S>,
)
    requires
        dialer.answers::<C, S>(Event::Signal(Some(signal)), Action::Send(offer)),
        dialer.identifier.caller@ == dialer.callee@,
    ensures
        destination(dialer.identifier.caller@, offer.intent_id@, offer.callee@) == (
            dialer.identifier.caller@,
            Some(dialer.identifier.counter),
        ),
        dialer.answers::<C, S>(Event::Decoded(Ok(offer)), Action::Deliver(signal)),
{
}

/// Answers to different requests go to different connections, and no answer
/// goes to a peer that listens.
pub proof fn law_answers_do_not_cross<V>(callee: V, first: (V, usize), second: (V, usize))
    requires
        first != second,
    ensures
        destination(callee, first, callee) != destination(callee, second, callee),
        destination(callee, first, callee).1 is Some,
{
}

/// A server that goes by the texts of peer ids passes messages on to the same
/// clients as one that goes by the peer ids.
pub proof fn law_texts_route_alike(
    sender: Seq<u8>,
    caller: Seq<u8>,
    counter: usize,
    callee: Seq<u8>,
)
    requires
        displayed(sender, peer_id_text(sender)),
        displayed(caller, peer_id_text(caller)),
        displayed(callee, peer_id_text(callee)),
    ensures
        destination(peer_id_text(sender), (peer_id_text(caller), counter), peer_id_text(callee)) == (
            peer_id_text(destination(sender, (caller, counter), callee).0),
            destination(sender, (caller, counter), callee).1,
        ),
{
}

/// Once a listening and a dialing peer are connected to the server, offers
/// reach the one and answers the other, whoever else is connected.
pub proof fn law_connected_peers_meet<V, T>(
    clients: Map<(V, Option<usize>), T>,
    caller: V,
    counter: usize,
    callee: V,
    listening: T,
    dialing: T,
)
    requires
        caller != callee,
    ensures
        ({
            let both = clients.insert((callee, None), listening).insert(
                (caller, Some(counter)),
                dialing,
            );
            let offer = destination(caller, (caller, counter), callee);
            let answer = destination(callee, (caller, counter), callee);
            &&& both.contains_key(offer) && both[offer] == listening
            &&& both.contains_key(answer) && both[answer] == dialing
        }),
{
}

/// A client that was connected and is gone leaves no trace, and all others are
/// reached as before.
pub proof fn law_departure_leaves_others<V, T>(
    clients: Map<(V, Option<usize>), T>,
    client: (V, Option<usize>),
    remote: T,
    other: (V, Option<usize>),
)
    requires
        other != client,
    ensures
        ({
            let after = clients.insert(client, remote).remove(client);
            &&& !after.contains_key(client)
            &&& after.contains_key(other) <==> clients.contains_key(other)
            &&& clients.contains_key(other) ==> after[other] == clients[other]
        }),
{
}

/// How one peer dials another, from the offer to the connection, while both are
/// connected to a signaling server that knows peers by names `P`. `J` is a
/// signal as the server sees it.
pub struct Meeting<P: View, T, J, C, S> {
    /// The peer that dials.
    pub dialer: Dialer,
    /// The signal with which it begins, and the message that it sends.
    pub signal: S,
    pub offer: SignalingMessage<PeerId, S>,
    /// Where the peer that listens stands at first, what it meets with, and what
    /// it does.
    pub standing: Standing,
    pub occurrences: Seq<Occurrence<C, S>>,
    pub orders: Seq<Order<C, S>>,
    /// The offer comes in, and in the end the connection stands.
    pub served: Served<C, S>,
    /// In between there is a reply.
    pub replied: int,
    pub reply: S,
    /// What the server knows the two by, how it reaches them, and all clients
    /// that are connected to it.
    pub caller_name: P::V,
    pub callee_name: P::V,
    pub dialing: T,
    pub listening: T,
    pub clients: Map<(P::V, Option<usize>), T>,
    /// What the server gets from the two, and what it finds in it.
    pub offered: Message,
    pub offer_found: SignalingMessage<P, J>,
    pub answered: Message,
    pub answer_found: SignalingMessage<P, J>,
}

impl<P: View, T, J, C, S> Meeting<P, T, J, C, S> {
    pub open spec fn caller(self) -> Seq<u8> {
        self.dialer.identifier.caller@
    }

    pub open spec fn callee(self) -> Seq<u8> {
        self.dialer.callee@
    }

    pub open spec fn counter(self) -> usize {
        self.dialer.identifier.counter
    }

    /// What the server knows the listening and the dialing peer's connection by.
    pub open spec fn callee_client(self) -> (P::V, Option<usize>) {
        (self.callee_name, None)
    }

    pub open spec fn caller_client(self) -> (P::V, Option<usize>) {
        (self.caller_name, Some(self.counter()))
    }

    /// The server finds in a message what was sent.
    pub open spec fn is_found(self, carrier: Message, found: SignalingMessage<P, J>) -> bool {
        &&& carrier.carries_payload()
        &&& found.intent_id@ == (self.caller_name, self.counter())
        &&& found.callee@ == self.callee_name
    }

    /// This is how it comes to pass.
    pub open spec fn takes_place(self) -> bool {
        &&& self.dialer.answers::<C, S>(Event::Signal(Some(self.signal)), Action::Send(self.offer))
        &&& self.standing.own == self.callee()
        &&& is_course(self.standing, self.occurrences, self.orders)
        &&& self.served.occurred(self.occurrences)
        &&& self.served.message == self.offer
        &&& self.served.from < self.replied < self.served.to
        &&& self.occurrences[self.replied] == Occurrence::Happened(
            Happening::<C, S>::Signal(self.served.id, Some(self.reply)),
        )
        &&& self.clients.contains_key(self.callee_client())
        &&& self.clients[self.callee_client()] == self.listening
        &&& self.clients.contains_key(self.caller_client())
        &&& self.clients[self.caller_client()] == self.dialing
        &&& self.is_found(self.offered, self.offer_found)
        &&& self.is_found(self.answered, self.answer_found)
    }

    /// The server passes the offer on to the listening peer.
    pub open spec fn offer_is_passed_on(self) -> bool {
        passed_on(
            self.clients,
            self.caller_name,
            Some(Ok(self.offered)),
            Some(self.offer_found),
        ) == (Passed::Forward {
            to: self.callee_client(),
            remote: self.listening,
            message: self.offered,
        })
    }

    /// The listening peer hands the signal to the negotiation of this request.
    pub open spec fn offer_is_taken(self) -> bool {
        match self.orders[self.served.from] {
            Order::Open(id, s) => id@ == self.dialer.identifier@ && s == self.signal,
            Order::Deliver(id, s) => id@ == self.dialer.identifier@ && s == self.signal,
            _ => false,
        }
    }

    /// The listening peer sends the reply, the server passes it on to the
    /// connection that the dialing peer opened for this request, and the dialing
    /// peer takes it.
    pub open spec fn answer_is_taken(self) -> bool {
        &&& self.orders[self.replied] matches Order::Send(answer)
        &&& answer.intent_id@ == self.dialer.identifier@
        &&& answer.callee@ == self.callee()
        &&& self.dialer.answers::<C, S>(Event::Decoded(Ok(answer)), Action::Deliver(self.reply))
        &&& passed_on(
            self.clients,
            self.callee_name,
            Some(Ok(self.answered)),
            Some(self.answer_found),
        ) == (Passed::Forward {
            to: self.caller_client(),
            remote: self.dialing,
            message: self.answered,
        })
    }

    /// The listening peer reports the connection, with the dialing peer as the
    /// remote end, and the dialing peer is done when it has its own.
    pub open spec fn both_are_connected(self) -> bool {
        &&& self.served.is_reported(self.standing, self.orders[self.served.to])
        &&& self.orders[self.served.to] matches Order::Report { upgrade, .. }
        &&& upgrade.remote_addr@ == self.standing.addr + p2p_component(self.caller())
        &&& forall|connection: C| #[trigger]
            self.dialer.answers::<C, S>(
                Event::Connection(Some(Ok(connection))),
                Action::Finish(connection),
            )
    }

    /// The whole way from the offer to the connection.
    pub open spec fn succeeds(self) -> bool {
        &&& self.offer_is_passed_on()
        &&& self.offer_is_taken()
        &&& self.answer_is_taken()
        &&& self.both_are_connected()
    }
}

proof fn lemma_meeting_succeeds<P: View, T, J, C, S>(meeting: Meeting<P, T, J, C, S>)
    requires
        meeting.takes_place(),
        meeting.caller_name != meeting.callee_name,
    ensures
        meeting.succeeds(),
{
    let m = meeting;
    let served = m.served;
    assert(m.offer.intent_id@ == m.dialer.identifier@);
    assert(served.id@.0 == m.dialer.identifier@.0);
    law_all_dialers_are_reported(m.standing, m.occurrences, m.orders, seq![served]);
    assert(seq![served][0] == served);
    assert(standing_after(m.standing, m.occurrences.take(served.from)).orders(
        m.occurrences[served.from],
        m.orders[served.from],
    ));
    lemma_request_stays_pending(m.standing, m.occurrences, served.from, m.replied, m.offer);
    lemma_standing_keeps(m.standing, m.occurrences.take(m.replied));
    assert(standing_after(m.standing, m.occurrences.take(m.replied)).orders(
        m.occurrences[m.replied],
        m.orders[m.replied],
    ));
}

/// Two peers that are connected to the same signaling server, which goes by peer
/// ids, come to a connection, whichever of them dials: one is connected under
/// the path for listening and the other under the path for dialing, and whoever
/// else is connected or dials, the offer reaches the one, the reply the other,
/// and the connection is reported with the dialing peer as the remote end.
pub proof fn law_peers_meet<T, J, C, S>(meeting: Meeting<PeerId, T, J, C, S>)
    requires
        meeting.takes_place(),
        meeting.caller() != meeting.callee(),
        displayed(meeting.caller(), peer_id_text(meeting.caller())),
        displayed(meeting.callee(), peer_id_text(meeting.callee())),
        client_of_path(listen_path(meeting.callee())) matches Some((name, _)) && text_names(
            name,
            meeting.callee_name,
        ),
        client_of_path(dial_path(meeting.caller(), meeting.counter())) matches Some((name, _))
            && text_names(name, meeting.caller_name),
    ensures
        client_of_path(listen_path(meeting.callee())) matches Some((_, counter)) && counter
            == meeting.callee_client().1,
        client_of_path(dial_path(meeting.caller(), meeting.counter())) matches Some((_, counter))
            && counter == meeting.caller_client().1,
        meeting.succeeds(),
{
    law_listener_is_known_by_itself(meeting.callee());
    law_dialer_is_known_by_request(meeting.caller(), meeting.counter());
    lemma_meeting_succeeds(meeting);
}

/// The same holds of a server that goes by the texts in the paths.
pub proof fn law_peers_meet_by_texts<T, J, C, S>(meeting: Meeting<String, T, J, C, S>)
    requires
        meeting.takes_place(),
        meeting.caller() != meeting.callee(),
        displayed(meeting.caller(), peer_id_text(meeting.caller())),
        displayed(meeting.callee(), peer_id_text(meeting.callee())),
        client_of_path(listen_path(meeting.callee())) matches Some((name, _)) && name
            == meeting.callee_name,
        client_of_path(dial_path(meeting.caller(), meeting.counter())) matches Some((name, _))
            && name == meeting.caller_name,
    ensures
        client_of_path(listen_path(meeting.callee())) == Some(meeting.callee_client()),
        client_of_path(dial_path(meeting.caller(), meeting.counter())) == Some(
            meeting.caller_client(),
        ),
        meeting.succeeds(),
{
    law_listener_is_known_by_itself(meeting.callee());
    law_dialer_is_known_by_request(meeting.caller(), meeting.counter());
    lemma_meeting_succeeds(meeting);
}

} // verus!
