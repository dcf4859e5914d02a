//! What the signaling server decides.
use vstd::prelude::*;

use crate::clients::ClientsMap;
use crate::identity::Identity;
use crate::signaling::{client_view, destination, route, SignalingMessage};
use crate::text::{decimal, decimal_text, text_contains};
use crate::ws::Message;

verus! {

/// What the server does about what a client's websocket yields. `T` is how a
/// client is reached.
pub enum Relay<'a, P, T> {
    /// The client is gone.
    Stop,
    /// There is nothing to pass on.
    Ignore,
    /// The client that the message is for is not connected.
    Unknown { to: (P, Option<usize>) },
    /// Pass the message on, as it came.
    Forward { to: (P, Option<usize>), remote: &'a T, message: Message },
}

/// What becomes of what a client's websocket yields. `V` is what clients go by.
pub enum Passed<V, T> {
    Stop,
    Ignore,
    Unknown { to: (V, Option<usize>) },
    Forward { to: (V, Option<usize>), remote: T, message: Message },
}

/// The view of what the server does.
pub open spec fn relay_view<'a, P: View, T>(relay: Relay<'a, P, T>) -> Passed<P::V, T> {
    match relay {
        Relay::Stop => Passed::Stop,
        Relay::Ignore => Passed::Ignore,
        Relay::Unknown { to } => Passed::Unknown { to: client_view(to) },
        Relay::Forward { to, remote, message } => Passed::Forward {
            to: client_view(to),
            remote: *remote,
            message,
        },
    }
}

/// What becomes of what the websocket of the client `sender` yields: a message
/// in which a signaling message is found is passed on, as it came, to the client
/// that it is for, if that one is connected.
pub open spec fn passed_on<P: View, T, S>(
    clients: Map<(P::V, Option<usize>), T>,
    sender: P::V,
    item: Option<Result<Message, String>>,
    decoded: Option<SignalingMessage<P, S>>,
) -> Passed<P::V, T> {
    match item {
        None => Passed::Stop,
        Some(Err(_)) => Passed::Stop,
        Some(Ok(message)) => match decoded {
            Some(signal) if message.carries_payload() => {
                let to = destination(sender, signal.intent_id@, signal.callee@);
                if clients.contains_key(to) {
                    Passed::Forward { to, remote: clients[to], message }
                } else {
                    Passed::Unknown { to }
                }
            },
            _ => Passed::Ignore,
        },
    }
}

/// Decides what the server does about what the websocket of the client `sender`
/// yields. `decoded` is the signaling message that was found in it, if any.
pub fn relay<'a, P: Identity, T, S>(
    clients: &'a ClientsMap<P, T>,
    sender: &(P, Option<usize>),
    item: Option<Result<Message, String>>,
    decoded: &Option<SignalingMessage<P, S>>,
) -> (relay: Relay<'a, P, T>)
    requires
        clients.well_formed(),
    ensures
        relay_view(relay) == passed_on(clients@, sender.0@, item, *decoded),
{
    match item {
        Some(Ok(message)) => {
            if message.payload().is_none() {
                return Relay::Ignore;
            }
            match decoded {
                Some(signal) => {
                    let to = route(&sender.0, signal);
                    match clients.get(&to) {
                        Some(remote) => Relay::Forward { to, remote, message },
                        None => Relay::Unknown { to },
                    }
                },
                None => Relay::Ignore,
            }
        },
        _ => Relay::Stop,
    }
}

/// One turn of a client's session: what its websocket yields, the signaling
/// message that is found in it, and the clients that are connected by then.
pub struct Turn<P: View, T, S> {
    pub clients: Map<(P::V, Option<usize>), T>,
    pub item: Option<Result<Message, String>>,
    pub decoded: Option<SignalingMessage<P, S>>,
}

impl<P: View, T, S> Turn<P, T, S> {
    /// What becomes of this turn in the session of `sender`.
    pub open spec fn passed(self, sender: P::V) -> Passed<P::V, T> {
        passed_on(self.clients, sender, self.item, self.decoded)
    }

    /// Nobody receives anything in this turn, and the session goes on: there is
    /// nothing to pass on, or nobody to pass it on to. `gone` says which clients
    /// receive no more though they are still connected.
    pub open spec fn is_dropped(self, sender: P::V, gone: spec_fn(T) -> bool) -> bool {
        match self.passed(sender) {
            Passed::Stop => false,
            Passed::Ignore => true,
            Passed::Unknown { .. } => true,
            Passed::Forward { remote, .. } => gone(remote),
        }
    }
}

/// The course of a session: whether it goes on after these turns, and which
/// messages were received by then, by whom.
pub open spec fn session<P: View, T, S>(
    sender: P::V,
    turns: Seq<Turn<P, T, S>>,
    gone: spec_fn(T) -> bool,
) -> (bool, Seq<((P::V, Option<usize>), T, Message)>)
    decreases turns.len(),
{
    if turns.len() == 0 {
        (true, Seq::empty())
    } else {
        let before = session(sender, turns.drop_last(), gone);
        if !before.0 {
            before
        } else {
            match turns.last().passed(sender) {
                Passed::Stop => (false, before.1),
                Passed::Forward { to, remote, message } if !gone(remote) => (
                    true,
                    before.1.push((to, remote, message)),
                ),
                _ => before,
            }
        }
    }
}

/// The turns that are not dropped.
pub open spec fn kept_turns<P: View, T, S>(
    sender: P::V,
    turns: Seq<Turn<P, T, S>>,
    gone: spec_fn(T) -> bool,
) -> Seq<Turn<P, T, S>> {
    turns.filter(|turn: Turn<P, T, S>| !turn.is_dropped(sender, gone))
}

proof fn lemma_dropped_turns_change_nothing<P: View, T, S>(
    sender: P::V,
    turns: Seq<Turn<P, T, S>>,
    gone: spec_fn(T) -> bool,
)
    ensures
        session(sender, turns, gone) == session(sender, kept_turns(sender, turns, gone), gone),
    decreases turns.len(),
{
    reveal(Seq::filter);
    if turns.len() > 0 {
        lemma_dropped_turns_change_nothing(sender, turns.drop_last(), gone);
        let kept = kept_turns(sender, turns, gone);
        let before = kept_turns(sender, turns.drop_last(), gone);
        if !turns.last().is_dropped(sender, gone) {
            assert(kept == before.push(turns.last()));
            assert(kept.drop_last() =~= before);
        } else {
            assert(kept == before);
        }
    }
}

/// Messages that are dropped make no difference: two sessions that differ only
/// in messages without a signal, for clients that are not connected, or for
/// clients that receive no more, deliver all other messages alike, and both go
/// on or neither does.
pub proof fn law_dropped_messages_change_nothing<P: View, T, S>(
    sender: P::V,
    first: Seq<Turn<P, T, S>>,
    second: Seq<Turn<P, T, S>>,
    gone: spec_fn(T) -> bool,
)
    requires
        kept_turns(sender, first, gone) == kept_turns(sender, second, gone),
    ensures
        session(sender, first, gone) == session(sender, second, gone),
{
    lemma_dropped_turns_change_nothing(sender, first, gone);
    lemma_dropped_turns_change_nothing(sender, second, gone);
}

/// A client that was accepted, and is registered until it leaves.
#[derive(Debug)]
pub struct Registration<P> {
    client: (P, Option<usize>),
}

impl<P: View> Registration<P> {
    /// What the client is known by.
    pub closed spec fn key(self) -> (P::V, Option<usize>) {
        client_view(self.client)
    }
}

impl<P: Identity> Registration<P> {
    /// Registers the client that a handshake came to, with how it is reached. A
    /// client that was turned away, or with which the handshake failed, is not
    /// registered.
    pub fn register<T, E>(
        clients: &mut ClientsMap<P, T>,
        handshake: Result<(P, Option<usize>), E>,
        remote: T,
    ) -> (registered: Result<Registration<P>, E>)
        requires
            old(clients).well_formed(),
        ensures
            final(clients).well_formed(),
            match handshake {
                Ok(client) => {
                    &&& registered matches Ok(r)
                    &&& r.key() == client_view(client)
                    &&& final(clients)@ == old(clients)@.insert(client_view(client), remote)
                },
                Err(e) => {
                    &&& registered matches Err(error)
                    &&& error == e
                    &&& final(clients)@ == old(clients)@
                },
            },
    {
        match handshake {
            Ok(client) => {
                let key = (client.0.duplicate(), client.1);
                let _ = clients.insert(key, remote);
                Ok(Registration { client })
            },
            Err(e) => Err(e),
        }
    }

    /// What the client is known by.
    pub fn client(&self) -> (client: &(P, Option<usize>))
        ensures
            client_view(*client) == self.key(),
    {
        &self.client
    }

    /// The client has left. Whoever is registered under what it was known by is
    /// no longer.
    pub fn end<T>(self, clients: &mut ClientsMap<P, T>)
        requires
            old(clients).well_formed(),
        ensures
            final(clients).well_formed(),
            final(clients)@ == old(clients)@.remove(self.key()),
    {
        let _ = clients.remove(&self.client);
    }
}

/// The endpoint `<interface>:<port>`.
pub open spec fn endpoint_text(interface: Seq<char>, port: u16) -> Seq<char> {
    interface + ":"@ + decimal(port as nat)
}

/// The endpoint that the server listens on.
pub fn endpoint(interface: &str, port: u16) -> (endpoint: String)
    ensures
        endpoint@ == endpoint_text(interface@, port),
{
    let mut endpoint = interface.to_owned();
    endpoint.append(":");
    endpoint.append(decimal_text(port as u64).as_str());
    endpoint
}

/// The endpoint that a service names: an endpoint as it stands, or a port of
/// the local host. The port is 8000 where there is no service.
pub open spec fn service_text(service: Option<Seq<char>>) -> Seq<char> {
    let named = match service {
        Some(s) => s,
        None => "8000"@,
    };
    if named.contains(':') {
        named
    } else {
        "127.0.0.1:"@ + named
    }
}

/// The endpoint that the server listens on, where it is given as a service.
pub fn service_endpoint(service: Option<String>) -> (endpoint: String)
    ensures
        endpoint@ == service_text(
            match service {
                Some(s) => Some(s@),
                None => None,
            },
        ),
{
    let named = match service {
        Some(s) => s,
        None => "8000".to_owned(),
    };
    if text_contains(named.as_str(), ':') {
        named
    } else {
        let mut endpoint = "127.0.0.1:".to_owned();
        endpoint.append(named.as_str());
        endpoint
    }
}

/// The line with which the server says that it listens.
pub fn listening_line(endpoint: &str) -> (line: String)
    ensures
        line@ == "Listening on "@ + endpoint@,
{
    let mut line = "Listening on ".to_owned();
    line.append(endpoint);
    line
}

/// What the server needs for TLS. `F` is the name of a file.
#[derive(Debug, PartialEq, Eq)]
pub struct TlsOptions<F> {
    pub cert: F,
    pub private_key: F,
    pub email: String,
    pub domain: String,
}

/// The options for TLS, if it is asked for. Then all of them are needed.
pub fn tls_options<F>(
    wss: bool,
    cert: Option<F>,
    private_key: Option<F>,
    email: Option<String>,
    domain: Option<String>,
) -> (options: Result<Option<TlsOptions<F>>, String>)
    ensures
        match (cert, private_key, email, domain) {
            _ if !wss => options matches Ok(None),
            (Some(c), Some(k), Some(e), Some(d)) => {
                &&& options matches Ok(Some(given))
                &&& given.cert == c
                &&& given.private_key == k
                &&& given.email == e
                &&& given.domain == d
            },
            _ => options matches Err(text) && text@
                == "Please provide `cert,` `private_key`, `domain`, and `email` options"@,
        },
{
    if !wss {
        return Ok(None);
    }
    match (cert, private_key, email, domain) {
        (Some(cert), Some(private_key), Some(email), Some(domain)) => Ok(
            Some(TlsOptions { cert, private_key, email, domain }),
        ),
        _ => Err("Please provide `cert,` `private_key`, `domain`, and `email` options".to_owned()),
    }
}

/// What the server does, by what it does: it stops exactly where the client is
/// gone, and passes on only a text or a binary message in which there is a
/// signal, as it came. An answer goes to the connection with the counter of the
/// request and to no other, an offer to the one without a counter, and where
/// just that one is not connected, nobody gets the message. `registered` is what
/// is found under what the message is for.
pub proof fn law_messages_are_relayed<'a, P: Identity, T, S>(
    clients: &'a ClientsMap<P, T>,
    sender: (P, Option<usize>),
    item: Option<Result<Message, String>>,
    decoded: Option<SignalingMessage<P, S>>,
    relayed: Relay<'a, P, T>,
    client: (P, Option<usize>),
    registered: Option<&'a T>,
)
    requires
        call_ensures(relay::<P, T, S>, (clients, &sender, item, &decoded), relayed),
        call_ensures(ClientsMap::<P, T>::get, (clients, &client), registered),
        decoded matches Some(signal) ==> if sender.0@ == signal.callee@ {
            client.0@ == signal.intent_id.caller@ && client.1 == Some(signal.intent_id.counter)
        } else {
            client.0@ == signal.callee@ && client.1 is None
        },
    ensures
        match relayed {
            Relay::Stop => item is None || (item matches Some(Err(_))),
            Relay::Ignore => item matches Some(Ok(m)) && (decoded is None || m is Ping || m is Pong
                || m is Close),
            Relay::Unknown { to } => {
                &&& item matches Some(Ok(m))
                &&& m is Text || m is Binary
                &&& decoded is Some
                &&& to.0@ == client.0@ && to.1 == client.1
                &&& registered is None
            },
            Relay::Forward { to, remote, message } => {
                &&& item == Some(Ok::<Message, String>(message))
                &&& message is Text || message is Binary
                &&& decoded is Some
                &&& to.0@ == client.0@ && to.1 == client.1
                &&& registered matches Some(r) && *r == *remote
            },
        },
{
}

/// No answer is passed on to a peer that listens, and no offer to one that
/// dials.
pub proof fn law_answers_go_to_requests<'a, P: Identity, T, S>(
    clients: &'a ClientsMap<P, T>,
    sender: (P, Option<usize>),
    item: Option<Result<Message, String>>,
    signal: SignalingMessage<P, S>,
    relayed: Relay<'a, P, T>,
)
    requires
        call_ensures(relay::<P, T, S>, (clients, &sender, item, &Some(signal)), relayed),
    ensures
        relayed matches Relay::Forward { to, .. } ==> (to.1 is Some <==> sender.0@
            == signal.callee@),
        relayed matches Relay::Unknown { to } ==> (to.1 is Some <==> sender.0@ == signal.callee@),
{
}

/// A service with a `:` anywhere in it is the endpoint, as it stands. To one
/// without, the local host is added. Without a service the port is 8000.
pub proof fn law_service_is_kept(service: Option<String>, endpoint: String)
    requires
        call_ensures(service_endpoint, (service,), endpoint),
    ensures
        service matches Some(s) ==> ((exists|i: int| 0 <= i < s@.len() && #[trigger] s@[i] == ':')
            ==> endpoint@ == s@),
        service matches Some(s) ==> ((forall|i: int| 0 <= i < s@.len() ==> #[trigger] s@[i] != ':')
            ==> endpoint@ == "127.0.0.1:"@ + s@),
        service is None ==> endpoint@ == "127.0.0.1:8000"@,
{
    reveal_strlit("127.0.0.1:");
    reveal_strlit("8000");
    reveal_strlit("127.0.0.1:8000");
    assert(!"8000"@.contains(':')) by {
        assert(forall|i: int| 0 <= i < 4 ==> "8000"@[i] != ':');
    }
    assert("127.0.0.1:"@ + "8000"@ =~= "127.0.0.1:8000"@);
    if service is Some {
        let s = service->0;
        if s@.contains(':') {
            let i = choose|i: int| 0 <= i < s@.len() && s@[i] == ':';
            assert(s@[i] == ':');
        }
    }
}

/// Every endpoint names a port: there is a `:` in it, and as a service it stands
/// for itself.
pub proof fn law_endpoint_is_a_service(
    service: Option<String>,
    endpoint: String,
    again: String,
)
    requires
        call_ensures(service_endpoint, (service,), endpoint),
        call_ensures(service_endpoint, (Some(endpoint),), again),
    ensures
        exists|i: int| 0 <= i < endpoint@.len() && #[trigger] endpoint@[i] == ':',
        again@ == endpoint@,
{
    law_service_is_kept(service, endpoint);
    law_service_is_kept(Some(endpoint), again);
    reveal_strlit("127.0.0.1:");
    reveal_strlit("127.0.0.1:8000");
    if service is None {
        assert(endpoint@[9] == ':');
    } else if forall|i: int| 0 <= i < service->0@.len() ==> #[trigger] service->0@[i] != ':' {
        assert(endpoint@[9] == ':');
    } else {
        let s = service->0;
        let i = choose|i: int| 0 <= i < s@.len() && #[trigger] s@[i] == ':';
        assert(endpoint@[i] == ':');
    }
}

/// An endpoint is the interface, a `:`, and the port in decimal.
pub proof fn law_endpoint_is_interface_and_port(
    interface: &str,
    port: u16,
    number: String,
    text: String,
)
    requires
        call_ensures(endpoint, (interface, port), text),
        call_ensures(decimal_text, (port as u64,), number),
    ensures
        text@.len() == interface@.len() + 1 + number@.len(),
        text@.take(interface@.len() as int) == interface@,
        text@[interface@.len() as int] == ':',
        text@.skip(interface@.len() + 1int) == number@,
{
    reveal_strlit(":");
    assert(text@.take(interface@.len() as int) =~= interface@);
    assert(text@.skip(interface@.len() + 1int) =~= number@);
}

/// The line names the endpoint.
pub proof fn law_line_names_endpoint(endpoint: &str, line: String)
    requires
        call_ensures(listening_line, (endpoint,), line),
    ensures
        line@ == "Listening on "@ + endpoint@,
{
}

/// TLS is used exactly when it is asked for, and then with all that was given;
/// where anything is missing, the server does not start.
pub proof fn law_tls_needs_all<F>(
    wss: bool,
    cert: Option<F>,
    private_key: Option<F>,
    email: Option<String>,
    domain: Option<String>,
    options: Result<Option<TlsOptions<F>>, String>,
)
    requires
        call_ensures(tls_options::<F>, (wss, cert, private_key, email, domain), options),
    ensures
        match options {
            Ok(None) => !wss,
            Ok(Some(given)) => wss && cert == Some(given.cert) && private_key == Some(
                given.private_key,
            ) && email == Some(given.email) && domain == Some(given.domain),
            Err(text) => wss && (cert is None || private_key is None || email is None
                || domain is None) && text@
                == "Please provide `cert,` `private_key`, `domain`, and `email` options"@,
        },
{
}

/// A client that is accepted is found from then on as it was registered, and one
/// that is not changes nothing; in either case all others are found as before.
pub proof fn law_accepted_clients_are_found<P: Identity, T, E>(
    clients: &mut ClientsMap<P, T>,
    handshake: Result<(P, Option<usize>), E>,
    remote: T,
    registered: Result<Registration<P>, E>,
    client: (P, Option<usize>),
    before: Option<&T>,
    after: Option<&T>,
)
    requires
        call_ensures(
            Registration::<P>::register::<T, E>,
            (clients, handshake, remote),
            registered,
        ),
        call_ensures(ClientsMap::<P, T>::get, (&*clients, &client), before),
        call_ensures(ClientsMap::<P, T>::get, (&*final(clients), &client), after),
    ensures
        registered is Ok <==> handshake is Ok,
        handshake matches Err(e) ==> registered == Err::<Registration<P>, E>(e),
        handshake matches Ok(c) && c.0@ == client.0@ && c.1 == client.1 ==> (after matches Some(t)
            && *t == remote),
        !(handshake matches Ok(c) && c.0@ == client.0@ && c.1 == client.1) ==> after == before,
{
}

/// A client that leaves is found no longer, and all others are found as before.
pub proof fn law_leaving_clients_are_not_found<P: Identity, T>(
    clients: &mut ClientsMap<P, T>,
    registration: Registration<P>,
    left: (P, Option<usize>),
    unit: (),
    client: (P, Option<usize>),
    before: Option<&T>,
    after: Option<&T>,
)
    requires
        call_ensures(Registration::<P>::client, (&registration,), &left),
        call_ensures(Registration::<P>::end::<T>, (registration, clients), unit),
        call_ensures(ClientsMap::<P, T>::get, (&*clients, &client), before),
        call_ensures(ClientsMap::<P, T>::get, (&*final(clients), &client), after),
    ensures
        client.0@ == left.0@ && client.1 == left.1 ==> after is None,
        client.0@ != left.0@ || client.1 != left.1 ==> after == before,
{
}

/// A registration is known by what the handshake came to.
pub proof fn law_registration_is_of_client<P: Identity, T, E>(
    clients: &mut ClientsMap<P, T>,
    client: (P, Option<usize>),
    remote: T,
    registration: Registration<P>,
    known: (P, Option<usize>),
)
    requires
        call_ensures(
            Registration::<P>::register::<T, E>,
            (clients, Ok::<(P, Option<usize>), E>(client), remote),
            Ok::<Registration<P>, E>(registration),
        ),
        call_ensures(Registration::<P>::client, (&registration,), &known),
    ensures
        known.0@ == client.0@ && known.1 == client.1,
{
}

} // verus!
