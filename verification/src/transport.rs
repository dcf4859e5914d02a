//! The transport: listening on an address and dialing one.
use vstd::arithmetic::div_mod::lemma_small_mod;
use vstd::arithmetic::power2::{lemma2_to64, lemma_pow2_unfold, pow2};
use vstd::prelude::*;

use crate::error::Error;
use crate::multiaddr::{
    extract_uri, multiaddr_components, p2p_component, signaling_server, Component, Multiaddr,
    UriError,
};
use crate::peer::{displayed, peer_id_text, PeerId};
use crate::session::Dialer;
use crate::signaling::SignalingId;
use crate::text::{decimal, decimal_text};

verus! {

/// How connections are set up.
#[derive(Debug, PartialEq, Eq)]
pub struct RtcConfig {
    /// The servers that help two peers to find a path to each other.
    pub ice_servers: Vec<String>,
}

/// A transport that connects peers over WebRTC. A signaling server, to which
/// both have to be connected, passes on what they need to tell each other
/// before that. Whoever dials for the same peer shares one transport, so that
/// all requests take their counters from it.
#[derive(Debug)]
pub struct WebRtcTransport {
    config: RtcConfig,
    id: usize,
    own_peer_id: PeerId,
}

/// Why the transport does not do what is asked.
#[derive(Debug, PartialEq, Eq)]
pub enum TransportError {
    /// The transport has no use for this address.
    MultiaddrNotSupported(Multiaddr),
}

/// The path under which a listening peer connects to the signaling server.
pub open spec fn listen_path(own: Seq<u8>) -> Seq<char> {
    "/"@ + peer_id_text(own)
}

/// The path under which a dialing peer connects to the signaling server.
pub open spec fn dial_path(own: Seq<u8>, counter: usize) -> Seq<char> {
    "/"@ + peer_id_text(own) + "/"@ + decimal(counter as nat)
}

/// The counter of the request after the one with this counter.
pub open spec fn counter_after(counter: usize) -> usize {
    if counter == usize::MAX {
        0
    } else {
        (counter + 1) as usize
    }
}

/// What is needed to dial: where the signaling server is, and the dialing side
/// of the negotiation.
#[derive(Debug)]
pub struct Dial {
    pub signaling_uri: String,
    pub dialer: Dialer,
}

impl WebRtcTransport {
    /// The peer whose transport this is.
    pub closed spec fn own(self) -> Seq<u8> {
        self.own_peer_id@
    }

    /// The counter of the next request.
    pub closed spec fn counter(self) -> usize {
        self.id
    }

    /// How this transport sets up connections.
    pub closed spec fn rtc_config(self) -> RtcConfig {
        self.config
    }

    /// A transport for a peer. Names of servers hold no NUL character.
    pub fn new(peer_id: PeerId, ice_servers: Vec<&str>) -> (transport: WebRtcTransport)
        requires
            forall|i: int| 0 <= i < ice_servers@.len() ==> !(#[trigger] ice_servers@[i])@.contains('\0'),
        ensures
            transport.own() == peer_id@,
            transport.counter() == 0,
            transport.rtc_config().ice_servers@.map_values(|s: String| s@)
                == ice_servers@.map_values(|s: &str| s@),
    {
        let mut names: Vec<String> = Vec::new();
        let mut i: usize = 0;
        while i < ice_servers.len()
            invariant
                i <= ice_servers.len(),
                names@.map_values(|s: String| s@) == ice_servers@.map_values(|s: &str| s@).take(
                    i as int,
                ),
            decreases ice_servers.len() - i,
        {
            let ghost before = names@.map_values(|s: String| s@);
            let ghost wanted = ice_servers@.map_values(|s: &str| s@);
            let name = ice_servers[i].to_owned();
            names.push(name);
            assert(names@.map_values(|s: String| s@) =~= before.push(name@));
            assert(wanted.take(i + 1) =~= wanted.take(i as int).push(wanted[i as int]));
            i = i + 1;
        }
        let ghost wanted = ice_servers@.map_values(|s: &str| s@);
        assert(wanted.take(i as int) =~= wanted);
        WebRtcTransport { config: RtcConfig { ice_servers: names }, id: 0, own_peer_id: peer_id }
    }

    /// How this transport sets up connections.
    pub fn config(&self) -> (config: &RtcConfig)
        ensures
            *config == self.rtc_config(),
    {
        &self.config
    }

    /// The peer whose transport this is.
    pub fn own_peer_id(&self) -> (peer: &PeerId)
        ensures
            peer@ == self.own(),
    {
        &self.own_peer_id
    }

    /// Listens on an address, which names the signaling server.
    pub fn listen_on(&self, addr: Multiaddr) -> (listen: Result<ListenStream, TransportError>)
        ensures
            match signaling_server(addr.components()) {
                Ok((uri, _)) => {
                    &&& listen matches Ok(stream)
                    &&& stream.well_formed()
                    &&& stream.signaling_uri() == uri + listen_path(self.own())
                    &&& displayed(self.own(), peer_id_text(self.own()))
                    &&& stream.addr() == addr@
                    &&& stream.local_addr() == addr@ + p2p_component(self.own())
                    &&& multiaddr_components(stream.local_addr()) == Some(
                        addr.components().push(Component::P2p(self.own())),
                    )
                    &&& !stream.announced()
                    &&& stream.backoff() is None
                },
                Err(_) => listen matches Err(TransportError::MultiaddrNotSupported(a)) && a@
                    == addr@,
            },
    {
        match extract_uri(&addr) {
            Ok((uri, _)) => {
                let mut signaling_uri = uri;
                let ghost server = signaling_uri@;
                signaling_uri.append("/");
                signaling_uri.append(self.own_peer_id.to_text().as_str());
                assert(signaling_uri@ =~= server + listen_path(self.own()));
                let local_addr = addr.with_peer(&self.own_peer_id);
                Ok(ListenStream { addr, local_addr, signaling_uri, announced: false, backoff: None })
            },
            Err(_) => Err(TransportError::MultiaddrNotSupported(addr)),
        }
    }

    /// Dials the peer that an address names, through the signaling server that
    /// it names. Every request gets a counter of its own.
    pub fn dial(&mut self, addr: Multiaddr) -> (dial: Result<Dial, TransportError>)
        ensures
            final(self).own() == old(self).own(),
            final(self).rtc_config() == old(self).rtc_config(),
            match signaling_server(addr.components()) {
                Ok((uri, Some(peer))) => {
                    &&& dial matches Ok(d)
                    &&& d.signaling_uri@ == uri + dial_path(old(self).own(), old(self).counter())
                    &&& displayed(old(self).own(), peer_id_text(old(self).own()))
                    &&& d.dialer.identifier@ == (old(self).own(), old(self).counter())
                    &&& d.dialer.callee@ == peer
                    &&& final(self).counter() == counter_after(old(self).counter())
                },
                _ => {
                    &&& dial matches Err(TransportError::MultiaddrNotSupported(a))
                    &&& a@ == addr@
                    &&& final(self).counter() == old(self).counter()
                },
            },
    {
        match extract_uri(&addr) {
            Ok((uri, Some(peer))) => {
                let counter = self.id;
                self.id = self.id.wrapping_add(1);
                let mut signaling_uri = uri;
                let ghost server = signaling_uri@;
                signaling_uri.append("/");
                signaling_uri.append(self.own_peer_id.to_text().as_str());
                signaling_uri.append("/");
                signaling_uri.append(decimal_text(counter as u64).as_str());
                assert(signaling_uri@ =~= server + dial_path(self.own(), counter));
                let identifier = SignalingId { caller: self.own_peer_id.clone(), counter };
                Ok(Dial { signaling_uri, dialer: Dialer { identifier, callee: peer } })
            },
            _ => Err(TransportError::MultiaddrNotSupported(addr)),
        }
    }

    /// The transport knows no better address for one under which it was
    /// observed.
    pub fn address_translation(&self, _listen: &Multiaddr, _observed: &Multiaddr) -> (translated:
        Option<Multiaddr>)
        ensures
            translated is None,
    {
        None
    }
}

/// The stream of connections to a listening peer. All are negotiated over one
/// connection to the signaling server, which is made anew when it is lost.
#[derive(Debug)]
pub struct ListenStream {
    addr: Multiaddr,
    local_addr: Multiaddr,
    signaling_uri: String,
    announced: bool,
    backoff: Option<u64>,
}

/// What became of a negotiation.
pub enum Outcome {
    /// There is a connection.
    Connected,
    /// The signaling server could not be reached.
    Unreachable,
    /// It failed otherwise.
    Failed,
}

/// What the outcome of a negotiation is.
pub open spec fn outcome_of(upgrade: Result<&PeerId, &Error>) -> Outcome {
    match upgrade {
        Ok(_) => Outcome::Connected,
        Err(e) => if e.is_unreachable() {
            Outcome::Unreachable
        } else {
            Outcome::Failed
        },
    }
}

/// How long the last wait for the signaling server was, in seconds, after one
/// more negotiation: waits double, and start anew after a connection.
pub open spec fn next_backoff(backoff: Option<nat>, outcome: Outcome) -> Option<nat> {
    match outcome {
        Outcome::Connected => None,
        Outcome::Unreachable => match backoff {
            Some(b) => Some(b * 2),
            None => Some(1),
        },
        Outcome::Failed => backoff,
    }
}

/// What to report of a negotiation, and how many seconds to wait before the
/// next.
#[derive(Debug)]
pub struct Upgrade {
    pub remote_addr: Multiaddr,
    pub local_addr: Multiaddr,
    pub wait_for: Option<u64>,
}

impl ListenStream {
    pub closed spec fn addr(self) -> Seq<u8> {
        self.addr@
    }

    pub closed spec fn local_addr(self) -> Seq<u8> {
        self.local_addr@
    }

    pub closed spec fn signaling_uri(self) -> Seq<char> {
        self.signaling_uri@
    }

    /// The address has been announced.
    pub closed spec fn announced(self) -> bool {
        self.announced
    }

    /// How long the last wait was, in seconds, if there was one since the last
    /// connection.
    pub closed spec fn backoff(self) -> Option<nat> {
        match self.backoff {
            Some(b) => Some(b as nat),
            None => None,
        }
    }

    /// A wait is never shorter than a second.
    pub open spec fn well_formed(self) -> bool {
        self.backoff() matches Some(b) ==> b >= 1
    }

    /// The next wait would be too long to count its seconds.
    pub open spec fn exhausted(self) -> bool {
        self.backoff() matches Some(b) && b * 2 > u64::MAX
    }

    /// Where to connect to the signaling server.
    pub fn uri(&self) -> (uri: &str)
        ensures
            uri@ == self.signaling_uri(),
    {
        self.signaling_uri.as_str()
    }

    /// Decides what follows on reaching the signaling server: the first time,
    /// the address under which others can dial is to be announced. This waits
    /// for no one to dial.
    pub fn on_reached(&mut self) -> (announce: Option<Multiaddr>)
        ensures
            final(self).announced(),
            final(self).addr() == old(self).addr(),
            final(self).local_addr() == old(self).local_addr(),
            final(self).signaling_uri() == old(self).signaling_uri(),
            final(self).backoff() == old(self).backoff(),
            match announce {
                Some(a) => !old(self).announced() && a@ == old(self).local_addr()
                    && a.well_formed(),
                None => old(self).announced(),
            },
    {
        if self.announced {
            None
        } else {
            self.announced = true;
            Some(self.local_addr.clone())
        }
    }

    /// Whether the next wait would be too long to count its seconds.
    pub fn is_exhausted(&self) -> (exhausted: bool)
        ensures
            exhausted == self.exhausted(),
    {
        match self.backoff {
            Some(b) => b > u64::MAX / 2,
            None => false,
        }
    }

    /// Decides what follows on a negotiation, which led to a connection with a
    /// peer, or failed.
    pub fn on_upgrade(&mut self, upgrade: Result<&PeerId, &Error>) -> (next: Upgrade)
        requires
            old(self).well_formed(),
            outcome_of(upgrade) is Unreachable ==> !old(self).exhausted(),
        ensures
            final(self).well_formed(),
            final(self).addr() == old(self).addr(),
            final(self).local_addr() == old(self).local_addr(),
            final(self).signaling_uri() == old(self).signaling_uri(),
            final(self).announced() == old(self).announced(),
            final(self).backoff() == next_backoff(old(self).backoff(), outcome_of(upgrade)),
            next.local_addr@ == old(self).local_addr(),
            next.remote_addr@ == match upgrade {
                Ok(peer) => old(self).addr() + p2p_component(peer@),
                Err(_) => old(self).addr(),
            },
            match next.wait_for {
                Some(seconds) => outcome_of(upgrade) is Unreachable && final(self).backoff() == Some(
                    seconds as nat,
                ),
                None => !(outcome_of(upgrade) is Unreachable),
            },
    {
        let local_addr = self.local_addr.clone();
        match upgrade {
            Ok(peer) => {
                self.backoff = None;
                Upgrade { remote_addr: self.addr.with_peer(peer), local_addr, wait_for: None }
            },
            Err(e) => {
                let remote_addr = self.addr.clone();
                let wait_for = match e {
                    Error::ConnectionToSignalingServerFailed(_) => {
                        let seconds: u64 = match self.backoff {
                            Some(b) => b * 2,
                            None => 1,
                        };
                        self.backoff = Some(seconds);
                        Some(seconds)
                    },
                    Error::Internal(_) => None,
                };
                Upgrade { remote_addr, local_addr, wait_for }
            },
        }
    }
}

/// How long the last wait was after a series of negotiations.
pub open spec fn backoff_after(outcomes: Seq<Outcome>) -> Option<nat>
    decreases outcomes.len(),
{
    if outcomes.len() == 0 {
        None
    } else {
        next_backoff(backoff_after(outcomes.drop_last()), outcomes.last())
    }
}

/// How often the signaling server could not be reached since there was a
/// connection.
pub open spec fn unreachable_since_connected(outcomes: Seq<Outcome>) -> nat
    decreases outcomes.len(),
{
    if outcomes.len() == 0 {
        0
    } else {
        let before = unreachable_since_connected(outcomes.drop_last());
        match outcomes.last() {
            Outcome::Connected => 0,
            Outcome::Unreachable => before + 1,
            Outcome::Failed => before,
        }
    }
}

/// When the signaling server could not be reached for the `n`th time since
/// there was a connection, the wait is two to the power of `n - 1` seconds.
pub proof fn law_waits_double(outcomes: Seq<Outcome>)
    ensures
        match backoff_after(outcomes) {
            Some(seconds) => {
                &&& unreachable_since_connected(outcomes) > 0
                &&& seconds == pow2((unreachable_since_connected(outcomes) - 1) as nat)
            },
            None => unreachable_since_connected(outcomes) == 0,
        },
    decreases outcomes.len(),
{
    if outcomes.len() > 0 {
        law_waits_double(outcomes.drop_last());
        let n = unreachable_since_connected(outcomes.drop_last());
        if outcomes.last() is Unreachable {
            if n > 0 {
                lemma_pow2_unfold(n);
            } else {
                lemma2_to64();
            }
        }
    }
}

/// The counter of the request that is made after `n` others, the first of
/// which had the counter `first`.
pub open spec fn nth_counter(first: usize, n: nat) -> usize
    decreases n,
{
    if n == 0 {
        first
    } else {
        counter_after(nth_counter(first, (n - 1) as nat))
    }
}

proof fn lemma_nth_counter(first: usize, n: nat)
    ensures
        nth_counter(first, n) == (first + n) % (usize::MAX + 1),
    decreases n,
{
    if n > 0 {
        lemma_nth_counter(first, (n - 1) as nat);
        let m = usize::MAX + 1;
        let before = first + n - 1;
        assert((before + 1) % m == if before % m == m - 1 {
            0
        } else {
            before % m + 1
        }) by (nonlinear_arith)
            requires
                before >= 0,
                m >= 2,
        ;
    } else {
        lemma_small_mod(first as nat, (usize::MAX + 1) as nat);
    }
}

/// As many requests as there are counters have different counters, and so
/// different identifiers.
pub proof fn law_requests_are_told_apart(first: usize, i: nat, j: nat)
    requires
        i < j <= i + usize::MAX,
    ensures
        nth_counter(first, i) != nth_counter(first, j),
{
    lemma_nth_counter(first, i);
    lemma_nth_counter(first, j);
    let m = usize::MAX + 1;
    let a = first + i;
    let b = first + j;
    assert(a % m != b % m) by (nonlinear_arith)
        requires
            0 <= a < b < a + m,
            m >= 2,
    {
        if a % m == b % m {
            assert(b - a == m * (b / m - a / m));
        }
    }
}

/// A transport is made of what is given: the peer, and all servers in order. Its
/// first request has the counter 0.
pub proof fn law_transport_is_of_peer(
    peer: PeerId,
    ice_servers: Vec<&str>,
    transport: WebRtcTransport,
    own: &PeerId,
    config: &RtcConfig,
)
    requires
        call_ensures(WebRtcTransport::new, (peer, ice_servers), transport),
        call_ensures(WebRtcTransport::own_peer_id, (&transport,), own),
        call_ensures(WebRtcTransport::config, (&transport,), config),
    ensures
        own@ == peer@,
        transport.counter() == 0,
        config.ice_servers@.len() == ice_servers@.len(),
        forall|i: int|
            0 <= i < ice_servers@.len() ==> (#[trigger] config.ice_servers@[i])@ == ice_servers@[i]@,
{
    let names = config.ice_servers@.map_values(|s: String| s@);
    let given = ice_servers@.map_values(|s: &str| s@);
    assert(names == given);
    assert(names.len() == given.len());
    assert forall|i: int| 0 <= i < ice_servers@.len() implies (#[trigger] config.ice_servers@[i])@
        == ice_servers@[i]@ by {
        assert(names[i] == given[i]);
    }
}

/// A peer dials exactly the addresses that name a server and a peer, and all
/// others are given back. It goes to the server that the address names, under
/// its own id and the counter of the request, and calls the peer that the
/// address names.
pub proof fn law_dial_follows_address(
    transport: &mut WebRtcTransport,
    addr: Multiaddr,
    found: Result<(String, Option<PeerId>), UriError>,
    own: &PeerId,
    own_text: String,
    number: String,
    dial: Result<Dial, TransportError>,
)
    requires
        call_ensures(WebRtcTransport::dial, (transport, addr), dial),
        call_ensures(extract_uri, (&addr,), found),
        call_ensures(WebRtcTransport::own_peer_id, (&*transport,), own),
        call_ensures(PeerId::to_text, (own,), own_text),
        call_ensures(decimal_text, (old(transport).counter() as u64,), number),
    ensures
        match found {
            Ok((uri, Some(peer))) => {
                &&& dial matches Ok(d)
                &&& d.signaling_uri@ == uri@ + "/"@ + own_text@ + "/"@ + number@
                &&& d.dialer.callee@ == peer@
                &&& d.dialer.identifier.caller@ == own@
                &&& d.dialer.identifier.counter == old(transport).counter()
            },
            _ => dial matches Err(TransportError::MultiaddrNotSupported(a)) && a@ == addr@,
        },
{
    if found is Ok {
        let uri = found->Ok_0.0;
        assert(uri@ + "/"@ + own_text@ + "/"@ + number@ =~= uri@ + dial_path(
            old(transport).own(),
            old(transport).counter(),
        ));
    }
}

/// Requests are counted: the counter goes up by one with every request, and by
/// none with an address that is refused. After the last counter comes 0.
pub proof fn law_requests_are_counted(
    transport: &mut WebRtcTransport,
    addr: Multiaddr,
    dial: Result<Dial, TransportError>,
)
    requires
        call_ensures(WebRtcTransport::dial, (transport, addr), dial),
    ensures
        final(transport).own() == old(transport).own(),
        final(transport).rtc_config() == old(transport).rtc_config(),
        dial is Err ==> final(transport).counter() == old(transport).counter(),
        dial is Ok && old(transport).counter() < usize::MAX ==> final(transport).counter() == old(
            transport,
        ).counter() + 1,
        dial is Ok && old(transport).counter() == usize::MAX ==> final(transport).counter() == 0,
{
}

/// The request after `n` others has the counter `n`, as long as there is one.
pub proof fn law_nth_request_has_counter(n: nat)
    requires
        n <= usize::MAX,
    ensures
        nth_counter(0, n) == n,
{
    lemma_nth_counter(0, n);
    lemma_small_mod(n, (usize::MAX + 1) as nat);
}

/// A peer listens on exactly the addresses that name a server, and all others
/// are given back. It goes to the server that the address names, under its own
/// id, and the address that it announces is the address followed by itself.
pub proof fn law_listening_follows_address(
    transport: WebRtcTransport,
    addr: Multiaddr,
    found: Result<(String, Option<PeerId>), UriError>,
    own: &PeerId,
    own_text: String,
    longer: Multiaddr,
    listen: Result<ListenStream, TransportError>,
)
    requires
        call_ensures(WebRtcTransport::listen_on, (&transport, addr), listen),
        call_ensures(extract_uri, (&addr,), found),
        call_ensures(WebRtcTransport::own_peer_id, (&transport,), own),
        call_ensures(PeerId::to_text, (own,), own_text),
        call_ensures(Multiaddr::with_peer, (&addr, own), longer),
    ensures
        match found {
            Ok((uri, _)) => {
                &&& listen matches Ok(stream)
                &&& stream.signaling_uri() == uri@ + "/"@ + own_text@
                &&& stream.addr() == addr@
                &&& stream.local_addr() == longer@
                &&& !stream.announced()
                &&& stream.backoff() is None
                &&& stream.well_formed()
            },
            Err(_) => listen matches Err(TransportError::MultiaddrNotSupported(a)) && a@ == addr@,
        },
{
    if found is Ok {
        let uri = found->Ok_0.0;
        assert(uri@ + "/"@ + own_text@ =~= uri@ + listen_path(transport.own()));
    }
}

/// The address is announced when the server is reached for the first time, and
/// then never again.
pub proof fn law_address_is_announced_once(
    stream: &mut ListenStream,
    announced: Option<Multiaddr>,
    later: &mut ListenStream,
    again: Option<Multiaddr>,
)
    requires
        call_ensures(ListenStream::on_reached, (stream,), announced),
        *later == *final(stream),
        call_ensures(ListenStream::on_reached, (later,), again),
    ensures
        announced is Some <==> !old(stream).announced(),
        announced matches Some(a) ==> a@ == old(stream).local_addr(),
        again is None,
        final(stream).backoff() == old(stream).backoff(),
        final(stream).addr() == old(stream).addr(),
        final(stream).local_addr() == old(stream).local_addr(),
        final(stream).signaling_uri() == old(stream).signaling_uri(),
{
}

/// What is reported of a negotiation: the remote end is the address, followed by
/// the peer where there is a connection with one. There is a wait exactly when
/// the server could not be reached: one second the first time, and then twice
/// the last wait. A connection starts this anew, and no other failure does.
pub proof fn law_negotiations_are_reported(
    stream: &mut ListenStream,
    upgrade: Result<&PeerId, &Error>,
    next: Upgrade,
)
    requires
        call_ensures(ListenStream::on_upgrade, (stream, upgrade), next),
    ensures
        next.local_addr@ == old(stream).local_addr(),
        final(stream).addr() == old(stream).addr(),
        final(stream).local_addr() == old(stream).local_addr(),
        final(stream).signaling_uri() == old(stream).signaling_uri(),
        final(stream).announced() == old(stream).announced(),
        match upgrade {
            Ok(peer) => {
                &&& next.remote_addr@ == old(stream).addr() + p2p_component(peer@)
                &&& next.wait_for is None
                &&& final(stream).backoff() is None
            },
            Err(Error::ConnectionToSignalingServerFailed(_)) => {
                &&& next.remote_addr@ == old(stream).addr()
                &&& next.wait_for matches Some(seconds)
                &&& old(stream).backoff() is None ==> seconds == 1
                &&& old(stream).backoff() matches Some(b) ==> seconds == b + b
                &&& final(stream).backoff() == Some(seconds as nat)
            },
            Err(Error::Internal(_)) => {
                &&& next.remote_addr@ == old(stream).addr()
                &&& next.wait_for is None
                &&& final(stream).backoff() == old(stream).backoff()
            },
        },
{
}

/// The waits are exhausted exactly when the next would not fit.
pub proof fn law_waits_are_limited(stream: ListenStream, exhausted: bool)
    requires
        call_ensures(ListenStream::is_exhausted, (&stream,), exhausted),
    ensures
        exhausted <==> (stream.backoff() matches Some(b) && b + b > u64::MAX),
{
}

/// A listening peer connects under the URI of its stream.
pub proof fn law_stream_has_uri(stream: ListenStream, uri: &str)
    requires
        call_ensures(ListenStream::uri, (&stream,), uri),
    ensures
        uri@ == stream.signaling_uri(),
{
}

/// No address is translated.
pub proof fn law_addresses_are_not_translated(
    transport: WebRtcTransport,
    listen: Multiaddr,
    observed: Multiaddr,
    translated: Option<Multiaddr>,
)
    requires
        call_ensures(
            WebRtcTransport::address_translation,
            (&transport, &listen, &observed),
            translated,
        ),
    ensures
        translated is None,
{
}

} // verus!
