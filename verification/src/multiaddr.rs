//! Addresses of the form
//! `/ip4/<host>/tcp/<port>/{ws,wss}/p2p-webrtc-star/p2p/<peer>`, and the URI of
//! the signaling server that they name.
use libp2p::multiaddr::multihash::Multihash;
use libp2p::multiaddr::Protocol as Wire;
use std::convert::TryFrom;
use vstd::pervasive::unreached;
use vstd::prelude::*;

use crate::peer::{peer_id_of_bytes, valid_peer_bytes, PeerId};
use crate::text::{decimal, decimal_text};

verus! {

/// A component of an address, as far as it bears on signaling.
#[derive(Debug)]
pub enum Protocol {
    Dns4(String),
    Dns6(String),
    Ip4([u8; 4]),
    /// The text of the IPv6 address.
    Ip6(String),
    /// The bytes of the multihash.
    P2p(Vec<u8>),
    Tcp(u16),
    Ws,
    Wss,
    P2pWebRtcStar,
    /// Any other component.
    Other,
}

/// What a component of an address says.
pub enum Component {
    Dns4(Seq<char>),
    Dns6(Seq<char>),
    Ip4(Seq<u8>),
    Ip6(Seq<char>),
    P2p(Seq<u8>),
    Tcp(u16),
    Ws,
    Wss,
    P2pWebRtcStar,
    Other,
}

impl View for Protocol {
    type V = Component;

    open spec fn view(&self) -> Component {
        match self {
            Protocol::Dns4(h) => Component::Dns4(h@),
            Protocol::Dns6(h) => Component::Dns6(h@),
            Protocol::Ip4(h) => Component::Ip4(h@),
            Protocol::Ip6(h) => Component::Ip6(h@),
            Protocol::P2p(m) => Component::P2p(m@),
            Protocol::Tcp(p) => Component::Tcp(*p),
            Protocol::Ws => Component::Ws,
            Protocol::Wss => Component::Wss,
            Protocol::P2pWebRtcStar => Component::P2pWebRtcStar,
            Protocol::Other => Component::Other,
        }
    }
}

/// What each of a list of components says.
pub open spec fn components(protocols: Seq<Protocol>) -> Seq<Component> {
    protocols.map_values(|p: Protocol| p@)
}

/// The components that `libp2p::Multiaddr::iter` yields for the address with
/// these bytes; `None` where `libp2p::Multiaddr::try_from` refuses them.
pub uninterp spec fn multiaddr_components(bytes: Seq<u8>) -> Option<Seq<Component>>;

/// How `libp2p::Multiaddr` displays the address with these bytes.
pub uninterp spec fn multiaddr_text(bytes: Seq<u8>) -> Seq<char>;

/// The bytes of the component `/p2p/<peer>`: its code, the length of the peer
/// id and the peer id.
pub open spec fn p2p_component(peer: Seq<u8>) -> Seq<u8> {
    seq![0xa5u8, 0x03u8, peer.len() as u8] + peer
}

/// Calls `libp2p::Multiaddr::try_from` on bytes, and `iter` on the address.
/// Claimed: whether the bytes are an address, and which components it has,
/// depends on the bytes alone. An IPv6 address is given by the text that std
/// displays for it, and the path of a `ws` or `wss` component is left out.
#[verifier::external_body]
fn decode_multiaddr(bytes: &[u8]) -> (decoded: Option<Vec<Protocol>>)
    ensures
        match decoded {
            Some(protocols) => multiaddr_components(bytes@) == Some(components(protocols@)),
            None => multiaddr_components(bytes@) is None,
        },
{
    let addr = libp2p::Multiaddr::try_from(bytes.to_vec()).ok()?;
    Some(addr.iter().map(|p| match p {
        Wire::Dns4(h) => Protocol::Dns4(h.to_string()),
        Wire::Dns6(h) => Protocol::Dns6(h.to_string()),
        Wire::Ip4(h) => Protocol::Ip4(h.octets()),
        Wire::Ip6(h) => Protocol::Ip6(h.to_string()),
        Wire::P2p(m) => Protocol::P2p(m.to_bytes()),
        Wire::Tcp(p) => Protocol::Tcp(p),
        Wire::Ws(_) => Protocol::Ws,
        Wire::Wss(_) => Protocol::Wss,
        Wire::P2pWebRtcStar => Protocol::P2pWebRtcStar,
        _ => Protocol::Other,
    }).collect())
}

/// Calls `libp2p::Multiaddr::with` on an address and a `P2p` component.
/// Claimed: the bytes of the component follow those of the address, and the
/// outcome is an address with the same components and this one after them.
#[verifier::external_body]
fn append_p2p(bytes: &[u8], peer: &[u8]) -> (longer: Vec<u8>)
    requires
        multiaddr_components(bytes@) is Some,
        valid_peer_bytes(peer@),
    ensures
        longer@ == bytes@ + p2p_component(peer@),
        multiaddr_components(longer@) == Some(
            multiaddr_components(bytes@)->0.push(Component::P2p(peer@)),
        ),
{
    let addr = libp2p::Multiaddr::try_from(bytes.to_vec()).unwrap();
    addr.with(Wire::P2p(Multihash::from_bytes(peer).unwrap())).to_vec()
}

/// Calls the `Display` of `libp2p::Multiaddr`. Claimed: the text depends on the
/// bytes alone.
#[verifier::external_body]
fn display_multiaddr(bytes: &[u8]) -> (text: String)
    requires
        multiaddr_components(bytes@) is Some,
    ensures
        text@ == multiaddr_text(bytes@),
{
    libp2p::Multiaddr::try_from(bytes.to_vec()).unwrap().to_string()
}

/// An address, viewed as its bytes.
#[derive(Debug, PartialEq, Eq, Hash)]
pub struct Multiaddr {
    bytes: Vec<u8>,
}

impl View for Multiaddr {
    type V = Seq<u8>;

    closed spec fn view(&self) -> Seq<u8> {
        self.bytes@
    }
}

impl Multiaddr {
    #[verifier::type_invariant]
    pub open spec fn well_formed(self) -> bool {
        multiaddr_components(self@) is Some
    }

    /// The components of this address.
    pub open spec fn components(self) -> Seq<Component> {
        multiaddr_components(self@)->0
    }

    /// Takes the bytes of an address.
    pub fn from_bytes(bytes: Vec<u8>) -> (addr: Option<Multiaddr>)
        ensures
            addr is Some <==> multiaddr_components(bytes@) is Some,
            addr matches Some(a) ==> a@ == bytes@ && a.well_formed(),
    {
        match decode_multiaddr(bytes.as_slice()) {
            Some(_) => Some(Multiaddr { bytes }),
            None => None,
        }
    }

    /// The bytes of this address.
    pub fn to_bytes(&self) -> (bytes: Vec<u8>)
        ensures
            bytes@ == self@,
            multiaddr_components(bytes@) is Some,
    {
        proof {
            use_type_invariant(self);
        }
        let bytes = self.bytes.clone();
        assert(bytes@ =~= self.bytes@);
        bytes
    }

    /// The text of this address.
    pub fn to_text(&self) -> (text: String)
        ensures
            text@ == multiaddr_text(self@),
            self.well_formed(),
    {
        proof {
            use_type_invariant(self);
        }
        display_multiaddr(self.bytes.as_slice())
    }

    /// The components of this address, one by one.
    pub fn protocols(&self) -> (protocols: Vec<Protocol>)
        ensures
            components(protocols@) == self.components(),
            self.well_formed(),
    {
        proof {
            use_type_invariant(self);
        }
        match decode_multiaddr(self.bytes.as_slice()) {
            Some(protocols) => protocols,
            None => unreached(),
        }
    }

    /// This address, followed by `/p2p/<peer>`.
    pub fn with_peer(&self, peer: &PeerId) -> (addr: Multiaddr)
        ensures
            addr@ == self@ + p2p_component(peer@),
            addr.components() == self.components().push(Component::P2p(peer@)),
            addr.well_formed(),
    {
        proof {
            use_type_invariant(self);
        }
        let peer_bytes = peer.to_bytes();
        Multiaddr { bytes: append_p2p(self.bytes.as_slice(), peer_bytes.as_slice()) }
    }
}

impl Clone for Multiaddr {
    fn clone(&self) -> (copy: Multiaddr)
        ensures
            copy@ == self@,
            copy.well_formed(),
    {
        Multiaddr { bytes: self.to_bytes() }
    }
}

/// The parts of a signaling address. Each may be filled once.
pub enum Slot {
    Scheme,
    Host,
    Port,
    Peer,
}

/// The part that a component fills, if any.
pub open spec fn slot_of(c: Component) -> Option<Slot> {
    match c {
        Component::Dns4(_) | Component::Dns6(_) | Component::Ip4(_) | Component::Ip6(_) => Some(
            Slot::Host,
        ),
        Component::P2p(_) => Some(Slot::Peer),
        Component::Tcp(_) => Some(Slot::Port),
        Component::Ws | Component::Wss => Some(Slot::Scheme),
        Component::P2pWebRtcStar | Component::Other => None,
    }
}

/// The last component that fills `slot`.
pub open spec fn filled(cs: Seq<Component>, slot: Slot) -> Option<Component>
    decreases cs.len(),
{
    if cs.len() == 0 {
        None
    } else if slot_of(cs.last()) == Some(slot) {
        Some(cs.last())
    } else {
        filled(cs.drop_last(), slot)
    }
}

/// Why an address names no signaling server.
#[derive(Debug, Clone, Copy, PartialEq, Eq)]
pub enum UriError {
    /// There is no `p2p-webrtc-star` component.
    NotWebRtcStar,
    /// A `p2p` component holds no peer id.
    InvalidPeerId,
    /// A part occurs twice.
    UnexpectedFormat,
    /// The host, the port, or `ws` and `wss` both, are missing.
    Incomplete,
}

impl UriError {
    /// What the error says, where what is wrong is shown as `shown`.
    pub open spec fn text(self, shown: Seq<char>) -> Seq<char> {
        match self {
            UriError::NotWebRtcStar => "Only p2p-webrtc-star connections are supported."@,
            UriError::InvalidPeerId => shown,
            UriError::UnexpectedFormat => "Unexpected format: "@ + shown,
            UriError::Incomplete => "Unable to extract signaling uri and peer from "@ + shown,
        }
    }

    /// Says what is wrong with an address. `shown` is how the address is shown
    /// or, where a `p2p` component holds no peer id, how what it holds is.
    pub fn message(&self, shown: &str) -> (text: String)
        ensures
            text@ == self.text(shown@),
    {
        match self {
            UriError::NotWebRtcStar => "Only p2p-webrtc-star connections are supported.".to_owned(),
            UriError::InvalidPeerId => shown.to_owned(),
            UriError::UnexpectedFormat => {
                let mut text = "Unexpected format: ".to_owned();
                text.append(shown);
                text
            },
            UriError::Incomplete => {
                let mut text = "Unable to extract signaling uri and peer from ".to_owned();
                text.append(shown);
                text
            },
        }
    }
}

/// What is wrong with the last component, given those before it.
pub open spec fn last_fault(cs: Seq<Component>) -> Option<UriError> {
    if cs.last() matches Component::P2p(m) && peer_id_of_bytes(m) is None {
        Some(UriError::InvalidPeerId)
    } else if slot_of(cs.last()) matches Some(slot) && filled(cs.drop_last(), slot) is Some {
        Some(UriError::UnexpectedFormat)
    } else {
        None
    }
}

/// What is wrong with the first component with which something is wrong.
pub open spec fn first_fault(cs: Seq<Component>) -> Option<UriError>
    decreases cs.len(),
{
    if cs.len() == 0 {
        None
    } else if first_fault(cs.drop_last()) is Some {
        first_fault(cs.drop_last())
    } else {
        last_fault(cs)
    }
}

/// Four octets in dotted decimal notation.
pub open spec fn dotted(octets: Seq<u8>) -> Seq<char> {
    decimal(octets[0] as nat) + "."@ + decimal(octets[1] as nat) + "."@ + decimal(octets[2] as nat)
        + "."@ + decimal(octets[3] as nat)
}

/// The host that a component names.
pub open spec fn host_text(c: Component) -> Seq<char> {
    match c {
        Component::Dns4(h) => h,
        Component::Dns6(h) => h,
        Component::Ip4(octets) => dotted(octets),
        Component::Ip6(h) => h,
        _ => Seq::empty(),
    }
}

/// The URI scheme that a component names.
pub open spec fn scheme_text(c: Component) -> Seq<char> {
    match c {
        Component::Ws => "ws"@,
        Component::Wss => "wss"@,
        _ => Seq::empty(),
    }
}

/// The URI `<scheme>://<host>:<port>`.
pub open spec fn uri_text(scheme: Component, host: Component, port: u16) -> Seq<char> {
    scheme_text(scheme) + "://"@ + host_text(host) + ":"@ + decimal(port as nat)
}

/// The peer that the components name, if they name one.
pub open spec fn named_peer(cs: Seq<Component>) -> Option<Seq<u8>> {
    match filled(cs, Slot::Peer) {
        Some(Component::P2p(m)) => peer_id_of_bytes(m),
        _ => None,
    }
}

/// The signaling server, and the peer if there is one, that an address with
/// these components names.
pub open spec fn signaling_server(cs: Seq<Component>) -> Result<
    (Seq<char>, Option<Seq<u8>>),
    UriError,
> {
    if !cs.contains(Component::P2pWebRtcStar) {
        Err(UriError::NotWebRtcStar)
    } else if first_fault(cs) is Some {
        Err(first_fault(cs)->0)
    } else {
        match (filled(cs, Slot::Scheme), filled(cs, Slot::Host), filled(cs, Slot::Port)) {
            (Some(scheme), Some(host), Some(Component::Tcp(port))) => Ok(
                (uri_text(scheme, host, port), named_peer(cs)),
            ),
            _ => Err(UriError::Incomplete),
        }
    }
}

/// The view of an optional peer id.
pub open spec fn peer_view(peer: Option<PeerId>) -> Option<Seq<u8>> {
    match peer {
        Some(p) => Some(p@),
        None => None,
    }
}

/// The view of what an address was found to name.
pub open spec fn server_view(found: Result<(String, Option<PeerId>), UriError>) -> Result<
    (Seq<char>, Option<Seq<u8>>),
    UriError,
> {
    match found {
        Ok((uri, peer)) => Ok((uri@, peer_view(peer))),
        Err(e) => Err(e),
    }
}

fn dotted_text(octets: &[u8; 4]) -> (text: String)
    ensures
        text@ == dotted(octets@),
{
    let mut text = decimal_text(octets[0] as u64);
    text.append(".");
    text.append(decimal_text(octets[1] as u64).as_str());
    text.append(".");
    text.append(decimal_text(octets[2] as u64).as_str());
    text.append(".");
    text.append(decimal_text(octets[3] as u64).as_str());
    text
}

fn names_webrtc_star(protocols: &Vec<Protocol>) -> (found: bool)
    ensures
        found == components(protocols@).contains(Component::P2pWebRtcStar),
{
    let mut i: usize = 0;
    while i < protocols.len()
        invariant
            i <= protocols.len(),
            forall|k: int|
                0 <= k < i ==> #[trigger] components(protocols@)[k] != Component::P2pWebRtcStar,
        decreases protocols.len() - i,
    {
        assert(components(protocols@)[i as int] == protocols@[i as int]@);
        if matches!(protocols[i], Protocol::P2pWebRtcStar) {
            return true;
        }
        i = i + 1;
    }
    false
}

/// Finds the signaling server, and the peer if there is one, that the
/// components of an address name.
pub fn signaling_uri(protocols: &Vec<Protocol>) -> (found: Result<
    (String, Option<PeerId>),
    UriError,
>)
    ensures
        server_view(found) == signaling_server(components(protocols@)),
{
    if !names_webrtc_star(protocols) {
        return Err(UriError::NotWebRtcStar);
    }
    let ghost cs = components(protocols@);
    let mut scheme: Option<&'static str> = None;
    let mut host: Option<String> = None;
    let mut port: Option<u16> = None;
    let mut peer: Option<PeerId> = None;
    let mut i: usize = 0;
    assert(cs.subrange(0, 0) =~= Seq::empty());
    while i < protocols.len()
        invariant
            cs == components(protocols@),
            cs.len() == protocols.len(),
            cs.contains(Component::P2pWebRtcStar),
            i <= protocols.len(),
            first_fault(cs.subrange(0, i as int)) is None,
            scheme is Some <==> filled(cs.subrange(0, i as int), Slot::Scheme) is Some,
            scheme matches Some(t) ==> t@ == scheme_text(
                filled(cs.subrange(0, i as int), Slot::Scheme)->0,
            ),
            host is Some <==> filled(cs.subrange(0, i as int), Slot::Host) is Some,
            host matches Some(t) ==> t@ == host_text(
                filled(cs.subrange(0, i as int), Slot::Host)->0,
            ),
            port is Some <==> filled(cs.subrange(0, i as int), Slot::Port) is Some,
            port matches Some(p) ==> filled(cs.subrange(0, i as int), Slot::Port) == Some(
                Component::Tcp(p),
            ),
            peer is Some <==> filled(cs.subrange(0, i as int), Slot::Peer) is Some,
            peer_view(peer) == named_peer(cs.subrange(0, i as int)),
        decreases protocols.len() - i,
    {
        let ghost before = cs.subrange(0, i as int);
        let ghost now = cs.subrange(0, i + 1);
        proof {
            assert(now.drop_last() =~= before);
            assert(now.last() == protocols@[i as int]@);
        }
        let repeated = match &protocols[i] {
            Protocol::Dns4(h) | Protocol::Dns6(h) | Protocol::Ip6(h) => {
                let repeated = host.is_some();
                host = Some(h.clone());
                repeated
            },
            Protocol::Ip4(octets) => {
                let repeated = host.is_some();
                host = Some(dotted_text(octets));
                repeated
            },
            Protocol::P2p(m) => {
                let repeated = peer.is_some();
                match PeerId::from_bytes(m.as_slice()) {
                    Some(p) => {
                        peer = Some(p);
                        repeated
                    },
                    None => {
                        proof {
                            lemma_fault_stays(cs, i + 1);
                        }
                        return Err(UriError::InvalidPeerId);
                    },
                }
            },
            Protocol::Tcp(p) => {
                let repeated = port.is_some();
                port = Some(*p);
                repeated
            },
            Protocol::Ws => {
                let repeated = scheme.is_some();
                scheme = Some("ws");
                repeated
            },
            Protocol::Wss => {
                let repeated = scheme.is_some();
                scheme = Some("wss");
                repeated
            },
            Protocol::P2pWebRtcStar | Protocol::Other => false,
        };
        if repeated {
            proof {
                lemma_fault_stays(cs, i + 1);
            }
            return Err(UriError::UnexpectedFormat);
        }
        i = i + 1;
    }
    assert(cs.subrange(0, i as int) =~= cs);
    match (scheme, host, port) {
        (Some(scheme), Some(host), Some(port)) => {
            let mut uri = scheme.to_owned();
            uri.append("://");
            uri.append(host.as_str());
            uri.append(":");
            uri.append(decimal_text(port as u64).as_str());
            Ok((uri, peer))
        },
        _ => {
            proof {
                lemma_port_is_tcp(cs);
            }
            Err(UriError::Incomplete)
        },
    }
}

/// The first fault of the first components is the first fault of all.
proof fn lemma_fault_stays(cs: Seq<Component>, k: int)
    requires
        0 <= k <= cs.len(),
        first_fault(cs.subrange(0, k)) is Some,
    ensures
        first_fault(cs) == first_fault(cs.subrange(0, k)),
    decreases cs.len() - k,
{
    if k < cs.len() {
        assert(cs.subrange(0, k + 1).drop_last() =~= cs.subrange(0, k));
        lemma_fault_stays(cs, k + 1);
    } else {
        assert(cs.subrange(0, k) =~= cs);
    }
}

/// What fills the port is a `tcp` component.
proof fn lemma_port_is_tcp(cs: Seq<Component>)
    ensures
        filled(cs, Slot::Port) matches Some(c) ==> c is Tcp,
    decreases cs.len(),
{
    if cs.len() > 0 {
        lemma_port_is_tcp(cs.drop_last());
    }
}

/// Finds the signaling server, and the peer if there is one, that an address
/// names.
pub fn extract_uri(addr: &Multiaddr) -> (found: Result<(String, Option<PeerId>), UriError>)
    ensures
        server_view(found) == signaling_server(addr.components()),
        addr.well_formed(),
{
    let protocols = addr.protocols();
    signaling_uri(&protocols)
}

/// No part occurs twice.
pub open spec fn no_part_repeated(cs: Seq<Component>) -> bool {
    forall|i: int, j: int|
        0 <= i < j < cs.len() && slot_of(#[trigger] cs[i]) is Some ==> slot_of(cs[i]) != slot_of(
            #[trigger] cs[j],
        )
}

/// Some component fills `slot`.
pub open spec fn fills(cs: Seq<Component>, slot: Slot) -> bool {
    exists|i: int| 0 <= i < cs.len() && slot_of(#[trigger] cs[i]) == Some(slot)
}

/// Every `p2p` component holds a peer id.
pub open spec fn peers_valid(cs: Seq<Component>) -> bool {
    forall|i: int|
        0 <= i < cs.len() ==> (#[trigger] cs[i] matches Component::P2p(m) ==> peer_id_of_bytes(
            m,
        ) is Some)
}

proof fn lemma_filled_fills(cs: Seq<Component>, slot: Slot)
    ensures
        filled(cs, slot) is Some <==> fills(cs, slot),
    decreases cs.len(),
{
    if cs.len() > 0 {
        let shorter = cs.drop_last();
        lemma_filled_fills(shorter, slot);
        if slot_of(cs.last()) == Some(slot) {
            assert(slot_of(cs[cs.len() - 1]) == Some(slot));
        } else {
            if fills(cs, slot) {
                let i = choose|i: int|
                    0 <= i < cs.len() && slot_of(#[trigger] cs[i]) == Some(slot);
                assert(slot_of(shorter[i]) == Some(slot));
            }
            if fills(shorter, slot) {
                let i = choose|i: int|
                    0 <= i < shorter.len() && slot_of(#[trigger] shorter[i]) == Some(slot);
                assert(slot_of(cs[i]) == Some(slot));
            }
        }
    }
}

proof fn lemma_faultless(cs: Seq<Component>)
    ensures
        first_fault(cs) is None <==> no_part_repeated(cs) && peers_valid(cs),
    decreases cs.len(),
{
    if cs.len() > 0 {
        let shorter = cs.drop_last();
        let n = cs.len() - 1;
        lemma_faultless(shorter);
        if no_part_repeated(cs) && peers_valid(cs) {
            assert(forall|i: int| 0 <= i < shorter.len() ==> shorter[i] == cs[i]);
            assert(no_part_repeated(shorter));
            assert(peers_valid(shorter));
            if slot_of(cs.last()) is Some {
                lemma_filled_fills(shorter, slot_of(cs.last())->0);
                assert(cs[n] == cs.last());
            }
        }
        if first_fault(cs) is None {
            assert(first_fault(shorter) is None && last_fault(cs) is None);
            assert forall|i: int| 0 <= i < cs.len() implies (#[trigger] cs[i] matches Component::P2p(
                m,
            ) ==> peer_id_of_bytes(m) is Some) by {
                if i < n {
                    assert(shorter[i] == cs[i]);
                }
            }
            assert forall|i: int, j: int|
                0 <= i < j < cs.len() && slot_of(#[trigger] cs[i]) is Some implies slot_of(cs[i])
                != slot_of(#[trigger] cs[j]) by {
                assert(shorter[i] == cs[i]);
                if j < n {
                    assert(shorter[j] == cs[j]);
                } else if slot_of(cs[i]) == slot_of(cs[j]) {
                    lemma_filled_fills(shorter, slot_of(cs[j])->0);
                    assert(slot_of(shorter[i]) == slot_of(cs.last()));
                }
            }
        }
    }
}

/// An address names a signaling server exactly when it has a
/// `p2p-webrtc-star` component, a host, a port, and one of `ws` and `wss`, none
/// of these parts nor the peer occurs twice, and every peer id in it is valid.
pub proof fn law_address_names_server(cs: Seq<Component>)
    ensures
        signaling_server(cs) is Ok <==> {
            &&& cs.contains(Component::P2pWebRtcStar)
            &&& fills(cs, Slot::Scheme)
            &&& fills(cs, Slot::Host)
            &&& fills(cs, Slot::Port)
            &&& no_part_repeated(cs)
            &&& peers_valid(cs)
        },
{
    lemma_faultless(cs);
    lemma_port_is_tcp(cs);
    lemma_filled_fills(cs, Slot::Scheme);
    lemma_filled_fills(cs, Slot::Host);
    lemma_filled_fills(cs, Slot::Port);
}

/// An address that names a server names a peer exactly when it has a `p2p`
/// component.
pub proof fn law_peer_is_named(cs: Seq<Component>)
    requires
        signaling_server(cs) is Ok,
    ensures
        signaling_server(cs)->Ok_0.1 is Some <==> fills(cs, Slot::Peer),
{
    lemma_faultless(cs);
    lemma_filled_fills(cs, Slot::Peer);
    lemma_peer_is_valid(cs);
}

proof fn lemma_peer_is_valid(cs: Seq<Component>)
    requires
        first_fault(cs) is None,
    ensures
        filled(cs, Slot::Peer) matches Some(c) ==> (c matches Component::P2p(m)
            && peer_id_of_bytes(m) is Some),
    decreases cs.len(),
{
    if cs.len() > 0 {
        lemma_peer_is_valid(cs.drop_last());
    }
}

/// An address that names a server and no peer, followed by `/p2p/<peer>`, names
/// the same server and that peer: the address on which a peer says that it
/// listens is one on which it can be dialed.
pub proof fn law_listen_address_is_dialable(cs: Seq<Component>, peer: Seq<u8>)
    requires
        signaling_server(cs) matches Ok((_, None)),
        valid_peer_bytes(peer),
    ensures
        signaling_server(cs.push(Component::P2p(peer))) matches Ok((uri, named)) && uri
            == signaling_server(cs)->Ok_0.0 && named == Some(peer),
{
    let longer = cs.push(Component::P2p(peer));
    assert(longer.drop_last() =~= cs);
    let star = choose|i: int| 0 <= i < cs.len() && cs[i] == Component::P2pWebRtcStar;
    assert(longer[star] == Component::P2pWebRtcStar);
    lemma_peer_is_valid(cs);
}

/// An address that already names a peer names no server once another `p2p`
/// component follows.
pub proof fn law_second_peer_is_refused(cs: Seq<Component>, peer: Seq<u8>)
    requires
        signaling_server(cs) matches Ok((_, Some(_))),
        valid_peer_bytes(peer),
    ensures
        signaling_server(cs.push(Component::P2p(peer))) matches Err(UriError::UnexpectedFormat),
{
    let longer = cs.push(Component::P2p(peer));
    assert(longer.drop_last() =~= cs);
    let star = choose|i: int| 0 <= i < cs.len() && cs[i] == Component::P2pWebRtcStar;
    assert(longer[star] == Component::P2pWebRtcStar);
}

/// The component at `i` fills its part, and is where that is found.
proof fn lemma_filled_at(cs: Seq<Component>, i: int)
    requires
        0 <= i < cs.len(),
        slot_of(cs[i]) is Some,
        no_part_repeated(cs),
    ensures
        filled(cs, slot_of(cs[i])->0) == Some(cs[i]),
    decreases cs.len(),
{
    if i < cs.len() - 1 {
        let shorter = cs.drop_last();
        assert(slot_of(cs[i]) != slot_of(cs[cs.len() - 1]));
        assert(forall|k: int| 0 <= k < shorter.len() ==> #[trigger] shorter[k] == cs[k]);
        lemma_filled_at(shorter, i);
    }
}

/// The URI of a server is made of the scheme, the host and the port that the
/// address holds, wherever in it they stand: `ws` for `ws` and `wss` for `wss`,
/// a name as it is, the octets of an IPv4 address in decimal with dots between
/// them, and the port in decimal.
pub proof fn law_uri_is_made_of_parts(
    protocols: Vec<Protocol>,
    found: Result<(String, Option<PeerId>), UriError>,
    scheme: int,
    host: int,
    port: int,
)
    requires
        call_ensures(signaling_uri, (&protocols,), found),
        found is Ok,
        0 <= scheme < protocols@.len(),
        0 <= host < protocols@.len(),
        0 <= port < protocols@.len(),
        protocols@[scheme] is Ws || protocols@[scheme] is Wss,
        protocols@[host] is Dns4 || protocols@[host] is Dns6 || protocols@[host] is Ip4
            || protocols@[host] is Ip6,
        protocols@[port] is Tcp,
    ensures
        found matches Ok((uri, _)) && uri@ == (if protocols@[scheme] is Wss {
            "wss"@
        } else {
            "ws"@
        }) + "://"@ + (match protocols@[host] {
            Protocol::Dns4(name) => name@,
            Protocol::Dns6(name) => name@,
            Protocol::Ip4(octets) => decimal(octets@[0] as nat) + "."@ + decimal(octets@[1] as nat)
                + "."@ + decimal(octets@[2] as nat) + "."@ + decimal(octets@[3] as nat),
            Protocol::Ip6(text) => text@,
            _ => arbitrary(),
        }) + ":"@ + decimal(protocols@[port]->Tcp_0 as nat),
{
    let cs = components(protocols@);
    lemma_faultless(cs);
    assert(cs[scheme] == protocols@[scheme]@);
    assert(cs[host] == protocols@[host]@);
    assert(cs[port] == protocols@[port]@);
    lemma_filled_at(cs, scheme);
    lemma_filled_at(cs, host);
    lemma_filled_at(cs, port);
}

/// A peer connects with TLS exactly when the address says `wss`, and without
/// exactly when it says `ws`, whatever else the address holds.
pub proof fn law_scheme_is_kept(
    protocols: Vec<Protocol>,
    found: Result<(String, Option<PeerId>), UriError>,
)
    requires
        call_ensures(signaling_uri, (&protocols,), found),
        found is Ok,
    ensures
        found matches Ok((uri, _)) && {
            let starts = |prefix: Seq<char>|
                prefix.len() <= uri@.len() && uri@.take(prefix.len() as int) == prefix;
            &&& starts("wss://"@) <==> exists|i: int|
                0 <= i < protocols@.len() && #[trigger] protocols@[i] is Wss
            &&& starts("ws://"@) <==> exists|i: int|
                0 <= i < protocols@.len() && #[trigger] protocols@[i] is Ws
        },
{
    let uri = found->Ok_0.0;
    reveal_strlit("wss://");
    reveal_strlit("ws://");
    reveal_strlit("wss");
    reveal_strlit("ws");
    reveal_strlit("://");
    law_server_is_named(protocols, found);
    let s = choose|i: int|
        0 <= i < protocols@.len() && (#[trigger] protocols@[i] is Ws || protocols@[i] is Wss);
    let h = choose|i: int|
        0 <= i < protocols@.len() && (#[trigger] protocols@[i] is Dns4 || protocols@[i] is Dns6
            || protocols@[i] is Ip4 || protocols@[i] is Ip6);
    let p = choose|i: int| 0 <= i < protocols@.len() && #[trigger] protocols@[i] is Tcp;
    law_uri_is_made_of_parts(protocols, found, s, h, p);
    let scheme = if protocols@[s] is Wss {
        "wss"@
    } else {
        "ws"@
    };
    assert(uri@.take(scheme.len() as int + 3) =~= scheme + "://"@);
    if protocols@[s] is Wss {
        assert("wss"@ + "://"@ =~= "wss://"@);
        assert(uri@[1] == 's' && "ws://"@[2] == ':' && uri@[2] == 's');
        if uri@.take(5) == "ws://"@ {
            assert(uri@.take(5)[2] == uri@[2]);
        }
        assert forall|i: int| 0 <= i < protocols@.len() implies !(#[trigger] protocols@[i] is Ws) by {
            if protocols@[i] is Ws {
                lemma_one_scheme(protocols, found, s, i);
            }
        }
    } else {
        assert("ws"@ + "://"@ =~= "ws://"@);
        assert(uri@[2] == uri@.take(5)[2]);
        if uri@.take(6) == "wss://"@ {
            assert(uri@.take(6)[2] == uri@[2]);
        }
        assert forall|i: int| 0 <= i < protocols@.len() implies !(#[trigger] protocols@[i] is Wss) by {
            if protocols@[i] is Wss {
                lemma_one_scheme(protocols, found, s, i);
            }
        }
    }
}

proof fn lemma_one_scheme(
    protocols: Vec<Protocol>,
    found: Result<(String, Option<PeerId>), UriError>,
    s: int,
    i: int,
)
    requires
        call_ensures(signaling_uri, (&protocols,), found),
        found is Ok,
        0 <= s < protocols@.len(),
        0 <= i < protocols@.len(),
        protocols@[s] is Ws || protocols@[s] is Wss,
        protocols@[i] is Ws || protocols@[i] is Wss,
    ensures
        protocols@[i] is Ws <==> protocols@[s] is Ws,
{
    let cs = components(protocols@);
    lemma_faultless(cs);
    assert(cs[s] == protocols@[s]@);
    assert(cs[i] == protocols@[i]@);
}

/// An address names a server exactly when it has a `p2p-webrtc-star` component,
/// one of `ws` and `wss`, one DNS name or IP address, one `tcp` port, and at most
/// one `p2p` component, which is a peer id. No other component matters.
pub proof fn law_server_is_named(
    protocols: Vec<Protocol>,
    found: Result<(String, Option<PeerId>), UriError>,
)
    requires
        call_ensures(signaling_uri, (&protocols,), found),
    ensures
        found is Ok <==> {
            &&& exists|i: int| 0 <= i < protocols@.len() && #[trigger] protocols@[i] is P2pWebRtcStar
            &&& exists|i: int|
                0 <= i < protocols@.len() && (#[trigger] protocols@[i] is Ws || protocols@[i] is Wss)
            &&& exists|i: int|
                0 <= i < protocols@.len() && (#[trigger] protocols@[i] is Dns4
                    || protocols@[i] is Dns6 || protocols@[i] is Ip4 || protocols@[i] is Ip6)
            &&& exists|i: int| 0 <= i < protocols@.len() && #[trigger] protocols@[i] is Tcp
            &&& forall|i: int, j: int|
                0 <= i < j < protocols@.len() ==> {
                    let a = #[trigger] protocols@[i];
                    let b = #[trigger] protocols@[j];
                    &&& !((a is Ws || a is Wss) && (b is Ws || b is Wss))
                    &&& !((a is Dns4 || a is Dns6 || a is Ip4 || a is Ip6) && (b is Dns4 || b is Dns6
                        || b is Ip4 || b is Ip6))
                    &&& !(a is Tcp && b is Tcp)
                    &&& !(a is P2p && b is P2p)
                }
            &&& forall|i: int|
                0 <= i < protocols@.len() ==> (#[trigger] protocols@[i] matches Protocol::P2p(m)
                    ==> peer_id_of_bytes(m@) is Some)
        },
{
    let cs = components(protocols@);
    law_address_names_server(cs);
    assert(forall|i: int| 0 <= i < cs.len() ==> #[trigger] cs[i] == protocols@[i]@);
    assert(cs.contains(Component::P2pWebRtcStar) <==> exists|i: int|
        0 <= i < protocols@.len() && #[trigger] protocols@[i] is P2pWebRtcStar) by {
        if cs.contains(Component::P2pWebRtcStar) {
            let i = choose|i: int| 0 <= i < cs.len() && cs[i] == Component::P2pWebRtcStar;
            assert(protocols@[i] is P2pWebRtcStar);
        }
        if exists|i: int| 0 <= i < protocols@.len() && #[trigger] protocols@[i] is P2pWebRtcStar {
            let i = choose|i: int|
                0 <= i < protocols@.len() && #[trigger] protocols@[i] is P2pWebRtcStar;
            assert(cs[i] == Component::P2pWebRtcStar);
        }
    }
    assert(fills(cs, Slot::Scheme) <==> exists|i: int|
        0 <= i < protocols@.len() && (#[trigger] protocols@[i] is Ws || protocols@[i] is Wss)) by {
        if fills(cs, Slot::Scheme) {
            let i = choose|i: int| 0 <= i < cs.len() && slot_of(#[trigger] cs[i]) == Some(Slot::Scheme);
            assert(protocols@[i] is Ws || protocols@[i] is Wss);
        }
        if exists|i: int|
            0 <= i < protocols@.len() && (#[trigger] protocols@[i] is Ws || protocols@[i] is Wss) {
            let i = choose|i: int|
                0 <= i < protocols@.len() && (#[trigger] protocols@[i] is Ws || protocols@[i] is Wss);
            assert(slot_of(cs[i]) == Some(Slot::Scheme));
        }
    }
    assert(fills(cs, Slot::Host) <==> exists|i: int|
        0 <= i < protocols@.len() && (#[trigger] protocols@[i] is Dns4 || protocols@[i] is Dns6
            || protocols@[i] is Ip4 || protocols@[i] is Ip6)) by {
        if fills(cs, Slot::Host) {
            let i = choose|i: int| 0 <= i < cs.len() && slot_of(#[trigger] cs[i]) == Some(Slot::Host);
            assert(protocols@[i] is Dns4 || protocols@[i] is Dns6 || protocols@[i] is Ip4
                || protocols@[i] is Ip6);
        }
        if exists|i: int|
            0 <= i < protocols@.len() && (#[trigger] protocols@[i] is Dns4 || protocols@[i] is Dns6
                || protocols@[i] is Ip4 || protocols@[i] is Ip6) {
            let i = choose|i: int|
                0 <= i < protocols@.len() && (#[trigger] protocols@[i] is Dns4
                    || protocols@[i] is Dns6 || protocols@[i] is Ip4 || protocols@[i] is Ip6);
            assert(slot_of(cs[i]) == Some(Slot::Host));
        }
    }
    assert(fills(cs, Slot::Port) <==> exists|i: int|
        0 <= i < protocols@.len() && #[trigger] protocols@[i] is Tcp) by {
        if fills(cs, Slot::Port) {
            let i = choose|i: int| 0 <= i < cs.len() && slot_of(#[trigger] cs[i]) == Some(Slot::Port);
            assert(protocols@[i] is Tcp);
        }
        if exists|i: int| 0 <= i < protocols@.len() && #[trigger] protocols@[i] is Tcp {
            let i = choose|i: int| 0 <= i < protocols@.len() && #[trigger] protocols@[i] is Tcp;
            assert(slot_of(cs[i]) == Some(Slot::Port));
        }
    }
    lemma_parts_repeated(protocols@);
    assert(peers_valid(cs) <==> forall|i: int|
        0 <= i < protocols@.len() ==> (#[trigger] protocols@[i] matches Protocol::P2p(m)
            ==> peer_id_of_bytes(m@) is Some)) by {
        if peers_valid(cs) {
            assert forall|i: int| 0 <= i < protocols@.len() implies (
            #[trigger] protocols@[i] matches Protocol::P2p(m) ==> peer_id_of_bytes(m@) is Some) by {
                assert(cs[i] == protocols@[i]@);
            }
        }
    }
}

proof fn lemma_parts_repeated(protocols: Seq<Protocol>)
    ensures
        no_part_repeated(components(protocols)) <==> forall|i: int, j: int|
            0 <= i < j < protocols.len() ==> {
                let a = #[trigger] protocols[i];
                let b = #[trigger] protocols[j];
                &&& !((a is Ws || a is Wss) && (b is Ws || b is Wss))
                &&& !((a is Dns4 || a is Dns6 || a is Ip4 || a is Ip6) && (b is Dns4 || b is Dns6
                    || b is Ip4 || b is Ip6))
                &&& !(a is Tcp && b is Tcp)
                &&& !(a is P2p && b is P2p)
            },
{
    let cs = components(protocols);
    assert(forall|i: int| 0 <= i < cs.len() ==> #[trigger] cs[i] == protocols[i]@);
    if no_part_repeated(cs) {
        assert forall|i: int, j: int| 0 <= i < j < protocols.len() implies {
            let a = #[trigger] protocols[i];
            let b = #[trigger] protocols[j];
            &&& !((a is Ws || a is Wss) && (b is Ws || b is Wss))
            &&& !((a is Dns4 || a is Dns6 || a is Ip4 || a is Ip6) && (b is Dns4 || b is Dns6
                || b is Ip4 || b is Ip6))
            &&& !(a is Tcp && b is Tcp)
            &&& !(a is P2p && b is P2p)
        } by {
            assert(cs[i] == protocols[i]@ && cs[j] == protocols[j]@);
        }
    } else {
        let (i, j) = choose|i: int, j: int|
            !(0 <= i < j < cs.len() && slot_of(#[trigger] cs[i]) is Some ==> slot_of(cs[i])
                != slot_of(#[trigger] cs[j]));
        assert(cs[i] == protocols[i]@ && cs[j] == protocols[j]@);
        let a = protocols[i];
        let b = protocols[j];
        assert(((a is Ws || a is Wss) && (b is Ws || b is Wss)) || ((a is Dns4 || a is Dns6
            || a is Ip4 || a is Ip6) && (b is Dns4 || b is Dns6 || b is Ip4 || b is Ip6)) || (a is Tcp
            && b is Tcp) || (a is P2p && b is P2p));
    }
}

/// The peer that is named is the one of the `p2p` component, and none is named
/// where there is no such component.
pub proof fn law_named_peer_is_of_component(
    protocols: Vec<Protocol>,
    found: Result<(String, Option<PeerId>), UriError>,
    i: int,
)
    requires
        call_ensures(signaling_uri, (&protocols,), found),
        found is Ok,
    ensures
        0 <= i < protocols@.len() && protocols@[i] is P2p ==> (found matches Ok((_, Some(peer)))
            && peer_id_of_bytes(protocols@[i]->P2p_0@) == Some(peer@)),
        found matches Ok((_, None)) <==> forall|k: int|
            0 <= k < protocols@.len() ==> !(#[trigger] protocols@[k] is P2p),
{
    let cs = components(protocols@);
    lemma_faultless(cs);
    lemma_peer_is_valid(cs);
    lemma_filled_fills(cs, Slot::Peer);
    assert(forall|k: int| 0 <= k < cs.len() ==> #[trigger] cs[k] == protocols@[k]@);
    if 0 <= i < protocols@.len() && protocols@[i] is P2p {
        lemma_filled_at(cs, i);
    }
    if fills(cs, Slot::Peer) {
        let k = choose|k: int| 0 <= k < cs.len() && slot_of(#[trigger] cs[k]) == Some(Slot::Peer);
        assert(protocols@[k] is P2p);
    } else {
        assert forall|k: int| 0 <= k < protocols@.len() implies !(#[trigger] protocols@[k] is P2p) by {
            if protocols@[k] is P2p {
                assert(slot_of(cs[k]) == Some(Slot::Peer));
            }
        }
    }
}

/// The first component with which something is wrong decides how an address is
/// refused: as one with an invalid peer id, or as one in which a part occurs
/// twice. `n` is its place; nothing is wrong before it.
pub proof fn law_first_fault_decides(
    protocols: Vec<Protocol>,
    found: Result<(String, Option<PeerId>), UriError>,
    n: int,
)
    requires
        call_ensures(signaling_uri, (&protocols,), found),
        exists|i: int| 0 <= i < protocols@.len() && #[trigger] protocols@[i] is P2pWebRtcStar,
        0 <= n < protocols@.len(),
        // No part occurs twice before `n`, and every peer id is valid there.
        forall|i: int, j: int|
            0 <= i < j < n ==> {
                let a = #[trigger] protocols@[i];
                let b = #[trigger] protocols@[j];
                &&& !((a is Ws || a is Wss) && (b is Ws || b is Wss))
                &&& !((a is Dns4 || a is Dns6 || a is Ip4 || a is Ip6) && (b is Dns4 || b is Dns6
                    || b is Ip4 || b is Ip6))
                &&& !(a is Tcp && b is Tcp)
                &&& !(a is P2p && b is P2p)
            },
        forall|i: int|
            0 <= i < n ==> (#[trigger] protocols@[i] matches Protocol::P2p(m) ==> peer_id_of_bytes(
                m@,
            ) is Some),
    ensures
        protocols@[n] matches Protocol::P2p(m) && peer_id_of_bytes(m@) is None ==> (
        found matches Err(UriError::InvalidPeerId)),
        (protocols@[n] matches Protocol::P2p(m) ==> peer_id_of_bytes(m@) is Some) && (exists|i: int|
            0 <= i < n && {
                let a = #[trigger] protocols@[i];
                let b = protocols@[n];
                ||| (a is Ws || a is Wss) && (b is Ws || b is Wss)
                ||| (a is Dns4 || a is Dns6 || a is Ip4 || a is Ip6) && (b is Dns4 || b is Dns6
                    || b is Ip4 || b is Ip6)
                ||| a is Tcp && b is Tcp
                ||| a is P2p && b is P2p
            }) ==> (found matches Err(UriError::UnexpectedFormat)),
{
    let ps = protocols@;
    let cs = components(ps);
    let before = cs.subrange(0, n);
    let now = cs.subrange(0, n + 1);
    let star = choose|i: int| 0 <= i < ps.len() && #[trigger] ps[i] is P2pWebRtcStar;
    assert(cs[star] == Component::P2pWebRtcStar);
    assert(before =~= components(ps.subrange(0, n)));
    assert(forall|i: int| 0 <= i < n ==> #[trigger] ps.subrange(0, n)[i] == ps[i]);
    lemma_parts_repeated(ps.subrange(0, n));
    assert forall|i: int| 0 <= i < before.len() implies (#[trigger] before[i] matches Component::P2p(
        m,
    ) ==> peer_id_of_bytes(m) is Some) by {
        assert(before[i] == ps[i]@);
    }
    lemma_faultless(before);
    assert(now.drop_last() =~= before);
    assert(now.last() == ps[n]@);
    if first_fault(now) is Some {
        lemma_fault_stays(cs, n + 1);
    }
    if slot_of(now.last()) is Some {
        let slot = slot_of(now.last())->0;
        lemma_filled_fills(before, slot);
        if exists|i: int|
            0 <= i < n && {
                let a = #[trigger] ps[i];
                let b = ps[n];
                ||| (a is Ws || a is Wss) && (b is Ws || b is Wss)
                ||| (a is Dns4 || a is Dns6 || a is Ip4 || a is Ip6) && (b is Dns4 || b is Dns6
                    || b is Ip4 || b is Ip6)
                ||| a is Tcp && b is Tcp
                ||| a is P2p && b is P2p
            } {
            let i = choose|i: int|
                0 <= i < n && {
                    let a = #[trigger] ps[i];
                    let b = ps[n];
                    ||| (a is Ws || a is Wss) && (b is Ws || b is Wss)
                    ||| (a is Dns4 || a is Dns6 || a is Ip4 || a is Ip6) && (b is Dns4 || b is Dns6
                        || b is Ip4 || b is Ip6)
                    ||| a is Tcp && b is Tcp
                    ||| a is P2p && b is P2p
                };
            assert(before[i] == ps[i]@);
            assert(slot_of(before[i]) == Some(slot));
        }
    }
}

/// An address is refused as no `p2p-webrtc-star` address exactly when that
/// component is missing, and as incomplete exactly when that component is there,
/// nothing occurs twice, every peer id is valid, and something is missing.
pub proof fn law_missing_parts_are_told(
    protocols: Vec<Protocol>,
    found: Result<(String, Option<PeerId>), UriError>,
)
    requires
        call_ensures(signaling_uri, (&protocols,), found),
    ensures
        found matches Err(UriError::NotWebRtcStar) <==> forall|i: int|
            0 <= i < protocols@.len() ==> !(#[trigger] protocols@[i] is P2pWebRtcStar),
        found matches Err(UriError::Incomplete) ==> {
            ||| forall|i: int|
                0 <= i < protocols@.len() ==> !(#[trigger] protocols@[i] is Ws)
                    && !(protocols@[i] is Wss)
            ||| forall|i: int|
                0 <= i < protocols@.len() ==> !(#[trigger] protocols@[i] is Dns4)
                    && !(protocols@[i] is Dns6) && !(protocols@[i] is Ip4)
                    && !(protocols@[i] is Ip6)
            ||| forall|i: int| 0 <= i < protocols@.len() ==> !(#[trigger] protocols@[i] is Tcp)
        },
        found matches Err(UriError::Incomplete) ==> forall|i: int, j: int|
            0 <= i < j < protocols@.len() ==> {
                let a = #[trigger] protocols@[i];
                let b = #[trigger] protocols@[j];
                &&& !((a is Ws || a is Wss) && (b is Ws || b is Wss))
                &&& !((a is Dns4 || a is Dns6 || a is Ip4 || a is Ip6) && (b is Dns4 || b is Dns6
                    || b is Ip4 || b is Ip6))
                &&& !(a is Tcp && b is Tcp)
                &&& !(a is P2p && b is P2p)
            },
        found matches Err(UriError::Incomplete) ==> forall|i: int|
            0 <= i < protocols@.len() ==> (#[trigger] protocols@[i] matches Protocol::P2p(m)
                ==> peer_id_of_bytes(m@) is Some),
{
    let ps = protocols@;
    let cs = components(ps);
    lemma_no_fault_is_incomplete(cs);
    law_server_is_named(protocols, found);
    assert(forall|i: int| 0 <= i < cs.len() ==> #[trigger] cs[i] == ps[i]@);
    if cs.contains(Component::P2pWebRtcStar) {
        let i = choose|i: int| 0 <= i < cs.len() && cs[i] == Component::P2pWebRtcStar;
        assert(ps[i] is P2pWebRtcStar);
    } else {
        assert forall|i: int| 0 <= i < ps.len() implies !(#[trigger] ps[i] is P2pWebRtcStar) by {
            if ps[i] is P2pWebRtcStar {
                assert(cs[i] == Component::P2pWebRtcStar);
            }
        }
    }
    if found matches Err(UriError::Incomplete) {
        lemma_faultless(cs);
        lemma_parts_repeated(ps);
        assert forall|i: int| 0 <= i < ps.len() implies (#[trigger] ps[i] matches Protocol::P2p(m)
            ==> peer_id_of_bytes(m@) is Some) by {
            assert(cs[i] == ps[i]@);
        }
    }
}

proof fn lemma_no_fault_is_incomplete(cs: Seq<Component>)
    ensures
        first_fault(cs) != Some(UriError::Incomplete),
        first_fault(cs) != Some(UriError::NotWebRtcStar),
    decreases cs.len(),
{
    if cs.len() > 0 {
        lemma_no_fault_is_incomplete(cs.drop_last());
    }
}

/// An address names what its components name.
pub proof fn law_address_is_its_components(
    addr: Multiaddr,
    protocols: Vec<Protocol>,
    of_addr: Result<(String, Option<PeerId>), UriError>,
    of_protocols: Result<(String, Option<PeerId>), UriError>,
)
    requires
        call_ensures(Multiaddr::protocols, (&addr,), protocols),
        call_ensures(extract_uri, (&addr,), of_addr),
        call_ensures(signaling_uri, (&protocols,), of_protocols),
    ensures
        of_addr is Ok <==> of_protocols is Ok,
        of_addr matches Ok((uri, peer)) ==> (of_protocols matches Ok((u, p)) && u@ == uri@ && (p
            is Some <==> peer is Some) && (peer matches Some(a) ==> p->0@ == a@)),
        of_addr matches Err(e) ==> of_protocols == Err::<(String, Option<PeerId>), UriError>(e),
{
    assert(server_view(of_addr) == server_view(of_protocols));
}

/// An address followed by a peer names the server that it named before, and
/// that peer, unless it named one already; then it is refused.
pub proof fn law_appended_peer_is_named(
    addr: Multiaddr,
    peer: PeerId,
    longer: Multiaddr,
    before: Result<(String, Option<PeerId>), UriError>,
    after: Result<(String, Option<PeerId>), UriError>,
)
    requires
        valid_peer_bytes(peer@),
        call_ensures(Multiaddr::with_peer, (&addr, &peer), longer),
        call_ensures(extract_uri, (&addr,), before),
        call_ensures(extract_uri, (&longer,), after),
    ensures
        before matches Ok((uri, None)) ==> (after matches Ok((u, Some(p))) && u@ == uri@ && p@
            == peer@),
        before matches Ok((_, Some(_))) ==> (after matches Err(UriError::UnexpectedFormat)),
        longer@.len() == addr@.len() + 3 + peer@.len(),
        longer@.take(addr@.len() as int) == addr@,
        longer@.skip(addr@.len() as int + 3) == peer@,
{
    let cs = addr.components();
    assert(server_view(before) == signaling_server(cs));
    assert(server_view(after) == signaling_server(cs.push(Component::P2p(peer@))));
    if before matches Ok((uri, None)) {
        law_listen_address_is_dialable(cs, peer@);
    }
    if before matches Ok((_, Some(_))) {
        law_second_peer_is_refused(cs, peer@);
    }
    assert(longer@.take(addr@.len() as int) =~= addr@);
    assert(longer@.skip(addr@.len() as int + 3) =~= peer@);
}

/// A refusal says what is wrong, and with which address.
pub proof fn law_refusals_show_address(error: UriError, shown: &str, text: String)
    requires
        call_ensures(UriError::message, (&error, shown), text),
    ensures
        error is NotWebRtcStar ==> text@ == "Only p2p-webrtc-star connections are supported."@,
        error is InvalidPeerId ==> text@ == shown@,
        error is UnexpectedFormat ==> text@ == "Unexpected format: "@ + shown@,
        error is Incomplete ==> text@ == "Unable to extract signaling uri and peer from "@ + shown@,
{
}

/// An address is kept: its bytes are those that it was read from, a copy is the
/// same, and its components are all of those that the bytes have, in order.
pub proof fn law_address_is_kept(
    bytes: Vec<u8>,
    read: Option<Multiaddr>,
    addr: Multiaddr,
    copy: Multiaddr,
    written: Vec<u8>,
    protocols: Vec<Protocol>,
    text: String,
)
    requires
        call_ensures(Multiaddr::from_bytes, (bytes,), read),
        call_ensures(<Multiaddr as Clone>::clone, (&addr,), copy),
        call_ensures(Multiaddr::to_bytes, (&addr,), written),
        call_ensures(Multiaddr::protocols, (&addr,), protocols),
        call_ensures(Multiaddr::to_text, (&addr,), text),
    ensures
        read is Some <==> multiaddr_components(bytes@) is Some,
        read matches Some(a) ==> a@ == bytes@,
        copy@ == addr@,
        written@ == addr@,
        text@ == multiaddr_text(addr@),
        multiaddr_components(addr@) matches Some(cs) && cs.len() == protocols@.len() && forall|i: int|
            0 <= i < cs.len() ==> #[trigger] cs[i] == protocols@[i]@,
{
}

/// Two addresses that differ in the host alone have URIs that differ in the host
/// alone: the scheme before it and the port behind it are the same.
pub proof fn law_host_is_all_that_differs(
    first: Vec<Protocol>,
    second: Vec<Protocol>,
    of_first: Result<(String, Option<PeerId>), UriError>,
    of_second: Result<(String, Option<PeerId>), UriError>,
    host: int,
)
    requires
        call_ensures(signaling_uri, (&first,), of_first),
        call_ensures(signaling_uri, (&second,), of_second),
        of_first is Ok,
        of_second is Ok,
        first@.len() == second@.len(),
        0 <= host < first@.len(),
        first@[host] is Dns4 || first@[host] is Dns6 || first@[host] is Ip4 || first@[host] is Ip6,
        second@[host] is Dns4 || second@[host] is Dns6 || second@[host] is Ip4
            || second@[host] is Ip6,
        forall|i: int| 0 <= i < first@.len() && i != host ==> #[trigger] first@[i] == second@[i],
    ensures
        exists|scheme: Seq<char>, port: Seq<char>|
            {
                &&& of_first->Ok_0.0@ == #[trigger] (scheme + literal_host(first@[host]) + port)
                &&& of_second->Ok_0.0@ == scheme + literal_host(second@[host]) + port
                &&& scheme == "ws://"@ || scheme == "wss://"@
            },
{
    law_server_is_named(first, of_first);
    let s = choose|i: int|
        0 <= i < first@.len() && (#[trigger] first@[i] is Ws || first@[i] is Wss);
    let p = choose|i: int| 0 <= i < first@.len() && #[trigger] first@[i] is Tcp;
    assert(first@[s] == second@[s]);
    assert(first@[p] == second@[p]);
    law_uri_is_made_of_parts(first, of_first, s, host, p);
    law_uri_is_made_of_parts(second, of_second, s, host, p);
    reveal_strlit("wss://");
    reveal_strlit("ws://");
    reveal_strlit("wss");
    reveal_strlit("ws");
    reveal_strlit("://");
    let scheme = if first@[s] is Wss {
        "wss://"@
    } else {
        "ws://"@
    };
    let port = ":"@ + decimal(first@[p]->Tcp_0 as nat);
    let a = literal_host(first@[host]);
    let b = literal_host(second@[host]);
    assert("wss"@ + "://"@ =~= "wss://"@);
    assert("ws"@ + "://"@ =~= "ws://"@);
    assert(of_first->Ok_0.0@ =~= scheme + a + port);
    assert(of_second->Ok_0.0@ =~= scheme + b + port);
}

/// How the host of an address is written.
pub open spec fn literal_host(protocol: Protocol) -> Seq<char> {
    match protocol {
        Protocol::Dns4(name) => name@,
        Protocol::Dns6(name) => name@,
        Protocol::Ip4(octets) => decimal(octets@[0] as nat) + "."@ + decimal(octets@[1] as nat)
            + "."@ + decimal(octets@[2] as nat) + "."@ + decimal(octets@[3] as nat),
        Protocol::Ip6(text) => text@,
        _ => Seq::empty(),
    }
}

} // verus!
