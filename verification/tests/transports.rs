use async_tungstenite::tungstenite::http::Uri;
use libp2p_webrtc::clients::ClientsMap;
use libp2p_webrtc::error::Error;
use libp2p_webrtc::listening::{Listening, Occurrence, Order};
use libp2p_webrtc::multiaddr::Multiaddr;
use libp2p_webrtc::negotiations::{Happening, Negotiations, Response};
use libp2p_webrtc::peer::PeerId;
use libp2p_webrtc::server::{relay, Relay};
use libp2p_webrtc::session::{Action, Event};
use libp2p_webrtc::signaling::{client_id, peer_client_id, SignalingId, SignalingMessage};
use libp2p_webrtc::transport::{TransportError, WebRtcTransport};
use libp2p_webrtc::ws::Message;

const PEER: &str = "12D3KooWPjceQrSwdWXPyLLeABRXmuqt69Rg3sBYbU1Nft9HyQ6X";
const OTHER: &str = "QmcgpsyWgH8Y8ajJz1Cu72KnS5uo2Aa2LpzU7kinSupNKC";
const SERVER: &str = "/ip4/127.0.0.1/tcp/8000/ws/p2p-webrtc-star";

fn address(text: &str) -> Multiaddr {
    let addr: libp2p::Multiaddr = text.parse().unwrap();
    Multiaddr::from_bytes(addr.to_vec()).unwrap()
}

fn transport(peer: &str) -> WebRtcTransport {
    WebRtcTransport::new(
        PeerId::from_text(peer).unwrap(),
        vec!["stun:stun.l.google.com:19302"],
    )
}

#[test]
fn transport_of_a_peer() {
    let t = transport(PEER);
    assert_eq!(t.own_peer_id().to_text(), PEER);
    assert_eq!(t.config().ice_servers, vec!["stun:stun.l.google.com:19302"]);
    assert!(t
        .address_translation(&address(SERVER), &address(SERVER))
        .is_none());
    let none = WebRtcTransport::new(PeerId::from_text(PEER).unwrap(), vec![]);
    assert!(none.config().ice_servers.is_empty());
}

#[test]
fn listening_on_an_address() {
    let stream = transport(PEER).listen_on(address(SERVER)).unwrap();
    assert_eq!(stream.uri(), format!("ws://127.0.0.1:8000/{}", PEER));
}

#[test]
fn address_is_announced_once() {
    let mut stream = transport(PEER).listen_on(address(SERVER)).unwrap();
    let unreachable = Error::ConnectionToSignalingServerFailed("refused".to_string());
    stream.on_upgrade(Err(&unreachable));
    let announced = stream.on_reached().unwrap();
    assert_eq!(announced, address(&format!("{}/p2p/{}", SERVER, PEER)));
    assert_eq!(stream.on_reached(), None);
    assert_eq!(stream.on_upgrade(Err(&unreachable)).wait_for, Some(2));
    assert_eq!(stream.on_reached(), None);
    let dial = transport(OTHER).dial(announced).unwrap();
    assert_eq!(dial.dialer.callee.to_text(), PEER);
    assert_eq!(dial.signaling_uri, format!("ws://127.0.0.1:8000/{}/0", OTHER));
}

#[test]
fn listening_on_an_unsupported_address() {
    let addr = "/ip4/127.0.0.1/tcp/8000/ws";
    match transport(PEER).listen_on(address(addr)) {
        Err(TransportError::MultiaddrNotSupported(a)) => assert_eq!(a, address(addr)),
        Ok(_) => panic!("supported"),
    }
}

#[test]
fn dialing_counts_requests() {
    let mut t = transport(PEER);
    let addr = format!("{}/p2p/{}", SERVER, OTHER);
    for n in 0..12usize {
        let dial = t.dial(address(&addr)).unwrap();
        assert_eq!(dial.signaling_uri, format!("ws://127.0.0.1:8000/{}/{}", PEER, n));
        assert_eq!(dial.dialer.identifier.caller.to_text(), PEER);
        assert_eq!(dial.dialer.identifier.counter, n);
        assert_eq!(dial.dialer.callee.to_text(), OTHER);
        assert!(t.dial(address(SERVER)).is_err());
    }
}

#[test]
fn dialing_an_unsupported_address() {
    let mut t = transport(PEER);
    for text in [SERVER, "/ip4/127.0.0.1/tcp/8000/ws"] {
        match t.dial(address(text)) {
            Err(TransportError::MultiaddrNotSupported(a)) => assert_eq!(a, address(text)),
            Ok(_) => panic!("supported"),
        }
    }
}

#[test]
fn waits_double_until_connected() {
    let mut stream = transport(PEER).listen_on(address(SERVER)).unwrap();
    let unreachable = Error::ConnectionToSignalingServerFailed("refused".to_string());
    let failed = Error::Internal("Stream ended".to_string());
    let other = PeerId::from_text(OTHER).unwrap();
    let local = address(&format!("{}/p2p/{}", SERVER, PEER));
    for _ in 0..2 {
        for wait in [1, 2, 4, 8] {
            let next = stream.on_upgrade(Err(&unreachable));
            assert_eq!(next.wait_for, Some(wait));
            assert_eq!(next.remote_addr, address(SERVER));
            assert_eq!(next.local_addr, local);
            assert_eq!(stream.on_upgrade(Err(&failed)).wait_for, None);
        }
        let next = stream.on_upgrade(Ok(&other));
        assert_eq!(next.wait_for, None);
        assert_eq!(next.remote_addr, address(&format!("{}/p2p/{}", SERVER, OTHER)));
        assert_eq!(next.local_addr, local);
    }
}

#[test]
fn waits_have_a_limit() {
    let mut stream = transport(PEER).listen_on(address(SERVER)).unwrap();
    let unreachable = Error::ConnectionToSignalingServerFailed("refused".to_string());
    for n in 0..64u32 {
        assert!(!stream.is_exhausted());
        assert_eq!(stream.on_upgrade(Err(&unreachable)).wait_for, Some(2u64.pow(n)));
    }
    assert!(stream.is_exhausted());
    let other = PeerId::from_text(OTHER).unwrap();
    stream.on_upgrade(Ok(&other));
    assert!(!stream.is_exhausted());
}

#[test]
fn server_knows_peers_by_their_uris() {
    let stream = transport(OTHER).listen_on(address(SERVER)).unwrap();
    let uri: Uri = stream.uri().parse().unwrap();
    assert_eq!(client_id(uri.path()), Ok((OTHER.to_string(), None)));
    assert_eq!(
        peer_client_id(uri.path()),
        Ok((PeerId::from_text(OTHER).unwrap(), None))
    );
    let mut t = transport(PEER);
    let dial = t
        .dial(address(&format!("{}/p2p/{}", SERVER, OTHER)))
        .unwrap();
    let uri: Uri = dial.signaling_uri.parse().unwrap();
    assert_eq!(client_id(uri.path()), Ok((PEER.to_string(), Some(0))));
    assert_eq!(
        peer_client_id(uri.path()),
        Ok((PeerId::from_text(PEER).unwrap(), Some(0)))
    );
}

fn relayed(
    clients: &ClientsMap<PeerId, u8>,
    sender: &(PeerId, Option<usize>),
    message: &SignalingMessage<PeerId, &'static str>,
) -> u8 {
    let copy = Some(SignalingMessage {
        intent_id: message.intent_id.duplicate(),
        callee: message.callee.clone(),
        signal: message.signal,
    });
    match relay(clients, sender, Some(Ok(Message::Binary(vec![1]))), &copy) {
        Relay::Forward { remote, .. } => *remote,
        _ => panic!("not passed on"),
    }
}

#[test]
fn ten_dialers_meet_one_listener() {
    let mut clients: ClientsMap<PeerId, u8> = ClientsMap::new();
    let own = PeerId::from_text(OTHER).unwrap();
    let stream = transport(OTHER).listen_on(address(SERVER)).unwrap();
    let uri: Uri = stream.uri().parse().unwrap();
    let listening = peer_client_id(uri.path()).unwrap();
    clients.insert((listening.0.clone(), listening.1), 100);
    let mut negotiations = Negotiations::new(own);

    // All offers come in before the first answer goes out.
    let mut dials = Vec::new();
    for n in 0..10u8 {
        let peer = libp2p::PeerId::random().to_string();
        let dial = transport(&peer)
            .dial(address(&format!("{}/p2p/{}", SERVER, OTHER)))
            .unwrap();
        let uri: Uri = dial.signaling_uri.parse().unwrap();
        let dialing = peer_client_id(uri.path()).unwrap();
        clients.insert((dialing.0.clone(), dialing.1), n);
        let event: Event<u8, &str> = Event::Signal(Some("offer"));
        let offer = match dial.dialer.step(event) {
            Action::Send(m) => m,
            _ => panic!("nothing sent"),
        };
        assert_eq!(relayed(&clients, &dialing, &offer), 100);
        let happening: Happening<u8, &str> = Happening::Decoded(Ok(offer));
        match negotiations.step(happening) {
            Response::Open(intent, "offer") => assert_eq!(intent, dial.dialer.identifier),
            _ => panic!("not begun"),
        }
        dials.push(dial);
    }
    for (n, dial) in dials.iter().enumerate() {
        let intent = dial.dialer.identifier.duplicate();
        let happening: Happening<u8, &str> = Happening::Signal(intent, Some("answer"));
        let answer = match negotiations.step(happening) {
            Response::Send(m) => m,
            _ => panic!("nothing sent"),
        };
        assert_eq!(relayed(&clients, &listening, &answer), n as u8);
        let event: Event<u8, &str> = Event::Decoded(Ok(answer));
        assert!(matches!(dial.dialer.step(event), Action::Deliver("answer")));
    }
    for (n, dial) in dials.iter().enumerate() {
        let intent = dial.dialer.identifier.duplicate();
        let happening: Happening<u8, &str> = Happening::Connection(intent, Some(Ok(n as u8)));
        match negotiations.step(happening) {
            Response::Finish { caller, connection, .. } => {
                assert_eq!(caller, dial.dialer.identifier.caller);
                assert_eq!(connection, n as u8);
            }
            _ => panic!("not finished"),
        }
    }
}

fn listening() -> Listening {
    let stream = transport(OTHER).listen_on(address(SERVER)).unwrap();
    Listening::new(stream, PeerId::from_text(OTHER).unwrap())
}

fn offer(counter: usize) -> Occurrence<u8, u8> {
    Occurrence::Happened(Happening::Decoded(Ok(SignalingMessage {
        intent_id: request(counter),
        callee: PeerId::from_text(OTHER).unwrap(),
        signal: 1,
    })))
}

fn request(counter: usize) -> SignalingId<PeerId> {
    SignalingId { caller: PeerId::from_text(PEER).unwrap(), counter }
}

#[test]
fn listening_goes_on() {
    let mut l = listening();
    let uri = format!("ws://127.0.0.1:8000/{}", OTHER);
    for round in 0..3u32 {
        assert!(!l.is_connected());
        assert!(!l.is_exhausted());
        assert_eq!(l.uri(), uri);
        let unreachable: Occurrence<u8, u8> =
            Occurrence::Happened(Happening::Unreachable("refused".to_string()));
        match l.step(unreachable) {
            Order::Report { ended: None, outcome: Err(e), upgrade } => {
                assert_eq!(e, Error::ConnectionToSignalingServerFailed("refused".to_string()));
                assert_eq!(upgrade.wait_for, Some(2u64.pow(round)));
                assert_eq!(upgrade.remote_addr, address(SERVER));
            }
            _ => panic!("not reported"),
        }
        assert!(!l.is_connected());
        let reached: Occurrence<u8, u8> = Occurrence::Reached;
        match l.step(reached) {
            Order::Announce(a) => {
                assert_eq!(round, 0);
                assert_eq!(a, address(&format!("{}/p2p/{}", SERVER, OTHER)));
            }
            Order::Ignore => assert!(round > 0),
            _ => panic!("not announced"),
        }
        assert!(l.is_connected());
        assert!(matches!(l.step(offer(0)), Order::Open(id, 1) if id == request(0)));
        let lost: Occurrence<u8, u8> = Occurrence::Happened(Happening::Lost("reset".to_string()));
        match l.step(lost) {
            Order::Report { ended: None, outcome: Err(e), upgrade } => {
                assert_eq!(e, Error::Internal("reset".to_string()));
                assert_eq!(upgrade.wait_for, None);
            }
            _ => panic!("not reported"),
        }
    }
}

#[test]
fn listening_serves_requests() {
    let mut l = listening();
    let reached: Occurrence<u8, u8> = Occurrence::Reached;
    l.step(reached);
    for counter in [0, 1, 2] {
        assert!(matches!(l.step(offer(counter)), Order::Open(id, 1) if id == request(counter)));
    }
    assert!(matches!(l.step(offer(1)), Order::Deliver(id, 1) if id == request(1)));
    let signal: Occurrence<u8, u8> = Occurrence::Happened(Happening::Signal(request(0), Some(7)));
    match l.step(signal) {
        Order::Send(m) => {
            assert_eq!(m.intent_id, request(0));
            assert_eq!(m.callee.to_text(), OTHER);
            assert_eq!(m.signal, 7);
        }
        _ => panic!("nothing sent"),
    }
    let failed: Occurrence<u8, u8> = Occurrence::Happened(Happening::Signal(request(1), None));
    match l.step(failed) {
        Order::Report { ended: Some(id), outcome: Err(e), upgrade } => {
            assert_eq!(id, request(1));
            assert_eq!(e, Error::Internal("Stream ended".to_string()));
            assert_eq!(upgrade.remote_addr, address(SERVER));
        }
        _ => panic!("not reported"),
    }
    for counter in [2, 0] {
        let connected: Occurrence<u8, u8> =
            Occurrence::Happened(Happening::Connection(request(counter), Some(Ok(9))));
        match l.step(connected) {
            Order::Report { ended: Some(id), outcome: Ok(9), upgrade } => {
                assert_eq!(id, request(counter));
                assert_eq!(upgrade.remote_addr, address(&format!("{}/p2p/{}", SERVER, PEER)));
                assert_eq!(upgrade.local_addr, address(&format!("{}/p2p/{}", SERVER, OTHER)));
                assert_eq!(upgrade.wait_for, None);
            }
            _ => panic!("not reported"),
        }
    }
    assert!(l.is_connected());
    let late: Occurrence<u8, u8> = Occurrence::Happened(Happening::Connection(request(0), None));
    assert!(matches!(l.step(late), Order::Ignore));
    let garbage: Occurrence<u8, u8> =
        Occurrence::Happened(Happening::Decoded(Err("garbage".to_string())));
    assert!(matches!(l.step(garbage), Order::Malformed(r) if r == "garbage"));
}
