use libp2p_webrtc::error::Error;
use libp2p_webrtc::negotiations::{Happening, Negotiations, Response};
use libp2p_webrtc::peer::PeerId;
use libp2p_webrtc::session::{Action, Dialer, Event, Listener};
use libp2p_webrtc::signaling::{SignalingId, SignalingMessage};
use libp2p_webrtc::ws::{receive, Message, Payload, WsMessage};

const CALLER: &str = "12D3KooWPjceQrSwdWXPyLLeABRXmuqt69Rg3sBYbU1Nft9HyQ6X";
const CALLEE: &str = "QmcgpsyWgH8Y8ajJz1Cu72KnS5uo2Aa2LpzU7kinSupNKC";

fn peer(text: &str) -> PeerId {
    PeerId::from_text(text).unwrap()
}

fn dialer(counter: usize) -> Dialer {
    Dialer {
        identifier: SignalingId { caller: peer(CALLER), counter },
        callee: peer(CALLEE),
    }
}

fn message(counter: usize, signal: u8) -> SignalingMessage<PeerId, u8> {
    SignalingMessage {
        intent_id: SignalingId { caller: peer(CALLER), counter },
        callee: peer(CALLEE),
        signal,
    }
}

fn internal<D, S>(action: Action<D, S>) -> String {
    match action {
        Action::Fail(Error::Internal(reason)) => reason,
        _ => panic!("no failure"),
    }
}

#[test]
fn dialer_sends_signals() {
    let event: Event<(), u8> = Event::Signal(Some(9));
    match dialer(4).step(event) {
        Action::Send(m) => assert_eq!(m, message(4, 9)),
        _ => panic!("nothing sent"),
    }
}

#[test]
fn dialer_delivers_its_own() {
    let d = dialer(4);
    let event: Event<(), u8> = Event::Decoded(Ok(message(4, 8)));
    assert!(matches!(d.step(event), Action::Deliver(8)));
    let event: Event<(), u8> = Event::Decoded(Ok(message(5, 8)));
    assert!(matches!(d.step(event), Action::Unexpected(id) if id.counter == 5));
    let event: Event<(), u8> = Event::Decoded(Err("garbage".to_string()));
    assert!(matches!(d.step(event), Action::Malformed(r) if r == "garbage"));
}

#[test]
fn dialer_ends() {
    let d = dialer(0);
    let event: Event<&str, u8> = Event::Connection(Some(Ok("stream")));
    assert!(matches!(d.step(event), Action::Finish("stream")));
    let event: Event<&str, u8> = Event::Connection(Some(Err("refused".to_string())));
    assert_eq!(internal(d.step(event)), "refused");
    let event: Event<&str, u8> = Event::Connection(None);
    assert_eq!(internal(d.step(event)), "Stream ended");
    let event: Event<&str, u8> = Event::Signal(None);
    assert_eq!(internal(d.step(event)), "Stream ended");
    let event: Event<&str, u8> = Event::Unreachable("no route".to_string());
    assert_eq!(internal(d.step(event)), "no route");
    let event: Event<&str, u8> = Event::Lost("reset".to_string());
    assert_eq!(internal(d.step(event)), "reset");
}

#[test]
fn listener_keeps_to_the_first_request() {
    let mut l = Listener::new(peer(CALLEE));
    assert!(!l.is_identified());
    let event: Event<(), u8> = Event::Decoded(Err("garbage".to_string()));
    assert!(matches!(l.step(event), Action::Malformed(_)));
    assert!(!l.is_identified());
    let event: Event<(), u8> = Event::Decoded(Ok(message(3, 1)));
    assert!(matches!(l.step(event), Action::Deliver(1)));
    assert!(l.is_identified());
    let event: Event<(), u8> = Event::Decoded(Ok(message(4, 2)));
    assert!(matches!(l.step(event), Action::Unexpected(id) if id.counter == 4));
    let event: Event<(), u8> = Event::Decoded(Ok(message(3, 5)));
    assert!(matches!(l.step(event), Action::Deliver(5)));
    let event: Event<(), u8> = Event::Signal(Some(6));
    match l.step(event) {
        Action::Send(m) => assert_eq!(m, message(3, 6)),
        _ => panic!("nothing sent"),
    }
    let event: Event<&str, u8> = Event::Connection(Some(Ok("stream")));
    match l.step(event) {
        Action::Finish((caller, "stream")) => assert_eq!(caller, peer(CALLER)),
        _ => panic!("not finished"),
    }
}

#[test]
fn listener_ends() {
    let mut l = Listener::new(peer(CALLEE));
    let event: Event<(), u8> = Event::Connection(None);
    assert_eq!(internal(l.step(event)), "Stream ended");
    let event: Event<(), u8> = Event::Connection(Some(Err("refused".to_string())));
    assert_eq!(internal(l.step(event)), "refused");
    let event: Event<(), u8> = Event::Signal(None);
    assert_eq!(internal(l.step(event)), "Stream ended");
    let event: Event<(), u8> = Event::Lost("reset".to_string());
    assert_eq!(internal(l.step(event)), "reset");
    let event: Event<(), u8> = Event::Unreachable("no route".to_string());
    match l.step(event) {
        Action::Fail(e) => {
            assert_eq!(e, Error::ConnectionToSignalingServerFailed("no route".to_string()))
        }
        _ => panic!("no failure"),
    }
}

#[test]
fn websocket_items() {
    let text = Message::Text("t".to_string());
    assert_eq!(receive(Some(Ok(text)), "x"), Ok(Some(Message::Text("t".to_string()))));
    let binary = Message::Binary(vec![1]);
    assert_eq!(receive(Some(Ok(binary)), "x"), Ok(Some(Message::Binary(vec![1]))));
    assert_eq!(receive(Some(Ok(Message::Close)), "x"), Ok(None));
    assert_eq!(receive(None, "x"), Err(Error::Internal("Stream ended".to_string())));
    let closed = Error::Internal("Connection to signaling server closed (Ok(Ping))".to_string());
    assert_eq!(receive(Some(Ok(Message::Ping(vec![]))), "Ok(Ping)"), Err(closed));
    let closed = Error::Internal("Connection to signaling server closed (Err(e))".to_string());
    assert_eq!(receive(Some(Err("e".to_string())), "Err(e)"), Err(closed));
    assert!(receive(Some(Ok(Message::Pong(vec![]))), "x").is_err());
}

#[test]
fn payloads_of_messages() {
    assert!(matches!(
        Message::Text("t".to_string()).payload(),
        Some(Payload::Text("t"))
    ));
    assert!(matches!(
        Message::Binary(vec![1, 2]).payload(),
        Some(Payload::Bytes([1, 2]))
    ));
    assert!(Message::Ping(vec![1]).payload().is_none());
    assert!(Message::Pong(vec![1]).payload().is_none());
    assert!(Message::Close.payload().is_none());
}

#[test]
fn browser_messages() {
    let text = WsMessage::Text("t".to_string());
    assert_eq!(Message::from_browser(text), Message::Text("t".to_string()));
    let binary = WsMessage::Binary(vec![3]);
    assert_eq!(Message::from_browser(binary), Message::Binary(vec![3]));
    assert_eq!(
        Message::Text("t".to_string()).into_browser(),
        Some(WsMessage::Text("t".to_string()))
    );
    assert_eq!(
        Message::Binary(vec![3]).into_browser(),
        Some(WsMessage::Binary(vec![3]))
    );
    assert_eq!(Message::Ping(vec![3]).into_browser(), None);
    assert_eq!(Message::Pong(vec![3]).into_browser(), None);
    assert_eq!(Message::Close.into_browser(), None);
}

#[test]
fn errors_say_what_went_wrong() {
    assert_eq!(
        Error::ConnectionToSignalingServerFailed("refused".to_string()).message(),
        "Connection to signaling server failed: refused"
    );
    assert_eq!(Error::Internal("Stream ended".to_string()).message(), "Stream ended");
}

type Happened = Happening<&'static str, u8>;

fn id(counter: usize) -> SignalingId<PeerId> {
    SignalingId { caller: peer(CALLER), counter }
}

#[test]
fn requests_are_negotiated_side_by_side() {
    let mut n = Negotiations::new(peer(CALLEE));
    for counter in [3, 7] {
        let happened: Happened = Happening::Decoded(Ok(message(counter, 1)));
        assert!(matches!(n.step(happened), Response::Open(i, 1) if i == id(counter)));
    }
    let happened: Happened = Happening::Decoded(Err("garbage".to_string()));
    assert!(matches!(n.step(happened), Response::Malformed(r) if r == "garbage"));
    let happened: Happened = Happening::Decoded(Ok(message(3, 2)));
    assert!(matches!(n.step(happened), Response::Deliver(i, 2) if i == id(3)));
    let happened: Happened = Happening::Signal(id(7), Some(4));
    assert!(matches!(n.step(happened), Response::Send(m) if m == message(7, 4)));

    let happened: Happened = Happening::Connection(id(3), Some(Ok("stream")));
    match n.step(happened) {
        Response::Finish { intent, caller, connection } => {
            assert_eq!(intent, id(3));
            assert_eq!(caller, peer(CALLER));
            assert_eq!(connection, "stream");
        }
        _ => panic!("not finished"),
    }
    let happened: Happened = Happening::Signal(id(3), Some(4));
    assert!(matches!(n.step(happened), Response::Ignore));
    let happened: Happened = Happening::Connection(id(3), None);
    assert!(matches!(n.step(happened), Response::Ignore));
    let happened: Happened = Happening::Decoded(Ok(message(7, 5)));
    assert!(matches!(n.step(happened), Response::Deliver(i, 5) if i == id(7)));
    let happened: Happened = Happening::Decoded(Ok(message(3, 6)));
    assert!(matches!(n.step(happened), Response::Open(i, 6) if i == id(3)));
}

#[test]
fn negotiations_fail_one_by_one() {
    let stream_ended = Error::Internal("Stream ended".to_string());
    let ends: [(fn() -> Happened, Error); 3] = [
        (|| Happening::Connection(id(0), None), stream_ended),
        (
            || Happening::Connection(id(0), Some(Err("refused".to_string()))),
            Error::Internal("refused".to_string()),
        ),
        (
            || Happening::Signal(id(0), None),
            Error::Internal("Stream ended".to_string()),
        ),
    ];
    for (end, error) in ends {
        let mut n = Negotiations::new(peer(CALLEE));
        for counter in [0, 1] {
            let happened: Happened = Happening::Decoded(Ok(message(counter, 1)));
            n.step(happened);
        }
        assert!(matches!(n.step(end()), Response::Fail(i, e) if i == id(0) && e == error));
        assert!(matches!(n.step(end()), Response::Ignore));
        let happened: Happened = Happening::Decoded(Ok(message(1, 5)));
        assert!(matches!(n.step(happened), Response::Deliver(_, 5)));
    }
}

#[test]
fn negotiations_end_with_the_server() {
    let losses: [(fn() -> Happened, Error); 2] = [
        (
            || Happening::Unreachable("no route".to_string()),
            Error::ConnectionToSignalingServerFailed("no route".to_string()),
        ),
        (
            || Happening::Lost("reset".to_string()),
            Error::Internal("reset".to_string()),
        ),
    ];
    for (loss, error) in losses {
        let mut n = Negotiations::new(peer(CALLEE));
        let happened: Happened = Happening::Decoded(Ok(message(0, 1)));
        n.step(happened);
        assert!(matches!(n.step(loss()), Response::Reconnect(e) if e == error));
        let happened: Happened = Happening::Signal(id(0), Some(4));
        assert!(matches!(n.step(happened), Response::Ignore));
        let happened: Happened = Happening::Decoded(Ok(message(0, 1)));
        assert!(matches!(n.step(happened), Response::Open(_, 1)));
    }
}
