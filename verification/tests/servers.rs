use libp2p_webrtc::certificate::{next_step, CertStep, Outcome};
use libp2p_webrtc::clients::ClientsMap;
use libp2p_webrtc::harness::{peer_line, scan_for_peer, scan_for_server, Scan};
use libp2p_webrtc::peer::PeerId;
use libp2p_webrtc::server::{
    endpoint, listening_line, relay, service_endpoint, tls_options, Registration, Relay,
    TlsOptions,
};
use libp2p_webrtc::signaling::{SignalingId, SignalingMessage};
use libp2p_webrtc::ws::Message;

const PEER: &str = "12D3KooWPjceQrSwdWXPyLLeABRXmuqt69Rg3sBYbU1Nft9HyQ6X";

fn key(name: &str, counter: Option<usize>) -> (String, Option<usize>) {
    (name.to_string(), counter)
}

fn signal(caller: &str, counter: usize, callee: &str) -> Option<SignalingMessage<String, ()>> {
    Some(SignalingMessage {
        intent_id: SignalingId { caller: caller.to_string(), counter },
        callee: callee.to_string(),
        signal: (),
    })
}

#[test]
fn clients_come_and_go() {
    let mut clients: ClientsMap<String, u8> = ClientsMap::new();
    assert_eq!(clients.get(&key("a", None)), None);
    assert_eq!(clients.insert(key("a", None), 1), None);
    assert_eq!(clients.insert(key("a", Some(0)), 2), None);
    assert_eq!(clients.insert(key("b", None), 3), None);
    assert_eq!(clients.insert(key("a", None), 4), Some(1));
    assert_eq!(clients.get(&key("a", None)), Some(&4));
    assert_eq!(clients.get(&key("a", Some(0))), Some(&2));
    assert_eq!(clients.get(&key("a", Some(1))), None);
    assert_eq!(clients.remove(&key("a", None)), Some(4));
    assert_eq!(clients.remove(&key("a", None)), None);
    assert_eq!(clients.get(&key("a", None)), None);
    assert_eq!(clients.get(&key("a", Some(0))), Some(&2));
    assert_eq!(clients.get(&key("b", None)), Some(&3));
}

#[test]
fn accepted_clients_are_registered() {
    let mut clients: ClientsMap<String, u8> = ClientsMap::new();
    clients.insert(key("b", None), 1);
    let refused: Result<Registration<String>, &str> =
        Registration::register(&mut clients, Err("refused"), 2);
    assert!(matches!(refused, Err("refused")));
    assert_eq!(clients.get(&key("a", None)), None);
    let accepted: Result<Registration<String>, &str> =
        Registration::register(&mut clients, Ok(key("a", None)), 3);
    let registration = accepted.unwrap();
    assert_eq!(registration.client(), &key("a", None));
    assert_eq!(clients.get(&key("a", None)), Some(&3));
    registration.end(&mut clients);
    assert_eq!(clients.get(&key("a", None)), None);
    assert_eq!(clients.get(&key("b", None)), Some(&1));
}

#[test]
fn messages_are_passed_on_as_they_came() {
    let mut clients: ClientsMap<String, u8> = ClientsMap::new();
    clients.insert(key("b", None), 1);
    clients.insert(key("a", Some(3)), 2);
    let text = Some(Ok(Message::Text("offer".to_string())));
    match relay(&clients, &key("a", Some(3)), text, &signal("a", 3, "b")) {
        Relay::Forward { to, remote, message } => {
            assert_eq!(to, key("b", None));
            assert_eq!(*remote, 1);
            assert_eq!(message, Message::Text("offer".to_string()));
        }
        _ => panic!("not passed on"),
    }
    let binary = Some(Ok(Message::Binary(vec![1, 2])));
    match relay(&clients, &key("b", None), binary, &signal("a", 3, "b")) {
        Relay::Forward { to, remote, message } => {
            assert_eq!(to, key("a", Some(3)));
            assert_eq!(*remote, 2);
            assert_eq!(message, Message::Binary(vec![1, 2]));
        }
        _ => panic!("not passed on"),
    }
}

#[test]
fn messages_for_unknown_clients() {
    let clients: ClientsMap<String, u8> = ClientsMap::new();
    let text = Some(Ok(Message::Text("offer".to_string())));
    match relay(&clients, &key("a", Some(3)), text, &signal("a", 3, "b")) {
        Relay::Unknown { to } => assert_eq!(to, key("b", None)),
        _ => panic!("known"),
    }
}

#[test]
fn messages_without_a_signal() {
    let mut clients: ClientsMap<String, u8> = ClientsMap::new();
    clients.insert(key("b", None), 1);
    let none: Option<SignalingMessage<String, ()>> = None;
    let from = key("a", None);
    let text = Some(Ok(Message::Text("noise".to_string())));
    assert!(matches!(relay(&clients, &from, text, &none), Relay::Ignore));
    for message in [Message::Ping(vec![]), Message::Pong(vec![]), Message::Close] {
        let given = relay(&clients, &from, Some(Ok(message)), &signal("a", 0, "b"));
        assert!(matches!(given, Relay::Ignore));
    }
}

fn received(items: Vec<(Message, Option<SignalingMessage<String, ()>>)>) -> Vec<(u8, Message)> {
    let mut clients: ClientsMap<String, u8> = ClientsMap::new();
    clients.insert(key("b", None), 1);
    clients.insert(key("c", None), 2);
    let mut received = Vec::new();
    for (message, decoded) in items {
        match relay(&clients, &key("a", Some(0)), Some(Ok(message)), &decoded) {
            Relay::Forward { remote, message, .. } => received.push((*remote, message)),
            Relay::Stop => panic!("stopped"),
            _ => {}
        }
    }
    received
}

#[test]
fn dropped_messages_change_nothing() {
    let text = |t: &str| Message::Text(t.to_string());
    let plain = vec![
        (text("1"), signal("a", 0, "b")),
        (text("2"), signal("a", 0, "c")),
    ];
    let mixed = vec![
        (text("noise"), None),
        (text("1"), signal("a", 0, "b")),
        (Message::Ping(vec![]), None),
        (text("lost"), signal("a", 0, "nobody")),
        (Message::Pong(vec![]), None),
        (text("2"), signal("a", 0, "c")),
        (Message::Close, None),
    ];
    let wanted = vec![(1, text("1")), (2, text("2"))];
    assert_eq!(received(plain), wanted);
    assert_eq!(received(mixed), wanted);
}

#[test]
fn clients_that_are_gone() {
    let clients: ClientsMap<String, u8> = ClientsMap::new();
    let from = key("a", None);
    let gone = relay(&clients, &from, None, &signal("a", 0, "b"));
    assert!(matches!(gone, Relay::Stop));
    let gone = relay(&clients, &from, Some(Err("reset".to_string())), &signal("a", 0, "b"));
    assert!(matches!(gone, Relay::Stop));
}

#[test]
fn endpoints() {
    assert_eq!(endpoint("127.0.0.1", 8000), "127.0.0.1:8000");
    assert_eq!(endpoint("", 0), ":0");
    assert_eq!(service_endpoint(None), "127.0.0.1:8000");
    assert_eq!(service_endpoint(Some("9000".to_string())), "127.0.0.1:9000");
    assert_eq!(service_endpoint(Some("0.0.0.0:1".to_string())), "0.0.0.0:1");
}

#[test]
fn lines_that_are_waited_for() {
    let line = listening_line("127.0.0.1:8001");
    assert_eq!(line, "Listening on 127.0.0.1:8001");
    assert_eq!(scan_for_server(Some(line.clone())), Scan::Found(line));
    assert_eq!(scan_for_server(Some("Compiling".to_string())), Scan::More);
    assert_eq!(scan_for_server(None), Scan::Ended);
    let line = peer_line(&PeerId::from_text(PEER).unwrap());
    assert_eq!(line, format!("/p2p/{}", PEER));
    assert_eq!(scan_for_peer(Some(line.clone())), Scan::Found(line));
    assert_eq!(scan_for_peer(Some("p2p".to_string())), Scan::More);
    assert_eq!(scan_for_peer(None), Scan::Ended);
}

#[test]
fn options_for_tls() {
    let some = |s: &str| Some(s.to_string());
    assert_eq!(tls_options(false, some("c"), None, None, None), Ok(None));
    assert_eq!(
        tls_options(true, some("c"), some("k"), some("e"), some("d")),
        Ok(Some(TlsOptions {
            cert: "c".to_string(),
            private_key: "k".to_string(),
            email: "e".to_string(),
            domain: "d".to_string(),
        }))
    );
    let text = "Please provide `cert,` `private_key`, `domain`, and `email` options".to_string();
    for missing in 0..4 {
        let option = |n: i32| if n == missing { None } else { some("x") };
        assert_eq!(
            tls_options(true, option(0), option(1), option(2), option(3)),
            Err(text.clone())
        );
    }
}

#[test]
fn certificate_is_ordered_in_steps() {
    let mut step = CertStep::Confirm;
    let mut taken = Vec::new();
    let mut asked = 0;
    loop {
        taken.push(step);
        let outcome = if step == CertStep::Confirm {
            asked += 1;
            if asked == 3 {
                Outcome::Confirmed
            } else {
                Outcome::Done
            }
        } else {
            Outcome::Done
        };
        match next_step(step, outcome) {
            Ok(Some(next)) => step = next,
            Ok(None) => break,
            Err(_) => panic!("failed"),
        }
    }
    let round = [
        CertStep::Confirm,
        CertStep::Authorize,
        CertStep::Serve,
        CertStep::Validate,
        CertStep::StopServing,
        CertStep::Refresh,
    ];
    let mut wanted = Vec::new();
    wanted.extend_from_slice(&round);
    wanted.extend_from_slice(&round);
    wanted.extend_from_slice(&[
        CertStep::Confirm,
        CertStep::Finalize,
        CertStep::Download,
        CertStep::StoreCertificate,
        CertStep::StorePrivateKey,
    ]);
    assert_eq!(taken, wanted);
    assert_eq!(
        next_step(CertStep::Validate, Outcome::Failed("timeout".to_string())),
        Err("timeout".to_string())
    );
}
