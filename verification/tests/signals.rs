use libp2p_webrtc::peer::PeerId;
use libp2p_webrtc::signaling::{
    client_id, peer_client_id, route, HandshakeError, SignalingId, SignalingMessage,
};

const PEER: &str = "12D3KooWPjceQrSwdWXPyLLeABRXmuqt69Rg3sBYbU1Nft9HyQ6X";
const OTHER: &str = "QmcgpsyWgH8Y8ajJz1Cu72KnS5uo2Aa2LpzU7kinSupNKC";

fn message(caller: &str, counter: usize, callee: &str) -> SignalingMessage<String, u8> {
    SignalingMessage {
        intent_id: SignalingId { caller: caller.to_string(), counter },
        callee: callee.to_string(),
        signal: 7,
    }
}

#[test]
fn offers_go_to_the_callee() {
    let to = route(&"a".to_string(), &message("a", 3, "b"));
    assert_eq!(to, ("b".to_string(), None));
    let to = route(&"c".to_string(), &message("a", 3, "b"));
    assert_eq!(to, ("b".to_string(), None));
}

#[test]
fn answers_go_to_the_request() {
    let to = route(&"b".to_string(), &message("a", 3, "b"));
    assert_eq!(to, ("a".to_string(), Some(3)));
}

#[test]
fn own_offers_come_back() {
    let to = route(&"a".to_string(), &message("a", 3, "a"));
    assert_eq!(to, ("a".to_string(), Some(3)));
}

#[test]
fn peer_ids_are_routed_as_their_texts() {
    let ids = [PEER, OTHER];
    for sender in ids {
        for caller in ids {
            for callee in ids {
                let by_text = route(&sender.to_string(), &message(caller, 5, callee));
                let by_peer = route(
                    &PeerId::from_text(sender).unwrap(),
                    &SignalingMessage {
                        intent_id: SignalingId {
                            caller: PeerId::from_text(caller).unwrap(),
                            counter: 5,
                        },
                        callee: PeerId::from_text(callee).unwrap(),
                        signal: 0u8,
                    },
                );
                assert_eq!(by_text, (by_peer.0.to_text(), by_peer.1));
            }
        }
    }
}

#[test]
fn identifiers_are_compared() {
    let id = SignalingId { caller: "a".to_string(), counter: 1 };
    assert!(id.same(&id.duplicate()));
    assert_eq!(id.clone(), id);
    assert!(!id.same(&SignalingId { caller: "a".to_string(), counter: 2 }));
    assert!(!id.same(&SignalingId { caller: "b".to_string(), counter: 1 }));
}

#[test]
fn clients_are_named_in_the_path() {
    assert_eq!(client_id("/a"), Ok(("a".to_string(), None)));
    assert_eq!(client_id("/a/"), Ok(("a".to_string(), None)));
    assert_eq!(client_id("/a/12"), Ok(("a".to_string(), Some(12))));
    assert_eq!(client_id("/a/+12"), Ok(("a".to_string(), Some(12))));
    assert_eq!(client_id("/a/12/13"), Ok(("a".to_string(), Some(12))));
    assert_eq!(client_id("/a/x"), Ok(("a".to_string(), None)));
    assert_eq!(client_id("x/a/1"), Ok(("a".to_string(), Some(1))));
    assert_eq!(client_id("/"), Ok(("".to_string(), None)));
    assert_eq!(client_id("//5"), Ok(("".to_string(), Some(5))));
}

#[test]
fn paths_without_a_client() {
    assert_eq!(client_id(""), Err(HandshakeError::MissingClientId));
    assert_eq!(client_id("a"), Err(HandshakeError::MissingClientId));
    assert_eq!(peer_client_id("a"), Err(HandshakeError::MissingClientId));
    assert_eq!(client_id("a").unwrap_err().refusal(""), "Missing client id");
}

#[test]
fn peers_are_named_in_the_path() {
    let (peer, counter) = peer_client_id(&format!("/{}/4", PEER)).unwrap();
    assert_eq!(peer.to_text(), PEER);
    assert_eq!(counter, Some(4));
    let (peer, counter) = peer_client_id(&format!("/{}", OTHER)).unwrap();
    assert_eq!(peer.to_text(), OTHER);
    assert_eq!(counter, None);
}

#[test]
fn names_that_are_no_peer_are_turned_away() {
    let error = peer_client_id("/0/1").unwrap_err();
    assert_eq!(
        error,
        HandshakeError::NotAPeerId {
            token: "0".to_string(),
            reason: "base-58 decode error: provided string contained invalid character '0' at \
                     byte 0"
                .to_string(),
        }
    );
    assert_eq!(
        error.refusal("\"0\""),
        "\"\"0\"\" is not a valid PeerId (base-58 decode error: provided string contained invalid \
         character '0' at byte 0)"
    );
}
