use libp2p_webrtc::identity::Identity;
use libp2p_webrtc::peer::PeerId;
use libp2p_webrtc::serde_str::{deserialize, serialize};

const PEER: &str = "12D3KooWPjceQrSwdWXPyLLeABRXmuqt69Rg3sBYbU1Nft9HyQ6X";
const OTHER: &str = "QmcgpsyWgH8Y8ajJz1Cu72KnS5uo2Aa2LpzU7kinSupNKC";

#[test]
fn text_is_read_back() {
    for text in [PEER, OTHER] {
        let peer: PeerId = deserialize(text).unwrap();
        assert_eq!(serialize(&peer), text);
        assert_eq!(peer.to_text(), text);
        assert!(!text.contains('/'));
    }
}

#[test]
fn random_peers_are_read_back() {
    for _ in 0..200 {
        let id = libp2p::PeerId::random();
        let peer = PeerId::from_bytes(&id.to_bytes()).unwrap();
        assert_eq!(peer.to_bytes(), id.to_bytes());
        assert_eq!(serialize(&peer), id.to_string());
        assert_eq!(deserialize::<PeerId>(&serialize(&peer)).unwrap(), peer);
    }
}

#[test]
fn bytes_of_a_peer() {
    let peer = PeerId::from_text(OTHER).unwrap();
    let bytes = peer.to_bytes();
    assert_eq!(bytes.len(), 34);
    assert_eq!(bytes[0], 0x12);
    assert_eq!(bytes[1], 0x20);
    assert_eq!(PeerId::from_bytes(&bytes), Some(peer));
}

#[test]
fn bytes_are_kept_in_one_form() {
    let mut bytes = PeerId::from_text(OTHER).unwrap().to_bytes();
    let wanted = bytes.clone();
    // The code 0x12 with bits that are lost, which is read as the code all the same.
    bytes.splice(0..1, [0x92, 0x80, 0x80, 0x80, 0x80, 0x80, 0x80, 0x80, 0x80, 0x02]);
    assert_eq!(PeerId::from_bytes(&bytes).unwrap().to_bytes(), wanted);
}

#[test]
fn bytes_that_are_no_peer() {
    assert!(PeerId::from_bytes(&[]).is_none());
    assert!(PeerId::from_bytes(&[0x12, 0x20, 0x00]).is_none());
    assert!(PeerId::from_bytes(&[0x13, 0x01, 0x00]).is_none());
    assert!(PeerId::from_bytes(&[0x12, 0x01, 0x00, 0x00]).is_none());
}

#[test]
fn texts_that_are_no_peer() {
    assert_eq!(
        deserialize::<PeerId>("0"),
        Err("base-58 decode error: provided string contained invalid character '0' at byte 0"
            .to_string())
    );
    assert_eq!(deserialize::<PeerId>("2"), Err("decoding multihash failed".to_string()));
    assert_eq!(deserialize::<PeerId>(""), Err("decoding multihash failed".to_string()));
}

#[test]
fn names_are_compared() {
    let peer = PeerId::from_text(PEER).unwrap();
    let other = PeerId::from_text(OTHER).unwrap();
    assert!(peer.same(&peer.clone()));
    assert!(peer.same(&peer.duplicate()));
    assert!(!peer.same(&other));
    let name = "a".to_string();
    assert!(name.same(&name.duplicate()));
    assert!(!name.same(&"b".to_string()));
}

#[test]
fn other_texts_are_read_back() {
    for text in ["", "a", "12D3/+\""] {
        let value = text.to_string();
        assert_eq!(serialize(&value), text);
        assert_eq!(deserialize::<String>(&serialize(&value)), Ok(value));
    }
}
