use libp2p_webrtc::multiaddr::{extract_uri, signaling_uri, Multiaddr, Protocol, UriError};
use libp2p_webrtc::peer::PeerId;

const PEER: &str = "12D3KooWPjceQrSwdWXPyLLeABRXmuqt69Rg3sBYbU1Nft9HyQ6X";
const OTHER: &str = "QmcgpsyWgH8Y8ajJz1Cu72KnS5uo2Aa2LpzU7kinSupNKC";

fn address(text: &str) -> Multiaddr {
    let addr: libp2p::Multiaddr = text.parse().unwrap();
    Multiaddr::from_bytes(addr.to_vec()).unwrap()
}

fn found(text: &str) -> Result<(String, Option<String>), UriError> {
    match extract_uri(&address(text)) {
        Ok((uri, peer)) => Ok((uri, peer.map(|p| p.to_text()))),
        Err(e) => Err(e),
    }
}

#[test]
fn address_without_peer() {
    assert_eq!(
        found("/ip4/127.0.0.1/tcp/8001/ws/p2p-webrtc-star"),
        Ok(("ws://127.0.0.1:8001".to_string(), None))
    );
}

#[test]
fn address_with_peer() {
    let text = format!("/ip4/127.0.0.1/tcp/8000/ws/p2p-webrtc-star/p2p/{}", PEER);
    assert_eq!(
        found(&text),
        Ok(("ws://127.0.0.1:8000".to_string(), Some(PEER.to_string())))
    );
}

#[test]
fn address_with_tls() {
    assert_eq!(
        found("/dns4/star.example.org/tcp/443/wss/p2p-webrtc-star"),
        Ok(("wss://star.example.org:443".to_string(), None))
    );
    assert_eq!(
        found("/dns6/star.example.org/tcp/0/wss/p2p-webrtc-star"),
        Ok(("wss://star.example.org:0".to_string(), None))
    );
}

#[test]
fn address_with_ipv6() {
    assert_eq!(
        found("/ip6/2001:db8:0:0:0:0:0:1/tcp/65535/ws/p2p-webrtc-star"),
        Ok(("ws://2001:db8::1:65535".to_string(), None))
    );
}

#[test]
fn octets_are_written_in_full() {
    assert_eq!(
        found("/ip4/255.0.10.9/tcp/80/ws/p2p-webrtc-star"),
        Ok(("ws://255.0.10.9:80".to_string(), None))
    );
}

#[test]
fn order_of_components_is_free() {
    let text = format!("/p2p-webrtc-star/p2p/{}/ws/tcp/9/udp/7/ip4/1.2.3.4", OTHER);
    assert_eq!(
        found(&text),
        Ok(("ws://1.2.3.4:9".to_string(), Some(OTHER.to_string())))
    );
}

#[test]
fn path_of_a_websocket_is_passed_over() {
    assert_eq!(
        found("/ip4/1.2.3.4/tcp/9/x-parity-ws/%2Fchat/p2p-webrtc-star"),
        Ok(("ws://1.2.3.4:9".to_string(), None))
    );
}

#[test]
fn other_transports_are_refused() {
    assert_eq!(found("/ip4/127.0.0.1/tcp/8000/ws"), Err(UriError::NotWebRtcStar));
    assert_eq!(
        found("/ip4/127.0.0.1/tcp/8000/ws/p2p-webrtc-direct"),
        Err(UriError::NotWebRtcStar)
    );
    assert_eq!(
        found("/ip4/127.0.0.1/ip4/127.0.0.1"),
        Err(UriError::NotWebRtcStar)
    );
}

#[test]
fn repeated_parts_are_refused() {
    for text in [
        "/ip4/127.0.0.1/dns4/localhost/tcp/1/ws/p2p-webrtc-star".to_string(),
        "/ip4/127.0.0.1/tcp/1/tcp/1/ws/p2p-webrtc-star".to_string(),
        "/ip4/127.0.0.1/tcp/1/ws/wss/p2p-webrtc-star".to_string(),
        format!("/ip4/1.2.3.4/tcp/1/ws/p2p-webrtc-star/p2p/{}/p2p/{}", PEER, PEER),
    ] {
        assert_eq!(found(&text), Err(UriError::UnexpectedFormat));
    }
}

#[test]
fn repeated_webrtc_star_is_accepted() {
    assert_eq!(
        found("/p2p-webrtc-star/ip4/1.2.3.4/tcp/9/ws/p2p-webrtc-star"),
        Ok(("ws://1.2.3.4:9".to_string(), None))
    );
}

#[test]
fn missing_parts_are_refused() {
    for text in [
        "/p2p-webrtc-star",
        "/tcp/8000/ws/p2p-webrtc-star",
        "/ip4/127.0.0.1/ws/p2p-webrtc-star",
        "/ip4/127.0.0.1/tcp/8000/p2p-webrtc-star",
        "/dns/localhost/tcp/8000/ws/p2p-webrtc-star",
        "/dnsaddr/localhost/tcp/8000/ws/p2p-webrtc-star",
        "/ip4/127.0.0.1/udp/8000/ws/p2p-webrtc-star",
    ] {
        assert_eq!(found(text), Err(UriError::Incomplete));
    }
}

#[test]
fn hash_that_names_no_peer_is_refused() {
    // A SHA2-512 multihash of two bytes, which is no peer id.
    let protocols = vec![
        Protocol::Ip4([127, 0, 0, 1]),
        Protocol::Tcp(8000),
        Protocol::Ws,
        Protocol::P2pWebRtcStar,
        Protocol::P2p(vec![0x13, 0x02, 0xaa, 0xbb]),
    ];
    assert!(matches!(signaling_uri(&protocols), Err(UriError::InvalidPeerId)));
    let bytes = vec![
        0x04, 127, 0, 0, 1, 0x06, 0x1f, 0x40, 0xdd, 0x03, 0x93, 0x02, 0xa5, 0x03, 0x04, 0x13, 0x02,
        0xaa, 0xbb,
    ];
    let addr = Multiaddr::from_bytes(bytes).unwrap();
    assert!(matches!(extract_uri(&addr), Err(UriError::InvalidPeerId)));
}

#[test]
fn first_fault_is_reported() {
    let bad = vec![0x13, 0x02, 0xaa, 0xbb];
    let protocols = vec![
        Protocol::P2pWebRtcStar,
        Protocol::Ws,
        Protocol::Wss,
        Protocol::P2p(bad.clone()),
    ];
    assert!(matches!(signaling_uri(&protocols), Err(UriError::UnexpectedFormat)));
    let protocols = vec![
        Protocol::P2pWebRtcStar,
        Protocol::Ws,
        Protocol::P2p(bad),
        Protocol::Wss,
    ];
    assert!(matches!(signaling_uri(&protocols), Err(UriError::InvalidPeerId)));
}

#[test]
fn bytes_that_are_no_address() {
    assert!(Multiaddr::from_bytes(vec![0x06, 0x1f]).is_none());
    assert!(Multiaddr::from_bytes(vec![0x7f]).is_none());
    assert_eq!(Multiaddr::from_bytes(vec![]).unwrap().protocols().len(), 0);
}

#[test]
fn components_of_an_address() {
    let protocols = address("/dns6/h/ip6/::1/tcp/5/wss/http").protocols();
    assert!(matches!(&protocols[0], Protocol::Dns6(h) if h == "h"));
    assert!(matches!(&protocols[1], Protocol::Ip6(h) if h == "::1"));
    assert!(matches!(&protocols[2], Protocol::Tcp(5)));
    assert!(matches!(&protocols[3], Protocol::Wss));
    assert!(matches!(&protocols[4], Protocol::Other));
    assert_eq!(protocols.len(), 5);
}

#[test]
fn address_with_peer_appended() {
    for text in [PEER, OTHER] {
        let peer = PeerId::from_text(text).unwrap();
        let addr = address("/ip4/127.0.0.1/tcp/8001/ws/p2p-webrtc-star").with_peer(&peer);
        let wanted = format!("/ip4/127.0.0.1/tcp/8001/ws/p2p-webrtc-star/p2p/{}", text);
        assert_eq!(addr, address(&wanted));
        let bytes = addr.to_bytes();
        let id = peer.to_bytes();
        let mut tail = vec![0xa5, 0x03, id.len() as u8];
        tail.extend_from_slice(&id);
        assert_eq!(bytes[bytes.len() - tail.len()..], tail[..]);
        let again = addr.clone();
        assert_eq!(again, addr);
        let (uri, named) = extract_uri(&addr).unwrap();
        assert_eq!(uri, "ws://127.0.0.1:8001");
        assert_eq!(named, Some(peer));
        let other = PeerId::from_text(PEER).unwrap();
        assert!(matches!(
            extract_uri(&addr.with_peer(&other)),
            Err(UriError::UnexpectedFormat)
        ));
    }
}

fn message(text: &str) -> String {
    let addr = address(text);
    extract_uri(&addr).unwrap_err().message(&addr.to_text())
}

#[test]
fn errors_name_the_address() {
    assert_eq!(
        message("/ip4/127.0.0.1/tcp/8000/ws"),
        "Only p2p-webrtc-star connections are supported."
    );
    assert_eq!(
        message("/ip4/127.0.0.1/tcp/8000/ws/wss/p2p-webrtc-star"),
        "Unexpected format: /ip4/127.0.0.1/tcp/8000/ws/wss/p2p-webrtc-star"
    );
    assert_eq!(
        message("/dns/example.com/tcp/443/wss/p2p-webrtc-star"),
        "Unable to extract signaling uri and peer from \
         /dns/example.com/tcp/443/wss/p2p-webrtc-star"
    );
    assert_eq!(UriError::InvalidPeerId.message("hash"), "hash");
}

#[test]
fn texts_of_addresses() {
    for text in [
        "",
        "/ip4/127.0.0.1/tcp/8001/ws/p2p-webrtc-star",
        "/dns6/h/ip6/::1/tcp/5/wss/http",
        "/ip4/1.2.3.4/tcp/9/x-parity-ws/%2Fchat/p2p-webrtc-star",
    ] {
        assert_eq!(address(text).to_text(), text);
    }
}
