# libp2p-webrtc

Signaling for a WebRTC transport of libp2p, verified with Verus.

Two peers that want a WebRTC connection first have to tell each other how they
can be reached. Both connect to the same signaling server: a peer that calls
`listen_on` waits there for offers, and a peer that calls `dial` sends one to the
peer that the address names:

    /ip4/127.0.0.1/tcp/8001/ws/p2p-webrtc-star/p2p/<peer>

## Layout

- `src/` is the library. Its contracts and laws are proved.
  - `multiaddr`, `peer`, `text`, `serde_str`: addresses, peer ids and their texts
  - `transport`, `session`, `negotiations`, `listening`, `ws`, `error`: what a
    peer does that listens or dials
  - `signaling`, `clients`, `server`, `identity`: what the signaling server does
  - `certificate`: how the server gets a certificate
  - `harness`: what an integration run waits for
  - `rendezvous`: that two peers meet at the server, and what they send arrives
- `tests/` runs the library on concrete values.
- `app/` holds the programs: `signal` and `signaling-server` are signaling
  servers, `interop` is a peer that listens, `integration` runs them against
  browsers. They do the network and file access, and leave the decisions to the
  library.

## What is not proved

The library calls `libp2p` for the encodings of peer ids and addresses. What it
relies on is written above each of these calls, in `src/peer.rs` and
`src/multiaddr.rs`.

The WebRTC connection itself is made by `async-datachannel`, which needs
`gcc g++ libssl-dev make cmake clang` to build.
