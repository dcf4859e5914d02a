//! Signaling for a WebRTC transport of libp2p: the addresses that peers
//! listen on and dial, the messages that they exchange through a signaling
//! server, and the server's own bookkeeping.
pub mod certificate;
pub mod clients;
pub mod error;
pub mod harness;
pub mod identity;
pub mod listening;
pub mod multiaddr;
pub mod negotiations;
pub mod peer;
pub mod rendezvous;
pub mod serde_str;
pub mod server;
pub mod session;
pub mod signaling;
pub mod text;
pub mod transport;
pub mod ws;
