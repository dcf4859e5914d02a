//! Peer identities.
use std::str::FromStr;
use vstd::prelude::*;

use crate::identity::Identity;

verus! {

/// What `libp2p::PeerId::from_bytes` makes of `bytes`, given back in the bytes
/// of `libp2p::PeerId::to_bytes`; `None` where it fails.
pub uninterp spec fn peer_id_of_bytes(bytes: Seq<u8>) -> Option<Seq<u8>>;

/// What `<libp2p::PeerId as FromStr>::from_str` makes of `text`, given back in
/// the bytes of `libp2p::PeerId::to_bytes`; where it fails, the text of its
/// error.
pub uninterp spec fn peer_id_of_text(text: Seq<char>) -> Result<Seq<u8>, Seq<char>>;

/// How `libp2p::PeerId` displays the peer id with these bytes.
pub uninterp spec fn peer_id_text(bytes: Seq<u8>) -> Seq<char>;

/// `bytes` are the bytes of a peer id, in the one form in which peer ids are
/// written.
pub open spec fn valid_peer_bytes(bytes: Seq<u8>) -> bool {
    peer_id_of_bytes(bytes) == Some(bytes)
}

/// `text` is read as the peer id with these bytes.
pub open spec fn text_names(text: Seq<char>, bytes: Seq<u8>) -> bool {
    peer_id_of_text(text) matches Ok(id) && id == bytes
}

/// `text` is how the peer id with these bytes is displayed. It is a single
/// segment of a path, and it is read as that peer id.
pub open spec fn displayed(bytes: Seq<u8>, text: Seq<char>) -> bool {
    text == peer_id_text(bytes) && !text.contains('/') && text_names(text, bytes)
}

/// Calls `libp2p::PeerId::from_bytes`, which reads a multihash and accepts it
/// if it may name a peer. Claimed: the outcome depends on the bytes alone, and
/// the bytes that the accepted peer id is written in are accepted as that same
/// peer id.
#[verifier::external_body]
fn decode_peer_id(bytes: &[u8]) -> (decoded: Option<Vec<u8>>)
    ensures
        match decoded {
            Some(id) => peer_id_of_bytes(bytes@) == Some(id@) && valid_peer_bytes(id@),
            None => peer_id_of_bytes(bytes@) is None,
        },
{
    libp2p::PeerId::from_bytes(bytes).ok().map(|id| id.to_bytes())
}

/// Calls `<libp2p::PeerId as FromStr>::from_str`, which reads base 58 and then
/// a peer id from the bytes. Claimed: the outcome, the text of the error
/// included, depends on the text alone, and what is accepted is a peer id.
#[verifier::external_body]
fn parse_peer_id(text: &str) -> (parsed: Result<Vec<u8>, String>)
    ensures
        match parsed {
            Ok(id) => text_names(text@, id@) && valid_peer_bytes(id@),
            Err(reason) => peer_id_of_text(text@) matches Err(e) && e == reason@,
        },
{
    libp2p::PeerId::from_str(text).map(|id| id.to_bytes()).map_err(|e| e.to_string())
}

/// Calls the `Display` of `libp2p::PeerId`, which is base 58. Claimed: the text
/// depends on the bytes alone, it has no `/`, and it is read back as the same
/// peer id.
#[verifier::external_body]
fn display_peer_id(bytes: &[u8]) -> (text: String)
    requires
        valid_peer_bytes(bytes@),
    ensures
        text@ == peer_id_text(bytes@),
        !text@.contains('/'),
        text_names(text@, bytes@),
{
    libp2p::PeerId::from_bytes(bytes).unwrap().to_string()
}

/// The identity of a peer of the network, viewed as its bytes.
#[derive(Debug, PartialEq, Eq, Hash)]
pub struct PeerId {
    bytes: Vec<u8>,
}

impl View for PeerId {
    type V = Seq<u8>;

    closed spec fn view(&self) -> Seq<u8> {
        self.bytes@
    }
}

impl PeerId {
    #[verifier::type_invariant]
    pub open spec fn well_formed(self) -> bool {
        valid_peer_bytes(self@)
    }

    /// Reads a peer id from its bytes.
    pub fn from_bytes(bytes: &[u8]) -> (id: Option<PeerId>)
        ensures
            id is Some <==> peer_id_of_bytes(bytes@) is Some,
            id matches Some(p) ==> peer_id_of_bytes(bytes@) == Some(p@) && p.well_formed(),
    {
        match decode_peer_id(bytes) {
            Some(bytes) => Some(PeerId { bytes }),
            None => None,
        }
    }

    /// Reads a peer id from its text; where that fails, the error says why.
    pub fn from_text(text: &str) -> (id: Result<PeerId, String>)
        ensures
            match id {
                Ok(p) => text_names(text@, p@) && p.well_formed(),
                Err(reason) => peer_id_of_text(text@) matches Err(e) && e == reason@,
            },
    {
        match parse_peer_id(text) {
            Ok(bytes) => Ok(PeerId { bytes }),
            Err(reason) => Err(reason),
        }
    }

    /// The text of a peer id.
    pub fn to_text(&self) -> (text: String)
        ensures
            displayed(self@, text@),
            self.well_formed(),
    {
        proof {
            use_type_invariant(self);
        }
        display_peer_id(self.bytes.as_slice())
    }

    /// The bytes of a peer id.
    pub fn to_bytes(&self) -> (bytes: Vec<u8>)
        ensures
            bytes@ == self@,
            valid_peer_bytes(bytes@),
    {
        proof {
            use_type_invariant(self);
        }
        let bytes = self.bytes.clone();
        assert(bytes@ =~= self.bytes@);
        bytes
    }
}

impl Clone for PeerId {
    fn clone(&self) -> (copy: PeerId)
        ensures
            copy@ == self@,
    {
        PeerId { bytes: self.to_bytes() }
    }
}

impl Identity for PeerId {
    fn same(&self, other: &PeerId) -> (same: bool) {
        if self.bytes.len() != other.bytes.len() {
            return false;
        }
        let mut i: usize = 0;
        while i < self.bytes.len()
            invariant
                i <= self.bytes.len() == other.bytes.len(),
                forall|k: int| 0 <= k < i ==> #[trigger] self@[k] == other@[k],
            decreases self.bytes.len() - i,
        {
            if self.bytes[i] != other.bytes[i] {
                assert(self@[i as int] != other@[i as int]);
                return false;
            }
            i = i + 1;
        }
        assert(self@ =~= other@);
        true
    }

    fn duplicate(&self) -> (copy: PeerId) {
        self.clone()
    }
}

/// A peer id is kept: its bytes and its text are read back as the same, a copy is
/// the same, and two are the same exactly when their bytes are.
pub proof fn law_peer_id_is_kept(
    peer: PeerId,
    other: PeerId,
    bytes: Vec<u8>,
    given: &[u8],
    of_bytes: Option<PeerId>,
    text: String,
    shown: &str,
    of_text: Result<PeerId, String>,
    copy: PeerId,
    same: bool,
)
    requires
        call_ensures(PeerId::to_bytes, (&peer,), bytes),
        given@ == bytes@,
        call_ensures(PeerId::from_bytes, (given,), of_bytes),
        call_ensures(PeerId::to_text, (&peer,), text),
        shown@ == text@,
        call_ensures(PeerId::from_text, (shown,), of_text),
        call_ensures(<PeerId as Clone>::clone, (&peer,), copy),
        call_ensures(<PeerId as Identity>::same, (&peer, &other), same),
    ensures
        of_bytes matches Some(p) && p@ == peer@,
        of_text matches Ok(p) && p@ == peer@,
        copy@ == peer@,
        bytes@ == peer@,
        same <==> other@ == peer@,
        forall|i: int| 0 <= i < text@.len() ==> #[trigger] text@[i] != '/',
{
    assert forall|i: int| 0 <= i < text@.len() implies #[trigger] text@[i] != '/' by {
        if text@[i] == '/' {
            assert(text@.contains('/'));
        }
    }
}

} // verus!
