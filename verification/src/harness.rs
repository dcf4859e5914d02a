//! What an integration run waits for in the output of the programs that it
//! starts.
use vstd::prelude::*;

use crate::peer::{peer_id_text, PeerId};
use crate::text::{begins_with, text_begins_with};

verus! {

/// What a line of output says to one who waits for a line that begins in some
/// way.
#[derive(Debug, PartialEq, Eq)]
pub enum Scan {
    /// Not this line.
    More,
    /// This line.
    Found(String),
    /// There are no more lines.
    Ended,
}

/// Looks at the next line of output.
pub fn scan_line(line: Option<String>, prefix: &str) -> (scan: Scan)
    ensures
        match line {
            None => scan is Ended,
            Some(text) => if begins_with(text@, prefix@) {
                scan matches Scan::Found(found) && found == text
            } else {
                scan is More
            },
        },
{
    match line {
        None => Scan::Ended,
        Some(text) => if text_begins_with(text.as_str(), prefix) {
            Scan::Found(text)
        } else {
            Scan::More
        },
    }
}

/// Looks for the line with which the signaling server says that it listens.
pub fn scan_for_server(line: Option<String>) -> (scan: Scan)
    ensures
        match line {
            None => scan is Ended,
            Some(text) => if begins_with(text@, "Listening on"@) {
                scan matches Scan::Found(found) && found == text
            } else {
                scan is More
            },
        },
{
    scan_line(line, "Listening on")
}

/// Looks for the line with which a peer says who it is.
pub fn scan_for_peer(line: Option<String>) -> (scan: Scan)
    ensures
        match line {
            None => scan is Ended,
            Some(text) => if begins_with(text@, "/p2p/"@) {
                scan matches Scan::Found(found) && found == text
            } else {
                scan is More
            },
        },
{
    scan_line(line, "/p2p/")
}

/// The line with which a peer says who it is.
pub fn peer_line(peer: &PeerId) -> (line: String)
    ensures
        line@ == "/p2p/"@ + peer_id_text(peer@),
{
    let mut line = "/p2p/".to_owned();
    line.append(peer.to_text().as_str());
    line
}

proof fn lemma_begins_with_prefix(prefix: Seq<char>, rest: Seq<char>)
    ensures
        begins_with(prefix + rest, prefix),
{
    assert((prefix + rest).subrange(0, prefix.len() as int) =~= prefix);
}

/// The line with which the server says that it listens is the one that is
/// waited for, whatever the endpoint.
pub proof fn law_server_is_recognised(endpoint: Seq<char>)
    ensures
        begins_with("Listening on "@ + endpoint, "Listening on"@),
{
    reveal_strlit("Listening on ");
    reveal_strlit("Listening on");
    let line = "Listening on "@ + endpoint;
    assert(line.subrange(0, "Listening on"@.len() as int) =~= "Listening on"@);
}

/// The line with which a peer says who it is is the one that is waited for,
/// whoever it is.
pub proof fn law_peer_is_recognised(peer: Seq<u8>)
    ensures
        begins_with("/p2p/"@ + peer_id_text(peer), "/p2p/"@),
{
    lemma_begins_with_prefix("/p2p/"@, peer_id_text(peer));
}

/// A line is the one that is waited for exactly when it begins so, and it is
/// given as it is; there are no more lines exactly when there is none.
pub proof fn law_lines_are_scanned(line: Option<String>, prefix: &str, scan: Scan)
    requires
        call_ensures(scan_line, (line, prefix), scan),
    ensures
        match scan {
            Scan::Ended => line is None,
            Scan::Found(found) => line == Some(found) && exists|rest: Seq<char>|
                found@ == #[trigger] (prefix@ + rest),
            Scan::More => line matches Some(text) && forall|rest: Seq<char>|
                text@ != #[trigger] (prefix@ + rest),
        },
{
    if line is Some {
        lemma_prefix(line->0@, prefix@);
    }
}

proof fn lemma_prefix(text: Seq<char>, prefix: Seq<char>)
    ensures
        begins_with(text, prefix) <==> exists|rest: Seq<char>| text == #[trigger] (prefix + rest),
{
    if begins_with(text, prefix) {
        let rest = text.subrange(prefix.len() as int, text.len() as int);
        assert(text =~= prefix + rest);
    }
    if exists|rest: Seq<char>| text == #[trigger] (prefix + rest) {
        let rest = choose|rest: Seq<char>| text == #[trigger] (prefix + rest);
        lemma_begins_with_prefix(prefix, rest);
    }
}

/// A server is waited for by `Listening on`, and a peer by `/p2p/`.
pub proof fn law_programs_are_waited_for(
    line: Option<String>,
    of_server: Scan,
    of_peer: Scan,
)
    requires
        call_ensures(scan_for_server, (line,), of_server),
        call_ensures(scan_for_peer, (line,), of_peer),
    ensures
        line is None <==> of_server is Ended,
        line is None <==> of_peer is Ended,
        of_server matches Scan::Found(found) ==> line == Some(found),
        of_peer matches Scan::Found(found) ==> line == Some(found),
        line matches Some(text) ==> (of_server is Found <==> exists|rest: Seq<char>|
            text@ == #[trigger] ("Listening on"@ + rest)),
        line matches Some(text) ==> (of_peer is Found <==> exists|rest: Seq<char>|
            text@ == #[trigger] ("/p2p/"@ + rest)),
{
    if line is Some {
        lemma_prefix(line->0@, "Listening on"@);
        lemma_prefix(line->0@, "/p2p/"@);
    }
}

/// A peer says who it is by its text, and is recognised by that.
pub proof fn law_peer_says_who_it_is(peer: PeerId, text: String, line: String, scan: Scan)
    requires
        call_ensures(PeerId::to_text, (&peer,), text),
        call_ensures(peer_line, (&peer,), line),
        call_ensures(scan_for_peer, (Some(line),), scan),
    ensures
        line@ == "/p2p/"@ + text@,
        scan == Scan::Found(line),
{
    law_peer_is_recognised(peer@);
}

} // verus!
