//! Signaling messages, and where the signaling server sends them.
use vstd::prelude::*;

use crate::identity::Identity;
use crate::peer::{peer_id_of_text, text_names, PeerId};
use crate::text::{
    counter_of, lemma_split_between, lemma_split_plain, parse_counter, split, split_text,
};

verus! {

/// Uniquely identifies a signaling request: the peer that initiated it, and a
/// counter.
#[derive(Debug, PartialEq, Eq, Hash)]
pub struct SignalingId<P> {
    pub caller: P,
    pub counter: usize,
}

impl<P: View> View for SignalingId<P> {
    type V = (P::V, usize);

    open spec fn view(&self) -> (P::V, usize) {
        (self.caller@, self.counter)
    }
}

impl<P: Identity> SignalingId<P> {
    /// Whether two identifiers are the same.
    pub fn same(&self, other: &SignalingId<P>) -> (same: bool)
        ensures
            same == (self@ == other@),
    {
        self.counter == other.counter && self.caller.same(&other.caller)
    }

    /// A copy of an identifier.
    pub fn duplicate(&self) -> (copy: SignalingId<P>)
        ensures
            copy@ == self@,
    {
        SignalingId { caller: self.caller.duplicate(), counter: self.counter }
    }
}

impl<P: Identity> Clone for SignalingId<P> {
    fn clone(&self) -> (copy: SignalingId<P>)
        ensures
            copy@ == self@,
    {
        self.duplicate()
    }
}

/// A signal from one of two peers to the other.
#[derive(Debug, PartialEq, Eq)]
pub struct SignalingMessage<P, S> {
    pub intent_id: SignalingId<P>,
    pub callee: P,
    pub signal: S,
}

/// The client to which the signaling server passes a message on. The callee's
/// messages are answers, which go to the connection that the caller opened for
/// this request. All others are offers, which go to the callee.
pub open spec fn destination<V>(sender: V, intent: (V, usize), callee: V) -> (V, Option<usize>) {
    if sender == callee {
        (intent.0, Some(intent.1))
    } else {
        (callee, None)
    }
}

/// The view of what a client is known by.
pub open spec fn client_view<P: View>(client: (P, Option<usize>)) -> (P::V, Option<usize>) {
    (client.0@, client.1)
}

/// Finds the client to which a message from `sender` is passed on.
pub fn route<P: Identity, S>(sender: &P, message: &SignalingMessage<P, S>) -> (to: (
    P,
    Option<usize>,
))
    ensures
        client_view(to) == destination(sender@, message.intent_id@, message.callee@),
{
    if sender.same(&message.callee) {
        (message.intent_id.caller.duplicate(), Some(message.intent_id.counter))
    } else {
        (message.callee.duplicate(), None)
    }
}

/// Why a client is turned away.
#[derive(Debug, PartialEq, Eq)]
pub enum HandshakeError {
    /// The path of the request names no client.
    MissingClientId,
    /// The client's name is not a peer id, and why.
    NotAPeerId { token: String, reason: String },
}

impl HandshakeError {
    /// The text with which a client is turned away, where the client's name is
    /// shown as `shown`.
    pub open spec fn refusal_text(self, shown: Seq<char>) -> Seq<char> {
        match self {
            HandshakeError::MissingClientId => "Missing client id"@,
            HandshakeError::NotAPeerId { token, reason } => "\""@ + shown
                + "\" is not a valid PeerId ("@ + reason@ + ")"@,
        }
    }

    /// Says why a client is turned away. `shown` is how the client's name is
    /// shown.
    pub fn refusal(&self, shown: &str) -> (text: String)
        ensures
            text@ == self.refusal_text(shown@),
    {
        match self {
            HandshakeError::MissingClientId => "Missing client id".to_owned(),
            HandshakeError::NotAPeerId { token: _, reason } => {
                let mut text = "\"".to_owned();
                text.append(shown);
                text.append("\" is not a valid PeerId (");
                text.append(reason.as_str());
                text.append(")");
                text
            },
        }
    }
}

/// What the path of a client's request says: `/<name>` or `/<name>/<counter>`.
/// A counter that cannot be read is taken for none.
pub open spec fn client_of_path(path: Seq<char>) -> Option<(Seq<char>, Option<usize>)> {
    let tokens = split(path, '/');
    if tokens.len() < 2 {
        None
    } else if tokens.len() == 2 {
        Some((tokens[1], None))
    } else {
        Some((tokens[1], counter_of(tokens[2])))
    }
}

/// Reads from the path of a request what the client is known by, where any
/// name will do.
pub fn client_id(path: &str) -> (client: Result<(String, Option<usize>), HandshakeError>)
    ensures
        match client {
            Ok(c) => client_of_path(path@) == Some(client_view(c)),
            Err(e) => e is MissingClientId && client_of_path(path@) is None,
        },
{
    let tokens = split_text(path, '/');
    let ghost pieces = tokens@.map_values(|piece: String| piece@);
    if tokens.len() < 2 {
        return Err(HandshakeError::MissingClientId);
    }
    let name = tokens[1].clone();
    assert(name@ == pieces[1]);
    if tokens.len() == 2 {
        return Ok((name, None));
    }
    assert(tokens@[2]@ == pieces[2]);
    Ok((name, parse_counter(tokens[2].as_str())))
}

/// Reads from the path of a request what the client is known by, where the
/// name has to be a peer id.
pub fn peer_client_id(path: &str) -> (client: Result<(PeerId, Option<usize>), HandshakeError>)
    ensures
        match client_of_path(path@) {
            None => client matches Err(HandshakeError::MissingClientId),
            Some((name, counter)) => match client {
                Ok(c) => text_names(name, c.0@) && c.1 == counter && c.0.well_formed(),
                Err(HandshakeError::NotAPeerId { token, reason }) => token@ == name && (
                peer_id_of_text(name) matches Err(e) && e == reason@),
                Err(HandshakeError::MissingClientId) => false,
            },
        },
{
    match client_id(path) {
        Err(e) => Err(e),
        Ok((token, counter)) => match PeerId::from_text(token.as_str()) {
            Ok(peer) => Ok((peer, counter)),
            Err(reason) => Err(HandshakeError::NotAPeerId { token, reason }),
        },
    }
}

/// Two identifiers are the same exactly when both the peers and the counters
/// are, and a copy has both.
pub proof fn law_identifiers_are_told_apart<P: Identity>(
    first: SignalingId<P>,
    second: SignalingId<P>,
    same: bool,
    copy: SignalingId<P>,
    clone: SignalingId<P>,
)
    requires
        call_ensures(SignalingId::<P>::same, (&first, &second), same),
        call_ensures(SignalingId::<P>::duplicate, (&first,), copy),
        call_ensures(<SignalingId<P> as Clone>::clone, (&first,), clone),
    ensures
        same <==> first.caller@ == second.caller@ && first.counter == second.counter,
        copy.caller@ == first.caller@ && copy.counter == first.counter,
        clone.caller@ == first.caller@ && clone.counter == first.counter,
{
}

/// What the callee sends goes back to the caller, to the connection with the
/// counter of the request. What anyone else sends goes to the callee, to the
/// connection on which it listens.
pub proof fn law_messages_are_routed<P: Identity, S>(
    sender: P,
    message: SignalingMessage<P, S>,
    to: (P, Option<usize>),
)
    requires
        call_ensures(route::<P, S>, (&sender, &message), to),
    ensures
        to.1 is Some <==> sender@ == message.callee@,
        to.1 matches Some(counter) ==> to.0@ == message.intent_id.caller@ && counter
            == message.intent_id.counter,
        to.1 is None ==> to.0@ == message.callee@,
{
}

/// The caller and the callee of a request reach each other: each is where the
/// other's messages go.
pub proof fn law_routes_are_opposite<P: Identity, S>(
    caller: P,
    callee: P,
    message: SignalingMessage<P, S>,
    there: (P, Option<usize>),
    back: (P, Option<usize>),
)
    requires
        message.intent_id.caller@ == caller@,
        message.callee@ == callee@,
        caller@ != callee@,
        call_ensures(route::<P, S>, (&caller, &message), there),
        call_ensures(route::<P, S>, (&callee, &message), back),
    ensures
        there.0@ == callee@ && there.1 is None,
        back.0@ == caller@ && back.1 == Some(message.intent_id.counter),
{
}

/// A client is turned away with these words.
pub proof fn law_refusals_say_why(error: HandshakeError, shown: &str, text: String)
    requires
        call_ensures(HandshakeError::refusal, (&error, shown), text),
    ensures
        error is MissingClientId ==> text@ == "Missing client id"@,
        error matches HandshakeError::NotAPeerId { token, reason } ==> text@ == "\""@ + shown@
            + "\" is not a valid PeerId ("@ + reason@ + ")"@,
{
}

/// `s` is free of the separator of paths.
pub open spec fn is_segment(s: Seq<char>) -> bool {
    forall|i: int| 0 <= i < s.len() ==> #[trigger] s[i] != '/'
}

proof fn lemma_three_segments(before: Seq<char>, name: Seq<char>, rest: Seq<char>)
    requires
        is_segment(before),
        is_segment(name),
    ensures
        split(before + seq!['/'] + name, '/') == seq![before, name],
        split(before + seq!['/'] + name + seq!['/'] + rest, '/') == seq![before, name] + split(
            rest,
            '/',
        ),
{
    lemma_split_plain(before, '/');
    lemma_split_plain(name, '/');
    let two = before + seq!['/'] + name;
    assert(two =~= before.push('/') + name);
    lemma_split_between(before, '/', name);
    assert(seq![before] + seq![name] =~= seq![before, name]);
    assert(two + seq!['/'] + rest =~= two.push('/') + rest);
    lemma_split_between(two, '/', rest);
}

/// The client's name is what stands between the first slash of the path and the
/// second, or the end. There is none exactly where there is no slash.
pub proof fn law_name_is_read_from_path(
    path: &str,
    before: Seq<char>,
    name: Seq<char>,
    rest: Seq<char>,
    client: Result<(String, Option<usize>), HandshakeError>,
)
    requires
        call_ensures(client_id, (path,), client),
        is_segment(before),
        is_segment(name),
    ensures
        path@ == before ==> (client matches Err(HandshakeError::MissingClientId)),
        path@ == before + seq!['/'] + name ==> (client matches Ok((n, c)) && n@ == name && c
            is None),
        path@ == before + seq!['/'] + name + seq!['/'] + rest ==> (client matches Ok((n, _)) && n@
            == name),
{
    lemma_split_plain(before, '/');
    lemma_three_segments(before, name, rest);
    lemma_split_has_pieces(rest);
}

proof fn lemma_split_has_pieces(s: Seq<char>)
    ensures
        split(s, '/').len() > 0,
    decreases s.len(),
{
    if s.len() > 0 {
        lemma_split_has_pieces(s.drop_last());
    }
}

/// The counter is what stands between the second slash and the third, or the
/// end, read as a counter; whatever follows is passed over.
pub proof fn law_counter_is_read_from_path(
    path: &str,
    before: Seq<char>,
    name: Seq<char>,
    number: &str,
    rest: Seq<char>,
    counter: Option<usize>,
    client: Result<(String, Option<usize>), HandshakeError>,
)
    requires
        call_ensures(client_id, (path,), client),
        call_ensures(parse_counter, (number,), counter),
        is_segment(before),
        is_segment(name),
        is_segment(number@),
        path@ == before + seq!['/'] + name + seq!['/'] + number@ || path@ == before + seq!['/']
            + name + seq!['/'] + number@ + seq!['/'] + rest,
    ensures
        client matches Ok((n, c)) && n@ == name && c == counter,
{
    lemma_split_plain(number@, '/');
    let three = before + seq!['/'] + name + seq!['/'] + number@;
    lemma_three_segments(before, name, number@);
    assert(seq![before, name] + seq![number@] =~= seq![before, name, number@]);
    assert(three + seq!['/'] + rest =~= three.push('/') + rest);
    lemma_split_between(three, '/', rest);
    assert((seq![before, name, number@] + split(rest, '/'))[2] == number@);
}

/// A server that goes by peer ids reads the same from a path as one that goes by
/// texts, and then the peer id from the name; it turns away exactly those whose
/// name is none.
pub proof fn law_peers_are_read_like_texts(
    path: &str,
    by_text: Result<(String, Option<usize>), HandshakeError>,
    by_peer: Result<(PeerId, Option<usize>), HandshakeError>,
)
    requires
        call_ensures(client_id, (path,), by_text),
        call_ensures(peer_client_id, (path,), by_peer),
    ensures
        by_text is Err ==> (by_peer matches Err(HandshakeError::MissingClientId)),
        by_text matches Ok((name, counter)) ==> match peer_id_of_text(name@) {
            Ok(id) => by_peer matches Ok((p, c)) && p@ == id && c == counter,
            Err(e) => by_peer matches Err(HandshakeError::NotAPeerId { token, reason }) && token@
                == name@ && reason@ == e,
        },
{
}

} // verus!
