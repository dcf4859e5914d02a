//! Values as text, which is how peer ids are written in signaling messages.
use vstd::prelude::*;

use crate::peer::{displayed, peer_id_of_text, PeerId};

verus! {

/// A value that can be displayed as text and parsed from it.
pub trait Textual: View + Sized {
    /// `text` is how `value` is displayed.
    spec fn displays(value: Self::V, text: Seq<char>) -> bool;

    /// What `text` is parsed as; where that fails, the text of the error.
    spec fn parsed(text: Seq<char>) -> Result<Self::V, Seq<char>>;

    /// Displays the value.
    fn display(&self) -> (text: String)
        ensures
            Self::displays(self@, text@),
    ;

    /// Parses a value; where that fails, the error says why.
    fn parse(text: &str) -> (value: Result<Self, String>)
        ensures
            match value {
                Ok(v) => Self::parsed(text@) matches Ok(p) && p == v@,
                Err(reason) => Self::parsed(text@) matches Err(e) && e == reason@,
            },
    ;
}

impl Textual for PeerId {
    open spec fn displays(value: Seq<u8>, text: Seq<char>) -> bool {
        displayed(value, text)
    }

    open spec fn parsed(text: Seq<char>) -> Result<Seq<u8>, Seq<char>> {
        peer_id_of_text(text)
    }

    fn display(&self) -> (text: String) {
        self.to_text()
    }

    fn parse(text: &str) -> (value: Result<PeerId, String>) {
        PeerId::from_text(text)
    }
}

impl Textual for String {
    open spec fn displays(value: Seq<char>, text: Seq<char>) -> bool {
        text == value
    }

    open spec fn parsed(text: Seq<char>) -> Result<Seq<char>, Seq<char>> {
        Ok(text)
    }

    fn display(&self) -> (text: String) {
        self.clone()
    }

    fn parse(text: &str) -> (value: Result<String, String>) {
        Ok(text.to_owned())
    }
}

/// `value` is what is read from `text`: what it is parsed as, or why it is not.
pub open spec fn deserialized<T: Textual>(text: Seq<char>, value: Result<T, String>) -> bool {
    match value {
        Ok(v) => T::parsed(text) matches Ok(p) && p == v@,
        Err(reason) => T::parsed(text) matches Err(e) && e == reason@,
    }
}

/// `text` is parsed as `value`.
pub open spec fn parses_as<T: Textual>(text: Seq<char>, value: T::V) -> bool {
    T::parsed(text) matches Ok(p) && p == value
}

/// Writes a value as its text.
pub fn serialize<T: Textual>(value: &T) -> (text: String)
    ensures
        T::displays(value@, text@),
{
    value.display()
}

/// Reads a value from its text; where that fails, the error says why.
pub fn deserialize<T: Textual>(text: &str) -> (value: Result<T, String>)
    ensures
        deserialized(text@, value),
{
    T::parse(text)
}

/// A value of any type that was written as text is read back from it unchanged,
/// if what is displayed of it is parsed as that value.
pub proof fn law_text_round_trip<T: Textual>(
    value: T::V,
    text: Seq<char>,
    read: Result<T, String>,
)
    requires
        T::displays(value, text),
        parses_as::<T>(text, value),
        deserialized(text, read),
    ensures
        read matches Ok(v) && v@ == value,
{
}

/// What is displayed of a peer id is parsed as that peer id, so that every peer
/// id that was written as text is read back from it unchanged.
pub proof fn law_peer_id_round_trip(value: Seq<u8>, text: Seq<char>, read: Result<PeerId, String>)
    requires
        <PeerId as Textual>::displays(value, text),
        deserialized(text, read),
    ensures
        parses_as::<PeerId>(text, value),
        read matches Ok(p) && p@ == value,
{
}

/// Two peer ids that are written as the same text are the same.
pub proof fn law_text_is_unique(first: Seq<u8>, second: Seq<u8>, text: Seq<char>)
    requires
        <PeerId as Textual>::displays(first, text),
        <PeerId as Textual>::displays(second, text),
    ensures
        first == second,
{
}

/// A peer id is written as its text, and read as it is read from a text: what is
/// written of one is read as the same, and nothing else is.
pub proof fn law_peer_ids_are_exchanged(
    peer: PeerId,
    text: String,
    shown: String,
    given: &str,
    read: Result<PeerId, String>,
    from_text: Result<PeerId, String>,
)
    requires
        call_ensures(serialize::<PeerId>, (&peer,), text),
        call_ensures(PeerId::to_text, (&peer,), shown),
        call_ensures(deserialize::<PeerId>, (given,), read),
        call_ensures(PeerId::from_text, (given,), from_text),
    ensures
        text@ == shown@,
        read is Ok <==> from_text is Ok,
        read matches Ok(p) ==> (from_text matches Ok(q) && p@ == q@),
        read matches Err(e) ==> (from_text matches Err(f) && e@ == f@),
        given@ == text@ ==> (read matches Ok(p) && p@ == peer@),
{
}

/// A text is written and read as it is.
pub proof fn law_strings_are_exchanged(
    value: String,
    text: String,
    given: &str,
    read: Result<String, String>,
)
    requires
        call_ensures(serialize::<String>, (&value,), text),
        call_ensures(deserialize::<String>, (given,), read),
    ensures
        text@ == value@,
        read matches Ok(v) && v@ == given@,
{
}

} // verus!
