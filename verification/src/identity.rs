//! What a client of the signaling server is known by.
use vstd::prelude::*;

verus! {

/// A name for a client: a peer id, or any text that the client chose.
pub trait Identity: View + Sized {
    /// Whether two names are the same.
    fn same(&self, other: &Self) -> (same: bool)
        ensures
            same == (self@ == other@),
    ;

    /// A copy of a name.
    fn duplicate(&self) -> (copy: Self)
        ensures
            copy@ == self@,
    ;
}

impl Identity for String {
    fn same(&self, other: &String) -> (same: bool) {
        *self == *other
    }

    fn duplicate(&self) -> (copy: String) {
        self.clone()
    }
}

} // verus!
