//! Errors of the transport.
use vstd::prelude::*;

verus! {

/// Why a connection could not be made.
#[derive(Debug, PartialEq, Eq)]
pub enum Error {
    /// The signaling server could not be reached, and why.
    ConnectionToSignalingServerFailed(String),
    /// Anything else that went wrong, and what.
    Internal(String),
}

impl Error {
    /// What the error says.
    pub open spec fn text(self) -> Seq<char> {
        match self {
            Error::ConnectionToSignalingServerFailed(reason) =>
                "Connection to signaling server failed: "@ + reason@,
            Error::Internal(reason) => reason@,
        }
    }

    /// Whether the signaling server could not be reached.
    pub open spec fn is_unreachable(self) -> bool {
        self is ConnectionToSignalingServerFailed
    }

    /// Says what went wrong.
    pub fn message(&self) -> (message: String)
        ensures
            message@ == self.text(),
    {
        match self {
            Error::ConnectionToSignalingServerFailed(reason) => {
                let mut message = "Connection to signaling server failed: ".to_owned();
                message.append(reason.as_str());
                message
            },
            Error::Internal(reason) => reason.clone(),
        }
    }
}

/// `e` is an internal error that says `text`.
pub open spec fn is_internal(e: Error, text: Seq<char>) -> bool {
    e matches Error::Internal(reason) && reason@ == text
}

/// An error says why, and that it was for want of the signaling server exactly
/// where it was.
pub proof fn law_errors_say_why(error: Error, message: String)
    requires
        call_ensures(Error::message, (&error,), message),
    ensures
        error matches Error::Internal(reason) ==> message@ == reason@,
        error matches Error::ConnectionToSignalingServerFailed(reason) ==> message@
            == "Connection to signaling server failed: "@ + reason@,
{
}

} // verus!
