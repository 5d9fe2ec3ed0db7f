//! What an operation on a message can fail with.
use vstd::prelude::*;

verus! {

/// Why an operation failed.
#[derive(Debug, Clone, Copy, PartialEq, Eq)]
pub enum SipError {
    /// A token was looked up that is the token of no request method.
    UnknownMethodToken,
    /// The operation needs a request, and the message is a response.
    WrongMessageTypeForOperation,
    /// The start line ends before the tokens that its kind of message has.
    MalformedStartLine,
    /// A request was to be written out, and it has no request target.
    MissingRequestTarget,
}

} // verus!
