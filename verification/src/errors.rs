use vstd::prelude::*;

verus! {

/// The failure kinds a client operation can surface.
#[derive(Clone, Copy, Debug, PartialEq, Eq, Structural)]
pub enum ClientError {
    /// The connection was already closed when the operation was attempted.
    Closed,
    /// A complete response frame arrived but its bytes are not valid text.
    Decode,
    /// The stream ended before one complete response frame had arrived.
    Truncated,
    /// The received bytes cannot be the start of a supported response frame.
    Malformed,
}

} // verus!
