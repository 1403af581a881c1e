use vstd::prelude::*;

verus! {

use crate::errors::ClientError;

/// The send/close lifecycle of one connection: open from creation until the
/// first close, and permanently closed afterwards. The socket itself lives
/// with the caller; this type is the state whose rules are enforced.
pub struct ConnectionLifecycle {
    open_state: bool,
}

impl ConnectionLifecycle {
    /// Whether the connection is still open for sending.
    pub closed spec fn is_open(&self) -> bool {
        self.open_state
    }

    /// The state a close leaves behind, whether the close was explicit or
    /// came from the teardown hook at end of scope.
    pub closed spec fn spec_close(self) -> ConnectionLifecycle {
        ConnectionLifecycle { open_state: false }
    }

    /// A connection starts its life open.
    pub fn new() -> (r: Self)
        ensures
            r.is_open(),
    {
        ConnectionLifecycle { open_state: true }
    }

    /// Whether a send may proceed: exactly when the connection is open.
    pub fn may_send(&self) -> (r: bool)
        ensures
            r == self.is_open(),
    {
        self.open_state
    }

    /// Marks the connection closed. Closing an open connection succeeds;
    /// a second close reports the double close instead of passing silently.
    /// Either way the connection is closed afterwards.
    pub fn close(&mut self) -> (r: Result<(), ClientError>)
        ensures
            *final(self) == old(self).spec_close(),
            !final(self).is_open(),
            old(self).is_open() ==> r == Ok::<(), ClientError>(()),
            !old(self).is_open() ==> r == Err::<(), ClientError>(ClientError::Closed),
    {
        let was_open = self.open_state;
        self.open_state = false;
        if was_open {
            Ok(())
        } else {
            Err(ClientError::Closed)
        }
    }
}

/// Law: once a connection has been closed — explicitly or by the teardown
/// hook — its state never again permits a send.
pub proof fn lemma_no_send_after_close(c: ConnectionLifecycle)
    ensures
        !c.spec_close().is_open(),
{
}

} // verus!
