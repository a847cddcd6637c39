//! The pending-result token: the one place the answer of a foreign call
//! must be written.
//!
//! The host hands the boundary an opaque handle for each submitted call;
//! the handle must be resolved exactly once. `PendingToken` carries the
//! handle as a plain identifier and offers only a consuming `resolve`,
//! so a second resolution of the same token is impossible to write.
use vstd::prelude::*;

verus! {

/// A foreign pending-result handle, identified by a plain number that the
/// host side maps back to the real resource. The type has no `Clone` and
/// `resolve` takes it by value: each token is resolved at most once.
pub struct PendingToken {
    handle: u64,
}

/// The resolution of one pending token: which handle to write, and the
/// payload text to write into it. The host side performs the actual write.
pub struct Resolution {
    pub handle: u64,
    pub payload: String,
}

impl PendingToken {
    /// Wrap a foreign handle identifier as a single-use token.
    pub fn new(handle: u64) -> (t: PendingToken)
        ensures
            t.id() == handle,
    {
        PendingToken { handle }
    }

    /// The handle this token stands for.
    pub closed spec fn id(&self) -> u64 {
        self.handle
    }

    /// Consume the token, producing the order to write `payload` into the
    /// handle. Consuming by value makes a double resolution unwritable.
    pub fn resolve(self, payload: String) -> (r: Resolution)
        ensures
            r.handle == self.id(),
            r.payload == payload,
    {
        Resolution { handle: self.handle, payload }
    }
}

} // verus!
