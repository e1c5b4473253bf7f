//! The errors with which the proxy refuses an invocation.

use vstd::prelude::*;

verus! {

/// Why the proxy refused an invocation.
#[derive(Clone, Copy, Debug, PartialEq, Eq, Structural)]
pub enum ProxyError {
    /// A batch or a change of registry was asked for before `initialize`.
    NotInitialized,
    /// `initialize` was called a second time.
    AlreadyInitialized,
    /// The admin did not authorize the change of registry.
    Unauthorized,
    /// The batch holds no item.
    EmptyBatch,
    /// The batch holds more items than one invocation may forward.
    BatchTooLarge,
}

impl ProxyError {
    /// The contract error code of each error.
    pub open spec fn spec_code(self) -> u32 {
        match self {
            ProxyError::NotInitialized => 1,
            ProxyError::AlreadyInitialized => 2,
            ProxyError::Unauthorized => 3,
            ProxyError::EmptyBatch => 4,
            ProxyError::BatchTooLarge => 5,
        }
    }

    /// The code under which callers of the contract see this error.
    pub fn code(self) -> (code: u32)
        ensures
            code == self.spec_code(),
            self is NotInitialized <==> code == 1,
            self is AlreadyInitialized <==> code == 2,
            self is Unauthorized <==> code == 3,
            self is EmptyBatch <==> code == 4,
            self is BatchTooLarge <==> code == 5,
    {
        match self {
            ProxyError::NotInitialized => 1,
            ProxyError::AlreadyInitialized => 2,
            ProxyError::Unauthorized => 3,
            ProxyError::EmptyBatch => 4,
            ProxyError::BatchTooLarge => 5,
        }
    }
}

} // verus!
