//! The proxy's instance storage: its two entries and the writes to them.

use vstd::prelude::*;

verus! {

/// One year of five-second ledgers, the lifetime that every write asks for.
pub const INSTANCE_TTL_LEDGERS: u32 = 6_307_200;

/// The key of an instance entry.
#[derive(Clone, Copy, Debug, PartialEq, Eq, Structural)]
pub enum InstanceKey {
    /// The proxy's admin.
    Admin,
    /// The registry to which batches are forwarded.
    WrapContract,
}

/// One thing to do to the instance storage.
#[derive(Clone, Copy, Debug, PartialEq, Eq, Structural)]
pub enum HostWrite {
    /// Store the proxy's entry under this key.
    Store(InstanceKey),
    /// Where the instance would live for less than `threshold` ledgers, let it
    /// live for `extend_to`.
    ExtendTtl {
        threshold: u32,
        extend_to: u32,
    },
}

/// The lifetime extension that ends every series of writes.
pub open spec fn ttl_extension() -> HostWrite {
    HostWrite::ExtendTtl { threshold: INSTANCE_TTL_LEDGERS, extend_to: INSTANCE_TTL_LEDGERS }
}

} // verus!
