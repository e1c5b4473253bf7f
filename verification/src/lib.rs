//! Batch Mint Proxy: the decisions of a contract that forwards a batch of
//! mint requests, one `mint_wrap` call each, to a configured wrap registry.
//!
//! The crate decides and the contract around it acts. Ledger entries, the
//! host's answers on authorization and the registry's answers come in as
//! arguments; what to write, whose authorization to ask for and which call to
//! make next go out as results.

pub mod batch;
pub mod error;
pub mod host;
pub mod instance;
pub mod laws;
pub mod proxy;
pub mod request;

pub use batch::{Batch, Reply, Step};
pub use error::ProxyError;
pub use instance::{HostWrite, InstanceKey, INSTANCE_TTL_LEDGERS};
pub use proxy::{Authorization, BatchMintProxy, MAX_BATCH_SIZE};
pub use request::{Argument, MintCall, MintRequest};
