//! The proxy's entry points.

use crate::batch::{Batch, BatchView};
use crate::error::ProxyError;
use crate::host::{held, held_len};
use crate::instance::{ttl_extension, HostWrite, InstanceKey, INSTANCE_TTL_LEDGERS};
use soroban_sdk::{Address, Val};
use vstd::prelude::*;

verus! {

/// The most items that one batch may hold.
pub const MAX_BATCH_SIZE: u32 = 100;

/// The host's answer when the admin's authorization was asked for.
#[derive(Clone, Copy, Debug, PartialEq, Eq, Structural)]
pub enum Authorization {
    Granted,
    Denied,
}

/// What the proxy keeps on the ledger between invocations. Nothing else is
/// kept: the wraps themselves live in the registry.
#[derive(Debug)]
pub struct BatchMintProxy {
    /// The entry under `InstanceKey::Admin`.
    pub admin: Option<Address>,
    /// The entry under `InstanceKey::WrapContract`.
    pub wrap_contract: Option<Address>,
}

/// The proxy as the entries of its instance storage.
impl View for BatchMintProxy {
    type V = Map<InstanceKey, Address>;

    open spec fn view(&self) -> Map<InstanceKey, Address> {
        let with_admin = match self.admin {
            Some(admin) => Map::empty().insert(InstanceKey::Admin, admin),
            None => Map::empty(),
        };
        match self.wrap_contract {
            Some(wrap_contract) => with_admin.insert(InstanceKey::WrapContract, wrap_contract),
            None => with_admin,
        }
    }
}

/// The entries after `initialize`, or the error that it is refused with.
pub open spec fn initialized(
    entries: Map<InstanceKey, Address>,
    admin: Address,
    wrap_contract: Address,
) -> Result<Map<InstanceKey, Address>, ProxyError> {
    if entries.dom().contains(InstanceKey::Admin) {
        Err(ProxyError::AlreadyInitialized)
    } else {
        Ok(
            entries.insert(InstanceKey::Admin, admin).insert(
                InstanceKey::WrapContract,
                wrap_contract,
            ),
        )
    }
}

/// The entries after `set_wrap_contract`, or the error that it is refused
/// with.
pub open spec fn retargeted(
    entries: Map<InstanceKey, Address>,
    authorization: Authorization,
    wrap_contract: Address,
) -> Result<Map<InstanceKey, Address>, ProxyError> {
    if !entries.dom().contains(InstanceKey::Admin) {
        Err(ProxyError::NotInitialized)
    } else if authorization == Authorization::Denied {
        Err(ProxyError::Unauthorized)
    } else {
        Ok(entries.insert(InstanceKey::WrapContract, wrap_contract))
    }
}

/// The batch that `batch_mint_wrap` starts, or the error that it is refused
/// with.
pub open spec fn admitted(entries: Map<InstanceKey, Address>, items: Seq<Val>) -> Result<
    BatchView,
    ProxyError,
> {
    if !entries.dom().contains(InstanceKey::WrapContract) {
        Err(ProxyError::NotInitialized)
    } else if items.len() == 0 {
        Err(ProxyError::EmptyBatch)
    } else if items.len() > MAX_BATCH_SIZE {
        Err(ProxyError::BatchTooLarge)
    } else {
        Ok(BatchView::fresh(entries[InstanceKey::WrapContract], items))
    }
}

/// What `initialize` writes: both entries, then the lifetime.
pub open spec fn initialize_writes() -> Seq<HostWrite> {
    seq![
        HostWrite::Store(InstanceKey::Admin),
        HostWrite::Store(InstanceKey::WrapContract),
        ttl_extension(),
    ]
}

/// What `set_wrap_contract` writes: the registry, then the lifetime.
pub open spec fn retarget_writes() -> Seq<HostWrite> {
    seq![HostWrite::Store(InstanceKey::WrapContract), ttl_extension()]
}

impl BatchMintProxy {
    /// Configures the admin and the registry, once. The result lists the
    /// writes to perform, in order.
    pub fn initialize(&mut self, admin: Address, wrap_contract: Address) -> (result: Result<
        Vec<HostWrite>,
        ProxyError,
    >)
        ensures
            match initialized(old(self)@, admin, wrap_contract) {
                Ok(entries) => {
                    &&& final(self)@ == entries
                    &&& result matches Ok(writes)
                    &&& writes@ == initialize_writes()
                },
                Err(error) => *final(self) == *old(self) && result == Err::<Vec<HostWrite>, _>(
                    error,
                ),
            },
            old(self).admin is None <==> result is Ok,
            result matches Ok(writes) ==> {
                &&& final(self).admin == Some(admin)
                &&& final(self).wrap_contract == Some(wrap_contract)
                &&& writes@.len() == 3
                &&& writes[0] == HostWrite::Store(InstanceKey::Admin)
                &&& writes[1] == HostWrite::Store(InstanceKey::WrapContract)
                &&& writes[2] == (HostWrite::ExtendTtl { threshold: 6_307_200, extend_to: 6_307_200 })
            },
            result matches Err(error) ==> {
                &&& error is AlreadyInitialized
                &&& final(self).admin == old(self).admin
                &&& final(self).wrap_contract == old(self).wrap_contract
            },
    {
        if self.admin.is_some() {
            return Err(ProxyError::AlreadyInitialized);
        }
        self.admin = Some(admin);
        self.wrap_contract = Some(wrap_contract);
        Ok(
            vec![
                HostWrite::Store(InstanceKey::Admin),
                HostWrite::Store(InstanceKey::WrapContract),
                HostWrite::ExtendTtl {
                    threshold: INSTANCE_TTL_LEDGERS,
                    extend_to: INSTANCE_TTL_LEDGERS,
                },
            ],
        )
    }

    /// Whose authorization `set_wrap_contract` needs: the admin's.
    pub fn authority(&self) -> (result: Result<&Address, ProxyError>)
        ensures
            self@.dom().contains(InstanceKey::Admin) ==> result == Ok::<_, ProxyError>(
                &self@[InstanceKey::Admin],
            ),
            !self@.dom().contains(InstanceKey::Admin) ==> result == Err::<&Address, _>(
                ProxyError::NotInitialized,
            ),
            match self.admin {
                Some(admin) => result matches Ok(authority) && *authority == admin,
                None => result matches Err(error) && error is NotInitialized,
            },
    {
        match &self.admin {
            Some(admin) => Ok(admin),
            None => Err(ProxyError::NotInitialized),
        }
    }

    /// Points the proxy at another registry, given the host's answer on the
    /// admin's authorization. The result lists the writes to perform, in
    /// order.
    pub fn set_wrap_contract(&mut self, authorization: Authorization, wrap_contract: Address) -> (result:
        Result<Vec<HostWrite>, ProxyError>)
        ensures
            match retargeted(old(self)@, authorization, wrap_contract) {
                Ok(entries) => {
                    &&& final(self)@ == entries
                    &&& result matches Ok(writes)
                    &&& writes@ == retarget_writes()
                },
                Err(error) => *final(self) == *old(self) && result == Err::<Vec<HostWrite>, _>(
                    error,
                ),
            },
            final(self).admin == old(self).admin,
            old(self).admin is Some && authorization is Granted <==> result is Ok,
            result matches Ok(writes) ==> {
                &&& final(self).wrap_contract == Some(wrap_contract)
                &&& writes@.len() == 2
                &&& writes[0] == HostWrite::Store(InstanceKey::WrapContract)
                &&& writes[1] == (HostWrite::ExtendTtl { threshold: 6_307_200, extend_to: 6_307_200 })
            },
            result matches Err(error) ==> {
                &&& old(self).admin is None <==> error is NotInitialized
                &&& old(self).admin is Some <==> error is Unauthorized
                &&& final(self).wrap_contract == old(self).wrap_contract
            },
    {
        if self.admin.is_none() {
            return Err(ProxyError::NotInitialized);
        }
        match authorization {
            Authorization::Denied => Err(ProxyError::Unauthorized),
            Authorization::Granted => {
                self.wrap_contract = Some(wrap_contract);
                Ok(
                    vec![
                        HostWrite::Store(InstanceKey::WrapContract),
                        HostWrite::ExtendTtl {
                            threshold: INSTANCE_TTL_LEDGERS,
                            extend_to: INSTANCE_TTL_LEDGERS,
                        },
                    ],
                )
            },
        }
    }

    /// Admits a batch of mint requests, each as the host value that holds it,
    /// for forwarding to the configured registry.
    pub fn batch_mint_wrap<'a>(&'a self, items: &'a soroban_sdk::Vec<Val>) -> (result: Result<
        Batch<'a>,
        ProxyError,
    >)
        ensures
            match admitted(self@, held(*items)) {
                Ok(batch) => result matches Ok(b) && b@ == batch,
                Err(error) => result == Err::<Batch, _>(error),
            },
            self.wrap_contract is Some && 1 <= held(*items).len() <= 100 <==> result is Ok,
            result matches Ok(batch) ==> {
                &&& self.wrap_contract == Some(batch@.registry)
                &&& batch@.items == held(*items)
                &&& batch@.accepted == 0
                &&& !batch@.refused
            },
            result matches Err(error) ==> {
                &&& self.wrap_contract is None <==> error is NotInitialized
                &&& self.wrap_contract is Some && held(*items).len() == 0 <==> error is EmptyBatch
                &&& self.wrap_contract is Some && held(*items).len() > 100
                    <==> error is BatchTooLarge
            },
    {
        match &self.wrap_contract {
            None => Err(ProxyError::NotInitialized),
            Some(registry) => {
                let count: u32 = held_len(items);
                if count == 0 {
                    Err(ProxyError::EmptyBatch)
                } else if count > MAX_BATCH_SIZE {
                    Err(ProxyError::BatchTooLarge)
                } else {
                    Ok(Batch::fresh(registry, items))
                }
            },
        }
    }

    /// The entry that the proxy keeps under a key.
    pub fn entry(&self, key: InstanceKey) -> (value: Option<&Address>)
        ensures
            self@.dom().contains(key) ==> value == Some(&self@[key]),
            !self@.dom().contains(key) ==> value is None,
            key is Admin ==> match self.admin {
                Some(admin) => value matches Some(v) && *v == admin,
                None => value is None,
            },
            key is WrapContract ==> match self.wrap_contract {
                Some(wrap_contract) => value matches Some(v) && *v == wrap_contract,
                None => value is None,
            },
    {
        match key {
            InstanceKey::Admin => self.admin.as_ref(),
            InstanceKey::WrapContract => self.wrap_contract.as_ref(),
        }
    }

    /// The current admin.
    pub fn admin(&self) -> (value: Option<&Address>)
        ensures
            self@.dom().contains(InstanceKey::Admin) ==> value == Some(&self@[InstanceKey::Admin]),
            !self@.dom().contains(InstanceKey::Admin) ==> value is None,
            match self.admin {
                Some(admin) => value matches Some(v) && *v == admin,
                None => value is None,
            },
    {
        self.entry(InstanceKey::Admin)
    }

    /// The configured registry.
    pub fn wrap_contract(&self) -> (value: Option<&Address>)
        ensures
            self@.dom().contains(InstanceKey::WrapContract) ==> value == Some(
                &self@[InstanceKey::WrapContract],
            ),
            !self@.dom().contains(InstanceKey::WrapContract) ==> value is None,
            match self.wrap_contract {
                Some(wrap_contract) => value matches Some(v) && *v == wrap_contract,
                None => value is None,
            },
    {
        self.entry(InstanceKey::WrapContract)
    }
}

} // verus!
