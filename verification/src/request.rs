//! A mint request and the registry call that it becomes.

use soroban_sdk::{Address, BytesN, Symbol};
use vstd::prelude::*;

verus! {

/// One mint to forward. The proxy reads none of it: the registry checks the
/// period, the payload version and the signature.
#[derive(Debug)]
pub struct MintRequest {
    /// Who receives the wrap.
    pub user: Address,
    /// The period, as `YYYYMM`.
    pub period: u64,
    pub archetype: Symbol,
    pub data_hash: BytesN<32>,
    pub payload_version: u32,
    /// The registry admin's Ed25519 signature over the mint payload.
    pub signature: BytesN<64>,
}

/// One argument of a contract call.
#[derive(Debug)]
pub enum Argument<'a> {
    Address(&'a Address),
    U64(u64),
    Symbol(&'a Symbol),
    Bytes32(&'a BytesN<32>),
    U32(u32),
    Bytes64(&'a BytesN<64>),
}

/// The call by which the proxy forwards a request to a registry.
#[derive(Debug)]
pub struct MintCall<'a> {
    /// The registry that is called.
    pub contract: &'a Address,
    pub request: &'a MintRequest,
}

/// A call by its contents.
pub ghost struct CallView {
    pub contract: Address,
    pub request: MintRequest,
}

impl<'a> View for MintCall<'a> {
    type V = CallView;

    open spec fn view(&self) -> CallView {
        CallView { contract: *self.contract, request: *self.request }
    }
}

impl<'a> MintCall<'a> {
    /// The registry function that every call names.
    pub fn function(&self) -> (name: &'static str)
        ensures
            name@ == "mint_wrap"@,
    {
        "mint_wrap"
    }

    /// The call's arguments: the fields of the request, each unaltered, in
    /// the order in which the request declares them.
    pub fn arguments(&self) -> (arguments: [Argument<'a>; 6])
        ensures
            arguments@ == seq![
                Argument::Address(&self@.request.user),
                Argument::U64(self@.request.period),
                Argument::Symbol(&self@.request.archetype),
                Argument::Bytes32(&self@.request.data_hash),
                Argument::U32(self@.request.payload_version),
                Argument::Bytes64(&self@.request.signature),
            ],
            arguments@.len() == 6,
            arguments[0] == Argument::Address(&self.request.user),
            arguments[1] == Argument::<'a>::U64(self.request.period),
            arguments[2] == Argument::Symbol(&self.request.archetype),
            arguments[3] == Argument::Bytes32(&self.request.data_hash),
            arguments[4] == Argument::<'a>::U32(self.request.payload_version),
            arguments[5] == Argument::Bytes64(&self.request.signature),
    {
        let request: &'a MintRequest = self.request;
        [
            Argument::Address(&request.user),
            Argument::U64(request.period),
            Argument::Symbol(&request.archetype),
            Argument::Bytes32(&request.data_hash),
            Argument::U32(request.payload_version),
            Argument::Bytes64(&request.signature),
        ]
    }
}

} // verus!
