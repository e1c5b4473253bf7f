//! What the crate takes from `soroban_sdk`: the types whose values it carries
//! without looking inside, and the host vector in which a batch arrives.

use soroban_sdk::Val;
use vstd::prelude::*;

verus! {

/// `soroban_sdk::Address`, the identity of an account or a contract.
#[verifier::external_type_specification]
#[verifier::external_body]
pub struct ExAddress(soroban_sdk::Address);

/// `soroban_sdk::Symbol`, a short host string.
#[verifier::external_type_specification]
#[verifier::external_body]
pub struct ExSymbol(soroban_sdk::Symbol);

/// `soroban_sdk::BytesN`, a host byte array of fixed length.
#[verifier::external_type_specification]
#[verifier::external_body]
pub struct ExBytesN<const N: usize>(soroban_sdk::BytesN<N>);

/// `soroban_sdk::Val`, a host value of any kind. Two of them are the same to
/// this crate when they denote the same host value.
#[verifier::external_type_specification]
#[verifier::external_body]
pub struct ExVal(soroban_sdk::Val);

/// `soroban_sdk::Vec`, the host's immutable vector.
#[verifier::external_type_specification]
#[verifier::external_body]
#[verifier::reject_recursive_types(T)]
pub struct ExVec<T>(soroban_sdk::Vec<T>);

/// The values that a host vector holds, first to last.
pub uninterp spec fn held(vector: soroban_sdk::Vec<Val>) -> Seq<Val>;

/// Calls `soroban_sdk::Vec::len`: the number of values that the vector holds.
#[verifier::external_body]
pub(crate) fn held_len(vector: &soroban_sdk::Vec<Val>) -> (len: u32)
    ensures
        len == held(*vector).len(),
{
    vector.len()
}

/// Calls `soroban_sdk::Vec::get`: the value at a position, or `None` from the
/// end of the vector on. Reading a value as a `Val` converts nothing, so the
/// conversion that `get` may panic on cannot fail here.
#[verifier::external_body]
pub(crate) fn held_at(vector: &soroban_sdk::Vec<Val>, position: u32) -> (value: Option<Val>)
    ensures
        position < held(*vector).len() ==> value == Some(held(*vector)[position as int]),
        position >= held(*vector).len() ==> value is None,
{
    vector.get(position)
}

} // verus!
