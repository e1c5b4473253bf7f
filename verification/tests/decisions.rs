//! The library's decisions, one call at a time.

use batch_mint_proxy::{
    Argument, Authorization, Batch, BatchMintProxy, HostWrite, InstanceKey, MintCall, MintRequest,
    ProxyError, Reply, Step, INSTANCE_TTL_LEDGERS, MAX_BATCH_SIZE,
};
use soroban_sdk::testutils::{Address as _, EnvTestConfig};
use soroban_sdk::{Address, BytesN, Env, IntoVal, Symbol, TryFromVal, Val, Vec};

fn new_env() -> Env {
    Env::new_with_config(EnvTestConfig {
        capture_snapshot_at_drop: false,
    })
}

fn fresh() -> BatchMintProxy {
    BatchMintProxy {
        admin: None,
        wrap_contract: None,
    }
}

fn ready(env: &Env) -> BatchMintProxy {
    BatchMintProxy {
        admin: Some(Address::generate(env)),
        wrap_contract: Some(Address::generate(env)),
    }
}

const TTL: HostWrite = HostWrite::ExtendTtl {
    threshold: INSTANCE_TTL_LEDGERS,
    extend_to: INSTANCE_TTL_LEDGERS,
};

/// A batch whose items are the numbers from 10 on.
fn numbers(env: &Env, count: u32) -> Vec<Val> {
    let mut items: Vec<Val> = Vec::new(env);
    for i in 0..count {
        items.push_back((10 + i).into_val(env));
    }
    items
}

/// The registry and the number that a batch forwards next.
fn forwarded(env: &Env, batch: &Batch) -> Option<(Address, u32)> {
    match batch.step() {
        Step::Forward { registry, item } => {
            Some((registry.clone(), u32::try_from_val(env, &item).unwrap()))
        }
        _ => None,
    }
}

fn error_of(result: Result<Batch, ProxyError>) -> Option<ProxyError> {
    result.err()
}

#[test]
fn error_codes() {
    assert_eq!(ProxyError::NotInitialized.code(), 1);
    assert_eq!(ProxyError::AlreadyInitialized.code(), 2);
    assert_eq!(ProxyError::Unauthorized.code(), 3);
    assert_eq!(ProxyError::EmptyBatch.code(), 4);
    assert_eq!(ProxyError::BatchTooLarge.code(), 5);
}

#[test]
fn initialize_writes_both_entries_once() {
    let env = new_env();
    let admin = Address::generate(&env);
    let registry = Address::generate(&env);
    let other = Address::generate(&env);
    let mut proxy = fresh();

    assert_eq!(
        proxy.initialize(admin.clone(), registry.clone()),
        Ok(vec![
            HostWrite::Store(InstanceKey::Admin),
            HostWrite::Store(InstanceKey::WrapContract),
            TTL
        ])
    );
    assert_eq!(proxy.admin(), Some(&admin));
    assert_eq!(proxy.wrap_contract(), Some(&registry));
    assert_eq!(proxy.entry(InstanceKey::Admin), Some(&admin));
    assert_eq!(proxy.entry(InstanceKey::WrapContract), Some(&registry));

    assert_eq!(
        proxy.initialize(other.clone(), other.clone()),
        Err(ProxyError::AlreadyInitialized)
    );
    assert_eq!(proxy.admin(), Some(&admin));
    assert_eq!(proxy.wrap_contract(), Some(&registry));
}

#[test]
fn initialization_outlives_a_change_of_registry() {
    let env = new_env();
    let admin = Address::generate(&env);
    let registry = Address::generate(&env);
    let other = Address::generate(&env);
    let mut proxy = fresh();

    assert!(proxy.initialize(admin.clone(), registry).is_ok());
    assert!(proxy
        .set_wrap_contract(Authorization::Granted, other.clone())
        .is_ok());
    assert_eq!(
        proxy.initialize(other.clone(), other.clone()),
        Err(ProxyError::AlreadyInitialized)
    );
    assert_eq!(proxy.admin(), Some(&admin));
}

#[test]
fn only_an_authorized_change_of_registry_happens() {
    let env = new_env();
    let other = Address::generate(&env);
    let mut proxy = ready(&env);
    let registry = proxy.wrap_contract().unwrap().clone();
    let admin = proxy.admin().unwrap().clone();

    assert_eq!(proxy.authority(), Ok(&admin));
    assert_eq!(
        proxy.set_wrap_contract(Authorization::Denied, other.clone()),
        Err(ProxyError::Unauthorized)
    );
    assert_eq!(proxy.wrap_contract(), Some(&registry));

    assert_eq!(
        proxy.set_wrap_contract(Authorization::Granted, other.clone()),
        Ok(vec![HostWrite::Store(InstanceKey::WrapContract), TTL])
    );
    assert_eq!(proxy.wrap_contract(), Some(&other));
    assert_eq!(proxy.admin(), Some(&admin));
}

#[test]
fn nothing_works_before_initialize() {
    let env = new_env();
    let other = Address::generate(&env);
    let mut proxy = fresh();

    assert_eq!(proxy.authority(), Err(ProxyError::NotInitialized));
    assert_eq!(
        proxy.set_wrap_contract(Authorization::Granted, other),
        Err(ProxyError::NotInitialized)
    );
    assert_eq!(proxy.admin(), None);
    assert_eq!(proxy.wrap_contract(), None);
    for count in [0, 1, MAX_BATCH_SIZE + 1] {
        assert_eq!(
            error_of(proxy.batch_mint_wrap(&numbers(&env, count))),
            Some(ProxyError::NotInitialized)
        );
    }
}

#[test]
fn batch_size_limits() {
    let env = new_env();
    let proxy = ready(&env);

    assert_eq!(MAX_BATCH_SIZE, 100);
    for (count, error) in [
        (0, Some(ProxyError::EmptyBatch)),
        (1, None),
        (100, None),
        (101, Some(ProxyError::BatchTooLarge)),
    ] {
        assert_eq!(error_of(proxy.batch_mint_wrap(&numbers(&env, count))), error);
    }
}

#[test]
fn items_are_forwarded_in_order_until_all_are_accepted() {
    let env = new_env();
    let proxy = ready(&env);
    let registry = proxy.wrap_contract().unwrap().clone();
    let items = numbers(&env, 3);
    let mut batch = match proxy.batch_mint_wrap(&items) {
        Ok(batch) => batch,
        Err(error) => panic!("{error:?}"),
    };

    for i in 10..13 {
        assert_eq!(forwarded(&env, &batch), Some((registry.clone(), i)));
        batch.reply(Reply::Accepted);
    }
    assert!(matches!(batch.step(), Step::Return(3)));
    batch.reply(Reply::Refused);
    assert!(matches!(batch.step(), Step::Return(3)));
}

#[test]
fn a_refusal_aborts_the_batch_for_good() {
    let env = new_env();
    let proxy = ready(&env);
    let items = numbers(&env, 3);
    let mut batch = match proxy.batch_mint_wrap(&items) {
        Ok(batch) => batch,
        Err(error) => panic!("{error:?}"),
    };

    batch.reply(Reply::Accepted);
    batch.reply(Reply::Refused);
    assert!(matches!(batch.step(), Step::Abort));
    batch.reply(Reply::Accepted);
    assert!(matches!(batch.step(), Step::Abort));
}

#[test]
fn a_call_carries_the_request_to_the_registry_of_its_batch() {
    let env = new_env();
    let proxy = ready(&env);
    let items = numbers(&env, 1);
    let user = Address::generate(&env);
    let archetype = Symbol::new(&env, "gold");
    let data_hash = BytesN::from_array(&env, &[3u8; 32]);
    let signature = BytesN::from_array(&env, &[4u8; 64]);
    let request = MintRequest {
        user: user.clone(),
        period: 202605,
        archetype: archetype.clone(),
        data_hash: data_hash.clone(),
        payload_version: 1,
        signature: signature.clone(),
    };
    let batch = match proxy.batch_mint_wrap(&items) {
        Ok(batch) => batch,
        Err(error) => panic!("{error:?}"),
    };
    let call: MintCall = batch.call(&request);

    assert_eq!(Some(call.contract), proxy.wrap_contract());
    assert_eq!(
        Some((call.contract.clone(), 10)),
        forwarded(&env, &batch)
    );
    assert_eq!(call.function(), "mint_wrap");
    match call.arguments() {
        [Argument::Address(a), Argument::U64(b), Argument::Symbol(c), Argument::Bytes32(d), Argument::U32(e), Argument::Bytes64(g)] =>
        {
            assert_eq!(a, &user);
            assert_eq!(b, 202605);
            assert_eq!(c, &archetype);
            assert_eq!(d, &data_hash);
            assert_eq!(e, 1);
            assert_eq!(g, &signature);
        }
        other => panic!("unexpected arguments: {other:?}"),
    }
}
