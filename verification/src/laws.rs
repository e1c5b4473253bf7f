//! What holds of the proxy as a whole: across any history of invocations, and
//! of a batch against any registry.

use crate::batch::{BatchView, Reply, StepView};
use crate::error::ProxyError;
use crate::instance::{HostWrite, InstanceKey};
use crate::proxy::{
    admitted, initialize_writes, initialized, retarget_writes, retargeted, Authorization,
    BatchMintProxy,
};
use crate::request::{CallView, MintRequest};
use soroban_sdk::{Address, Val};
use vstd::prelude::*;

verus! {

/// An invocation of the proxy that may change its entries, or a batch.
pub ghost enum Invocation {
    Initialize { admin: Address, wrap_contract: Address },
    SetWrapContract { authorization: Authorization, wrap_contract: Address },
    BatchMintWrap { items: Seq<Val> },
}

/// The entries after an invocation: one that is refused leaves them as they
/// were, and a batch never touches them.
pub open spec fn performed(
    entries: Map<InstanceKey, Address>,
    invocation: Invocation,
) -> Map<InstanceKey, Address> {
    let result = match invocation {
        Invocation::Initialize { admin, wrap_contract } => initialized(
            entries,
            admin,
            wrap_contract,
        ),
        Invocation::SetWrapContract { authorization, wrap_contract } => retargeted(
            entries,
            authorization,
            wrap_contract,
        ),
        Invocation::BatchMintWrap { items } => Ok(entries),
    };
    match result {
        Ok(after) => after,
        Err(_) => entries,
    }
}

/// The entries of a newly deployed proxy after a history of invocations.
pub open spec fn entries_after(history: Seq<Invocation>) -> Map<InstanceKey, Address>
    decreases history.len(),
{
    if history.len() == 0 {
        Map::empty()
    } else {
        performed(entries_after(history.drop_last()), history.last())
    }
}

/// The proxy has an admin exactly when it has a registry.
pub proof fn entries_come_together(history: Seq<Invocation>)
    ensures
        entries_after(history).dom().contains(InstanceKey::Admin) <==> entries_after(
            history,
        ).dom().contains(InstanceKey::WrapContract),
    decreases history.len(),
{
    if history.len() > 0 {
        entries_come_together(history.drop_last());
    }
}

/// Initialization is final: whatever is invoked later, the admin stays who it
/// was, and a further `initialize` is refused.
pub proof fn initialization_is_final(
    history: Seq<Invocation>,
    later: Seq<Invocation>,
    admin: Address,
    wrap_contract: Address,
)
    requires
        entries_after(history).dom().contains(InstanceKey::Admin),
    ensures
        entries_after(history + later).dom().contains(InstanceKey::Admin),
        entries_after(history + later)[InstanceKey::Admin] == entries_after(
            history,
        )[InstanceKey::Admin],
        initialized(entries_after(history + later), admin, wrap_contract) == Err::<
            Map<InstanceKey, Address>,
            _,
        >(ProxyError::AlreadyInitialized),
    decreases later.len(),
{
    if later.len() == 0 {
        assert(history + later =~= history);
    } else {
        initialization_is_final(history, later.drop_last(), admin, wrap_contract);
        assert((history + later).drop_last() =~= history + later.drop_last());
    }
}

/// Once the proxy is initialized, its entries change in one way only: the
/// registry is replaced by one that the admin authorized.
pub proof fn only_the_admin_retargets(history: Seq<Invocation>, invocation: Invocation)
    requires
        entries_after(history).dom().contains(InstanceKey::Admin),
        entries_after(history.push(invocation)) != entries_after(history),
    ensures
        invocation matches Invocation::SetWrapContract { authorization, wrap_contract }
            && authorization == Authorization::Granted && entries_after(history.push(invocation))
            == entries_after(history).insert(InstanceKey::WrapContract, wrap_contract),
{
    assert(history.push(invocation).drop_last() =~= history);
}

/// Until `initialize` is invoked, no batch and no change of registry is
/// accepted.
pub proof fn nothing_works_before_initialize(
    history: Seq<Invocation>,
    authorization: Authorization,
    wrap_contract: Address,
    items: Seq<Val>,
)
    requires
        forall|i: int| 0 <= i < history.len() ==> !(#[trigger] history[i] is Initialize),
    ensures
        retargeted(entries_after(history), authorization, wrap_contract) == Err::<
            Map<InstanceKey, Address>,
            _,
        >(ProxyError::NotInitialized),
        admitted(entries_after(history), items) == Err::<BatchView, _>(ProxyError::NotInitialized),
    decreases history.len(),
{
    if history.len() > 0 {
        assert(forall|i: int|
            0 <= i < history.drop_last().len() ==> history.drop_last()[i] == #[trigger] history[i]);
        nothing_works_before_initialize(history.drop_last(), authorization, wrap_contract, items);
        assert(!(history[history.len() - 1] is Initialize));
        entries_come_together(history.drop_last());
    }
}

/// The entries that a proxy stands for are its admin and its registry, each
/// present exactly when the proxy has it.
pub proof fn entries_are_admin_and_registry(proxy: BatchMintProxy)
    ensures
        proxy@.dom().contains(InstanceKey::Admin) <==> proxy.admin is Some,
        proxy@.dom().contains(InstanceKey::WrapContract) <==> proxy.wrap_contract is Some,
        proxy.admin matches Some(admin) ==> proxy@[InstanceKey::Admin] == admin,
        proxy.wrap_contract matches Some(registry) ==> proxy@[InstanceKey::WrapContract]
            == registry,
{
}

/// A proxy without an admin can be initialized by anyone, with any admin and
/// any registry, and then has exactly these. One with an admin cannot.
pub proof fn initialize_configures_an_unconfigured_proxy(
    entries: Map<InstanceKey, Address>,
    admin: Address,
    wrap_contract: Address,
)
    ensures
        !entries.dom().contains(InstanceKey::Admin) <==> initialized(
            entries,
            admin,
            wrap_contract,
        ) is Ok,
        initialized(entries, admin, wrap_contract) matches Ok(after) ==> {
            &&& forall|key: InstanceKey| #[trigger] after.dom().contains(key)
            &&& after[InstanceKey::Admin] == admin
            &&& after[InstanceKey::WrapContract] == wrap_contract
        },
        initialized(entries, admin, wrap_contract) matches Err(error)
            ==> error is AlreadyInitialized,
{
}

/// A change of registry goes through exactly when there is an admin and the
/// admin agreed. It replaces the registry and keeps the admin. Without an
/// admin it fails whatever the authorization; with one, for want of it.
pub proof fn retargeting_replaces_the_registry_alone(
    entries: Map<InstanceKey, Address>,
    authorization: Authorization,
    wrap_contract: Address,
)
    ensures
        entries.dom().contains(InstanceKey::Admin) && authorization is Granted <==> retargeted(
            entries,
            authorization,
            wrap_contract,
        ) is Ok,
        retargeted(entries, authorization, wrap_contract) matches Ok(after) ==> {
            &&& after.dom().contains(InstanceKey::Admin)
            &&& after[InstanceKey::Admin] == entries[InstanceKey::Admin]
            &&& after.dom().contains(InstanceKey::WrapContract)
            &&& after[InstanceKey::WrapContract] == wrap_contract
        },
        retargeted(entries, authorization, wrap_contract) matches Err(error) ==> {
            &&& error is NotInitialized <==> !entries.dom().contains(InstanceKey::Admin)
            &&& error is Unauthorized <==> entries.dom().contains(InstanceKey::Admin)
        },
{
}

/// Of two changes of registry in a row, the second decides.
pub proof fn the_last_retargeting_decides(
    entries: Map<InstanceKey, Address>,
    first: Address,
    second: Address,
)
    requires
        entries.dom().contains(InstanceKey::Admin),
    ensures
        retargeted(entries, Authorization::Granted, first) matches Ok(between) && retargeted(
            between,
            Authorization::Granted,
            second,
        ) == retargeted(entries, Authorization::Granted, second),
{
    let between = retargeted(entries, Authorization::Granted, first)->Ok_0;
    assert(between.insert(InstanceKey::WrapContract, second) =~= entries.insert(
        InstanceKey::WrapContract,
        second,
    ));
}

/// A batch is admitted exactly when the proxy has a registry and the batch
/// holds at least one item and at most a hundred. It then starts with all of
/// its items, none forwarded, at that registry.
pub proof fn batches_of_one_to_a_hundred_items_are_admitted(
    entries: Map<InstanceKey, Address>,
    items: Seq<Val>,
)
    ensures
        entries.dom().contains(InstanceKey::WrapContract) && 1 <= items.len() <= 100 <==> admitted(
            entries,
            items,
        ) is Ok,
        admitted(entries, items) matches Ok(batch) ==> {
            &&& batch.registry == entries[InstanceKey::WrapContract]
            &&& batch.items == items
            &&& batch.accepted == 0
            &&& !batch.refused
        },
{
}

/// A batch is refused for its size with the error that names the size: empty
/// without an item, too large with more than a hundred.
pub proof fn a_refused_batch_says_why(entries: Map<InstanceKey, Address>, items: Seq<Val>)
    ensures
        !entries.dom().contains(InstanceKey::WrapContract) <==> admitted(entries, items) == Err::<
            BatchView,
            _,
        >(ProxyError::NotInitialized),
        entries.dom().contains(InstanceKey::WrapContract) && items.len() == 0 <==> admitted(
            entries,
            items,
        ) == Err::<BatchView, _>(ProxyError::EmptyBatch),
        entries.dom().contains(InstanceKey::WrapContract) && items.len() > 100 <==> admitted(
            entries,
            items,
        ) == Err::<BatchView, _>(ProxyError::BatchTooLarge),
{
}

/// What may be forwarded together may be forwarded in parts: if a batch is
/// admitted, so is each of the two that it is split into, unless that part is
/// empty.
pub proof fn parts_of_an_admitted_batch_are_admitted(
    entries: Map<InstanceKey, Address>,
    items: Seq<Val>,
    at: int,
)
    requires
        admitted(entries, items) is Ok,
        0 < at < items.len(),
    ensures
        admitted(entries, items.take(at)) is Ok,
        admitted(entries, items.skip(at)) is Ok,
{
}

/// Only the number of items decides on admission, not what they hold.
pub proof fn admission_goes_by_size(
    entries: Map<InstanceKey, Address>,
    items: Seq<Val>,
    others: Seq<Val>,
)
    requires
        items.len() == others.len(),
    ensures
        admitted(entries, items) is Ok <==> admitted(entries, others) is Ok,
        admitted(entries, items) matches Err(error) ==> admitted(entries, others) == Err::<
            BatchView,
            _,
        >(error),
{
}

/// Every series of writes stores an entry and ends by extending the
/// instance's lifetime, from whatever is left of it, to one year of
/// five-second ledgers.
pub proof fn every_write_extends_the_lifetime()
    ensures
        initialize_writes().len() >= 2,
        retarget_writes().len() >= 2,
        initialize_writes().last() == (HostWrite::ExtendTtl {
            threshold: 6_307_200,
            extend_to: 6_307_200,
        }),
        retarget_writes().last() == initialize_writes().last(),
        initialize_writes().contains(HostWrite::Store(InstanceKey::Admin)),
        initialize_writes().contains(HostWrite::Store(InstanceKey::WrapContract)),
        retarget_writes().contains(HostWrite::Store(InstanceKey::WrapContract)),
        !retarget_writes().contains(HostWrite::Store(InstanceKey::Admin)),
{
    assert(initialize_writes()[0] == HostWrite::Store(InstanceKey::Admin));
    assert(initialize_writes()[1] == HostWrite::Store(InstanceKey::WrapContract));
    assert(retarget_writes()[0] == HostWrite::Store(InstanceKey::WrapContract));
}

/// The stored entries after a series of writes by a proxy whose own entries
/// are `own`.
pub open spec fn stored(
    ledger: Map<InstanceKey, Address>,
    own: Map<InstanceKey, Address>,
    writes: Seq<HostWrite>,
) -> Map<InstanceKey, Address>
    decreases writes.len(),
{
    if writes.len() == 0 {
        ledger
    } else {
        let before = stored(ledger, own, writes.drop_last());
        match writes.last() {
            HostWrite::Store(key) => before.insert(key, own[key]),
            HostWrite::ExtendTtl { threshold, extend_to } => before,
        }
    }
}

/// The writes that `initialize` and `set_wrap_contract` list are enough:
/// performed on a ledger that held the entries before, they leave it with the
/// entries after.
pub proof fn writes_are_complete(
    entries: Map<InstanceKey, Address>,
    admin: Address,
    wrap_contract: Address,
    authorization: Authorization,
)
    ensures
        initialized(entries, admin, wrap_contract) matches Ok(after) ==> stored(
            entries,
            after,
            initialize_writes(),
        ) == after,
        retargeted(entries, authorization, wrap_contract) matches Ok(after) ==> stored(
            entries,
            after,
            retarget_writes(),
        ) == after,
{
    reveal_with_fuel(stored, 4);
    assert(initialize_writes().drop_last().drop_last().drop_last() =~= Seq::empty());
    assert(retarget_writes().drop_last().drop_last() =~= Seq::empty());
    if let Ok(after) = initialized(entries, admin, wrap_contract) {
        assert(stored(entries, after, initialize_writes()) =~= after);
    }
    if let Ok(after) = retargeted(entries, authorization, wrap_contract) {
        assert(stored(entries, after, retarget_writes()) =~= after);
    }
}

/// A batch after a series of replies.
pub open spec fn after_replies(batch: BatchView, replies: Seq<Reply>) -> BatchView
    decreases replies.len(),
{
    if replies.len() == 0 {
        batch
    } else {
        after_replies(batch, replies.drop_last()).after(replies.last())
    }
}

/// Whether each of the first `count` replies is there and accepts.
pub open spec fn all_accepted(replies: Seq<Reply>, count: nat) -> bool {
    &&& count <= replies.len()
    &&& forall|i: int| 0 <= i < count ==> replies[i] == Reply::Accepted
}

/// Whether one of the first `count` replies refuses.
pub open spec fn one_refused(replies: Seq<Reply>, count: nat) -> bool {
    exists|i: int| 0 <= i < count && i < replies.len() && replies[i] == Reply::Refused
}

/// A batch returns exactly when every item was accepted, and the number that
/// it returns is the number of its items. It aborts exactly when an item was
/// refused. Otherwise as many items were accepted as there were replies, and
/// the next one in order is forwarded, to the same registry.
pub proof fn batch_ends_as_replied(registry: Address, items: Seq<Val>, replies: Seq<Reply>)
    ensures
        ({
            let step = after_replies(BatchView::fresh(registry, items), replies).step();
            &&& step is Return <==> all_accepted(replies, items.len())
            &&& step matches StepView::Return(count) ==> count == items.len()
            &&& step is Abort <==> one_refused(replies, items.len())
            &&& !all_accepted(replies, items.len()) && !one_refused(replies, items.len()) ==> {
                &&& replies.len() < items.len()
                &&& step == StepView::Forward { registry, item: items[replies.len() as int] }
            }
        }),
{
    batch_state(registry, items, replies);
    let batch = after_replies(BatchView::fresh(registry, items), replies);
    if batch.refused {
        assert(replies[batch.accepted as int] == Reply::Refused);
    }
}

/// A batch of one to a hundred items on a proxy with a registry runs its whole
/// length: as long as every reply accepts, the items go out one by one, in
/// order, each to that registry; after the last one their number is returned;
/// and a refusal at any of them ends the batch there, for good.
pub proof fn an_admitted_batch_forwards_every_item(
    entries: Map<InstanceKey, Address>,
    items: Seq<Val>,
    replies: Seq<Reply>,
)
    requires
        entries.dom().contains(InstanceKey::WrapContract),
        1 <= items.len() <= 100,
    ensures
        admitted(entries, items) matches Ok(batch) && {
            let step = after_replies(batch, replies).step();
            if exists|i: int|
                0 <= i < items.len() && i < replies.len() && replies[i] == Reply::Refused {
                step == StepView::Abort
            } else if replies.len() < items.len() {
                step == (StepView::Forward {
                    registry: entries[InstanceKey::WrapContract],
                    item: items[replies.len() as int],
                })
            } else {
                step == StepView::Return(items.len())
            }
        },
{
    let registry = entries[InstanceKey::WrapContract];
    batch_ends_as_replied(registry, items, replies);
    batch_state(registry, items, replies);
    assert(one_refused(replies, items.len()) <==> exists|i: int|
        0 <= i < items.len() && i < replies.len() && replies[i] == Reply::Refused);
    if !one_refused(replies, items.len()) && replies.len() >= items.len() {
        assert forall|i: int| 0 <= i < items.len() implies replies[i] == Reply::Accepted by {
            if replies[i] != Reply::Accepted {
                assert(replies[i] == Reply::Refused);
            }
        }
    }
}

/// Where a batch stands after a series of replies.
proof fn batch_state(registry: Address, items: Seq<Val>, replies: Seq<Reply>)
    ensures
        ({
            let batch = after_replies(BatchView::fresh(registry, items), replies);
            &&& batch.registry == registry
            &&& batch.items == items
            &&& batch.accepted <= items.len()
            &&& batch.accepted <= replies.len()
            &&& all_accepted(replies, batch.accepted)
            &&& batch.refused ==> batch.accepted < items.len() && batch.accepted < replies.len()
                && replies[batch.accepted as int] == Reply::Refused
            &&& batch.open() ==> batch.accepted == replies.len()
        }),
    decreases replies.len(),
{
    if replies.len() > 0 {
        let before = replies.drop_last();
        batch_state(registry, items, before);
        assert(forall|i: int| 0 <= i < before.len() ==> before[i] == replies[i]);
    }
}

/// How an item is read: the request that it holds, or `None` where it holds
/// none.
pub type Reader = spec_fn(Val) -> Option<MintRequest>;

/// What the registries make of a call: the ledger after the mint, or `None`
/// where it is refused. Nothing else is known of them.
pub type Registry<S> = spec_fn(S, CallView) -> Option<S>;

/// The ledger once a batch has run its steps, and the count that it returned,
/// or `None` if it aborted.
pub open spec fn ran<S>(
    read: Reader,
    mint: Registry<S>,
    ledger: S,
    batch: BatchView,
) -> (S, Option<nat>)
    decreases
            batch.items.len() - batch.accepted,
            (if batch.refused {
                0nat
            } else {
                1nat
            }),
{
    match batch.step() {
        StepView::Forward { registry, item } => {
            let outcome = match read(item) {
                Some(request) => mint(ledger, batch.call(request)),
                None => None,
            };
            match outcome {
                Some(after) => ran(read, mint, after, batch.after(Reply::Accepted)),
                None => ran(read, mint, ledger, batch.after(Reply::Refused)),
            }
        },
        StepView::Return(count) => (ledger, Some(count)),
        StepView::Abort => (ledger, None),
    }
}

/// How an invocation of `batch_mint_wrap` ends.
pub ghost enum Outcome {
    /// The proxy refused the batch.
    Refused(ProxyError),
    /// A forwarded call failed.
    Aborted,
    /// Every item was minted.
    Returned(nat),
}

/// An invocation of `batch_mint_wrap` on a host that keeps what a returning
/// invocation did and rolls back one that fails.
pub open spec fn invoked<S>(
    read: Reader,
    mint: Registry<S>,
    ledger: S,
    entries: Map<InstanceKey, Address>,
    items: Seq<Val>,
) -> (S, Outcome) {
    match admitted(entries, items) {
        Err(error) => (ledger, Outcome::Refused(error)),
        Ok(batch) => match ran(read, mint, ledger, batch) {
            (after, Some(count)) => (after, Outcome::Returned(count)),
            (_, None) => (ledger, Outcome::Aborted),
        },
    }
}

/// The ledger after one item was minted at a registry, or `None` where it
/// holds no request or the registry refuses.
pub open spec fn minted<S>(
    read: Reader,
    mint: Registry<S>,
    ledger: S,
    registry: Address,
    item: Val,
) -> Option<S> {
    match read(item) {
        Some(request) => mint(ledger, CallView { contract: registry, request }),
        None => None,
    }
}

/// The ledger after every item was minted at one registry, first to last, or
/// `None` where one of them was not.
pub open spec fn all_minted<S>(
    read: Reader,
    mint: Registry<S>,
    ledger: S,
    registry: Address,
    items: Seq<Val>,
) -> Option<S>
    decreases items.len(),
{
    if items.len() == 0 {
        Some(ledger)
    } else {
        match all_minted(read, mint, ledger, registry, items.drop_last()) {
            Some(before) => minted(read, mint, before, registry, items.last()),
            None => None,
        }
    }
}

/// From `accepted` mints on, a batch runs to the end of its items or to the
/// first refusal.
proof fn run_from<S>(read: Reader, mint: Registry<S>, ledger: S, at: S, batch: BatchView)
    requires
        !batch.refused,
        batch.accepted <= batch.items.len(),
        all_minted(read, mint, ledger, batch.registry, batch.items.take(batch.accepted as int))
            == Some(at),
    ensures
        match all_minted(read, mint, ledger, batch.registry, batch.items) {
            Some(after) => ran(read, mint, at, batch) == (after, Some(batch.items.len())),
            None => ran(read, mint, at, batch).1 is None,
        },
    decreases batch.items.len() - batch.accepted,
{
    let k = batch.accepted as int;
    if k == batch.items.len() {
        assert(batch.items.take(k) =~= batch.items);
    } else {
        let longer = batch.items.take(k + 1);
        assert(longer.drop_last() =~= batch.items.take(k));
        assert(longer.last() == batch.items[k]);
        match minted(read, mint, at, batch.registry, batch.items[k]) {
            Some(after) => {
                run_from(read, mint, ledger, after, batch.after(Reply::Accepted));
            },
            None => {
                reveal_with_fuel(ran, 2);
                refusal_spreads(read, mint, ledger, batch.registry, batch.items, k + 1);
            },
        }
    }
}

/// If the first items of a batch cannot all be minted, all of them cannot.
proof fn refusal_spreads<S>(
    read: Reader,
    mint: Registry<S>,
    ledger: S,
    registry: Address,
    items: Seq<Val>,
    count: int,
)
    requires
        0 <= count <= items.len(),
        all_minted(read, mint, ledger, registry, items.take(count)) is None,
    ensures
        all_minted(read, mint, ledger, registry, items) is None,
    decreases items.len(),
{
    if count == items.len() {
        assert(items.take(count) =~= items);
    } else {
        assert(items.drop_last().take(count) =~= items.take(count));
        refusal_spreads(read, mint, ledger, registry, items.drop_last(), count);
    }
}

/// A batch is all or nothing, whatever the registry does: either every item
/// is minted by a call of its own, in order, at the configured registry, and
/// the number of items is returned, or the invocation fails and the ledger is
/// as it was before.
pub proof fn batch_is_atomic<S>(
    read: Reader,
    mint: Registry<S>,
    ledger: S,
    entries: Map<InstanceKey, Address>,
    items: Seq<Val>,
)
    ensures
        invoked(read, mint, ledger, entries, items) == match admitted(entries, items) {
            Err(error) => (ledger, Outcome::Refused(error)),
            Ok(batch) => match all_minted(
                read,
                mint,
                ledger,
                entries[InstanceKey::WrapContract],
                items,
            ) {
                Some(after) => (after, Outcome::Returned(items.len())),
                None => (ledger, Outcome::Aborted),
            },
        },
{
    if let Ok(batch) = admitted(entries, items) {
        assert(batch.items.take(0) =~= Seq::empty());
        run_from(read, mint, ledger, ledger, batch);
    }
}

/// A batch of a legal size whose items the registry mints one after the other
/// is minted whole, and the invocation returns their number. One of any other
/// size mints nothing, and neither does one on a proxy without a registry.
pub proof fn a_batch_is_minted_whole_or_not_at_all<S>(
    read: Reader,
    mint: Registry<S>,
    ledger: S,
    entries: Map<InstanceKey, Address>,
    items: Seq<Val>,
)
    ensures
        entries.dom().contains(InstanceKey::WrapContract) && 1 <= items.len() <= 100 ==> match (
        all_minted(read, mint, ledger, entries[InstanceKey::WrapContract], items)) {
            Some(after) => invoked(read, mint, ledger, entries, items) == (
                after,
                Outcome::Returned(items.len()),
            ),
            None => invoked(read, mint, ledger, entries, items) == (ledger, Outcome::Aborted),
        },
        entries.dom().contains(InstanceKey::WrapContract) && items.len() == 0 ==> invoked(
            read,
            mint,
            ledger,
            entries,
            items,
        ) == (ledger, Outcome::Refused(ProxyError::EmptyBatch)),
        entries.dom().contains(InstanceKey::WrapContract) && items.len() > 100 ==> invoked(
            read,
            mint,
            ledger,
            entries,
            items,
        ) == (ledger, Outcome::Refused(ProxyError::BatchTooLarge)),
        !entries.dom().contains(InstanceKey::WrapContract) ==> invoked(
            read,
            mint,
            ledger,
            entries,
            items,
        ) == (ledger, Outcome::Refused(ProxyError::NotInitialized)),
{
    batch_is_atomic(read, mint, ledger, entries, items);
}

/// One item that is not minted, wherever it stands in the batch and whatever
/// stands around it, undoes the whole batch.
pub proof fn one_refusal_undoes_the_batch<S>(
    read: Reader,
    mint: Registry<S>,
    ledger: S,
    entries: Map<InstanceKey, Address>,
    items: Seq<Val>,
    position: int,
)
    requires
        admitted(entries, items) is Ok,
        0 <= position < items.len(),
        all_minted(
            read,
            mint,
            ledger,
            entries[InstanceKey::WrapContract],
            items.take(position),
        ) matches Some(before) ==> minted(
            read,
            mint,
            before,
            entries[InstanceKey::WrapContract],
            items[position],
        ) is None,
    ensures
        invoked(read, mint, ledger, entries, items) == (ledger, Outcome::Aborted),
{
    let registry = entries[InstanceKey::WrapContract];
    let longer = items.take(position + 1);
    assert(longer.drop_last() =~= items.take(position));
    refusal_spreads(read, mint, ledger, registry, items, position + 1);
    batch_is_atomic(read, mint, ledger, entries, items);
}

/// After a change of registry, every item that a batch forwards, and every
/// call by which it does, goes to the new registry.
pub proof fn retargeting_redirects_batches(
    entries: Map<InstanceKey, Address>,
    wrap_contract: Address,
    items: Seq<Val>,
    replies: Seq<Reply>,
    request: MintRequest,
)
    ensures
        retargeted(entries, Authorization::Granted, wrap_contract) matches Ok(after) ==> (admitted(
            after,
            items,
        ) matches Ok(batch) ==> {
            let now = after_replies(batch, replies);
            &&& now.step() matches StepView::Forward { registry, item } ==> registry
                == wrap_contract
            &&& now.call(request) == (CallView { contract: wrap_contract, request })
        }),
{
    batch_state(wrap_contract, items, replies);
}

/// Whatever the registry has answered so far, a batch keeps its registry and
/// its items, and each call that it makes carries the request unaltered to
/// that registry.
pub proof fn a_batch_keeps_its_registry(batch: BatchView, replies: Seq<Reply>, request: MintRequest)
    ensures
        after_replies(batch, replies).registry == batch.registry,
        after_replies(batch, replies).items == batch.items,
        after_replies(batch, replies).call(request).contract == batch.registry,
        after_replies(batch, replies).call(request).request == request,
    decreases replies.len(),
{
    if replies.len() > 0 {
        a_batch_keeps_its_registry(batch, replies.drop_last(), request);
    }
}

/// No two errors share a code.
pub proof fn codes_tell_errors_apart(a: ProxyError, b: ProxyError)
    requires
        a.spec_code() == b.spec_code(),
    ensures
        a == b,
{
}

} // verus!
