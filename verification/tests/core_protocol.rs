//! The register memoization laws and the transaction exclusivity protocol,
//! exercised on concrete values.

use uow_core::active::ActiveTransaction;
use uow_core::error::Error;
use uow_core::register::Register;
use uow_core::resolver::{Resolver, TxProducer};
use uow_core::store::TransactionStore;

fn live_handles(store: &TransactionStore, id: u64) -> Option<u64> {
    store.live.iter().find(|r| r.id == id).map(|r| r.handles)
}

#[test]
fn once_slot_produces_at_most_once() {
    let mut store = TransactionStore::new();
    let base = Resolver::default();
    let mut uow = base.with_active_transaction(Register::once(TxProducer::BeginTransaction));

    let t1 = uow.active_transaction(&mut store);
    let t2 = uow.active_transaction(&mut store);
    let t3 = uow.active_transaction(&mut store);

    // The producer ran exactly once; every resolution shares its transaction.
    assert_eq!(uow.transactions.active_transaction.producer_runs(), 1);
    assert_eq!(t1.get().id, t2.get().id);
    assert_eq!(t2.get().id, t3.get().id);
    // memo + three returned handles
    assert_eq!(live_handles(&store, t1.get().id), Some(4));
}

#[test]
fn factory_slot_produces_every_time() {
    let mut store = TransactionStore::new();
    let mut base = Resolver::default();

    let t1 = base.active_transaction(&mut store);
    let t2 = base.active_transaction(&mut store);
    let t3 = base.active_transaction(&mut store);

    // Three resolutions, three producer runs, each a fresh no-op handle.
    assert_eq!(base.transactions.active_transaction.producer_runs(), 3);
    assert_eq!(t1.get().id, 0);
    assert_eq!(t2.get().id, 0);
    assert_eq!(t3.get().id, 0);
    assert!(store.live.is_empty());
}

#[test]
fn sole_holder_commit_succeeds() {
    let mut store = TransactionStore::new();
    let t = ActiveTransaction::begin(&mut store);
    let id = t.get().id;

    assert_eq!(live_handles(&store, id), Some(1));
    assert!(t.commit(&mut store).is_ok());
    // `t` is moved out by commit; the transaction is finished and recorded.
    assert_eq!(live_handles(&store, id), None);
    assert!(store.committed.contains(&id));
}

#[test]
fn shared_commit_fails_and_leaves_other_holder_usable() {
    let mut store = TransactionStore::new();
    let t = ActiveTransaction::begin(&mut store);
    let id = t.get().id;
    let other = t.share(&mut store);

    assert_eq!(live_handles(&store, id), Some(2));
    // Two holders: committing one fails and commits nothing.
    assert_eq!(t.commit(&mut store), Err(Error::TransactionInUse));
    assert!(!store.committed.contains(&id));
    assert_eq!(live_handles(&store, id), Some(1));
    // The other holder is unaffected and can still commit.
    assert!(other.commit(&mut store).is_ok());
    assert!(store.committed.contains(&id));
}

#[test]
fn shared_cancel_is_swallowed() {
    let mut store = TransactionStore::new();
    let t = ActiveTransaction::begin(&mut store);
    let id = t.get().id;
    let other = t.share(&mut store);

    // Cancelling one of two holders deliberately does nothing but drop it.
    t.cancel(&mut store);
    assert_eq!(live_handles(&store, id), Some(1));
    // Cancelling the last holder finishes the transaction, uncommitted.
    other.cancel(&mut store);
    assert_eq!(live_handles(&store, id), None);
    assert!(!store.committed.contains(&id));
}

#[test]
fn none_transaction_commits_trivially() {
    let mut store = TransactionStore::new();
    let t = ActiveTransaction::none();
    assert_eq!(t.get().id, 0);
    assert!(t.commit(&mut store).is_ok());
    assert!(store.live.is_empty());
    assert!(store.committed.is_empty());
}

#[test]
fn derived_scope_keeps_unrelated_slots() {
    let mut store = TransactionStore::new();
    let mut parent = Resolver::default();

    // Resolve an unrelated slot on the parent so it is memoized.
    let parent_store = parent.order_store();
    assert_eq!(parent.orders.order_store.producer_runs(), 1);

    // Derive a child scope that replaces only the active-transaction slot.
    let mut child = parent.with_active_transaction(Register::once(TxProducer::BeginTransaction));
    let child_store = child.order_store();

    // The unrelated slot resolves to the same value without a new run.
    assert_eq!(parent_store, child_store);
    assert_eq!(child.orders.order_store.producer_runs(), 1);

    let _ = child.active_transaction(&mut store);
    child.dispose(&mut store);
}

#[test]
fn independent_units_of_work_do_not_disturb_each_other() {
    let mut store = TransactionStore::new();
    let base = Resolver::default();

    // Two units of work started from the same base scope, interleaved.
    let mut uow1 = base.with_active_transaction(Register::once(TxProducer::BeginTransaction));
    let mut uow2 = base.with_active_transaction(Register::once(TxProducer::BeginTransaction));
    let t1 = uow1.active_transaction(&mut store);
    let t2 = uow2.active_transaction(&mut store);

    assert_ne!(t1.get().id, t2.get().id);
    let id1 = t1.get().id;
    let id2 = t2.get().id;

    // Finishing the first unit of work leaves the second's handle count
    // untouched, so its exclusivity check is unaffected.
    uow1.dispose(&mut store);
    assert!(t1.commit(&mut store).is_ok());
    assert_eq!(live_handles(&store, id2), Some(2));

    uow2.dispose(&mut store);
    assert!(t2.commit(&mut store).is_ok());
    assert!(store.committed.contains(&id1));
    assert!(store.committed.contains(&id2));
}
