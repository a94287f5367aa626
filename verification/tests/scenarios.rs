//! End-to-end unit-of-work scenarios through the orchestrator.

use uow_core::customers::CreateCustomer;
use uow_core::error::Error;
use uow_core::ids::{CustomerId, OrderId};
use uow_core::orders::{CreateOrder, GetOrder};
use uow_core::resolver::App;
use uow_core::store::TransactionStore;

#[test]
fn committed_unit_of_work_is_observable_later() {
    let app = App::new();
    let store = TransactionStore::new();

    // One unit of work creates a customer and an order and succeeds.
    let (store, created) = app.transaction(store, |mut r, mut s| {
        let outcome = r
            .create_customer_command(&mut s, CreateCustomer { id: CustomerId(1) })
            .and_then(|_| {
                r.create_order_command(
                    &mut s,
                    CreateOrder { id: OrderId(1), customer_id: CustomerId(1) },
                )
            });
        (r, s, outcome.map(|_| OrderId(1)))
    });
    assert_eq!(created, Ok(OrderId(1)));

    // A fresh unit of work observes the created order.
    let (_store, seen) = app.transaction(store, |mut r, s| {
        let found = r.get_order_query(&s, GetOrder { id: OrderId(1) }).unwrap();
        (r, s, Ok::<bool, Error>(found.is_some()))
    });
    assert_eq!(seen, Ok(true));
}

#[test]
fn failed_unit_of_work_leaves_exactly_the_writes_made() {
    let app = App::new();
    let store = TransactionStore::new();

    // The body creates a customer, then tries to create the same customer
    // again; the second attempt fails and the body propagates the error.
    let (store, outcome) = app.transaction(store, |mut r, mut s| {
        let first = r.create_customer_command(&mut s, CreateCustomer { id: CustomerId(7) });
        assert!(first.is_ok());
        let second = r.create_customer_command(&mut s, CreateCustomer { id: CustomerId(7) });
        (r, s, second)
    });
    assert_eq!(outcome, Err(Error::AlreadyExists));

    // The transaction was abandoned, not committed, and the in-memory store
    // applies writes as they happen: exactly one customer exists.
    assert!(store.committed.is_empty());
    assert_eq!(store.customers.len(), 1);
    assert_eq!(store.customers[0].id, CustomerId(7));
    assert!(store.live.is_empty());
}

#[test]
fn leaked_handle_turns_success_into_commit_failure() {
    let app = App::new();
    let store = TransactionStore::new();

    // The body resolves an extra transaction handle and drops it without
    // giving its share back, so at commit time the orchestrator is not the
    // sole holder: the unit of work is reported as an error even though the
    // body itself succeeded.
    let (store, outcome) = app.transaction(store, |mut r, mut s| {
        let _leaked = r.active_transaction(&mut s);
        (r, s, Ok::<u8, Error>(1))
    });
    assert_eq!(outcome, Err(Error::TransactionInUse));
    assert!(store.committed.is_empty());
    assert_eq!(store.live.len(), 1);
}

#[test]
fn unit_of_work_transaction_is_always_finalized() {
    let app = App::new();
    let store = TransactionStore::new();

    let (store, r1) = app.transaction(store, |r, s| (r, s, Ok::<u8, Error>(1)));
    assert_eq!(r1, Ok(1));
    let (store, r2) = app.transaction(store, |r, s| (r, s, Err::<u8, Error>(Error::BadInput)));
    assert_eq!(r2, Err(Error::BadInput));

    // Both transactions left the live set: the first by commit, the second
    // by cancellation.
    assert!(store.live.is_empty());
    assert_eq!(store.committed, vec![1]);
}
