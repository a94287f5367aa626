//! Commands and queries over customers.

use vstd::prelude::*;

use crate::active::ActiveTransaction;
use crate::entities::Customer;
use crate::error::Error;
use crate::ids::CustomerId;
use crate::resolver::Resolver;
use crate::store::TransactionStore;

verus! {

/// Input for creating a customer.
#[derive(Clone, Copy, PartialEq, Eq, Structural, Debug)]
pub struct CreateCustomer {
    pub id: CustomerId,
}

/// Input for getting a customer.
#[derive(Clone, Copy, PartialEq, Eq, Structural, Debug)]
pub struct GetCustomer {
    pub id: CustomerId,
}

/// Create the customer named by `command`, writing through `transaction`.
/// Fails, leaving the store untouched, when a customer with that id already
/// exists.
pub fn execute_create_customer(
    command: CreateCustomer,
    transaction: &ActiveTransaction,
    store: &mut TransactionStore,
) -> (r: Result<(), Error>)
    requires
        old(store).wf(),
        transaction.valid(*old(store)),
    ensures
        final(store).wf(),
        final(store).tx_state_eq(*old(store)),
        final(store).orders == old(store).orders,
        final(store).products == old(store).products,
        final(store).next_line_item_id == old(store).next_line_item_id,
        old(store).contains_customer(command.id) ==> r == Result::<(), Error>::Err(
            Error::AlreadyExists,
        ) && *final(store) == *old(store),
        !old(store).contains_customer(command.id) ==> {
            &&& r is Ok
            &&& final(store).customers@ == old(store).customers@.push(Customer { id: command.id })
            &&& final(store).spec_customer(command.id) == Some(Customer { id: command.id })
        },
        forall|x: CustomerId|
            x != command.id ==> #[trigger] final(store).spec_customer(x) == old(store).spec_customer(x),
{
    match store.get_customer(command.id) {
        Some(_) => Err(Error::AlreadyExists),
        None => {
            let customer = match Customer::new(command.id) {
                Ok(c) => c,
                Err(e) => {
                    return Err(e);
                }
            };
            store.set_customer(transaction.get(), customer)
        }
    }
}

/// Get the customer named by `query`. Reads never fail.
pub fn execute_get_customer(query: GetCustomer, store: &TransactionStore) -> (r: Result<
    Option<Customer>,
    Error,
>)
    requires
        store.wf(),
    ensures
        r == Result::<Option<Customer>, Error>::Ok(store.spec_customer(query.id)),
{
    Ok(store.get_customer(query.id))
}

impl Resolver {
    /// Create a customer: resolve the customer store and the active
    /// transaction from this scope, run the command through them, and give
    /// the transaction handle back.
    pub fn create_customer_command(
        &mut self,
        store: &mut TransactionStore,
        command: CreateCustomer,
    ) -> (r: Result<(), Error>)
        requires
            old(store).wf(),
            old(self).wf(*old(store)),
            old(self).can_resolve_active(*old(store)),
            old(self).customers.customer_store.runs() < u64::MAX,
        ensures
            final(store).wf(),
            final(self).wf(*final(store)),
            final(self).transactions.active_transaction.strategy() == old(self).transactions.active_transaction.strategy(),
            final(self).transactions.active_transaction.producer() == old(self).transactions.active_transaction.producer(),
            final(self).transactions.active_transaction.runs() <= old(self).transactions.active_transaction.runs() + 1,
            old(self).transactions.active_transaction.memo() is Some ==> final(self).transactions.active_transaction.memo() == old(self).transactions.active_transaction.memo(),
            final(self).orders == old(self).orders,
            final(self).products == old(self).products,
            final(self).customers.customer_store.strategy() == old(self).customers.customer_store.strategy(),
            final(self).customers.customer_store.producer() == old(self).customers.customer_store.producer(),
            final(self).customers.customer_store.runs() <= old(self).customers.customer_store.runs() + 1,
            final(store).orders == old(store).orders,
            final(store).products == old(store).products,
            final(store).next_line_item_id == old(store).next_line_item_id,
            final(store).committed == old(store).committed,
            forall|x: u64|
                old(store).tx_live(x) ==> #[trigger] final(store).tx_live(x) && final(store).tx_handles(x) == old(store).tx_handles(x),
            old(store).contains_customer(command.id) ==> r == Result::<(), Error>::Err(
                Error::AlreadyExists,
            ) && final(store).customers == old(store).customers,
            !old(store).contains_customer(command.id) ==> {
                &&& r is Ok
                &&& final(store).customers@ == old(store).customers@.push(
                    Customer { id: command.id },
                )
                &&& final(store).contains_customer(command.id)
                &&& final(store).spec_customer(command.id) == Some(Customer { id: command.id })
            },
            forall|x: CustomerId|
                x != command.id ==> #[trigger] final(store).spec_customer(x) == old(store).spec_customer(x),
    {
        let _customer_store = self.customer_store();
        let active_transaction = self.active_transaction(store);
        let ghost tid = active_transaction.id();
        let ghost s1 = *store;
        let r = execute_create_customer(command, &active_transaction, store);
        let ghost s2 = *store;
        proof {
            assert(s2.live == s1.live);
            assert forall|x: u64| s1.tx_live(x) implies #[trigger] s2.tx_live(x)
                && s2.tx_handles(x) == s1.tx_handles(x) by {
                assert(s2.live@ == s1.live@);
            }
        }
        active_transaction.cancel(store);
        proof {
            assert forall|x: u64| old(store).tx_live(x) implies #[trigger] store.tx_live(x)
                && store.tx_handles(x) == old(store).tx_handles(x) by {
                let i = choose|i: int|
                    0 <= i < old(store).live@.len() && old(store).live@[i].id == x;
                crate::store::lemma_tx_index(old(store).live@, x, i);
                assert(old(store).tx_handles(x) >= 1);
                if x != tid {
                    assert(s1.tx_live(x) && s1.tx_handles(x) == old(store).tx_handles(x));
                    assert(s2.tx_live(x) && s2.tx_handles(x) == s1.tx_handles(x));
                    assert(store.tx_live(x));
                    assert(store.tx_handles(x) == s2.tx_handles(x));
                } else {
                    assert(s1.tx_handles(x) == old(store).tx_handles(x) + 1);
                    assert(s2.tx_live(x) && s2.tx_handles(x) == s1.tx_handles(x));
                    assert(store.tx_live(x) && store.tx_handles(x) == s2.tx_handles(x) - 1);
                }
            }
            assert(store.spec_customer(command.id) == s2.spec_customer(command.id)) by {
                assert(store.customers@ == s2.customers@);
            }
            assert forall|x: CustomerId| x != command.id implies #[trigger] store.spec_customer(x)
                == old(store).spec_customer(x) by {
                assert(s1.spec_customer(x) == old(store).spec_customer(x)) by {
                    assert(s1.customers@ == old(store).customers@);
                }
                assert(s2.spec_customer(x) == s1.spec_customer(x));
                assert(store.spec_customer(x) == s2.spec_customer(x)) by {
                    assert(store.customers@ == s2.customers@);
                }
            }
        }
        r
    }

    /// Get a customer: resolve the customer store from this scope and run
    /// the query through it.
    pub fn get_customer_query(&mut self, store: &TransactionStore, query: GetCustomer) -> (r:
        Result<Option<Customer>, Error>)
        requires
            store.wf(),
            old(self).customers.customer_store.wf(),
            old(self).customers.customer_store.runs() < u64::MAX,
        ensures
            r == Result::<Option<Customer>, Error>::Ok(store.spec_customer(query.id)),
            final(self).transactions == old(self).transactions,
            final(self).orders == old(self).orders,
            final(self).products == old(self).products,
            final(self).customers.customer_store.wf(),
    {
        let _customer_store = self.customer_store();
        execute_get_customer(query, store)
    }
}

} // verus!
