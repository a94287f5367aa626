//! Commands and queries over orders and their line items.

use vstd::prelude::*;

use crate::active::ActiveTransaction;
use crate::entities::{has_product, order_eq, LineItem, Order};
use crate::error::Error;
use crate::ids::{CustomerId, LineItemId, OrderId, ProductId};
use crate::resolver::Resolver;
use crate::store::{product_line_index, TransactionStore};

verus! {

/// Request body for creating an order: the customer it belongs to.
#[derive(Clone, Copy, PartialEq, Eq, Structural, Debug)]
pub struct Create {
    pub customer: CustomerId,
}

/// Request body for adding a product to an order: how many to add.
#[derive(Clone, Copy, PartialEq, Eq, Structural, Debug)]
pub struct ProductQuantity {
    pub quantity: u32,
}

/// Input for creating an order.
#[derive(Clone, Copy, PartialEq, Eq, Structural, Debug)]
pub struct CreateOrder {
    pub id: OrderId,
    pub customer_id: CustomerId,
}

/// Input for adding a product to an order or updating its quantity.
#[derive(Clone, Copy, PartialEq, Eq, Structural, Debug)]
pub struct AddOrUpdateProduct {
    pub id: OrderId,
    pub product_id: ProductId,
    pub quantity: u32,
}

/// Input for getting an order.
#[derive(Clone, Copy, PartialEq, Eq, Structural, Debug)]
pub struct GetOrder {
    pub id: OrderId,
}

/// Input for summarizing the orders of one customer.
#[derive(Clone, Copy, PartialEq, Eq, Structural, Debug)]
pub struct GetOrderSummariesForCustomer {
    pub id: CustomerId,
}

/// An individual order summary.
#[derive(Clone, Copy, PartialEq, Eq, Structural, Debug)]
pub struct OrderSummary {
    pub id: OrderId,
}

/// Create the empty order named by `command` for an existing customer,
/// writing through `transaction`. Fails, leaving the store untouched, when
/// an order with that id already exists or the customer does not.
pub fn execute_create_order(
    command: CreateOrder,
    transaction: &ActiveTransaction,
    store: &mut TransactionStore,
) -> (r: Result<(), Error>)
    requires
        old(store).wf(),
        transaction.valid(*old(store)),
    ensures
        final(store).wf(),
        final(store).tx_state_eq(*old(store)),
        final(store).customers == old(store).customers,
        final(store).products == old(store).products,
        final(store).next_line_item_id == old(store).next_line_item_id,
        old(store).contains_order(command.id) ==> r == Result::<(), Error>::Err(
            Error::AlreadyExists,
        ) && *final(store) == *old(store),
        !old(store).contains_order(command.id) && !old(store).contains_customer(
            command.customer_id,
        ) ==> r == Result::<(), Error>::Err(Error::BadInput) && *final(store) == *old(store),
        !old(store).contains_order(command.id) && old(store).contains_customer(
            command.customer_id,
        ) ==> {
            &&& r is Ok
            &&& final(store).contains_order(command.id)
            &&& ({
                let o = final(store).spec_order(command.id)->Some_0;
                &&& o.id == command.id
                &&& o.customer_id == command.customer_id
                &&& o.line_items@.len() == 0
            })
            &&& final(store).orders@.len() == old(store).orders@.len() + 1
        },
        forall|x: OrderId|
            x != command.id ==> #[trigger] final(store).spec_order(x) == old(store).spec_order(x),
{
    if store.get_order(command.id).is_some() {
        return Err(Error::AlreadyExists);
    }
    let customer = match store.get_customer(command.customer_id) {
        Some(c) => c,
        None => {
            return Err(Error::BadInput);
        }
    };
    let order = match Order::new(command.id, &customer) {
        Ok(o) => o,
        Err(e) => {
            return Err(e);
        }
    };
    store.set_order(transaction.get(), order)
}

/// Add a line item for the product named by `command` to the order, or
/// update the quantity of the line item the order already has for it. The
/// write goes through `transaction`. Fails, leaving the store untouched,
/// when the order does not exist, or when the product is new to the order
/// but unknown to the store.
pub fn execute_add_or_update_product(
    command: AddOrUpdateProduct,
    transaction: &ActiveTransaction,
    store: &mut TransactionStore,
) -> (r: Result<LineItemId, Error>)
    requires
        old(store).wf(),
        transaction.valid(*old(store)),
        old(store).next_line_item_id < u64::MAX,
    ensures
        final(store).wf(),
        final(store).tx_state_eq(*old(store)),
        final(store).customers == old(store).customers,
        final(store).products == old(store).products,
        !old(store).contains_order(command.id) ==> r == Result::<LineItemId, Error>::Err(
            Error::BadInput,
        ) && *final(store) == *old(store),
        old(store).contains_order(command.id) ==> ({
            let o = old(store).spec_order(command.id)->Some_0;
            &&& (has_product(o.line_items@, command.product_id) ==> {
                let j = product_line_index(o.line_items@, command.product_id);
                &&& r == Result::<LineItemId, Error>::Ok(o.line_items@[j].id)
                &&& final(store).next_line_item_id == old(store).next_line_item_id
                &&& final(store).contains_order(command.id)
                &&& ({
                    let fo = final(store).spec_order(command.id)->Some_0;
                    &&& fo.id == o.id
                    &&& fo.customer_id == o.customer_id
                    &&& fo.line_items@ == o.line_items@.update(
                        j,
                        LineItem {
                            id: o.line_items@[j].id,
                            product_id: command.product_id,
                            quantity: command.quantity,
                        },
                    )
                })
            })
            &&& (!has_product(o.line_items@, command.product_id) && !old(store).contains_product(
                command.product_id,
            ) ==> r == Result::<LineItemId, Error>::Err(Error::BadInput) && *final(store) == *old(store))
            &&& (!has_product(o.line_items@, command.product_id) && old(store).contains_product(
                command.product_id,
            ) ==> {
                &&& r == Result::<LineItemId, Error>::Ok(
                    LineItemId(old(store).next_line_item_id),
                )
                &&& final(store).next_line_item_id == old(store).next_line_item_id + 1
                &&& final(store).contains_order(command.id)
                &&& ({
                    let fo = final(store).spec_order(command.id)->Some_0;
                    &&& fo.id == o.id
                    &&& fo.customer_id == o.customer_id
                    &&& fo.line_items@ == o.line_items@.push(
                        LineItem {
                            id: LineItemId(old(store).next_line_item_id),
                            product_id: command.product_id,
                            quantity: command.quantity,
                        },
                    )
                })
            })
        }),
        forall|x: OrderId|
            x != command.id ==> #[trigger] final(store).spec_order(x) == old(store).spec_order(x),
        forall|x: OrderId|
            #[trigger] final(store).contains_order(x) <==> old(store).contains_order(x),
{
    let order = match store.get_order(command.id) {
        Some(o) => o.duplicate(),
        None => {
            return Err(Error::BadInput);
        }
    };
    let ghost o = store.spec_order(command.id)->Some_0;
    match order.find_product(command.product_id) {
        Some(j) => {
            proof {
                crate::store::lemma_order_index(
                    store.orders@,
                    command.id,
                    crate::store::order_index(store.orders@, command.id),
                );
                assert(crate::store::order_wf(o, store.next_line_item_id));
                crate::store::lemma_product_line_index(
                    o.line_items@,
                    command.product_id,
                    j as int,
                );
            }
            let mut item = order.line_items[j];
            let id = item.id;
            match item.set_quantity(command.quantity) {
                Ok(()) => {}
                Err(e) => {
                    return Err(e);
                }
            }
            match store.set_line_item(transaction.get(), command.id, item) {
                Ok(()) => Ok(id),
                Err(e) => Err(e),
            }
        }
        None => {
            let product = match store.get_product(command.product_id) {
                Some(p) => p,
                None => {
                    return Err(Error::BadInput);
                }
            };
            let id = store.fresh_line_item_id();
            let mut order = order;
            proof {
                assert(crate::store::order_wf(o, old(store).next_line_item_id));
                assert(!has_product(order.line_items@, command.product_id));
            }
            match order.add_product(id, &product, command.quantity) {
                Ok(()) => {}
                Err(e) => {
                    return Err(e);
                }
            }
            proof {
                assert(crate::store::order_wf(order, store.next_line_item_id)) by {
                    assert forall|a: int, b: int|
                        0 <= a < b < order.line_items@.len() implies order.line_items@[a].id
                        != order.line_items@[b].id by {
                        if b == order.line_items@.len() - 1 {
                            assert(order.line_items@[a].id.0 < old(store).next_line_item_id);
                        }
                    }
                }
            }
            match store.set_order(transaction.get(), order) {
                Ok(()) => Ok(id),
                Err(e) => Err(e),
            }
        }
    }
}

/// Get a copy of the order named by `query`. Reads never fail.
pub fn execute_get_order(query: GetOrder, store: &TransactionStore) -> (r: Result<
    Option<Order>,
    Error,
>)
    requires
        store.wf(),
    ensures
        r is Ok,
        r->Ok_0 is Some <==> store.contains_order(query.id),
        store.contains_order(query.id) ==> order_eq(
            r->Ok_0->Some_0,
            store.spec_order(query.id)->Some_0,
        ),
{
    match store.get_order(query.id) {
        Some(o) => Ok(Some(o.duplicate())),
        None => Ok(None),
    }
}

/// The ids of the first `n` orders that belong to this customer, in store
/// order.
pub open spec fn summaries_of(orders: Seq<Order>, customer_id: CustomerId, n: int) -> Seq<OrderId>
    decreases n,
{
    if n <= 0 {
        Seq::empty()
    } else {
        let rest = summaries_of(orders, customer_id, n - 1);
        if orders[n - 1].customer_id == customer_id {
            rest.push(orders[n - 1].id)
        } else {
            rest
        }
    }
}

/// The ids of the orders that belong to this customer, in store order.
pub open spec fn spec_order_summaries(store: TransactionStore, customer_id: CustomerId) -> Seq<
    OrderId,
> {
    summaries_of(store.orders@, customer_id, store.orders@.len() as int)
}

/// Summarize the orders of the customer named by `query`. Reads never fail.
#[verifier::loop_isolation(false)]
pub fn execute_get_order_summaries_for_customer(
    query: GetOrderSummariesForCustomer,
    store: &TransactionStore,
) -> (r: Result<Vec<OrderSummary>, Error>)
    requires
        store.wf(),
    ensures
        r is Ok,
        r->Ok_0@.map_values(|s: OrderSummary| s.id) == spec_order_summaries(*store, query.id),
{
    let mut out: Vec<OrderSummary> = Vec::new();
    let mut i: usize = 0;
    while i < store.orders.len()
        invariant
            i <= store.orders.len(),
            out@.map_values(|s: OrderSummary| s.id) == summaries_of(store.orders@, query.id, i as int),
        decreases store.orders.len() - i,
    {
        if store.orders[i].customer_id == query.id {
            out.push(OrderSummary { id: store.orders[i].id });
            proof {
                assert(out@.map_values(|s: OrderSummary| s.id) =~= summaries_of(
                    store.orders@,
                    query.id,
                    i + 1 as int,
                ));
            }
        } else {
            proof {
                assert(out@.map_values(|s: OrderSummary| s.id) =~= summaries_of(
                    store.orders@,
                    query.id,
                    i + 1 as int,
                ));
            }
        }
        i = i + 1;
    }
    Ok(out)
}

impl Resolver {
    /// Create an order: resolve the order store, the customer query and the
    /// active transaction from this scope, run the command through them, and
    /// give the transaction handle back.
    pub fn create_order_command(&mut self, store: &mut TransactionStore, command: CreateOrder) -> (
        r: Result<(), Error>)
        requires
            old(store).wf(),
            old(self).wf(*old(store)),
            old(self).can_resolve_active(*old(store)),
            old(self).orders.order_store.runs() < u64::MAX,
            old(self).customers.customer_store.runs() < u64::MAX,
        ensures
            final(store).wf(),
            final(self).wf(*final(store)),
            final(self).transactions.active_transaction.strategy() == old(self).transactions.active_transaction.strategy(),
            final(self).transactions.active_transaction.producer() == old(self).transactions.active_transaction.producer(),
            final(self).transactions.active_transaction.runs() <= old(self).transactions.active_transaction.runs() + 1,
            old(self).transactions.active_transaction.memo() is Some ==> final(self).transactions.active_transaction.memo() == old(self).transactions.active_transaction.memo(),
            final(self).products == old(self).products,
            final(self).orders.order_store.strategy() == old(self).orders.order_store.strategy(),
            final(self).orders.order_store.runs() <= old(self).orders.order_store.runs() + 1,
            final(self).customers.customer_store.strategy() == old(self).customers.customer_store.strategy(),
            final(self).customers.customer_store.runs() <= old(self).customers.customer_store.runs() + 1,
            final(store).customers == old(store).customers,
            final(store).products == old(store).products,
            final(store).next_line_item_id == old(store).next_line_item_id,
            final(store).committed == old(store).committed,
            forall|x: u64|
                old(store).tx_live(x) ==> #[trigger] final(store).tx_live(x) && final(store).tx_handles(x) == old(store).tx_handles(x),
            old(store).contains_order(command.id) ==> r == Result::<(), Error>::Err(
                Error::AlreadyExists,
            ) && final(store).orders == old(store).orders,
            !old(store).contains_order(command.id) && !old(store).contains_customer(
                command.customer_id,
            ) ==> r == Result::<(), Error>::Err(Error::BadInput) && final(store).orders == old(store).orders,
            !old(store).contains_order(command.id) && old(store).contains_customer(
                command.customer_id,
            ) ==> {
                &&& r is Ok
                &&& final(store).contains_order(command.id)
                &&& ({
                    let o = final(store).spec_order(command.id)->Some_0;
                    &&& o.id == command.id
                    &&& o.customer_id == command.customer_id
                    &&& o.line_items@.len() == 0
                })
            },
            forall|x: OrderId|
                x != command.id ==> #[trigger] final(store).spec_order(x) == old(store).spec_order(
                    x,
                ),
    {
        let _order_store = self.order_store();
        let _customer_store = self.customer_store();
        let active_transaction = self.active_transaction(store);
        let ghost tid = active_transaction.id();
        let ghost s1 = *store;
        let r = execute_create_order(command, &active_transaction, store);
        let ghost s2 = *store;
        proof {
            assert(s2.live == s1.live);
            assert forall|x: u64| s1.tx_live(x) implies #[trigger] s2.tx_live(x)
                && s2.tx_handles(x) == s1.tx_handles(x) by {
                assert(s2.live@ == s1.live@);
            }
        }
        active_transaction.cancel(store);
        proof {
            assert forall|x: u64| old(store).tx_live(x) implies #[trigger] store.tx_live(x)
                && store.tx_handles(x) == old(store).tx_handles(x) by {
                let i = choose|i: int|
                    0 <= i < old(store).live@.len() && old(store).live@[i].id == x;
                crate::store::lemma_tx_index(old(store).live@, x, i);
                assert(old(store).tx_handles(x) >= 1);
                if x != tid {
                    assert(s1.tx_live(x) && s1.tx_handles(x) == old(store).tx_handles(x));
                    assert(s2.tx_live(x) && s2.tx_handles(x) == s1.tx_handles(x));
                    assert(store.tx_live(x));
                    assert(store.tx_handles(x) == s2.tx_handles(x));
                } else {
                    assert(s1.tx_handles(x) == old(store).tx_handles(x) + 1);
                    assert(s2.tx_live(x) && s2.tx_handles(x) == s1.tx_handles(x));
                    assert(store.tx_live(x) && store.tx_handles(x) == s2.tx_handles(x) - 1);
                }
            }
            assert forall|x: OrderId| x != command.id implies #[trigger] store.spec_order(x) == old(store).spec_order(x) by {
                assert(s1.spec_order(x) == old(store).spec_order(x)) by {
                    assert(s1.orders@ == old(store).orders@);
                }
                assert(s2.spec_order(x) == s1.spec_order(x));
                assert(store.spec_order(x) == s2.spec_order(x)) by {
                    assert(store.orders@ == s2.orders@);
                }
            }
        }
        r
    }

    /// Add a product to an order or update its quantity: resolve the order
    /// store, the product query and the active transaction from this scope,
    /// run the command through them, and give the transaction handle back.
    pub fn add_or_update_product_command(
        &mut self,
        store: &mut TransactionStore,
        command: AddOrUpdateProduct,
    ) -> (r: Result<LineItemId, Error>)
        requires
            old(store).wf(),
            old(self).wf(*old(store)),
            old(self).can_resolve_active(*old(store)),
            old(self).orders.order_store.runs() < u64::MAX,
            old(self).products.product_store.runs() < u64::MAX,
            old(store).next_line_item_id < u64::MAX,
        ensures
            final(store).wf(),
            final(self).wf(*final(store)),
            final(self).transactions.active_transaction.strategy() == old(self).transactions.active_transaction.strategy(),
            final(self).transactions.active_transaction.producer() == old(self).transactions.active_transaction.producer(),
            final(self).transactions.active_transaction.runs() <= old(self).transactions.active_transaction.runs() + 1,
            old(self).transactions.active_transaction.memo() is Some ==> final(self).transactions.active_transaction.memo() == old(self).transactions.active_transaction.memo(),
            final(self).customers == old(self).customers,
            final(self).orders.order_store.strategy() == old(self).orders.order_store.strategy(),
            final(self).orders.order_store.runs() <= old(self).orders.order_store.runs() + 1,
            final(self).products.product_store.strategy() == old(self).products.product_store.strategy(),
            final(self).products.product_store.runs() <= old(self).products.product_store.runs() + 1,
            final(store).customers == old(store).customers,
            final(store).products == old(store).products,
            final(store).committed == old(store).committed,
            forall|x: u64|
                old(store).tx_live(x) ==> #[trigger] final(store).tx_live(x) && final(store).tx_handles(x) == old(store).tx_handles(x),
            !old(store).contains_order(command.id) ==> r == Result::<LineItemId, Error>::Err(
                Error::BadInput,
            ) && final(store).orders == old(store).orders,
            old(store).contains_order(command.id) ==> ({
                let o = old(store).spec_order(command.id)->Some_0;
                &&& (has_product(o.line_items@, command.product_id) ==> {
                    let j = product_line_index(o.line_items@, command.product_id);
                    &&& r == Result::<LineItemId, Error>::Ok(o.line_items@[j].id)
                    &&& final(store).contains_order(command.id)
                    &&& ({
                        let fo = final(store).spec_order(command.id)->Some_0;
                        &&& fo.id == o.id
                        &&& fo.customer_id == o.customer_id
                        &&& fo.line_items@ == o.line_items@.update(
                            j,
                            LineItem {
                                id: o.line_items@[j].id,
                                product_id: command.product_id,
                                quantity: command.quantity,
                            },
                        )
                    })
                })
                &&& (!has_product(o.line_items@, command.product_id) && !old(store).contains_product(command.product_id) ==> r == Result::<LineItemId, Error>::Err(
                    Error::BadInput,
                ) && final(store).orders == old(store).orders)
                &&& (!has_product(o.line_items@, command.product_id) && old(store).contains_product(
                    command.product_id,
                ) ==> {
                    &&& r == Result::<LineItemId, Error>::Ok(
                        LineItemId(old(store).next_line_item_id),
                    )
                    &&& final(store).contains_order(command.id)
                    &&& ({
                        let fo = final(store).spec_order(command.id)->Some_0;
                        &&& fo.id == o.id
                        &&& fo.customer_id == o.customer_id
                        &&& fo.line_items@ == o.line_items@.push(
                            LineItem {
                                id: LineItemId(old(store).next_line_item_id),
                                product_id: command.product_id,
                                quantity: command.quantity,
                            },
                        )
                    })
                })
            }),
            forall|x: OrderId|
                x != command.id ==> #[trigger] final(store).spec_order(x) == old(store).spec_order(
                    x,
                ),
    {
        let _order_store = self.order_store();
        let _product_store = self.product_store();
        let active_transaction = self.active_transaction(store);
        let ghost tid = active_transaction.id();
        let ghost s1 = *store;
        let r = execute_add_or_update_product(command, &active_transaction, store);
        let ghost s2 = *store;
        proof {
            assert(s2.live == s1.live);
            assert forall|x: u64| s1.tx_live(x) implies #[trigger] s2.tx_live(x)
                && s2.tx_handles(x) == s1.tx_handles(x) by {
                assert(s2.live@ == s1.live@);
            }
        }
        active_transaction.cancel(store);
        proof {
            assert forall|x: u64| old(store).tx_live(x) implies #[trigger] store.tx_live(x)
                && store.tx_handles(x) == old(store).tx_handles(x) by {
                let i = choose|i: int|
                    0 <= i < old(store).live@.len() && old(store).live@[i].id == x;
                crate::store::lemma_tx_index(old(store).live@, x, i);
                assert(old(store).tx_handles(x) >= 1);
                if x != tid {
                    assert(s1.tx_live(x) && s1.tx_handles(x) == old(store).tx_handles(x));
                    assert(s2.tx_live(x) && s2.tx_handles(x) == s1.tx_handles(x));
                    assert(store.tx_live(x));
                    assert(store.tx_handles(x) == s2.tx_handles(x));
                } else {
                    assert(s1.tx_handles(x) == old(store).tx_handles(x) + 1);
                    assert(s2.tx_live(x) && s2.tx_handles(x) == s1.tx_handles(x));
                    assert(store.tx_live(x) && store.tx_handles(x) == s2.tx_handles(x) - 1);
                }
            }
            assert(old(store).spec_order(command.id) == s1.spec_order(command.id)) by {
                assert(s1.orders@ == old(store).orders@);
            }
            assert forall|x: OrderId| x != command.id implies #[trigger] store.spec_order(x) == old(store).spec_order(x) by {
                assert(s1.spec_order(x) == old(store).spec_order(x)) by {
                    assert(s1.orders@ == old(store).orders@);
                }
                assert(s2.spec_order(x) == s1.spec_order(x));
                assert(store.spec_order(x) == s2.spec_order(x)) by {
                    assert(store.orders@ == s2.orders@);
                }
            }
            assert(store.spec_order(command.id) == s2.spec_order(command.id)) by {
                assert(store.orders@ == s2.orders@);
            }
            assert forall|x: OrderId| #[trigger] store.contains_order(x) == old(store).contains_order(x) by {
                assert(s1.orders@ == old(store).orders@);
                assert(store.orders@ == s2.orders@);
                assert(s2.contains_order(x) == s1.contains_order(x));
            }
        }
        r
    }

    /// Get an order: resolve the order store from this scope and run the
    /// query through it.
    pub fn get_order_query(&mut self, store: &TransactionStore, query: GetOrder) -> (r: Result<
        Option<Order>,
        Error,
    >)
        requires
            store.wf(),
            old(self).orders.order_store.wf(),
            old(self).orders.order_store.runs() < u64::MAX,
        ensures
            r is Ok,
            r->Ok_0 is Some <==> store.contains_order(query.id),
            store.contains_order(query.id) ==> order_eq(
                r->Ok_0->Some_0,
                store.spec_order(query.id)->Some_0,
            ),
            final(self).transactions == old(self).transactions,
            final(self).customers == old(self).customers,
            final(self).products == old(self).products,
            final(self).orders.order_store.wf(),
    {
        let _order_store = self.order_store();
        execute_get_order(query, store)
    }

    /// Get a summary for all orders associated with a customer: resolve the
    /// order store from this scope and run the query through it.
    pub fn get_order_summaries_for_customer_query(
        &mut self,
        store: &TransactionStore,
        query: GetOrderSummariesForCustomer,
    ) -> (r: Result<Vec<OrderSummary>, Error>)
        requires
            store.wf(),
            old(self).orders.order_store.wf(),
            old(self).orders.order_store.runs() < u64::MAX,
        ensures
            r is Ok,
            r->Ok_0@.map_values(|s: OrderSummary| s.id) == spec_order_summaries(*store, query.id),
            final(self).transactions == old(self).transactions,
            final(self).customers == old(self).customers,
            final(self).products == old(self).products,
            final(self).orders.order_store.wf(),
    {
        let _order_store = self.order_store_filter();
        execute_get_order_summaries_for_customer(query, store)
    }
}

/// Lower one value by a fixed numerator; rejecting a zero divisor is the
/// caller's duty, stated as a precondition.
pub fn divide(rhs: i32)
    requires
        rhs != 0,
{
    let a: i32 = 100;
    let _result = a / rhs;
}

/// Forward a divisor to [`divide`].
pub fn handle_division(rhs: i32)
    requires
        rhs != 0,
{
    divide(rhs);
}

} // verus!
