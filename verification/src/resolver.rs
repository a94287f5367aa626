//! The resolution scope: a bundle of dependency slots, and the application
//! value that derives a fresh scope per unit of work.
//!
//! A [`Resolver`] holds one [`Register`] per dependency kind. Deriving a
//! child scope with [`Resolver::with_active_transaction`] replaces exactly
//! the active-transaction slot and leaves every other slot as it is, so a
//! parent and its child scopes coexist with independent views of that one
//! dependency. Producers are interpreted here when a slot is resolved: the
//! register only supplies the memoization discipline.

use vstd::prelude::*;

use crate::active::ActiveTransaction;
use crate::error::Error;
use crate::register::{Register, Strategy};
use crate::store::TransactionStore;

verus! {

/// The production rule of an active-transaction slot.
#[derive(Clone, Copy, PartialEq, Eq, Structural, Debug)]
pub enum TxProducer {
    /// Produce a handle in the *none* state, outside any unit of work.
    NoneTransaction,
    /// Begin a fresh transaction in the store and wrap it in a handle.
    BeginTransaction,
}

/// The production rule of an entity-store slot.
#[derive(Clone, Copy, PartialEq, Eq, Structural, Debug)]
pub enum StoreProducer {
    /// Hand out access to the in-memory store.
    InMemory,
}

/// Access to the order section of the in-memory store. The store state
/// itself lives in the [`TransactionStore`] the caller threads through.
#[derive(Clone, Copy, PartialEq, Eq, Structural, Debug)]
pub struct OrderStore {}

/// Access to the customer section of the in-memory store.
#[derive(Clone, Copy, PartialEq, Eq, Structural, Debug)]
pub struct CustomerStore {}

/// Access to the product section of the in-memory store.
#[derive(Clone, Copy, PartialEq, Eq, Structural, Debug)]
pub struct ProductStore {}

/// The transaction-related slots of a resolver.
pub struct TransactionsResolver {
    /// The active-transaction slot. Outside a unit of work it is a factory
    /// of *none* handles; a unit of work replaces it with a once register
    /// that begins one shared transaction on first use.
    pub active_transaction: Register<ActiveTransaction, TxProducer>,
}

/// The order-related slots of a resolver.
#[derive(Clone, Copy)]
pub struct OrdersResolver {
    /// The order-store slot.
    pub order_store: Register<OrderStore, StoreProducer>,
}

/// The customer-related slots of a resolver.
#[derive(Clone, Copy)]
pub struct CustomersResolver {
    /// The customer-store slot.
    pub customer_store: Register<CustomerStore, StoreProducer>,
}

/// The product-related slots of a resolver.
#[derive(Clone, Copy)]
pub struct ProductsResolver {
    /// The product-store slot.
    pub product_store: Register<ProductStore, StoreProducer>,
}

impl Default for TransactionsResolver {
    /// By default, each resolution of the active transaction receives a
    /// fresh handle that is not transactional at all.
    fn default() -> (r: Self)
        ensures
            r.active_transaction.strategy() == Strategy::Factory,
            r.active_transaction.producer() == TxProducer::NoneTransaction,
            r.active_transaction.memo() is None,
            r.active_transaction.runs() == 0,
            r.active_transaction.wf(),
    {
        TransactionsResolver { active_transaction: Register::factory(TxProducer::NoneTransaction) }
    }
}

impl Default for OrdersResolver {
    /// The order store is built lazily, at most once per scope family.
    fn default() -> (r: Self)
        ensures
            r.order_store.strategy() == Strategy::Once,
            r.order_store.producer() == StoreProducer::InMemory,
            r.order_store.memo() is None,
            r.order_store.runs() == 0,
            r.order_store.wf(),
    {
        OrdersResolver { order_store: Register::once(StoreProducer::InMemory) }
    }
}

impl Default for CustomersResolver {
    /// The customer store is built lazily, at most once per scope family.
    fn default() -> (r: Self)
        ensures
            r.customer_store.strategy() == Strategy::Once,
            r.customer_store.producer() == StoreProducer::InMemory,
            r.customer_store.memo() is None,
            r.customer_store.runs() == 0,
            r.customer_store.wf(),
    {
        CustomersResolver { customer_store: Register::once(StoreProducer::InMemory) }
    }
}

impl Default for ProductsResolver {
    /// The product store is built lazily, at most once per scope family.
    fn default() -> (r: Self)
        ensures
            r.product_store.strategy() == Strategy::Once,
            r.product_store.producer() == StoreProducer::InMemory,
            r.product_store.memo() is None,
            r.product_store.runs() == 0,
            r.product_store.wf(),
    {
        ProductsResolver { product_store: Register::once(StoreProducer::InMemory) }
    }
}

/// An immutable bundle of dependency slots: the current resolution scope.
pub struct Resolver {
    /// The transaction-related slots.
    pub transactions: TransactionsResolver,
    /// The order-related slots.
    pub orders: OrdersResolver,
    /// The customer-related slots.
    pub customers: CustomersResolver,
    /// The product-related slots.
    pub products: ProductsResolver,
}

impl Default for Resolver {
    /// The base scope: no transaction, lazy stores.
    fn default() -> (r: Self)
        ensures
            r.transactions.active_transaction.strategy() == Strategy::Factory,
            r.transactions.active_transaction.producer() == TxProducer::NoneTransaction,
            r.transactions.active_transaction.memo() is None,
            r.transactions.active_transaction.runs() == 0,
            r.orders.order_store.strategy() == Strategy::Once,
            r.orders.order_store.memo() is None,
            r.orders.order_store.runs() == 0,
            r.customers.customer_store.strategy() == Strategy::Once,
            r.customers.customer_store.memo() is None,
            r.customers.customer_store.runs() == 0,
            r.products.product_store.strategy() == Strategy::Once,
            r.products.product_store.memo() is None,
            r.products.product_store.runs() == 0,
            r.slots_wf(),
    {
        Resolver {
            transactions: TransactionsResolver::default(),
            orders: OrdersResolver::default(),
            customers: CustomersResolver::default(),
            products: ProductsResolver::default(),
        }
    }
}

impl Resolver {
    /// Every slot obeys its memoization discipline.
    pub open spec fn slots_wf(self) -> bool {
        &&& self.transactions.active_transaction.wf()
        &&& self.orders.order_store.wf()
        &&& self.customers.customer_store.wf()
        &&& self.products.product_store.wf()
    }

    /// The slots are well formed and the memoized transaction handle, if
    /// any, is valid in `store`.
    pub open spec fn wf(self, store: TransactionStore) -> bool {
        &&& self.slots_wf()
        &&& match self.transactions.active_transaction.memo() {
            Some(m) => m.valid(store),
            None => true,
        }
    }

    /// The machine headroom the active-transaction slot needs to resolve:
    /// room for one more producer run, one more handle, or one more
    /// transaction id.
    pub open spec fn can_resolve_active(self, store: TransactionStore) -> bool {
        let reg = self.transactions.active_transaction;
        &&& reg.runs() < u64::MAX
        &&& match reg.memo() {
            Some(m) => m.id() != 0 ==> store.tx_handles(m.id()) < u64::MAX,
            None => reg.producer() == TxProducer::BeginTransaction ==> store.next_tx_id
                < u64::MAX,
        }
    }

    /// A scope that is a copy of `self` except that the active-transaction
    /// slot is replaced by `active_transaction`. The other slots, their
    /// memoized values included, stay exactly as they are, so resolving an
    /// unrelated slot on the derived scope gives what the parent gives.
    pub fn with_active_transaction(
        &self,
        active_transaction: Register<ActiveTransaction, TxProducer>,
    ) -> (r: Resolver)
        ensures
            r.transactions.active_transaction == active_transaction,
            r.orders == self.orders,
            r.customers == self.customers,
            r.products == self.products,
    {
        Resolver {
            transactions: TransactionsResolver { active_transaction },
            orders: self.orders,
            customers: self.customers,
            products: self.products,
        }
    }

    /// Resolve the active-transaction slot.
    ///
    /// A factory slot produces a fresh handle on every call; a once slot
    /// produces on first call only and memoizes the handle, and every call
    /// returns a handle sharing the memoized handle's transaction, so the
    /// whole scope family works on one transaction.
    pub fn active_transaction(&mut self, store: &mut TransactionStore) -> (t: ActiveTransaction)
        requires
            old(store).wf(),
            old(self).wf(*old(store)),
            old(self).can_resolve_active(*old(store)),
        ensures
            final(store).wf(),
            final(self).wf(*final(store)),
            t.valid(*final(store)),
            final(self).orders == old(self).orders,
            final(self).customers == old(self).customers,
            final(self).products == old(self).products,
            final(self).transactions.active_transaction.strategy() == old(self).transactions.active_transaction.strategy(),
            final(self).transactions.active_transaction.producer() == old(self).transactions.active_transaction.producer(),
            final(store).entities_eq(*old(store)),
            final(store).committed == old(store).committed,
            forall|x: u64| old(store).tx_live(x) ==> #[trigger] final(store).tx_live(x),
            forall|x: u64|
                old(store).tx_live(x) && x != t.id() ==> #[trigger] final(store).tx_handles(x)
                    == old(store).tx_handles(x),
            ({
                let reg = old(self).transactions.active_transaction;
                let freg = final(self).transactions.active_transaction;
                match reg.memo() {
                    Some(m) => {
                        &&& t.id() == m.id()
                        &&& freg == reg
                        &&& final(store).next_tx_id == old(store).next_tx_id
                        &&& (m.id() == 0 ==> *final(store) == *old(store))
                        &&& (m.id() != 0 ==> final(store).tx_handles(m.id()) == old(store).tx_handles(m.id()) + 1 && (forall|x: u64|
                            #[trigger] final(store).tx_live(x) <==> old(store).tx_live(x)))
                    },
                    None => {
                        &&& freg.runs() == reg.runs() + 1
                        &&& (reg.strategy() == Strategy::Once ==> freg.memo() is Some
                            && freg.memo()->Some_0.id() == t.id())
                        &&& (reg.strategy() == Strategy::Factory ==> freg.memo() is None)
                        &&& (reg.producer() == TxProducer::NoneTransaction ==> t.id() == 0
                            && *final(store) == *old(store))
                        &&& (reg.producer() == TxProducer::BeginTransaction ==> {
                            &&& t.id() == old(store).next_tx_id
                            &&& t.id() != 0
                            &&& !old(store).tx_live(t.id())
                            &&& final(store).tx_live(t.id())
                            &&& final(store).next_tx_id == old(store).next_tx_id + 1
                            &&& final(store).tx_handles(t.id()) == (
                            if reg.strategy() == Strategy::Once {
                                2u64
                            } else {
                                1u64
                            })
                            &&& (forall|x: u64|
                                #[trigger] final(store).tx_live(x) <==> (old(store).tx_live(x)
                                    || x == t.id()))
                        })
                    },
                }
            }),
    {
        let reg = &mut self.transactions.active_transaction;
        if reg.is_once() {
            if reg.has_memo() {
                let m = reg.memo_ref();
                m.share(store)
            } else {
                let t = produce_transaction(reg.producer_value(), store);
                let ghost s1 = *store;
                let shared = t.share(store);
                proof {
                    assert forall|x: u64|
                        old(store).tx_live(x) && x != shared.id() implies #[trigger] store.tx_handles(
                        x,
                    ) == old(store).tx_handles(x) by {
                        assert(s1.tx_live(x));
                        assert(s1.tx_handles(x) == old(store).tx_handles(x));
                        assert(store.tx_handles(x) == s1.tx_handles(x));
                    }
                }
                reg.record(t);
                shared
            }
        } else {
            let t = produce_transaction(reg.producer_value(), store);
            reg.note_factory_run();
            t
        }
    }

    /// Resolve the order-store slot.
    pub fn order_store(&mut self) -> (s: OrderStore)
        requires
            old(self).orders.order_store.wf(),
            old(self).orders.order_store.runs() < u64::MAX,
        ensures
            s == (OrderStore {  }),
            final(self).transactions == old(self).transactions,
            final(self).customers == old(self).customers,
            final(self).products == old(self).products,
            final(self).orders.order_store.wf(),
            final(self).orders.order_store.strategy() == old(self).orders.order_store.strategy(),
            final(self).orders.order_store.producer() == old(self).orders.order_store.producer(),
            old(self).orders.order_store.memo() is Some ==> final(self).orders == old(self).orders,
            old(self).orders.order_store.memo() is None ==> final(self).orders.order_store.runs()
                == old(self).orders.order_store.runs() + 1,
    {
        let reg = &mut self.orders.order_store;
        if reg.is_once() {
            match reg.cached() {
                Some(s) => s,
                None => {
                    let s = produce_order_store(reg.producer_value());
                    reg.record(s);
                    s
                }
            }
        } else {
            let s = produce_order_store(reg.producer_value());
            reg.note_factory_run();
            s
        }
    }

    /// Resolve the customer-store slot.
    pub fn customer_store(&mut self) -> (s: CustomerStore)
        requires
            old(self).customers.customer_store.wf(),
            old(self).customers.customer_store.runs() < u64::MAX,
        ensures
            s == (CustomerStore {  }),
            final(self).transactions == old(self).transactions,
            final(self).orders == old(self).orders,
            final(self).products == old(self).products,
            final(self).customers.customer_store.wf(),
            final(self).customers.customer_store.strategy() == old(self).customers.customer_store.strategy(),
            final(self).customers.customer_store.producer() == old(self).customers.customer_store.producer(),
            old(self).customers.customer_store.memo() is Some ==> final(self).customers == old(self).customers,
            old(self).customers.customer_store.memo() is None
                ==> final(self).customers.customer_store.runs() == old(self).customers.customer_store.runs() + 1,
    {
        let reg = &mut self.customers.customer_store;
        if reg.is_once() {
            match reg.cached() {
                Some(s) => s,
                None => {
                    let s = produce_customer_store(reg.producer_value());
                    reg.record(s);
                    s
                }
            }
        } else {
            let s = produce_customer_store(reg.producer_value());
            reg.note_factory_run();
            s
        }
    }

    /// Resolve the product-store slot.
    pub fn product_store(&mut self) -> (s: ProductStore)
        requires
            old(self).products.product_store.wf(),
            old(self).products.product_store.runs() < u64::MAX,
        ensures
            s == (ProductStore {  }),
            final(self).transactions == old(self).transactions,
            final(self).orders == old(self).orders,
            final(self).customers == old(self).customers,
            final(self).products.product_store.wf(),
            final(self).products.product_store.strategy() == old(self).products.product_store.strategy(),
            final(self).products.product_store.producer() == old(self).products.product_store.producer(),
            old(self).products.product_store.memo() is Some ==> final(self).products == old(self).products,
            old(self).products.product_store.memo() is None
                ==> final(self).products.product_store.runs() == old(self).products.product_store.runs() + 1,
    {
        let reg = &mut self.products.product_store;
        if reg.is_once() {
            match reg.cached() {
                Some(s) => s,
                None => {
                    let s = produce_product_store(reg.producer_value());
                    reg.record(s);
                    s
                }
            }
        } else {
            let s = produce_product_store(reg.producer_value());
            reg.note_factory_run();
            s
        }
    }

    /// Resolve the product-store slot for filtering reads; the same slot as
    /// [`Resolver::product_store`].
    pub fn product_store_filter(&mut self) -> (s: ProductStore)
        requires
            old(self).products.product_store.wf(),
            old(self).products.product_store.runs() < u64::MAX,
        ensures
            s == (ProductStore {  }),
            final(self).transactions == old(self).transactions,
            final(self).orders == old(self).orders,
            final(self).customers == old(self).customers,
            final(self).products.product_store.wf(),
    {
        self.product_store()
    }

    /// Resolve the order-store slot for filtering reads; the same slot as
    /// [`Resolver::order_store`].
    pub fn order_store_filter(&mut self) -> (s: OrderStore)
        requires
            old(self).orders.order_store.wf(),
            old(self).orders.order_store.runs() < u64::MAX,
        ensures
            s == (OrderStore {  }),
            final(self).transactions == old(self).transactions,
            final(self).customers == old(self).customers,
            final(self).products == old(self).products,
            final(self).orders.order_store.wf(),
    {
        self.order_store()
    }

    /// Release the scope: the memoized transaction handle, if any, gives up
    /// its share of the transaction, cancelling it when it was the last
    /// holder. Every exit path of a unit of work releases its scope this
    /// way, so an abandoned scope cannot keep its transaction alive.
    pub fn dispose(self, store: &mut TransactionStore)
        requires
            old(store).wf(),
            self.wf(*old(store)),
        ensures
            final(store).wf(),
            final(store).entities_eq(*old(store)),
            final(store).committed == old(store).committed,
            final(store).next_tx_id == old(store).next_tx_id,
            forall|x: u64|
                old(store).tx_live(x) && (match self.transactions.active_transaction.memo() {
                    Some(m) => x != m.id(),
                    None => true,
                }) ==> #[trigger] final(store).tx_live(x) && final(store).tx_handles(x) == old(store).tx_handles(x),
            ({
                let memo = self.transactions.active_transaction.memo();
                match memo {
                    None => *final(store) == *old(store),
                    Some(m) => {
                        &&& (m.id() == 0 ==> *final(store) == *old(store))
                        &&& (m.id() != 0 && old(store).tx_handles(m.id()) >= 2 ==> final(store).tx_live(m.id()) && final(store).tx_handles(m.id()) == old(store).tx_handles(m.id()) - 1)
                        &&& (m.id() != 0 && old(store).tx_handles(m.id()) == 1 ==> !final(store).tx_live(m.id()))
                    },
                }
            }),
    {
        let Resolver { transactions, orders: _, customers: _, products: _ } = self;
        match transactions.active_transaction.into_memo() {
            Some(m) => m.cancel(store),
            None => {}
        }
    }
}

/// The application: it owns the base resolution scope that every unit of
/// work derives from.
pub struct App {
    /// The base scope.
    pub root_resolver: Resolver,
}

impl App {
    /// An application over the base scope: no transaction, lazy stores.
    pub fn new() -> (a: App)
        ensures
            a.root_resolver.slots_wf(),
            a.root_resolver.transactions.active_transaction.memo() is None,
            a.root_resolver.transactions.active_transaction.strategy() == Strategy::Factory,
            a.root_resolver.transactions.active_transaction.producer()
                == TxProducer::NoneTransaction,
    {
        App { root_resolver: Resolver::default() }
    }

    /// Begin a transaction and run the unit of work `f` against a scope
    /// that uses it.
    ///
    /// The derived scope's active-transaction slot is a once register that
    /// begins a fresh transaction, so everything `f` resolves shares that
    /// one transaction. The transaction is finalized on every exit path:
    /// committed when `f` succeeds, cancelled when `f` fails, and the
    /// scope's memoized handle is released in between, so a unit of work
    /// can never leave its transaction alive.
    ///
    /// `f` receives the derived scope and the store by value and hands both
    /// back with its result. It must preserve the store and scope
    /// invariants, hand the scope back with its transaction slot's memoized
    /// handle intact, and leave every transaction that was live when it
    /// started live with the same handle count — a body that releases every
    /// handle it resolves does so.
    pub fn transaction<T, F>(&self, store: TransactionStore, f: F) -> (res: (
        TransactionStore,
        Result<T, Error>,
    )) where F: FnOnce(Resolver, TransactionStore) -> (Resolver, TransactionStore, Result<T, Error>)
        requires
            store.wf(),
            store.next_tx_id < u64::MAX,
            self.root_resolver.slots_wf(),
            forall|r: Resolver, s: TransactionStore|
                r.wf(s) && s.wf() ==> #[trigger] call_requires(f, (r, s)),
            forall|
                args: (Resolver, TransactionStore),
                out: (Resolver, TransactionStore, Result<T, Error>),
            |
                #[trigger] call_ensures(f, args, out) ==> {
                    &&& out.1.wf()
                    &&& out.0.wf(out.1)
                    &&& out.0.transactions.active_transaction.memo()
                        == args.0.transactions.active_transaction.memo()
                    &&& (forall|x: u64|
                        args.1.tx_live(x) ==> #[trigger] out.1.tx_live(x) && out.1.tx_handles(x)
                            == args.1.tx_handles(x))
                },
        ensures
            res.0.wf(),
            !res.0.tx_live(store.next_tx_id),
            res.1 is Ok <==> res.0.tx_committed(store.next_tx_id),
            forall|x: u64|
                store.tx_live(x) ==> #[trigger] res.0.tx_live(x) && res.0.tx_handles(x)
                    == store.tx_handles(x),
            exists|
                args: (Resolver, TransactionStore),
                out: (Resolver, TransactionStore, Result<T, Error>),
            |
                {
                    &&& #[trigger] call_ensures(f, args, out)
                    &&& out.2 == res.1
                    &&& args.0.orders == self.root_resolver.orders
                    &&& args.0.customers == self.root_resolver.customers
                    &&& args.0.products == self.root_resolver.products
                    &&& args.1.entities_eq(store)
                    &&& args.1.next_tx_id == store.next_tx_id + 1
                    &&& res.0.entities_eq(out.1)
                },
    {
        let mut s = store;
        let mut uow = self.root_resolver.with_active_transaction(
            Register::once(TxProducer::BeginTransaction),
        );
        let transaction = uow.active_transaction(&mut s);
        let ghost tx0 = transaction.id();
        let ghost s1g = s;
        let ghost gargs = (uow, s);
        let (uow2, s2, r) = f(uow, s);
        let ghost gout = (uow2, s2, r);
        let mut sfin = s2;
        let ghost s2g = sfin;
        uow2.dispose(&mut sfin);
        let ghost s3g = sfin;
        proof {
            assert(call_ensures(f, gargs, gout));
            assert(gout.0.transactions.active_transaction.memo()
                == gargs.0.transactions.active_transaction.memo());
            assert(gargs.0.transactions.active_transaction.memo()->Some_0.id() == tx0);
            assert(s1g.tx_live(tx0) && s1g.tx_handles(tx0) == 2);
            assert(s2g.tx_live(tx0) && s2g.tx_handles(tx0) == 2);
            assert(s3g.tx_live(tx0) && s3g.tx_handles(tx0) == 1);
        }
        let outcome: Result<T, Error> = match r {
            Ok(v) => {
                match transaction.commit(&mut sfin) {
                    Ok(()) => Ok(v),
                    Err(e) => Err(e),
                }
            }
            Err(e) => {
                transaction.cancel(&mut sfin);
                Err(e)
            }
        };
        proof {
            assert forall|x: u64| store.tx_live(x) implies #[trigger] sfin.tx_live(x)
                && sfin.tx_handles(x) == store.tx_handles(x) by {
                let i = choose|i: int| 0 <= i < store.live@.len() && store.live@[i].id == x;
                assert(store.live@[i].id < store.next_tx_id);
                assert(x != tx0);
                assert(s1g.tx_live(x));
                assert(s1g.tx_handles(x) == store.tx_handles(x));
                assert(s2g.tx_live(x));
                assert(s2g.tx_handles(x) == s1g.tx_handles(x));
                assert(s3g.tx_live(x));
                assert(s3g.tx_handles(x) == s2g.tx_handles(x));
                assert(sfin.tx_live(x));
                assert(sfin.tx_handles(x) == s3g.tx_handles(x));
            }
        }
        (sfin, outcome)
    }
}

/// Interpret an active-transaction production rule.
fn produce_transaction(producer: TxProducer, store: &mut TransactionStore) -> (t:
    ActiveTransaction)
    requires
        old(store).wf(),
        producer == TxProducer::BeginTransaction ==> old(store).next_tx_id < u64::MAX,
    ensures
        final(store).wf(),
        t.valid(*final(store)),
        final(store).entities_eq(*old(store)),
        final(store).committed == old(store).committed,
        producer == TxProducer::NoneTransaction ==> t.id() == 0 && *final(store) == *old(store),
        producer == TxProducer::BeginTransaction ==> {
            &&& t.id() == old(store).next_tx_id
            &&& t.id() != 0
            &&& !old(store).tx_live(t.id())
            &&& final(store).tx_live(t.id())
            &&& final(store).tx_handles(t.id()) == 1
            &&& final(store).next_tx_id == old(store).next_tx_id + 1
            &&& (forall|x: u64|
                old(store).tx_live(x) ==> #[trigger] final(store).tx_live(x) && final(store).tx_handles(x) == old(store).tx_handles(x))
            &&& (forall|x: u64|
                old(store).tx_live(x) ==> #[trigger] final(store).tx_handles(x) == old(store).tx_handles(x))
            &&& (forall|x: u64|
                #[trigger] final(store).tx_live(x) <==> (old(store).tx_live(x) || x == t.id()))
        },
{
    match producer {
        TxProducer::NoneTransaction => ActiveTransaction::none(),
        TxProducer::BeginTransaction => ActiveTransaction::begin(store),
    }
}

/// Interpret an order-store production rule.
fn produce_order_store(producer: StoreProducer) -> (s: OrderStore)
    ensures
        s == (OrderStore {  }),
{
    match producer {
        StoreProducer::InMemory => OrderStore {  },
    }
}

/// Interpret a customer-store production rule.
fn produce_customer_store(producer: StoreProducer) -> (s: CustomerStore)
    ensures
        s == (CustomerStore {  }),
{
    match producer {
        StoreProducer::InMemory => CustomerStore {  },
    }
}

/// Interpret a product-store production rule.
fn produce_product_store(producer: StoreProducer) -> (s: ProductStore)
    ensures
        s == (ProductStore {  }),
{
    match producer {
        StoreProducer::InMemory => ProductStore {  },
    }
}

} // verus!
