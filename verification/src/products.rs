//! Commands and queries over products, and a bounded batch loop.

use vstd::prelude::*;

use crate::active::ActiveTransaction;
use crate::entities::Product;
use crate::error::Error;
use crate::ids::ProductId;
use crate::resolver::Resolver;
use crate::store::TransactionStore;

verus! {

/// Input for creating a product.
#[derive(Clone, Copy, PartialEq, Eq, Structural, Debug)]
pub struct CreateProduct {
    pub id: ProductId,
}

/// Input for getting a product.
#[derive(Clone, Copy, PartialEq, Eq, Structural, Debug)]
pub struct GetProduct {
    pub id: ProductId,
}

/// Create the product named by `command`, writing through `transaction`.
/// Fails, leaving the store untouched, when a product with that id already
/// exists.
pub fn execute_create_product(
    command: CreateProduct,
    transaction: &ActiveTransaction,
    store: &mut TransactionStore,
) -> (r: Result<(), Error>)
    requires
        old(store).wf(),
        transaction.valid(*old(store)),
    ensures
        final(store).wf(),
        final(store).tx_state_eq(*old(store)),
        final(store).customers == old(store).customers,
        final(store).orders == old(store).orders,
        final(store).next_line_item_id == old(store).next_line_item_id,
        old(store).contains_product(command.id) ==> r == Result::<(), Error>::Err(
            Error::AlreadyExists,
        ) && *final(store) == *old(store),
        !old(store).contains_product(command.id) ==> {
            &&& r is Ok
            &&& final(store).spec_product(command.id) == Some(Product { id: command.id })
        },
        forall|x: ProductId|
            x != command.id ==> #[trigger] final(store).spec_product(x) == old(store).spec_product(
                x,
            ),
{
    match store.get_product(command.id) {
        Some(_) => Err(Error::AlreadyExists),
        None => {
            let product = match Product::new(command.id) {
                Ok(p) => p,
                Err(e) => {
                    return Err(e);
                }
            };
            store.set_product(transaction.get(), product)
        }
    }
}

/// Get the product named by `query`. Reads never fail.
pub fn execute_get_product(query: GetProduct, store: &TransactionStore) -> (r: Result<
    Option<Product>,
    Error,
>)
    requires
        store.wf(),
    ensures
        r == Result::<Option<Product>, Error>::Ok(store.spec_product(query.id)),
{
    Ok(store.get_product(query.id))
}

impl Resolver {
    /// Get a product: resolve the product store from this scope and run the
    /// query through it.
    pub fn get_product_query(&mut self, store: &TransactionStore, query: GetProduct) -> (r: Result<
        Option<Product>,
        Error,
    >)
        requires
            store.wf(),
            old(self).products.product_store.wf(),
            old(self).products.product_store.runs() < u64::MAX,
        ensures
            r == Result::<Option<Product>, Error>::Ok(store.spec_product(query.id)),
            final(self).transactions == old(self).transactions,
            final(self).orders == old(self).orders,
            final(self).customers == old(self).customers,
            final(self).products.product_store.wf(),
    {
        let _product_store = self.product_store();
        execute_get_product(query, store)
    }
}

/// The decimal digits of `n`, most significant first, as ASCII bytes.
pub open spec fn decimal_digits(n: nat) -> Seq<u8>
    decreases n,
{
    if n < 10 {
        seq![(48 + n) as u8]
    } else {
        decimal_digits(n / 10).push((48 + n % 10) as u8)
    }
}

/// State for one bounded batch run.
pub struct LoopState {
    limit: u64,
}

impl LoopState {
    /// The number of items the run may process.
    pub closed spec fn spec_limit(self) -> u64 {
        self.limit
    }

    /// Set up a run over `limit` items.
    pub fn new(limit: u64) -> (s: LoopState)
        ensures
            s.spec_limit() == limit,
    {
        LoopState { limit }
    }

    /// Whether the run has anything to do.
    pub fn should_run(&self) -> (b: bool)
        ensures
            b == (self.spec_limit() > 0),
    {
        self.limit > 0
    }
}

/// Process each item index below the limit in turn, returning how many were
/// handled.
pub fn process_items(state: LoopState) -> (n: u64)
    ensures
        n == state.spec_limit(),
{
    let mut i: u64 = 0;
    let limit = state.limit;
    while i < limit
        invariant
            i <= limit,
            limit == state.spec_limit(),
        decreases limit - i,
    {
        let _ = handle_iteration(i);
        i = i + 1;
    }
    i
}

/// Render one item index as its decimal digits.
pub fn handle_iteration(index: u64) -> (r: Vec<u8>)
    ensures
        r@ == decimal_digits(index as nat),
    decreases index,
{
    if index < 10 {
        let mut v: Vec<u8> = Vec::new();
        v.push(48 + (index as u8));
        proof {
            assert(v@ =~= decimal_digits(index as nat));
        }
        v
    } else {
        let mut v = handle_iteration(index / 10);
        v.push(48 + ((index % 10) as u8));
        proof {
            assert(v@ =~= decimal_digits(index as nat));
        }
        v
    }
}

/// Run the bounded batch loop when the limit asks for any work at all.
pub fn run_loop(limit: u64) {
    let state = LoopState::new(limit);

    if !state.should_run() {
        return ;
    }

    process_items(state);
}

} // verus!
