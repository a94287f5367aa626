//! The in-memory store: raw transactions with their handle counts, and the
//! entity tables the commands and queries work on.
//!
//! All shared mutable state of the core lives in one [`TransactionStore`]
//! value that callers thread through the calls. Raw transactions are begun,
//! committed and cancelled here; the exclusivity discipline on their handles
//! is enforced one level up by [`crate::active::ActiveTransaction`], which
//! keeps the per-transaction handle count in this store.
//!
//! Writes performed through a live transaction are applied to the entity
//! tables immediately; committing or cancelling a transaction finalizes the
//! protocol (the transaction leaves the live set) but does not replay or
//! undo writes. A unit of work that is abandoned after some writes therefore
//! leaves exactly those writes behind.

use vstd::prelude::*;

use crate::entities::{has_line_item, has_product, Customer, LineItem, Order, Product};
use crate::error::Error;
use crate::ids::{CustomerId, LineItemId, OrderId, ProductId};

verus! {

/// An opaque token for one transaction begun by the store. The id `0` is
/// reserved for the no-op transaction that exists outside any unit of work.
#[derive(Clone, Copy, PartialEq, Eq, Structural, Debug)]
pub struct RawTransaction {
    pub id: u64,
}

impl RawTransaction {
    /// The no-op transaction used outside any unit of work.
    pub fn none() -> (t: RawTransaction)
        ensures
            t.id == 0,
    {
        RawTransaction { id: 0 }
    }
}

/// Bookkeeping for one live transaction: its id and the number of
/// [`crate::active::ActiveTransaction`] handles that share it.
#[derive(Clone, Copy, PartialEq, Eq, Structural, Debug)]
pub struct TxRecord {
    pub id: u64,
    pub handles: u64,
}

/// Whether all transaction ids in `s` are distinct.
pub open spec fn tx_ids_unique(s: Seq<TxRecord>) -> bool {
    forall|i: int, j: int| 0 <= i < j < s.len() ==> s[i].id != s[j].id
}

/// The position of the record for `id` in `s` (meaningful only when one
/// exists).
pub open spec fn tx_index(s: Seq<TxRecord>, id: u64) -> int {
    choose|i: int| 0 <= i < s.len() && s[i].id == id
}

/// When ids are unique, the record position is the one found by a scan.
pub proof fn lemma_tx_index(s: Seq<TxRecord>, id: u64, i: int)
    requires
        tx_ids_unique(s),
        0 <= i < s.len(),
        s[i].id == id,
    ensures
        tx_index(s, id) == i,
{
    let j = tx_index(s, id);
    assert(0 <= j < s.len() && s[j].id == id);
}

/// Whether all customer ids in `s` are distinct.
pub open spec fn customer_ids_unique(s: Seq<Customer>) -> bool {
    forall|i: int, j: int| 0 <= i < j < s.len() ==> s[i].id != s[j].id
}

/// Whether all order ids in `s` are distinct.
pub open spec fn order_ids_unique(s: Seq<Order>) -> bool {
    forall|i: int, j: int| 0 <= i < j < s.len() ==> s[i].id != s[j].id
}

/// Whether all product ids in `s` are distinct.
pub open spec fn product_ids_unique(s: Seq<Product>) -> bool {
    forall|i: int, j: int| 0 <= i < j < s.len() ==> s[i].id != s[j].id
}

/// An order is well formed with respect to the line-item id counter when its
/// line-item ids and product ids are distinct and every line-item id was
/// handed out by the counter.
pub open spec fn order_wf(o: Order, next_line_item_id: u64) -> bool {
    &&& (forall|i: int, j: int|
        0 <= i < j < o.line_items@.len() ==> o.line_items@[i].id != o.line_items@[j].id)
    &&& (forall|i: int, j: int|
        0 <= i < j < o.line_items@.len() ==> o.line_items@[i].product_id
            != o.line_items@[j].product_id)
    &&& (forall|i: int|
        0 <= i < o.line_items@.len() ==> o.line_items@[i].id.0 < next_line_item_id)
}

/// The in-memory store: transaction bookkeeping plus the entity tables.
pub struct TransactionStore {
    /// The id the next begun transaction will get; ids start at 1.
    pub next_tx_id: u64,
    /// The transactions that have been begun and neither committed nor
    /// cancelled, each with its live handle count.
    pub live: Vec<TxRecord>,
    /// The ids of the transactions that were committed.
    pub committed: Vec<u64>,
    /// The customer table.
    pub customers: Vec<Customer>,
    /// The order table.
    pub orders: Vec<Order>,
    /// The product table.
    pub products: Vec<Product>,
    /// The id the next created line item will get; ids start at 1.
    pub next_line_item_id: u64,
}

impl TransactionStore {
    /// Whether a transaction with this id is live.
    pub open spec fn tx_live(self, id: u64) -> bool {
        exists|i: int| 0 <= i < self.live@.len() && self.live@[i].id == id
    }

    /// The number of handles sharing the live transaction `id`.
    pub open spec fn tx_handles(self, id: u64) -> u64 {
        self.live@[tx_index(self.live@, id)].handles
    }

    /// Whether the transaction `id` was committed.
    pub open spec fn tx_committed(self, id: u64) -> bool {
        self.committed@.contains(id)
    }

    /// Whether writes may be performed through the transaction `id`: it is
    /// either the no-op transaction or still live.
    pub open spec fn tx_usable(self, id: u64) -> bool {
        id == 0 || self.tx_live(id)
    }

    /// The entity tables and the line-item counter are the same in both
    /// stores.
    pub open spec fn entities_eq(self, other: TransactionStore) -> bool {
        &&& self.customers == other.customers
        &&& self.orders == other.orders
        &&& self.products == other.products
        &&& self.next_line_item_id == other.next_line_item_id
    }

    /// The transaction bookkeeping is the same in both stores.
    pub open spec fn tx_state_eq(self, other: TransactionStore) -> bool {
        &&& self.next_tx_id == other.next_tx_id
        &&& self.live == other.live
        &&& self.committed == other.committed
    }

    /// The store invariant: ids are unique, live records carry at least one
    /// handle, committed transactions are no longer live, and every order is
    /// consistent with the line-item counter.
    pub open spec fn wf(self) -> bool {
        &&& self.next_tx_id >= 1
        &&& tx_ids_unique(self.live@)
        &&& (forall|i: int|
            0 <= i < self.live@.len() ==> 1 <= #[trigger] self.live@[i].id < self.next_tx_id
                && self.live@[i].handles >= 1)
        &&& (forall|i: int|
            0 <= i < self.committed@.len() ==> 1 <= #[trigger] self.committed@[i]
                < self.next_tx_id && !self.tx_live(self.committed@[i]))
        &&& customer_ids_unique(self.customers@)
        &&& order_ids_unique(self.orders@)
        &&& product_ids_unique(self.products@)
        &&& (forall|i: int|
            0 <= i < self.orders@.len() ==> order_wf(
                #[trigger] self.orders@[i],
                self.next_line_item_id,
            ))
        &&& self.next_line_item_id >= 1
    }

    /// A store with no transactions and no entities.
    pub fn new() -> (s: TransactionStore)
        ensures
            s.wf(),
            s.next_tx_id == 1,
            s.live@ =~= Seq::<TxRecord>::empty(),
            s.committed@ =~= Seq::<u64>::empty(),
            s.customers@ =~= Seq::<Customer>::empty(),
            s.orders@ =~= Seq::<Order>::empty(),
            s.products@ =~= Seq::<Product>::empty(),
            s.next_line_item_id == 1,
    {
        TransactionStore {
            next_tx_id: 1,
            live: Vec::new(),
            committed: Vec::new(),
            customers: Vec::new(),
            orders: Vec::new(),
            products: Vec::new(),
            next_line_item_id: 1,
        }
    }

    /// The position of the live record for `id`, if there is one.
    fn find_tx(&self, id: u64) -> (r: Option<usize>)
        ensures
            match r {
                Some(i) => i < self.live@.len() && self.live@[i as int].id == id,
                None => !self.tx_live(id),
            },
    {
        let mut i: usize = 0;
        while i < self.live.len()
            invariant
                i <= self.live.len(),
                forall|j: int| 0 <= j < i ==> self.live@[j].id != id,
            decreases self.live.len() - i,
        {
            if self.live[i].id == id {
                return Some(i);
            }
            i = i + 1;
        }
        None
    }

    /// Begin a fresh raw transaction with a single handle on it.
    pub fn begin(&mut self) -> (t: RawTransaction)
        requires
            old(self).wf(),
            old(self).next_tx_id < u64::MAX,
        ensures
            final(self).wf(),
            t.id == old(self).next_tx_id,
            1 <= t.id,
            !old(self).tx_live(t.id),
            final(self).live@ == old(self).live@.push(TxRecord { id: t.id, handles: 1 }),
            final(self).tx_live(t.id),
            final(self).tx_handles(t.id) == 1,
            final(self).next_tx_id == old(self).next_tx_id + 1,
            final(self).committed == old(self).committed,
            final(self).entities_eq(*old(self)),
            forall|x: u64|
                old(self).tx_live(x) ==> #[trigger] final(self).tx_live(x) && final(self).tx_handles(x) == old(self).tx_handles(x),
            forall|x: u64|
                old(self).tx_live(x) ==> #[trigger] final(self).tx_handles(x) == old(self).tx_handles(x),
            forall|x: u64| #[trigger] final(self).tx_live(x) <==> (old(self).tx_live(x) || x == t.id),
    {
        let id = self.next_tx_id;
        self.next_tx_id = self.next_tx_id + 1;
        self.live.push(TxRecord { id, handles: 1 });
        proof {
            let s = self.live@;
            let n = s.len() - 1;
            assert(s[n].id == id);
            lemma_tx_index(s, id, n);
            assert forall|x: u64| old(self).tx_live(x) implies #[trigger] self.tx_live(x) && self.tx_handles(
                x,
            ) == old(self).tx_handles(x) by {
                let i = choose|i: int| 0 <= i < old(self).live@.len() && old(self).live@[i].id == x;
                assert(s[i].id == x);
                lemma_tx_index(old(self).live@, x, i);
                lemma_tx_index(s, x, i);
            }
            assert forall|x: u64| old(self).tx_live(x) implies #[trigger] self.tx_handles(x) == old(self).tx_handles(x) by {
                let i = choose|i: int| 0 <= i < old(self).live@.len() && old(self).live@[i].id == x;
                assert(s[i].id == x);
                lemma_tx_index(old(self).live@, x, i);
                lemma_tx_index(s, x, i);
            }
        }
        RawTransaction { id }
    }

    /// Add one handle to the live transaction `id`.
    pub(crate) fn add_handle(&mut self, id: u64)
        requires
            old(self).wf(),
            old(self).tx_live(id),
            old(self).tx_handles(id) < u64::MAX,
        ensures
            final(self).wf(),
            final(self).next_tx_id == old(self).next_tx_id,
            final(self).committed == old(self).committed,
            final(self).entities_eq(*old(self)),
            final(self).tx_live(id),
            final(self).tx_handles(id) == old(self).tx_handles(id) + 1,
            forall|x: u64| #[trigger] final(self).tx_live(x) <==> old(self).tx_live(x),
            forall|x: u64|
                x != id && old(self).tx_live(x) ==> #[trigger] final(self).tx_handles(x) == old(self).tx_handles(x),
    {
        let i = self.find_tx(id).unwrap();
        proof {
            lemma_tx_index(self.live@, id, i as int);
        }
        let h = self.live[i].handles;
        self.live.set(i, TxRecord { id, handles: h + 1 });
        proof {
            let old_s = old(self).live@;
            let s = self.live@;
            assert(s == old_s.update(i as int, TxRecord { id, handles: (h + 1) as u64 }));
            lemma_tx_index(s, id, i as int);
            assert forall|x: u64| #[trigger] self.tx_live(x) <==> old(self).tx_live(x) by {
                if self.tx_live(x) {
                    let k = choose|k: int| 0 <= k < s.len() && s[k].id == x;
                    assert(old_s[k].id == x);
                }
                if old(self).tx_live(x) {
                    let k = choose|k: int| 0 <= k < old_s.len() && old_s[k].id == x;
                    assert(s[k].id == x);
                }
            }
            assert forall|x: u64| x != id && old(self).tx_live(x) implies #[trigger] self.tx_handles(
                x,
            ) == old(self).tx_handles(x) by {
                let k = choose|k: int| 0 <= k < old_s.len() && old_s[k].id == x;
                lemma_tx_index(old_s, x, k);
                assert(s[k].id == x);
                lemma_tx_index(s, x, k);
            }
        }
    }

    /// Remove one handle from the live transaction `id`, which at least one
    /// other handle still shares.
    pub(crate) fn remove_handle(&mut self, id: u64)
        requires
            old(self).wf(),
            old(self).tx_live(id),
            old(self).tx_handles(id) >= 2,
        ensures
            final(self).wf(),
            final(self).next_tx_id == old(self).next_tx_id,
            final(self).committed == old(self).committed,
            final(self).entities_eq(*old(self)),
            final(self).tx_live(id),
            final(self).tx_handles(id) == old(self).tx_handles(id) - 1,
            forall|x: u64| #[trigger] final(self).tx_live(x) <==> old(self).tx_live(x),
            forall|x: u64|
                x != id && old(self).tx_live(x) ==> #[trigger] final(self).tx_handles(x) == old(self).tx_handles(x),
    {
        let i = self.find_tx(id).unwrap();
        proof {
            lemma_tx_index(self.live@, id, i as int);
        }
        let h = self.live[i].handles;
        self.live.set(i, TxRecord { id, handles: h - 1 });
        proof {
            let old_s = old(self).live@;
            let s = self.live@;
            lemma_tx_index(s, id, i as int);
            assert forall|x: u64| #[trigger] self.tx_live(x) <==> old(self).tx_live(x) by {
                if self.tx_live(x) {
                    let k = choose|k: int| 0 <= k < s.len() && s[k].id == x;
                    assert(old_s[k].id == x);
                }
                if old(self).tx_live(x) {
                    let k = choose|k: int| 0 <= k < old_s.len() && old_s[k].id == x;
                    assert(s[k].id == x);
                }
            }
            assert forall|x: u64| x != id && old(self).tx_live(x) implies #[trigger] self.tx_handles(
                x,
            ) == old(self).tx_handles(x) by {
                let k = choose|k: int| 0 <= k < old_s.len() && old_s[k].id == x;
                lemma_tx_index(old_s, x, k);
                assert(s[k].id == x);
                lemma_tx_index(s, x, k);
            }
        }
    }

    /// The handle count of the live transaction `id`.
    pub(crate) fn handles_of(&self, id: u64) -> (h: u64)
        requires
            self.wf(),
            self.tx_live(id),
        ensures
            h == self.tx_handles(id),
    {
        let i = self.find_tx(id).unwrap();
        proof {
            lemma_tx_index(self.live@, id, i as int);
        }
        self.live[i].handles
    }

    /// Finish the live transaction `t` as committed: it leaves the live set
    /// and its id is recorded as committed. The entity tables stay as the
    /// writes made through the transaction left them.
    pub(crate) fn commit(&mut self, t: RawTransaction)
        requires
            old(self).wf(),
            old(self).tx_live(t.id),
        ensures
            final(self).wf(),
            final(self).next_tx_id == old(self).next_tx_id,
            final(self).entities_eq(*old(self)),
            !final(self).tx_live(t.id),
            final(self).tx_committed(t.id),
            final(self).committed@ == old(self).committed@.push(t.id),
            forall|x: u64| x != t.id ==> (#[trigger] final(self).tx_live(x) <==> old(self).tx_live(x)),
            forall|x: u64|
                x != t.id && old(self).tx_live(x) ==> #[trigger] final(self).tx_handles(x) == old(self).tx_handles(x),
    {
        self.drop_tx(t.id);
        let ghost mid = *self;
        self.committed.push(t.id);
        proof {
            assert(self.committed@[self.committed@.len() - 1] == t.id);
            assert(self.live@ == mid.live@);
            assert forall|x: u64| #[trigger] self.tx_live(x) == mid.tx_live(x) by {
                assert(self.live@ == mid.live@);
            }
            assert forall|x: u64| mid.tx_live(x) implies #[trigger] self.tx_handles(x)
                == mid.tx_handles(x) by {
                assert(self.live@ == mid.live@);
            }
        }
    }

    /// Finish the live transaction `t` as cancelled: it leaves the live set
    /// and is not recorded as committed. The entity tables stay as the
    /// writes made through the transaction left them.
    pub(crate) fn cancel(&mut self, t: RawTransaction)
        requires
            old(self).wf(),
            old(self).tx_live(t.id),
        ensures
            final(self).wf(),
            final(self).next_tx_id == old(self).next_tx_id,
            final(self).entities_eq(*old(self)),
            final(self).committed == old(self).committed,
            !final(self).tx_live(t.id),
            forall|x: u64| x != t.id ==> (#[trigger] final(self).tx_live(x) <==> old(self).tx_live(x)),
            forall|x: u64|
                x != t.id && old(self).tx_live(x) ==> #[trigger] final(self).tx_handles(x) == old(self).tx_handles(x),
    {
        self.drop_tx(t.id);
    }

    /// Remove the live record for `id`.
    fn drop_tx(&mut self, id: u64)
        requires
            old(self).wf(),
            old(self).tx_live(id),
        ensures
            final(self).wf(),
            final(self).next_tx_id == old(self).next_tx_id,
            final(self).committed == old(self).committed,
            final(self).entities_eq(*old(self)),
            !final(self).tx_live(id),
            forall|x: u64| x != id ==> (#[trigger] final(self).tx_live(x) <==> old(self).tx_live(x)),
            forall|x: u64|
                x != id && old(self).tx_live(x) ==> #[trigger] final(self).tx_handles(x) == old(self).tx_handles(x),
    {
        let i = self.find_tx(id).unwrap();
        proof {
            lemma_tx_index(self.live@, id, i as int);
        }
        self.live.remove(i);
        proof {
            let old_s = old(self).live@;
            let s = self.live@;
            assert(s == old_s.remove(i as int));
            assert forall|x: u64| x != id implies (#[trigger] self.tx_live(x) <==> old(self).tx_live(
                x,
            )) by {
                if self.tx_live(x) {
                    let k = choose|k: int| 0 <= k < s.len() && s[k].id == x;
                    if k < i {
                        assert(old_s[k].id == x);
                    } else {
                        assert(old_s[k + 1].id == x);
                    }
                }
                if old(self).tx_live(x) {
                    let k = choose|k: int| 0 <= k < old_s.len() && old_s[k].id == x;
                    if k < i {
                        assert(s[k].id == x);
                    } else {
                        assert(s[k - 1].id == x);
                    }
                }
            }
            assert(!self.tx_live(id)) by {
                if self.tx_live(id) {
                    let k = choose|k: int| 0 <= k < s.len() && s[k].id == id;
                    if k < i {
                        assert(old_s[k].id == id);
                        lemma_tx_index(old_s, id, k);
                    } else {
                        assert(old_s[k + 1].id == id);
                        lemma_tx_index(old_s, id, k + 1);
                    }
                }
            }
            assert forall|x: u64| x != id && old(self).tx_live(x) implies #[trigger] self.tx_handles(
                x,
            ) == old(self).tx_handles(x) by {
                let k = choose|k: int| 0 <= k < old_s.len() && old_s[k].id == x;
                lemma_tx_index(old_s, x, k);
                if k < i {
                    assert(s[k].id == x);
                    lemma_tx_index(s, x, k);
                } else {
                    assert(s[k - 1].id == x);
                    lemma_tx_index(s, x, k - 1);
                }
            }
        }
    }
}

/// Whether `s` holds a customer with this id.
pub open spec fn seq_has_customer(s: Seq<Customer>, id: CustomerId) -> bool {
    exists|i: int| 0 <= i < s.len() && s[i].id == id
}

/// The position of the customer with `id` in `s` (meaningful only when one
/// exists).
pub open spec fn customer_index(s: Seq<Customer>, id: CustomerId) -> int {
    choose|i: int| 0 <= i < s.len() && s[i].id == id
}

/// When ids are unique, the customer position is the one found by a scan.
pub proof fn lemma_customer_index(s: Seq<Customer>, id: CustomerId, i: int)
    requires
        customer_ids_unique(s),
        0 <= i < s.len(),
        s[i].id == id,
    ensures
        seq_has_customer(s, id),
        customer_index(s, id) == i,
{
    assert(seq_has_customer(s, id)) by {
        assert(0 <= i < s.len() && s[i].id == id);
    }
    let j = customer_index(s, id);
    assert(0 <= j < s.len() && s[j].id == id);
}

/// Whether `s` holds a order with this id.
pub open spec fn seq_has_order(s: Seq<Order>, id: OrderId) -> bool {
    exists|i: int| 0 <= i < s.len() && s[i].id == id
}

/// The position of the order with `id` in `s` (meaningful only when one
/// exists).
pub open spec fn order_index(s: Seq<Order>, id: OrderId) -> int {
    choose|i: int| 0 <= i < s.len() && s[i].id == id
}

/// When ids are unique, the order position is the one found by a scan.
pub proof fn lemma_order_index(s: Seq<Order>, id: OrderId, i: int)
    requires
        order_ids_unique(s),
        0 <= i < s.len(),
        s[i].id == id,
    ensures
        seq_has_order(s, id),
        order_index(s, id) == i,
{
    assert(seq_has_order(s, id)) by {
        assert(0 <= i < s.len() && s[i].id == id);
    }
    let j = order_index(s, id);
    assert(0 <= j < s.len() && s[j].id == id);
}

/// Whether `s` holds a product with this id.
pub open spec fn seq_has_product(s: Seq<Product>, id: ProductId) -> bool {
    exists|i: int| 0 <= i < s.len() && s[i].id == id
}

/// The position of the product with `id` in `s` (meaningful only when one
/// exists).
pub open spec fn product_index(s: Seq<Product>, id: ProductId) -> int {
    choose|i: int| 0 <= i < s.len() && s[i].id == id
}

/// When ids are unique, the product position is the one found by a scan.
pub proof fn lemma_product_index(s: Seq<Product>, id: ProductId, i: int)
    requires
        product_ids_unique(s),
        0 <= i < s.len(),
        s[i].id == id,
    ensures
        seq_has_product(s, id),
        product_index(s, id) == i,
{
    assert(seq_has_product(s, id)) by {
        assert(0 <= i < s.len() && s[i].id == id);
    }
    let j = product_index(s, id);
    assert(0 <= j < s.len() && s[j].id == id);
}

/// The position of the line item with `id` in `items` (meaningful only when
/// one exists).
pub open spec fn line_item_index(items: Seq<LineItem>, id: LineItemId) -> int {
    choose|i: int| 0 <= i < items.len() && items[i].id == id
}

/// The position of the line item for `product_id` in `items` (meaningful
/// only when one exists).
pub open spec fn product_line_index(items: Seq<LineItem>, product_id: ProductId) -> int {
    choose|i: int| 0 <= i < items.len() && items[i].product_id == product_id
}

/// When line-item ids are distinct, the line-item position is the one found
/// by a scan.
pub proof fn lemma_line_item_index(items: Seq<LineItem>, id: LineItemId, i: int)
    requires
        forall|a: int, b: int| 0 <= a < b < items.len() ==> items[a].id != items[b].id,
        0 <= i < items.len(),
        items[i].id == id,
    ensures
        has_line_item(items, id),
        line_item_index(items, id) == i,
{
    assert(has_line_item(items, id)) by {
        assert(0 <= i < items.len() && items[i].id == id);
    }
    let j = line_item_index(items, id);
    assert(0 <= j < items.len() && items[j].id == id);
}

/// When product ids are distinct within an order, the position of the line
/// item for a product is the one found by a scan.
pub proof fn lemma_product_line_index(items: Seq<LineItem>, product_id: ProductId, i: int)
    requires
        forall|a: int, b: int| 0 <= a < b < items.len() ==> items[a].product_id != items[b].product_id,
        0 <= i < items.len(),
        items[i].product_id == product_id,
    ensures
        has_product(items, product_id),
        product_line_index(items, product_id) == i,
{
    assert(has_product(items, product_id)) by {
        assert(0 <= i < items.len() && items[i].product_id == product_id);
    }
    let j = product_line_index(items, product_id);
    assert(0 <= j < items.len() && items[j].product_id == product_id);
}

impl TransactionStore {
    /// Whether the store holds a customer with this id.
    pub open spec fn contains_customer(self, id: CustomerId) -> bool {
        seq_has_customer(self.customers@, id)
    }

    /// Whether the store holds an order with this id.
    pub open spec fn contains_order(self, id: OrderId) -> bool {
        seq_has_order(self.orders@, id)
    }

    /// Whether the store holds a product with this id.
    pub open spec fn contains_product(self, id: ProductId) -> bool {
        seq_has_product(self.products@, id)
    }

    /// The customer with this id, if the store holds one.
    pub open spec fn spec_customer(self, id: CustomerId) -> Option<Customer> {
        if self.contains_customer(id) {
            Some(self.customers@[customer_index(self.customers@, id)])
        } else {
            None
        }
    }

    /// The order with this id, if the store holds one.
    pub open spec fn spec_order(self, id: OrderId) -> Option<Order> {
        if self.contains_order(id) {
            Some(self.orders@[order_index(self.orders@, id)])
        } else {
            None
        }
    }

    /// The product with this id, if the store holds one.
    pub open spec fn spec_product(self, id: ProductId) -> Option<Product> {
        if self.contains_product(id) {
            Some(self.products@[product_index(self.products@, id)])
        } else {
            None
        }
    }

    /// Get the customer with this id.
    #[verifier::loop_isolation(false)]
    pub fn get_customer(&self, id: CustomerId) -> (r: Option<Customer>)
        requires
            self.wf(),
        ensures
            r == self.spec_customer(id),
            r is Some <==> self.contains_customer(id),
    {
        let mut i: usize = 0;
        while i < self.customers.len()
            invariant
                i <= self.customers.len(),
                forall|j: int| 0 <= j < i ==> self.customers@[j].id != id,
            decreases self.customers.len() - i,
        {
            if self.customers[i].id == id {
                proof {
                    lemma_customer_index(self.customers@, id, i as int);
                }
                return Some(self.customers[i]);
            }
            i = i + 1;
        }
        proof {
            if self.contains_customer(id) {
                let k = choose|k: int| 0 <= k < self.customers@.len() && self.customers@[k].id == id;
                assert(false);
            }
        }
        None
    }

    /// Get the product with this id.
    #[verifier::loop_isolation(false)]
    pub fn get_product(&self, id: ProductId) -> (r: Option<Product>)
        requires
            self.wf(),
        ensures
            r == self.spec_product(id),
            r is Some <==> self.contains_product(id),
    {
        let mut i: usize = 0;
        while i < self.products.len()
            invariant
                i <= self.products.len(),
                forall|j: int| 0 <= j < i ==> self.products@[j].id != id,
            decreases self.products.len() - i,
        {
            if self.products[i].id == id {
                proof {
                    lemma_product_index(self.products@, id, i as int);
                }
                return Some(self.products[i]);
            }
            i = i + 1;
        }
        proof {
            if self.contains_product(id) {
                let k = choose|k: int| 0 <= k < self.products@.len() && self.products@[k].id == id;
                assert(false);
            }
        }
        None
    }

    /// Borrow the order with this id.
    #[verifier::loop_isolation(false)]
    pub fn get_order(&self, id: OrderId) -> (r: Option<&Order>)
        requires
            self.wf(),
        ensures
            match r {
                Some(o) => self.contains_order(id) && Some(*o) == self.spec_order(id),
                None => !self.contains_order(id),
            },
    {
        let mut i: usize = 0;
        while i < self.orders.len()
            invariant
                i <= self.orders.len(),
                forall|j: int| 0 <= j < i ==> self.orders@[j].id != id,
            decreases self.orders.len() - i,
        {
            if self.orders[i].id == id {
                proof {
                    lemma_order_index(self.orders@, id, i as int);
                }
                return Some(&self.orders[i]);
            }
            i = i + 1;
        }
        proof {
            if self.contains_order(id) {
                let k = choose|k: int| 0 <= k < self.orders@.len() && self.orders@[k].id == id;
                assert(false);
            }
        }
        None
    }

    /// Insert the customer, or replace the one that has the same id. The write
    /// goes through `tx`, which must be the no-op transaction or still live.
    #[verifier::loop_isolation(false)]
    pub fn set_customer(&mut self, tx: RawTransaction, customer: Customer) -> (r: Result<(), Error>)
        requires
            old(self).wf(),
            old(self).tx_usable(tx.id),
        ensures
            r is Ok,
            final(self).wf(),
            final(self).tx_state_eq(*old(self)),
            final(self).orders == old(self).orders,
            final(self).products == old(self).products,
            final(self).next_line_item_id == old(self).next_line_item_id,
            final(self).spec_customer(customer.id) == Some(customer),
            forall|x: CustomerId|
                x != customer.id ==> #[trigger] final(self).spec_customer(x) == old(self).spec_customer(x),
            forall|x: CustomerId|
                #[trigger] final(self).contains_customer(x) <==> (old(self).contains_customer(x) || x
                    == customer.id),
            !old(self).contains_customer(customer.id) ==> final(self).customers@ == old(self).customers@.push(customer),
    {
        let ghost old_s = self.customers@;
        let id = customer.id;
        let mut i: usize = 0;
        while i < self.customers.len()
            invariant
                i <= self.customers.len(),
                forall|j: int| 0 <= j < i ==> self.customers@[j].id != id,
                self.customers@ == old_s,
                *self == *old(self),
                id == customer.id,
            decreases self.customers.len() - i,
        {
            if self.customers[i].id == id {
                self.customers.set(i, customer);
                proof {
                    let s = self.customers@;
                    lemma_customer_update(old_s, s, i as int, s[i as int]);
                }
                return Ok(());
            }
            i = i + 1;
        }
        proof {
            if seq_has_customer(old_s, id) {
                let k = choose|k: int| 0 <= k < old_s.len() && old_s[k].id == id;
                assert(false);
            }
        }
        self.customers.push(customer);
        proof {
            let s = self.customers@;
            lemma_customer_push(old_s, s, s[s.len() - 1]);
        }
        Ok(())
    }

    /// Insert the order, or replace the one that has the same id. The write
    /// goes through `tx`, which must be the no-op transaction or still live.
    #[verifier::loop_isolation(false)]
    pub fn set_order(&mut self, tx: RawTransaction, order: Order) -> (r: Result<(), Error>)
        requires
            old(self).wf(),
            old(self).tx_usable(tx.id),
            order_wf(order, old(self).next_line_item_id),
        ensures
            r is Ok,
            final(self).wf(),
            final(self).tx_state_eq(*old(self)),
            final(self).customers == old(self).customers,
            final(self).products == old(self).products,
            final(self).next_line_item_id == old(self).next_line_item_id,
            final(self).spec_order(order.id) == Some(order),
            forall|x: OrderId|
                x != order.id ==> #[trigger] final(self).spec_order(x) == old(self).spec_order(x),
            forall|x: OrderId|
                #[trigger] final(self).contains_order(x) <==> (old(self).contains_order(x) || x
                    == order.id),
            !old(self).contains_order(order.id) ==> final(self).orders@ == old(self).orders@.push(order),
    {
        let ghost old_s = self.orders@;
        let id = order.id;
        let mut i: usize = 0;
        while i < self.orders.len()
            invariant
                i <= self.orders.len(),
                forall|j: int| 0 <= j < i ==> self.orders@[j].id != id,
                self.orders@ == old_s,
                *self == *old(self),
                id == order.id,
            decreases self.orders.len() - i,
        {
            if self.orders[i].id == id {
                self.orders.set(i, order);
                proof {
                    let s = self.orders@;
                    lemma_order_update(old_s, s, i as int, s[i as int]);
                }
                return Ok(());
            }
            i = i + 1;
        }
        proof {
            if seq_has_order(old_s, id) {
                let k = choose|k: int| 0 <= k < old_s.len() && old_s[k].id == id;
                assert(false);
            }
        }
        self.orders.push(order);
        proof {
            let s = self.orders@;
            lemma_order_push(old_s, s, s[s.len() - 1]);
        }
        Ok(())
    }

    /// Insert the product, or replace the one that has the same id. The write
    /// goes through `tx`, which must be the no-op transaction or still live.
    #[verifier::loop_isolation(false)]
    pub fn set_product(&mut self, tx: RawTransaction, product: Product) -> (r: Result<(), Error>)
        requires
            old(self).wf(),
            old(self).tx_usable(tx.id),
        ensures
            r is Ok,
            final(self).wf(),
            final(self).tx_state_eq(*old(self)),
            final(self).customers == old(self).customers,
            final(self).orders == old(self).orders,
            final(self).next_line_item_id == old(self).next_line_item_id,
            final(self).spec_product(product.id) == Some(product),
            forall|x: ProductId|
                x != product.id ==> #[trigger] final(self).spec_product(x) == old(self).spec_product(x),
            forall|x: ProductId|
                #[trigger] final(self).contains_product(x) <==> (old(self).contains_product(x) || x
                    == product.id),
            !old(self).contains_product(product.id) ==> final(self).products@ == old(self).products@.push(product),
    {
        let ghost old_s = self.products@;
        let id = product.id;
        let mut i: usize = 0;
        while i < self.products.len()
            invariant
                i <= self.products.len(),
                forall|j: int| 0 <= j < i ==> self.products@[j].id != id,
                self.products@ == old_s,
                *self == *old(self),
                id == product.id,
            decreases self.products.len() - i,
        {
            if self.products[i].id == id {
                self.products.set(i, product);
                proof {
                    let s = self.products@;
                    lemma_product_update(old_s, s, i as int, s[i as int]);
                }
                return Ok(());
            }
            i = i + 1;
        }
        proof {
            if seq_has_product(old_s, id) {
                let k = choose|k: int| 0 <= k < old_s.len() && old_s[k].id == id;
                assert(false);
            }
        }
        self.products.push(product);
        proof {
            let s = self.products@;
            lemma_product_push(old_s, s, s[s.len() - 1]);
        }
        Ok(())
    }

    /// The position of the order with this id, if there is one.
    fn find_order(&self, id: OrderId) -> (r: Option<usize>)
        ensures
            match r {
                Some(i) => i < self.orders@.len() && self.orders@[i as int].id == id,
                None => !self.contains_order(id),
            },
    {
        let mut i: usize = 0;
        while i < self.orders.len()
            invariant
                i <= self.orders.len(),
                forall|j: int| 0 <= j < i ==> self.orders@[j].id != id,
            decreases self.orders.len() - i,
        {
            if self.orders[i].id == id {
                return Some(i);
            }
            i = i + 1;
        }
        proof {
            if self.contains_order(id) {
                let k = choose|k: int| 0 <= k < self.orders@.len() && self.orders@[k].id == id;
                assert(false);
            }
        }
        None
    }

    /// Get the line item with this id from the order with `order_id`.
    #[verifier::loop_isolation(false)]
    pub fn get_line_item(&self, order_id: OrderId, line_item_id: LineItemId) -> (r: Option<
        LineItem,
    >)
        requires
            self.wf(),
        ensures
            !self.contains_order(order_id) ==> r is None,
            self.contains_order(order_id) ==> ({
                let o = self.spec_order(order_id)->Some_0;
                &&& (has_line_item(o.line_items@, line_item_id) ==> r == Some(
                    o.line_items@[line_item_index(o.line_items@, line_item_id)],
                ))
                &&& (!has_line_item(o.line_items@, line_item_id) ==> r is None)
            }),
    {
        let order = match self.get_order(order_id) {
            Some(o) => o,
            None => {
                return None;
            }
        };
        let mut i: usize = 0;
        while i < order.line_items.len()
            invariant
                i <= order.line_items.len(),
                forall|j: int| 0 <= j < i ==> order.line_items@[j].id != line_item_id,
            decreases order.line_items.len() - i,
        {
            if order.line_items[i].id == line_item_id {
                proof {
                    lemma_line_item_index(order.line_items@, line_item_id, i as int);
                }
                return Some(order.line_items[i]);
            }
            i = i + 1;
        }
        None
    }

    /// Replace the line item that has `item`'s id within the order with
    /// `order_id`. The write goes through `tx`, which must be the no-op
    /// transaction or still live. Fails when the order or the line item is
    /// missing, or when the replacement names another product.
    #[verifier::loop_isolation(false)]
    pub fn set_line_item(&mut self, tx: RawTransaction, order_id: OrderId, item: LineItem) -> (r:
        Result<(), Error>)
        requires
            old(self).wf(),
            old(self).tx_usable(tx.id),
        ensures
            final(self).wf(),
            final(self).tx_state_eq(*old(self)),
            final(self).customers == old(self).customers,
            final(self).products == old(self).products,
            final(self).next_line_item_id == old(self).next_line_item_id,
            forall|x: OrderId|
                x != order_id ==> #[trigger] final(self).spec_order(x) == old(self).spec_order(x),
            forall|x: OrderId|
                #[trigger] final(self).contains_order(x) <==> old(self).contains_order(x),
            !old(self).contains_order(order_id) ==> r == Result::<(), Error>::Err(Error::NotFound)
                && *final(self) == *old(self),
            old(self).contains_order(order_id) ==> ({
                let o = old(self).spec_order(order_id)->Some_0;
                &&& (!has_line_item(o.line_items@, item.id) ==> r == Result::<(), Error>::Err(
                    Error::NotFound,
                ) && *final(self) == *old(self))
                &&& (has_line_item(o.line_items@, item.id) && o.line_items@[line_item_index(
                    o.line_items@,
                    item.id,
                )].product_id != item.product_id ==> r == Result::<(), Error>::Err(Error::BadInput)
                    && *final(self) == *old(self))
                &&& (has_line_item(o.line_items@, item.id) && o.line_items@[line_item_index(
                    o.line_items@,
                    item.id,
                )].product_id == item.product_id ==> {
                    &&& r is Ok
                    &&& final(self).contains_order(order_id)
                    &&& ({
                        let fo = final(self).spec_order(order_id)->Some_0;
                        &&& fo.id == o.id
                        &&& fo.customer_id == o.customer_id
                        &&& fo.line_items@ == o.line_items@.update(
                            line_item_index(o.line_items@, item.id),
                            item,
                        )
                    })
                })
            }),
    {
        let ghost old_orders = self.orders@;
        let oi = match self.find_order(order_id) {
            Some(i) => i,
            None => {
                return Err(Error::NotFound);
            }
        };
        proof {
            lemma_order_index(self.orders@, order_id, oi as int);
        }
        let ghost o = self.orders@[oi as int];
        let mut updated = self.orders[oi].duplicate();
        proof {
            assert(order_wf(o, self.next_line_item_id));
        }
        let ji = match updated.find_line_item(item.id) {
            Some(j) => j,
            None => {
                proof {
                    if has_line_item(o.line_items@, item.id) {
                        let k = choose|k: int|
                            0 <= k < o.line_items@.len() && o.line_items@[k].id == item.id;
                        assert(updated.line_items@[k].id == item.id);
                    }
                }
                return Err(Error::NotFound);
            }
        };
        proof {
            lemma_line_item_index(o.line_items@, item.id, ji as int);
        }
        if updated.line_items[ji].product_id == item.product_id {
            updated.line_items.set(ji, item);
            proof {
                assert(updated.id == o.id);
                assert(updated.customer_id == o.customer_id);
                assert(updated.line_items@ == o.line_items@.update(ji as int, item));
                assert(order_wf(updated, self.next_line_item_id)) by {
                    assert forall|a: int| 0 <= a < updated.line_items@.len() implies
                        updated.line_items@[a].id == o.line_items@[a].id
                        && updated.line_items@[a].product_id == o.line_items@[a].product_id by {
                        if a == ji {
                            assert(o.line_items@[a].id == item.id);
                        }
                    }
                }
            }
            self.orders.set(oi, updated);
            proof {
                lemma_order_update(old_orders, self.orders@, oi as int, self.orders@[oi as int]);
            }
            Ok(())
        } else {
            Err(Error::BadInput)
        }
    }

    /// Hand out a line-item id that no stored order uses yet.
    pub fn fresh_line_item_id(&mut self) -> (id: LineItemId)
        requires
            old(self).wf(),
            old(self).next_line_item_id < u64::MAX,
        ensures
            final(self).wf(),
            final(self).tx_state_eq(*old(self)),
            final(self).customers == old(self).customers,
            final(self).orders == old(self).orders,
            final(self).products == old(self).products,
            final(self).next_line_item_id == old(self).next_line_item_id + 1,
            id.0 == old(self).next_line_item_id,
            forall|i: int|
                0 <= i < final(self).orders@.len() ==> !has_line_item(
                    #[trigger] final(self).orders@[i].line_items@,
                    id,
                ),
    {
        let id = self.next_line_item_id;
        self.next_line_item_id = self.next_line_item_id + 1;
        proof {
            assert forall|i: int| 0 <= i < self.orders@.len() implies !has_line_item(
                #[trigger] self.orders@[i].line_items@,
                LineItemId(id),
            ) by {
                assert(order_wf(old(self).orders@[i], old(self).next_line_item_id));
            }
            assert forall|i: int| 0 <= i < self.orders@.len() implies order_wf(
                #[trigger] self.orders@[i],
                self.next_line_item_id,
            ) by {
                assert(order_wf(old(self).orders@[i], old(self).next_line_item_id));
            }
        }
        LineItemId(id)
    }
}

/// Updating the position that holds the customer with this id keeps ids unique
/// and replaces exactly that customer.
proof fn lemma_customer_update(old_s: Seq<Customer>, s: Seq<Customer>, i: int, v: Customer)
    requires
        customer_ids_unique(old_s),
        0 <= i < old_s.len(),
        old_s[i].id == v.id,
        s == old_s.update(i, v),
    ensures
        customer_ids_unique(s),
        forall|x: CustomerId| seq_has_customer(s, x) <==> seq_has_customer(old_s, x),
        seq_has_customer(s, v.id) && s[customer_index(s, v.id)] == v,
        forall|x: CustomerId|
            x != v.id && seq_has_customer(old_s, x) ==> s[customer_index(s, x)] == old_s[customer_index(
                old_s,
                x,
            )],
{
    assert(s[i] == v);
    assert forall|x: CustomerId| seq_has_customer(s, x) implies seq_has_customer(old_s, x) by {
        let k = choose|k: int| 0 <= k < s.len() && s[k].id == x;
        if k == i {
            lemma_customer_index(old_s, x, i);
        } else {
            lemma_customer_index(old_s, x, k);
        }
    }
    assert forall|x: CustomerId| seq_has_customer(old_s, x) implies seq_has_customer(s, x) by {
        let k = choose|k: int| 0 <= k < old_s.len() && old_s[k].id == x;
        if k == i {
            assert(0 <= i < s.len() && s[i].id == x);
        } else {
            assert(0 <= k < s.len() && s[k].id == x);
        }
    }
    lemma_customer_index(s, v.id, i);
    assert forall|x: CustomerId|
        x != v.id && seq_has_customer(old_s, x) implies s[customer_index(s, x)] == old_s[customer_index(
        old_s,
        x,
    )] by {
        let k = choose|k: int| 0 <= k < old_s.len() && old_s[k].id == x;
        lemma_customer_index(old_s, x, k);
        assert(k != i);
        assert(s[k].id == x);
        lemma_customer_index(s, x, k);
    }
}

/// Appending a customer with a fresh id keeps ids unique and leaves the other
/// customers in place.
proof fn lemma_customer_push(old_s: Seq<Customer>, s: Seq<Customer>, v: Customer)
    requires
        customer_ids_unique(old_s),
        forall|k: int| 0 <= k < old_s.len() ==> old_s[k].id != v.id,
        s == old_s.push(v),
    ensures
        customer_ids_unique(s),
        forall|x: CustomerId| seq_has_customer(s, x) <==> (seq_has_customer(old_s, x) || x == v.id),
        seq_has_customer(s, v.id) && s[customer_index(s, v.id)] == v,
        forall|x: CustomerId|
            x != v.id && seq_has_customer(old_s, x) ==> s[customer_index(s, x)] == old_s[customer_index(
                old_s,
                x,
            )],
{
    let n = s.len() - 1;
    assert(s[n] == v);
    assert forall|x: CustomerId| seq_has_customer(s, x) implies (seq_has_customer(old_s, x) || x == v.id) by {
        let k = choose|k: int| 0 <= k < s.len() && s[k].id == x;
        if k < n {
            lemma_customer_index(old_s, x, k);
        }
    }
    assert forall|x: CustomerId| seq_has_customer(old_s, x) implies seq_has_customer(s, x) by {
        let k = choose|k: int| 0 <= k < old_s.len() && old_s[k].id == x;
        assert(0 <= k < s.len() && s[k].id == x);
    }
    assert(customer_ids_unique(s)) by {
        assert forall|a: int, b: int| 0 <= a < b < s.len() implies s[a].id != s[b].id by {
            if b < n {
                assert(old_s[a].id != old_s[b].id);
            } else {
                assert(old_s[a].id != v.id);
            }
        }
    }
    lemma_customer_index(s, v.id, n);
    assert forall|x: CustomerId|
        x != v.id && seq_has_customer(old_s, x) implies s[customer_index(s, x)] == old_s[customer_index(
        old_s,
        x,
    )] by {
        let k = choose|k: int| 0 <= k < old_s.len() && old_s[k].id == x;
        lemma_customer_index(old_s, x, k);
        assert(s[k].id == x);
        lemma_customer_index(s, x, k);
    }
}

/// Updating the position that holds the order with this id keeps ids unique
/// and replaces exactly that order.
proof fn lemma_order_update(old_s: Seq<Order>, s: Seq<Order>, i: int, v: Order)
    requires
        order_ids_unique(old_s),
        0 <= i < old_s.len(),
        old_s[i].id == v.id,
        s == old_s.update(i, v),
    ensures
        order_ids_unique(s),
        forall|x: OrderId| seq_has_order(s, x) <==> seq_has_order(old_s, x),
        seq_has_order(s, v.id) && s[order_index(s, v.id)] == v,
        forall|x: OrderId|
            x != v.id && seq_has_order(old_s, x) ==> s[order_index(s, x)] == old_s[order_index(
                old_s,
                x,
            )],
{
    assert(s[i] == v);
    assert forall|x: OrderId| seq_has_order(s, x) implies seq_has_order(old_s, x) by {
        let k = choose|k: int| 0 <= k < s.len() && s[k].id == x;
        if k == i {
            lemma_order_index(old_s, x, i);
        } else {
            lemma_order_index(old_s, x, k);
        }
    }
    assert forall|x: OrderId| seq_has_order(old_s, x) implies seq_has_order(s, x) by {
        let k = choose|k: int| 0 <= k < old_s.len() && old_s[k].id == x;
        if k == i {
            assert(0 <= i < s.len() && s[i].id == x);
        } else {
            assert(0 <= k < s.len() && s[k].id == x);
        }
    }
    lemma_order_index(s, v.id, i);
    assert forall|x: OrderId|
        x != v.id && seq_has_order(old_s, x) implies s[order_index(s, x)] == old_s[order_index(
        old_s,
        x,
    )] by {
        let k = choose|k: int| 0 <= k < old_s.len() && old_s[k].id == x;
        lemma_order_index(old_s, x, k);
        assert(k != i);
        assert(s[k].id == x);
        lemma_order_index(s, x, k);
    }
}

/// Appending a order with a fresh id keeps ids unique and leaves the other
/// orders in place.
proof fn lemma_order_push(old_s: Seq<Order>, s: Seq<Order>, v: Order)
    requires
        order_ids_unique(old_s),
        forall|k: int| 0 <= k < old_s.len() ==> old_s[k].id != v.id,
        s == old_s.push(v),
    ensures
        order_ids_unique(s),
        forall|x: OrderId| seq_has_order(s, x) <==> (seq_has_order(old_s, x) || x == v.id),
        seq_has_order(s, v.id) && s[order_index(s, v.id)] == v,
        forall|x: OrderId|
            x != v.id && seq_has_order(old_s, x) ==> s[order_index(s, x)] == old_s[order_index(
                old_s,
                x,
            )],
{
    let n = s.len() - 1;
    assert(s[n] == v);
    assert forall|x: OrderId| seq_has_order(s, x) implies (seq_has_order(old_s, x) || x == v.id) by {
        let k = choose|k: int| 0 <= k < s.len() && s[k].id == x;
        if k < n {
            lemma_order_index(old_s, x, k);
        }
    }
    assert forall|x: OrderId| seq_has_order(old_s, x) implies seq_has_order(s, x) by {
        let k = choose|k: int| 0 <= k < old_s.len() && old_s[k].id == x;
        assert(0 <= k < s.len() && s[k].id == x);
    }
    assert(order_ids_unique(s)) by {
        assert forall|a: int, b: int| 0 <= a < b < s.len() implies s[a].id != s[b].id by {
            if b < n {
                assert(old_s[a].id != old_s[b].id);
            } else {
                assert(old_s[a].id != v.id);
            }
        }
    }
    lemma_order_index(s, v.id, n);
    assert forall|x: OrderId|
        x != v.id && seq_has_order(old_s, x) implies s[order_index(s, x)] == old_s[order_index(
        old_s,
        x,
    )] by {
        let k = choose|k: int| 0 <= k < old_s.len() && old_s[k].id == x;
        lemma_order_index(old_s, x, k);
        assert(s[k].id == x);
        lemma_order_index(s, x, k);
    }
}

/// Updating the position that holds the product with this id keeps ids unique
/// and replaces exactly that product.
proof fn lemma_product_update(old_s: Seq<Product>, s: Seq<Product>, i: int, v: Product)
    requires
        product_ids_unique(old_s),
        0 <= i < old_s.len(),
        old_s[i].id == v.id,
        s == old_s.update(i, v),
    ensures
        product_ids_unique(s),
        forall|x: ProductId| seq_has_product(s, x) <==> seq_has_product(old_s, x),
        seq_has_product(s, v.id) && s[product_index(s, v.id)] == v,
        forall|x: ProductId|
            x != v.id && seq_has_product(old_s, x) ==> s[product_index(s, x)] == old_s[product_index(
                old_s,
                x,
            )],
{
    assert(s[i] == v);
    assert forall|x: ProductId| seq_has_product(s, x) implies seq_has_product(old_s, x) by {
        let k = choose|k: int| 0 <= k < s.len() && s[k].id == x;
        if k == i {
            lemma_product_index(old_s, x, i);
        } else {
            lemma_product_index(old_s, x, k);
        }
    }
    assert forall|x: ProductId| seq_has_product(old_s, x) implies seq_has_product(s, x) by {
        let k = choose|k: int| 0 <= k < old_s.len() && old_s[k].id == x;
        if k == i {
            assert(0 <= i < s.len() && s[i].id == x);
        } else {
            assert(0 <= k < s.len() && s[k].id == x);
        }
    }
    lemma_product_index(s, v.id, i);
    assert forall|x: ProductId|
        x != v.id && seq_has_product(old_s, x) implies s[product_index(s, x)] == old_s[product_index(
        old_s,
        x,
    )] by {
        let k = choose|k: int| 0 <= k < old_s.len() && old_s[k].id == x;
        lemma_product_index(old_s, x, k);
        assert(k != i);
        assert(s[k].id == x);
        lemma_product_index(s, x, k);
    }
}

/// Appending a product with a fresh id keeps ids unique and leaves the other
/// products in place.
proof fn lemma_product_push(old_s: Seq<Product>, s: Seq<Product>, v: Product)
    requires
        product_ids_unique(old_s),
        forall|k: int| 0 <= k < old_s.len() ==> old_s[k].id != v.id,
        s == old_s.push(v),
    ensures
        product_ids_unique(s),
        forall|x: ProductId| seq_has_product(s, x) <==> (seq_has_product(old_s, x) || x == v.id),
        seq_has_product(s, v.id) && s[product_index(s, v.id)] == v,
        forall|x: ProductId|
            x != v.id && seq_has_product(old_s, x) ==> s[product_index(s, x)] == old_s[product_index(
                old_s,
                x,
            )],
{
    let n = s.len() - 1;
    assert(s[n] == v);
    assert forall|x: ProductId| seq_has_product(s, x) implies (seq_has_product(old_s, x) || x == v.id) by {
        let k = choose|k: int| 0 <= k < s.len() && s[k].id == x;
        if k < n {
            lemma_product_index(old_s, x, k);
        }
    }
    assert forall|x: ProductId| seq_has_product(old_s, x) implies seq_has_product(s, x) by {
        let k = choose|k: int| 0 <= k < old_s.len() && old_s[k].id == x;
        assert(0 <= k < s.len() && s[k].id == x);
    }
    assert(product_ids_unique(s)) by {
        assert forall|a: int, b: int| 0 <= a < b < s.len() implies s[a].id != s[b].id by {
            if b < n {
                assert(old_s[a].id != old_s[b].id);
            } else {
                assert(old_s[a].id != v.id);
            }
        }
    }
    lemma_product_index(s, v.id, n);
    assert forall|x: ProductId|
        x != v.id && seq_has_product(old_s, x) implies s[product_index(s, x)] == old_s[product_index(
        old_s,
        x,
    )] by {
        let k = choose|k: int| 0 <= k < old_s.len() && old_s[k].id == x;
        lemma_product_index(old_s, x, k);
        assert(s[k].id == x);
        lemma_product_index(s, x, k);
    }
}

} // verus!
