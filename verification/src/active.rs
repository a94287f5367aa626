//! A shared handle to a raw transaction that only commits or cancels when
//! its holder is the last one alive.
//!
//! Handles to one transaction are counted in the [`TransactionStore`]: a
//! handle is created with count one by [`ActiveTransaction::begin`], every
//! [`ActiveTransaction::share`] adds one, and committing, cancelling or
//! releasing a handle takes one away. Commit and cancel consume the handle
//! either way; they only finish the transaction when the count shows the
//! caller to be the sole holder, so no transaction is committed or rolled
//! back under a holder that is still using it.
//!
//! A handle in the *none* state (id `0`) wraps the no-op transaction that is
//! used outside any unit of work. It is not counted: each such handle
//! behaves as exclusively owned, and operations through it are not
//! transactionally isolated.

use vstd::prelude::*;

use crate::error::Error;
use crate::store::{RawTransaction, TransactionStore};

verus! {

/// A counted handle to a raw transaction, or a stand-in for no transaction.
#[derive(Debug)]
pub struct ActiveTransaction {
    tx_id: u64,
}

impl ActiveTransaction {
    /// The id of the wrapped raw transaction; `0` is the no-op transaction.
    pub closed spec fn id(self) -> u64 {
        self.tx_id
    }

    /// Whether the handle wraps a live transaction of this store, or is the
    /// no-op transaction. Every operation on a handle keeps this.
    pub open spec fn valid(self, store: TransactionStore) -> bool {
        self.id() == 0 || store.tx_live(self.id())
    }

    /// A handle in the *none* state: no store, no live transaction, and
    /// commit and cancel succeed trivially on it.
    pub fn none() -> (t: ActiveTransaction)
        ensures
            t.id() == 0,
    {
        ActiveTransaction { tx_id: RawTransaction::none().id }
    }

    /// Begin a fresh transaction in the store and wrap it in a handle that
    /// is its sole holder.
    pub fn begin(store: &mut TransactionStore) -> (t: ActiveTransaction)
        requires
            old(store).wf(),
            old(store).next_tx_id < u64::MAX,
        ensures
            final(store).wf(),
            t.id() == old(store).next_tx_id,
            t.id() >= 1,
            !old(store).tx_live(t.id()),
            final(store).tx_live(t.id()),
            final(store).tx_handles(t.id()) == 1,
            t.valid(*final(store)),
            final(store).next_tx_id == old(store).next_tx_id + 1,
            final(store).committed == old(store).committed,
            final(store).entities_eq(*old(store)),
            forall|x: u64|
                old(store).tx_live(x) ==> #[trigger] final(store).tx_live(x) && final(store).tx_handles(x) == old(store).tx_handles(x),
            forall|x: u64|
                old(store).tx_live(x) ==> #[trigger] final(store).tx_handles(x) == old(store).tx_handles(x),
            forall|x: u64|
                #[trigger] final(store).tx_live(x) <==> (old(store).tx_live(x) || x == t.id()),
    {
        let raw = store.begin();
        ActiveTransaction { tx_id: raw.id }
    }

    /// The raw transaction this handle wraps, for handing to store writes.
    /// Callable any number of times; it does not consume or count.
    pub fn get(&self) -> (t: RawTransaction)
        ensures
            t.id == self.id(),
    {
        RawTransaction { id: self.tx_id }
    }

    /// A new handle sharing the same transaction; for a live transaction the
    /// handle count grows by one.
    pub fn share(&self, store: &mut TransactionStore) -> (t: ActiveTransaction)
        requires
            old(store).wf(),
            self.valid(*old(store)),
            self.id() != 0 ==> old(store).tx_handles(self.id()) < u64::MAX,
        ensures
            final(store).wf(),
            t.id() == self.id(),
            t.valid(*final(store)),
            final(store).next_tx_id == old(store).next_tx_id,
            final(store).committed == old(store).committed,
            final(store).entities_eq(*old(store)),
            forall|x: u64| #[trigger] final(store).tx_live(x) <==> old(store).tx_live(x),
            self.id() == 0 ==> *final(store) == *old(store),
            self.id() != 0 ==> final(store).tx_handles(self.id()) == old(store).tx_handles(
                self.id(),
            ) + 1,
            forall|x: u64|
                x != self.id() && old(store).tx_live(x) ==> #[trigger] final(store).tx_handles(x)
                    == old(store).tx_handles(x),
    {
        if self.tx_id != 0 {
            store.add_handle(self.tx_id);
        }
        ActiveTransaction { tx_id: self.tx_id }
    }

    /// Commit the transaction, making its writes final.
    ///
    /// The handle is consumed either way. When it is the last holder of a
    /// live transaction, the transaction is committed and leaves the live
    /// set. When other holders remain, nothing is committed or rolled back
    /// — the transaction stays live for the remaining holders — and the
    /// call reports that the transaction is still in use. A handle in the
    /// *none* state commits trivially.
    pub fn commit(self, store: &mut TransactionStore) -> (r: Result<(), Error>)
        requires
            old(store).wf(),
            self.valid(*old(store)),
        ensures
            final(store).wf(),
            final(store).next_tx_id == old(store).next_tx_id,
            final(store).entities_eq(*old(store)),
            self.id() == 0 ==> r is Ok && *final(store) == *old(store),
            self.id() != 0 && old(store).tx_handles(self.id()) == 1 ==> {
                &&& r is Ok
                &&& !final(store).tx_live(self.id())
                &&& final(store).tx_committed(self.id())
                &&& final(store).committed@ == old(store).committed@.push(self.id())
            },
            self.id() != 0 && old(store).tx_handles(self.id()) >= 2 ==> {
                &&& r == Result::<(), Error>::Err(Error::TransactionInUse)
                &&& !final(store).tx_committed(self.id())
                &&& final(store).tx_live(self.id())
                &&& final(store).tx_handles(self.id()) == old(store).tx_handles(self.id()) - 1
                &&& final(store).committed == old(store).committed
            },
            forall|x: u64|
                x != self.id() ==> (#[trigger] final(store).tx_live(x) <==> old(store).tx_live(x)),
            forall|x: u64|
                x != self.id() && old(store).tx_live(x) ==> #[trigger] final(store).tx_handles(x)
                    == old(store).tx_handles(x),
            self.id() != 0 && !old(store).tx_committed(self.id()) && old(store).tx_handles(
                self.id(),
            ) >= 2 ==> !final(store).tx_committed(self.id()),
    {
        if self.tx_id == 0 {
            return Ok(());
        }
        let handles = store.handles_of(self.tx_id);
        if handles == 1 {
            store.commit(RawTransaction { id: self.tx_id });
            Ok(())
        } else {
            store.remove_handle(self.tx_id);
            proof {
                if store.tx_committed(self.tx_id) {
                    let k = choose|k: int|
                        0 <= k < store.committed@.len() && store.committed@[k] == self.tx_id;
                    assert(store.tx_live(store.committed@[k]) == false);
                }
            }
            Err(Error::TransactionInUse)
        }
    }

    /// Cancel the transaction, reverting the protocol state.
    ///
    /// The handle is consumed either way. When it is the last holder of a
    /// live transaction, the transaction is cancelled and leaves the live
    /// set without being committed. When other holders remain, the call
    /// deliberately does nothing beyond dropping this handle: the
    /// transaction stays live until the last holder commits, cancels or
    /// releases it. A handle in the *none* state cancels trivially.
    pub fn cancel(self, store: &mut TransactionStore)
        requires
            old(store).wf(),
            self.valid(*old(store)),
        ensures
            final(store).wf(),
            final(store).next_tx_id == old(store).next_tx_id,
            final(store).entities_eq(*old(store)),
            final(store).committed == old(store).committed,
            self.id() == 0 ==> *final(store) == *old(store),
            self.id() != 0 && old(store).tx_handles(self.id()) == 1 ==> !final(store).tx_live(
                self.id(),
            ),
            self.id() != 0 && old(store).tx_handles(self.id()) >= 2 ==> {
                &&& final(store).tx_live(self.id())
                &&& final(store).tx_handles(self.id()) == old(store).tx_handles(self.id()) - 1
            },
            forall|x: u64|
                x != self.id() ==> (#[trigger] final(store).tx_live(x) <==> old(store).tx_live(x)),
            forall|x: u64|
                x != self.id() && old(store).tx_live(x) ==> #[trigger] final(store).tx_handles(x)
                    == old(store).tx_handles(x),
    {
        if self.tx_id == 0 {
            return ;
        }
        let handles = store.handles_of(self.tx_id);
        if handles == 1 {
            store.cancel(RawTransaction { id: self.tx_id });
        } else {
            store.remove_handle(self.tx_id);
        }
    }
}

/// A handle is valid exactly as long as its transaction is live. In
/// particular, after a commit or cancel that other holders blocked, the
/// transaction stays live, so every remaining holder's handle can still be
/// used.
pub proof fn lemma_live_transaction_keeps_handles_valid(
    t: ActiveTransaction,
    store: TransactionStore,
)
    requires
        store.tx_live(t.id()),
    ensures
        t.valid(store),
{
}

} // verus!
