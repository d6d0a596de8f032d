//! The store as the update loops and the display share it: behind one lock,
//! which only ever holds a consistent store that tracks the symbols it was
//! made with.

use vstd::prelude::*;
use vstd::rwlock::{RwLock, RwLockPredicate};
use crate::feed::{FetchError, Quote};
use crate::schedule::{
    apply_history_outcome, apply_history_pass, apply_quote_outcome, apply_quote_pass,
    histories_taken, quotes_taken, HistoryOutcome, QuoteOutcome,
};
use crate::state::PricePoint;
use crate::store::{first_occurrences, lemma_tracked_is_listed, names_of, SnapshotStore};

verus! {

/// What the lock admits: a consistent store that tracks exactly `symbols`, in
/// that order.
pub struct Tracking {
    pub symbols: Seq<Seq<char>>,
}

impl RwLockPredicate<SnapshotStore> for Tracking {
    open spec fn inv(self, store: SnapshotStore) -> bool {
        store.wf() && store@.symbols() == self.symbols
    }
}

/// A store that any number of writers and readers may use at once. Each update
/// takes the lock for itself, so a reader sees a symbol either before or after
/// an update, never in between.
pub struct SharedStore {
    lock: RwLock<SnapshotStore, Tracking>,
}

impl SharedStore {
    /// The symbols that are tracked, for as long as the store lives.
    pub closed spec fn symbols(&self) -> Seq<Seq<char>> {
        self.lock.pred().symbols
    }

    /// Puts `store` behind a lock.
    pub fn new(store: SnapshotStore) -> (shared: Self)
        requires
            store.wf(),
        ensures
            shared.symbols() == store@.symbols(),
    {
        let ghost tracking = Tracking { symbols: store@.symbols() };
        SharedStore { lock: RwLock::new(store, Ghost(tracking)) }
    }

    /// A shared store that tracks `symbols`, each with nothing arrived yet.
    pub fn initialize(symbols: &Vec<String>, started_at: i64) -> (shared: Self)
        ensures
            shared.symbols() == first_occurrences(names_of(symbols@)),
    {
        SharedStore::new(SnapshotStore::initialize(symbols, started_at))
    }

    /// Hands one quote to `symbol`'s state in one step, and says whether the
    /// symbol is tracked.
    pub fn apply_quote(
        &self,
        symbol: &str,
        price: i64,
        change_percent: i64,
        observed_at: i64,
    ) -> (applied: bool)
        ensures
            applied == self.symbols().contains(symbol@),
    {
        let (mut store, handle) = self.lock.acquire_write();
        proof {
            lemma_tracked_is_listed(store@, symbol@);
        }
        let applied = store.apply_quote(symbol, price, change_percent, observed_at);
        handle.release_write(store);
        applied
    }

    /// Replaces `symbol`'s look-back series in one step, and says whether the
    /// symbol is tracked.
    pub fn apply_history(&self, symbol: &str, series: Vec<PricePoint>) -> (applied: bool)
        ensures
            applied == self.symbols().contains(symbol@),
    {
        let (mut store, handle) = self.lock.acquire_write();
        proof {
            lemma_tracked_is_listed(store@, symbol@);
        }
        let applied = store.apply_history(symbol, series);
        handle.release_write(store);
        applied
    }

    /// Hands one symbol's quote outcome to the store in one step, and says
    /// whether a quote was applied.
    pub fn apply_quote_outcome(
        &self,
        symbol: &str,
        outcome: &Result<Quote, FetchError>,
        observed_at: i64,
    ) -> (applied: bool)
        ensures
            applied == (outcome is Ok && self.symbols().contains(symbol@)),
    {
        let (mut store, handle) = self.lock.acquire_write();
        proof {
            lemma_tracked_is_listed(store@, symbol@);
        }
        let applied = apply_quote_outcome(&mut store, symbol, outcome, observed_at);
        handle.release_write(store);
        applied
    }

    /// Hands one symbol's history outcome to the store in one step, and says
    /// whether a series was applied.
    pub fn apply_history_outcome(
        &self,
        symbol: &str,
        outcome: &Result<Vec<PricePoint>, FetchError>,
    ) -> (applied: bool)
        ensures
            applied == (outcome is Ok && self.symbols().contains(symbol@)),
    {
        let (mut store, handle) = self.lock.acquire_write();
        proof {
            lemma_tracked_is_listed(store@, symbol@);
        }
        let applied = apply_history_outcome(&mut store, symbol, outcome);
        handle.release_write(store);
        applied
    }

    /// Applies the outcomes of one quote pass in one step and records the pass
    /// as completed at `observed_at`. Returns how many outcomes were applied.
    pub fn apply_quote_pass(&self, outcomes: &Vec<QuoteOutcome>, observed_at: i64) -> (taken: usize)
        ensures
            taken == quotes_taken(self.symbols(), outcomes@),
    {
        let (mut store, handle) = self.lock.acquire_write();
        let taken = apply_quote_pass(&mut store, outcomes, observed_at);
        handle.release_write(store);
        taken
    }

    /// Applies the outcomes of one history pass in one step. Returns how many
    /// outcomes were applied.
    pub fn apply_history_pass(&self, outcomes: &Vec<HistoryOutcome>) -> (taken: usize)
        ensures
            taken == histories_taken(self.symbols(), outcomes@),
    {
        let (mut store, handle) = self.lock.acquire_write();
        let taken = apply_history_pass(&mut store, outcomes);
        handle.release_write(store);
        taken
    }

    /// A copy of the store as it stands between two updates: consistent, and
    /// with a state for every tracked symbol.
    pub fn snapshot(&self) -> (copy: SnapshotStore)
        ensures
            copy.wf(),
            copy@.symbols() == self.symbols(),
    {
        let handle = self.lock.acquire_read();
        let copy = handle.borrow().snapshot();
        handle.release_read();
        copy
    }

    /// When the last quote pass was completed, as far as is known by now.
    pub fn last_update_time(&self) -> i64 {
        let handle = self.lock.acquire_read();
        let at = handle.borrow().last_update_time();
        handle.release_read();
        at
    }
}

} // verus!
