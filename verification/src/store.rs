//! The store: one state per tracked symbol, changed only through its updates.

use vstd::prelude::*;
use crate::extrema::{highest, lowest};
use crate::state::{
    lemma_history_keeps_consistency, lemma_quote_keeps_consistency, PricePoint, SymbolState,
    SymbolView, WINDOW,
};

verus! {

/// The mathematical content of a [`SnapshotStore`]: the tracked states in the
/// order in which their symbols were registered, and the time of the last
/// completed quote pass.
pub struct StoreView {
    pub states: Seq<SymbolView>,
    pub last_update: i64,
}

impl StoreView {
    /// Whether `symbol` is tracked.
    pub open spec fn tracks(self, symbol: Seq<char>) -> bool {
        exists|i: int| 0 <= i < self.states.len() && #[trigger] self.states[i].symbol == symbol
    }

    /// No symbol has two states.
    pub open spec fn distinct(self) -> bool {
        forall|i: int, j: int|
            0 <= i < j < self.states.len() ==> #[trigger] self.states[i].symbol
                != #[trigger] self.states[j].symbol
    }

    /// Each state is consistent and no symbol has two.
    pub open spec fn consistent(self) -> bool {
        &&& self.distinct()
        &&& forall|i: int| 0 <= i < self.states.len() ==> (#[trigger] self.states[i]).consistent()
    }

    /// The state of `symbol`. Meaningful where `symbol` is tracked.
    pub open spec fn state_of(self, symbol: Seq<char>) -> SymbolView {
        let i = choose|i: int|
            0 <= i < self.states.len() && #[trigger] self.states[i].symbol == symbol;
        self.states[i]
    }

    /// The store as a map from each tracked symbol to its state.
    pub open spec fn as_map(self) -> Map<Seq<char>, SymbolView> {
        Map::new(|symbol: Seq<char>| self.tracks(symbol), |symbol: Seq<char>| self.state_of(symbol))
    }

    /// The tracked symbols, in order.
    pub open spec fn symbols(self) -> Seq<Seq<char>> {
        self.states.map_values(|state: SymbolView| state.symbol)
    }

    /// The store after a quote for `symbol`: that symbol's state takes the quote,
    /// every other state stays.
    pub open spec fn with_quote(
        self,
        symbol: Seq<char>,
        price: i64,
        change_percent: i64,
        observed_at: i64,
    ) -> StoreView {
        StoreView {
            states: self.states.map_values(
                |state: SymbolView|
                    if state.symbol == symbol {
                        state.with_quote(price, change_percent, observed_at)
                    } else {
                        state
                    },
            ),
            last_update: self.last_update,
        }
    }

    /// The store after `symbol`'s look-back series is replaced by `series`.
    pub open spec fn with_history(self, symbol: Seq<char>, series: Seq<PricePoint>) -> StoreView {
        StoreView {
            states: self.states.map_values(
                |state: SymbolView|
                    if state.symbol == symbol {
                        state.with_history(series)
                    } else {
                        state
                    },
            ),
            last_update: self.last_update,
        }
    }

    /// The store after a quote pass is recorded as completed at `finished_at`.
    pub open spec fn with_pass_recorded(self, finished_at: i64) -> StoreView {
        StoreView { states: self.states, last_update: finished_at }
    }
}

/// The views of `symbols`, in order.
pub open spec fn names_of(symbols: Seq<String>) -> Seq<Seq<char>> {
    symbols.map_values(|symbol: String| symbol@)
}

/// `names` without repetitions: each name where it first occurs.
pub open spec fn first_occurrences(names: Seq<Seq<char>>) -> Seq<Seq<char>>
    decreases names.len(),
{
    if names.len() == 0 {
        Seq::empty()
    } else {
        let earlier = first_occurrences(names.drop_last());
        if earlier.contains(names.last()) {
            earlier
        } else {
            earlier.push(names.last())
        }
    }
}

/// `first_occurrences` keeps exactly the names that occur, each once, and
/// leaves a sequence without repetitions as it is.
pub proof fn lemma_first_occurrences(names: Seq<Seq<char>>)
    ensures
        forall|name: Seq<char>| first_occurrences(names).contains(name) <==> names.contains(name),
        first_occurrences(names).no_duplicates(),
        first_occurrences(names).len() <= names.len(),
        names.no_duplicates() ==> first_occurrences(names) == names,
    decreases names.len(),
{
    if names.len() > 0 {
        let shorter = names.drop_last();
        let earlier = first_occurrences(shorter);
        let kept = first_occurrences(names);
        lemma_first_occurrences(shorter);
        assert forall|name: Seq<char>| kept.contains(name) <==> names.contains(name) by {
            if kept.contains(name) {
                let k = choose|k: int| 0 <= k < kept.len() && kept[k] == name;
                if k < earlier.len() {
                    assert(earlier[k] == name);
                    assert(shorter.contains(name));
                    let j = choose|j: int| 0 <= j < shorter.len() && shorter[j] == name;
                    assert(names[j] == name);
                } else {
                    assert(names[names.len() - 1] == name);
                }
            }
            if names.contains(name) {
                let j = choose|j: int| 0 <= j < names.len() && names[j] == name;
                if j < shorter.len() {
                    assert(shorter[j] == name);
                    assert(shorter.contains(name));
                    assert(earlier.contains(name));
                    let k = choose|k: int| 0 <= k < earlier.len() && earlier[k] == name;
                    assert(kept[k] == name);
                } else if earlier.contains(name) {
                    let k = choose|k: int| 0 <= k < earlier.len() && earlier[k] == name;
                    assert(kept[k] == name);
                } else {
                    assert(kept[kept.len() - 1] == name);
                }
            }
        }
        if names.no_duplicates() {
            assert(shorter.no_duplicates());
            if earlier.contains(names.last()) {
                let j = choose|j: int| 0 <= j < shorter.len() && shorter[j] == names.last();
                assert(names[j] == names[names.len() - 1]);
            }
            assert(kept =~= names);
        }
    }
}

/// A symbol is tracked where it stands in the list of symbols, and nowhere
/// else.
pub proof fn lemma_tracked_is_listed(store: StoreView, name: Seq<char>)
    ensures
        store.tracks(name) == store.symbols().contains(name),
{
    if store.tracks(name) {
        let k = choose|k: int|
            0 <= k < store.states.len() && #[trigger] store.states[k].symbol == name;
        assert(store.symbols()[k] == name);
    }
    if store.symbols().contains(name) {
        let k = choose|k: int| 0 <= k < store.symbols().len() && store.symbols()[k] == name;
        assert(store.states[k].symbol == name);
    }
}

/// One state per tracked symbol, and the time of the last completed quote pass.
#[derive(Debug)]
pub struct SnapshotStore {
    states: Vec<SymbolState>,
    last_update: i64,
}

impl View for SnapshotStore {
    type V = StoreView;

    closed spec fn view(&self) -> StoreView {
        StoreView {
            states: self.states@.map_values(|state: SymbolState| state@),
            last_update: self.last_update,
        }
    }
}

impl SnapshotStore {
    /// Whether every state is consistent and no symbol has two.
    pub open spec fn wf(&self) -> bool {
        self@.consistent()
    }

    /// A store that tracks `symbols`, each with nothing arrived yet. A symbol
    /// named twice is tracked once.
    pub fn initialize(symbols: &Vec<String>, started_at: i64) -> (store: Self)
        ensures
            store.wf(),
            store@.symbols() == first_occurrences(names_of(symbols@)),
            forall|name: Seq<char>| store@.tracks(name) <==> names_of(symbols@).contains(name),
            forall|i: int|
                0 <= i < store@.states.len() ==> #[trigger] store@.states[i] == SymbolView::fresh(
                    store@.symbols()[i],
                ),
            store@.last_update == started_at,
    {
        let mut store = SnapshotStore { states: Vec::new(), last_update: started_at };
        assert(store@.symbols() =~= first_occurrences(names_of(symbols@.take(0))));
        let mut i: usize = 0;
        while i < symbols.len()
            invariant
                i <= symbols.len(),
                store.wf(),
                store@.symbols() == first_occurrences(names_of(symbols@.take(i as int))),
                forall|k: int|
                    0 <= k < store@.states.len() ==> #[trigger] store@.states[k]
                        == SymbolView::fresh(store@.symbols()[k]),
                store@.last_update == started_at,
            decreases symbols.len() - i,
        {
            let ghost before = store@;
            assert(names_of(symbols@.take(i + 1)).drop_last() =~= names_of(symbols@.take(i as int)));
            assert(names_of(symbols@.take(i + 1)).last() == symbols@[i as int]@);
            let found = store.find(symbols[i].as_str());
            proof {
                if before.tracks(symbols@[i as int]@) {
                    let k = choose|k: int|
                        0 <= k < before.states.len() && #[trigger] before.states[k].symbol
                            == symbols@[i as int]@;
                    assert(before.symbols()[k] == symbols@[i as int]@);
                } else {
                    if before.symbols().contains(symbols@[i as int]@) {
                        let k = choose|k: int|
                            0 <= k < before.symbols().len() && before.symbols()[k]
                                == symbols@[i as int]@;
                        assert(before.states[k].symbol == symbols@[i as int]@);
                    }
                }
            }
            if found.is_none() {
                store.states.push(SymbolState::new(symbols[i].clone()));
                assert(store@.states =~= before.states.push(SymbolView::fresh(symbols@[i as int]@)));
                assert(store@.symbols() =~= before.symbols().push(symbols@[i as int]@));
            }
            i += 1;
        }
        assert(symbols@.take(symbols.len() as int) =~= symbols@);
        proof {
            lemma_first_occurrences(names_of(symbols@));
            assert forall|name: Seq<char>| store@.tracks(name) <==> store@.symbols().contains(
                name,
            ) by {
                lemma_tracked_is_listed(store@, name);
            }
        }
        store
    }

    /// Where `symbol`'s state stands, if it is tracked.
    pub fn find(&self, symbol: &str) -> (found: Option<usize>)
        ensures
            found is Some <==> self@.tracks(symbol@),
            found matches Some(i) ==> i < self@.states.len() && self@.states[i as int].symbol
                == symbol@,
            found matches Some(i) ==> forall|k: int| 0 <= k < i ==> self@.states[k].symbol != symbol@,
    {
        let wanted: String = symbol.to_owned();
        let mut i: usize = 0;
        while i < self.states.len()
            invariant
                i <= self.states.len(),
                wanted@ == symbol@,
                forall|k: int| 0 <= k < i ==> (#[trigger] self@.states[k]).symbol != symbol@,
            decreases self.states.len() - i,
        {
            if *self.states[i].symbol() == wanted {
                assert(self@.states[i as int].symbol == symbol@);
                return Some(i);
            }
            i += 1;
        }
        None
    }

    /// Hands one quote to `symbol`'s state, and says whether there was one to
    /// hand it to. A symbol that is not tracked changes nothing.
    pub fn apply_quote(
        &mut self,
        symbol: &str,
        price: i64,
        change_percent: i64,
        observed_at: i64,
    ) -> (applied: bool)
        requires
            old(self).wf(),
        ensures
            applied == old(self)@.tracks(symbol@),
            final(self)@ == old(self)@.with_quote(symbol@, price, change_percent, observed_at),
            final(self).wf(),
            final(self)@.symbols() == old(self)@.symbols(),
            forall|name: Seq<char>| #[trigger] final(self)@.tracks(name) == old(self)@.tracks(name),
    {
        proof {
            lemma_updates_keep_consistency(
                old(self)@,
                symbol@,
                price,
                change_percent,
                observed_at,
                Seq::empty(),
            );
            assert forall|name: Seq<char>| #[trigger]
                old(self)@.with_quote(symbol@, price, change_percent, observed_at).tracks(name)
                    == old(self)@.tracks(name) by {
                lemma_updates_keep_tracking(
                    old(self)@,
                    symbol@,
                    price,
                    change_percent,
                    observed_at,
                    Seq::empty(),
                    name,
                );
            }
        }
        match self.find(symbol) {
            Some(i) => {
                self.states[i].apply_quote(price, change_percent, observed_at);
                assert(self@.states =~= old(self)@.with_quote(
                    symbol@,
                    price,
                    change_percent,
                    observed_at,
                ).states);
                true
            },
            None => {
                assert(self@.states =~= old(self)@.with_quote(
                    symbol@,
                    price,
                    change_percent,
                    observed_at,
                ).states);
                false
            },
        }
    }

    /// Replaces `symbol`'s look-back series by `series`, and says whether the
    /// symbol is tracked. One that is not changes nothing.
    pub fn apply_history(&mut self, symbol: &str, series: Vec<PricePoint>) -> (applied: bool)
        requires
            old(self).wf(),
        ensures
            applied == old(self)@.tracks(symbol@),
            final(self)@ == old(self)@.with_history(symbol@, series@),
            final(self).wf(),
            final(self)@.symbols() == old(self)@.symbols(),
            forall|name: Seq<char>| #[trigger] final(self)@.tracks(name) == old(self)@.tracks(name),
    {
        proof {
            lemma_updates_keep_consistency(old(self)@, symbol@, 0, 0, 0, series@);
            assert forall|name: Seq<char>| #[trigger]
                old(self)@.with_history(symbol@, series@).tracks(name) == old(self)@.tracks(
                    name,
                ) by {
                lemma_updates_keep_tracking(old(self)@, symbol@, 0, 0, 0, series@, name);
            }
        }
        match self.find(symbol) {
            Some(i) => {
                self.states[i].apply_history(series);
                assert(self@.states =~= old(self)@.with_history(symbol@, series@).states);
                true
            },
            None => {
                assert(self@.states =~= old(self)@.with_history(symbol@, series@).states);
                false
            },
        }
    }

    /// Records that a quote pass was completed at `finished_at`.
    pub fn record_pass(&mut self, finished_at: i64)
        ensures
            final(self)@ == old(self)@.with_pass_recorded(finished_at),
    {
        self.last_update = finished_at;
    }

    /// When the last quote pass was completed.
    pub fn last_update_time(&self) -> (at: i64)
        ensures
            at == self@.last_update,
    {
        self.last_update
    }

    /// The state of `symbol`, if it is tracked.
    pub fn get(&self, symbol: &str) -> (found: Option<&SymbolState>)
        requires
            self.wf(),
        ensures
            found is Some <==> self@.tracks(symbol@),
            found matches Some(state) ==> state@ == self@.state_of(symbol@) && state.wf(),
    {
        match self.find(symbol) {
            Some(i) => {
                assert(self@.states[i as int] == self.states@[i as int]@);
                Some(&self.states[i])
            },
            None => None,
        }
    }

    /// How many symbols are tracked.
    pub fn len(&self) -> (count: usize)
        ensures
            count == self@.states.len(),
    {
        self.states.len()
    }

    /// The state that stands at `index` in registration order.
    pub fn state_at(&self, index: usize) -> (state: &SymbolState)
        requires
            self.wf(),
            index < self@.states.len(),
        ensures
            state@ == self@.states[index as int],
            state.wf(),
    {
        assert(self@.states[index as int] == self.states@[index as int]@);
        &self.states[index]
    }

    /// A copy of the whole store as it stands, independent of the store from
    /// then on.
    pub fn snapshot(&self) -> (copy: Self)
        ensures
            copy@ == self@,
    {
        let mut states: Vec<SymbolState> = Vec::new();
        let mut i: usize = 0;
        while i < self.states.len()
            invariant
                i <= self.states.len(),
                states@.len() == i,
                forall|k: int| 0 <= k < i ==> (#[trigger] states@[k])@ == self.states@[k]@,
            decreases self.states.len() - i,
        {
            states.push(self.states[i].clone());
            i += 1;
        }
        let copy = SnapshotStore { states, last_update: self.last_update };
        assert(copy@.states =~= self@.states);
        copy
    }
}

/// The state found for a tracked symbol is the only one that bears its name.
pub proof fn lemma_state_of_is_unique(store: StoreView, i: int)
    requires
        store.distinct(),
        0 <= i < store.states.len(),
    ensures
        store.tracks(store.states[i].symbol),
        store.state_of(store.states[i].symbol) == store.states[i],
{
    let symbol = store.states[i].symbol;
    let k = choose|k: int|
        0 <= k < store.states.len() && #[trigger] store.states[k].symbol == symbol;
    if k < i {
        assert(store.states[k].symbol != store.states[i].symbol);
    } else if i < k {
        assert(store.states[i].symbol != store.states[k].symbol);
    }
}

/// In a consistent store the state of every tracked symbol is consistent: its
/// window holds at most [`WINDOW`] samples, one timestamp for each price, and
/// its extrema are the least and the greatest price of the window.
pub proof fn lemma_tracked_state_is_consistent(store: StoreView, symbol: Seq<char>)
    requires
        store.consistent(),
        store.tracks(symbol),
    ensures
        store.state_of(symbol).symbol == symbol,
        store.state_of(symbol).consistent(),
        store.state_of(symbol).recent_prices.len() <= WINDOW,
        store.state_of(symbol).recent_prices.len() == store.state_of(symbol).recent_timestamps.len(),
        store.state_of(symbol).recent_min == lowest(store.state_of(symbol).recent_prices),
        store.state_of(symbol).recent_max == highest(store.state_of(symbol).recent_prices),
{
}

/// Either update tracks the symbols that were tracked before, no more and no
/// fewer.
pub proof fn lemma_updates_keep_tracking(
    store: StoreView,
    symbol: Seq<char>,
    price: i64,
    change_percent: i64,
    observed_at: i64,
    series: Seq<PricePoint>,
    name: Seq<char>,
)
    ensures
        store.with_quote(symbol, price, change_percent, observed_at).tracks(name) == store.tracks(
            name,
        ),
        store.with_history(symbol, series).tracks(name) == store.tracks(name),
{
    let quoted = store.with_quote(symbol, price, change_percent, observed_at);
    let replaced = store.with_history(symbol, series);
    if store.tracks(name) {
        let i = choose|i: int|
            0 <= i < store.states.len() && #[trigger] store.states[i].symbol == name;
        assert(quoted.states[i].symbol == name);
        assert(replaced.states[i].symbol == name);
    }
    if quoted.tracks(name) {
        let i = choose|i: int|
            0 <= i < quoted.states.len() && #[trigger] quoted.states[i].symbol == name;
        assert(store.states[i].symbol == name);
    }
    if replaced.tracks(name) {
        let i = choose|i: int|
            0 <= i < replaced.states.len() && #[trigger] replaced.states[i].symbol == name;
        assert(store.states[i].symbol == name);
    }
}

/// Either update keeps the tracked symbols, their order and their
/// distinctness, and leaves every state consistent that was so.
pub proof fn lemma_updates_keep_consistency(
    store: StoreView,
    symbol: Seq<char>,
    price: i64,
    change_percent: i64,
    observed_at: i64,
    series: Seq<PricePoint>,
)
    requires
        store.consistent(),
    ensures
        store.with_quote(symbol, price, change_percent, observed_at).consistent(),
        store.with_quote(symbol, price, change_percent, observed_at).symbols() == store.symbols(),
        store.with_history(symbol, series).consistent(),
        store.with_history(symbol, series).symbols() == store.symbols(),
{
    let quoted = store.with_quote(symbol, price, change_percent, observed_at);
    let replaced = store.with_history(symbol, series);
    assert(quoted.symbols() =~= store.symbols());
    assert(replaced.symbols() =~= store.symbols());
    assert forall|i: int| 0 <= i < store.states.len() implies (#[trigger] quoted.states[i])
        .consistent() && (#[trigger] replaced.states[i]).consistent() by {
        lemma_quote_keeps_consistency(store.states[i], price, change_percent, observed_at);
        lemma_history_keeps_consistency(store.states[i], series);
    }
    assert forall|i: int, j: int|
        0 <= i < j < store.states.len() implies #[trigger] quoted.states[i].symbol
        != #[trigger] quoted.states[j].symbol && #[trigger] replaced.states[i].symbol
        != #[trigger] replaced.states[j].symbol by {
        assert(store.states[i].symbol != store.states[j].symbol);
    }
}

/// Replacement, not merge: once a tracked symbol's look-back series is replaced,
/// the series read back for it is exactly the one handed in, whatever was there
/// before.
pub proof fn lemma_history_reads_back(store: StoreView, symbol: Seq<char>, series: Seq<PricePoint>)
    requires
        store.tracks(symbol),
    ensures
        store.with_history(symbol, series).tracks(symbol),
        store.with_history(symbol, series).state_of(symbol).history_window == series,
{
    let replaced = store.with_history(symbol, series);
    let i = choose|i: int|
        0 <= i < store.states.len() && #[trigger] store.states[i].symbol == symbol;
    assert(replaced.states[i].symbol == symbol);
    let k = choose|k: int|
        0 <= k < replaced.states.len() && #[trigger] replaced.states[k].symbol == symbol;
    assert(store.states[k].symbol == symbol);
}

/// An update for a symbol that is not tracked changes nothing.
pub proof fn lemma_untracked_changes_nothing(
    store: StoreView,
    symbol: Seq<char>,
    price: i64,
    change_percent: i64,
    observed_at: i64,
    series: Seq<PricePoint>,
)
    requires
        !store.tracks(symbol),
    ensures
        store.with_quote(symbol, price, change_percent, observed_at) == store,
        store.with_history(symbol, series) == store,
{
    assert(store.with_quote(symbol, price, change_percent, observed_at).states =~= store.states);
    assert(store.with_history(symbol, series).states =~= store.states);
}

/// An update for one symbol leaves the state of every other symbol as it was.
pub proof fn lemma_other_symbols_untouched(
    store: StoreView,
    symbol: Seq<char>,
    other: Seq<char>,
    price: i64,
    change_percent: i64,
    observed_at: i64,
    series: Seq<PricePoint>,
)
    requires
        store.distinct(),
        store.tracks(other),
        other != symbol,
    ensures
        store.with_quote(symbol, price, change_percent, observed_at).state_of(other)
            == store.state_of(other),
        store.with_history(symbol, series).state_of(other) == store.state_of(other),
{
    let i = choose|i: int|
        0 <= i < store.states.len() && #[trigger] store.states[i].symbol == other;
    let quoted = store.with_quote(symbol, price, change_percent, observed_at);
    let replaced = store.with_history(symbol, series);
    lemma_state_of_is_unique(store, i);
    assert(quoted.states[i] == store.states[i]);
    assert(replaced.states[i] == store.states[i]);
    assert forall|a: int, b: int|
        0 <= a < b < store.states.len() implies #[trigger] quoted.states[a].symbol
        != #[trigger] quoted.states[b].symbol && #[trigger] replaced.states[a].symbol
        != #[trigger] replaced.states[b].symbol by {
        assert(store.states[a].symbol != store.states[b].symbol);
    }
    lemma_state_of_is_unique(quoted, i);
    lemma_state_of_is_unique(replaced, i);
}

/// Read as a map, an update changes the entry of its symbol and no other: a
/// quote puts there the state that took the quote, a replaced series the state
/// that took the series. For a symbol that is not tracked the map stays as it
/// is.
pub proof fn lemma_update_changes_one_entry(
    store: StoreView,
    symbol: Seq<char>,
    price: i64,
    change_percent: i64,
    observed_at: i64,
    series: Seq<PricePoint>,
)
    requires
        store.distinct(),
    ensures
        store.tracks(symbol) ==> store.with_quote(symbol, price, change_percent, observed_at).as_map()
            == store.as_map().insert(
            symbol,
            store.state_of(symbol).with_quote(price, change_percent, observed_at),
        ),
        store.tracks(symbol) ==> store.with_history(symbol, series).as_map()
            == store.as_map().insert(symbol, store.state_of(symbol).with_history(series)),
        !store.tracks(symbol) ==> store.with_quote(
            symbol,
            price,
            change_percent,
            observed_at,
        ).as_map() == store.as_map(),
        !store.tracks(symbol) ==> store.with_history(symbol, series).as_map() == store.as_map(),
{
    let quoted = store.with_quote(symbol, price, change_percent, observed_at);
    let replaced = store.with_history(symbol, series);
    if store.tracks(symbol) {
        let i = choose|i: int|
        0 <= i < store.states.len() && #[trigger] store.states[i].symbol == symbol;
        assert forall|a: int, b: int|
            0 <= a < b < store.states.len() implies #[trigger] quoted.states[a].symbol
            != #[trigger] quoted.states[b].symbol && #[trigger] replaced.states[a].symbol
            != #[trigger] replaced.states[b].symbol by {
            assert(store.states[a].symbol != store.states[b].symbol);
        }
        assert(quoted.states[i].symbol == symbol);
        assert(replaced.states[i].symbol == symbol);
        lemma_state_of_is_unique(store, i);
        lemma_state_of_is_unique(quoted, i);
        lemma_state_of_is_unique(replaced, i);
        assert forall|name: Seq<char>|
            quoted.tracks(name) == store.tracks(name) && replaced.tracks(name) == store.tracks(name)
                && (store.tracks(name) && name != symbol ==> quoted.state_of(name) == store.state_of(
                name,
            ) && replaced.state_of(name) == store.state_of(name)) by {
            lemma_updates_keep_tracking(
                store,
                symbol,
                price,
                change_percent,
                observed_at,
                series,
                name,
            );
            if store.tracks(name) && name != symbol {
                lemma_other_symbols_untouched(
                    store,
                    symbol,
                    name,
                    price,
                    change_percent,
                    observed_at,
                    series,
                );
            }
        }
        assert(quoted.as_map() =~= store.as_map().insert(
            symbol,
            store.state_of(symbol).with_quote(price, change_percent, observed_at),
        ));
        assert(replaced.as_map() =~= store.as_map().insert(
            symbol,
            store.state_of(symbol).with_history(series),
        ));
    } else {
        lemma_untracked_changes_nothing(store, symbol, price, change_percent, observed_at, series);
    }
}

/// Updates for different symbols may be applied in either order: the store
/// that results is the same.
pub proof fn lemma_updates_commute(
    store: StoreView,
    first: Seq<char>,
    second: Seq<char>,
    price: i64,
    change_percent: i64,
    observed_at: i64,
    other_price: i64,
    other_change_percent: i64,
    other_observed_at: i64,
    series: Seq<PricePoint>,
)
    requires
        first != second,
    ensures
        store.with_quote(first, price, change_percent, observed_at).with_history(second, series)
            == store.with_history(second, series).with_quote(
            first,
            price,
            change_percent,
            observed_at,
        ),
        store.with_quote(first, price, change_percent, observed_at).with_quote(
            second,
            other_price,
            other_change_percent,
            other_observed_at,
        ) == store.with_quote(second, other_price, other_change_percent, other_observed_at).with_quote(
            first,
            price,
            change_percent,
            observed_at,
        ),
{
    assert(store.with_quote(first, price, change_percent, observed_at).with_history(
        second,
        series,
    ).states =~= store.with_history(second, series).with_quote(
        first,
        price,
        change_percent,
        observed_at,
    ).states);
    assert(store.with_quote(first, price, change_percent, observed_at).with_quote(
        second,
        other_price,
        other_change_percent,
        other_observed_at,
    ).states =~= store.with_quote(
        second,
        other_price,
        other_change_percent,
        other_observed_at,
    ).with_quote(first, price, change_percent, observed_at).states);
}

} // verus!
