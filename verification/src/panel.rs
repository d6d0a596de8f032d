//! What a display of the store shows: which symbols are picked for a chart,
//! and where each chart stands in the grid.

use vstd::prelude::*;

verus! {

/// How many symbols can be picked at once.
pub const MAX_SELECTED: usize = 8;

/// Where `symbol` stands in `picked`. Meaningful where it occurs.
pub open spec fn position(picked: Seq<Seq<char>>, symbol: Seq<char>) -> int {
    choose|i: int| 0 <= i < picked.len() && picked[i] == symbol
}

/// `picked` after a click on `symbol`: a picked symbol is dropped, another one
/// is added at the end while there is room, and is ignored while there is not.
pub open spec fn toggled(picked: Seq<Seq<char>>, symbol: Seq<char>) -> Seq<Seq<char>> {
    if picked.contains(symbol) {
        picked.remove(position(picked, symbol))
    } else if picked.len() < MAX_SELECTED {
        picked.push(symbol)
    } else {
        picked
    }
}

/// The symbols picked for a chart, in the order in which they were picked.
#[derive(Debug)]
pub struct Selection {
    symbols: Vec<String>,
}

impl View for Selection {
    type V = Seq<Seq<char>>;

    closed spec fn view(&self) -> Seq<Seq<char>> {
        self.symbols@.map_values(|symbol: String| symbol@)
    }
}

impl Selection {
    /// No symbol is picked twice, and no more than [`MAX_SELECTED`] are picked.
    pub open spec fn wf(&self) -> bool {
        &&& self@.no_duplicates()
        &&& self@.len() <= MAX_SELECTED
    }

    /// Nothing picked.
    pub fn new() -> (selection: Self)
        ensures
            selection@ == Seq::<Seq<char>>::empty(),
            selection.wf(),
    {
        let selection = Selection { symbols: Vec::new() };
        assert(selection@ =~= Seq::<Seq<char>>::empty());
        selection
    }

    /// How many symbols are picked.
    pub fn len(&self) -> (count: usize)
        ensures
            count == self@.len(),
    {
        self.symbols.len()
    }

    /// Whether nothing is picked.
    pub fn is_empty(&self) -> (empty: bool)
        ensures
            empty == (self@.len() == 0),
    {
        self.symbols.len() == 0
    }

    /// The symbol that was picked as the `index`-th.
    pub fn symbol_at(&self, index: usize) -> (symbol: &String)
        requires
            index < self@.len(),
        ensures
            symbol@ == self@[index as int],
    {
        &self.symbols[index]
    }

    /// Where `symbol` stands among the picked ones, if it is one.
    pub fn find(&self, symbol: &str) -> (found: Option<usize>)
        ensures
            found is Some <==> self@.contains(symbol@),
            found matches Some(i) ==> i < self@.len() && self@[i as int] == symbol@,
    {
        let wanted: String = symbol.to_owned();
        let mut i: usize = 0;
        while i < self.symbols.len()
            invariant
                i <= self.symbols.len(),
                wanted@ == symbol@,
                forall|k: int| 0 <= k < i ==> self@[k] != symbol@,
            decreases self.symbols.len() - i,
        {
            if self.symbols[i] == wanted {
                assert(self@[i as int] == symbol@);
                return Some(i);
            }
            i += 1;
        }
        None
    }

    /// Whether `symbol` is picked.
    pub fn contains(&self, symbol: &str) -> (picked: bool)
        ensures
            picked == self@.contains(symbol@),
    {
        self.find(symbol).is_some()
    }

    /// Takes a click on `symbol`.
    pub fn toggle(&mut self, symbol: &str)
        requires
            old(self).wf(),
        ensures
            final(self)@ == toggled(old(self)@, symbol@),
            final(self).wf(),
    {
        match self.find(symbol) {
            Some(i) => {
                proof {
                    let k = position(self@, symbol@);
                    if k != i {
                        assert(self@[k] == self@[i as int]);
                    }
                }
                self.symbols.remove(i);
                assert(self@ =~= old(self)@.remove(i as int));
                assert forall|a: int, b: int|
                    0 <= a < self@.len() && 0 <= b < self@.len() && a != b implies self@[a]
                    != self@[b] by {
                    let from_a = if a < i { a } else { a + 1 };
                    let from_b = if b < i { b } else { b + 1 };
                    assert(self@[a] == old(self)@[from_a]);
                    assert(self@[b] == old(self)@[from_b]);
                }
            },
            None => {
                if self.symbols.len() < MAX_SELECTED {
                    self.symbols.push(symbol.to_owned());
                    assert(self@ =~= old(self)@.push(symbol@));
                }
            },
        }
    }
}

/// A click changes whether the clicked symbol is picked, unless it is not and
/// there is no room; it never changes whether another symbol is.
pub proof fn lemma_toggle_changes_one(
    picked: Seq<Seq<char>>,
    symbol: Seq<char>,
    other: Seq<char>,
)
    requires
        picked.no_duplicates(),
        other != symbol,
    ensures
        picked.contains(symbol) ==> !toggled(picked, symbol).contains(symbol),
        !picked.contains(symbol) && picked.len() < MAX_SELECTED ==> toggled(picked, symbol).contains(
            symbol,
        ),
        !picked.contains(symbol) && picked.len() >= MAX_SELECTED ==> toggled(picked, symbol)
            == picked,
        toggled(picked, symbol).contains(other) == picked.contains(other),
{
    let after = toggled(picked, symbol);
    if picked.contains(symbol) {
        let at = position(picked, symbol);
        if after.contains(symbol) {
            let k = choose|k: int| 0 <= k < after.len() && after[k] == symbol;
            let from = if k < at { k } else { k + 1 };
            assert(picked[from] == picked[at]);
        }
        if picked.contains(other) {
            let j = choose|j: int| 0 <= j < picked.len() && picked[j] == other;
            let to = if j < at { j } else { j - 1 };
            assert(after[to] == other);
        }
        if after.contains(other) {
            let k = choose|k: int| 0 <= k < after.len() && after[k] == other;
            let from = if k < at { k } else { k + 1 };
            assert(picked[from] == other);
        }
    } else if picked.len() < MAX_SELECTED {
        assert(after[after.len() - 1] == symbol);
        if picked.contains(other) {
            let j = choose|j: int| 0 <= j < picked.len() && picked[j] == other;
            assert(after[j] == other);
        }
        if after.contains(other) {
            let k = choose|k: int| 0 <= k < after.len() && after[k] == other;
            assert(picked[k] == other);
        }
    }
}

/// How many charts stand side by side where `count` are shown.
pub open spec fn columns_for(count: nat) -> nat {
    if count == 1 {
        1
    } else if count <= 4 {
        2
    } else {
        3
    }
}

/// How many rows of charts `count` charts take.
pub open spec fn rows_for(count: nat) -> nat {
    (count + columns_for(count) - 1) as nat / columns_for(count)
}

/// Computes [`columns_for`].
pub fn grid_columns(count: usize) -> (columns: usize)
    ensures
        columns == columns_for(count as nat),
        1 <= columns <= 3,
{
    if count == 1 {
        1
    } else if count <= 4 {
        2
    } else {
        3
    }
}

/// Computes [`rows_for`].
pub fn grid_rows(count: usize) -> (rows: usize)
    ensures
        rows == rows_for(count as nat),
{
    let columns = grid_columns(count);
    let full = count / columns;
    if count % columns == 0 {
        full
    } else {
        full + 1
    }
}

/// The column and the row of the `index`-th chart of `count`.
pub fn grid_cell(index: usize, count: usize) -> (cell: (usize, usize))
    ensures
        cell.0 == index as nat % columns_for(count as nat),
        cell.1 == index as nat / columns_for(count as nat),
{
    let columns = grid_columns(count);
    (index % columns, index / columns)
}

/// The grid has a cell for every chart and no row without one.
pub proof fn lemma_grid_fits(count: nat, index: nat)
    requires
        index < count,
    ensures
        index % columns_for(count) < columns_for(count),
        index / columns_for(count) < rows_for(count),
        (rows_for(count) - 1) * columns_for(count) < count,
        count <= rows_for(count) * columns_for(count),
{
    let columns = columns_for(count);
    assert(index / columns < rows_for(count) && (rows_for(count) - 1) * columns < count && count
        <= rows_for(count) * columns) by (nonlinear_arith)
        requires
            1 <= columns <= 3,
            index < count,
            rows_for(count) == (count + columns - 1) / columns as int,
    ;
}

} // verus!
