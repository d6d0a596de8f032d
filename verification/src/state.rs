//! The state kept for one tracked symbol, and the two updates that change it.

use vstd::prelude::*;
use crate::extrema::{highest, lowest, max_of, min_of, NO_MAXIMUM, NO_MINIMUM};
use crate::percent::{percent_change, percent_change_of};

verus! {

/// How many recent samples a symbol keeps.
pub const WINDOW: usize = 60;

/// One sample of a price series.
#[derive(Clone, Copy, Debug, PartialEq, Eq, Structural)]
pub struct PricePoint {
    pub price: i64,
    pub timestamp: i64,
}

/// The prices of `series`, in order.
pub open spec fn prices_of(series: Seq<PricePoint>) -> Seq<i64> {
    series.map_values(|point: PricePoint| point.price)
}

/// `window` with `sample` appended, the oldest entry dropped once more than
/// [`WINDOW`] entries are held.
pub open spec fn slide<T>(window: Seq<T>, sample: T) -> Seq<T> {
    let grown = window.push(sample);
    if grown.len() > WINDOW {
        grown.subrange(1, grown.len() as int)
    } else {
        grown
    }
}

/// The change of `current_price` against the first sample of `history`, or
/// `previous` where there is no first sample with a positive price.
pub open spec fn change_against(
    previous: i64,
    current_price: i64,
    history: Seq<PricePoint>,
) -> i64 {
    if history.len() > 0 && history[0].price > 0 {
        percent_change(current_price, history[0].price)
    } else {
        previous
    }
}

/// The mathematical content of a [`SymbolState`].
pub struct SymbolView {
    pub symbol: Seq<char>,
    pub recent_prices: Seq<i64>,
    pub recent_timestamps: Seq<i64>,
    pub history_window: Seq<PricePoint>,
    pub current_price: i64,
    pub change_percent: i64,
    pub change_percent_24h: i64,
    pub recent_min: i64,
    pub recent_max: i64,
    pub history_min: i64,
    pub history_max: i64,
}

impl SymbolView {
    /// The state of a symbol for which nothing has arrived yet.
    pub open spec fn fresh(symbol: Seq<char>) -> SymbolView {
        SymbolView {
            symbol,
            recent_prices: Seq::empty(),
            recent_timestamps: Seq::empty(),
            history_window: Seq::empty(),
            current_price: 0,
            change_percent: 0,
            change_percent_24h: 0,
            recent_min: NO_MINIMUM,
            recent_max: NO_MAXIMUM,
            history_min: NO_MINIMUM,
            history_max: NO_MAXIMUM,
        }
    }

    /// Every derived field agrees with the sequences it is derived from.
    pub open spec fn consistent(self) -> bool {
        &&& self.recent_prices.len() <= WINDOW
        &&& self.recent_prices.len() == self.recent_timestamps.len()
        &&& self.recent_min == lowest(self.recent_prices)
        &&& self.recent_max == highest(self.recent_prices)
        &&& self.history_min == lowest(prices_of(self.history_window))
        &&& self.history_max == highest(prices_of(self.history_window))
        &&& self.recent_prices.len() > 0 ==> self.current_price == self.recent_prices.last()
        &&& self.recent_prices.len() == 0 ==> self.current_price == 0 && self.change_percent == 0
        &&& self.history_window.len() > 0 && self.history_window[0].price > 0
            ==> self.change_percent_24h == percent_change(
            self.current_price,
            self.history_window[0].price,
        )
    }

    /// The state after a quote of `price`, observed at `observed_at`.
    pub open spec fn with_quote(
        self,
        price: i64,
        change_percent: i64,
        observed_at: i64,
    ) -> SymbolView {
        let recent_prices = slide(self.recent_prices, price);
        SymbolView {
            symbol: self.symbol,
            recent_prices,
            recent_timestamps: slide(self.recent_timestamps, observed_at),
            history_window: self.history_window,
            current_price: price,
            change_percent,
            change_percent_24h: change_against(self.change_percent_24h, price, self.history_window),
            recent_min: lowest(recent_prices),
            recent_max: highest(recent_prices),
            history_min: self.history_min,
            history_max: self.history_max,
        }
    }

    /// The state after its look-back series is replaced by `series`.
    pub open spec fn with_history(self, series: Seq<PricePoint>) -> SymbolView {
        SymbolView {
            symbol: self.symbol,
            recent_prices: self.recent_prices,
            recent_timestamps: self.recent_timestamps,
            history_window: series,
            current_price: self.current_price,
            change_percent: self.change_percent,
            change_percent_24h: change_against(self.change_percent_24h, self.current_price, series),
            recent_min: self.recent_min,
            recent_max: self.recent_max,
            history_min: lowest(prices_of(series)),
            history_max: highest(prices_of(series)),
        }
    }
}

/// The least and the greatest price of `series`.
pub fn price_range(series: &Vec<PricePoint>) -> (range: (i64, i64))
    ensures
        range.0 == lowest(prices_of(series@)),
        range.1 == highest(prices_of(series@)),
{
    let mut least: i64 = NO_MINIMUM;
    let mut greatest: i64 = NO_MAXIMUM;
    let mut i: usize = 0;
    while i < series.len()
        invariant
            i <= series.len(),
            least == lowest(prices_of(series@.take(i as int))),
            greatest == highest(prices_of(series@.take(i as int))),
        decreases series.len() - i,
    {
        assert(prices_of(series@.take(i + 1)).drop_last() =~= prices_of(series@.take(i as int)));
        let price = series[i].price;
        if price < least {
            least = price;
        }
        if price > greatest {
            greatest = price;
        }
        i += 1;
    }
    assert(series@.take(series.len() as int) =~= series@);
    (least, greatest)
}

/// A quote leaves a consistent state consistent: the window stays within its
/// bound, prices and timestamps stay paired, and the extrema are those of the
/// window as it then is.
pub proof fn lemma_quote_keeps_consistency(
    state: SymbolView,
    price: i64,
    change_percent: i64,
    observed_at: i64,
)
    requires
        state.consistent(),
    ensures
        state.with_quote(price, change_percent, observed_at).consistent(),
        state.with_quote(price, change_percent, observed_at).recent_prices.len() <= WINDOW,
        state.with_quote(price, change_percent, observed_at).recent_prices.len()
            == state.with_quote(price, change_percent, observed_at).recent_timestamps.len(),
{
}

/// A replaced look-back series leaves a consistent state consistent, and the
/// series read back is the one that was handed in.
pub proof fn lemma_history_keeps_consistency(state: SymbolView, series: Seq<PricePoint>)
    requires
        state.consistent(),
    ensures
        state.with_history(series).consistent(),
        state.with_history(series).history_window == series,
        state.with_history(series).recent_prices == state.recent_prices,
        state.with_history(series).recent_timestamps == state.recent_timestamps,
{
}

/// Without a first look-back sample of positive price there is nothing to
/// compare with, and neither update touches the 24-hour change.
pub proof fn lemma_change_kept_without_reference(
    state: SymbolView,
    price: i64,
    change_percent: i64,
    observed_at: i64,
    series: Seq<PricePoint>,
)
    ensures
        state.history_window.len() == 0 || state.history_window[0].price <= 0 ==> state.with_quote(
            price,
            change_percent,
            observed_at,
        ).change_percent_24h == state.change_percent_24h,
        series.len() == 0 || series[0].price <= 0 ==> state.with_history(series).change_percent_24h
            == state.change_percent_24h,
{
}

/// With a first look-back sample of positive price, either update sets the
/// 24-hour change to that of the current price against that sample.
pub proof fn lemma_change_follows_reference(
    state: SymbolView,
    price: i64,
    change_percent: i64,
    observed_at: i64,
    series: Seq<PricePoint>,
)
    ensures
        state.history_window.len() > 0 && state.history_window[0].price > 0 ==> state.with_quote(
            price,
            change_percent,
            observed_at,
        ).change_percent_24h == percent_change(price, state.history_window[0].price),
        series.len() > 0 && series[0].price > 0 ==> state.with_history(series).change_percent_24h
            == percent_change(state.current_price, series[0].price),
{
}

/// Everything the tracker knows about one symbol.
#[derive(Debug)]
pub struct SymbolState {
    symbol: String,
    recent_prices: Vec<i64>,
    recent_timestamps: Vec<i64>,
    history_window: Vec<PricePoint>,
    current_price: i64,
    change_percent: i64,
    change_percent_24h: i64,
    recent_min: i64,
    recent_max: i64,
    history_min: i64,
    history_max: i64,
}

impl View for SymbolState {
    type V = SymbolView;

    closed spec fn view(&self) -> SymbolView {
        SymbolView {
            symbol: self.symbol@,
            recent_prices: self.recent_prices@,
            recent_timestamps: self.recent_timestamps@,
            history_window: self.history_window@,
            current_price: self.current_price,
            change_percent: self.change_percent,
            change_percent_24h: self.change_percent_24h,
            recent_min: self.recent_min,
            recent_max: self.recent_max,
            history_min: self.history_min,
            history_max: self.history_max,
        }
    }
}

impl Clone for SymbolState {
    fn clone(&self) -> (copy: Self)
        ensures
            copy@ == self@,
    {
        let copy = SymbolState {
            symbol: self.symbol.clone(),
            recent_prices: self.recent_prices.clone(),
            recent_timestamps: self.recent_timestamps.clone(),
            history_window: self.history_window.clone(),
            current_price: self.current_price,
            change_percent: self.change_percent,
            change_percent_24h: self.change_percent_24h,
            recent_min: self.recent_min,
            recent_max: self.recent_max,
            history_min: self.history_min,
            history_max: self.history_max,
        };
        assert(copy.recent_prices@ =~= self.recent_prices@);
        assert(copy.recent_timestamps@ =~= self.recent_timestamps@);
        assert(copy.history_window@ =~= self.history_window@);
        copy
    }
}

impl SymbolState {
    /// Whether the derived fields agree with the sequences.
    pub open spec fn wf(&self) -> bool {
        self@.consistent()
    }

    /// The state of `symbol` before anything has arrived.
    pub fn new(symbol: String) -> (state: Self)
        ensures
            state@ == SymbolView::fresh(symbol@),
            state.wf(),
    {
        let state = SymbolState {
            symbol,
            recent_prices: Vec::new(),
            recent_timestamps: Vec::new(),
            history_window: Vec::new(),
            current_price: 0,
            change_percent: 0,
            change_percent_24h: 0,
            recent_min: NO_MINIMUM,
            recent_max: NO_MAXIMUM,
            history_min: NO_MINIMUM,
            history_max: NO_MAXIMUM,
        };
        assert(prices_of(state.history_window@) =~= Seq::<i64>::empty());
        state
    }

    /// Takes in one quote: the sample enters the recent window, the oldest one
    /// leaves once the window is full, and every field derived from the window or
    /// from the current price is brought up to date.
    pub fn apply_quote(&mut self, price: i64, change_percent: i64, observed_at: i64)
        requires
            old(self).wf(),
        ensures
            final(self)@ == old(self)@.with_quote(price, change_percent, observed_at),
            final(self).wf(),
    {
        self.recent_prices.push(price);
        self.recent_timestamps.push(observed_at);
        if self.recent_prices.len() > WINDOW {
            self.recent_prices.remove(0);
            self.recent_timestamps.remove(0);
        }
        assert(self.recent_prices@ =~= slide(old(self).recent_prices@, price));
        assert(self.recent_timestamps@ =~= slide(old(self).recent_timestamps@, observed_at));
        self.current_price = price;
        self.change_percent = change_percent;
        self.recent_min = min_of(&self.recent_prices);
        self.recent_max = max_of(&self.recent_prices);
        if self.history_window.len() > 0 {
            let reference = self.history_window[0].price;
            if reference > 0 {
                self.change_percent_24h = percent_change_of(price, reference);
            }
        }
    }

    /// Replaces the look-back series by `series` and brings the fields derived
    /// from it up to date.
    pub fn apply_history(&mut self, series: Vec<PricePoint>)
        requires
            old(self).wf(),
        ensures
            final(self)@ == old(self)@.with_history(series@),
            final(self).wf(),
    {
        let range = price_range(&series);
        self.history_min = range.0;
        self.history_max = range.1;
        if series.len() > 0 {
            let reference = series[0].price;
            if reference > 0 {
                self.change_percent_24h = percent_change_of(self.current_price, reference);
            }
        }
        self.history_window = series;
    }

    /// The identifier this state was made for.
    pub fn symbol(&self) -> (symbol: &String)
        ensures
            symbol@ == self@.symbol,
    {
        &self.symbol
    }

    /// The recent samples' prices, oldest first.
    pub fn recent_prices(&self) -> (prices: &Vec<i64>)
        ensures
            prices@ == self@.recent_prices,
    {
        &self.recent_prices
    }

    /// When each recent sample was observed, oldest first.
    pub fn recent_timestamps(&self) -> (timestamps: &Vec<i64>)
        ensures
            timestamps@ == self@.recent_timestamps,
    {
        &self.recent_timestamps
    }

    /// The look-back series, oldest first.
    pub fn history_window(&self) -> (series: &Vec<PricePoint>)
        ensures
            series@ == self@.history_window,
    {
        &self.history_window
    }

    /// The price of the latest quote, 0 before the first.
    pub fn current_price(&self) -> (price: i64)
        ensures
            price == self@.current_price,
    {
        self.current_price
    }

    /// The latest quote's change against the prior close, 0 before the first.
    pub fn change_percent(&self) -> (change: i64)
        ensures
            change == self@.change_percent,
    {
        self.change_percent
    }

    /// The current price's change against the start of the look-back series.
    pub fn change_percent_24h(&self) -> (change: i64)
        ensures
            change == self@.change_percent_24h,
    {
        self.change_percent_24h
    }

    /// The least recent price, [`NO_MINIMUM`] while there is none.
    pub fn recent_min(&self) -> (least: i64)
        ensures
            least == self@.recent_min,
    {
        self.recent_min
    }

    /// The greatest recent price, [`NO_MAXIMUM`] while there is none.
    pub fn recent_max(&self) -> (greatest: i64)
        ensures
            greatest == self@.recent_max,
    {
        self.recent_max
    }

    /// The least price of the look-back series, [`NO_MINIMUM`] while it is empty.
    pub fn history_min(&self) -> (least: i64)
        ensures
            least == self@.history_min,
    {
        self.history_min
    }

    /// The greatest price of the look-back series, [`NO_MAXIMUM`] while it is empty.
    pub fn history_max(&self) -> (greatest: i64)
        ensures
            greatest == self@.history_max,
    {
        self.history_max
    }
}

} // verus!
