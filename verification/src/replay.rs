//! What a run of quotes does to one symbol's state.

use vstd::prelude::*;
use crate::state::{lemma_quote_keeps_consistency, slide, SymbolView, WINDOW};
use crate::extrema::{highest, lowest};

verus! {

/// One quote together with the time at which it was observed.
pub struct TimedQuote {
    pub price: i64,
    pub change_percent: i64,
    pub observed_at: i64,
}

/// The prices of `quotes`, in order.
pub open spec fn quoted_prices(quotes: Seq<TimedQuote>) -> Seq<i64> {
    quotes.map_values(|quote: TimedQuote| quote.price)
}

/// The observation times of `quotes`, in order.
pub open spec fn quoted_times(quotes: Seq<TimedQuote>) -> Seq<i64> {
    quotes.map_values(|quote: TimedQuote| quote.observed_at)
}

/// The state after `quotes` were applied to `start`, first to last.
pub open spec fn after_quotes(start: SymbolView, quotes: Seq<TimedQuote>) -> SymbolView
    decreases quotes.len(),
{
    if quotes.len() == 0 {
        start
    } else {
        let quote = quotes.last();
        after_quotes(start, quotes.drop_last()).with_quote(
            quote.price,
            quote.change_percent,
            quote.observed_at,
        )
    }
}

/// The last [`WINDOW`] entries of `samples`, or all of them where there are
/// fewer.
pub open spec fn latest<T>(samples: Seq<T>) -> Seq<T> {
    if samples.len() > WINDOW {
        samples.subrange(samples.len() - WINDOW, samples.len() as int)
    } else {
        samples
    }
}

/// Sliding one sample into the latest entries of a sequence gives the latest
/// entries of the sequence extended by that sample.
pub proof fn lemma_slide_latest<T>(samples: Seq<T>, sample: T)
    ensures
        slide(latest(samples), sample) == latest(samples.push(sample)),
{
    assert(slide(latest(samples), sample) =~= latest(samples.push(sample)));
}

/// After any run of quotes a consistent state is consistent: at most
/// [`WINDOW`] samples, as many timestamps as prices, and extrema that are the
/// least and greatest price of the window.
pub proof fn lemma_quotes_keep_consistency(start: SymbolView, quotes: Seq<TimedQuote>)
    requires
        start.consistent(),
    ensures
        after_quotes(start, quotes).consistent(),
        after_quotes(start, quotes).recent_prices.len() <= WINDOW,
        after_quotes(start, quotes).recent_prices.len() == after_quotes(
            start,
            quotes,
        ).recent_timestamps.len(),
        after_quotes(start, quotes).recent_min == lowest(after_quotes(start, quotes).recent_prices),
        after_quotes(start, quotes).recent_max == highest(
            after_quotes(start, quotes).recent_prices,
        ),
    decreases quotes.len(),
{
    if quotes.len() > 0 {
        lemma_quotes_keep_consistency(start, quotes.drop_last());
        let quote = quotes.last();
        lemma_quote_keeps_consistency(
            after_quotes(start, quotes.drop_last()),
            quote.price,
            quote.change_percent,
            quote.observed_at,
        );
    }
}

/// Eviction is first in, first out: after a run of quotes the window holds the
/// latest [`WINDOW`] of the samples it held before followed by the run's own,
/// in order, and nothing else.
pub proof fn lemma_window_holds_latest(start: SymbolView, quotes: Seq<TimedQuote>)
    requires
        start.recent_prices.len() <= WINDOW,
        start.recent_timestamps.len() <= WINDOW,
    ensures
        after_quotes(start, quotes).recent_prices == latest(
            start.recent_prices + quoted_prices(quotes),
        ),
        after_quotes(start, quotes).recent_timestamps == latest(
            start.recent_timestamps + quoted_times(quotes),
        ),
    decreases quotes.len(),
{
    if quotes.len() == 0 {
        assert(start.recent_prices + quoted_prices(quotes) =~= start.recent_prices);
        assert(start.recent_timestamps + quoted_times(quotes) =~= start.recent_timestamps);
    } else {
        let earlier = quotes.drop_last();
        let quote = quotes.last();
        lemma_window_holds_latest(start, earlier);
        lemma_slide_latest(start.recent_prices + quoted_prices(earlier), quote.price);
        lemma_slide_latest(start.recent_timestamps + quoted_times(earlier), quote.observed_at);
        assert((start.recent_prices + quoted_prices(earlier)).push(quote.price)
            =~= start.recent_prices + quoted_prices(quotes));
        assert((start.recent_timestamps + quoted_times(earlier)).push(quote.observed_at)
            =~= start.recent_timestamps + quoted_times(quotes));
    }
}

/// One quote more than the window holds, applied to a fresh state, leaves
/// every sample but the first.
pub proof fn lemma_overflow_evicts_oldest(symbol: Seq<char>, quotes: Seq<TimedQuote>)
    requires
        quotes.len() == WINDOW + 1,
    ensures
        after_quotes(SymbolView::fresh(symbol), quotes).recent_prices == quoted_prices(
            quotes,
        ).subrange(1, quotes.len() as int),
{
    let start = SymbolView::fresh(symbol);
    lemma_window_holds_latest(start, quotes);
    assert(start.recent_prices + quoted_prices(quotes) =~= quoted_prices(quotes));
}

} // verus!
