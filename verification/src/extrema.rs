//! Least and greatest element of a price sequence, with a sentinel for "no data yet".

use vstd::prelude::*;

verus! {

/// What a minimum reads while there is no sample: above every price.
pub const NO_MINIMUM: i64 = 9223372036854775807;

/// What a maximum reads while there is no sample: below every price.
pub const NO_MAXIMUM: i64 = -9223372036854775808;

/// The least element of `prices`, or [`NO_MINIMUM`] for the empty sequence.
pub open spec fn lowest(prices: Seq<i64>) -> i64
    decreases prices.len(),
{
    if prices.len() == 0 {
        NO_MINIMUM
    } else {
        let rest = lowest(prices.drop_last());
        if prices.last() < rest {
            prices.last()
        } else {
            rest
        }
    }
}

/// The greatest element of `prices`, or [`NO_MAXIMUM`] for the empty sequence.
pub open spec fn highest(prices: Seq<i64>) -> i64
    decreases prices.len(),
{
    if prices.len() == 0 {
        NO_MAXIMUM
    } else {
        let rest = highest(prices.drop_last());
        if prices.last() > rest {
            prices.last()
        } else {
            rest
        }
    }
}

/// `lowest` of a non-empty sequence is one of its elements and none is below it.
pub proof fn lemma_lowest_is_least(prices: Seq<i64>)
    requires
        prices.len() > 0,
    ensures
        prices.contains(lowest(prices)),
        forall|i: int| 0 <= i < prices.len() ==> lowest(prices) <= #[trigger] prices[i],
    decreases prices.len(),
{
    let rest = prices.drop_last();
    if rest.len() > 0 {
        lemma_lowest_is_least(rest);
        let k = choose|k: int| 0 <= k < rest.len() && rest[k] == lowest(rest);
        assert(prices[k] == lowest(rest));
        assert forall|i: int| 0 <= i < prices.len() implies lowest(prices)
            <= #[trigger] prices[i] by {
            if i < rest.len() {
                assert(prices[i] == rest[i]);
            }
        }
    }
    assert(prices[prices.len() - 1] == prices.last());
    assert(rest.len() == 0 ==> lowest(rest) == NO_MINIMUM);
}

/// `highest` of a non-empty sequence is one of its elements and none is above it.
pub proof fn lemma_highest_is_greatest(prices: Seq<i64>)
    requires
        prices.len() > 0,
    ensures
        prices.contains(highest(prices)),
        forall|i: int| 0 <= i < prices.len() ==> highest(prices) >= #[trigger] prices[i],
    decreases prices.len(),
{
    let rest = prices.drop_last();
    if rest.len() > 0 {
        lemma_highest_is_greatest(rest);
        let k = choose|k: int| 0 <= k < rest.len() && rest[k] == highest(rest);
        assert(prices[k] == highest(rest));
        assert forall|i: int| 0 <= i < prices.len() implies highest(prices)
            >= #[trigger] prices[i] by {
            if i < rest.len() {
                assert(prices[i] == rest[i]);
            }
        }
    }
    assert(prices[prices.len() - 1] == prices.last());
    assert(rest.len() == 0 ==> highest(rest) == NO_MAXIMUM);
}

/// Folds `prices` once for its least element.
pub fn min_of(prices: &Vec<i64>) -> (least: i64)
    ensures
        least == lowest(prices@),
{
    let mut least: i64 = NO_MINIMUM;
    let mut i: usize = 0;
    while i < prices.len()
        invariant
            i <= prices.len(),
            least == lowest(prices@.take(i as int)),
        decreases prices.len() - i,
    {
        assert(prices@.take(i + 1).drop_last() =~= prices@.take(i as int));
        if prices[i] < least {
            least = prices[i];
        }
        i += 1;
    }
    assert(prices@.take(prices.len() as int) =~= prices@);
    least
}

/// Folds `prices` once for its greatest element.
pub fn max_of(prices: &Vec<i64>) -> (greatest: i64)
    ensures
        greatest == highest(prices@),
{
    let mut greatest: i64 = NO_MAXIMUM;
    let mut i: usize = 0;
    while i < prices.len()
        invariant
            i <= prices.len(),
            greatest == highest(prices@.take(i as int)),
        decreases prices.len() - i,
    {
        assert(prices@.take(i + 1).drop_last() =~= prices@.take(i as int));
        if prices[i] > greatest {
            greatest = prices[i];
        }
        i += 1;
    }
    assert(prices@.take(prices.len() as int) =~= prices@);
    greatest
}

} // verus!
