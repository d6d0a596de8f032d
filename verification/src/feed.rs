//! What a reply of the market-data source means: a quote, a look-back series,
//! or the reason why there is none.

use vstd::prelude::*;
use crate::percent::{percent_change, percent_change_of};
use crate::state::PricePoint;

verus! {

/// A current price and its change against the prior close.
#[derive(Clone, Copy, Debug, PartialEq, Eq, Structural)]
pub struct Quote {
    pub price: i64,
    pub change_percent: i64,
}

/// Why a fetch gave nothing to apply.
#[derive(Clone, Copy, Debug, PartialEq, Eq, Structural)]
pub enum FetchError {
    /// The request failed or timed out, or the reply was no document at all.
    Transport,
    /// The reply to a quote request holds no chart metadata.
    MalformedQuote,
    /// The reply to a history request holds no chart result.
    MalformedHistory,
    /// The chart result holds no list of timestamps.
    NoTimestamps,
    /// The chart result holds no quote indicators.
    NoQuotes,
    /// The quote indicators hold no list of closing prices.
    NoClosePrices,
}

/// The two numbers of a chart's metadata that a quote is made of, each absent
/// where the reply does not hold it as a number.
#[derive(Clone, Copy, Debug, PartialEq, Eq, Structural)]
pub struct QuoteMeta {
    pub regular_market_price: Option<i64>,
    pub chart_previous_close: Option<i64>,
}

/// The parts of a chart result that a look-back series is made of.
#[derive(Debug)]
pub struct HistoryPayload {
    /// The list of timestamps, each absent where it is no whole number.
    pub timestamps: Option<Vec<Option<i64>>>,
    /// Whether the result holds quote indicators.
    pub quote_present: bool,
    /// The list of closing prices, each absent where it is no number.
    pub closes: Option<Vec<Option<i64>>>,
}

/// The quote that `meta` stands for: a missing price reads 0, a missing prior
/// close reads as the price, and the change against a prior close of 0 is 0.
pub open spec fn quote_of(meta: QuoteMeta) -> Quote {
    let price = match meta.regular_market_price {
        Some(price) => price,
        None => 0,
    };
    let prior_close = match meta.chart_previous_close {
        Some(close) => close,
        None => price,
    };
    Quote { price, change_percent: percent_change(price, prior_close) }
}

/// Reads a quote out of a chart's metadata, `None` standing for a reply
/// without any.
pub fn quote_from_meta(meta: Option<QuoteMeta>) -> (outcome: Result<Quote, FetchError>)
    ensures
        outcome == match meta {
            Some(meta) => Ok::<Quote, FetchError>(quote_of(meta)),
            None => Err::<Quote, FetchError>(FetchError::MalformedQuote),
        },
{
    match meta {
        Some(meta) => {
            let price = match meta.regular_market_price {
                Some(price) => price,
                None => 0,
            };
            let prior_close = match meta.chart_previous_close {
                Some(close) => close,
                None => price,
            };
            Ok(Quote { price, change_percent: percent_change_of(price, prior_close) })
        },
        None => Err(FetchError::MalformedQuote),
    }
}

/// What `chrono::DateTime::from_timestamp` makes of `seconds` after the epoch
/// and no nanoseconds, read back as seconds after the epoch; `None` where the
/// calendar does not reach that far.
pub uninterp spec fn utc_instant(seconds: i64) -> Option<i64>;

/// Calls `chrono::DateTime::from_timestamp(seconds, 0)` and reads the instant
/// back with `DateTime::timestamp`. Trusted: the result is named, and an
/// instant that is made reads back as the seconds it was made from.
#[verifier::external_body]
fn utc_from_seconds(seconds: i64) -> (instant: Option<i64>)
    ensures
        instant == utc_instant(seconds),
        instant matches Some(read_back) ==> read_back == seconds,
{
    match chrono::DateTime::from_timestamp(seconds, 0) {
        Some(at) => Some(at.timestamp()),
        None => None,
    }
}

/// `instant` where there is one, `fallback` otherwise.
pub open spec fn instant_or(instant: Option<i64>, fallback: i64) -> i64 {
    match instant {
        Some(at) => at,
        None => fallback,
    }
}

/// Settles the time of a sample: the instant that was made of its timestamp,
/// or `fallback` where none could be made.
pub fn settle_instant(instant: Option<i64>, fallback: i64) -> (at: i64)
    ensures
        at == instant_or(instant, fallback),
{
    match instant {
        Some(at) => at,
        None => fallback,
    }
}

/// The time of a sample stamped `seconds`: `seconds` itself where the calendar
/// reaches it, `now` otherwise.
pub fn sample_time(seconds: i64, now: i64) -> (at: i64)
    ensures
        at == instant_or(utc_instant(seconds), now),
        at == seconds || at == now,
{
    settle_instant(utc_from_seconds(seconds), now)
}

/// The closing price that stands at `index`, if there is one.
pub open spec fn close_at(closes: Seq<Option<i64>>, index: int) -> Option<i64> {
    if 0 <= index < closes.len() {
        closes[index]
    } else {
        None
    }
}

/// The samples of a chart: for each position that holds both a timestamp and a
/// closing price, in order, that price at that time. Positions that lack
/// either are passed over.
pub open spec fn paired(timestamps: Seq<Option<i64>>, closes: Seq<Option<i64>>, now: i64) -> Seq<
    PricePoint,
>
    decreases timestamps.len(),
{
    if timestamps.len() == 0 {
        Seq::empty()
    } else {
        let earlier = paired(timestamps.drop_last(), closes, now);
        match (timestamps.last(), close_at(closes, timestamps.len() - 1)) {
            (Some(seconds), Some(price)) => earlier.push(
                PricePoint { price, timestamp: instant_or(utc_instant(seconds), now) },
            ),
            _ => earlier,
        }
    }
}

/// Computes [`paired`].
pub fn pair_samples(timestamps: &Vec<Option<i64>>, closes: &Vec<Option<i64>>, now: i64) -> (series:
    Vec<PricePoint>)
    ensures
        series@ == paired(timestamps@, closes@, now),
        series@.len() <= timestamps@.len(),
{
    let mut series: Vec<PricePoint> = Vec::new();
    let mut i: usize = 0;
    while i < timestamps.len()
        invariant
            i <= timestamps.len(),
            series@ == paired(timestamps@.take(i as int), closes@, now),
            series@.len() <= i,
        decreases timestamps.len() - i,
    {
        assert(timestamps@.take(i + 1).drop_last() =~= timestamps@.take(i as int));
        if i < closes.len() {
            match (timestamps[i], closes[i]) {
                (Some(seconds), Some(price)) => {
                    series.push(PricePoint { price, timestamp: sample_time(seconds, now) });
                },
                _ => {},
            }
        }
        i += 1;
    }
    assert(timestamps@.take(timestamps.len() as int) =~= timestamps@);
    series
}

/// Calls `chrono::Utc::now()` and reads the instant back with
/// `DateTime::timestamp`. Trusted, and nothing is claimed: the result is the
/// clock's.
#[verifier::external_body]
fn utc_now() -> (now: i64) {
    chrono::Utc::now().timestamp()
}

/// What [`series_from_payload`] returns.
pub open spec fn series_of(payload: Option<HistoryPayload>, now: i64) -> Result<
    Seq<PricePoint>,
    FetchError,
> {
    match payload {
        None => Err(FetchError::MalformedHistory),
        Some(payload) => match (payload.timestamps, payload.quote_present, payload.closes) {
            (None, _, _) => Err(FetchError::NoTimestamps),
            (Some(_), false, _) => Err(FetchError::NoQuotes),
            (Some(_), true, None) => Err(FetchError::NoClosePrices),
            (Some(timestamps), true, Some(closes)) => Ok(paired(timestamps@, closes@, now)),
        },
    }
}

/// Whether `outcome` is `expected`, a series taken by its view.
pub open spec fn reads_as(
    outcome: Result<Vec<PricePoint>, FetchError>,
    expected: Result<Seq<PricePoint>, FetchError>,
) -> bool {
    match outcome {
        Ok(series) => expected == Ok::<Seq<PricePoint>, FetchError>(series@),
        Err(error) => expected == Err::<Seq<PricePoint>, FetchError>(error),
    }
}

/// Reads a look-back series out of a chart result, `None` standing for a reply
/// without any. The first part that is missing decides the error: timestamps,
/// then quote indicators, then closing prices.
pub fn series_from_payload(payload: Option<HistoryPayload>, now: i64) -> (outcome: Result<
    Vec<PricePoint>,
    FetchError,
>)
    ensures
        reads_as(outcome, series_of(payload, now)),
{
    match payload {
        None => Err(FetchError::MalformedHistory),
        Some(payload) => {
            let timestamps = match payload.timestamps {
                Some(timestamps) => timestamps,
                None => {
                    return Err(FetchError::NoTimestamps);
                },
            };
            if !payload.quote_present {
                return Err(FetchError::NoQuotes);
            }
            let closes = match payload.closes {
                Some(closes) => closes,
                None => {
                    return Err(FetchError::NoClosePrices);
                },
            };
            Ok(pair_samples(&timestamps, &closes, now))
        },
    }
}

/// Reads a look-back series out of a chart result as [`series_from_payload`]
/// does, with the time at which it is called for `now`.
pub fn read_series(payload: Option<HistoryPayload>) -> (outcome: Result<
    Vec<PricePoint>,
    FetchError,
>)
    ensures
        exists|now: i64| reads_as(outcome, #[trigger] series_of(payload, now)),
{
    let now = utc_now();
    series_from_payload(payload, now)
}

} // verus!
