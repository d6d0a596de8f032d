use stock_tracker::feed::{FetchError, Quote};
use stock_tracker::schedule::{
    apply_history_outcome, apply_history_pass, apply_quote_outcome, apply_quote_pass, Action,
    BootstrapStep, Cadence, HistoryOutcome, Phase, QuoteOutcome, Scheduler, BOOTSTRAP_DELAY_SECS,
    HISTORY_INTERVAL_SECS, QUOTE_INTERVAL_SECS,
};
use stock_tracker::state::PricePoint;
use stock_tracker::store::SnapshotStore;

fn universe() -> Vec<String> {
    vec!["AAPL".to_string(), "MSFT".to_string()]
}

fn quoted(symbol: &str, price: i64, change_percent: i64) -> QuoteOutcome {
    QuoteOutcome { symbol: symbol.to_string(), outcome: Ok(Quote { price, change_percent }) }
}

fn failed(symbol: &str, error: FetchError) -> QuoteOutcome {
    QuoteOutcome { symbol: symbol.to_string(), outcome: Err(error) }
}

fn point(price: i64, timestamp: i64) -> PricePoint {
    PricePoint { price, timestamp }
}

#[test]
fn bootstrap_fills_the_first_sample() {
    let mut store = SnapshotStore::initialize(&universe(), 1_000);
    let mut step = BootstrapStep::first();
    assert_eq!(step.action(), Action::FetchAll(Cadence::Quote));
    let fetched = vec![quoted("AAPL", 1_500_000, 15_000), quoted("MSFT", 3_100_000, -5_000)];
    step = step.next();
    assert_eq!(step.action(), Action::ApplyAll(Cadence::Quote));
    for outcome in &fetched {
        apply_quote_outcome(&mut store, &outcome.symbol, &outcome.outcome, 1_001);
    }
    let snapshot = store.snapshot();
    let aapl = snapshot.get("AAPL").unwrap();
    assert_eq!(aapl.current_price(), 1_500_000);
    assert_eq!(aapl.change_percent(), 15_000);
    assert_eq!(aapl.recent_prices(), &vec![1_500_000]);
    assert_eq!(aapl.recent_timestamps(), &vec![1_001]);
    assert_eq!(aapl.recent_min(), 1_500_000);
    assert_eq!(aapl.recent_max(), 1_500_000);
    let msft = snapshot.get("MSFT").unwrap();
    assert_eq!(msft.current_price(), 3_100_000);
    assert_eq!(msft.change_percent(), -5_000);
    assert_eq!(msft.recent_prices(), &vec![3_100_000]);
    assert_eq!(snapshot.last_update_time(), 1_000);
}

#[test]
fn failed_fetch_skips_only_its_symbol() {
    let mut store = SnapshotStore::initialize(&universe(), 0);
    apply_quote_pass(
        &mut store,
        &vec![quoted("AAPL", 1_500_000, 15_000), quoted("MSFT", 3_100_000, -5_000)],
        60,
    );
    let before = store.snapshot();
    let taken = apply_quote_pass(
        &mut store,
        &vec![quoted("AAPL", 1_510_000, 21_000), failed("MSFT", FetchError::Transport)],
        120,
    );
    assert_eq!(taken, 1);
    let aapl = store.get("AAPL").unwrap();
    assert_eq!(aapl.recent_prices().len(), before.get("AAPL").unwrap().recent_prices().len() + 1);
    assert_eq!(aapl.recent_prices(), &vec![1_500_000, 1_510_000]);
    assert_eq!(aapl.recent_timestamps(), &vec![60, 120]);
    let msft = store.get("MSFT").unwrap();
    assert_eq!(msft.recent_prices(), before.get("MSFT").unwrap().recent_prices());
    assert_eq!(msft.recent_timestamps(), &vec![60]);
    assert_eq!(msft.current_price(), 3_100_000);
    assert_eq!(msft.change_percent(), -5_000);
    assert_eq!(store.last_update_time(), 120);
}

#[test]
fn every_failure_leaves_the_state() {
    let errors = [
        FetchError::Transport,
        FetchError::MalformedQuote,
        FetchError::MalformedHistory,
        FetchError::NoTimestamps,
        FetchError::NoQuotes,
        FetchError::NoClosePrices,
    ];
    let mut store = SnapshotStore::initialize(&universe(), 0);
    store.apply_quote("AAPL", 10, 1, 2);
    store.apply_history("AAPL", vec![point(5, 1)]);
    for error in errors {
        assert!(!apply_quote_outcome(&mut store, "AAPL", &Err(error), 50));
        assert!(!apply_history_outcome(&mut store, "AAPL", &Err(error)));
    }
    let aapl = store.get("AAPL").unwrap();
    assert_eq!(aapl.recent_prices(), &vec![10]);
    assert_eq!(aapl.history_window(), &vec![point(5, 1)]);
    assert_eq!(aapl.change_percent_24h(), 1_000_000);
}

#[test]
fn quote_pass_of_nothing_only_records_the_time() {
    let mut store = SnapshotStore::initialize(&universe(), 0);
    assert_eq!(apply_quote_pass(&mut store, &Vec::new(), 33), 0);
    assert_eq!(store.last_update_time(), 33);
    assert!(store.get("AAPL").unwrap().recent_prices().is_empty());
}

#[test]
fn quote_pass_applies_in_order() {
    let mut store = SnapshotStore::initialize(&universe(), 0);
    let taken = apply_quote_pass(
        &mut store,
        &vec![
            quoted("AAPL", 1, 0),
            quoted("TSLA", 9, 0),
            failed("MSFT", FetchError::MalformedQuote),
            quoted("AAPL", 2, 0),
        ],
        5,
    );
    assert_eq!(taken, 2);
    assert_eq!(store.get("AAPL").unwrap().recent_prices(), &vec![1, 2]);
    assert_eq!(store.get("AAPL").unwrap().current_price(), 2);
    assert_eq!(store.len(), 2);
}

#[test]
fn history_pass_replaces_where_it_fetched() {
    let mut store = SnapshotStore::initialize(&universe(), 9);
    store.apply_quote("AAPL", 110, 0, 1);
    store.apply_history("MSFT", vec![point(1, 1)]);
    let outcomes = vec![
        HistoryOutcome { symbol: "AAPL".to_string(), outcome: Ok(vec![point(100, 1), point(120, 2)]) },
        HistoryOutcome { symbol: "MSFT".to_string(), outcome: Err(FetchError::NoTimestamps) },
    ];
    assert_eq!(apply_history_pass(&mut store, &outcomes), 1);
    let aapl = store.get("AAPL").unwrap();
    assert_eq!(aapl.history_window(), &vec![point(100, 1), point(120, 2)]);
    assert_eq!(aapl.history_min(), 100);
    assert_eq!(aapl.history_max(), 120);
    assert_eq!(aapl.change_percent_24h(), 100_000);
    assert_eq!(store.get("MSFT").unwrap().history_window(), &vec![point(1, 1)]);
    assert_eq!(store.last_update_time(), 9);
}

#[test]
fn history_outcome_is_applied() {
    let mut store = SnapshotStore::initialize(&universe(), 0);
    assert!(apply_history_outcome(&mut store, "MSFT", &Ok(vec![point(8, 3)])));
    assert!(!apply_history_outcome(&mut store, "TSLA", &Ok(vec![point(8, 3)])));
    assert!(apply_quote_outcome(&mut store, "MSFT", &Ok(Quote { price: 4, change_percent: 0 }), 1));
    assert!(!apply_quote_outcome(&mut store, "TSLA", &Ok(Quote { price: 4, change_percent: 0 }), 1));
    assert_eq!(store.get("MSFT").unwrap().history_window(), &vec![point(8, 3)]);
    assert_eq!(store.get("MSFT").unwrap().current_price(), 4);
}

#[test]
fn quote_loop_sleeps_first() {
    let mut scheduler = Scheduler::quote_loop();
    assert_eq!(scheduler.cadence, Cadence::Quote);
    assert_eq!(scheduler.phase, Phase::Sleeping);
    assert_eq!(scheduler.period(), 60);
    assert_eq!(scheduler.action(), Action::Sleep(QUOTE_INTERVAL_SECS));
    assert_eq!(scheduler.advance(), Action::FetchAll(Cadence::Quote));
    assert_eq!(scheduler.phase, Phase::FetchingAll);
    assert_eq!(scheduler.advance(), Action::ApplyAll(Cadence::Quote));
    assert_eq!(scheduler.phase, Phase::Applying);
    assert_eq!(scheduler.advance(), Action::Sleep(60));
    assert_eq!(scheduler.phase, Phase::Sleeping);
    assert_eq!(scheduler.cadence, Cadence::Quote);
}

#[test]
fn history_loop_fetches_first() {
    let mut scheduler = Scheduler::history_loop();
    assert_eq!(scheduler.period(), 300);
    assert_eq!(scheduler.action(), Action::FetchAll(Cadence::History));
    assert_eq!(scheduler.advance(), Action::ApplyAll(Cadence::History));
    assert_eq!(scheduler.advance(), Action::Sleep(HISTORY_INTERVAL_SECS));
    assert_eq!(scheduler.advance(), Action::FetchAll(Cadence::History));
}

#[test]
fn loops_never_finish() {
    let mut scheduler = Scheduler::quote_loop();
    for _ in 0..1_000 {
        assert_ne!(scheduler.advance(), Action::Finish);
    }
}

#[test]
fn cancelled_loop_finishes_and_stays_so() {
    for phases in 0..3 {
        let mut scheduler = Scheduler::history_loop();
        for _ in 0..phases {
            scheduler.advance();
        }
        scheduler.cancel();
        assert_eq!(scheduler.phase, Phase::Stopped);
        assert_eq!(scheduler.cadence, Cadence::History);
        assert_eq!(scheduler.action(), Action::Finish);
        assert_eq!(scheduler.advance(), Action::Finish);
        assert_eq!(scheduler.phase, Phase::Stopped);
    }
}

#[test]
fn bootstrap_runs_once() {
    let mut step = BootstrapStep::first();
    let mut actions = Vec::new();
    for _ in 0..8 {
        actions.push(step.action());
        step = step.next();
    }
    assert_eq!(
        actions,
        vec![
            Action::FetchAll(Cadence::Quote),
            Action::ApplyAll(Cadence::Quote),
            Action::Sleep(BOOTSTRAP_DELAY_SECS),
            Action::FetchAll(Cadence::History),
            Action::ApplyAll(Cadence::History),
            Action::Finish,
            Action::Finish,
            Action::Finish,
        ]
    );
    assert_eq!(BOOTSTRAP_DELAY_SECS, 3);
    assert_eq!(step, BootstrapStep::Done);
}
