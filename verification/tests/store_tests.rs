use stock_tracker::extrema::{NO_MAXIMUM, NO_MINIMUM};
use stock_tracker::state::{PricePoint, SymbolState, WINDOW};
use stock_tracker::store::SnapshotStore;

fn universe() -> Vec<String> {
    vec!["AAPL".to_string(), "MSFT".to_string()]
}

fn point(price: i64, timestamp: i64) -> PricePoint {
    PricePoint { price, timestamp }
}

#[test]
fn fresh_state_holds_sentinels() {
    let state = SymbolState::new("AAPL".to_string());
    assert_eq!(state.symbol(), "AAPL");
    assert!(state.recent_prices().is_empty());
    assert!(state.recent_timestamps().is_empty());
    assert!(state.history_window().is_empty());
    assert_eq!(state.current_price(), 0);
    assert_eq!(state.change_percent(), 0);
    assert_eq!(state.change_percent_24h(), 0);
    assert_eq!(state.recent_min(), i64::MAX);
    assert_eq!(state.recent_max(), i64::MIN);
    assert_eq!(state.history_min(), NO_MINIMUM);
    assert_eq!(state.history_max(), NO_MAXIMUM);
}

#[test]
fn quote_sets_current_fields_and_extrema() {
    let mut state = SymbolState::new("AAPL".to_string());
    state.apply_quote(1_500_000, 15_000, 1_700_000_000);
    assert_eq!(state.recent_prices(), &vec![1_500_000]);
    assert_eq!(state.recent_timestamps(), &vec![1_700_000_000]);
    assert_eq!(state.current_price(), 1_500_000);
    assert_eq!(state.change_percent(), 15_000);
    assert_eq!(state.recent_min(), 1_500_000);
    assert_eq!(state.recent_max(), 1_500_000);
    assert_eq!(state.change_percent_24h(), 0);
    state.apply_quote(1_400_000, -5_000, 1_700_000_060);
    assert_eq!(state.recent_prices(), &vec![1_500_000, 1_400_000]);
    assert_eq!(state.recent_timestamps(), &vec![1_700_000_000, 1_700_000_060]);
    assert_eq!(state.current_price(), 1_400_000);
    assert_eq!(state.change_percent(), -5_000);
    assert_eq!(state.recent_min(), 1_400_000);
    assert_eq!(state.recent_max(), 1_500_000);
}

#[test]
fn window_never_exceeds_its_bound_and_stays_paired() {
    let mut state = SymbolState::new("SPY".to_string());
    for i in 0..200i64 {
        state.apply_quote(1_000 + (i * 37) % 101, 0, 10 * i);
        assert!(state.recent_prices().len() <= WINDOW);
        assert!(state.recent_prices().len() <= 60);
        assert_eq!(state.recent_prices().len(), state.recent_timestamps().len());
        let least = *state.recent_prices().iter().min().unwrap();
        let greatest = *state.recent_prices().iter().max().unwrap();
        assert_eq!(state.recent_min(), least);
        assert_eq!(state.recent_max(), greatest);
    }
    assert_eq!(state.recent_prices().len(), 60);
}

#[test]
fn extrema_forget_an_evicted_extreme() {
    let mut state = SymbolState::new("SPY".to_string());
    state.apply_quote(5, 0, 0);
    for i in 1..60i64 {
        state.apply_quote(100 + i, 0, i);
    }
    assert_eq!(state.recent_min(), 5);
    assert_eq!(state.recent_max(), 159);
    state.apply_quote(120, 0, 60);
    assert_eq!(state.recent_min(), 101);
    assert_eq!(state.recent_max(), 159);
}

#[test]
fn sixty_one_quotes_evict_exactly_the_oldest() {
    let mut state = SymbolState::new("QQQ".to_string());
    let prices: Vec<i64> = (1..=61).map(|i| 1_000 * i).collect();
    let times: Vec<i64> = (1..=61).map(|i| 60 * i).collect();
    for i in 0..61 {
        state.apply_quote(prices[i], 0, times[i]);
    }
    assert_eq!(state.recent_prices(), &prices[1..].to_vec());
    assert_eq!(state.recent_timestamps(), &times[1..].to_vec());
    assert_eq!(state.recent_prices()[0], 2_000);
    assert_eq!(state.recent_prices()[59], 61_000);
}

#[test]
fn sixty_quotes_evict_nothing() {
    let mut state = SymbolState::new("QQQ".to_string());
    let prices: Vec<i64> = (1..=60).collect();
    for price in &prices {
        state.apply_quote(*price, 0, 0);
    }
    assert_eq!(state.recent_prices(), &prices);
}

#[test]
fn history_is_replaced_not_merged() {
    let mut store = SnapshotStore::initialize(&universe(), 0);
    let first = vec![point(10, 1), point(20, 2), point(30, 3)];
    store.apply_history("AAPL", first.clone());
    assert_eq!(store.snapshot().get("AAPL").unwrap().history_window(), &first);
    let second = vec![point(7, 9)];
    store.apply_history("AAPL", second.clone());
    let snapshot = store.snapshot();
    let state = snapshot.get("AAPL").unwrap();
    assert_eq!(state.history_window(), &second);
    assert_eq!(state.history_min(), 7);
    assert_eq!(state.history_max(), 7);
    assert!(snapshot.get("MSFT").unwrap().history_window().is_empty());
}

#[test]
fn history_extrema_are_those_of_the_series() {
    let mut state = SymbolState::new("DIA".to_string());
    state.apply_history(vec![point(30, 1), point(-4, 2), point(55, 3), point(12, 4)]);
    assert_eq!(state.history_min(), -4);
    assert_eq!(state.history_max(), 55);
    state.apply_history(Vec::new());
    assert_eq!(state.history_min(), NO_MINIMUM);
    assert_eq!(state.history_max(), NO_MAXIMUM);
}

#[test]
fn empty_history_leaves_the_24h_change() {
    let mut state = SymbolState::new("AAPL".to_string());
    state.apply_quote(100, 10_000, 5);
    let before = state.change_percent_24h();
    state.apply_history(Vec::new());
    assert_eq!(state.change_percent_24h(), before);
    assert_eq!(state.change_percent_24h(), 0);

    state.apply_history(vec![point(80, 1)]);
    assert_eq!(state.change_percent_24h(), 250_000);
    state.apply_history(Vec::new());
    assert_eq!(state.change_percent_24h(), 250_000);
    state.apply_quote(120, 0, 6);
    assert_eq!(state.change_percent_24h(), 250_000);
}

#[test]
fn non_positive_reference_leaves_the_24h_change() {
    let mut state = SymbolState::new("AAPL".to_string());
    state.apply_quote(100, 0, 5);
    state.apply_history(vec![point(50, 1), point(60, 2)]);
    assert_eq!(state.change_percent_24h(), 1_000_000);
    state.apply_history(vec![point(0, 1), point(60, 2)]);
    assert_eq!(state.change_percent_24h(), 1_000_000);
    state.apply_history(vec![point(-5, 1), point(60, 2)]);
    assert_eq!(state.change_percent_24h(), 1_000_000);
    state.apply_quote(200, 0, 6);
    assert_eq!(state.change_percent_24h(), 1_000_000);
    assert_eq!(state.history_min(), -5);
}

#[test]
fn change_24h_follows_both_updates() {
    let mut state = SymbolState::new("AAPL".to_string());
    state.apply_history(vec![point(200, 1), point(999, 2)]);
    assert_eq!(state.change_percent_24h(), -1_000_000);
    state.apply_quote(210, 0, 5);
    assert_eq!(state.change_percent_24h(), 50_000);
    state.apply_quote(190, 0, 6);
    assert_eq!(state.change_percent_24h(), -50_000);
    state.apply_history(vec![point(100, 1)]);
    assert_eq!(state.change_percent_24h(), 900_000);
}

#[test]
fn initialize_tracks_each_symbol_once_in_order() {
    let names = vec![
        "SPY".to_string(),
        "AAPL".to_string(),
        "SPY".to_string(),
        "MSFT".to_string(),
        "AAPL".to_string(),
    ];
    let store = SnapshotStore::initialize(&names, 42);
    assert_eq!(store.len(), 3);
    assert_eq!(store.state_at(0).symbol(), "SPY");
    assert_eq!(store.state_at(1).symbol(), "AAPL");
    assert_eq!(store.state_at(2).symbol(), "MSFT");
    assert_eq!(store.find("MSFT"), Some(2));
    assert_eq!(store.find("TSLA"), None);
    assert_eq!(store.last_update_time(), 42);
    for i in 0..store.len() {
        assert_eq!(store.state_at(i).current_price(), 0);
        assert_eq!(store.state_at(i).recent_min(), NO_MINIMUM);
        assert!(store.state_at(i).recent_prices().is_empty());
    }
    assert_eq!(SnapshotStore::initialize(&Vec::new(), 0).len(), 0);
}

#[test]
fn untracked_symbol_changes_nothing() {
    let mut store = SnapshotStore::initialize(&universe(), 0);
    assert!(store.apply_quote("AAPL", 10, 1, 2));
    assert!(!store.apply_quote("TSLA", 999, 9, 9));
    assert!(!store.apply_history("TSLA", vec![point(1, 1)]));
    assert!(store.apply_history("MSFT", Vec::new()));
    assert_eq!(store.len(), 2);
    assert!(store.get("TSLA").is_none());
    assert_eq!(store.get("AAPL").unwrap().recent_prices(), &vec![10]);
    assert!(store.get("AAPL").unwrap().history_window().is_empty());
    assert!(store.get("MSFT").unwrap().recent_prices().is_empty());
}

#[test]
fn update_of_one_symbol_leaves_the_others() {
    let mut store = SnapshotStore::initialize(&universe(), 0);
    store.apply_quote("MSFT", 3_100_000, -5_000, 1);
    store.apply_history("MSFT", vec![point(3_000_000, 0)]);
    let aapl = store.get("AAPL").unwrap();
    assert_eq!(aapl.current_price(), 0);
    assert!(aapl.recent_prices().is_empty());
    assert!(aapl.history_window().is_empty());
    assert_eq!(aapl.recent_max(), NO_MAXIMUM);
    let msft = store.get("MSFT").unwrap();
    assert_eq!(msft.current_price(), 3_100_000);
    assert_eq!(msft.change_percent(), -5_000);
    assert_eq!(msft.change_percent_24h(), 33_333);
}

#[test]
fn updates_of_different_symbols_commute() {
    let mut one = SnapshotStore::initialize(&universe(), 0);
    one.apply_quote("AAPL", 10, 1, 2);
    one.apply_history("MSFT", vec![point(5, 1)]);
    one.apply_quote("MSFT", 20, 2, 3);
    let mut other = SnapshotStore::initialize(&universe(), 0);
    other.apply_history("MSFT", vec![point(5, 1)]);
    other.apply_quote("MSFT", 20, 2, 3);
    other.apply_quote("AAPL", 10, 1, 2);
    for name in ["AAPL", "MSFT"] {
        let a = one.get(name).unwrap();
        let b = other.get(name).unwrap();
        assert_eq!(a.recent_prices(), b.recent_prices());
        assert_eq!(a.recent_timestamps(), b.recent_timestamps());
        assert_eq!(a.history_window(), b.history_window());
        assert_eq!(a.current_price(), b.current_price());
        assert_eq!(a.change_percent(), b.change_percent());
        assert_eq!(a.change_percent_24h(), b.change_percent_24h());
        assert_eq!(a.recent_min(), b.recent_min());
        assert_eq!(a.history_max(), b.history_max());
    }
}

#[test]
fn snapshot_is_independent_of_later_updates() {
    let mut store = SnapshotStore::initialize(&universe(), 7);
    store.apply_quote("AAPL", 10, 1, 2);
    let snapshot = store.snapshot();
    store.apply_quote("AAPL", 20, 2, 3);
    store.record_pass(99);
    assert_eq!(snapshot.get("AAPL").unwrap().recent_prices(), &vec![10]);
    assert_eq!(snapshot.get("AAPL").unwrap().current_price(), 10);
    assert_eq!(snapshot.last_update_time(), 7);
    assert_eq!(store.get("AAPL").unwrap().recent_prices(), &vec![10, 20]);
    assert_eq!(store.last_update_time(), 99);
}

#[test]
fn cloned_state_equals_its_source() {
    let mut state = SymbolState::new("IWM".to_string());
    state.apply_quote(10, 1, 2);
    state.apply_history(vec![point(5, 1)]);
    let copy = state.clone();
    state.apply_quote(11, 1, 3);
    assert_eq!(copy.symbol(), "IWM");
    assert_eq!(copy.recent_prices(), &vec![10]);
    assert_eq!(copy.recent_timestamps(), &vec![2]);
    assert_eq!(copy.history_window(), &vec![point(5, 1)]);
    assert_eq!(copy.change_percent_24h(), 1_000_000);
}
