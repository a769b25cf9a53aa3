use oracle_node::spot_entry::SpotEntry;
use oracle_node::store::PriceStore;

fn entry(pair: &str, timestamp: u64, price: &str) -> SpotEntry {
    SpotEntry {
        timestamp: timestamp.to_string(),
        source: "binance".to_owned(),
        publisher: "pub1".to_owned(),
        price: price.to_owned(),
        pair_id: pair.to_owned(),
        volume: "1".to_owned(),
        block_number: 1,
    }
}

#[test]
fn twap_over_trailing_window() {
    let now: u64 = 1_700_000_000;
    let mut store = PriceStore::new();
    store.store(entry("BTC/USD", now - 10, "100")).unwrap();
    store.store(entry("BTC/USD", now - 5, "200")).unwrap();
    store.store(entry("BTC/USD", now + 100, "9999")).unwrap();
    let twap = store.compute_twap("BTC/USD", 20, now).expect("two records in window");
    assert_eq!(twap.count, 2);
    assert_eq!(twap.sum, 300);
    assert_eq!(twap.mean_floor(), 150);
    let mean = twap.sum as f64 / twap.count as f64;
    assert_eq!(mean, 150.0);
}

#[test]
fn twap_with_no_records_is_none() {
    let store = PriceStore::new();
    assert!(store.compute_twap("BTC/USD", 3600, 1_700_000_000).is_none());
}

#[test]
fn twap_window_bounds_are_inclusive() {
    let now: u64 = 1_000_000;
    let mut store = PriceStore::new();
    store.store(entry("P", now - 20, "7")).unwrap();
    store.store(entry("P", now, "9")).unwrap();
    let twap = store.compute_twap("P", 20, now).unwrap();
    assert_eq!(twap.count, 2);
    assert_eq!(twap.sum, 16);
}

#[test]
fn records_just_outside_the_window_do_not_count() {
    let now: u64 = 1_000_000;
    let mut store = PriceStore::new();
    store.store(entry("P", now - 21, "1000")).unwrap();
    store.store(entry("P", now + 1, "1000")).unwrap();
    store.store(entry("P", now - 20, "8")).unwrap();
    let twap = store.compute_twap("P", 20, now).unwrap();
    assert_eq!(twap.count, 1);
    assert_eq!(twap.sum, 8);
}

#[test]
fn storing_the_same_record_twice_keeps_both() {
    let mut store = PriceStore::new();
    store.store(entry("BTC/USD", 50, "3")).unwrap();
    store.store(entry("BTC/USD", 50, "3")).unwrap();
    let records = store.query("BTC/USD", None, None);
    assert_eq!(records.len(), 2);
    assert_eq!(records[0], records[1]);
}

#[test]
fn query_returns_records_in_timestamp_order() {
    let mut store = PriceStore::new();
    store.store(entry("P", 30, "c")).unwrap();
    store.store(entry("P", 10, "a")).unwrap();
    store.store(entry("P", 20, "b")).unwrap();
    let all = store.query("P", None, None);
    let stamps: Vec<&str> = all.iter().map(|e| e.timestamp.as_str()).collect();
    assert_eq!(stamps, vec!["10", "20", "30"]);
    let ranged = store.query("P", Some(10), Some(20));
    assert_eq!(ranged.len(), 2);
    assert_eq!(ranged[0].timestamp, "10");
    assert_eq!(ranged[1].timestamp, "20");
}

#[test]
fn pairs_are_kept_apart() {
    let mut store = PriceStore::new();
    store.store(entry("A", 1, "10")).unwrap();
    store.store(entry("B", 1, "20")).unwrap();
    let twap_a = store.compute_twap("A", 10, 5).unwrap();
    assert_eq!(twap_a.sum, 10);
    let twap_b = store.compute_twap("B", 10, 5).unwrap();
    assert_eq!(twap_b.sum, 20);
    assert!(store.query("C", None, None).is_empty());
}

#[test]
fn unparseable_timestamp_is_a_store_error() {
    let mut store = PriceStore::new();
    let bad = entry("P", 1, "10");
    let bad = SpotEntry { timestamp: "not-a-number".to_owned(), ..bad };
    assert!(store.store(bad).is_err());
    assert!(store.query("P", None, None).is_empty());
}

#[test]
fn unparseable_price_contributes_zero() {
    let now: u64 = 100;
    let mut store = PriceStore::new();
    store.store(entry("P", now, "abc")).unwrap();
    store.store(entry("P", now, "30")).unwrap();
    let twap = store.compute_twap("P", 50, now).unwrap();
    assert_eq!(twap.count, 2);
    assert_eq!(twap.sum, 30);
    assert_eq!(twap.mean_floor(), 15);
}
