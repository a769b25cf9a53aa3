use oracle_node::api::{answer_twap_query, health_response, TwapQuery, TwapQueryError};
use oracle_node::indexer::{event_filter, handle_event, submitted_spot_entry_selector};
use oracle_node::p2p::handle_twap_message;
use oracle_node::signing::SigningService;
use oracle_node::spot_entry::{RawEvent, SpotEntry};
use oracle_node::store::PriceStore;

const KEY_ONE: &str = "0000000000000000000000000000000000000000000000000000000000000001";

fn entry(pair: &str, timestamp: u64, price: &str) -> SpotEntry {
    SpotEntry {
        timestamp: timestamp.to_string(),
        source: "binance".to_owned(),
        publisher: "pub1".to_owned(),
        price: price.to_owned(),
        pair_id: pair.to_owned(),
        volume: "1".to_owned(),
        block_number: 1,
    }
}

#[test]
fn answered_query_carries_a_verifiable_attestation() {
    let now: u64 = 1_700_000_000;
    let mut store = PriceStore::new();
    store.store(entry("BTC/USD", now - 10, "100")).unwrap();
    store.store(entry("BTC/USD", now - 5, "201")).unwrap();
    let signer = SigningService::new(KEY_ONE).unwrap();
    let query = TwapQuery { pair_id: "BTC/USD".to_owned(), period: Some(20) };
    let (response, message) = answer_twap_query(&store, &signer, &query, now).unwrap();
    assert_eq!(response.pair_id, "BTC/USD");
    assert_eq!(response.period, 20);
    assert_eq!(response.twap, "150");
    assert_eq!(response.signature, message.signature);
    assert_eq!(message.pair_id, "BTC/USD");
    assert_eq!(message.twap, "150");
    assert_eq!(message.period, 20);
    assert_eq!(message.timestamp, now);
    assert_eq!(message.public_key, signer.get_public_key());
    assert!(handle_twap_message(&message).is_ok());
}

#[test]
fn query_without_period_defaults_to_one_hour() {
    let now: u64 = 1_700_000_000;
    let mut store = PriceStore::new();
    store.store(entry("ETH/USD", now - 3600, "40")).unwrap();
    store.store(entry("ETH/USD", now - 3601, "70000")).unwrap();
    let signer = SigningService::new(KEY_ONE).unwrap();
    let query = TwapQuery { pair_id: "ETH/USD".to_owned(), period: None };
    let (response, _) = answer_twap_query(&store, &signer, &query, now).unwrap();
    assert_eq!(response.period, 3600);
    assert_eq!(response.twap, "40");
}

#[test]
fn empty_window_is_a_not_found_outcome() {
    let store = PriceStore::new();
    let signer = SigningService::new(KEY_ONE).unwrap();
    let query = TwapQuery { pair_id: "BTC/USD".to_owned(), period: Some(60) };
    assert_eq!(
        answer_twap_query(&store, &signer, &query, 1_700_000_000).unwrap_err(),
        TwapQueryError::NoData
    );
}

#[test]
fn not_found_reply_names_the_pair() {
    let reply = oracle_node::api::not_found_response("BTC/USD");
    assert_eq!(reply.error, "No data found for pair BTC/USD");
}

#[test]
fn health_reply_reports_the_probe() {
    let up = health_response(true);
    assert_eq!(up.status, "up");
    assert!(up.redis_connection);
    let down = health_response(false);
    assert_eq!(down.status, "up");
    assert!(!down.redis_connection);
}

fn field(tail: &[u8]) -> Vec<u8> {
    let mut bytes = vec![0u8; 32 - tail.len()];
    bytes.extend_from_slice(tail);
    bytes
}

#[test]
fn indexed_events_land_in_the_store() {
    let mut store = PriceStore::new();
    let event = RawEvent {
        from_address: Some(vec![1u8; 32]),
        data: vec![
            field(&1_700_000_000u64.to_be_bytes()),
            field(b"binance"),
            field(b"pub1"),
            field(&100u64.to_be_bytes()),
            field(b"BTC/USD"),
            field(&1u64.to_be_bytes()),
        ],
    };
    handle_event(&mut store, &event, 42).unwrap();
    let records = store.query("BTC/USD", None, None);
    assert_eq!(records.len(), 1);
    assert_eq!(records[0].price, "100");
    assert_eq!(records[0].block_number, 42);
}

#[test]
fn events_without_a_sender_are_skipped() {
    let mut store = PriceStore::new();
    let event = RawEvent {
        from_address: None,
        data: vec![field(&1u64.to_be_bytes()); 6],
    };
    handle_event(&mut store, &event, 1).unwrap();
    assert!(store.query("", None, None).is_empty());
}

#[test]
fn short_events_are_skipped_not_fatal() {
    let mut store = PriceStore::new();
    let event = RawEvent {
        from_address: Some(vec![1u8; 32]),
        data: vec![field(&1u64.to_be_bytes()); 5],
    };
    assert!(handle_event(&mut store, &event, 1).is_ok());
}

#[test]
fn the_stream_filter_names_contract_selector_block_and_finality() {
    let filter = event_filter("0xabc", 123_456);
    assert_eq!(filter.contract_address, "0xabc");
    assert_eq!(filter.selector, submitted_spot_entry_selector());
    assert_eq!(
        filter.selector,
        "0x280bb2099800026f90c334a3a23888ffe718a2920ffbbf4f44c6d3d5efb613c"
    );
    assert_eq!(filter.starting_block, 123_456);
    assert_eq!(filter.finality, oracle_node::indexer::Finality::Pending);
}
