use oracle_node::spot_entry::{RawEvent, SpotEntry};

/// A 32-byte big-endian field value holding the given tail bytes.
fn field(tail: &[u8]) -> Vec<u8> {
    assert!(tail.len() <= 32);
    let mut bytes = vec![0u8; 32 - tail.len()];
    bytes.extend_from_slice(tail);
    bytes
}

fn field_u64(value: u64) -> Vec<u8> {
    field(&value.to_be_bytes())
}

fn field_text(text: &str) -> Vec<u8> {
    field(text.as_bytes())
}

fn sender() -> Option<Vec<u8>> {
    Some(vec![1u8; 32])
}

#[test]
fn short_events_decode_to_nothing() {
    for len in 0..6usize {
        let mut data = Vec::new();
        for k in 0..len {
            data.push(field_u64(0x1234_5678_9abc_def0 ^ (k as u64 * 0x0f0f_0f0f)));
        }
        let event = RawEvent { from_address: sender(), data };
        assert!(SpotEntry::from_event(&event, 7).is_none());
    }
}

#[test]
fn six_field_event_decodes() {
    let event = RawEvent {
        from_address: sender(),
        data: vec![
            field_u64(1_700_000_000),
            field_text("binance"),
            field_text("pub1"),
            field_u64(5_000_000_000_000),
            field_text("BTC/USD"),
            field_u64(1000),
        ],
    };
    let entry = SpotEntry::from_event(&event, 42).expect("six fields decode");
    assert_eq!(entry.timestamp, "1700000000");
    assert_eq!(entry.source, "binance");
    assert_eq!(entry.publisher, "pub1");
    assert_eq!(entry.price, "5000000000000");
    assert_eq!(entry.pair_id, "BTC/USD");
    assert_eq!(entry.volume, "1000");
    assert_eq!(entry.block_number, 42);
}

#[test]
fn sender_less_events_decode_to_nothing() {
    let event = RawEvent {
        from_address: None,
        data: vec![
            field_u64(1_700_000_000),
            field_text("binance"),
            field_text("pub1"),
            field_u64(5_000_000_000_000),
            field_text("BTC/USD"),
            field_u64(1000),
        ],
    };
    assert!(SpotEntry::from_event(&event, 42).is_none());
}

#[test]
fn decoding_is_deterministic() {
    let make = || RawEvent {
        from_address: sender(),
        data: vec![
            field_u64(1_700_000_000),
            field_text("okx"),
            field_text("p"),
            field_u64(123_456_789),
            field_text("ETH/USD"),
            field_u64(5),
        ],
    };
    let first = SpotEntry::from_event(&make(), 9).unwrap();
    let second = SpotEntry::from_event(&make(), 9).unwrap();
    assert_eq!(first, second);
}

#[test]
fn non_ascii_bytes_are_dropped_from_identifiers() {
    let event = RawEvent {
        from_address: sender(),
        data: vec![
            field_u64(1),
            field(&[0xffu8, b'a', 0x80, b'b']),
            field_text("x"),
            field_u64(2),
            field(&[0xC3u8, 0xA9, b'A', b'/', b'B']),
            field_u64(3),
        ],
    };
    let entry = SpotEntry::from_event(&event, 0).unwrap();
    assert_eq!(entry.source, "ab");
    assert_eq!(entry.pair_id, "A/B");
}

#[test]
fn zero_valued_text_field_is_empty() {
    // A zero field element's shortest byte form is one zero byte, which
    // is the ASCII NUL character after filtering.
    let event = RawEvent {
        from_address: sender(),
        data: vec![
            field_u64(0),
            field_u64(0),
            field_text("p"),
            field_u64(0),
            field_text("A"),
            field_u64(0),
        ],
    };
    let entry = SpotEntry::from_event(&event, 1).unwrap();
    assert_eq!(entry.timestamp, "0");
    assert_eq!(entry.price, "0");
    assert_eq!(entry.volume, "0");
    assert_eq!(entry.source, "\u{0}");
}

#[test]
fn redis_key_prefixes_the_pair() {
    let entry = SpotEntry {
        timestamp: "1".to_owned(),
        source: "s".to_owned(),
        publisher: "p".to_owned(),
        price: "2".to_owned(),
        pair_id: "BTC/USD".to_owned(),
        volume: "3".to_owned(),
        block_number: 0,
    };
    assert_eq!(entry.redis_key(), "spot:BTC/USD");
}
