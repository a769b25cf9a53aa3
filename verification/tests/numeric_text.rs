use oracle_node::numeric::{i64_to_dec_bytes, parse_i64, parse_u64, u64_to_dec_string};

#[test]
fn unsigned_parsing_matches_std() {
    let cases = [
        "0", "1", "150", "007", "+42", "18446744073709551615", "18446744073709551616", "", "+",
        "-1", "1.5", " 1", "1 ", "abc", "0x10",
    ];
    for text in cases {
        assert_eq!(parse_u64(text), text.parse::<u64>().ok(), "case {text:?}");
    }
}

#[test]
fn signed_parsing_matches_std() {
    let cases = [
        "0",
        "-0",
        "150",
        "-150",
        "+7",
        "9223372036854775807",
        "9223372036854775808",
        "-9223372036854775808",
        "-9223372036854775809",
        "150.7",
        "--1",
        "",
        "-",
    ];
    for text in cases {
        assert_eq!(parse_i64(text), text.parse::<i64>().ok(), "case {text:?}");
    }
}

#[test]
fn decimal_text_is_canonical() {
    assert_eq!(u64_to_dec_string(0), "0");
    assert_eq!(u64_to_dec_string(7), "7");
    assert_eq!(u64_to_dec_string(1_234_567_890), "1234567890");
    assert_eq!(u64_to_dec_string(u64::MAX), "18446744073709551615");
}

#[test]
fn signed_decimal_bytes_carry_the_sign() {
    assert_eq!(i64_to_dec_bytes(150), b"150".to_vec());
    assert_eq!(i64_to_dec_bytes(-150), b"-150".to_vec());
    assert_eq!(i64_to_dec_bytes(0), b"0".to_vec());
    assert_eq!(
        i64_to_dec_bytes(i64::MIN),
        b"-9223372036854775808".to_vec()
    );
}

#[test]
fn parsing_inverts_printing() {
    for value in [0u64, 9, 10, 1_700_000_000, u64::MAX] {
        assert_eq!(parse_u64(&u64_to_dec_string(value)), Some(value));
    }
}
