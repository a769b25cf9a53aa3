use oracle_node::signing::{verify_twap, SigningError, SigningService};

const KEY_ONE: &str = "0000000000000000000000000000000000000000000000000000000000000001";

/// The compressed form of the secp256k1 generator point, the public key
/// of the secret key 1.
const GENERATOR_COMPRESSED: &str =
    "0279be667ef9dcbbac55a06295ce870b07029bfcdb2dce28d959f2815b16f81798";

fn service() -> SigningService {
    SigningService::new(KEY_ONE).expect("valid key")
}

#[test]
fn public_key_is_hex_of_the_derived_point() {
    assert_eq!(service().get_public_key(), GENERATOR_COMPRESSED);
}

#[test]
fn prefixed_key_equals_bare_key() {
    let prefixed = SigningService::new(&format!("0x{KEY_ONE}")).expect("valid key");
    assert_eq!(prefixed.get_public_key(), GENERATOR_COMPRESSED);
}

#[test]
fn sign_then_verify_round_trips() {
    let service = service();
    for value in [0u64, 1, 150, 3_141_592_653, u64::MAX / 3] {
        let signature = service.sign_twap(value);
        assert!(verify_twap(
            &value.to_string(),
            &signature,
            service.get_public_key()
        ));
    }
}

#[test]
fn tampered_signature_fails() {
    let service = service();
    let signature = service.sign_twap(150);
    let pk = service.get_public_key();
    for position in [0, signature.len() / 2, signature.len() - 1] {
        let mut bytes = signature.clone().into_bytes();
        bytes[position] = if bytes[position] == b'0' { b'1' } else { b'0' };
        let tampered = String::from_utf8(bytes).unwrap();
        assert!(!verify_twap("150", &tampered, pk), "tampered at {position}");
    }
}

#[test]
fn tampered_public_key_fails() {
    let service = service();
    let signature = service.sign_twap(150);
    let pk = service.get_public_key();
    for position in [3, pk.len() / 2, pk.len() - 1] {
        let mut bytes = pk.as_bytes().to_vec();
        bytes[position] = if bytes[position] == b'0' { b'1' } else { b'0' };
        let tampered = String::from_utf8(bytes).unwrap();
        assert!(!verify_twap("150", &signature, &tampered), "tampered at {position}");
    }
}

#[test]
fn tampered_value_fails() {
    let service = service();
    let signature = service.sign_twap(150);
    let pk = service.get_public_key();
    assert!(verify_twap("150", &signature, pk));
    assert!(!verify_twap("151", &signature, pk));
    assert!(!verify_twap("149", &signature, pk));
    assert!(!verify_twap("1500", &signature, pk));
}

#[test]
fn fractional_twap_is_truncated_before_hashing() {
    let service = service();
    let twap: f64 = 150.7;
    let truncated = twap as u64;
    assert_eq!(truncated, 150);
    let signature = service.sign_twap(truncated);
    let pk = service.get_public_key();
    assert!(verify_twap("150", &signature, pk));
    assert!(!verify_twap("150.7", &signature, pk));
    assert!(!verify_twap("151", &signature, pk));
}

#[test]
fn malformed_inputs_report_invalid_without_failing() {
    let service = service();
    let signature = service.sign_twap(1);
    let pk = service.get_public_key();
    assert!(!verify_twap("", &signature, pk));
    assert!(!verify_twap("x1", &signature, pk));
    assert!(!verify_twap("1", "zz", pk));
    assert!(!verify_twap("1", "0", pk));
    assert!(!verify_twap("1", &signature, "zz"));
    assert!(!verify_twap("1", &signature, "abcd"));
}

fn expect_error(key: &str) -> SigningError {
    match SigningService::new(key) {
        Ok(_) => panic!("key {key:?} should be rejected"),
        Err(error) => error,
    }
}

#[test]
fn bad_private_keys_are_rejected() {
    assert_eq!(expect_error("0xzz"), SigningError::InvalidHex);
    // Only one 0x prefix is optional; a doubled prefix is not hex.
    assert_eq!(
        expect_error(&format!("0x0x{KEY_ONE}")),
        SigningError::InvalidHex
    );
    assert_eq!(expect_error("abc"), SigningError::InvalidHex);
    let zeros = "0".repeat(64);
    assert_eq!(expect_error(&zeros), SigningError::InvalidSecretKey);
    assert_eq!(expect_error("00ff"), SigningError::InvalidSecretKey);
}
