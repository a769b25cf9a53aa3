//! The signing service: it turns a TWAP value into a signed attestation
//! over a canonical decimal digest, and checks attestations from peers.
//!
//! Signer and verifier share one canonicalization rule: the value is
//! truncated to an integer and written in canonical decimal text, and the
//! SHA-256 digest of that text is signed with ECDSA over secp256k1.
use vstd::prelude::*;

use sha2::Digest;

use crate::hexutil::{all_hex_digits, hex_decode, hex_encode, hex_of, hex_val,
    lemma_hex_round_trip};
use crate::numeric::{dec_repr, dec_repr_int, i64_to_dec_bytes, lemma_dec_repr_digits,
    parse_i64, parse_i64_spec, push_dec_bytes};
use crate::text::chars_to_bytes;

verus! {

/// The SHA-256 digest of `data`; a function of the bytes alone.
pub uninterp spec fn sha256_of(data: Seq<u8>) -> Seq<u8>;

/// Whether `sig_der` is a DER signature that checks out for `digest`
/// under the compressed public key `pk`; a function of the bytes alone.
pub uninterp spec fn ecdsa_valid(digest: Seq<u8>, sig_der: Seq<u8>, pk: Seq<u8>) -> bool;

/// Whether `sig_der` parses as a DER-encoded ECDSA signature.
pub uninterp spec fn is_der_sig(sig_der: Seq<u8>) -> bool;

/// Whether `pk` parses as a serialized secp256k1 public key.
pub uninterp spec fn is_pubkey_bytes(pk: Seq<u8>) -> bool;

/// Whether `sk` is a well-formed 32-byte secp256k1 secret key.
pub uninterp spec fn is_seckey_bytes(sk: Seq<u8>) -> bool;

/// The serialized compressed public key derived from the secret key
/// `sk`; a function of the key bytes alone.
pub uninterp spec fn public_key_of(sk: Seq<u8>) -> Seq<u8>;

/// Relies on `sha2::Sha256`: the digest is 32 bytes and depends on the
/// input bytes alone.
#[verifier::external_body]
pub(crate) fn sha256(data: &Vec<u8>) -> (r: Vec<u8>)
    ensures
        r@ == sha256_of(data@),
        r@.len() == 32,
{
    sha2::Sha256::digest(data.as_slice()).to_vec()
}

/// Relies on `secp256k1::SecretKey::from_secret_bytes`: it succeeds
/// exactly on 32 bytes holding a scalar in the curve's valid
/// secret-key range.
#[verifier::external_body]
pub(crate) fn seckey_check(sk: &Vec<u8>) -> (r: bool)
    ensures
        r == is_seckey_bytes(sk@),
{
    match <[u8; 32]>::try_from(sk.as_slice()) {
        Ok(array) => secp256k1::SecretKey::from_secret_bytes(array).is_ok(),
        Err(_) => false,
    }
}

/// Relies on `secp256k1::PublicKey::from_secret_key` and
/// `PublicKey::serialize`: the derived key depends on the secret key
/// alone, is 33 bytes compressed, and parses back with
/// `PublicKey::from_slice`.
#[verifier::external_body]
pub(crate) fn derive_public_key(sk: &Vec<u8>) -> (r: Vec<u8>)
    requires
        is_seckey_bytes(sk@),
    ensures
        r@ == public_key_of(sk@),
        r@.len() == 33,
        is_pubkey_bytes(r@),
{
    let array = <[u8; 32]>::try_from(sk.as_slice()).unwrap();
    let key = secp256k1::SecretKey::from_secret_bytes(array).unwrap();
    secp256k1::PublicKey::from_secret_key(&key).serialize().to_vec()
}

/// Relies on `secp256k1::SecretKey::sign_ecdsa` and
/// `Signature::serialize_der`: the produced signature is valid DER and
/// verifies for this digest under the signer's public key.
#[verifier::external_body]
pub(crate) fn ecdsa_sign(sk: &Vec<u8>, digest: &Vec<u8>) -> (r: Vec<u8>)
    requires
        is_seckey_bytes(sk@),
        digest@.len() == 32,
    ensures
        is_der_sig(r@),
        ecdsa_valid(digest@, r@, public_key_of(sk@)),
{
    let array = <[u8; 32]>::try_from(sk.as_slice()).unwrap();
    let key = secp256k1::SecretKey::from_secret_bytes(array).unwrap();
    let msg = secp256k1::Message::from_digest(<[u8; 32]>::try_from(digest.as_slice()).unwrap());
    key.sign_ecdsa(msg).serialize_der().to_vec()
}

/// Relies on `secp256k1::ecdsa::Signature::from_der`,
/// `PublicKey::from_slice` and `ecdsa::verify`: true exactly when the
/// signature and key parse and the signature checks out for the digest.
#[verifier::external_body]
pub(crate) fn ecdsa_verify(digest: &Vec<u8>, sig_der: &Vec<u8>, pk: &Vec<u8>) -> (r: bool)
    requires
        digest@.len() == 32,
    ensures
        r == (is_der_sig(sig_der@) && is_pubkey_bytes(pk@) && ecdsa_valid(
            digest@,
            sig_der@,
            pk@,
        )),
{
    let sig = match secp256k1::ecdsa::Signature::from_der(sig_der) {
        Ok(sig) => sig,
        Err(_) => return false,
    };
    let key = match secp256k1::PublicKey::from_slice(pk) {
        Ok(key) => key,
        Err(_) => return false,
    };
    let msg = secp256k1::Message::from_digest(<[u8; 32]>::try_from(digest.as_slice()).unwrap());
    secp256k1::ecdsa::verify(&sig, msg, &key).is_ok()
}

/// The digest that an attestation for the truncated TWAP `n` signs: the
/// SHA-256 digest of the canonical decimal text of `n`.
pub open spec fn twap_digest(n: int) -> Seq<u8> {
    sha256_of(chars_to_bytes(dec_repr_int(n)))
}

/// `s` with one leading `0x` removed, when it has one: the key text is
/// optionally `0x`-prefixed, once.
pub open spec fn strip_hex_prefix(s: Seq<char>) -> Seq<char> {
    if s.len() >= 2 && s[0] == '0' && s[1] == 'x' {
        s.skip(2)
    } else {
        s
    }
}

/// Returns `s` without its optional leading `0x`.
fn strip_0x<'a>(s: &'a str) -> (r: &'a str)
    ensures
        r@ == strip_hex_prefix(s@),
{
    let n = s.unicode_len();
    if n >= 2 && s.get_char(0) == '0' && s.get_char(1) == 'x' {
        let stripped = s.substring_char(2, n);
        proof {
            assert(stripped@ =~= s@.skip(2));
        }
        stripped
    } else {
        s
    }
}

/// A failure to construct the signing service.
#[derive(PartialEq, Eq, Structural, Clone, Copy, Debug)]
pub enum SigningError {
    /// The private key text is not even-length hex.
    InvalidHex,
    /// The decoded bytes are not a valid secp256k1 secret key.
    InvalidSecretKey,
}

/// Holds the node's key pair: the secret key bytes, and the hex text of
/// the derived compressed public key.
pub struct SigningService {
    secret_key: Vec<u8>,
    public_key: String,
}

impl SigningService {
    /// The secret key bytes.
    pub closed spec fn spec_secret_key(&self) -> Seq<u8> {
        self.secret_key@
    }

    /// The serialized compressed public key.
    pub open spec fn spec_public_key_bytes(&self) -> Seq<u8> {
        public_key_of(self.spec_secret_key())
    }

    /// The key pair is valid and the stored public key is the hex text
    /// of the key derived from the secret key.
    #[verifier::type_invariant]
    pub closed spec fn wf(self) -> bool {
        &&& is_seckey_bytes(self.secret_key@)
        &&& is_pubkey_bytes(public_key_of(self.secret_key@))
        &&& self.public_key@ == hex_of(public_key_of(self.secret_key@))
    }

    /// Builds the service from a hex private key, with or without one
    /// leading `0x`; fails exactly on text that is not even-length hex
    /// or whose bytes are not a valid secret key.
    pub fn new(private_key_hex: &str) -> (r: Result<SigningService, SigningError>)
        ensures
            ({
                let clean = strip_hex_prefix(private_key_hex@);
                match r {
                    Ok(service) => (clean.len() % 2 == 0 && all_hex_digits(clean))
                        && is_seckey_bytes(hex_val(clean)) && service.spec_secret_key() == hex_val(
                        clean,
                    ),
                    Err(SigningError::InvalidHex) => !(clean.len() % 2 == 0 && all_hex_digits(
                        clean,
                    )),
                    Err(SigningError::InvalidSecretKey) => (clean.len() % 2 == 0 && all_hex_digits(
                        clean,
                    )) && !is_seckey_bytes(hex_val(clean)),
                }
            }),
    {
        let clean = strip_0x(private_key_hex);
        let secret_key = match hex_decode(clean) {
            Some(bytes) => bytes,
            None => {
                return Err(SigningError::InvalidHex);
            },
        };
        if !seckey_check(&secret_key) {
            return Err(SigningError::InvalidSecretKey);
        }
        let pk_bytes = derive_public_key(&secret_key);
        let public_key = hex_encode(&pk_bytes);
        Ok(SigningService { secret_key, public_key })
    }

    /// The hex text of the node's public key, as it is embedded in
    /// outgoing attestations.
    pub fn get_public_key(&self) -> (r: &str)
        ensures
            r@ == hex_of(self.spec_public_key_bytes()),
    {
        proof {
            use_type_invariant(self);
        }
        self.public_key.as_str()
    }

    /// Signs the truncated TWAP value `twap`: hashes its canonical
    /// decimal text and returns the DER signature as hex text. The
    /// signature bytes may vary between calls, but always verify for
    /// this value under this service's public key.
    pub fn sign_twap(&self, twap: u64) -> (r: String)
        ensures
            is_pubkey_bytes(self.spec_public_key_bytes()),
            exists|sig: Seq<u8>|
                {
                    &&& r@ == hex_of(sig)
                    &&& is_der_sig(sig)
                    &&& #[trigger] ecdsa_valid(twap_digest(twap as int), sig,
                    self.spec_public_key_bytes())
                },
    {
        proof {
            use_type_invariant(self);
        }
        let mut message: Vec<u8> = Vec::new();
        push_dec_bytes(&mut message, twap);
        proof {
            assert(message@ =~= chars_to_bytes(dec_repr_int(twap as int)));
        }
        let digest = sha256(&message);
        let sig_der = ecdsa_sign(&self.secret_key, &digest);
        let r = hex_encode(&sig_der);
        proof {
            assert(r@ == hex_of(sig_der@) && is_der_sig(sig_der@) && ecdsa_valid(
                twap_digest(twap as int),
                sig_der@,
                self.spec_public_key_bytes(),
            ));
        }
        r
    }
}

/// What verifying an attestation means: the TWAP text must parse as an
/// `i64`, the signature and public key must be even-length hex whose
/// bytes parse, and the signature must check out for the digest of the
/// parsed value's canonical decimal text.
pub open spec fn spec_verify_twap(twap_text: Seq<char>, signature_hex: Seq<char>,
    public_key_hex: Seq<char>) -> bool {
    match parse_i64_spec(twap_text) {
        None => false,
        Some(n) => {
            &&& signature_hex.len() % 2 == 0 && all_hex_digits(signature_hex)
            &&& public_key_hex.len() % 2 == 0 && all_hex_digits(public_key_hex)
            &&& is_der_sig(hex_val(signature_hex))
            &&& is_pubkey_bytes(hex_val(public_key_hex))
            &&& ecdsa_valid(twap_digest(n as int), hex_val(signature_hex), hex_val(public_key_hex))
        },
    }
}

/// Checks a peer attestation: recomputes the digest of the canonical
/// decimal text of `twap_text`'s parsed value and verifies the hex
/// signature under the hex public key. Malformed text of any of the
/// three reports invalid rather than failing.
pub fn verify_twap(twap_text: &str, signature_hex: &str, public_key_hex: &str) -> (r: bool)
    ensures
        r == spec_verify_twap(twap_text@, signature_hex@, public_key_hex@),
{
    let value = match parse_i64(twap_text) {
        Some(value) => value,
        None => {
            return false;
        },
    };
    let sig_der = match hex_decode(signature_hex) {
        Some(bytes) => bytes,
        None => {
            return false;
        },
    };
    let pk = match hex_decode(public_key_hex) {
        Some(bytes) => bytes,
        None => {
            return false;
        },
    };
    let message = i64_to_dec_bytes(value);
    let digest = sha256(&message);
    ecdsa_verify(&digest, &sig_der, &pk)
}

/// Round trip: an attestation signed for a value verifies for that
/// value's canonical decimal text under the signer's public key. It
/// covers every value a signer can attest that a verifier can also
/// read back, that is every value within `i64`'s range.
pub proof fn lemma_sign_verify_round_trip(value: u64, sig: Seq<u8>, pk: Seq<u8>)
    requires
        value <= i64::MAX as u64,
        is_der_sig(sig),
        is_pubkey_bytes(pk),
        ecdsa_valid(twap_digest(value as int), sig, pk),
    ensures
        spec_verify_twap(dec_repr(value as nat), hex_of(sig), hex_of(pk)),
{
    lemma_hex_round_trip(sig);
    lemma_hex_round_trip(pk);
    lemma_dec_repr_digits(value as nat);
    let s = dec_repr(value as nat);
    assert(crate::numeric::is_dec_digit(s[0]));
    assert(s[0] as int != 45 && s[0] as int != 43);
    assert(s[0] != '-' && s[0] != '+');
    assert(parse_i64_spec(s) == Some(value as i64));
}

} // verus!
