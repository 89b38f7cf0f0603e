//! Deterministic derivation of a wallet's signing key from the user's
//! identifier and the server secret. No key is ever stored.

use crate::error::{internal_error, AppError};
use crate::text::{trim, trimmed};
use hmac::Mac;
use vstd::prelude::*;
use vstd::utf8::encode_utf8;

verus! {

/// The HMAC-SHA256 tag of `message` under `key`.
pub uninterp spec fn hmac_sha256(key: Seq<u8>, message: Seq<u8>) -> Seq<u8>;

/// The value of one hexadecimal digit, in either case.
pub open spec fn hex_digit(b: u8) -> Option<u8> {
    if 48 <= b <= 57 {
        Some((b - 48) as u8)
    } else if 97 <= b <= 102 {
        Some((b - 87) as u8)
    } else if 65 <= b <= 70 {
        Some((b - 55) as u8)
    } else {
        None
    }
}

/// Whether the text is an even number of hexadecimal digits.
pub open spec fn is_hex_text(text: Seq<u8>) -> bool {
    text.len() % 2 == 0 && forall|i: int| 0 <= i < text.len() ==> (#[trigger] hex_digit(text[i]))
        is Some
}

/// The bytes that a hexadecimal text stands for: one for each pair of digits,
/// the first digit of a pair being the high half.
pub open spec fn hex_bytes(text: Seq<u8>) -> Seq<u8> {
    Seq::new(
        text.len() / 2,
        |i: int| (hex_digit(text[2 * i])->0 * 16 + hex_digit(text[2 * i + 1])->0) as u8,
    )
}

/// Whether a signer can be made from the seed.
pub uninterp spec fn signer_accepts(seed: Seq<u8>) -> bool;

/// Asks `alloy_signer_local::LocalSigner::from_bytes` whether it makes a signer
/// for the secp256k1 curve from the seed. The answer depends on the seed alone.
#[verifier::external_body]
fn accepts_seed(seed: &[u8; 32]) -> (r: bool)
    ensures
        r == signer_accepts(seed@),
{
    alloy_signer_local::PrivateKeySigner::from_bytes(&alloy::primitives::B256::from(*seed)).is_ok()
}

/// Computes the tag with the outside crates `hmac` and `sha2`: a keyed hash with
/// a 256-bit digest, which accepts a key of any length.
#[verifier::external_body]
fn hmac_sha256_tag(key: &[u8], message: &[u8]) -> (r: [u8; 32])
    ensures
        r@ == hmac_sha256(key@, message@),
{
    let mut mac = hmac::Hmac::<sha2::Sha256>::new_from_slice(key).expect("any key length");
    mac.update(message);
    mac.finalize().into_bytes().into()
}

/// Decodes with `hex::decode`: `Some` exactly for an even number of hexadecimal
/// digits, upper or lower case, each pair giving one byte.
#[verifier::external_body]
fn hex_decode(text: &[u8]) -> (r: Option<Vec<u8>>)
    ensures
        match r {
            Some(v) => is_hex_text(text@) && v@ == hex_bytes(text@),
            None => !is_hex_text(text@),
        },
{
    hex::decode(text).ok()
}

/// The bytes of the server secret: the trimmed text decoded from hexadecimal,
/// where it is hexadecimal and not empty.
pub open spec fn secret_bytes(secret: Seq<char>) -> Option<Seq<u8>> {
    let text = encode_utf8(trimmed(secret));
    if is_hex_text(text) && text.len() > 0 {
        Some(hex_bytes(text))
    } else {
        None
    }
}

/// The signing key of a user under a secret, where the secret is valid.
pub open spec fn signing_key_of(user_id: Seq<u8>, secret: Seq<char>) -> Option<Seq<u8>> {
    match secret_bytes(secret) {
        Some(key) => Some(hmac_sha256(key, user_id)),
        None => None,
    }
}

/// The seed of a user's signing key: the HMAC-SHA256 tag of the sixteen bytes of
/// the user's identifier, keyed with the secret.
pub fn uuid_to_seed(uuid: &[u8; 16], secret: &[u8]) -> (seed: [u8; 32])
    ensures
        seed@ == hmac_sha256(secret@, uuid@),
{
    hmac_sha256_tag(secret, uuid.as_slice())
}

/// Decodes the configured secret: surrounding whitespace is dropped, the rest
/// must be hexadecimal and must not be empty.
pub fn decode_secret(secret: &str) -> (r: Result<Vec<u8>, AppError>)
    ensures
        match secret_bytes(secret@) {
            Some(bytes) => r matches Ok(v) && v@ == bytes,
            None => r matches Err(e) && e@ == internal_error("Invalid WALLET_GENERATION_SECRET"@),
        },
{
    let text = trim(secret);
    match hex_decode(text.as_bytes()) {
        Some(bytes) => {
            if bytes.len() == 0 {
                Err(AppError::internal("Invalid WALLET_GENERATION_SECRET"))
            } else {
                Ok(bytes)
            }
        },
        None => Err(AppError::internal("Invalid WALLET_GENERATION_SECRET")),
    }
}

/// Derives the 32-byte seed of the signing key of `user_id` under the
/// hex-encoded server secret. The result depends on nothing but the two
/// arguments.
pub fn derive_signing_key(user_id: &[u8; 16], secret: &str) -> (r: Result<[u8; 32], AppError>)
    ensures
        match signing_key_of(user_id@, secret@) {
            Some(key) => r matches Ok(seed) && seed@ == key,
            None => r matches Err(e) && e@ == internal_error("Invalid WALLET_GENERATION_SECRET"@),
        },
{
    match decode_secret(secret) {
        Ok(key) => Ok(uuid_to_seed(user_id, key.as_slice())),
        Err(e) => Err(e),
    }
}

/// Whether the seed can be used as a signing key.
pub fn is_signing_key(seed: &[u8; 32]) -> (r: bool)
    ensures
        r == signer_accepts(seed@),
{
    accepts_seed(seed)
}

/// Derivation is a function of its arguments: equal users and equal secrets
/// have equal keys, and a secret is valid for one user exactly when it is valid
/// for every user.
pub proof fn lemma_derivation_is_deterministic(
    user_a: Seq<u8>,
    secret_a: Seq<char>,
    user_b: Seq<u8>,
    secret_b: Seq<char>,
)
    requires
        user_a == user_b,
        secret_a == secret_b,
    ensures
        signing_key_of(user_a, secret_a) == signing_key_of(user_b, secret_b),
        signing_key_of(user_a, secret_a) is Some <==> secret_bytes(secret_a) is Some,
{
}

} // verus!
