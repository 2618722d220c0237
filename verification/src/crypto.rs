//! Thin trusted wrappers around the cryptographic outside crates, and
//! the exact specification of hex encoding.
//!
//! Digests get opaque names: nothing here claims what a digest is on
//! given bytes, only that it is a function of the bytes alone.

use argon2::password_hash::rand_core::OsRng;
use argon2::password_hash::{PasswordHash, PasswordHasher, PasswordVerifier, SaltString};
use hmac::Mac;
use rand::Rng;
use sha1::Digest;
use vstd::prelude::*;

verus! {

/// The character for one hexadecimal digit, lowercase.
pub open spec fn hex_digit_char(d: int) -> char {
    if d == 0 {
        '0'
    } else if d == 1 {
        '1'
    } else if d == 2 {
        '2'
    } else if d == 3 {
        '3'
    } else if d == 4 {
        '4'
    } else if d == 5 {
        '5'
    } else if d == 6 {
        '6'
    } else if d == 7 {
        '7'
    } else if d == 8 {
        '8'
    } else if d == 9 {
        '9'
    } else if d == 10 {
        'a'
    } else if d == 11 {
        'b'
    } else if d == 12 {
        'c'
    } else if d == 13 {
        'd'
    } else if d == 14 {
        'e'
    } else {
        'f'
    }
}

/// Lowercase hexadecimal encoding: two digits per byte, high nibble
/// first.
pub open spec fn hex_of(bytes: Seq<u8>) -> Seq<char>
    decreases bytes.len(),
{
    if bytes.len() == 0 {
        Seq::empty()
    } else {
        hex_of(bytes.drop_last()) + seq![
            hex_digit_char(bytes.last() as int / 16),
            hex_digit_char(bytes.last() as int % 16),
        ]
    }
}

/// Relies on `hex::encode`: lowercase hexadecimal, two digits per
/// byte, high nibble first.
#[verifier::external_body]
pub fn hex_encode(bytes: &[u8]) -> (r: String)
    ensures
        r@ == hex_of(bytes@),
{
    hex::encode(bytes)
}

/// The HMAC-SHA-256 tag over a message under a key; it depends on the
/// key and message bytes alone.
pub uninterp spec fn hmac_sha256_of(key: Seq<u8>, msg: Seq<u8>) -> Seq<u8>;

/// Relies on `hmac::Hmac<sha2::Sha256>`: a thirty-two byte tag that is
/// a function of the key and message alone; any key length is
/// accepted.
#[verifier::external_body]
pub fn hmac_sha256(key: &[u8], msg: &[u8]) -> (r: Vec<u8>)
    ensures
        r@ == hmac_sha256_of(key@, msg@),
        r@.len() == 32,
{
    let mut mac = <hmac::Hmac<sha2::Sha256> as Mac>::new_from_slice(key).unwrap();
    mac.update(msg);
    mac.finalize().into_bytes().to_vec()
}

/// The SHA-256 digest of a byte string; it depends on the bytes alone.
pub uninterp spec fn sha256_of(bytes: Seq<u8>) -> Seq<u8>;

/// Relies on `sha2::Sha256`: a thirty-two byte digest that is a
/// function of the input alone.
#[verifier::external_body]
pub fn sha256(bytes: &[u8]) -> (r: Vec<u8>)
    ensures
        r@ == sha256_of(bytes@),
        r@.len() == 32,
{
    sha2::Sha256::digest(bytes).to_vec()
}

/// The SHA-1 digest of a byte string; it depends on the bytes alone.
pub uninterp spec fn sha1_of(bytes: Seq<u8>) -> Seq<u8>;

/// Relies on `sha1::Sha1`: a twenty byte digest that is a function of
/// the input alone.
#[verifier::external_body]
pub fn sha1(bytes: &[u8]) -> (r: Vec<u8>)
    ensures
        r@ == sha1_of(bytes@),
        r@.len() == 20,
{
    sha1::Sha1::digest(bytes).to_vec()
}

/// Relies on `rand::Rng::gen_range` over `0..n`: a value below `n`,
/// with nothing else promised of it.
#[verifier::external_body]
pub fn random_below(n: u32) -> (r: u32)
    requires
        n > 0,
    ensures
        r < n,
{
    rand::thread_rng().gen_range(0..n)
}

/// Relies on `argon2::Argon2::hash_password` with a fresh random
/// salt: the PHC-string hash of the password, or nothing if hashing
/// failed. The salt is random, so nothing is promised of the value.
#[verifier::external_body]
pub fn argon2_hash_password(password: &[u8]) -> (r: Option<String>)
{
    let salt = SaltString::generate(&mut OsRng);
    match argon2::Argon2::default().hash_password(password, &salt) {
        Ok(hash) => Some(hash.to_string()),
        Err(_) => None,
    }
}

/// Relies on `argon2::Argon2::verify_password`: whether the password
/// matches the PHC-string hash, or nothing if the stored hash cannot
/// be parsed.
#[verifier::external_body]
pub fn argon2_verify_password(password: &[u8], hash: &str) -> (r: Option<bool>)
{
    match PasswordHash::new(hash) {
        Ok(parsed) => Some(argon2::Argon2::default().verify_password(password, &parsed).is_ok()),
        Err(_) => None,
    }
}

} // verus!
