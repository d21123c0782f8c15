//! The HMAC capability that the derivation engine is built on.
//!
//! RFC 5869 needs exactly one thing from a hash algorithm: a keyed HMAC with a
//! fixed tag length `L`. The [`HmacHash`] trait captures that capability, and
//! each supported algorithm implements it by calling the corresponding HMAC of
//! `bitcoin_hashes`.

use vstd::prelude::*;

verus! {

/// `s` adjusted to exactly `n` bytes: truncated, or padded with zero bytes.
///
/// A real HMAC tag already has its algorithm's fixed length, so on tags this
/// is the identity; the model routes tags through it so that their length
/// holds by construction at the specification level.
pub open spec fn fit(s: Seq<u8>, n: nat) -> Seq<u8> {
    Seq::new(n, |i: int| if i < s.len() { s[i] } else { 0u8 })
}

/// The tag of HMAC-SHA-256 over the given key and message.
pub uninterp spec fn sha256_hmac_of(key: Seq<u8>, msg: Seq<u8>) -> Seq<u8>;

/// The tag of HMAC-SHA-1 over the given key and message.
pub uninterp spec fn sha1_hmac_of(key: Seq<u8>, msg: Seq<u8>) -> Seq<u8>;

/// The tag of HMAC-SHA-512 over the given key and message.
pub uninterp spec fn sha512_hmac_of(key: Seq<u8>, msg: Seq<u8>) -> Seq<u8>;

/// Relies on `bitcoin_hashes::HmacEngine<sha256::HashEngine>` (RFC 2104 HMAC):
/// the 32-byte tag is a function of the key and the message alone, and keys
/// and messages of any length are accepted.
#[verifier::external_body]
fn sha256_hmac(key: &[u8], msg: &[u8]) -> (r: Vec<u8>)
    ensures
        r@ == sha256_hmac_of(key@, msg@),
        r@.len() == 32,
{
    let mut engine: bitcoin_hashes::HmacEngine<bitcoin_hashes::sha256::HashEngine> =
        bitcoin_hashes::HmacEngine::new(key);
    bitcoin_hashes::HashEngine::input(&mut engine, msg);
    let tag = bitcoin_hashes::HashEngine::finalize(engine);
    bitcoin_hashes::Hash::to_byte_array(tag).to_vec()
}

/// Relies on `bitcoin_hashes::HmacEngine<sha1::HashEngine>` (RFC 2104 HMAC):
/// the 20-byte tag is a function of the key and the message alone, and keys
/// and messages of any length are accepted.
#[verifier::external_body]
fn sha1_hmac(key: &[u8], msg: &[u8]) -> (r: Vec<u8>)
    ensures
        r@ == sha1_hmac_of(key@, msg@),
        r@.len() == 20,
{
    let mut engine: bitcoin_hashes::HmacEngine<bitcoin_hashes::sha1::HashEngine> =
        bitcoin_hashes::HmacEngine::new(key);
    bitcoin_hashes::HashEngine::input(&mut engine, msg);
    let tag = bitcoin_hashes::HashEngine::finalize(engine);
    bitcoin_hashes::Hash::to_byte_array(tag).to_vec()
}

/// Relies on `bitcoin_hashes::HmacEngine<sha512::HashEngine>` (RFC 2104 HMAC):
/// the 64-byte tag is a function of the key and the message alone, and keys
/// and messages of any length are accepted.
#[verifier::external_body]
fn sha512_hmac(key: &[u8], msg: &[u8]) -> (r: Vec<u8>)
    ensures
        r@ == sha512_hmac_of(key@, msg@),
        r@.len() == 64,
{
    let mut engine: bitcoin_hashes::HmacEngine<bitcoin_hashes::sha512::HashEngine> =
        bitcoin_hashes::HmacEngine::new(key);
    bitcoin_hashes::HashEngine::input(&mut engine, msg);
    let tag = bitcoin_hashes::HashEngine::finalize(engine);
    bitcoin_hashes::Hash::to_byte_array(tag).to_vec()
}

/// One hash algorithm, seen purely as the HMAC capability that HKDF consumes:
/// a fixed output length and a keyed tag function.
pub trait HmacHash {
    /// The tag length in bytes (`L` in RFC 5869).
    spec fn output_len() -> nat;

    /// The HMAC tag over the given key and message.
    spec fn hmac_of(key: Seq<u8>, msg: Seq<u8>) -> Seq<u8>;

    /// The tag length is positive, and small enough that 255 blocks of it
    /// stay far below `usize::MAX`.
    proof fn output_len_bounds()
        ensures
            1 <= Self::output_len() <= 4096,
    ;

    /// Every tag has exactly the algorithm's output length.
    proof fn hmac_len(key: Seq<u8>, msg: Seq<u8>)
        ensures
            Self::hmac_of(key, msg).len() == Self::output_len(),
    ;

    /// The tag length as a run-time value.
    fn len() -> (r: usize)
        ensures
            r == Self::output_len(),
    ;

    /// Computes the HMAC tag of `msg` under `key`.
    fn hmac(key: &[u8], msg: &[u8]) -> (r: Vec<u8>)
        ensures
            r@ == Self::hmac_of(key@, msg@),
            r@.len() == Self::output_len(),
    ;
}

/// The SHA-256 algorithm as an HMAC capability (`L = 32`).
pub struct Sha256;

impl HmacHash for Sha256 {
    open spec fn output_len() -> nat {
        32
    }

    open spec fn hmac_of(key: Seq<u8>, msg: Seq<u8>) -> Seq<u8> {
        fit(sha256_hmac_of(key, msg), 32)
    }

    proof fn output_len_bounds() {
    }

    proof fn hmac_len(key: Seq<u8>, msg: Seq<u8>) {
    }

    fn len() -> usize {
        32
    }

    fn hmac(key: &[u8], msg: &[u8]) -> (r: Vec<u8>) {
        let r = sha256_hmac(key, msg);
        proof {
            assert(r@ =~= fit(sha256_hmac_of(key@, msg@), 32));
        }
        r
    }
}

/// The SHA-1 algorithm as an HMAC capability (`L = 20`).
pub struct Sha1;

impl HmacHash for Sha1 {
    open spec fn output_len() -> nat {
        20
    }

    open spec fn hmac_of(key: Seq<u8>, msg: Seq<u8>) -> Seq<u8> {
        fit(sha1_hmac_of(key, msg), 20)
    }

    proof fn output_len_bounds() {
    }

    proof fn hmac_len(key: Seq<u8>, msg: Seq<u8>) {
    }

    fn len() -> usize {
        20
    }

    fn hmac(key: &[u8], msg: &[u8]) -> (r: Vec<u8>) {
        let r = sha1_hmac(key, msg);
        proof {
            assert(r@ =~= fit(sha1_hmac_of(key@, msg@), 20));
        }
        r
    }
}

/// The SHA-512 algorithm as an HMAC capability (`L = 64`).
pub struct Sha512;

impl HmacHash for Sha512 {
    open spec fn output_len() -> nat {
        64
    }

    open spec fn hmac_of(key: Seq<u8>, msg: Seq<u8>) -> Seq<u8> {
        fit(sha512_hmac_of(key, msg), 64)
    }

    proof fn output_len_bounds() {
    }

    proof fn hmac_len(key: Seq<u8>, msg: Seq<u8>) {
    }

    fn len() -> usize {
        64
    }

    fn hmac(key: &[u8], msg: &[u8]) -> (r: Vec<u8>) {
        let r = sha512_hmac(key, msg);
        proof {
            assert(r@ =~= fit(sha512_hmac_of(key@, msg@), 64));
        }
        r
    }
}

} // verus!
