//! HKDF, the HMAC-based key derivation function of RFC 5869.
//!
//! The two-phase construction turns input keying material into one or more
//! cryptographically strong keys: HKDF-Extract condenses the material and an
//! optional salt into a pseudorandom key (PRK), and HKDF-Expand stretches that
//! PRK, bound to a context string, into up to `255 * L` bytes of output. The
//! engine is generic over the underlying hash through the [`HmacHash`]
//! capability; the hash functions themselves come from `bitcoin_hashes`.

use vstd::prelude::*;

mod hmac;

pub use hmac::{HmacHash, Sha1, Sha256, Sha512};

verus! {

/// The all-zero byte string of length `n`: the default salt of HKDF-Extract.
pub open spec fn zero_salt(n: nat) -> Seq<u8> {
    Seq::new(n, |i: int| 0u8)
}

/// HKDF-Extract: the PRK is the HMAC tag of the keying material under the
/// salt, an absent salt standing for `L` zero bytes.
pub open spec fn extract<H: HmacHash>(ikm: Seq<u8>, salt: Option<Seq<u8>>) -> Seq<u8> {
    match salt {
        Some(s) => H::hmac_of(s, ikm),
        None => H::hmac_of(zero_salt(H::output_len()), ikm),
    }
}

/// The `i`-th block `T(i)` of HKDF-Expand: `T(0)` is empty, and
/// `T(i) = HMAC(prk, T(i-1) || info || byte(i))` for the 1-based counter `i`.
pub open spec fn block<H: HmacHash>(prk: Seq<u8>, info: Seq<u8>, i: nat) -> Seq<u8>
    decreases i,
{
    if i == 0 {
        Seq::empty()
    } else {
        H::hmac_of(prk, block::<H>(prk, info, (i - 1) as nat) + info + seq![i as u8])
    }
}

/// The concatenation `T(1) || T(2) || ... || T(n)` of the first `n` blocks.
pub open spec fn okm_stream<H: HmacHash>(prk: Seq<u8>, info: Seq<u8>, n: nat) -> Seq<u8>
    decreases n,
{
    if n == 0 {
        Seq::empty()
    } else {
        okm_stream::<H>(prk, info, (n - 1) as nat) + block::<H>(prk, info, n)
    }
}

/// How many blocks HKDF-Expand computes for `len` bytes of output:
/// `ceil(len / l)`.
pub open spec fn num_blocks(len: nat, l: nat) -> nat
    recommends
        1 <= l,
{
    if len % l == 0 {
        len / l
    } else {
        len / l + 1
    }
}

/// HKDF-Expand: the first `len` bytes of the block stream.
pub open spec fn expand<H: HmacHash>(prk: Seq<u8>, info: Seq<u8>, len: nat) -> Seq<u8> {
    okm_stream::<H>(prk, info, num_blocks(len, H::output_len())).take(len as int)
}

/// Every block but `T(0)` is a full tag of `L` bytes.
proof fn lemma_block_len<H: HmacHash>(prk: Seq<u8>, info: Seq<u8>, i: nat)
    requires
        1 <= i,
    ensures
        block::<H>(prk, info, i).len() == H::output_len(),
{
    H::hmac_len(prk, block::<H>(prk, info, (i - 1) as nat) + info + seq![i as u8]);
}

/// The first `n` blocks hold `n * L` bytes in all.
proof fn lemma_stream_len<H: HmacHash>(prk: Seq<u8>, info: Seq<u8>, n: nat)
    ensures
        okm_stream::<H>(prk, info, n).len() == n * H::output_len(),
    decreases n,
{
    let l = H::output_len();
    if n == 0 {
        assert(0nat * l == 0) by (nonlinear_arith);
    } else {
        lemma_stream_len::<H>(prk, info, (n - 1) as nat);
        lemma_block_len::<H>(prk, info, n);
        assert((n - 1) * l + l == n * l) by (nonlinear_arith);
    }
}

/// A longer stream extends a shorter one byte for byte.
proof fn lemma_stream_prefix<H: HmacHash>(prk: Seq<u8>, info: Seq<u8>, m: nat, n: nat)
    requires
        m <= n,
    ensures
        forall|i: int|
            0 <= i < okm_stream::<H>(prk, info, m).len() ==> okm_stream::<H>(prk, info, n)[i]
                == #[trigger] okm_stream::<H>(prk, info, m)[i],
        okm_stream::<H>(prk, info, m).len() <= okm_stream::<H>(prk, info, n).len(),
    decreases n,
{
    if m < n {
        lemma_stream_prefix::<H>(prk, info, m, (n - 1) as nat);
    }
}

/// `num_blocks` is the least block count that covers `len` bytes: `n` blocks
/// reach `len`, and dropping the last block would fall short.
proof fn lemma_num_blocks_bounds(len: nat, l: nat)
    requires
        1 <= l,
    ensures
        len <= num_blocks(len, l) * l,
        num_blocks(len, l) * l < len + l,
{
    let q = len / l;
    let r = len % l;
    vstd::arithmetic::div_mod::lemma_fundamental_div_mod(len as int, l as int);
    vstd::arithmetic::div_mod::lemma_mod_bound(len as int, l as int);
    if r == 0 {
        assert(num_blocks(len, l) * l == len) by (nonlinear_arith)
            requires
                len == l * q + r,
                r == 0,
                num_blocks(len, l) == q,
        ;
    } else {
        assert(len < num_blocks(len, l) * l < len + l) by (nonlinear_arith)
            requires
                len == l * q + r,
                0 < r < l,
                num_blocks(len, l) == q + 1,
        ;
    }
}

/// At most 255 blocks are ever needed for an output within the RFC bound.
proof fn lemma_num_blocks_max(len: nat, l: nat)
    requires
        1 <= l,
        len <= 255 * l,
    ensures
        num_blocks(len, l) <= 255,
{
    lemma_num_blocks_bounds(len, l);
    assert(num_blocks(len, l) <= 255) by (nonlinear_arith)
        requires
            1 <= l,
            num_blocks(len, l) * l < len + l,
            len <= 255 * l,
    ;
}

/// More requested bytes never need fewer blocks.
proof fn lemma_num_blocks_monotone(len1: nat, len2: nat, l: nat)
    requires
        1 <= l,
        len1 <= len2,
    ensures
        num_blocks(len1, l) <= num_blocks(len2, l),
{
    lemma_num_blocks_bounds(len1, l);
    lemma_num_blocks_bounds(len2, l);
    assert(num_blocks(len1, l) <= num_blocks(len2, l)) by (nonlinear_arith)
        requires
            1 <= l,
            num_blocks(len1, l) * l < len1 + l,
            len2 <= num_blocks(len2, l) * l,
            len1 <= len2,
    ;
}

/// HKDF-Expand returns exactly as many bytes as were requested.
pub proof fn lemma_expand_len<H: HmacHash>(prk: Seq<u8>, info: Seq<u8>, len: nat)
    ensures
        expand::<H>(prk, info, len).len() == len,
{
    H::output_len_bounds();
    lemma_num_blocks_bounds(len, H::output_len());
    lemma_stream_len::<H>(prk, info, num_blocks(len, H::output_len()));
}

/// Expand is a stream construction: a shorter output is the byte prefix of
/// every longer output drawn from the same PRK and context.
pub proof fn lemma_expand_prefix<H: HmacHash>(prk: Seq<u8>, info: Seq<u8>, len1: nat, len2: nat)
    requires
        len1 <= len2,
    ensures
        expand::<H>(prk, info, len1) == expand::<H>(prk, info, len2).take(len1 as int),
{
    let l = H::output_len();
    H::output_len_bounds();
    let n1 = num_blocks(len1, l);
    let n2 = num_blocks(len2, l);
    lemma_num_blocks_bounds(len1, l);
    lemma_num_blocks_bounds(len2, l);
    lemma_num_blocks_monotone(len1, len2, l);
    lemma_stream_len::<H>(prk, info, n1);
    lemma_stream_len::<H>(prk, info, n2);
    lemma_stream_prefix::<H>(prk, info, n1, n2);
    assert(expand::<H>(prk, info, len1) =~= expand::<H>(prk, info, len2).take(len1 as int));
}

/// One block of output is a single HMAC call with the counter byte fixed at 1.
pub proof fn lemma_expand_single_block<H: HmacHash>(prk: Seq<u8>, info: Seq<u8>)
    ensures
        expand::<H>(prk, info, H::output_len()) == H::hmac_of(prk, info + seq![1u8]),
{
    let l = H::output_len();
    H::output_len_bounds();
    vstd::arithmetic::div_mod::lemma_div_by_self(l as int);
    vstd::arithmetic::div_mod::lemma_mod_self_0(l as int);
    assert(num_blocks(l, l) == 1);
    assert(block::<H>(prk, info, 0nat) + info + seq![1u8] =~= info + seq![1u8]);
    H::hmac_len(prk, info + seq![1u8]);
    assert(okm_stream::<H>(prk, info, 0nat) == Seq::<u8>::empty());
    assert(okm_stream::<H>(prk, info, 1nat) =~= block::<H>(prk, info, 1nat));
    assert(expand::<H>(prk, info, l) =~= H::hmac_of(prk, info + seq![1u8]));
}

/// Derivation is deterministic: extracting and expanding equal inputs gives
/// byte-identical output, across independent engine instances.
pub proof fn lemma_derivation_deterministic<H: HmacHash>(
    ikm1: Seq<u8>,
    salt1: Option<Seq<u8>>,
    info1: Seq<u8>,
    len1: nat,
    ikm2: Seq<u8>,
    salt2: Option<Seq<u8>>,
    info2: Seq<u8>,
    len2: nat,
)
    requires
        ikm1 == ikm2,
        salt1 == salt2,
        info1 == info2,
        len1 == len2,
    ensures
        expand::<H>(extract::<H>(ikm1, salt1), info1, len1) == expand::<H>(
            extract::<H>(ikm2, salt2),
            info2,
            len2,
        ),
{
}

/// An absent salt is the same as an explicit all-zero salt of the hash's
/// output length.
pub proof fn lemma_default_salt<H: HmacHash>(ikm: Seq<u8>)
    ensures
        extract::<H>(ikm, None) == extract::<H>(ikm, Some(zero_salt(H::output_len()))),
{
}

/// Chaining: an engine built from a value equal to another engine's PRK
/// expands to identical output for the same context and length.
pub proof fn lemma_chained_expand<H: HmacHash>(prk1: Seq<u8>, prk2: Seq<u8>, info: Seq<u8>, len: nat)
    requires
        prk1 == prk2,
    ensures
        expand::<H>(prk1, info, len) == expand::<H>(prk2, info, len),
{
}

/// The error of [`Hkdf::derive`]: more than `255 * L` output bytes were
/// requested, which RFC 5869 leaves undefined.
#[derive(Clone, Copy, Debug, PartialEq, Eq, Structural)]
pub struct OutputLengthError;

/// An RFC 5869 derivation engine for the hash algorithm `H`, holding the
/// pseudorandom key that HKDF-Expand draws from. Immutable once built.
pub struct Hkdf<H: HmacHash> {
    prk: Vec<u8>,
    marker: core::marker::PhantomData<H>,
}

impl<H: HmacHash> View for Hkdf<H> {
    type V = Seq<u8>;

    /// An engine is abstractly its PRK bytes.
    closed spec fn view(&self) -> Seq<u8> {
        self.prk@
    }
}

/// A vector of `n` zero bytes.
fn zeroed(n: usize) -> (r: Vec<u8>)
    ensures
        r@ == zero_salt(n as nat),
{
    let mut r: Vec<u8> = Vec::new();
    let mut i: usize = 0;
    while i < n
        invariant
            i <= n,
            r@.len() == i,
            forall|j: int| 0 <= j < i ==> r@[j] == 0u8,
        decreases n - i,
    {
        r.push(0u8);
        i = i + 1;
    }
    proof {
        assert(r@ =~= zero_salt(n as nat));
    }
    r
}

/// Appends all of `src` to `dst`.
fn append(dst: &mut Vec<u8>, src: &[u8])
    ensures
        final(dst)@ == old(dst)@ + src@,
{
    let mut i: usize = 0;
    while i < src.len()
        invariant
            i <= src@.len(),
            dst@ == old(dst)@ + src@.take(i as int),
        decreases src@.len() - i,
    {
        dst.push(src[i]);
        proof {
            assert(old(dst)@ + src@.take(i as int) + seq![src@[i as int]] =~= old(dst)@
                + src@.take(i + 1));
        }
        i = i + 1;
    }
    proof {
        assert(old(dst)@ + src@.take(src@.len() as int) =~= old(dst)@ + src@);
    }
}

impl<H: HmacHash> Hkdf<H> {
    /// Runs HKDF-Extract over the keying material and the optional salt and
    /// keeps the resulting PRK. An absent salt stands for `L` zero bytes, as
    /// the RFC mandates; empty keying material and an empty explicit salt are
    /// also valid inputs. Never fails.
    pub fn new(ikm: &[u8], salt: Option<&[u8]>) -> (r: Self)
        ensures
            salt matches Some(s) ==> r@ == extract::<H>(ikm@, Some(s@)),
            salt is None ==> r@ == extract::<H>(ikm@, None),
            r@.len() == H::output_len(),
    {
        let prk = match salt {
            Some(s) => H::hmac(s, ikm),
            None => {
                let zero_key = zeroed(H::len());
                H::hmac(zero_key.as_slice(), ikm)
            },
        };
        Hkdf { prk, marker: core::marker::PhantomData }
    }

    /// Wraps a pseudorandom key that already has the right distribution and
    /// length, skipping HKDF-Extract — for chained derivations whose previous
    /// round produced an `L`-byte key. No validation happens (none is
    /// possible); the caller vouches for the value. If in doubt, use
    /// [`Hkdf::new`].
    pub fn from_prk(prk: Vec<u8>) -> (r: Self)
        requires
            prk@.len() == H::output_len(),
        ensures
            r@ == prk@,
    {
        Hkdf { prk, marker: core::marker::PhantomData }
    }

    /// Read-only access to the engine's PRK, e.g. to check it against test
    /// vectors or to seed a chained engine.
    pub fn prk(&self) -> (r: &[u8])
        ensures
            r@ == self@,
    {
        self.prk.as_slice()
    }

    /// Runs HKDF-Expand to generate `len` bytes of new key material, bound to
    /// the context string `info`. Succeeds with exactly `len` bytes whenever
    /// `len <= 255 * L`; any longer request is rejected outright, before any
    /// HMAC is computed, and no output is produced.
    pub fn derive(&self, info: &[u8], len: usize) -> (r: Result<Vec<u8>, OutputLengthError>)
        ensures
            len <= 255 * H::output_len() ==> (r matches Ok(okm) && okm@ == expand::<H>(
                self@,
                info@,
                len as nat,
            )),
            len > 255 * H::output_len() ==> r is Err,
            r matches Ok(okm) ==> okm@.len() == len,
    {
        let l = H::len();
        proof {
            H::output_len_bounds();
        }
        if len > 255 * l {
            return Err(OutputLengthError);
        }
        let iterations = if len % l == 0 {
            len / l
        } else {
            len / l + 1
        };
        proof {
            lemma_num_blocks_bounds(len as nat, l as nat);
            lemma_num_blocks_max(len as nat, l as nat);
        }
        let mut okm: Vec<u8> = Vec::new();
        let mut prev: Vec<u8> = Vec::new();
        let mut i: usize = 0;
        while i < iterations
            invariant
                l == H::output_len(),
                1 <= l,
                iterations == num_blocks(len as nat, l as nat),
                iterations <= 255,
                i <= iterations,
                okm@ == okm_stream::<H>(self@, info@, i as nat),
                prev@ == block::<H>(self@, info@, i as nat),
            decreases iterations - i,
        {
            let mut msg: Vec<u8> = Vec::new();
            append(&mut msg, prev.as_slice());
            append(&mut msg, info);
            msg.push((i + 1) as u8);
            proof {
                assert(msg@ =~= block::<H>(self@, info@, i as nat) + info@ + seq![
                    ((i + 1) as nat) as u8,
                ]);
            }
            let tag = H::hmac(self.prk.as_slice(), msg.as_slice());
            append(&mut okm, tag.as_slice());
            prev = tag;
            i = i + 1;
        }
        proof {
            lemma_stream_len::<H>(self@, info@, iterations as nat);
        }
        okm.truncate(len);
        proof {
            assert(okm@ =~= expand::<H>(self@, info@, len as nat));
        }
        Ok(okm)
    }

    /// Runs HKDF-Expand for exactly one block of output (`len == L`): a single
    /// HMAC call with the block counter fixed at 1. Never fails, and agrees
    /// byte for byte with [`Hkdf::derive`] at length `L`.
    pub fn derive_hmac(&self, info: &[u8]) -> (r: Vec<u8>)
        ensures
            r@ == expand::<H>(self@, info@, H::output_len()),
            r@.len() == H::output_len(),
    {
        let mut msg: Vec<u8> = Vec::new();
        append(&mut msg, info);
        msg.push(1u8);
        let tag = H::hmac(self.prk.as_slice(), msg.as_slice());
        proof {
            assert(msg@ =~= info@ + seq![1u8]);
            lemma_expand_single_block::<H>(self@, info@);
        }
        tag
    }
}

} // verus!
