//! The digest contract the harness consumes: one-shot digests, the
//! algorithm-specific aligned buffer length, and the aligned call path that
//! hashes a nominal-length prefix of a pre-sized buffer.

use vstd::arithmetic::div_mod::{lemma_fundamental_div_mod, lemma_fundamental_div_mod_converse};
use vstd::prelude::*;

use crate::registry::AlgorithmId;

verus! {

/// Strict upper bound, in bytes, on the input lengths the digest
/// implementations accept: every supported algorithm processes at most
/// 2^64 - 1 bits of input and panics beyond that.
pub const MAX_DIGEST_INPUT_LEN: u64 = 0x2000_0000_0000_0000;

/// The digest that the external implementation returns for the given
/// algorithm over the given input bytes. The value depends on the algorithm
/// and the input alone.
pub uninterp spec fn digest_of(alg: AlgorithmId, input: Seq<u8>) -> Seq<u8>;

/// Relies on `ring::digest::digest`: the digest is a deterministic function
/// of the algorithm and the input bytes alone; its length is the algorithm's
/// documented output length (32 bytes for SHA-256, 48 for SHA-384, 64 for
/// SHA-512); inputs shorter than 2^61 bytes never make it panic.
#[verifier::external_body]
fn ring_digest(alg: AlgorithmId, input: &[u8]) -> (r: Vec<u8>)
    requires
        input@.len() < MAX_DIGEST_INPUT_LEN,
    ensures
        r@ == digest_of(alg, input@),
        r@.len() == alg.spec_output_len(),
{
    let algorithm = match alg {
        AlgorithmId::Sha256 => &ring::digest::SHA256,
        AlgorithmId::Sha384 => &ring::digest::SHA384,
        AlgorithmId::Sha512 => &ring::digest::SHA512,
    };
    ring::digest::digest(algorithm, input).as_ref().to_vec()
}

/// One-shot (unaligned) digest of the whole input buffer.
pub fn compute_digest(alg: AlgorithmId, input: &[u8]) -> (r: Vec<u8>)
    requires
        input@.len() < MAX_DIGEST_INPUT_LEN,
    ensures
        r@ == digest_of(alg, input@),
        r@.len() == alg.spec_output_len(),
{
    ring_digest(alg, input)
}

/// The smallest multiple of `b` that is at least `n`.
pub open spec fn spec_round_up(n: nat, b: nat) -> nat
    recommends
        b > 0,
{
    if n % b == 0 {
        n
    } else {
        (n + (b - n % b)) as nat
    }
}

/// The aligned buffer length for a nominal input length: the smallest length
/// that is `>= n` and a multiple of the algorithm's block length.
pub open spec fn spec_aligned_len(alg: AlgorithmId, n: nat) -> nat {
    spec_round_up(n, alg.spec_block_len())
}

fn round_up(n: usize, b: usize) -> (r: usize)
    requires
        b > 0,
        n + b <= usize::MAX,
    ensures
        r == spec_round_up(n as nat, b as nat),
        r >= n,
        r % b == 0,
        r < n + b,
{
    let rem = n % b;
    if rem == 0 {
        n
    } else {
        proof {
            lemma_fundamental_div_mod(n as int, b as int);
            let q = n as int / b as int;
            assert((q + 1) * b as int == q * b as int + b as int) by (nonlinear_arith);
            assert(b as int * q == q * b as int) by (nonlinear_arith);
            lemma_fundamental_div_mod_converse(
                n as int + (b as int - rem as int),
                b as int,
                q + 1,
                0,
            );
        }
        n + (b - rem)
    }
}

/// The aligned buffer length for the nominal input length `n`: at least `n`,
/// a multiple of the algorithm's block length, and smaller than `n` plus one
/// block.
pub fn aligned_len(alg: AlgorithmId, n: usize) -> (r: usize)
    requires
        n + alg.spec_block_len() <= usize::MAX,
    ensures
        r == spec_aligned_len(alg, n as nat),
        r >= n,
        r as nat % alg.spec_block_len() == 0,
        r < n + alg.spec_block_len(),
{
    let b = alg.block_len();
    round_up(n, b)
}

/// No shorter length than `spec_aligned_len(alg, n)` is both `>= n` and
/// aligned to the algorithm's block length: the aligned buffer is as small
/// as the alignment requirement allows.
pub proof fn lemma_aligned_len_least(alg: AlgorithmId, n: nat, m: nat)
    requires
        m >= n,
        m % alg.spec_block_len() == 0,
    ensures
        m >= spec_aligned_len(alg, n),
{
    let b = alg.spec_block_len();
    if n % b != 0 && m < spec_aligned_len(alg, n) {
        lemma_fundamental_div_mod(n as int, b as int);
        let q = n as int / b as int;
        lemma_fundamental_div_mod_converse(m as int, b as int, q, m as int - q * b as int);
    }
}

/// Digest output length is constant per algorithm: any two digests of the
/// same algorithm have the same length, whatever inputs they came from —
/// the length the one-shot and the aligned digest contracts state.
pub proof fn lemma_output_len_constant(alg: AlgorithmId, r1: Seq<u8>, r2: Seq<u8>)
    requires
        r1.len() == alg.spec_output_len(),
        r2.len() == alg.spec_output_len(),
    ensures
        r1.len() == r2.len(),
{
}

/// Timed iterations are idempotent: the digest is a deterministic function
/// of the algorithm and the input bytes alone, so two digest results of the
/// same case over the same input are equal, byte for byte.
pub proof fn lemma_iterations_idempotent(
    alg: AlgorithmId,
    input: Seq<u8>,
    r1: Seq<u8>,
    r2: Seq<u8>,
)
    requires
        r1 == digest_of(alg, input),
        r2 == digest_of(alg, input),
    ensures
        r1 == r2,
{
}

/// Aligned-path digest: hashes the first `n` bytes of a buffer whose length
/// satisfies the alignment requirement for `n`. The buffer is handed in as a
/// mutable view, as the aligned call path demands; it comes back unchanged.
/// Bytes past the nominal length are never part of the hashed input.
pub fn compute_digest_aligned(alg: AlgorithmId, buffer: &mut Vec<u8>, n: usize) -> (r: Vec<u8>)
    requires
        n <= old(buffer)@.len(),
        old(buffer)@.len() >= spec_aligned_len(alg, n as nat),
        n < MAX_DIGEST_INPUT_LEN,
    ensures
        final(buffer)@ == old(buffer)@,
        r@ == digest_of(alg, old(buffer)@.subrange(0, n as int)),
        r@.len() == alg.spec_output_len(),
{
    let prefix = vstd::slice::slice_subrange(buffer.as_slice(), 0, n);
    ring_digest(alg, prefix)
}

} // verus!
