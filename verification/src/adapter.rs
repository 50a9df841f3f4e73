//! Per-case measurement adapters: the untimed setup of each case's input
//! buffer and the body of one timed iteration for either call path.
//!
//! A timed iteration performs exactly one digest call and returns the
//! digest's byte length. That length is the value the caller must hand to
//! the measurement engine's optimization barrier, so the digest computation
//! is observed on every iteration and cannot be discarded as dead code.

use vstd::prelude::*;

use crate::digest_ops::{
    aligned_len, compute_digest, compute_digest_aligned, digest_of, spec_aligned_len,
    MAX_DIGEST_INPUT_LEN,
};
use crate::registry::AlgorithmId;

verus! {

/// A zero-filled byte sequence of length `n`. Buffer content is fixed
/// before the timed region starts, so repeated iterations of a case do
/// bit-identical work.
pub open spec fn zero_bytes(n: nat) -> Seq<u8> {
    Seq::new(n, |i: int| 0u8)
}

/// Untimed setup of the unaligned path: a zero-filled buffer of exactly the
/// case's input length.
pub fn make_input_buffer(len: usize) -> (r: Vec<u8>)
    ensures
        r@ == zero_bytes(len as nat),
{
    let mut v: Vec<u8> = Vec::new();
    while v.len() < len
        invariant
            v@.len() <= len,
            v@ =~= zero_bytes(v@.len() as nat),
        decreases len - v@.len(),
    {
        v.push(0);
        proof {
            assert(v@ =~= zero_bytes(v@.len() as nat));
        }
    }
    proof {
        assert(v@ =~= zero_bytes(len as nat));
    }
    v
}

/// Untimed setup of the aligned path: a zero-filled buffer of the
/// algorithm-specific aligned length for the case's nominal input length.
pub fn make_aligned_buffer(alg: AlgorithmId, len: usize) -> (r: Vec<u8>)
    requires
        len + alg.spec_block_len() <= usize::MAX,
    ensures
        r@ == zero_bytes(spec_aligned_len(alg, len as nat)),
        r@.len() >= len,
        r@.len() as nat % alg.spec_block_len() == 0,
{
    let aligned = aligned_len(alg, len);
    make_input_buffer(aligned)
}

/// One timed iteration of the unaligned path: exactly one one-shot digest
/// over the whole input buffer, returning the digest's length for the
/// optimization barrier.
pub fn oneshot_iteration(alg: AlgorithmId, input: &Vec<u8>) -> (r: usize)
    requires
        input@.len() < MAX_DIGEST_INPUT_LEN,
    ensures
        r == digest_of(alg, input@).len(),
        r == alg.spec_output_len(),
{
    let digest = compute_digest(alg, input.as_slice());
    digest.len()
}

/// One timed iteration of the aligned path: exactly one aligned digest over
/// the first `len` bytes of the pre-sized buffer, returning the digest's
/// length for the optimization barrier. The buffer comes back unchanged, so
/// no state leaks from one iteration into the next.
pub fn oneshot_aligned_iteration(alg: AlgorithmId, buffer: &mut Vec<u8>, len: usize) -> (r:
    usize)
    requires
        len <= old(buffer)@.len(),
        old(buffer)@.len() >= spec_aligned_len(alg, len as nat),
        len < MAX_DIGEST_INPUT_LEN,
    ensures
        final(buffer)@ == old(buffer)@,
        r == digest_of(alg, old(buffer)@.subrange(0, len as int)).len(),
        r == alg.spec_output_len(),
{
    let digest = compute_digest_aligned(alg, buffer, len);
    digest.len()
}

/// The two call paths agree: over a zero-filled buffer of any length
/// `m >= n`, the aligned path hashes exactly the bytes the unaligned path
/// hashes over a zero-filled buffer of the nominal length `n`. The trailing
/// padding bytes never change the logical digest.
pub proof fn lemma_paths_agree_on_zero_input(alg: AlgorithmId, n: nat, m: nat)
    requires
        n <= m,
    ensures
        digest_of(alg, zero_bytes(m).subrange(0, n as int)) == digest_of(alg, zero_bytes(n)),
{
    assert(zero_bytes(m).subrange(0, n as int) =~= zero_bytes(n));
}

} // verus!
