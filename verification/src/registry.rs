//! The algorithm registry and the input-length matrix: the two fixed,
//! ordered tables whose cross product the case generator enumerates.

use vstd::prelude::*;

verus! {

/// Identity of one digest algorithm under test.
///
/// Each variant carries, through the methods below, the two sizes the
/// harness reads: the internal block length (the alignment boundary of the
/// aligned call path) and the length of a finalized digest.
#[derive(Clone, Copy, PartialEq, Eq, Structural, Debug)]
pub enum AlgorithmId {
    Sha256,
    Sha384,
    Sha512,
}

impl AlgorithmId {
    /// The algorithm's internal block length in bytes.
    pub open spec fn spec_block_len(self) -> nat {
        match self {
            AlgorithmId::Sha256 => 64,
            AlgorithmId::Sha384 => 128,
            AlgorithmId::Sha512 => 128,
        }
    }

    /// The length in bytes of a finalized digest of this algorithm.
    pub open spec fn spec_output_len(self) -> nat {
        match self {
            AlgorithmId::Sha256 => 32,
            AlgorithmId::Sha384 => 48,
            AlgorithmId::Sha512 => 64,
        }
    }

    /// The registry name of this algorithm.
    pub open spec fn spec_name(self) -> Seq<char> {
        match self {
            AlgorithmId::Sha256 => "sha256"@,
            AlgorithmId::Sha384 => "sha384"@,
            AlgorithmId::Sha512 => "sha512"@,
        }
    }

    pub fn block_len(self) -> (r: usize)
        ensures
            r == self.spec_block_len(),
    {
        match self {
            AlgorithmId::Sha256 => 64,
            AlgorithmId::Sha384 => 128,
            AlgorithmId::Sha512 => 128,
        }
    }

    pub fn output_len(self) -> (r: usize)
        ensures
            r == self.spec_output_len(),
    {
        match self {
            AlgorithmId::Sha256 => 32,
            AlgorithmId::Sha384 => 48,
            AlgorithmId::Sha512 => 64,
        }
    }

    pub fn name(self) -> (r: &'static str)
        ensures
            r@ == self.spec_name(),
    {
        match self {
            AlgorithmId::Sha256 => "sha256",
            AlgorithmId::Sha384 => "sha384",
            AlgorithmId::Sha512 => "sha512",
        }
    }
}

/// The fixed, ordered algorithm registry.
pub open spec fn spec_algorithms() -> Seq<AlgorithmId> {
    seq![AlgorithmId::Sha256, AlgorithmId::Sha384, AlgorithmId::Sha512]
}

/// The fixed, ordered input-length matrix. It holds the degenerate length 0
/// (isolating fixed per-call overhead), lengths below the smallest block
/// size, and lengths near a block boundary.
pub open spec fn spec_input_lengths() -> Seq<usize> {
    seq![0usize, 31usize, 48usize, 63usize]
}

/// The algorithm registry as an ordered vector: `spec_algorithms`, exactly.
pub fn algorithms() -> (r: Vec<AlgorithmId>)
    ensures
        r@ == spec_algorithms(),
{
    let mut v: Vec<AlgorithmId> = Vec::new();
    v.push(AlgorithmId::Sha256);
    v.push(AlgorithmId::Sha384);
    v.push(AlgorithmId::Sha512);
    proof {
        assert(v@ =~= spec_algorithms());
    }
    v
}

/// The input-length matrix as an ordered vector: `spec_input_lengths`,
/// exactly.
pub fn input_lengths() -> (r: Vec<usize>)
    ensures
        r@ == spec_input_lengths(),
{
    let mut v: Vec<usize> = Vec::new();
    v.push(0);
    v.push(31);
    v.push(48);
    v.push(63);
    proof {
        assert(v@ =~= spec_input_lengths());
    }
    v
}

} // verus!
