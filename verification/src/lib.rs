//! Core of a micro-benchmark harness for cryptographic digest functions.
//!
//! The library builds the benchmark matrix: a fixed registry of digest
//! algorithms crossed with a fixed list of input lengths, each cell measured
//! once over the one-shot (unaligned) call path and once over the aligned
//! call path. It also provides the per-case setup (zero-filled input
//! buffers, alignment-aware buffer sizing) and the body of each timed
//! iteration (exactly one digest call whose output length is observed).
//! Registration with the external measurement engine, which decides how
//! often each case runs, is left to the surrounding binary.

pub mod adapter;
pub mod cases;
pub mod digest_ops;
pub mod registry;
