use digest_bench_core::adapter::{
    make_aligned_buffer, make_input_buffer, oneshot_aligned_iteration, oneshot_iteration,
};
use digest_bench_core::digest_ops::{aligned_len, compute_digest, compute_digest_aligned};
use digest_bench_core::registry::{algorithms, input_lengths, AlgorithmId};

#[test]
fn aligned_len_is_at_least_nominal_and_block_aligned() {
    for alg in algorithms() {
        for len in input_lengths() {
            let aligned = aligned_len(alg, len);
            assert!(aligned >= len);
            assert_eq!(aligned % alg.block_len(), 0);
            assert!(aligned < len + alg.block_len());
        }
    }
}

#[test]
fn aligned_len_known_values() {
    assert_eq!(aligned_len(AlgorithmId::Sha256, 0), 0);
    assert_eq!(aligned_len(AlgorithmId::Sha256, 31), 64);
    assert_eq!(aligned_len(AlgorithmId::Sha256, 48), 64);
    assert_eq!(aligned_len(AlgorithmId::Sha256, 63), 64);
    assert_eq!(aligned_len(AlgorithmId::Sha256, 64), 64);
    assert_eq!(aligned_len(AlgorithmId::Sha256, 65), 128);
    assert_eq!(aligned_len(AlgorithmId::Sha384, 48), 128);
    assert_eq!(aligned_len(AlgorithmId::Sha512, 63), 128);
    assert_eq!(aligned_len(AlgorithmId::Sha512, 128), 128);
}

#[test]
fn aligned_and_unaligned_paths_yield_identical_digests() {
    for alg in algorithms() {
        for len in input_lengths() {
            let input = make_input_buffer(len);
            let unaligned = compute_digest(alg, &input);
            let mut buffer = make_aligned_buffer(alg, len);
            let aligned = compute_digest_aligned(alg, &mut buffer, len);
            assert_eq!(unaligned, aligned);
        }
    }
}

#[test]
fn aligned_path_leaves_the_buffer_unchanged() {
    for alg in algorithms() {
        let mut buffer = make_aligned_buffer(alg, 63);
        let before = buffer.clone();
        let _ = compute_digest_aligned(alg, &mut buffer, 63);
        assert_eq!(buffer, before);
    }
}

#[test]
fn repeated_iterations_yield_identical_results() {
    for alg in algorithms() {
        for len in input_lengths() {
            let input = make_input_buffer(len);
            let first = oneshot_iteration(alg, &input);
            let second = oneshot_iteration(alg, &input);
            assert_eq!(first, second);

            let mut buffer = make_aligned_buffer(alg, len);
            let first_aligned = oneshot_aligned_iteration(alg, &mut buffer, len);
            let second_aligned = oneshot_aligned_iteration(alg, &mut buffer, len);
            assert_eq!(first_aligned, second_aligned);
        }
    }
}

#[test]
fn repeated_digest_calls_yield_identical_bytes() {
    for alg in algorithms() {
        let input = make_input_buffer(63);
        assert_eq!(compute_digest(alg, &input), compute_digest(alg, &input));
        let mut buffer = make_aligned_buffer(alg, 63);
        let first = compute_digest_aligned(alg, &mut buffer, 63);
        let second = compute_digest_aligned(alg, &mut buffer, 63);
        assert_eq!(first, second);
    }
}

#[test]
fn end_to_end_sha256_nominal_forty_eight() {
    let alg = AlgorithmId::Sha256;
    let nominal = 48;
    let aligned = aligned_len(alg, nominal);
    // The smallest multiple of sha256's 64-byte block size at or above 48.
    assert_eq!(aligned, 64);
    let mut buffer = make_aligned_buffer(alg, nominal);
    assert_eq!(buffer.len(), aligned);
    let via_aligned_path = compute_digest_aligned(alg, &mut buffer, nominal);
    let plain = make_input_buffer(nominal);
    let via_plain_path = compute_digest(alg, &plain);
    assert_eq!(via_aligned_path, via_plain_path);
}
