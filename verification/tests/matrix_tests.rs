use digest_bench_core::cases::{build_case_matrix, generate_cases, CallPath};
use digest_bench_core::registry::{algorithms, input_lengths, AlgorithmId};

#[test]
fn registry_is_three_algorithms_in_order() {
    let algs = algorithms();
    assert_eq!(
        algs,
        vec![AlgorithmId::Sha256, AlgorithmId::Sha384, AlgorithmId::Sha512]
    );
}

#[test]
fn algorithm_names_are_the_registry_names() {
    assert_eq!(AlgorithmId::Sha256.name(), "sha256");
    assert_eq!(AlgorithmId::Sha384.name(), "sha384");
    assert_eq!(AlgorithmId::Sha512.name(), "sha512");
}

#[test]
fn matrix_is_four_lengths_in_order() {
    assert_eq!(input_lengths(), vec![0, 31, 48, 63]);
}

#[test]
fn case_count_is_algorithms_times_lengths_times_two() {
    let cases = build_case_matrix();
    assert_eq!(cases.len(), algorithms().len() * input_lengths().len() * 2);
    assert_eq!(cases.len(), 24);
}

#[test]
fn exactly_one_case_per_cell_and_path() {
    let cases = build_case_matrix();
    for alg in algorithms() {
        for len in input_lengths() {
            let unaligned = cases
                .iter()
                .filter(|c| c.algorithm == alg && c.input_len == len && c.path == CallPath::Unaligned)
                .count();
            let aligned = cases
                .iter()
                .filter(|c| c.algorithm == alg && c.input_len == len && c.path == CallPath::Aligned)
                .count();
            assert_eq!(unaligned, 1);
            assert_eq!(aligned, 1);
        }
    }
}

#[test]
fn case_names_are_pairwise_distinct() {
    let cases = build_case_matrix();
    for (x, a) in cases.iter().enumerate() {
        for (y, b) in cases.iter().enumerate() {
            if x != y {
                assert!(
                    a.function_id != b.function_id || a.input_len != b.input_len,
                    "duplicate case name: {} / {}",
                    a.function_id,
                    a.input_len
                );
            }
        }
    }
}

#[test]
fn function_ids_follow_the_naming_rule() {
    let cases = build_case_matrix();
    for case in &cases {
        let alg_name = match case.algorithm {
            AlgorithmId::Sha256 => "sha256",
            AlgorithmId::Sha384 => "sha384",
            AlgorithmId::Sha512 => "sha512",
        };
        let expected = match case.path {
            CallPath::Unaligned => format!("digest::oneshot::{alg_name}"),
            CallPath::Aligned => format!("digest::oneshot::{alg_name}_align"),
        };
        assert_eq!(case.function_id, expected);
        // The input length is reported as a separate parameter, never folded
        // into the name.
        assert!(!case.function_id.contains(&case.input_len.to_string()) || case.input_len == 0);
    }
}

#[test]
fn generation_order_is_stable_across_runs() {
    let first = build_case_matrix();
    let second = build_case_matrix();
    assert_eq!(first.len(), second.len());
    for (a, b) in first.iter().zip(second.iter()) {
        assert_eq!(a.algorithm, b.algorithm);
        assert_eq!(a.input_len, b.input_len);
        assert_eq!(a.path, b.path);
        assert_eq!(a.function_id, b.function_id);
    }
}

#[test]
fn generation_order_is_algorithms_outer_lengths_inner_paths_last() {
    let algs = algorithms();
    let lens = input_lengths();
    let cases = generate_cases(&algs, &lens);
    let mut k = 0;
    for &alg in &algs {
        for &len in &lens {
            assert_eq!(cases[k].algorithm, alg);
            assert_eq!(cases[k].input_len, len);
            assert_eq!(cases[k].path, CallPath::Unaligned);
            assert_eq!(cases[k + 1].algorithm, alg);
            assert_eq!(cases[k + 1].input_len, len);
            assert_eq!(cases[k + 1].path, CallPath::Aligned);
            k += 2;
        }
    }
    assert_eq!(k, cases.len());
}

#[test]
fn generate_cases_handles_single_cell() {
    let algs = vec![AlgorithmId::Sha512];
    let lens = vec![7usize];
    let cases = generate_cases(&algs, &lens);
    assert_eq!(cases.len(), 2);
    assert_eq!(cases[0].function_id, "digest::oneshot::sha512");
    assert_eq!(cases[0].input_len, 7);
    assert_eq!(cases[1].function_id, "digest::oneshot::sha512_align");
    assert_eq!(cases[1].input_len, 7);
}
