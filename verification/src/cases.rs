//! The case generator: the cross product of the algorithm registry and the
//! input-length matrix, one benchmark case per (algorithm, length, call
//! path) cell, each under a distinct name.

use vstd::arithmetic::div_mod::{
    lemma_div_pos_is_pos, lemma_fundamental_div_mod, lemma_fundamental_div_mod_converse,
    lemma_mod_bound,
};
use vstd::arithmetic::mul::lemma_mul_inequality;
use vstd::prelude::*;

use crate::registry::AlgorithmId;

verus! {

/// Which digest call path a case measures.
#[derive(Clone, Copy, PartialEq, Eq, Structural, Debug)]
pub enum CallPath {
    Unaligned,
    Aligned,
}

/// The function id under which a case's results are grouped: the operation,
/// the call path's group label (`oneshot` or `oneshot_align`), and the
/// algorithm's name. The input length is reported as a separate parameter,
/// not folded into this string.
pub open spec fn spec_function_id(alg: AlgorithmId, path: CallPath) -> Seq<char> {
    match (alg, path) {
        (AlgorithmId::Sha256, CallPath::Unaligned) => "digest::oneshot::sha256"@,
        (AlgorithmId::Sha384, CallPath::Unaligned) => "digest::oneshot::sha384"@,
        (AlgorithmId::Sha512, CallPath::Unaligned) => "digest::oneshot::sha512"@,
        (AlgorithmId::Sha256, CallPath::Aligned) => "digest::oneshot::sha256_align"@,
        (AlgorithmId::Sha384, CallPath::Aligned) => "digest::oneshot::sha384_align"@,
        (AlgorithmId::Sha512, CallPath::Aligned) => "digest::oneshot::sha512_align"@,
    }
}

proof fn lemma_function_id_shape(a: AlgorithmId, p: CallPath)
    ensures
        spec_function_id(a, p).len() == (if p == CallPath::Unaligned {
            23int
        } else {
            29int
        }),
        spec_function_id(a, p)[20] == (match a {
            AlgorithmId::Sha256 => '2',
            AlgorithmId::Sha384 => '3',
            AlgorithmId::Sha512 => '5',
        }),
{
    reveal_strlit("digest::oneshot::sha256");
    reveal_strlit("digest::oneshot::sha384");
    reveal_strlit("digest::oneshot::sha512");
    reveal_strlit("digest::oneshot::sha256_align");
    reveal_strlit("digest::oneshot::sha384_align");
    reveal_strlit("digest::oneshot::sha512_align");
}

/// Distinct (algorithm, path) pairs get distinct function ids.
pub proof fn lemma_function_id_injective(
    a1: AlgorithmId,
    p1: CallPath,
    a2: AlgorithmId,
    p2: CallPath,
)
    requires
        spec_function_id(a1, p1) == spec_function_id(a2, p2),
    ensures
        a1 == a2 && p1 == p2,
{
    lemma_function_id_shape(a1, p1);
    lemma_function_id_shape(a2, p2);
}

/// The function id of a case, as a string: `spec_function_id`, exactly.
pub fn case_function_id(alg: AlgorithmId, path: CallPath) -> (r: String)
    ensures
        r@ == spec_function_id(alg, path),
{
    match (alg, path) {
        (AlgorithmId::Sha256, CallPath::Unaligned) => "digest::oneshot::sha256".to_owned(),
        (AlgorithmId::Sha384, CallPath::Unaligned) => "digest::oneshot::sha384".to_owned(),
        (AlgorithmId::Sha512, CallPath::Unaligned) => "digest::oneshot::sha512".to_owned(),
        (AlgorithmId::Sha256, CallPath::Aligned) => "digest::oneshot::sha256_align".to_owned(),
        (AlgorithmId::Sha384, CallPath::Aligned) => "digest::oneshot::sha384_align".to_owned(),
        (AlgorithmId::Sha512, CallPath::Aligned) => "digest::oneshot::sha512_align".to_owned(),
    }
}

/// One fully specified measurement request: which algorithm to run, the
/// nominal input length, the call path, and the function id under which the
/// external engine keys the results.
pub struct BenchmarkCase {
    pub algorithm: AlgorithmId,
    pub input_len: usize,
    pub path: CallPath,
    pub function_id: String,
}

impl BenchmarkCase {
    /// The name under which the external engine keys this case's results:
    /// the function id together with the reported input length.
    pub open spec fn spec_key(self) -> (Seq<char>, int) {
        (self.function_id@, self.input_len as int)
    }

    /// The function id matches the case's algorithm and call path.
    pub open spec fn wf(self) -> bool {
        self.function_id@ == spec_function_id(self.algorithm, self.path)
    }
}

/// Do the two cases of the cell (`i`, `j`) stand at their generation-order
/// indices in `cases`, unaligned first, both well-formed?
pub open spec fn cell_matches(
    algs: Seq<AlgorithmId>,
    lens: Seq<usize>,
    cases: Seq<BenchmarkCase>,
    i: int,
    j: int,
) -> bool {
    let k = 2 * (i * lens.len() as int + j);
    &&& cases[k].algorithm == algs[i]
    &&& cases[k].input_len == lens[j]
    &&& cases[k].path == CallPath::Unaligned
    &&& cases[k].wf()
    &&& cases[k + 1].algorithm == algs[i]
    &&& cases[k + 1].input_len == lens[j]
    &&& cases[k + 1].path == CallPath::Aligned
    &&& cases[k + 1].wf()
}

/// Does `cases` hold exactly the cross product of `algs`, `lens` and the two
/// call paths, in generation order: algorithms outer, lengths inner, and for
/// each cell the unaligned case directly before the aligned one?
pub open spec fn is_case_matrix(
    algs: Seq<AlgorithmId>,
    lens: Seq<usize>,
    cases: Seq<BenchmarkCase>,
) -> bool {
    &&& cases.len() == algs.len() * lens.len() * 2
    &&& forall|i: int, j: int|
        0 <= i < algs.len() && 0 <= j < lens.len() ==> #[trigger] cell_matches(
            algs,
            lens,
            cases,
            i,
            j,
        )
}

proof fn lemma_cell_index_bound(i2: int, j2: int, i: int, j: int, l: int)
    requires
        0 <= j2 < l,
        0 <= i2,
        0 <= j,
        i2 < i || (i2 == i && j2 < j),
    ensures
        2 * (i2 * l + j2) + 1 < 2 * (i * l + j),
{
    if i2 < i {
        assert(i2 * l + j2 < i * l + j) by (nonlinear_arith)
            requires
                0 <= j2 < l,
                0 <= i2,
                0 <= j,
                i2 < i,
        ;
    }
}

/// Generates the benchmark matrix: for every algorithm of the registry and
/// every length of the matrix, exactly one unaligned case immediately
/// followed by one aligned case, in the registry's and the matrix's order.
pub fn generate_cases(algs: &Vec<AlgorithmId>, lens: &Vec<usize>) -> (r: Vec<BenchmarkCase>)
    requires
        algs@.len() > 0,
        lens@.len() > 0,
        algs@.len() * lens@.len() * 2 <= usize::MAX,
    ensures
        is_case_matrix(algs@, lens@, r@),
{
    let ghost l = lens@.len() as int;
    let mut cases: Vec<BenchmarkCase> = Vec::new();
    let mut i: usize = 0;
    while i < algs.len()
        invariant
            0 <= i <= algs@.len(),
            l == lens@.len() as int,
            algs@.len() * lens@.len() * 2 <= usize::MAX,
            cases@.len() == 2 * ((i as int) * l),
            forall|i2: int, j2: int|
                0 <= i2 < i && 0 <= j2 < l ==> #[trigger] cell_matches(
                    algs@,
                    lens@,
                    cases@,
                    i2,
                    j2,
                ),
        decreases algs@.len() - i,
    {
        let alg = algs[i];
        let mut j: usize = 0;
        while j < lens.len()
            invariant
                0 <= j <= lens@.len(),
                0 <= i < algs@.len(),
                l == lens@.len() as int,
                alg == algs@[i as int],
                algs@.len() * lens@.len() * 2 <= usize::MAX,
                cases@.len() == 2 * ((i as int) * l + j as int),
                forall|i2: int, j2: int|
                    0 <= i2 < algs@.len() && 0 <= j2 < l && (i2 < i || (i2 == i && j2 < j))
                        ==> #[trigger] cell_matches(algs@, lens@, cases@, i2, j2),
            decreases lens@.len() - j,
        {
            let input_len = lens[j];
            let case_u = BenchmarkCase {
                algorithm: alg,
                input_len,
                path: CallPath::Unaligned,
                function_id: case_function_id(alg, CallPath::Unaligned),
            };
            let case_a = BenchmarkCase {
                algorithm: alg,
                input_len,
                path: CallPath::Aligned,
                function_id: case_function_id(alg, CallPath::Aligned),
            };
            let ghost old_cases = cases@;
            cases.push(case_u);
            cases.push(case_a);
            proof {
                assert(cases@ == old_cases.push(case_u).push(case_a));
                assert forall|i2: int, j2: int|
                    0 <= i2 < algs@.len() && 0 <= j2 < l && (i2 < i || (i2 == i && j2 <= j))
                        implies #[trigger] cell_matches(algs@, lens@, cases@, i2, j2) by {
                    let k = 2 * (i2 * l + j2);
                    if i2 < i || (i2 == i && j2 < j) {
                        assert(cell_matches(algs@, lens@, old_cases, i2, j2));
                        lemma_cell_index_bound(i2, j2, i as int, j as int, l);
                        assert(cases@[k] == old_cases[k]);
                        assert(cases@[k + 1] == old_cases[k + 1]);
                    } else {
                        assert(i2 == i && j2 == j);
                        assert(k == old_cases.len() as int);
                        assert(cases@[k] == case_u);
                        assert(cases@[k + 1] == case_a);
                    }
                }
            }
            j += 1;
        }
        proof {
            assert(2 * ((i as int) * l + l) == 2 * ((i as int + 1) * l)) by (nonlinear_arith);
        }
        i += 1;
    }
    proof {
        assert(cases@.len() == algs@.len() * lens@.len() * 2) by (nonlinear_arith)
            requires
                cases@.len() == 2 * ((algs@.len() as int) * l),
                l == lens@.len() as int,
        ;
    }
    cases
}

/// The full benchmark matrix of this harness: the fixed algorithm registry
/// crossed with the fixed input-length matrix, two call paths per cell —
/// 24 cases.
pub fn build_case_matrix() -> (r: Vec<BenchmarkCase>)
    ensures
        is_case_matrix(
            crate::registry::spec_algorithms(),
            crate::registry::spec_input_lengths(),
            r@,
        ),
        r@.len() == 24,
{
    let algs = crate::registry::algorithms();
    let lens = crate::registry::input_lengths();
    proof {
        assert(algs@.len() == 3);
        assert(lens@.len() == 4);
        assert(algs@.len() * lens@.len() * 2 == 24) by (nonlinear_arith)
            requires
                algs@.len() == 3,
                lens@.len() == 4,
        ;
    }
    generate_cases(&algs, &lens)
}

/// Reading the matrix back: the case at index `k` belongs to the cell that
/// generation order assigns to `k` — algorithm `k / (2·|lens|)`, length
/// `(k % (2·|lens|)) / 2`, the unaligned path at even indices and the
/// aligned path at odd ones.
pub proof fn lemma_case_at(
    algs: Seq<AlgorithmId>,
    lens: Seq<usize>,
    cases: Seq<BenchmarkCase>,
    k: int,
)
    requires
        is_case_matrix(algs, lens, cases),
        0 <= k < cases.len(),
    ensures
        ({
            let l = lens.len() as int;
            let i = k / (2 * l);
            let j = (k % (2 * l)) / 2;
            &&& 0 <= i < algs.len()
            &&& 0 <= j < lens.len()
            &&& k % 2 == k - 2 * (i * l + j)
            &&& 0 <= k % 2 < 2
            &&& cases[k].algorithm == algs[i]
            &&& cases[k].input_len == lens[j]
            &&& cases[k].path == (if k % 2 == 0 {
                CallPath::Unaligned
            } else {
                CallPath::Aligned
            })
            &&& cases[k].wf()
        }),
{
    let l = lens.len() as int;
    let a = algs.len() as int;
    assert(l > 0 && a > 0) by (nonlinear_arith)
        requires
            0 <= k < a * l * 2,
            0 <= a,
            0 <= l,
    ;
    let d = 2 * l;
    let i = k / d;
    let r = k % d;
    lemma_fundamental_div_mod(k, d);
    lemma_mod_bound(k, d);
    lemma_div_pos_is_pos(k, d);
    assert(i < a) by {
        if i >= a {
            lemma_mul_inequality(a, i, d);
            assert(a * d <= i * d);
            assert(k == d * i + r);
            assert(a * d == a * l * 2) by (nonlinear_arith)
                requires
                    d == 2 * l,
            ;
            assert(d * i == i * d) by (nonlinear_arith);
        }
    }
    let j = r / 2;
    let p = r % 2;
    lemma_fundamental_div_mod(r, 2);
    lemma_mod_bound(r, 2);
    lemma_div_pos_is_pos(r, 2);
    assert(j < l);
    assert(k == 2 * (i * l + j) + p) by (nonlinear_arith)
        requires
            k == d * i + r,
            d == 2 * l,
            r == 2 * j + p,
    ;
    lemma_fundamental_div_mod_converse(k, 2, i * l + j, p);
    assert(cell_matches(algs, lens, cases, i, j));
}

/// Every generated case name — the function id together with the reported
/// input length — is pairwise distinct across the whole matrix, provided the
/// registry holds no algorithm and the matrix no length twice.
pub proof fn lemma_case_keys_distinct(
    algs: Seq<AlgorithmId>,
    lens: Seq<usize>,
    cases: Seq<BenchmarkCase>,
)
    requires
        is_case_matrix(algs, lens, cases),
        forall|x: int, y: int| 0 <= x < algs.len() && 0 <= y < algs.len() && x != y ==> algs[x]
            != algs[y],
        forall|x: int, y: int| 0 <= x < lens.len() && 0 <= y < lens.len() && x != y ==> lens[x]
            != lens[y],
    ensures
        forall|k1: int, k2: int|
            0 <= k1 < cases.len() && 0 <= k2 < cases.len() && k1 != k2
                ==> #[trigger] cases[k1].spec_key() != #[trigger] cases[k2].spec_key(),
{
    let l = lens.len() as int;
    assert forall|k1: int, k2: int|
        0 <= k1 < cases.len() && 0 <= k2 < cases.len() && k1 != k2
            implies #[trigger] cases[k1].spec_key() != #[trigger] cases[k2].spec_key() by {
        lemma_case_at(algs, lens, cases, k1);
        lemma_case_at(algs, lens, cases, k2);
        let i1 = k1 / (2 * l);
        let j1 = (k1 % (2 * l)) / 2;
        let i2 = k2 / (2 * l);
        let j2 = (k2 % (2 * l)) / 2;
        if cases[k1].spec_key() == cases[k2].spec_key() {
            lemma_function_id_injective(
                cases[k1].algorithm,
                cases[k1].path,
                cases[k2].algorithm,
                cases[k2].path,
            );
            assert(algs[i1] == algs[i2]);
            assert(i1 == i2);
            assert(lens[j1] == lens[j2]);
            assert(j1 == j2);
            assert(k1 % 2 == k2 % 2);
            assert(k1 == k2);
        }
    }
}

/// Exactly one unaligned and one aligned case exist for each cell of the
/// matrix: the two generated at the cell's indices, and no others.
pub proof fn lemma_exactly_one_case_per_cell(
    algs: Seq<AlgorithmId>,
    lens: Seq<usize>,
    cases: Seq<BenchmarkCase>,
    i: int,
    j: int,
)
    requires
        is_case_matrix(algs, lens, cases),
        forall|x: int, y: int| 0 <= x < algs.len() && 0 <= y < algs.len() && x != y ==> algs[x]
            != algs[y],
        forall|x: int, y: int| 0 <= x < lens.len() && 0 <= y < lens.len() && x != y ==> lens[x]
            != lens[y],
        0 <= i < algs.len(),
        0 <= j < lens.len(),
    ensures
        ({
            let k = 2 * (i * lens.len() as int + j);
            &&& 0 <= k && k + 1 < cases.len()
            &&& cell_matches(algs, lens, cases, i, j)
            &&& forall|k2: int|
                0 <= k2 < cases.len() && #[trigger] cases[k2].algorithm == algs[i]
                    && cases[k2].input_len == lens[j] ==> k2 == k || k2 == k + 1
        }),
{
    let l = lens.len() as int;
    let k = 2 * (i * l + j);
    assert(cell_matches(algs, lens, cases, i, j));
    assert(k >= 0 && k + 1 < cases.len()) by (nonlinear_arith)
        requires
            cases.len() == algs.len() * lens.len() * 2,
            0 <= i < algs.len(),
            0 <= j < l,
            l == lens.len() as int,
            k == 2 * (i * l + j),
    ;
    assert forall|k2: int|
        0 <= k2 < cases.len() && #[trigger] cases[k2].algorithm == algs[i]
            && cases[k2].input_len == lens[j] implies k2 == k || k2 == k + 1 by {
        lemma_case_at(algs, lens, cases, k2);
        let i2 = k2 / (2 * l);
        let j2 = (k2 % (2 * l)) / 2;
        assert(algs[i2] == algs[i]);
        assert(i2 == i);
        assert(lens[j2] == lens[j]);
        assert(j2 == j);
    }
}

} // verus!
