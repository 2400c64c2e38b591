use vstd::prelude::*;

verus! {

/// One pairing of a test with an engine, by their positions in the run's
/// list of tests and list of engines.
#[derive(Clone, Copy, Debug, PartialEq, Eq, Structural)]
pub struct Cell {
    pub test: usize,
    pub env: usize,
}

/// `cells` is the whole cross product of `n_tests` tests and `n_envs`
/// engines, test outer and engine inner: the cell at `t * n_envs + e` pairs
/// test `t` with engine `e`.
pub open spec fn is_matrix(cells: Seq<Cell>, n_tests: nat, n_envs: nat) -> bool {
    &&& cells.len() == n_tests * n_envs
    &&& forall|k: int|
        0 <= k < cells.len() ==> {
            &&& #[trigger] cells[k].test < n_tests
            &&& cells[k].env < n_envs
            &&& cells[k].test * n_envs + cells[k].env == k
        }
}

proof fn lemma_cell_position_unique(t: int, e: int, i: int, j: int, m: int)
    requires
        0 <= t,
        0 <= i,
        0 <= e < m,
        0 <= j < m,
        t * m + e == i * m + j,
    ensures
        t == i,
        e == j,
{
    if t < i {
        assert(t * m + m <= i * m) by (nonlinear_arith)
            requires
                t < i,
                m > 0,
        ;
    } else if t > i {
        assert(i * m + m <= t * m) by (nonlinear_arith)
            requires
                i < t,
                m > 0,
        ;
    }
}

/// In the cross product each pair has its own cell.
pub proof fn lemma_matrix_covers_pairs(cells: Seq<Cell>, n_tests: nat, n_envs: nat, t: nat, e: nat)
    requires
        is_matrix(cells, n_tests, n_envs),
        t < n_tests,
        e < n_envs,
    ensures
        t * n_envs + e < cells.len(),
        cells[(t * n_envs + e) as int] == (Cell { test: t as usize, env: e as usize }),
{
    let k = t * n_envs + e;
    assert(k < n_tests * n_envs) by (nonlinear_arith)
        requires
            k == t * n_envs + e,
            t < n_tests,
            e < n_envs,
    ;
    let c = cells[k as int];
    lemma_cell_position_unique(c.test as int, c.env as int, t as int, e as int, n_envs as int);
}

/// Enumerates every pairing of `n_tests` tests with `n_envs` engines, test
/// outer and engine inner, the same way on every run.
pub fn build_matrix(n_tests: usize, n_envs: usize) -> (r: Vec<Cell>)
    requires
        n_tests * n_envs <= usize::MAX,
    ensures
        is_matrix(r@, n_tests as nat, n_envs as nat),
{
    let mut r: Vec<Cell> = Vec::new();
    let mut t: usize = 0;
    while t < n_tests
        invariant
            t <= n_tests,
            n_tests * n_envs <= usize::MAX,
            r@.len() == t * n_envs,
            forall|k: int|
                0 <= k < r@.len() ==> {
                    &&& #[trigger] r@[k].test < t
                    &&& r@[k].env < n_envs
                    &&& r@[k].test * n_envs + r@[k].env == k
                },
        decreases n_tests - t,
    {
        let mut e: usize = 0;
        while e < n_envs
            invariant
                t < n_tests,
                e <= n_envs,
                n_tests * n_envs <= usize::MAX,
                r@.len() == t * n_envs + e,
                forall|k: int|
                    0 <= k < r@.len() ==> {
                        &&& #[trigger] r@[k].test <= t
                        &&& r@[k].env < n_envs
                        &&& r@[k].test * n_envs + r@[k].env == k
                    },
            decreases n_envs - e,
        {
            assert(t * n_envs + e < n_tests * n_envs) by (nonlinear_arith)
                requires
                    t < n_tests,
                    e < n_envs,
            ;
            r.push(Cell { test: t, env: e });
            e = e + 1;
        }
        assert(t * n_envs + n_envs == (t + 1) * n_envs) by (nonlinear_arith);
        t = t + 1;
    }
    r
}

} // verus!
