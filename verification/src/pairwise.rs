//! Pairwise distance matrices: which ordered pairs of vectors the kernel must
//! compare, and how their distances are laid out in the `n x n` row-major
//! result.
//!
//! The distance of a vector to itself is zero by definition and is never
//! computed; only the `n * (n - 1)` off-diagonal cells come from the kernel.
//! The zero distance is the all-zero bit pattern, which encodes the
//! double-precision value zero.

use vstd::prelude::*;

verus! {

/// The off-diagonal slot holding cell `(i, j)`, `i != j`: row-major order
/// with the diagonal skipped.
pub open spec fn pair_slot(n: int, i: int, j: int) -> int {
    i * (n - 1) + if j < i {
        j
    } else {
        j - 1
    }
}

/// The cell `(i, j)` of a flattened row-major `n x n` matrix.
pub open spec fn matrix_at(m: Seq<u64>, n: int, i: int, j: int) -> u64 {
    m[i * n + j]
}

/// Lists the ordered pairs `(i, j)` of distinct positions below `n`, in
/// row-major order with the diagonal skipped: exactly the comparisons a
/// pairwise distance matrix needs, in the slot order that
/// `assemble_distance_matrix` expects.
pub fn off_diagonal_pairs(n: usize) -> (r: Vec<(usize, usize)>)
    requires
        n * (n - 1) <= usize::MAX,
    ensures
        r@.len() == n * (n - 1),
        forall|i: int, j: int|
            0 <= i < n && 0 <= j < n && i != j ==> r@[pair_slot(n as int, i, j)] == (
            i as usize,
            j as usize,
        ),
        forall|k: int|
            0 <= k < r@.len() ==> ((#[trigger] r@[k]).0 < n && r@[k].1 < n && r@[k].0 != r@[k].1),
{
    let mut r: Vec<(usize, usize)> = Vec::new();
    if n == 0 {
        return r;
    }
    let mut i: usize = 0;
    while i < n
        invariant
            0 < n,
            i <= n,
            n * (n - 1) <= usize::MAX,
            r@.len() == i * (n - 1),
            forall|a: int, b: int|
                0 <= a < i && 0 <= b < n && a != b ==> r@[pair_slot(n as int, a, b)] == (
                a as usize,
                b as usize,
            ),
            forall|k: int|
                0 <= k < r@.len() ==> ((#[trigger] r@[k]).0 < n && r@[k].1 < n && r@[k].0
                    != r@[k].1),
        decreases n - i,
    {
        let mut j: usize = 0;
        while j < n
            invariant
                0 < n,
                i < n,
                j <= n,
                n * (n - 1) <= usize::MAX,
                r@.len() == i * (n - 1) + if j <= i {
                    j as int
                } else {
                    j - 1
                },
                forall|a: int, b: int|
                    0 <= a < i && 0 <= b < n && a != b ==> r@[pair_slot(n as int, a, b)] == (
                    a as usize,
                    b as usize,
                ),
                forall|b: int|
                    0 <= b < j && b != i ==> r@[pair_slot(n as int, i as int, b)] == (
                    i as usize,
                    b as usize,
                ),
                forall|k: int|
                    0 <= k < r@.len() ==> ((#[trigger] r@[k]).0 < n && r@[k].1 < n && r@[k].0
                        != r@[k].1),
            decreases n - j,
        {
            if i != j {
                proof {
                    assert(i * (n - 1) + (n - 1) == (i + 1) * (n - 1)) by (nonlinear_arith);
                    assert((i + 1) * (n - 1) <= n * (n - 1)) by (nonlinear_arith)
                        requires
                            0 <= i < n,
                    ;
                }
                let ghost old_r = r@;
                r.push((i, j));
                proof {
                    assert forall|a: int, b: int|
                        0 <= a < i && 0 <= b < n && a != b implies r@[pair_slot(n as int, a, b)]
                        == (a as usize, b as usize) by {
                        if b < a {
                            assert(a * (n - 1) + b < i * (n - 1)) by (nonlinear_arith)
                                requires
                                    0 <= b < a < i,
                                    i <= n,
                                    b < n,
                            ;
                        } else {
                            assert(a * (n - 1) + (b - 1) < i * (n - 1)) by (nonlinear_arith)
                                requires
                                    0 <= a < b < n,
                                    a < i,
                                    i <= n,
                            ;
                        }
                        assert(r@[pair_slot(n as int, a, b)] == old_r[pair_slot(n as int, a, b)]);
                    }
                    assert(r@[pair_slot(n as int, i as int, j as int)] == (i as usize, j as usize))
                        by {
                        assert(pair_slot(n as int, i as int, j as int) == old_r.len());
                    }
                }
            }
            j += 1;
        }
        proof {
            assert(i * (n - 1) + (n - 1) == (i + 1) * (n - 1)) by (nonlinear_arith);
        }
        i += 1;
    }
    proof {
        assert forall|k: int| 0 <= k < r@.len() implies ((#[trigger] r@[k]).0 < n && r@[k].1 < n
            && r@[k].0 != r@[k].1) by {}
    }
    r
}

/// Lays the off-diagonal distances out as the flattened `n x n` row-major
/// matrix, a zero on the diagonal. `off_diag` holds the distances in the
/// order of `off_diagonal_pairs`.
pub fn assemble_distance_matrix(n: usize, off_diag: &Vec<u64>) -> (r: Vec<u64>)
    requires
        off_diag@.len() == n * (n - 1),
        n * n <= usize::MAX,
    ensures
        r@.len() == n * n,
        forall|i: int| 0 <= i < n ==> #[trigger] matrix_at(r@, n as int, i, i) == 0u64,
        forall|i: int, j: int|
            0 <= i < n && 0 <= j < n && i != j ==> #[trigger] matrix_at(r@, n as int, i, j)
                == off_diag@[pair_slot(n as int, i, j)],
{
    let mut r: Vec<u64> = Vec::new();
    let mut i: usize = 0;
    while i < n
        invariant
            i <= n,
            off_diag@.len() == n * (n - 1),
            n * n <= usize::MAX,
            r@.len() == i * n,
            forall|a: int, b: int|
                0 <= a < i && 0 <= b < n ==> #[trigger] matrix_at(r@, n as int, a, b) == if a == b {
                    0u64
                } else {
                    off_diag@[pair_slot(n as int, a, b)]
                },
        decreases n - i,
    {
        let mut j: usize = 0;
        while j < n
            invariant
                i < n,
                j <= n,
                off_diag@.len() == n * (n - 1),
                n * n <= usize::MAX,
                r@.len() == i * n + j,
                forall|a: int, b: int|
                    0 <= a < i && 0 <= b < n ==> #[trigger] matrix_at(r@, n as int, a, b) == if a
                        == b {
                        0u64
                    } else {
                        off_diag@[pair_slot(n as int, a, b)]
                    },
                forall|b: int|
                    0 <= b < j ==> #[trigger] matrix_at(r@, n as int, i as int, b) == if i == b {
                        0u64
                    } else {
                        off_diag@[pair_slot(n as int, i as int, b)]
                    },
            decreases n - j,
        {
            proof {
                assert(i * n + j < n * n) by (nonlinear_arith)
                    requires
                        0 <= i < n,
                        0 <= j < n,
                ;
            }
            let ghost old_r = r@;
            if i == j {
                r.push(0u64);
            } else {
                proof {
                    assert(i * (n - 1) + (if j < i {
                        j as int
                    } else {
                        j - 1
                    }) < n * (n - 1)) by (nonlinear_arith)
                        requires
                            0 <= i < n,
                            0 <= j < n,
                            i != j,
                    ;
                }
                proof {
                    assert(n * (n - 1) <= n * n) by (nonlinear_arith);
                }
                let slot = if j < i {
                    proof {
                        assert(i * (n - 1) + j < n * (n - 1)) by (nonlinear_arith)
                            requires
                                0 <= j < i < n,
                        ;
                    }
                    i * (n - 1) + j
                } else {
                    proof {
                        assert(i * (n - 1) + (j - 1) < n * (n - 1)) by (nonlinear_arith)
                            requires
                                0 <= i < j < n,
                        ;
                    }
                    i * (n - 1) + (j - 1)
                };
                r.push(off_diag[slot]);
            }
            proof {
                assert forall|a: int, b: int| 0 <= a < i && 0 <= b < n implies #[trigger] matrix_at(
                    r@,
                    n as int,
                    a,
                    b,
                ) == (if a == b {
                    0u64
                } else {
                    off_diag@[pair_slot(n as int, a, b)]
                }) by {
                    assert(a * n + b < i * n + j) by (nonlinear_arith)
                        requires
                            0 <= a < i,
                            0 <= b < n,
                            0 <= j,
                    ;
                    assert(r@[a * n + b] == old_r[a * n + b]);
                    assert(matrix_at(old_r, n as int, a, b) == (if a == b {
                        0u64
                    } else {
                        off_diag@[pair_slot(n as int, a, b)]
                    }));
                }
                assert forall|b: int| 0 <= b < j + 1 implies #[trigger] matrix_at(
                    r@,
                    n as int,
                    i as int,
                    b,
                ) == (if i == b {
                    0u64
                } else {
                    off_diag@[pair_slot(n as int, i as int, b)]
                }) by {
                    if b < j {
                        assert(r@[i * n + b] == old_r[i * n + b]);
                        assert(matrix_at(old_r, n as int, i as int, b) == (if i == b {
                            0u64
                        } else {
                            off_diag@[pair_slot(n as int, i as int, b)]
                        }));
                    } else {
                        assert(r@[i * n + j] == r@[old_r.len() as int]);
                    }
                }
            }
            j += 1;
        }
        proof {
            assert(i * n + n == (i + 1) * n) by (nonlinear_arith);
        }
        i += 1;
    }
    r
}

} // verus!
