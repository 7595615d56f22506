//! The Jacobi iterative solver for a square linear system `Ax = b`.
//!
//! An [`Equation`] carries the coefficient matrix, the right-hand side, the
//! current approximation and the solver configuration, every real number as
//! an IEEE 754 binary64 bit pattern (see [`crate::fp`]). Solving checks
//! diagonal dominance, rewrites the system into the fixed-point form
//! `x = Cx + d`, and iterates from the zero vector until two successive
//! approximations differ by at most `epsilon` in the infinity norm, or the
//! iteration cap is spent.
//!
//! The whole outcome is pinned down by the spec-level model [`solve_model`]:
//! a function of the input bit patterns alone.

use crate::fp::{
    abs_bits, add_bits, div_bits, fp_abs, fp_add, fp_div, fp_is_zero, fp_le, fp_lt, fp_max,
    fp_mul, fp_neg, fp_sub, is_zero_bits, le_bits, lt_bits, max_bits, mul_bits, neg_bits,
    sub_bits, ZERO_BITS,
};
use vstd::prelude::*;

verus! {

/// A square linear system together with the solver configuration and the
/// latest approximation of its solution.
///
/// `matrix[i][j]` is the coefficient of the unknown `x_j` in equation `i`
/// (row-major). Each entry is the bit pattern of an IEEE 754 double.
pub struct Equation {
    pub matrix: Vec<Vec<u64>>,
    pub res_vec: Vec<u64>,
    pub solve: Option<Vec<u64>>,
    pub max_iterations: usize,
    pub epsilon: u64,
}

/// Why a solve refused or gave up on a system.
pub enum SolveError {
    /// A zero pivot was met while building the iteration form.
    ZerosOnDiagonal,
    /// The iteration cap was spent without convergence; carries the last
    /// approximation computed.
    OutOfMaxIterations(Vec<u64>),
    /// The matrix is not diagonally dominant, so convergence is not
    /// guaranteed and solving is refused outright.
    NotDiagonalDominant,
}

/// The matrix as a sequence of rows of bit patterns.
pub open spec fn mat_view(m: Seq<Vec<u64>>) -> Seq<Seq<u64>> {
    m.map_values(|row: Vec<u64>| row@)
}

impl Equation {
    /// The dimension of the system.
    pub open spec fn n(self) -> int {
        self.res_vec@.len() as int
    }

    /// The coefficient matrix as a sequence of rows.
    pub open spec fn mat(self) -> Seq<Seq<u64>> {
        mat_view(self.matrix@)
    }

    /// The current approximation, if one has been set.
    pub open spec fn sol(self) -> Option<Seq<u64>> {
        match self.solve {
            Some(s) => Some(s@),
            None => None,
        }
    }

    /// The current approximation vector; meaningful once one is set.
    pub open spec fn approx(self) -> Seq<u64>
        recommends
            self.solve is Some,
    {
        match self.solve {
            Some(s) => s@,
            None => Seq::empty(),
        }
    }

    /// Well-formedness: at least one equation, a square matrix whose row
    /// count matches the right-hand side, and an approximation (when present)
    /// of the same length.
    pub open spec fn wf(self) -> bool {
        &&& self.n() >= 1
        &&& self.matrix@.len() == self.n()
        &&& (forall|i: int| 0 <= i < self.n() ==> #[trigger] self.matrix@[i]@.len() == self.n())
        &&& (match self.solve {
            Some(s) => s@.len() == self.n(),
            None => true,
        })
    }
}

/// The sum `|row[0]| + ... + |row[k-1]|`, with the entry at the diagonal
/// position `i` contributing a zero term, accumulated left to right exactly
/// as the dominance check adds it up.
pub open spec fn row_abs_sum_upto(row: Seq<u64>, i: int, k: int) -> u64
    decreases k,
{
    if k <= 0 {
        ZERO_BITS
    } else {
        add_bits(
            row_abs_sum_upto(row, i, k - 1),
            if k - 1 == i {
                ZERO_BITS
            } else {
                abs_bits(row[k - 1])
            },
        )
    }
}

/// The full off-diagonal absolute row sum of row `i`.
pub open spec fn off_diagonal_abs_sum(row: Seq<u64>, i: int) -> u64 {
    row_abs_sum_upto(row, i, row.len() as int)
}

/// Row `i` is diagonally dominant: its diagonal magnitude is not below the
/// sum of the other magnitudes in the row.
pub open spec fn row_is_dominant(m: Seq<Seq<u64>>, i: int) -> bool {
    !lt_bits(abs_bits(m[i][i]), off_diagonal_abs_sum(m[i], i))
}

/// Every row of the matrix is diagonally dominant.
pub open spec fn is_dominant(m: Seq<Seq<u64>>) -> bool {
    forall|i: int| 0 <= i < m.len() ==> #[trigger] row_is_dominant(m, i)
}

/// No row below `k` has a zero diagonal entry.
pub open spec fn zero_free_below(m: Seq<Seq<u64>>, k: int) -> bool {
    forall|i: int| 0 <= i < k ==> !is_zero_bits(#[trigger] m[i][i])
}

/// Some row of the matrix has a zero diagonal entry, where "zero" is what an
/// IEEE 754 equality against `0.0` accepts: either of the two zeros.
pub open spec fn has_zero_diagonal(m: Seq<Seq<u64>>) -> bool {
    exists|i: int| 0 <= i < m.len() && is_zero_bits(#[trigger] m[i][i])
}

/// Row `i` of the original matrix rewritten into iteration form: the diagonal
/// entry becomes zero and every other entry `a` becomes `-a / row[i]`.
pub open spec fn transformed_row(row: Seq<u64>, i: int) -> Seq<u64> {
    Seq::new(
        row.len(),
        |j: int|
            if j == i {
                ZERO_BITS
            } else {
                div_bits(neg_bits(row[j]), row[i])
            },
    )
}

/// The whole iteration matrix `C` built from the original matrix.
pub open spec fn transformed_matrix(m: Seq<Seq<u64>>) -> Seq<Seq<u64>> {
    Seq::new(m.len(), |i: int| transformed_row(m[i], i))
}

/// The iteration vector `d`: each right-hand side entry divided by the
/// original diagonal entry of its row.
pub open spec fn transformed_vector(m: Seq<Seq<u64>>, b: Seq<u64>) -> Seq<u64> {
    Seq::new(b.len(), |i: int| div_bits(b[i], m[i][i]))
}

/// The matrix after the transformation has handled the rows below `upto` and
/// left the rest untouched.
pub open spec fn partially_transformed_matrix(m: Seq<Seq<u64>>, upto: int) -> Seq<Seq<u64>> {
    Seq::new(
        m.len(),
        |i: int|
            if i < upto {
                transformed_row(m[i], i)
            } else {
                m[i]
            },
    )
}

/// The right-hand side after the transformation has handled the rows below
/// `upto` and left the rest untouched.
pub open spec fn partially_transformed_vector(m: Seq<Seq<u64>>, b: Seq<u64>, upto: int) -> Seq<
    u64,
> {
    Seq::new(
        b.len(),
        |i: int|
            if i < upto {
                div_bits(b[i], m[i][i])
            } else {
                b[i]
            },
    )
}

/// The state a failed transformation leaves behind: every row below the first
/// zero pivot is already rewritten, the rest is as it was.
pub open spec fn stopped_at_zero_pivot(
    pre_m: Seq<Seq<u64>>,
    pre_b: Seq<u64>,
    m: Seq<Seq<u64>>,
    b: Seq<u64>,
) -> bool {
    exists|i: int|
        {
            &&& 0 <= i < pre_m.len()
            &&& is_zero_bits(#[trigger] pre_m[i][i])
            &&& zero_free_below(pre_m, i)
            &&& m == partially_transformed_matrix(pre_m, i)
            &&& b == partially_transformed_vector(pre_m, pre_b, i)
        }
}

impl Equation {
    /// Builds a validated system from its parts. The dimensions are checked
    /// here, before anything can reach the solver: the right-hand side must
    /// have at least one entry, and the matrix must be square with as many
    /// rows as the vector has entries. A mismatch yields `None` and nothing
    /// else happens.
    pub fn try_new(
        matrix: Vec<Vec<u64>>,
        res_vec: Vec<u64>,
        max_iterations: usize,
        epsilon: u64,
    ) -> (r: Option<Equation>)
        ensures
            r is Some <==> {
                &&& res_vec@.len() >= 1
                &&& matrix@.len() == res_vec@.len()
                &&& (forall|i: int|
                    0 <= i < matrix@.len() ==> #[trigger] matrix@[i]@.len() == res_vec@.len())
            },
            r matches Some(eq) ==> {
                &&& eq.wf()
                &&& eq.mat() == mat_view(matrix@)
                &&& eq.res_vec@ == res_vec@
                &&& eq.solve is None
                &&& eq.max_iterations == max_iterations
                &&& eq.epsilon == epsilon
            },
    {
        let res_size = res_vec.len();
        if res_size == 0 || matrix.len() != res_size {
            return None;
        }
        let mut i: usize = 0;
        while i < res_size
            invariant
                res_size == res_vec@.len(),
                matrix@.len() == res_size,
                0 <= i <= res_size,
                forall|t: int| 0 <= t < i ==> #[trigger] matrix@[t]@.len() == res_size,
            decreases res_size - i,
        {
            if matrix[i].len() != res_size {
                return None;
            }
            i += 1;
        }
        Some(Equation { matrix, res_vec, solve: None, max_iterations, epsilon })
    }

    /// Solves the system in place by Jacobi iteration.
    ///
    /// The run follows [`solve_model`] on the original matrix, right-hand
    /// side, `epsilon` and `max_iterations`, exactly:
    /// - a matrix that is not diagonally dominant is refused outright with
    ///   `NotDiagonalDominant`, before any transformation, and the system is
    ///   left untouched;
    /// - a zero pivot aborts the transformation with `ZerosOnDiagonal`,
    ///   leaving exactly the rows before the first zero pivot rewritten and
    ///   the approximation as it was;
    /// - otherwise the system now holds the iteration form `x = Cx + d`, the
    ///   approximation starts at the zero vector, and after the first step
    ///   `k <= max_iterations` whose infinity-norm change is at most
    ///   `epsilon` the call returns `Ok` with the approximation after step
    ///   `k` stored in `solve`;
    /// - when no step within the cap passes the test, the call fails with
    ///   `OutOfMaxIterations` carrying the approximation after the last
    ///   permitted step, which also stays in `solve`.
    #[verifier::loop_isolation(false)]
    pub fn try_solve(&mut self) -> (r: Result<(), SolveError>)
        requires
            old(self).wf(),
        ensures
            final(self).wf(),
            final(self).n() == old(self).n(),
            final(self).max_iterations == old(self).max_iterations,
            final(self).epsilon == old(self).epsilon,
            match solve_model(
                old(self).mat(),
                old(self).res_vec@,
                old(self).epsilon,
                old(self).max_iterations as nat,
            ) {
                SolveModel::NotDominant => {
                    &&& r matches Err(SolveError::NotDiagonalDominant)
                    &&& final(self).mat() == old(self).mat()
                    &&& final(self).res_vec@ == old(self).res_vec@
                    &&& final(self).sol() == old(self).sol()
                },
                SolveModel::ZeroDiagonal => {
                    &&& r matches Err(SolveError::ZerosOnDiagonal)
                    &&& stopped_at_zero_pivot(
                        old(self).mat(),
                        old(self).res_vec@,
                        final(self).mat(),
                        final(self).res_vec@,
                    )
                    &&& final(self).sol() == old(self).sol()
                },
                SolveModel::Converged(x) => {
                    &&& r matches Ok(())
                    &&& final(self).sol() == Some(x)
                    &&& final(self).mat() == transformed_matrix(old(self).mat())
                    &&& final(self).res_vec@ == transformed_vector(
                        old(self).mat(),
                        old(self).res_vec@,
                    )
                },
                SolveModel::OutOfIterations(x) => {
                    &&& r matches Err(SolveError::OutOfMaxIterations(v)) && v@ == x
                    &&& final(self).sol() == Some(x)
                    &&& final(self).mat() == transformed_matrix(old(self).mat())
                    &&& final(self).res_vec@ == transformed_vector(
                        old(self).mat(),
                        old(self).res_vec@,
                    )
                },
            },
    {
        if !self.is_dominant_diagonal() {
            return Err(SolveError::NotDiagonalDominant);
        }
        if let Err(e) = self.as_simple_iterations() {
            return Err(e);
        }
        self.as_zero_solved();
        let ghost c = self.mat();
        let ghost d = self.res_vec@;
        let ghost eps = self.epsilon;
        let ghost cap = self.max_iterations as nat;
        assert(self.approx() =~= iterate(c, d, 0));
        let mut iteration: usize = 0;
        while iteration < self.max_iterations
            invariant
                self.wf(),
                self.solve is Some,
                self.mat() == c,
                self.res_vec@ == d,
                self.epsilon == eps,
                self.max_iterations as nat == cap,
                self.n() == d.len(),
                0 <= iteration as nat <= cap,
                self.approx() == iterate(c, d, iteration as nat),
                forall|t: nat| 1 <= t <= iteration as nat ==> !converged_at(c, d, eps, t),
            decreases cap - iteration as nat,
        {
            let new_iteration_solve = self.get_next_solve();
            assert(new_iteration_solve@ == iterate(c, d, (iteration + 1) as nat));
            let accurate = self.is_accurate_enough(&new_iteration_solve);
            assert(accurate == converged_at(c, d, eps, (iteration + 1) as nat));
            self.solve = Some(new_iteration_solve);
            iteration += 1;
            if accurate {
                proof {
                    lemma_run_from_skip(c, d, eps, cap, iteration as nat);
                    assert(run_from(c, d, eps, cap, 1) == SolveModel::Converged(
                        iterate(c, d, iteration as nat),
                    ));
                }
                return Ok(());
            }
        }
        proof {
            lemma_run_from_skip(c, d, eps, cap, cap + 1);
            assert(run_from(c, d, eps, cap, 1) == SolveModel::OutOfIterations(iterate(c, d, cap)));
        }
        let last = match &self.solve {
            Some(s) => s.clone(),
            None => unreached(),
        };
        Err(SolveError::OutOfMaxIterations(last))
    }

    /// The diagonal dominance check: true iff for every row `i`,
    /// `|A[i][i]| >= sum over j != i of |A[i][j]|`.
    ///
    /// A pure predicate over the matrix; a necessary precondition for
    /// guaranteed Jacobi convergence, tested before any transformation.
    fn is_dominant_diagonal(&self) -> (r: bool)
        requires
            self.wf(),
        ensures
            r == is_dominant(self.mat()),
    {
        let n = self.res_vec.len();
        let mut i: usize = 0;
        while i < n
            invariant
                self.wf(),
                n == self.n(),
                0 <= i <= n,
                forall|t: int| 0 <= t < i ==> #[trigger] row_is_dominant(self.mat(), t),
            decreases n - i,
        {
            let mut sum: u64 = ZERO_BITS;
            let mut j: usize = 0;
            while j < n
                invariant
                    self.wf(),
                    n == self.n(),
                    0 <= i < n,
                    0 <= j <= n,
                    sum == row_abs_sum_upto(self.mat()[i as int], i as int, j as int),
                decreases n - j,
            {
                let contribution = if j != i {
                    fp_abs(self.matrix[i][j])
                } else {
                    ZERO_BITS
                };
                sum = fp_add(sum, contribution);
                j += 1;
            }
            if fp_lt(fp_abs(self.matrix[i][i]), sum) {
                assert(!row_is_dominant(self.mat(), i as int));
                return false;
            }
            i += 1;
        }
        true
    }

    /// Rewrites `Ax = b` in place into the fixed-point form `x = Cx + d`:
    /// for each row `i` with pivot `p = A[i][i]`, every off-diagonal entry
    /// `A[i][j]` becomes `-A[i][j] / p`, the diagonal becomes zero, and
    /// `b[i]` becomes `b[i] / p`. A zero pivot aborts on the spot with
    /// `ZerosOnDiagonal`, leaving the rows before it already rewritten.
    #[verifier::loop_isolation(false)]
    fn as_simple_iterations(&mut self) -> (r: Result<(), SolveError>)
        requires
            old(self).wf(),
        ensures
            final(self).wf(),
            final(self).sol() == old(self).sol(),
            final(self).max_iterations == old(self).max_iterations,
            final(self).epsilon == old(self).epsilon,
            final(self).n() == old(self).n(),
            match r {
                Ok(()) => {
                    &&& !has_zero_diagonal(old(self).mat())
                    &&& final(self).mat() == transformed_matrix(old(self).mat())
                    &&& final(self).res_vec@ == transformed_vector(
                        old(self).mat(),
                        old(self).res_vec@,
                    )
                },
                Err(e) => {
                    &&& e matches SolveError::ZerosOnDiagonal
                    &&& has_zero_diagonal(old(self).mat())
                    &&& stopped_at_zero_pivot(
                        old(self).mat(),
                        old(self).res_vec@,
                        final(self).mat(),
                        final(self).res_vec@,
                    )
                },
            },
    {
        let ghost pre_m = old(self).mat();
        let ghost pre_b = old(self).res_vec@;
        let matrix_size = self.matrix.len();
        let mut i: usize = 0;
        while i < matrix_size
            invariant
                matrix_size == pre_m.len(),
                self.n() == matrix_size,
                self.matrix@.len() == matrix_size,
                forall|t: int|
                    0 <= t < matrix_size ==> #[trigger] self.matrix@[t]@.len() == matrix_size,
                0 <= i <= matrix_size,
                zero_free_below(pre_m, i as int),
                self.mat() == partially_transformed_matrix(pre_m, i as int),
                self.res_vec@ == partially_transformed_vector(pre_m, pre_b, i as int),
                self.solve == old(self).solve,
                self.max_iterations == old(self).max_iterations,
                self.epsilon == old(self).epsilon,
            decreases matrix_size - i,
        {
            assert(self.mat()[i as int] == pre_m[i as int]);
            let diagonal_el = self.matrix[i][i];
            if fp_is_zero(diagonal_el) {
                assert(is_zero_bits(pre_m[i as int][i as int]));
                assert(has_zero_diagonal(pre_m));
                assert(stopped_at_zero_pivot(pre_m, pre_b, self.mat(), self.res_vec@));
                return Err(SolveError::ZerosOnDiagonal);
            }
            let mut j: usize = 0;
            while j < matrix_size
                invariant
                    matrix_size == pre_m.len(),
                    self.matrix@.len() == matrix_size,
                    forall|t: int|
                        0 <= t < matrix_size ==> #[trigger] self.matrix@[t]@.len() == matrix_size,
                    0 <= i < matrix_size,
                    0 <= j <= matrix_size,
                    self.n() == matrix_size,
                    self.res_vec@ == partially_transformed_vector(pre_m, pre_b, i as int),
                    self.solve == old(self).solve,
                    self.max_iterations == old(self).max_iterations,
                    self.epsilon == old(self).epsilon,
                    diagonal_el == pre_m[i as int][i as int],
                    forall|t: int|
                        0 <= t < matrix_size && t != i ==> self.mat()[t]
                            == #[trigger] partially_transformed_matrix(pre_m, i as int)[t],
                    forall|u: int|
                        0 <= u < j ==> self.mat()[i as int][u] == #[trigger] transformed_row(
                            pre_m[i as int],
                            i as int,
                        )[u],
                    forall|u: int|
                        j <= u < matrix_size ==> self.mat()[i as int][u]
                            == #[trigger] pre_m[i as int][u],
                decreases matrix_size - j,
            {
                let replacement = if i != j {
                    fp_div(fp_neg(self.matrix[i][j]), diagonal_el)
                } else {
                    ZERO_BITS
                };
                let ghost prev_rows = self.matrix@;
                let ghost prev_row = self.matrix@[i as int]@;
                self.matrix[i][j] = replacement;
                proof {
                    assert(self.matrix@[i as int]@ =~= prev_row.update(j as int, replacement));
                    assert(forall|t: int|
                        0 <= t < matrix_size && t != i ==> self.matrix@[t]
                            == #[trigger] prev_rows[t]);
                }
                j += 1;
            }
            assert(self.mat()[i as int] =~= transformed_row(pre_m[i as int], i as int));
            self.res_vec[i] = fp_div(self.res_vec[i], diagonal_el);
            proof {
                assert(self.mat()[i as int] == transformed_row(pre_m[i as int], i as int));
                assert forall|t: int| 0 <= t < matrix_size implies self.mat()[t]
                    == partially_transformed_matrix(pre_m, i + 1)[t] by {
                    if t != i {
                        assert(self.mat()[t] == partially_transformed_matrix(pre_m, i as int)[t]);
                    }
                }
                assert(self.mat() =~~= partially_transformed_matrix(pre_m, i + 1));
                assert forall|t: int| 0 <= t < matrix_size implies self.res_vec@[t]
                    == partially_transformed_vector(pre_m, pre_b, i + 1)[t] by {
                    if t != i {
                        assert(self.res_vec@[t] == partially_transformed_vector(
                            pre_m,
                            pre_b,
                            i as int,
                        )[t]);
                    }
                }
                assert(self.res_vec@ =~= partially_transformed_vector(pre_m, pre_b, i + 1));
            }
            i += 1;
        }
        assert(self.mat() =~~= transformed_matrix(pre_m));
        assert(self.res_vec@ =~= transformed_vector(pre_m, pre_b));
        Ok(())
    }

    /// Sets the approximation to the all-zero vector of the system's
    /// dimension: the conventional Jacobi starting point.
    pub fn as_zero_solved(&mut self)
        ensures
            final(self).matrix@ == old(self).matrix@,
            final(self).res_vec@ == old(self).res_vec@,
            final(self).max_iterations == old(self).max_iterations,
            final(self).epsilon == old(self).epsilon,
            final(self).sol() == Some(zero_vector(old(self).matrix@.len() as nat)),
    {
        let n = self.matrix.len();
        let zeros: Vec<u64> = vec![ZERO_BITS; n];
        assert(zeros@ =~= zero_vector(n as nat));
        self.solve = Some(zeros);
    }

    /// One Jacobi step: computes the next approximation from the transformed
    /// system and the current approximation, reading only the previous vector
    /// while every new entry is built.
    #[verifier::loop_isolation(false)]
    fn get_next_solve(&self) -> (r: Vec<u64>)
        requires
            self.wf(),
            self.solve is Some,
        ensures
            r@ == next_vector(self.mat(), self.res_vec@, self.approx()),
    {
        let n = self.res_vec.len();
        let previous = match &self.solve {
            Some(s) => s,
            None => unreached(),
        };
        let mut new_iteration_solve: Vec<u64> = Vec::new();
        let mut i: usize = 0;
        while i < n
            invariant
                0 <= i <= n,
                new_iteration_solve@.len() == i,
                forall|t: int|
                    0 <= t < i ==> new_iteration_solve@[t] == #[trigger] next_vector(
                        self.mat(),
                        self.res_vec@,
                        self.approx(),
                    )[t],
            decreases n - i,
        {
            let mut entry: u64 = ZERO_BITS;
            let mut j: usize = 0;
            while j < n
                invariant
                    0 <= i < n,
                    0 <= j <= n,
                    entry == dot_prefix(self.mat()[i as int], self.approx(), j as int),
                decreases n - j,
            {
                entry = fp_add(entry, fp_mul(previous[j], self.matrix[i][j]));
                j += 1;
            }
            entry = fp_add(entry, self.res_vec[i]);
            assert(entry == next_entry(self.mat(), self.res_vec@, self.approx(), i as int));
            new_iteration_solve.push(entry);
            i += 1;
        }
        assert(new_iteration_solve@ =~= next_vector(self.mat(), self.res_vec@, self.approx()));
        new_iteration_solve
    }

    /// The convergence test: the infinity norm of the difference between the
    /// newly computed vector and the current approximation is at most
    /// `epsilon`.
    #[verifier::loop_isolation(false)]
    fn is_accurate_enough(&self, new_solve: &Vec<u64>) -> (r: bool)
        requires
            self.wf(),
            self.solve is Some,
            new_solve@.len() == self.n(),
        ensures
            r == accurate_enough(new_solve@, self.approx(), self.epsilon),
    {
        let n = new_solve.len();
        let previous = match &self.solve {
            Some(s) => s,
            None => unreached(),
        };
        let mut difference: Vec<u64> = Vec::new();
        let mut i: usize = 0;
        while i < n
            invariant
                0 <= i <= n,
                difference@.len() == i,
                forall|t: int|
                    0 <= t < i ==> difference@[t] == sub_bits(
                        new_solve@[t],
                        #[trigger] self.approx()[t],
                    ),
            decreases n - i,
        {
            difference.push(fp_sub(new_solve[i], previous[i]));
            i += 1;
        }
        let mut greatest: u64 = fp_abs(difference[0]);
        let mut j: usize = 1;
        while j < n
            invariant
                1 <= j <= n,
                greatest == max_abs_difference(new_solve@, self.approx(), j as int),
            decreases n - j,
        {
            greatest = fp_max(greatest, fp_abs(difference[j]));
            j += 1;
        }
        fp_le(greatest, self.epsilon)
    }
}

/// The all-zero approximation vector of length `n`.
pub open spec fn zero_vector(n: nat) -> Seq<u64> {
    Seq::new(n, |i: int| ZERO_BITS)
}

/// The running sum `x[0]*row[0] + ... + x[k-1]*row[k-1]`, accumulated left to
/// right from zero exactly as the iteration step adds it up.
pub open spec fn dot_prefix(row: Seq<u64>, x: Seq<u64>, k: int) -> u64
    decreases k,
{
    if k <= 0 {
        ZERO_BITS
    } else {
        add_bits(dot_prefix(row, x, k - 1), mul_bits(x[k - 1], row[k - 1]))
    }
}

/// Entry `i` of the next approximation: the full row product plus `d[i]`.
/// The sum runs over every column, the diagonal one included; the transformed
/// diagonal entry is zero, so that term contributes nothing new.
pub open spec fn next_entry(c: Seq<Seq<u64>>, d: Seq<u64>, x: Seq<u64>, i: int) -> u64 {
    add_bits(dot_prefix(c[i], x, x.len() as int), d[i])
}

/// One whole Jacobi step: every entry of the next approximation is computed
/// from the previous vector `x` alone.
pub open spec fn next_vector(c: Seq<Seq<u64>>, d: Seq<u64>, x: Seq<u64>) -> Seq<u64> {
    Seq::new(d.len(), |i: int| next_entry(c, d, x, i))
}

/// The approximation after `k` Jacobi steps from the zero vector.
pub open spec fn iterate(c: Seq<Seq<u64>>, d: Seq<u64>, k: nat) -> Seq<u64>
    decreases k,
{
    if k == 0 {
        zero_vector(d.len())
    } else {
        next_vector(c, d, iterate(c, d, (k - 1) as nat))
    }
}

/// The infinity norm of the step `new - prev` over the first `k` entries:
/// the reduction with the IEEE 754 maximum over the componentwise absolute
/// differences.
pub open spec fn max_abs_difference(new: Seq<u64>, prev: Seq<u64>, k: int) -> u64
    recommends
        k >= 1,
        new.len() == prev.len(),
    decreases k,
{
    if k <= 1 {
        abs_bits(sub_bits(new[0], prev[0]))
    } else {
        max_bits(
            max_abs_difference(new, prev, k - 1),
            abs_bits(sub_bits(new[k - 1], prev[k - 1])),
        )
    }
}

/// The convergence test: the infinity norm of the step from `prev` to `new`
/// is at most `eps`.
pub open spec fn accurate_enough(new: Seq<u64>, prev: Seq<u64>, eps: u64) -> bool {
    le_bits(max_abs_difference(new, prev, new.len() as int), eps)
}

/// Step `k` (counted from 1) of the iteration passes the convergence test.
pub open spec fn converged_at(c: Seq<Seq<u64>>, d: Seq<u64>, eps: u64, k: nat) -> bool
    recommends
        k >= 1,
{
    accurate_enough(iterate(c, d, k), iterate(c, d, (k - 1) as nat), eps)
}

/// The outcome a solve is bound to reach: a spec-level value determined by
/// the input bit patterns alone.
pub enum SolveModel {
    /// The matrix fails the dominance check; nothing is touched.
    NotDominant,
    /// The matrix is dominant but carries a zero pivot; the transformation
    /// aborts part-way through.
    ZeroDiagonal,
    /// The iteration converges: the approximation reached at the first step
    /// that passes the convergence test.
    Converged(Seq<u64>),
    /// No step within the cap passes the test: the approximation after the
    /// last permitted step.
    OutOfIterations(Seq<u64>),
}

/// Runs the iteration from step `k` on: the first step at most `max` that
/// passes the convergence test wins; past `max` the iteration gives up with
/// the approximation after step `max`.
pub open spec fn run_from(c: Seq<Seq<u64>>, d: Seq<u64>, eps: u64, max: nat, k: nat) -> SolveModel
    recommends
        k >= 1,
    decreases max + 1 - k,
{
    if k > max {
        SolveModel::OutOfIterations(iterate(c, d, max))
    } else if converged_at(c, d, eps, k) {
        SolveModel::Converged(iterate(c, d, k))
    } else {
        run_from(c, d, eps, max, k + 1)
    }
}

/// The complete model of one solve on the original matrix `m` and right-hand
/// side `b`: dominance check, zero-pivot check, then the bounded iteration on
/// the transformed system.
pub open spec fn solve_model(m: Seq<Seq<u64>>, b: Seq<u64>, eps: u64, max: nat) -> SolveModel {
    if !is_dominant(m) {
        SolveModel::NotDominant
    } else if has_zero_diagonal(m) {
        SolveModel::ZeroDiagonal
    } else {
        run_from(transformed_matrix(m), transformed_vector(m, b), eps, max, 1)
    }
}

/// Skipping steps that fail the convergence test does not change where the
/// iteration ends up: the run from step 1 equals the run from step `k` when
/// no step before `k` converged.
proof fn lemma_run_from_skip(c: Seq<Seq<u64>>, d: Seq<u64>, eps: u64, max: nat, k: nat)
    requires
        1 <= k <= max + 1,
        forall|t: nat| 1 <= t < k ==> !converged_at(c, d, eps, t),
    ensures
        run_from(c, d, eps, max, 1) == run_from(c, d, eps, max, k),
    decreases k,
{
    if k > 1 {
        lemma_run_from_skip(c, d, eps, max, (k - 1) as nat);
        assert(!converged_at(c, d, eps, (k - 1) as nat));
    }
}

/// A matrix that fails the dominance check is refused outright, whatever the
/// right-hand side, tolerance and iteration cap: the outcome is
/// `NotDiagonalDominant`, and `try_solve`'s contract adds that the system is
/// then left untouched, so the transformation is never attempted.
pub proof fn lemma_not_dominant_is_refused(m: Seq<Seq<u64>>, b: Seq<u64>, eps: u64, max: nat)
    requires
        !is_dominant(m),
    ensures
        solve_model(m, b, eps, max) is NotDominant,
{
}

/// A zero on the diagonal of a matrix that passes the dominance check makes
/// every solve fail with `ZerosOnDiagonal`, whatever the right-hand side,
/// tolerance and iteration cap: the system may be well-posed, but this
/// method cannot transform it.
pub proof fn lemma_zero_diagonal_is_refused(m: Seq<Seq<u64>>, b: Seq<u64>, eps: u64, max: nat)
    requires
        is_dominant(m),
        has_zero_diagonal(m),
    ensures
        solve_model(m, b, eps, max) is ZeroDiagonal,
{
}

/// The first step that passes the convergence test wins: when step `k` is
/// within the cap, passes the test, and no earlier step does, the solve
/// converges to exactly the approximation after `k` Jacobi steps from the
/// zero vector.
pub proof fn lemma_first_convergence_wins(
    m: Seq<Seq<u64>>,
    b: Seq<u64>,
    eps: u64,
    max: nat,
    k: nat,
)
    requires
        is_dominant(m),
        !has_zero_diagonal(m),
        1 <= k <= max,
        converged_at(transformed_matrix(m), transformed_vector(m, b), eps, k),
        forall|t: nat|
            1 <= t < k ==> !converged_at(transformed_matrix(m), transformed_vector(m, b), eps, t),
    ensures
        solve_model(m, b, eps, max) == SolveModel::Converged(
            iterate(transformed_matrix(m), transformed_vector(m, b), k),
        ),
{
    lemma_run_from_skip(transformed_matrix(m), transformed_vector(m, b), eps, max, k);
}

/// When no step within the cap passes the convergence test, the solve fails
/// with `OutOfMaxIterations`, and the vector it carries is exactly the
/// approximation reached by running all `max` permitted steps from the zero
/// vector.
pub proof fn lemma_exhaustion_carries_last_step(m: Seq<Seq<u64>>, b: Seq<u64>, eps: u64, max: nat)
    requires
        is_dominant(m),
        !has_zero_diagonal(m),
        forall|t: nat|
            1 <= t <= max ==> !converged_at(transformed_matrix(m), transformed_vector(m, b), eps, t),
    ensures
        solve_model(m, b, eps, max) == SolveModel::OutOfIterations(
            iterate(transformed_matrix(m), transformed_vector(m, b), max),
        ),
{
    lemma_run_from_skip(transformed_matrix(m), transformed_vector(m, b), eps, max, max + 1);
}

/// Solving is deterministic: two systems that carry the same matrix,
/// right-hand side, tolerance and iteration cap are bound to the same
/// outcome, bit for bit. Together with `try_solve`'s contract, which ties
/// every run to `solve_model` of its inputs, solving the same validated
/// system twice from the fresh zero vector gives identical results.
pub proof fn lemma_solve_deterministic(a: Equation, b: Equation)
    requires
        a.mat() == b.mat(),
        a.res_vec@ == b.res_vec@,
        a.epsilon == b.epsilon,
        a.max_iterations == b.max_iterations,
    ensures
        solve_model(a.mat(), a.res_vec@, a.epsilon, a.max_iterations as nat) == solve_model(
            b.mat(),
            b.res_vec@,
            b.epsilon,
            b.max_iterations as nat,
        ),
{
}

} // verus!
