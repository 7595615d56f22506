use jacobi::alg_eq::{Equation, SolveError};

fn to_bits_matrix(rows: &[Vec<f64>]) -> Vec<Vec<u64>> {
    rows.iter().map(|row| row.iter().map(|x| x.to_bits()).collect()).collect()
}

fn to_bits_vector(entries: &[f64]) -> Vec<u64> {
    entries.iter().map(|x| x.to_bits()).collect()
}

fn from_bits_vector(entries: &[u64]) -> Vec<f64> {
    entries.iter().map(|&x| f64::from_bits(x)).collect()
}

fn build(matrix: &[Vec<f64>], b: &[f64], max_iterations: usize, epsilon: f64) -> Equation {
    Equation::try_new(
        to_bits_matrix(matrix),
        to_bits_vector(b),
        max_iterations,
        epsilon.to_bits(),
    )
    .expect("dimensions are consistent")
}

/// The transformation and iteration re-run in ordinary double arithmetic:
/// the reference the solver's bit patterns must match exactly.
fn manual_jacobi_steps(matrix: &[Vec<f64>], b: &[f64], steps: usize) -> Vec<f64> {
    let n = b.len();
    let mut c = vec![vec![0.0f64; n]; n];
    let mut d = vec![0.0f64; n];
    for i in 0..n {
        let pivot = matrix[i][i];
        assert!(pivot != 0.0);
        for j in 0..n {
            c[i][j] = if i != j { -matrix[i][j] / pivot } else { 0.0 };
        }
        d[i] = b[i] / pivot;
    }
    let mut x = vec![0.0f64; n];
    for _ in 0..steps {
        let mut next = vec![0.0f64; n];
        for i in 0..n {
            let mut entry = 0.0f64;
            for j in 0..n {
                entry += x[j] * c[i][j];
            }
            entry += d[i];
            next[i] = entry;
        }
        x = next;
    }
    x
}

fn residual_infinity_norm(matrix: &[Vec<f64>], b: &[f64], x: &[f64]) -> f64 {
    let n = b.len();
    let mut worst = 0.0f64;
    for i in 0..n {
        let mut row = 0.0f64;
        for j in 0..n {
            row += matrix[i][j] * x[j];
        }
        let err = (row - b[i]).abs();
        if err > worst {
            worst = err;
        }
    }
    worst
}

#[test]
fn identity_converges_in_one_iteration() {
    let matrix = vec![vec![1.0, 0.0], vec![0.0, 1.0]];
    let b = vec![3.0, -1.0];
    // With the cap at a single step, success shows one iteration was enough.
    let mut equation = build(&matrix, &b, 1, 10.0);
    assert!(equation.try_solve().is_ok());
    let solve = equation.solve.expect("a solution is stored");
    assert_eq!(solve, to_bits_vector(&b));
}

#[test]
fn zero_diagonal_fails_even_when_dominant() {
    // Row [0, 0] is degenerate but passes the dominance test (0 >= 0), so
    // the zero pivot itself is what the transformation trips over.
    let matrix = vec![vec![0.0, 0.0], vec![0.0, 1.0]];
    let b = vec![1.0, 2.0];
    let mut equation = build(&matrix, &b, 10, 0.001);
    let r = equation.try_solve();
    assert!(matches!(r, Err(SolveError::ZerosOnDiagonal)));
    assert!(equation.solve.is_none());
}

#[test]
fn dominance_is_checked_before_the_diagonal() {
    // A zero diagonal that also breaks dominance is reported as a dominance
    // failure: the dominance check runs first.
    let matrix = vec![vec![0.0, 1.0], vec![1.0, 0.0]];
    let b = vec![1.0, 1.0];
    let mut equation = build(&matrix, &b, 10, 0.001);
    let r = equation.try_solve();
    assert!(matches!(r, Err(SolveError::NotDiagonalDominant)));
}

#[test]
fn not_dominant_fails_without_transformation() {
    let matrix = vec![vec![1.0, 2.0], vec![1.0, 1.0]];
    let b = vec![4.0, 5.0];
    let mut equation = build(&matrix, &b, 10, 0.001);
    let r = equation.try_solve();
    assert!(matches!(r, Err(SolveError::NotDiagonalDominant)));
    // Nothing was touched: the system still holds the original values.
    assert_eq!(equation.matrix, to_bits_matrix(&matrix));
    assert_eq!(equation.res_vec, to_bits_vector(&b));
    assert!(equation.solve.is_none());
}

#[test]
fn dominance_compares_magnitudes_not_values() {
    // Row [2, -3] fails dominance only because |-3| counts as 3.
    let matrix = vec![vec![2.0, -3.0], vec![0.0, 1.0]];
    let b = vec![1.0, 1.0];
    let mut equation = build(&matrix, &b, 10, 0.001);
    assert!(matches!(equation.try_solve(), Err(SolveError::NotDiagonalDominant)));
}

#[test]
fn negative_diagonal_is_dominant_by_magnitude() {
    // The diagonal entries are negative; dominance holds through their
    // absolute values and the solve converges to x = [1, 1].
    let matrix = vec![vec![-4.0, 1.0], vec![1.0, -4.0]];
    let b = vec![-3.0, -3.0];
    let epsilon = 1.0e-12;
    let mut equation = build(&matrix, &b, 1000, epsilon);
    assert!(equation.try_solve().is_ok());
    let x = from_bits_vector(&equation.solve.expect("a solution is stored"));
    assert!((x[0] - 1.0).abs() < 1.0e-9);
    assert!((x[1] - 1.0).abs() < 1.0e-9);
}

#[test]
fn exhaustion_carries_the_final_permitted_step() {
    let matrix = vec![vec![2.0, 1.0], vec![1.0, 2.0]];
    let b = vec![3.0, 3.0];
    // The tolerance is far below what three steps can reach.
    let mut equation = build(&matrix, &b, 3, 1.0e-15);
    let r = equation.try_solve();
    let carried = match r {
        Err(SolveError::OutOfMaxIterations(v)) => v,
        _ => panic!("expected OutOfMaxIterations"),
    };
    let expected = manual_jacobi_steps(&matrix, &b, 3);
    assert_eq!(carried, to_bits_vector(&expected));
    assert_eq!(equation.solve, Some(to_bits_vector(&expected)));
}

#[test]
fn converged_solution_has_a_small_residual() {
    let matrix = vec![vec![4.0, 1.0], vec![1.0, 3.0]];
    let b = vec![5.0, 4.0];
    let epsilon = 1.0e-12;
    let mut equation = build(&matrix, &b, 1000, epsilon);
    assert!(equation.try_solve().is_ok());
    let x = from_bits_vector(&equation.solve.expect("a solution is stored"));
    // The true solution is x = [1, 1]; the residual must be small relative
    // to the tolerance the iteration stopped at.
    assert!(residual_infinity_norm(&matrix, &b, &x) < 1.0e-9);
}

#[test]
fn residual_shrinks_monotonically_near_convergence() {
    let matrix = vec![vec![4.0, 1.0], vec![1.0, 3.0]];
    let b = vec![5.0, 4.0];
    let mut previous = residual_infinity_norm(&matrix, &b, &manual_jacobi_steps(&matrix, &b, 5));
    for steps in 6..20 {
        let current =
            residual_infinity_norm(&matrix, &b, &manual_jacobi_steps(&matrix, &b, steps));
        assert!(current <= previous);
        previous = current;
    }
}

#[test]
fn solving_twice_is_bit_identical() {
    let matrix = vec![vec![3.0, 1.0, 0.5], vec![0.25, 2.0, 0.125], vec![1.0, 1.0, 4.0]];
    let b = vec![1.0, -2.0, 0.75];
    let mut first = build(&matrix, &b, 200, 1.0e-10);
    let mut second = build(&matrix, &b, 200, 1.0e-10);
    assert!(first.try_solve().is_ok());
    assert!(second.try_solve().is_ok());
    assert_eq!(first.solve, second.solve);
    assert_eq!(first.matrix, second.matrix);
    assert_eq!(first.res_vec, second.res_vec);
}

#[test]
fn dimensions_are_validated_before_any_solve() {
    // Matrix row count differs from the vector length.
    assert!(Equation::try_new(
        to_bits_matrix(&[vec![1.0, 0.0], vec![0.0, 1.0]]),
        to_bits_vector(&[1.0, 2.0, 3.0]),
        10,
        0.001f64.to_bits(),
    )
    .is_none());
    // Not square: one row is too short.
    assert!(Equation::try_new(
        to_bits_matrix(&[vec![1.0, 0.0], vec![0.0]]),
        to_bits_vector(&[1.0, 2.0]),
        10,
        0.001f64.to_bits(),
    )
    .is_none());
    // The empty system is rejected.
    assert!(Equation::try_new(vec![], vec![], 10, 0.001f64.to_bits()).is_none());
    // A consistent system is accepted, with no approximation yet.
    let accepted = Equation::try_new(
        to_bits_matrix(&[vec![2.0, 0.0], vec![0.0, 2.0]]),
        to_bits_vector(&[1.0, 2.0]),
        10,
        0.001f64.to_bits(),
    );
    assert!(accepted.is_some());
    assert!(accepted.unwrap().solve.is_none());
}

#[test]
fn zero_iteration_cap_fails_with_the_zero_vector() {
    let matrix = vec![vec![2.0, 0.0], vec![0.0, 2.0]];
    let b = vec![1.0, 2.0];
    let mut equation = build(&matrix, &b, 0, 1.0);
    let r = equation.try_solve();
    let carried = match r {
        Err(SolveError::OutOfMaxIterations(v)) => v,
        _ => panic!("expected OutOfMaxIterations"),
    };
    assert_eq!(carried, to_bits_vector(&[0.0, 0.0]));
}

#[test]
fn as_zero_solved_resets_the_approximation() {
    let matrix = vec![vec![2.0, 0.0], vec![0.0, 2.0]];
    let b = vec![1.0, 2.0];
    let mut equation = build(&matrix, &b, 10, 0.001);
    equation.as_zero_solved();
    assert_eq!(equation.solve, Some(to_bits_vector(&[0.0, 0.0])));
}
