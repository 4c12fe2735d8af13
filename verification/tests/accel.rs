use conv_accel::algorithms::diis::DIIS;
use conv_accel::algorithms::linear::LinearDamping;
use conv_accel::solver::{ConvProblem, ConvState, Converger};
use conv_accel::types::{ConvError, ConvFloat};

/// Double-precision scalar backing the accelerator in these tests.
#[derive(Clone, Copy, Debug, PartialEq)]
struct R(f64);

impl ConvFloat for R {
    // The `*_s` items are the specification-level models of the operations;
    // they are never executed, and here they simply mirror the real ones.
    fn zero_s() -> Self {
        R(0.0)
    }

    fn one_s() -> Self {
        R(1.0)
    }

    fn from_i64_s(n: i64) -> Self {
        R(n as f64)
    }

    fn from_usize_s(n: usize) -> Self {
        R(n as f64)
    }

    fn add_s(self, o: Self) -> Self {
        R(self.0 + o.0)
    }

    fn sub_s(self, o: Self) -> Self {
        R(self.0 - o.0)
    }

    fn mul_s(self, o: Self) -> Self {
        R(self.0 * o.0)
    }

    fn div_s(self, o: Self) -> Self {
        R(self.0 / o.0)
    }

    fn lt_s(self, o: Self) -> bool {
        self.0 < o.0
    }

    fn zero() -> Self {
        R(0.0)
    }

    fn one() -> Self {
        R(1.0)
    }

    fn from_i64(n: i64) -> Self {
        R(n as f64)
    }

    fn from_usize(n: usize) -> Self {
        R(n as f64)
    }

    fn add(self, o: Self) -> Self {
        R(self.0 + o.0)
    }

    fn sub(self, o: Self) -> Self {
        R(self.0 - o.0)
    }

    fn mul(self, o: Self) -> Self {
        R(self.0 * o.0)
    }

    fn div(self, o: Self) -> Self {
        R(self.0 / o.0)
    }

    fn lt(self, o: Self) -> bool {
        self.0 < o.0
    }

    fn solve(a: &Vec<Vec<R>>, b: &Vec<R>) -> Result<Vec<R>, ConvError> {
        // Gauss-Jordan elimination with partial pivoting.
        let n: usize = b.len();
        let mut m: Vec<Vec<f64>> = a.iter().map(|row| row.iter().map(|x| x.0).collect()).collect();
        let mut rhs: Vec<f64> = b.iter().map(|x| x.0).collect();
        for col in 0..n {
            let mut piv: usize = col;
            for r in col + 1..n {
                if m[r][col].abs() > m[piv][col].abs() {
                    piv = r;
                }
            }
            if m[piv][col].abs() < 1e-12 {
                return Err(ConvError::SolveFailed);
            }
            m.swap(col, piv);
            rhs.swap(col, piv);
            for r in 0..n {
                if r != col {
                    let f: f64 = m[r][col] / m[col][col];
                    for c in col..n {
                        let delta: f64 = f * m[col][c];
                        m[r][c] -= delta;
                    }
                    rhs[r] -= f * rhs[col];
                }
            }
        }
        Ok((0..n).map(|i| R(rhs[i] / m[i][i])).collect())
    }
}

/// Elementwise affine update operator `x -> k*x + c`.
struct Affine {
    k: f64,
    c: f64,
}

impl ConvProblem<R> for Affine {
    fn update(&mut self, x: &Vec<R>) -> Vec<R> {
        x.iter().map(|v| R(self.k * v.0 + self.c)).collect()
    }
}

fn rvec(xs: &[f64]) -> Vec<R> {
    xs.iter().map(|x| R(*x)).collect()
}

fn fvec(xs: &Vec<R>) -> Vec<f64> {
    xs.iter().map(|x| x.0).collect()
}

#[test]
fn linear_full_eta_returns_update() {
    // eta = 1: the damped step equals the raw update output exactly.
    let mut problem = Affine { k: 0.5, c: 3.0 };
    let accel: LinearDamping<R> = LinearDamping::new(R(1.0));
    let state = ConvState { input: rvec(&[2.0, -3.0, 0.25]) };
    let out = accel.advance(&mut problem, &state);
    assert_eq!(fvec(&out), vec![4.0, 1.5, 3.125]);
}

#[test]
fn linear_zero_eta_keeps_input() {
    // eta = 0: no movement, whatever the operator does.
    let accel: LinearDamping<R> = LinearDamping::new(R(0.0));
    let state = ConvState { input: rvec(&[2.0, -3.0]) };
    let mut p1 = Affine { k: 0.5, c: 3.0 };
    let mut p2 = Affine { k: -17.0, c: 400.0 };
    assert_eq!(fvec(&accel.advance(&mut p1, &state)), vec![2.0, -3.0]);
    assert_eq!(fvec(&accel.advance(&mut p2, &state)), vec![2.0, -3.0]);
}

#[test]
fn diis_warmup_matches_linear() {
    // While the history is shorter than depth, DIIS equals linear damping
    // call for call, and appends one entry to every buffer per call.
    let mut lin_problem = Affine { k: 0.5, c: 3.0 };
    let mut diis_problem = Affine { k: 0.5, c: 3.0 };
    let lin: LinearDamping<R> = LinearDamping::new(R(0.5));
    let mut diis: DIIS<R> = DIIS::new(R(0.5), 3, 10).unwrap();

    let mut lin_state = ConvState { input: rvec(&[0.0, 8.0]) };
    let mut diis_state = ConvState { input: rvec(&[0.0, 8.0]) };
    for step in 0..3 {
        let a = lin.advance(&mut lin_problem, &lin_state);
        let b = diis.advance(&mut diis_problem, &diis_state).unwrap();
        assert_eq!(fvec(&a), fvec(&b));
        assert_eq!(diis.history_len(), step + 1);
        assert_eq!(diis.residual_len(), step + 1);
        assert_eq!(diis.error_len(), step + 1);
        lin_state.input = a;
        diis_state.input = b;
    }
}

#[test]
fn diis_window_slides_at_depth() {
    // Once steady state is reached, each accepted step keeps all three
    // windows at exactly `depth` entries.
    let mut problem = Affine { k: 0.5, c: 3.0 };
    let mut diis: DIIS<R> = DIIS::new(R(0.5), 2, 1000).unwrap();
    let mut state = ConvState { input: rvec(&[0.0]) };
    for step in 0..8 {
        let out = diis.advance(&mut problem, &state).unwrap();
        let expected: usize = if step + 1 < 2 { step + 1 } else { 2 };
        assert_eq!(diis.history_len(), expected);
        assert_eq!(diis.residual_len(), expected);
        assert_eq!(diis.error_len(), expected);
        state.input = out;
    }
}

#[test]
fn rms_is_nonneg_and_zero_on_equal() {
    let diis: DIIS<R> = DIIS::new(R(0.5), 3, 10).unwrap();
    // Exactly zero when the arrays coincide.
    let x = rvec(&[1.5, -2.25, 0.0]);
    assert_eq!(diis.compute_rms(&x, &x).0, 0.0);
    // Exact value: sum of differences 3.0, squared 9.0, divided by N = 2.
    let prev = rvec(&[1.0, 2.0]);
    let curr = rvec(&[2.0, 4.0]);
    assert_eq!(diis.compute_rms(&prev, &curr).0, 4.5);
    // Non-negative on assorted finite inputs, including cancelling signs.
    let cases: Vec<(Vec<R>, Vec<R>)> = vec![
        (rvec(&[0.0]), vec![R(-7.5)]),
        (rvec(&[1.0, -1.0]), rvec(&[-1.0, 1.0])),
        (rvec(&[3.0, 4.0, 5.0]), rvec(&[5.0, 4.0, 3.0])),
    ];
    for (p, c) in cases {
        assert!(diis.compute_rms(&p, &c).0 >= 0.0);
    }
}

#[test]
fn diis_new_rejects_bad_config() {
    assert_eq!(DIIS::<R>::new(R(0.5), 0, 10).unwrap_err(), ConvError::BadConfig);
    assert_eq!(DIIS::<R>::new(R(0.0), 3, 10).unwrap_err(), ConvError::BadConfig);
    assert_eq!(DIIS::<R>::new(R(-0.5), 3, 10).unwrap_err(), ConvError::BadConfig);
    assert_eq!(DIIS::<R>::new(R(1.5), 3, 10).unwrap_err(), ConvError::BadConfig);
    assert_eq!(DIIS::<R>::new(R(0.5), 3, 0).unwrap_err(), ConvError::BadConfig);
    let ok = DIIS::<R>::new(R(1.0), 3, 10).unwrap();
    assert_eq!(ok.eta.0, 1.0);
    assert_eq!(ok.depth, 3);
    assert_eq!(ok.restart, 10);
    assert_eq!(ok.history_len(), 0);
}

#[test]
fn diis_surfaces_solve_failure() {
    // A constant operator makes consecutive residuals vanish, the bordered
    // system singular, and the solve failure must surface as an error.
    let mut problem = Affine { k: 0.0, c: 5.0 };
    let mut diis: DIIS<R> = DIIS::new(R(1.0), 3, 10).unwrap();
    let mut state = ConvState { input: rvec(&[0.0]) };
    let mut failed = false;
    for _ in 0..4 {
        match diis.advance(&mut problem, &state) {
            Ok(out) => {
                state.input = out;
            },
            Err(e) => {
                assert_eq!(e, ConvError::SolveFailed);
                failed = true;
                break;
            },
        }
    }
    assert!(failed);
}

#[test]
fn linear_converges_monotonically() {
    // Contraction x -> 0.5x + 3 with eta = 0.5 from 0: the damped iteration
    // climbs monotonically toward the fixed point 6 (error shrinks by 0.75
    // per step, so 20 steps leave about 1.9e-2; 40 steps are inside 1e-3).
    let mut problem = Affine { k: 0.5, c: 3.0 };
    let accel: LinearDamping<R> = LinearDamping::new(R(0.5));
    let mut state = ConvState { input: rvec(&[0.0]) };
    let mut last: f64 = 0.0;
    for step in 0..40 {
        let out = accel.advance(&mut problem, &state);
        let x: f64 = out[0].0;
        assert!(x > last && x < 6.0);
        last = x;
        state.input = out;
        if step == 19 {
            assert!((x - 6.0).abs() < 2e-2);
        }
    }
    assert!((last - 6.0).abs() < 1e-3);
}

fn steps_until_within(accel_is_diis: bool, tol: f64, max_steps: usize) -> usize {
    let mut problem = Affine { k: 0.5, c: 3.0 };
    let lin: LinearDamping<R> = LinearDamping::new(R(0.5));
    let mut diis: DIIS<R> = DIIS::new(R(0.5), 3, 10).unwrap();
    let mut state = ConvState { input: rvec(&[0.0]) };
    for step in 0..max_steps {
        let out = if accel_is_diis {
            diis.advance(&mut problem, &state).unwrap()
        } else {
            lin.advance(&mut problem, &state)
        };
        let x: f64 = out[0].0;
        state.input = out;
        if (x - 6.0).abs() < tol {
            return step + 1;
        }
    }
    max_steps + 1
}

#[test]
fn diis_converges_faster_than_linear() {
    // Same contraction: DIIS with depth 3, restart 10 needs fewer steps to
    // come within 1e-3 of the fixed point than plain damping.
    let lin_steps = steps_until_within(false, 1e-3, 200);
    let diis_steps = steps_until_within(true, 1e-3, 200);
    assert!(lin_steps <= 200);
    assert!(diis_steps <= 200);
    assert!(diis_steps < lin_steps);
}

#[test]
fn divergent_problem_grows_error_measure() {
    // x -> 3x + 1 diverges; the divergence measure grows across the
    // accepted steady-state steps until the restart safeguard interrupts.
    let mut problem = Affine { k: 3.0, c: 1.0 };
    let mut diis: DIIS<R> = DIIS::new(R(1.0), 2, 10).unwrap();
    let mut state = ConvState { input: rvec(&[1.0]) };
    let mut steady_measures: Vec<f64> = Vec::new();
    let mut restarted = false;
    for _ in 0..30 {
        let full_before = diis.history_len() == 2;
        let out = diis.advance(&mut problem, &state).unwrap();
        if full_before && diis.history_len() == 2 {
            steady_measures.push(diis.compute_rms(&state.input, &out).0);
        }
        if full_before && diis.history_len() == 0 {
            restarted = true;
            break;
        }
        state.input = out;
    }
    assert!(restarted);
    assert!(steady_measures.len() >= 2);
    for i in 1..steady_measures.len() {
        assert!(steady_measures[i] > steady_measures[i - 1]);
    }
}

#[test]
fn divergent_problem_triggers_restart() {
    // x -> 3x + 1 diverges; the restart safeguard fires within a bounded
    // number of calls, empties all three buffers, and the very next call
    // behaves as a first warm-up call.
    let mut problem = Affine { k: 3.0, c: 1.0 };
    let mut diis: DIIS<R> = DIIS::new(R(0.5), 2, 10).unwrap();
    let mut state = ConvState { input: rvec(&[1.0]) };
    let mut reached_steady = false;
    let mut restarted = false;
    for _ in 0..60 {
        let full_before = diis.history_len() == 2;
        let out = diis.advance(&mut problem, &state).unwrap();
        if full_before {
            reached_steady = true;
        }
        if full_before && diis.history_len() == 0 {
            // Restart fired: every buffer is empty right after the call.
            assert_eq!(diis.history_len(), 0);
            assert_eq!(diis.residual_len(), 0);
            assert_eq!(diis.error_len(), 0);
            restarted = true;
            // The next call is a plain warm-up call: damped mixing of the
            // written-back iterate, with one entry appended per buffer.
            state.input = out;
            let x: f64 = state.input[0].0;
            let next = diis.advance(&mut problem, &state).unwrap();
            let u: f64 = 3.0 * x + 1.0;
            assert_eq!(next[0].0, 0.5 * u + 0.5 * x);
            assert_eq!(diis.history_len(), 1);
            assert_eq!(diis.residual_len(), 1);
            assert_eq!(diis.error_len(), 1);
            break;
        }
        state.input = out;
    }
    assert!(reached_steady);
    assert!(restarted);
}

#[test]
fn diis_depth_one_runs() {
    // The smallest legal subspace: steady state from the second call on.
    // With depth 1 the bordered system forces the single coefficient to 1,
    // so the second output is exactly eta*res_0 + iterate_0 = 0.5*3 + 3.
    let mut problem = Affine { k: 0.5, c: 3.0 };
    let mut diis: DIIS<R> = DIIS::new(R(0.5), 1, 1000).unwrap();
    let mut state = ConvState { input: rvec(&[0.0]) };
    let first = diis.advance(&mut problem, &state).unwrap();
    assert_eq!(fvec(&first), vec![1.5]);
    state.input = first;
    let second = diis.advance(&mut problem, &state).unwrap();
    assert_eq!(fvec(&second), vec![4.5]);
    state.input = second;
    for _ in 0..28 {
        let out = diis.advance(&mut problem, &state).unwrap();
        assert_eq!(diis.history_len(), 1);
        state.input = out;
    }
    assert!((state.input[0].0 - 6.0).abs() < 1e-2);
}

#[test]
fn converger_interface_dispatches() {
    // Both accelerators answer through the one polymorphic capability.
    let mut problem = Affine { k: 0.5, c: 3.0 };
    let mut state = ConvState { input: rvec(&[0.0]) };
    let mut lin: LinearDamping<R> = LinearDamping::new(R(0.5));
    let out = Converger::<R, Affine>::next_iter(&mut lin, &mut problem, &mut state).unwrap();
    assert_eq!(fvec(&out), vec![1.5]);
    let mut diis: DIIS<R> = DIIS::new(R(0.5), 2, 10).unwrap();
    state.input = rvec(&[0.0]);
    let out2 = Converger::<R, Affine>::next_iter(&mut diis, &mut problem, &mut state).unwrap();
    assert_eq!(fvec(&out2), vec![1.5]);
    assert_eq!(diis.history_len(), 1);
}
