use vstd::prelude::*;

use crate::arrays::{
    add_seq, add_vec, comb_prefix, copy_vec, damp_seq, damp_vec, dot_s, dot_vec,
    min_idx, min_index_vec, rms_spec, scale_seq, scale_vec, sub_seq,
    sub_vec, sum_vec, zeros_vec,
};
use crate::solver::{ConvProblem, ConvState, Converger};
use crate::types::{ConvError, ConvFloat};

verus! {

/// `-1`, as the scalar model writes it.
pub open spec fn neg_one_s<S: ConvFloat>() -> S {
    S::zero_s().sub_s(S::one_s())
}

/// Law: a warm-up step of the subspace accelerator produces exactly the
/// linear-damping output for the same `eta`, the same input iterate and the
/// same raw update output — warm-up and
/// [`crate::algorithms::linear::LinearDamping::advance`] share one output
/// model, [`damp_seq`].
pub proof fn lemma_warmup_matches_damping<S: ConvFloat>(
    pre: DIIS<S>,
    post: DIIS<S>,
    prev: Seq<S>,
    curr: Seq<S>,
    out: Seq<S>,
)
    requires
        DIIS::warmup_post(pre, post, prev, curr, out),
    ensures
        out == damp_seq(pre.eta, prev, curr),
{
}

/// One entry of the bordered extrapolation matrix of size
/// `(depth+1) x (depth+1)`: the last row and column are `-1` except for a `0`
/// in the corner, and the interior holds pairwise residual dot products.
///
/// Deliberate design choice: the interior is populated only for indices
/// `1..depth`, so the first history slot's cross terms keep the `-1` fill and
/// the oldest residual is effectively excluded from the subspace.  With a
/// fully populated interior the bordered system is singular whenever the
/// residual Gram block has rank below `depth - 1` (for instance for
/// one-dimensional iterates with `depth >= 3`); this fill keeps the system
/// solvable there, at some cost in extrapolation quality.
pub open spec fn gram_entry<S: ConvFloat>(ress: Seq<Seq<S>>, depth: int, i: int, j: int) -> S {
    if i == depth && j == depth {
        S::zero_s()
    } else if 1 <= i && i < depth && 1 <= j && j < depth {
        dot_s(ress[i], ress[j])
    } else {
        neg_one_s::<S>()
    }
}

/// Row `i` of the bordered extrapolation matrix.
pub open spec fn gram_row<S: ConvFloat>(ress: Seq<Seq<S>>, depth: int, i: int) -> Seq<S> {
    Seq::new((depth + 1) as nat, |j: int| gram_entry(ress, depth, i, j))
}

/// The whole bordered extrapolation matrix.
pub open spec fn gram_spec<S: ConvFloat>(ress: Seq<Seq<S>>, depth: int) -> Seq<Seq<S>> {
    Seq::new((depth + 1) as nat, |i: int| gram_row(ress, depth, i))
}

/// The right-hand side: zero everywhere except a final `-1`.
pub open spec fn rhs_spec<S: ConvFloat>(depth: int) -> Seq<S> {
    Seq::new(
        (depth + 1) as nat,
        |j: int|
            if j == depth {
                neg_one_s::<S>()
            } else {
                S::zero_s()
            },
    )
}

/// DIIS (direct inversion in the iterative subspace): a stateful accelerator
/// that keeps a bounded sliding window of raw iterates, residuals and
/// divergence measures, extrapolates through a small bordered linear system,
/// and discards the subspace when the divergence measure drifts.
#[derive(Debug)]
pub struct DIIS<S> {
    /// Damping fraction applied to the extrapolated residual correction.
    pub eta: S,
    /// Subspace size: the length of each history window in steady state.
    pub depth: usize,
    /// Growth multiplier of the restart safeguard.
    pub restart: i64,
    /// Raw-iterate window; treat as read-only and reason through
    /// [`DIIS::iter_history`].
    pub memory_vec: Vec<Vec<S>>,
    /// Residual window; treat as read-only and reason through
    /// [`DIIS::res_history`].
    pub residuals_vec: Vec<Vec<S>>,
    /// Error-measure window; treat as read-only and reason through
    /// [`DIIS::err_history`].
    pub rms_vec: Vec<S>,
}

impl<S: ConvFloat> DIIS<S> {
    /// The window of raw (unaccelerated) update outputs, oldest first.
    pub closed spec fn iter_history(&self) -> Seq<Seq<S>> {
        self.memory_vec@.map_values(|v: Vec<S>| v@)
    }

    /// The window of residuals, paired index-for-index with `iter_history`.
    pub closed spec fn res_history(&self) -> Seq<Seq<S>> {
        self.residuals_vec@.map_values(|v: Vec<S>| v@)
    }

    /// The window of divergence measures, paired index-for-index with
    /// `iter_history`.
    pub closed spec fn err_history(&self) -> Seq<S> {
        self.rms_vec@
    }

    /// Shape of the arrays in the history; meaningful once it is non-empty.
    pub open spec fn dim(&self) -> nat {
        self.iter_history()[0].len()
    }

    /// Well-formedness: the three bounded buffers stay in lock-step length,
    /// never longer than `depth`, and hold arrays of one shape.
    pub open spec fn wf(&self) -> bool {
        &&& self.depth >= 1
        &&& self.depth < usize::MAX
        &&& self.restart >= 1
        &&& self.res_history().len() == self.iter_history().len()
        &&& self.err_history().len() == self.iter_history().len()
        &&& self.iter_history().len() <= self.depth
        &&& forall|i: int|
            0 <= i < self.iter_history().len() ==> (#[trigger] self.iter_history()[i]).len()
                == self.dim()
        &&& forall|i: int|
            0 <= i < self.res_history().len() ==> (#[trigger] self.res_history()[i]).len()
                == self.dim()
    }

    /// The configurations that construction accepts: a positive subspace
    /// depth, a damping fraction in (0, 1] as ordered by `lt_s`, and a
    /// positive restart multiplier.
    pub open spec fn config_ok(eta: S, depth: usize, restart: i64) -> bool {
        &&& depth >= 1
        &&& depth < usize::MAX
        &&& restart >= 1
        &&& S::zero_s().lt_s(eta)
        &&& !S::one_s().lt_s(eta)
    }

    /// The construction parameters are kept unchanged by every step.
    pub open spec fn same_config(pre: Self, post: Self) -> bool {
        &&& post.eta == pre.eta
        &&& post.depth == pre.depth
        &&& post.restart == pre.restart
    }

    /// One warm-up step: damped mixing exactly as [`crate::algorithms::linear::LinearDamping`]
    /// performs it, with the raw update output `curr` and its residual
    /// appended to the history and the divergence measure of the mixed
    /// output appended to the error window.
    pub open spec fn warmup_post(
        pre: Self,
        post: Self,
        prev: Seq<S>,
        curr: Seq<S>,
        out: Seq<S>,
    ) -> bool {
        &&& curr.len() == prev.len()
        &&& out == damp_seq(pre.eta, prev, curr)
        &&& post.iter_history() == pre.iter_history().push(curr)
        &&& post.res_history() == pre.res_history().push(sub_seq(curr, prev))
        &&& post.err_history() == pre.err_history().push(rms_spec(prev, out))
        &&& Self::same_config(pre, post)
    }

    /// The candidate that extrapolation produces from the current history,
    /// given solved coefficients `coef`: the damped extrapolated residual
    /// added to the extrapolated base point,
    /// `eta * sum_i coef_i * residual_i  +  sum_i coef_i * iterate_i`.
    pub open spec fn candidate(pre: Self, coef: Seq<S>) -> Seq<S> {
        add_seq(
            scale_seq(
                comb_prefix(pre.res_history(), coef, pre.iter_history().len() as int, pre.dim()),
                pre.eta,
            ),
            comb_prefix(pre.iter_history(), coef, pre.iter_history().len() as int, pre.dim()),
        )
    }

    /// The restart test: the candidate's divergence measure exceeds
    /// `restart` times the smallest measure in the error window.
    pub open spec fn restart_trig(pre: Self, prev: Seq<S>, coef: Seq<S>) -> bool {
        S::from_i64_s(pre.restart).mul_s(pre.err_history()[min_idx(pre.err_history())]).lt_s(
            rms_spec(prev, Self::candidate(pre, coef)),
        )
    }

    /// One accepted steady-state step: the candidate is returned and each of
    /// the three windows slides by exactly one entry.
    pub open spec fn accept_post(
        pre: Self,
        post: Self,
        prev: Seq<S>,
        curr: Seq<S>,
        coef: Seq<S>,
        out: Seq<S>,
    ) -> bool {
        &&& out == Self::candidate(pre, coef)
        &&& post.iter_history() == pre.iter_history().skip(1).push(curr)
        &&& post.res_history() == pre.res_history().skip(1).push(sub_seq(curr, prev))
        &&& post.err_history() == pre.err_history().skip(1).push(rms_spec(prev, out))
    }

    /// One restarted steady-state step: the extrapolated candidate is
    /// discarded, the iterate paired with the smallest recorded divergence
    /// measure is returned, and all three buffers are emptied, so the next
    /// call behaves as the first warm-up call.
    ///
    /// The minimum-measure lookup happens before the history window slides,
    /// so the error window and the iterate window are index-aligned at the
    /// moment of selection.
    pub open spec fn restart_post(pre: Self, post: Self, out: Seq<S>) -> bool {
        &&& out == pre.iter_history()[min_idx(pre.err_history())]
        &&& post.iter_history().len() == 0
        &&& post.res_history().len() == 0
        &&& post.err_history().len() == 0
    }

    /// What one steady-state call establishes when it returns a value:
    /// either the restart safeguard fired, or the window slid and the
    /// candidate was accepted.  `curr` is the raw update output and `coef`
    /// the solved coefficient vector.
    pub open spec fn steady_post(
        pre: Self,
        post: Self,
        prev: Seq<S>,
        curr: Seq<S>,
        coef: Seq<S>,
        out: Seq<S>,
    ) -> bool {
        &&& curr.len() == prev.len()
        &&& coef.len() == pre.depth + 1
        &&& Self::same_config(pre, post)
        &&& if Self::restart_trig(pre, prev, coef) {
            Self::restart_post(pre, post, out)
        } else {
            Self::accept_post(pre, post, prev, curr, coef, out)
        }
    }

    /// What a completed warm-up call relates: for some raw update output
    /// `curr`, the call performed [`DIIS::warmup_post`].
    pub open spec fn warmup_rel(pre: Self, post: Self, prev: Seq<S>, out: Seq<S>) -> bool {
        exists|curr: Seq<S>| Self::warmup_post(pre, post, prev, curr, out)
    }

    /// What a completed steady-state call relates: for some raw update
    /// output `curr` and solved coefficients `coef`, the call performed
    /// [`DIIS::steady_post`].
    pub open spec fn steady_rel(pre: Self, post: Self, prev: Seq<S>, out: Seq<S>) -> bool {
        exists|curr: Seq<S>, coef: Seq<S>| Self::steady_post(pre, post, prev, curr, coef, out)
    }

    /// Rejects a zero depth, a damping fraction outside (0, 1], and a
    /// non-positive restart multiplier; otherwise returns the accelerator
    /// with all three history buffers empty.
    pub fn new(eta: S, depth: usize, restart: i64) -> (r: Result<Self, ConvError>)
        ensures
            r matches Ok(d) ==> {
                &&& Self::config_ok(eta, depth, restart)
                &&& d.eta == eta
                &&& d.depth == depth
                &&& d.restart == restart
                &&& d.iter_history().len() == 0
                &&& d.res_history().len() == 0
                &&& d.err_history().len() == 0
                &&& d.wf()
            },
            r matches Err(e) ==> e == ConvError::BadConfig && !Self::config_ok(
                eta,
                depth,
                restart,
            ),
    {
        if depth >= 1 && depth < usize::MAX && restart >= 1 && S::zero().lt(eta) && !S::one().lt(
            eta,
        ) {
            let d = DIIS {
                eta,
                depth,
                restart,
                memory_vec: Vec::new(),
                residuals_vec: Vec::new(),
                rms_vec: Vec::new(),
            };
            proof {
                assert(d.iter_history() =~= Seq::<Seq<S>>::empty());
                assert(d.res_history() =~= Seq::<Seq<S>>::empty());
            }
            Ok(d)
        } else {
            Err(ConvError::BadConfig)
        }
    }

    /// Number of entries currently in the iterate history window.
    pub fn history_len(&self) -> (n: usize)
        ensures
            n == self.iter_history().len(),
    {
        self.memory_vec.len()
    }

    /// Number of entries currently in the residual history window.
    pub fn residual_len(&self) -> (n: usize)
        ensures
            n == self.res_history().len(),
    {
        self.residuals_vec.len()
    }

    /// Number of entries currently in the error-measure window.
    pub fn error_len(&self) -> (n: usize)
        ensures
            n == self.err_history().len(),
    {
        self.rms_vec.len()
    }

    /// The divergence measure between consecutive arrays:
    /// `(1/N) * (sum(curr - prev))^2`.  See [`rms_spec`] for the caveat on
    /// the name: this is a drift signal, not a root-mean-square.
    pub fn compute_rms(&self, prev: &Vec<S>, curr: &Vec<S>) -> (r: S)
        requires
            prev@.len() == curr@.len(),
        ensures
            r == rms_spec(prev@, curr@),
    {
        let d = sum_vec(&sub_vec(curr, prev));
        S::one().div(S::from_usize(curr.len())).mul(d.mul(d))
    }

    /// Damped mixing of `prev` and `curr`, recording `curr` and its residual
    /// in the history windows.
    fn linear_mixing_step(&mut self, prev: &Vec<S>, curr: &Vec<S>) -> (out: Vec<S>)
        requires
            prev@.len() == curr@.len(),
        ensures
            out@ == damp_seq(old(self).eta, prev@, curr@),
            final(self).iter_history() == old(self).iter_history().push(curr@),
            final(self).res_history() == old(self).res_history().push(sub_seq(curr@, prev@)),
            final(self).err_history() == old(self).err_history(),
            Self::same_config(*old(self), *final(self)),
    {
        let out = damp_vec(self.eta, prev, curr);
        let resid = sub_vec(curr, prev);
        self.memory_vec.push(copy_vec(curr));
        self.residuals_vec.push(resid);
        proof {
            assert(self.iter_history() =~= old(self).iter_history().push(curr@));
            assert(self.res_history() =~= old(self).res_history().push(sub_seq(curr@, prev@)));
        }
        out
    }

    /// Build the bordered system from the residual window and solve it, then
    /// combine the history with the returned coefficients into the candidate
    /// iterate.  Reads the history only; the windows are slid by the caller.
    fn diis_step(&self) -> (r: Result<Vec<S>, ConvError>)
        requires
            self.wf(),
            self.iter_history().len() == self.depth,
        ensures
            r matches Err(e) ==> e == ConvError::SolveFailed,
            r matches Ok(out) ==> out@.len() == self.dim() && (exists|coef: Seq<S>|
                coef.len() == self.depth + 1 && out@ == Self::candidate(*self, coef)),
    {
        let n = self.depth;
        let neg1 = S::zero().sub(S::one());

        let mut a: Vec<Vec<S>> = Vec::new();
        let mut i: usize = 0;
        while i < n + 1
            invariant
                self.wf(),
                self.iter_history().len() == self.depth,
                n == self.depth,
                n + 1 <= usize::MAX,
                neg1 == neg_one_s::<S>(),
                i <= n + 1,
                a@.len() == i as int,
                forall|p: int|
                    0 <= p < i as int ==> (#[trigger] a@[p])@ == gram_row(
                        self.res_history(),
                        n as int,
                        p,
                    ),
            decreases n + 1 - i,
        {
            let mut row: Vec<S> = Vec::new();
            let mut j: usize = 0;
            while j < n + 1
                invariant
                    self.wf(),
                    self.iter_history().len() == self.depth,
                    n == self.depth,
                    neg1 == neg_one_s::<S>(),
                    i <= n,
                    j <= n + 1,
                    row@.len() == j as int,
                    forall|q: int|
                        0 <= q < j as int ==> row@[q] == gram_entry(
                            self.res_history(),
                            n as int,
                            i as int,
                            q,
                        ),
                decreases n + 1 - j,
            {
                proof {
                    assert(self.res_history().len() == self.iter_history().len());
                    if 1 <= i && i < n && 1 <= j && j < n {
                        assert(self.res_history()[i as int] == self.residuals_vec@[i as int]@);
                        assert(self.res_history()[j as int] == self.residuals_vec@[j as int]@);
                        assert(self.res_history()[i as int].len() == self.dim());
                        assert(self.res_history()[j as int].len() == self.dim());
                    }
                }
                let v = if i == n && j == n {
                    S::zero()
                } else if 1 <= i && i < n && 1 <= j && j < n {
                    dot_vec(&self.residuals_vec[i], &self.residuals_vec[j])
                } else {
                    neg1
                };
                row.push(v);
                j += 1;
            }
            proof {
                assert(row@ =~= gram_row(self.res_history(), n as int, i as int));
            }
            a.push(row);
            i += 1;
        }

        let mut b: Vec<S> = Vec::new();
        let mut j: usize = 0;
        while j < n + 1
            invariant
                self.wf(),
                n == self.depth,
                neg1 == neg_one_s::<S>(),
                j <= n + 1,
                b@.len() == j as int,
                forall|q: int| 0 <= q < j as int ==> b@[q] == rhs_spec::<S>(n as int)[q],
            decreases n + 1 - j,
        {
            if j == n {
                b.push(neg1);
            } else {
                b.push(S::zero());
            }
            j += 1;
        }
        proof {
            assert(b@ =~= rhs_spec::<S>(n as int));
        }

        let coef = match S::solve(&a, &b) {
            Ok(c) => c,
            Err(_) => {
                return Err(ConvError::SolveFailed);
            },
        };

        let dim = self.memory_vec[0].len();
        proof {
            assert(self.iter_history()[0] == self.memory_vec@[0]@);
        }
        let mut c_hist = zeros_vec(dim);
        let mut min_res = zeros_vec(dim);
        let mut k: usize = 0;
        while k < n
            invariant
                self.wf(),
                self.iter_history().len() == self.depth,
                n == self.depth,
                dim == self.dim(),
                coef@.len() == n + 1,
                k <= n,
                c_hist@ == comb_prefix(self.iter_history(), coef@, k as int, self.dim()),
                min_res@ == comb_prefix(self.res_history(), coef@, k as int, self.dim()),
                c_hist@.len() == dim,
                min_res@.len() == dim,
            decreases n - k,
        {
            proof {
                assert(self.iter_history()[k as int] == self.memory_vec@[k as int]@);
                assert(self.res_history()[k as int] == self.residuals_vec@[k as int]@);
            }
            let tm = scale_vec(&self.memory_vec[k], coef[k]);
            let tr = scale_vec(&self.residuals_vec[k], coef[k]);
            c_hist = add_vec(&c_hist, &tm);
            min_res = add_vec(&min_res, &tr);
            k += 1;
        }

        let out = add_vec(&scale_vec(&min_res, self.eta), &c_hist);
        proof {
            assert(out@ == Self::candidate(*self, coef@));
        }
        Ok(out)
    }

    /// One accelerated step.
    ///
    /// While the history is shorter than `depth` (warm-up), this behaves as
    /// linear damping with the same `eta`, call for call, except that the
    /// raw update output, its residual and the output's divergence measure
    /// are recorded.  Once the history holds exactly `depth` entries (steady
    /// state), the bordered system is solved and the history combined into
    /// an extrapolated candidate; a failed solve is reported as
    /// `Err(SolveFailed)` with the accelerator left untouched.  The restart
    /// safeguard (a successful recovery, not an error) replaces a drifting
    /// candidate by the best recorded iterate and empties every buffer.
    pub fn advance<P: ConvProblem<S>>(&mut self, problem: &mut P, state: &ConvState<S>) -> (r:
        Result<Vec<S>, ConvError>)
        requires
            old(self).wf(),
            old(self).iter_history().len() > 0 ==> state.input@.len() == old(self).dim(),
        ensures
            final(self).wf(),
            Self::same_config(*old(self), *final(self)),
            r matches Ok(out) ==> out@.len() == state.input@.len(),
            old(self).iter_history().len() < old(self).depth ==> r is Ok,
            old(self).iter_history().len() < old(self).depth ==> (r matches Ok(out)
                ==> Self::warmup_rel(*old(self), *final(self), state.input@, out@)),
            old(self).iter_history().len() < old(self).depth ==> final(self).iter_history().len()
                == old(self).iter_history().len() + 1,
            old(self).iter_history().len() == old(self).depth ==> (r matches Ok(out)
                ==> Self::steady_rel(*old(self), *final(self), state.input@, out@)),
            old(self).iter_history().len() == old(self).depth && r is Ok
                ==> (final(self).iter_history().len() == old(self).depth
                || final(self).iter_history().len() == 0),
            old(self).iter_history().len() == old(self).depth ==> (r matches Err(e) ==> e
                == ConvError::SolveFailed && *final(self) == *old(self)),
    {
        let curr = problem.update(&state.input);
        let ghost curr_v = curr@;
        if self.memory_vec.len() < self.depth {
            let out = self.linear_mixing_step(&state.input, &curr);
            let e = self.compute_rms(&state.input, &out);
            self.rms_vec.push(e);
            proof {
                assert(old(self).iter_history().len() == old(self).memory_vec@.len());
                assert(Self::warmup_post(*old(self), *self, state.input@, curr_v, out@));
                assert(Self::warmup_rel(*old(self), *self, state.input@, out@));
            }
            Ok(out)
        } else {
            proof {
                assert(old(self).iter_history().len() == old(self).memory_vec@.len());
                assert(old(self).iter_history().len() == old(self).depth);
            }
            let cand = match self.diis_step() {
                Ok(c) => c,
                Err(e) => {
                    return Err(e);
                },
            };
            let e_new = self.compute_rms(&state.input, &cand);
            let m = min_index_vec(&self.rms_vec);
            let thr = S::from_i64(self.restart).mul(self.rms_vec[m]);
            proof {
                assert(self.iter_history()[m as int] == self.memory_vec@[m as int]@);
            }
            if thr.lt(e_new) {
                let out = copy_vec(&self.memory_vec[m]);
                self.memory_vec = Vec::new();
                self.residuals_vec = Vec::new();
                self.rms_vec = Vec::new();
                proof {
                    assert(self.iter_history() =~= Seq::<Seq<S>>::empty());
                    assert(self.res_history() =~= Seq::<Seq<S>>::empty());
                    let coef = choose|c: Seq<S>|
                        c.len() == old(self).depth + 1 && cand@ == Self::candidate(*old(self), c);
                    assert(Self::restart_trig(*old(self), state.input@, coef));
                    assert(Self::steady_post(
                        *old(self),
                        *self,
                        state.input@,
                        curr_v,
                        coef,
                        out@,
                    ));
                    assert(Self::steady_rel(*old(self), *self, state.input@, out@));
                }
                Ok(out)
            } else {
                let resid = sub_vec(&curr, &state.input);
                self.memory_vec.push(curr);
                let _ = self.memory_vec.remove(0);
                self.residuals_vec.push(resid);
                let _ = self.residuals_vec.remove(0);
                self.rms_vec.push(e_new);
                let _ = self.rms_vec.remove(0);
                proof {
                    assert(self.iter_history() =~= old(self).iter_history().skip(1).push(curr_v));
                    assert(self.res_history() =~= old(self).res_history().skip(1).push(
                        sub_seq(curr_v, state.input@),
                    ));
                    assert(self.err_history() =~= old(self).err_history().skip(1).push(e_new));
                    let coef = choose|c: Seq<S>|
                        c.len() == old(self).depth + 1 && cand@ == Self::candidate(*old(self), c);
                    assert(!Self::restart_trig(*old(self), state.input@, coef));
                    assert(Self::steady_post(
                        *old(self),
                        *self,
                        state.input@,
                        curr_v,
                        coef,
                        cand@,
                    ));
                    assert(Self::steady_rel(*old(self), *self, state.input@, cand@));
                }
                Ok(cand)
            }
        }
    }
}

impl<S: ConvFloat, P: ConvProblem<S>> Converger<S, P> for DIIS<S> {
    /// The history buffers are well formed.
    open spec fn inv(&self) -> bool {
        self.wf()
    }

    /// A non-empty history pins the shape of the iterate.
    open spec fn accepts(&self, dim: nat) -> bool {
        self.iter_history().len() > 0 ==> dim == self.dim()
    }

    fn next_iter(&mut self, problem: &mut P, state: &mut ConvState<S>) -> (r: Result<
        Vec<S>,
        ConvError,
    >) {
        self.advance(problem, state)
    }
}

} // verus!
