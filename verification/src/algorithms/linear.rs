use vstd::prelude::*;

use crate::arrays::{damp_seq, damp_vec};
use crate::solver::{ConvProblem, ConvState, Converger};
use crate::types::{ConvError, ConvFloat};

verus! {

/// Stateless single-step damped mixing:
/// `advance` returns `eta * update(x) + (1 - eta) * x`.
///
/// `eta = 1` reduces to unmixed fixed-point iteration; `eta` near `0`
/// approaches no movement.  There is no history and no error condition beyond
/// the update operator's own.
pub struct LinearDamping<S> {
    pub eta: S,
}

impl<S: ConvFloat> LinearDamping<S> {
    pub fn new(eta: S) -> (r: Self)
        ensures
            r.eta == eta,
    {
        LinearDamping { eta }
    }

    /// One accelerated step: evaluate the update operator exactly once and
    /// blend its output with the input iterate.  The state itself is not
    /// modified; the driver decides what to write back.
    pub fn advance<P: ConvProblem<S>>(&self, problem: &mut P, state: &ConvState<S>) -> (r: Vec<
        S,
    >)
        ensures
            r@.len() == state.input@.len(),
            (exists|curr: Seq<S>|
                curr.len() == state.input@.len() && r@ == damp_seq(self.eta, state.input@, curr)),
    {
        let curr = problem.update(&state.input);
        let out = damp_vec(self.eta, &state.input, &curr);
        proof {
            assert(curr@.len() == state.input@.len() && out@ == damp_seq(
                self.eta,
                state.input@,
                curr@,
            ));
        }
        out
    }
}

impl<S: ConvFloat, P: ConvProblem<S>> Converger<S, P> for LinearDamping<S> {
    open spec fn inv(&self) -> bool {
        true
    }

    open spec fn accepts(&self, dim: nat) -> bool {
        true
    }

    fn next_iter(&mut self, problem: &mut P, state: &mut ConvState<S>) -> (r: Result<
        Vec<S>,
        ConvError,
    >) {
        Ok(self.advance(problem, state))
    }
}

} // verus!
