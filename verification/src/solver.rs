use vstd::prelude::*;

use crate::types::{ConvError, ConvFloat};

verus! {

/// External collaborator: the fixed-point map being accelerated.
///
/// One operation, `update`, takes the current iterate to the next raw,
/// unaccelerated iterate of the same shape.  Shape preservation is the only
/// contract the core relies on; purity is not assumed, and the core evaluates
/// `update` exactly once per accelerator step.
pub trait ConvProblem<S: ConvFloat> {
    fn update(&mut self, x: &Vec<S>) -> (r: Vec<S>)
        ensures
            r@.len() == x@.len(),
    ;
}

/// Iteration state: exactly one current accepted iterate.  The driver creates
/// it before the first accelerator call, seeds each call from `input`, and
/// overwrites `input` with the returned iterate.
pub struct ConvState<S> {
    pub input: Vec<S>,
}

/// The convergence-accelerator capability: given the problem and the current
/// state, produce the next candidate iterate.
pub trait Converger<S: ConvFloat, P: ConvProblem<S>> {
    /// Accelerator-specific well-formedness of the internal state.
    spec fn inv(&self) -> bool;

    /// Whether a step may be taken from an iterate of length `dim`.
    spec fn accepts(&self, dim: nat) -> bool;

    fn next_iter(&mut self, problem: &mut P, state: &mut ConvState<S>) -> (r: Result<
        Vec<S>,
        ConvError,
    >)
        requires
            old(self).inv(),
            old(self).accepts(old(state).input@.len() as nat),
        ensures
            final(self).inv(),
            final(state).input@ == old(state).input@,
            r matches Ok(out) ==> out@.len() == old(state).input@.len(),
    ;
}

} // verus!
