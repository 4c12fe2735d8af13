use vstd::prelude::*;

verus! {

/// Failure taxonomy of the accelerator core.
///
/// The restart safeguard is deliberately *not* represented here: discarding a
/// drifting subspace is a successful recovery, not a failure.
#[derive(Clone, Copy, PartialEq, Eq, Structural, Debug)]
pub enum ConvError {
    /// A configuration was rejected at construction (zero subspace depth,
    /// damping fraction outside (0, 1], or a non-positive restart threshold).
    BadConfig,
    /// The dense solve of the extrapolation system failed
    /// (singular or otherwise unsolvable matrix).
    SolveFailed,
}

/// The scalar element type of iterates.
///
/// The accelerator never computes with concrete numbers itself: every
/// arithmetic step goes through this trait, and every contract is stated over
/// the paired `*_s` specification functions, which an implementor leaves
/// abstract.  An implementation supplies a floating-point type (or any other
/// field-like scalar) together with a dense linear solver for the small
/// extrapolation system.
pub trait ConvFloat: Sized + Copy {
    /// Model of the additive identity returned by `zero`.
    spec fn zero_s() -> Self;

    /// Model of the multiplicative identity returned by `one`.
    spec fn one_s() -> Self;

    /// Model of the scalar that `from_i64` returns.
    spec fn from_i64_s(n: i64) -> Self;

    /// Model of the scalar that `from_usize` returns.
    spec fn from_usize_s(n: usize) -> Self;

    /// Model of addition.
    spec fn add_s(self, o: Self) -> Self;

    /// Model of subtraction.
    spec fn sub_s(self, o: Self) -> Self;

    /// Model of multiplication.
    spec fn mul_s(self, o: Self) -> Self;

    /// Model of division.
    spec fn div_s(self, o: Self) -> Self;

    /// Model of the strict order used by the restart heuristic.
    spec fn lt_s(self, o: Self) -> bool;

    fn zero() -> (r: Self)
        ensures
            r == Self::zero_s(),
    ;

    fn one() -> (r: Self)
        ensures
            r == Self::one_s(),
    ;

    fn from_i64(n: i64) -> (r: Self)
        ensures
            r == Self::from_i64_s(n),
    ;

    fn from_usize(n: usize) -> (r: Self)
        ensures
            r == Self::from_usize_s(n),
    ;

    fn add(self, o: Self) -> (r: Self)
        ensures
            r == self.add_s(o),
    ;

    fn sub(self, o: Self) -> (r: Self)
        ensures
            r == self.sub_s(o),
    ;

    fn mul(self, o: Self) -> (r: Self)
        ensures
            r == self.mul_s(o),
    ;

    fn div(self, o: Self) -> (r: Self)
        ensures
            r == self.div_s(o),
    ;

    fn lt(self, o: Self) -> (r: bool)
        ensures
            r == self.lt_s(o),
    ;

    /// Dense linear solve of the square system `a * x = b`.
    ///
    /// Nothing is assumed about the solution values: the accelerator treats
    /// the returned coefficients as opaque and states its own contracts for
    /// every possible outcome.  An implementation reports an unsolvable
    /// system as `Err(ConvError::SolveFailed)`.
    fn solve(a: &Vec<Vec<Self>>, b: &Vec<Self>) -> (r: Result<Vec<Self>, ConvError>)
        requires
            a@.len() == b@.len(),
            forall|i: int| 0 <= i < a@.len() ==> (#[trigger] a@[i])@.len() == b@.len(),
        ensures
            r matches Ok(c) ==> c@.len() == b@.len(),
            r matches Err(e) ==> e == ConvError::SolveFailed,
    ;
}

} // verus!
