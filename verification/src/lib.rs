//! Convergence acceleration for fixed-point iterations `x_{n+1} = f(x_n)`.
//!
//! The crate supplies two pluggable acceleration strategies behind one
//! interface: plain linear (damped) mixing, and DIIS (direct inversion in the
//! iterative subspace, a Pulay-type extrapolation) with bounded history
//! buffers and a restart safeguard.  The update operator `f` itself is an
//! external collaborator, reached through the [`solver::ConvProblem`] trait;
//! the scalar arithmetic and the small dense solve are reached through the
//! [`types::ConvFloat`] trait, so that the algorithmic core is independent of
//! any particular numeric backend.

pub mod algorithms;
pub mod arrays;
pub mod solver;
pub mod types;
