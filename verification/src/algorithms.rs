pub mod diis;
pub mod linear;
