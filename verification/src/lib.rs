//! Jacobi iterative solver for square linear systems `Ax = b`.
//!
//! Real numbers are carried as IEEE 754 binary64 bit patterns (`u64`); the
//! rounded arithmetic runs through `rustc_apfloat`'s IEEE 754 implementation
//! behind the trusted wrappers in [`fp`], and every piece of solver logic is
//! verified against spec-level models of those operations.

pub mod alg_eq;
pub mod env_args;
pub mod formating;
pub mod fp;
