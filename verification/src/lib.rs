//! Constraint-arithmetization core of a PLONK-style proving system.
//!
//! The library turns per-gate and per-wire algebraic relations into
//! contributions to a single quotient-polynomial identity and into scalar
//! coefficients for a combined opening-commitment check.  Field and curve
//! arithmetic come from outside libraries; everything that combines their
//! results — kernels, widgets, the grand-product argument, the work queue and
//! the verification key — is specified and verified here over a mathematical
//! model of the scalar field.

pub mod algebra;
pub mod arithmetic;
pub mod containers;
pub mod curve;
pub mod errors;
pub mod field;
pub mod getter;
pub mod keys;
pub mod manifest;
pub mod permutation;
pub mod transition;
pub mod work_queue;
