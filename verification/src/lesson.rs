//! The lessons: one module per solver, in the order the model equations are
//! usually taught. Each `solve` advances its field through the configured
//! number of explicit time steps (or until a convergence test passes),
//! taking the per-cell update formulas as kernel functions. Its contract
//! states that the final field is reachable from the initial one by exactly
//! that many applications of the lesson's step relation, which pins down
//! every sweep range, snapshot read and boundary overwrite of one step.

pub mod x2;
pub mod x3;
pub mod x4;
pub mod x5;
pub mod x7;
pub mod x8;
pub mod x9;
pub mod xa;
pub mod xc;
pub mod xd;
pub mod xe;
pub mod xf;
