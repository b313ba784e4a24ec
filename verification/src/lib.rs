//! Finite-difference solvers for a progression of model PDEs: linear and
//! nonlinear advection, diffusion, Burgers' equation, their 2D versions,
//! Laplace and Poisson equations, and an incompressible Navier-Stokes solver
//! (lid-driven cavity and body-forced periodic channel).
//!
//! Every solver advances a scalar or vector field on a fixed rectangular grid
//! through explicit stencil updates. The verified core pins down the whole
//! structure of each computation: which cells each sweep writes, which
//! snapshot cells each new value is computed from, how boundary conditions
//! overwrite the borders, and how the per-step relations chain across the
//! time loop. The per-cell arithmetic itself is a parameter: each sweep takes
//! a kernel function, and the contracts relate every written cell to the
//! kernel's contract on the exact snapshot values it was handed.

pub mod bc;
pub mod field;
pub mod iterate;
pub mod lesson;
pub mod line;
pub mod stencil;
