//! 1D linear advection with the time step chosen from a CFL number; the
//! wave speed and grid factors are folded into the kernel, so each time
//! step has the same upwind shape as the first advection lesson.

use vstd::prelude::*;

use crate::iterate::{iterated, lemma_iterated_step};
use crate::line::{copy_vec, sweep_upwind, upwind_swept};

verus! {

/// The step relation of one time step as a function of the kernel.
pub open spec fn step_rel<T, F: Fn(T, T) -> T>(f: F) -> spec_fn(Seq<T>, Seq<T>) -> bool {
    |pre: Seq<T>, post: Seq<T>| upwind_swept(f, pre, post)
}

/// Advance `u` through `nt` time steps. Each step snapshots the field and
/// rewrites every cell `i >= 1` to `f(centre, left)` of the snapshot; cell 0
/// keeps its value throughout.
pub fn solve<T: Copy, F: Fn(T, T) -> T + Copy>(u: &mut Vec<T>, nt: usize, f: F)
    requires
        forall|c: T, l: T| call_requires(f, (c, l)),
    ensures
        final(u)@.len() == old(u)@.len(),
        iterated(step_rel(f), old(u)@, final(u)@, nt as nat),
{
    let mut t: usize = 0;
    while t < nt
        invariant
            t <= nt,
            u@.len() == old(u)@.len(),
            forall|c: T, l: T| call_requires(f, (c, l)),
            iterated(step_rel(f), old(u)@, u@, t as nat),
        decreases nt - t,
    {
        let un = copy_vec(u);
        let ghost prev = u@;
        sweep_upwind(u, &un, f);
        proof {
            assert(step_rel(f)(prev, u@));
            lemma_iterated_step(step_rel(f), old(u)@, prev, u@, t as nat);
        }
        t += 1;
    }
}

} // verus!
