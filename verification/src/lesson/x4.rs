//! 1D diffusion: each time step rewrites every cell but the two ends from
//! the previous state's left, centre and right neighbours; both end cells
//! keep their values throughout.

use vstd::prelude::*;

use crate::iterate::{iterated, lemma_iterated_step};
use crate::line::{copy_vec, sweep_three, three_swept};

verus! {

/// The step relation of one time step as a function of the kernel.
pub open spec fn step_rel<T, F: Fn(T, T, T) -> T>(f: F) -> spec_fn(Seq<T>, Seq<T>) -> bool {
    |pre: Seq<T>, post: Seq<T>| three_swept(f, pre, post)
}

/// Advance `u` through `nt` time steps. Each step snapshots the field and
/// rewrites every cell `1 <= i < len - 1` to `f(left, centre, right)` of the
/// snapshot.
pub fn solve<T: Copy, F: Fn(T, T, T) -> T + Copy>(u: &mut Vec<T>, nt: usize, f: F)
    requires
        forall|l: T, c: T, r: T| call_requires(f, (l, c, r)),
    ensures
        final(u)@.len() == old(u)@.len(),
        iterated(step_rel(f), old(u)@, final(u)@, nt as nat),
{
    let mut t: usize = 0;
    while t < nt
        invariant
            t <= nt,
            u@.len() == old(u)@.len(),
            forall|l: T, c: T, r: T| call_requires(f, (l, c, r)),
            iterated(step_rel(f), old(u)@, u@, t as nat),
        decreases nt - t,
    {
        let un = copy_vec(u);
        let ghost prev = u@;
        sweep_three(u, &un, f);
        proof {
            assert(step_rel(f)(prev, u@));
            lemma_iterated_step(step_rel(f), old(u)@, prev, u@, t as nat);
        }
        t += 1;
    }
}

} // verus!
