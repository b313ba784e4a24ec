//! 2D linear convection: each time step rewrites every cell off the first
//! row and first column from the snapshot's centre, left and lower
//! neighbours, then resets all four borders to a fixed value.

use vstd::prelude::*;

use crate::bc::border_const;
use crate::field::Field;
use crate::iterate::{iterated, lemma_iterated_step};
use crate::stencil::{corner_swept1, sweep_corner1};

verus! {

/// The step relation of one time step: a corner sweep with the kernel `f`
/// followed by resetting the borders to `bv`.
pub open spec fn step_rel<T, F: Fn(T, T, T) -> T>(f: F, nx: nat, bv: T) -> spec_fn(
    Seq<Seq<T>>,
    Seq<Seq<T>>,
) -> bool {
    |pre: Seq<Seq<T>>, post: Seq<Seq<T>>|
        exists|mid: Seq<Seq<T>>|
            #[trigger] corner_swept1(f, pre, pre, mid, pre.len() as int, nx as int) && post
                == border_const(mid, nx, bv)
}

/// Advance `u` through `nt + 1` time steps. Each step snapshots the field,
/// rewrites every cell with row and column at least 1 to
/// `f(centre, left, below)` of the snapshot, and then resets all four
/// borders to `bv`.
pub fn solve<T: Copy, F: Fn(T, T, T) -> T + Copy>(u: &mut Field<T>, nt: usize, f: F, bv: T)
    requires
        old(u).wf(),
        old(u)@.len() >= 1,
        old(u).cols() >= 1,
        nt < usize::MAX,
        forall|c: T, l: T, d: T| call_requires(f, (c, l, d)),
    ensures
        final(u).wf(),
        final(u).cols() == old(u).cols(),
        final(u)@.len() == old(u)@.len(),
        iterated(step_rel(f, old(u).cols(), bv), old(u)@, final(u)@, (nt + 1) as nat),
{
    let ghost nx = old(u).cols();
    let mut t: usize = 0;
    while t < nt + 1
        invariant
            u.wf(),
            u.cols() == old(u).cols(),
            u@.len() == old(u)@.len(),
            old(u)@.len() >= 1,
            old(u).cols() >= 1,
            nx == old(u).cols(),
            nt < usize::MAX,
            t <= nt + 1,
            forall|c: T, l: T, d: T| call_requires(f, (c, l, d)),
            iterated(step_rel(f, nx, bv), old(u)@, u@, t as nat),
        decreases nt + 1 - t,
    {
        let un = u.snapshot();
        let ghost prev = u@;
        sweep_corner1(u, &un, f);
        let ghost mid = u@;
        u.apply_border_const(bv);
        proof {
            assert(corner_swept1(f, prev, prev, mid, prev.len() as int, nx as int) && u@
                == border_const(mid, nx, bv));
            assert(step_rel(f, nx, bv)(prev, u@));
            lemma_iterated_step(step_rel(f, nx, bv), old(u)@, prev, u@, t as nat);
        }
        t += 1;
    }
}

} // verus!
