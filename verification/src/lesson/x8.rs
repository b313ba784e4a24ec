//! 2D nonlinear convection: two coupled velocity fields. Each time step
//! snapshots both fields, rewrites every cell off the first row and column
//! of each field from both snapshots, then resets all borders of both
//! fields to a fixed value.

use vstd::prelude::*;

use crate::bc::border_const;
use crate::field::Field;
use crate::iterate::{iterated, lemma_iterated_step};
use crate::stencil::{corner_swept2, sweep_corner2};

verus! {

/// The step relation of one time step over the pair `(u, v)`: a corner
/// sweep of each field from both snapshots, then borders reset to `bv`.
pub open spec fn step_rel<T, FU: Fn(T, T, T, T, T, T) -> T, FV: Fn(T, T, T, T, T, T) -> T>(
    fu: FU,
    fv: FV,
    nx: nat,
    bv: T,
) -> spec_fn((Seq<Seq<T>>, Seq<Seq<T>>), (Seq<Seq<T>>, Seq<Seq<T>>)) -> bool {
    |pre: (Seq<Seq<T>>, Seq<Seq<T>>), post: (Seq<Seq<T>>, Seq<Seq<T>>)|
        exists|mu: Seq<Seq<T>>, mv: Seq<Seq<T>>|
            #![trigger border_const(mu, nx, bv), border_const(mv, nx, bv)]
            {
                &&& corner_swept2(fu, pre.0, pre.1, pre.0, mu, pre.0.len() as int, nx as int)
                &&& corner_swept2(fv, pre.1, pre.0, pre.1, mv, pre.1.len() as int, nx as int)
                &&& post.0 == border_const(mu, nx, bv)
                &&& post.1 == border_const(mv, nx, bv)
            }
}

/// Advance `u` and `v` together through `nt + 1` time steps.
pub fn solve<
    T: Copy,
    FU: Fn(T, T, T, T, T, T) -> T + Copy,
    FV: Fn(T, T, T, T, T, T) -> T + Copy,
>(u: &mut Field<T>, v: &mut Field<T>, nt: usize, fu: FU, fv: FV, bv: T)
    requires
        old(u).wf(),
        old(v).wf(),
        old(v)@.len() == old(u)@.len(),
        old(v).cols() == old(u).cols(),
        old(u)@.len() >= 1,
        old(u).cols() >= 1,
        nt < usize::MAX,
        forall|ac: T, al: T, ad: T, bc: T, bl: T, bd: T|
            call_requires(fu, (ac, al, ad, bc, bl, bd)),
        forall|ac: T, al: T, ad: T, bc: T, bl: T, bd: T|
            call_requires(fv, (ac, al, ad, bc, bl, bd)),
    ensures
        final(u).wf(),
        final(v).wf(),
        final(u).cols() == old(u).cols(),
        final(u)@.len() == old(u)@.len(),
        final(v).cols() == old(v).cols(),
        final(v)@.len() == old(v)@.len(),
        iterated(
            step_rel(fu, fv, old(u).cols(), bv),
            (old(u)@, old(v)@),
            (final(u)@, final(v)@),
            (nt + 1) as nat,
        ),
{
    let ghost nx = old(u).cols();
    let ghost r = step_rel(fu, fv, nx, bv);
    let mut t: usize = 0;
    while t < nt + 1
        invariant
            u.wf(),
            v.wf(),
            u.cols() == old(u).cols(),
            u@.len() == old(u)@.len(),
            v.cols() == old(v).cols(),
            v@.len() == old(v)@.len(),
            old(v)@.len() == old(u)@.len(),
            old(v).cols() == old(u).cols(),
            old(u)@.len() >= 1,
            old(u).cols() >= 1,
            nx == old(u).cols(),
            r == step_rel(fu, fv, nx, bv),
            nt < usize::MAX,
            t <= nt + 1,
            forall|ac: T, al: T, ad: T, bc: T, bl: T, bd: T|
                call_requires(fu, (ac, al, ad, bc, bl, bd)),
            forall|ac: T, al: T, ad: T, bc: T, bl: T, bd: T|
                call_requires(fv, (ac, al, ad, bc, bl, bd)),
            iterated(r, (old(u)@, old(v)@), (u@, v@), t as nat),
        decreases nt + 1 - t,
    {
        let un = u.snapshot();
        let vn = v.snapshot();
        let ghost pre = (u@, v@);
        sweep_corner2(u, &un, &vn, fu);
        let ghost mu = u@;
        sweep_corner2(v, &vn, &un, fv);
        let ghost mv = v@;
        u.apply_border_const(bv);
        v.apply_border_const(bv);
        proof {
            assert(r(pre, (u@, v@))) by {
                assert(corner_swept2(fu, pre.0, pre.1, pre.0, mu, pre.0.len() as int, nx as int));
                assert(corner_swept2(fv, pre.1, pre.0, pre.1, mv, pre.1.len() as int, nx as int));
                assert(u@ == border_const(mu, nx, bv));
                assert(v@ == border_const(mv, nx, bv));
            }
            lemma_iterated_step(r, (old(u)@, old(v)@), pre, (u@, v@), t as nat);
        }
        t += 1;
    }
}

} // verus!
