//! Poisson equation: relax a pressure field against a fixed source term.
//! Each sweep rewrites every interior cell from the snapshot's neighbours
//! and the source cell, then resets all four borders to a fixed value.

use vstd::prelude::*;

use crate::bc::border_const;
use crate::field::Field;
use crate::iterate::{iterated, lemma_iterated_step};
use crate::stencil::{interior_swept2, sweep_interior2, Patch};

verus! {

/// The step relation of one relaxation sweep against the source grid `bs`:
/// an interior sweep with the kernel `f` reading the snapshot and the
/// source, then borders reset to `bv`.
pub open spec fn step_rel<T, F: Fn(Patch<T>, Patch<T>) -> T>(
    f: F,
    nx: nat,
    bv: T,
    bs: Seq<Seq<T>>,
) -> spec_fn(Seq<Seq<T>>, Seq<Seq<T>>) -> bool {
    |pre: Seq<Seq<T>>, post: Seq<Seq<T>>|
        exists|mid: Seq<Seq<T>>|
            #[trigger] interior_swept2(f, pre, bs, pre, mid, pre.len() as int, nx as int) && post
                == border_const(mid, nx, bv)
}

/// Relax `p` against the fixed source `b` through `nt + 1` sweeps. Each
/// sweep snapshots `p`, rewrites every interior cell from the snapshot's
/// neighbours and the source's cell, and then resets all four borders to
/// `bv`.
pub fn solve<T: Copy, F: Fn(Patch<T>, Patch<T>) -> T + Copy>(
    p: &mut Field<T>,
    b: &Field<T>,
    nt: usize,
    f: F,
    bv: T,
)
    requires
        old(p).wf(),
        b.wf(),
        b@.len() == old(p)@.len(),
        b.cols() == old(p).cols(),
        old(p)@.len() >= 1,
        old(p).cols() >= 1,
        nt < usize::MAX,
        forall|pa: Patch<T>, pb: Patch<T>| call_requires(f, (pa, pb)),
    ensures
        final(p).wf(),
        final(p).cols() == old(p).cols(),
        final(p)@.len() == old(p)@.len(),
        iterated(step_rel(f, old(p).cols(), bv, b@), old(p)@, final(p)@, (nt + 1) as nat),
{
    let ghost nx = old(p).cols();
    let ghost r = step_rel(f, nx, bv, b@);
    let mut t: usize = 0;
    while t < nt + 1
        invariant
            p.wf(),
            b.wf(),
            p.cols() == old(p).cols(),
            p@.len() == old(p)@.len(),
            b@.len() == old(p)@.len(),
            b.cols() == old(p).cols(),
            old(p)@.len() >= 1,
            old(p).cols() >= 1,
            nx == old(p).cols(),
            r == step_rel(f, nx, bv, b@),
            nt < usize::MAX,
            t <= nt + 1,
            forall|pa: Patch<T>, pb: Patch<T>| call_requires(f, (pa, pb)),
            iterated(r, old(p)@, p@, t as nat),
        decreases nt + 1 - t,
    {
        let pn = p.snapshot();
        let ghost prev = p@;
        sweep_interior2(p, &pn, b, f);
        let ghost mid = p@;
        p.apply_border_const(bv);
        proof {
            assert(interior_swept2(f, prev, b@, prev, mid, prev.len() as int, nx as int) && p@
                == border_const(mid, nx, bv));
            assert(r(prev, p@));
            lemma_iterated_step(r, old(p)@, prev, p@, t as nat);
        }
        t += 1;
    }
}

} // verus!
