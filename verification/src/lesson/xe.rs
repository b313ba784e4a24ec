//! Lid-driven cavity flow: the incompressible Navier-Stokes solver. Each
//! outer time step snapshots the velocity fields, rebuilds the pressure
//! source term from them, relaxes the pressure field through a fixed number
//! of inner sweeps, rewrites the velocity interiors from the snapshots and
//! the relaxed pressure, and re-applies the wall and driven-lid boundary
//! conditions.
//!
//! Kernel argument order: the source-term kernel takes the `u` and `v`
//! neighbourhoods; the relaxation kernel takes the pressure-snapshot and
//! source neighbourhoods; both momentum kernels take the `u`-snapshot,
//! `v`-snapshot and pressure neighbourhoods.

use vstd::prelude::*;

use crate::bc::{border_const, lid_walls};
use crate::field::{const_grid, Field};
use crate::iterate::{iterated, lemma_iterated_step};
use crate::stencil::{
    interior_swept2, interior_swept3, sweep_interior2, sweep_interior3, Patch,
};

verus! {

/// The relation of one inner pressure-relaxation sweep against the fixed
/// source grid `bs`: every interior cell is rewritten by the kernel from
/// the snapshot's and the source's neighbourhoods, borders untouched.
pub open spec fn poisson_rel<T, F: Fn(Patch<T>, Patch<T>) -> T>(
    f: F,
    bs: Seq<Seq<T>>,
    ny: int,
    nx: int,
) -> spec_fn(Seq<Seq<T>>, Seq<Seq<T>>) -> bool {
    |pp: Seq<Seq<T>>, pq: Seq<Seq<T>>| interior_swept2(f, pp, bs, pp, pq, ny, nx)
}

/// Rebuild the source term `b` from the current velocity fields: every
/// interior cell of `b` is rewritten by the kernel from the velocity
/// neighbourhoods; the borders of `b` keep their values.
pub fn set_b<T: Copy, F: Fn(Patch<T>, Patch<T>) -> T + Copy>(
    b: &mut Field<T>,
    u: &Field<T>,
    v: &Field<T>,
    f: F,
)
    requires
        old(b).wf(),
        u.wf(),
        v.wf(),
        u@.len() == old(b)@.len(),
        u.cols() == old(b).cols(),
        v@.len() == old(b)@.len(),
        v.cols() == old(b).cols(),
        forall|pa: Patch<T>, pb: Patch<T>| call_requires(f, (pa, pb)),
    ensures
        final(b).wf(),
        final(b).cols() == old(b).cols(),
        final(b)@.len() == old(b)@.len(),
        interior_swept2(
            f,
            u@,
            v@,
            old(b)@,
            final(b)@,
            old(b)@.len() as int,
            old(b).cols() as int,
        ),
{
    sweep_interior2(b, u, v, f);
}

/// The Pressure-Poisson Relaxer: run `nit` relaxation sweeps of `p` against
/// the fixed source term `b`, holding the borders of `p` fixed.
pub fn set_pressure_poisson<T: Copy, F: Fn(Patch<T>, Patch<T>) -> T + Copy>(
    p: &mut Field<T>,
    b: &Field<T>,
    nit: usize,
    f: F,
)
    requires
        old(p).wf(),
        b.wf(),
        b@.len() == old(p)@.len(),
        b.cols() == old(p).cols(),
        forall|pa: Patch<T>, pb: Patch<T>| call_requires(f, (pa, pb)),
    ensures
        final(p).wf(),
        final(p).cols() == old(p).cols(),
        final(p)@.len() == old(p)@.len(),
        iterated(
            poisson_rel(f, b@, old(p)@.len() as int, old(p).cols() as int),
            old(p)@,
            final(p)@,
            nit as nat,
        ),
{
    let ghost r = poisson_rel(f, b@, old(p)@.len() as int, old(p).cols() as int);
    let mut t: usize = 0;
    while t < nit
        invariant
            p.wf(),
            b.wf(),
            p.cols() == old(p).cols(),
            p@.len() == old(p)@.len(),
            b@.len() == old(p)@.len(),
            b.cols() == old(p).cols(),
            r == poisson_rel(f, b@, old(p)@.len() as int, old(p).cols() as int),
            t <= nit,
            forall|pa: Patch<T>, pb: Patch<T>| call_requires(f, (pa, pb)),
            iterated(r, old(p)@, p@, t as nat),
        decreases nit - t,
    {
        let pn = p.snapshot();
        let ghost prev = p@;
        sweep_interior2(p, &pn, b, f);
        proof {
            assert(r(prev, p@));
            lemma_iterated_step(r, old(p)@, prev, p@, t as nat);
        }
        t += 1;
    }
}

/// The step relation of one outer time step over the triple `(u, v, p)`:
/// rebuild the source term from the pre-step velocities over a zero grid,
/// relax the pressure `nit` times against it, rewrite both velocity
/// interiors from the velocity snapshots and the relaxed pressure, then
/// re-apply the boundary conditions (driven lid on `u`, walls on `v`).
pub open spec fn step_rel<
    T,
    FB: Fn(Patch<T>, Patch<T>) -> T,
    FP: Fn(Patch<T>, Patch<T>) -> T,
    FU: Fn(Patch<T>, Patch<T>, Patch<T>) -> T,
    FV: Fn(Patch<T>, Patch<T>, Patch<T>) -> T,
>(fb: FB, fp: FP, fu: FU, fv: FV, nx: nat, zero: T, lid: T, nit: nat) -> spec_fn(
    (Seq<Seq<T>>, Seq<Seq<T>>, Seq<Seq<T>>),
    (Seq<Seq<T>>, Seq<Seq<T>>, Seq<Seq<T>>),
) -> bool {
    |pre: (Seq<Seq<T>>, Seq<Seq<T>>, Seq<Seq<T>>), post: (Seq<Seq<T>>, Seq<Seq<T>>, Seq<Seq<T>>)|
        exists|bs: Seq<Seq<T>>, mu: Seq<Seq<T>>, mv: Seq<Seq<T>>|
            #![trigger
                interior_swept2(
                    fb,
                    pre.0,
                    pre.1,
                    const_grid(pre.0.len(), nx, zero),
                    bs,
                    pre.0.len() as int,
                    nx as int,
                ),
                lid_walls(mu, nx, zero, lid),
                border_const(mv, nx, zero)
            ]
            {
                &&& interior_swept2(
                    fb,
                    pre.0,
                    pre.1,
                    const_grid(pre.0.len(), nx, zero),
                    bs,
                    pre.0.len() as int,
                    nx as int,
                )
                &&& iterated(
                    poisson_rel(fp, bs, pre.0.len() as int, nx as int),
                    pre.2,
                    post.2,
                    nit,
                )
                &&& interior_swept3(fu, pre.0, pre.1, post.2, pre.0, mu, pre.0.len() as int, nx as int)
                &&& interior_swept3(fv, pre.0, pre.1, post.2, pre.1, mv, pre.0.len() as int, nx as int)
                &&& post.0 == lid_walls(mu, nx, zero, lid)
                &&& post.1 == border_const(mv, nx, zero)
            }
}

/// The Cavity-Flow Driver: advance `u`, `v` and `p` together through `nt`
/// outer time steps of `nit` inner pressure sweeps each.
pub fn solve<
    T: Copy,
    FB: Fn(Patch<T>, Patch<T>) -> T + Copy,
    FP: Fn(Patch<T>, Patch<T>) -> T + Copy,
    FU: Fn(Patch<T>, Patch<T>, Patch<T>) -> T + Copy,
    FV: Fn(Patch<T>, Patch<T>, Patch<T>) -> T + Copy,
>(
    u: &mut Field<T>,
    v: &mut Field<T>,
    p: &mut Field<T>,
    nt: usize,
    nit: usize,
    fb: FB,
    fp: FP,
    fu: FU,
    fv: FV,
    zero: T,
    lid: T,
)
    requires
        old(u).wf(),
        old(v).wf(),
        old(p).wf(),
        old(v)@.len() == old(u)@.len(),
        old(v).cols() == old(u).cols(),
        old(p)@.len() == old(u)@.len(),
        old(p).cols() == old(u).cols(),
        old(u)@.len() >= 1,
        old(u).cols() >= 1,
        forall|pa: Patch<T>, pb: Patch<T>| call_requires(fb, (pa, pb)),
        forall|pa: Patch<T>, pb: Patch<T>| call_requires(fp, (pa, pb)),
        forall|pa: Patch<T>, pb: Patch<T>, pc: Patch<T>| call_requires(fu, (pa, pb, pc)),
        forall|pa: Patch<T>, pb: Patch<T>, pc: Patch<T>| call_requires(fv, (pa, pb, pc)),
    ensures
        final(u).wf(),
        final(v).wf(),
        final(p).wf(),
        final(u).cols() == old(u).cols(),
        final(u)@.len() == old(u)@.len(),
        final(v).cols() == old(v).cols(),
        final(v)@.len() == old(v)@.len(),
        final(p).cols() == old(p).cols(),
        final(p)@.len() == old(p)@.len(),
        iterated(
            step_rel(fb, fp, fu, fv, old(u).cols(), zero, lid, nit as nat),
            (old(u)@, old(v)@, old(p)@),
            (final(u)@, final(v)@, final(p)@),
            nt as nat,
        ),
{
    let ny = u.ny();
    let nx = u.nx();
    let ghost gnx = old(u).cols();
    let ghost r = step_rel(fb, fp, fu, fv, gnx, zero, lid, nit as nat);
    let mut t: usize = 0;
    while t < nt
        invariant
            u.wf(),
            v.wf(),
            p.wf(),
            u.cols() == old(u).cols(),
            u@.len() == old(u)@.len(),
            v.cols() == old(v).cols(),
            v@.len() == old(v)@.len(),
            p.cols() == old(p).cols(),
            p@.len() == old(p)@.len(),
            old(v)@.len() == old(u)@.len(),
            old(v).cols() == old(u).cols(),
            old(p)@.len() == old(u)@.len(),
            old(p).cols() == old(u).cols(),
            old(u)@.len() >= 1,
            old(u).cols() >= 1,
            ny == old(u)@.len(),
            nx == old(u).cols(),
            gnx == old(u).cols(),
            r == step_rel(fb, fp, fu, fv, gnx, zero, lid, nit as nat),
            t <= nt,
            forall|pa: Patch<T>, pb: Patch<T>| call_requires(fb, (pa, pb)),
            forall|pa: Patch<T>, pb: Patch<T>| call_requires(fp, (pa, pb)),
            forall|pa: Patch<T>, pb: Patch<T>, pc: Patch<T>| call_requires(fu, (pa, pb, pc)),
            forall|pa: Patch<T>, pb: Patch<T>, pc: Patch<T>| call_requires(fv, (pa, pb, pc)),
            iterated(r, (old(u)@, old(v)@, old(p)@), (u@, v@, p@), t as nat),
        decreases nt - t,
    {
        let ghost pre = (u@, v@, p@);
        let un = u.snapshot();
        let vn = v.snapshot();
        let mut b = Field::filled(ny, nx, zero);
        set_b(&mut b, u, v, fb);
        let ghost bs = b@;
        set_pressure_poisson(p, &b, nit, fp);
        sweep_interior3(u, &un, &vn, p, fu);
        let ghost mu = u@;
        sweep_interior3(v, &un, &vn, p, fv);
        let ghost mv = v@;
        u.apply_lid_walls(zero, lid);
        v.apply_border_const(zero);
        proof {
            assert(r(pre, (u@, v@, p@))) by {
                assert(interior_swept2(
                    fb,
                    pre.0,
                    pre.1,
                    const_grid(pre.0.len(), gnx, zero),
                    bs,
                    pre.0.len() as int,
                    gnx as int,
                ));
                assert(iterated(
                    poisson_rel(fp, bs, pre.0.len() as int, gnx as int),
                    pre.2,
                    p@,
                    nit as nat,
                ));
                assert(interior_swept3(
                    fu,
                    pre.0,
                    pre.1,
                    p@,
                    pre.0,
                    mu,
                    pre.0.len() as int,
                    gnx as int,
                ));
                assert(interior_swept3(
                    fv,
                    pre.0,
                    pre.1,
                    p@,
                    pre.1,
                    mv,
                    pre.0.len() as int,
                    gnx as int,
                ));
                assert(u@ == lid_walls(mu, gnx, zero, lid));
                assert(v@ == border_const(mv, gnx, zero));
            }
            lemma_iterated_step(r, (old(u)@, old(v)@, old(p)@), pre, (u@, v@, p@), t as nat);
        }
        t += 1;
    }
}

} // verus!
