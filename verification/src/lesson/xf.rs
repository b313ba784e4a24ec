//! Channel flow with a body force and x-periodic boundaries: the
//! incompressible Navier-Stokes solver whose outer loop runs until the
//! velocity change between consecutive steps passes the caller's stopping
//! test, or a safety cap on the number of steps runs out. Each outer step
//! rebuilds the source term over the interior and both wrapped outer
//! columns, relaxes the pressure with zero-gradient walls, rewrites both
//! velocity fields over the interior and both wrapped columns, and resets
//! the two wall rows.
//!
//! Kernel argument order: the source-term kernel takes the `u` and `v`
//! neighbourhoods; the relaxation kernel takes the pressure-snapshot and
//! source neighbourhoods; both momentum kernels take the `u`-snapshot,
//! `v`-snapshot and pressure neighbourhoods. The body force belongs in the
//! `u` momentum kernel.

use vstd::prelude::*;

use crate::bc::{neumann_rows, wall_rows};
use crate::field::{const_grid, rows_eq, Field};
use crate::iterate::{
    halted, iterated, lemma_iterated_last, lemma_iterated_step, lemma_iterated_weaken, rejected,
};
use crate::stencil::{
    swept_periodic2, swept_periodic3, sweep_periodic2, sweep_periodic3, Patch,
};

verus! {

/// The relation of one inner pressure sweep against the fixed source grid
/// `bs`: an x-periodic sweep of the pressure followed by the zero-gradient
/// wall rows.
pub open spec fn poisson_rel<T, F: Fn(Patch<T>, Patch<T>) -> T>(
    f: F,
    bs: Seq<Seq<T>>,
    ny: int,
    nx: int,
) -> spec_fn(Seq<Seq<T>>, Seq<Seq<T>>) -> bool {
    |pp: Seq<Seq<T>>, pq: Seq<Seq<T>>|
        exists|m: Seq<Seq<T>>|
            #[trigger] swept_periodic2(f, pp, bs, pp, m, ny, nx) && pq == neumann_rows(m)
}

/// Build the source term from the current velocity fields: a fresh zero
/// grid whose interior and both wrapped outer columns are rewritten by the
/// kernel from the velocity neighbourhoods.
pub fn make_b<T: Copy, F: Fn(Patch<T>, Patch<T>) -> T + Copy>(
    u: &Field<T>,
    v: &Field<T>,
    zero: T,
    f: F,
) -> (b: Field<T>)
    requires
        u.wf(),
        v.wf(),
        v@.len() == u@.len(),
        v.cols() == u.cols(),
        u.cols() >= 1,
        forall|pa: Patch<T>, pb: Patch<T>| call_requires(f, (pa, pb)),
    ensures
        b.wf(),
        b.cols() == u.cols(),
        b@.len() == u@.len(),
        swept_periodic2(
            f,
            u@,
            v@,
            const_grid(u@.len(), u.cols(), zero),
            b@,
            u@.len() as int,
            u.cols() as int,
        ),
{
    let mut b = Field::filled(u.ny(), u.nx(), zero);
    sweep_periodic2(&mut b, u, v, f);
    b
}

/// The Pressure-Poisson Relaxer of the periodic channel: run `nit` sweeps
/// of `p` against the fixed source term `b`; each sweep rewrites the
/// interior and both wrapped outer columns, then copies the inner rows
/// onto the wall rows (zero pressure gradient at the walls).
pub fn set_pressure_poisson<T: Copy, F: Fn(Patch<T>, Patch<T>) -> T + Copy>(
    p: &mut Field<T>,
    b: &Field<T>,
    nit: usize,
    f: F,
)
    requires
        old(p).wf(),
        b.wf(),
        b@.len() == old(p)@.len(),
        b.cols() == old(p).cols(),
        old(p)@.len() >= 3,
        old(p).cols() >= 1,
        forall|pa: Patch<T>, pb: Patch<T>| call_requires(f, (pa, pb)),
    ensures
        final(p).wf(),
        final(p).cols() == old(p).cols(),
        final(p)@.len() == old(p)@.len(),
        iterated(
            poisson_rel(f, b@, old(p)@.len() as int, old(p).cols() as int),
            old(p)@,
            final(p)@,
            nit as nat,
        ),
{
    let ghost gny = old(p)@.len() as int;
    let ghost gnx = old(p).cols() as int;
    let ghost r = poisson_rel(f, b@, gny, gnx);
    let mut t: usize = 0;
    while t < nit
        invariant
            p.wf(),
            b.wf(),
            p.cols() == old(p).cols(),
            p@.len() == old(p)@.len(),
            b@.len() == old(p)@.len(),
            b.cols() == old(p).cols(),
            old(p)@.len() >= 3,
            old(p).cols() >= 1,
            gny == old(p)@.len(),
            gnx == old(p).cols(),
            r == poisson_rel(f, b@, gny, gnx),
            t <= nit,
            forall|pa: Patch<T>, pb: Patch<T>| call_requires(f, (pa, pb)),
            iterated(r, old(p)@, p@, t as nat),
        decreases nit - t,
    {
        let pn = p.snapshot();
        let ghost prev = p@;
        sweep_periodic2(p, &pn, b, f);
        let ghost m = p@;
        p.apply_neumann_rows();
        proof {
            assert(swept_periodic2(f, prev, b@, prev, m, gny, gnx) && p@ == neumann_rows(m));
            assert(r(prev, p@));
            lemma_iterated_step(r, old(p)@, prev, p@, t as nat);
        }
        t += 1;
    }
}

/// The step relation of one outer time step over the triple `(u, v, p)`:
/// rebuild the source term over a zero grid, relax the pressure `nit`
/// times, rewrite both velocity fields over the interior and both wrapped
/// columns from the snapshots and the relaxed pressure, then reset the two
/// wall rows of both velocity fields.
pub open spec fn step_rel<
    T,
    FB: Fn(Patch<T>, Patch<T>) -> T,
    FP: Fn(Patch<T>, Patch<T>) -> T,
    FU: Fn(Patch<T>, Patch<T>, Patch<T>) -> T,
    FV: Fn(Patch<T>, Patch<T>, Patch<T>) -> T,
>(fb: FB, fp: FP, fu: FU, fv: FV, nx: nat, zero: T, nit: nat) -> spec_fn(
    (Seq<Seq<T>>, Seq<Seq<T>>, Seq<Seq<T>>),
    (Seq<Seq<T>>, Seq<Seq<T>>, Seq<Seq<T>>),
) -> bool {
    |pre: (Seq<Seq<T>>, Seq<Seq<T>>, Seq<Seq<T>>), post: (Seq<Seq<T>>, Seq<Seq<T>>, Seq<Seq<T>>)|
        exists|bs: Seq<Seq<T>>, mu: Seq<Seq<T>>, mv: Seq<Seq<T>>|
            #![trigger
                swept_periodic2(
                    fb,
                    pre.0,
                    pre.1,
                    const_grid(pre.0.len(), nx, zero),
                    bs,
                    pre.0.len() as int,
                    nx as int,
                ),
                wall_rows(mu, nx, zero),
                wall_rows(mv, nx, zero)
            ]
            {
                &&& swept_periodic2(
                    fb,
                    pre.0,
                    pre.1,
                    const_grid(pre.0.len(), nx, zero),
                    bs,
                    pre.0.len() as int,
                    nx as int,
                )
                &&& iterated(
                    poisson_rel(fp, bs, pre.0.len() as int, nx as int),
                    pre.2,
                    post.2,
                    nit,
                )
                &&& swept_periodic3(fu, pre.0, pre.1, post.2, pre.0, mu, pre.0.len() as int, nx as int)
                &&& swept_periodic3(fv, pre.0, pre.1, post.2, pre.1, mv, pre.0.len() as int, nx as int)
                &&& post.0 == wall_rows(mu, nx, zero)
                &&& post.1 == wall_rows(mv, nx, zero)
            }
}

/// One outer step whose velocity change the stopping test `d` then
/// rejected: the relation of every outer step of the loop except the one
/// it stopped on. The test is handed the rows of the new `u` first and the
/// rows of the pre-step `u` second.
pub open spec fn rejected_step_rel<
    T,
    FB: Fn(Patch<T>, Patch<T>) -> T,
    FP: Fn(Patch<T>, Patch<T>) -> T,
    FU: Fn(Patch<T>, Patch<T>, Patch<T>) -> T,
    FV: Fn(Patch<T>, Patch<T>, Patch<T>) -> T,
    D: Fn(Vec<Vec<T>>, Vec<Vec<T>>) -> bool,
>(fb: FB, fp: FP, fu: FU, fv: FV, nx: nat, zero: T, nit: nat, d: D) -> spec_fn(
    (Seq<Seq<T>>, Seq<Seq<T>>, Seq<Seq<T>>),
    (Seq<Seq<T>>, Seq<Seq<T>>, Seq<Seq<T>>),
) -> bool {
    |pre: (Seq<Seq<T>>, Seq<Seq<T>>, Seq<Seq<T>>), post: (Seq<Seq<T>>, Seq<Seq<T>>, Seq<Seq<T>>)|
        step_rel(fb, fp, fu, fv, nx, zero, nit)(pre, post) && rejected(d, post.0, pre.0)
}

/// Advance the channel flow until the stopping test `d` accepts a step, or
/// `max_steps` outer steps have run; the step count is returned. After
/// every step, `d` is handed the rows of the new `u` and the rows of the
/// `u` snapshot taken before the step. Every step but the last was
/// rejected by `d`, and when the solver stops before the cap, the last
/// step's states satisfied it.
pub fn solve<
    T: Copy,
    FB: Fn(Patch<T>, Patch<T>) -> T + Copy,
    FP: Fn(Patch<T>, Patch<T>) -> T + Copy,
    FU: Fn(Patch<T>, Patch<T>, Patch<T>) -> T + Copy,
    FV: Fn(Patch<T>, Patch<T>, Patch<T>) -> T + Copy,
    D: Fn(Vec<Vec<T>>, Vec<Vec<T>>) -> bool + Copy,
>(
    u: &mut Field<T>,
    v: &mut Field<T>,
    p: &mut Field<T>,
    nit: usize,
    fb: FB,
    fp: FP,
    fu: FU,
    fv: FV,
    zero: T,
    d: D,
    max_steps: usize,
) -> (steps: usize)
    requires
        old(u).wf(),
        old(v).wf(),
        old(p).wf(),
        old(v)@.len() == old(u)@.len(),
        old(v).cols() == old(u).cols(),
        old(p)@.len() == old(u)@.len(),
        old(p).cols() == old(u).cols(),
        old(u)@.len() >= 3,
        old(u).cols() >= 1,
        forall|pa: Patch<T>, pb: Patch<T>| call_requires(fb, (pa, pb)),
        forall|pa: Patch<T>, pb: Patch<T>| call_requires(fp, (pa, pb)),
        forall|pa: Patch<T>, pb: Patch<T>, pc: Patch<T>| call_requires(fu, (pa, pb, pc)),
        forall|pa: Patch<T>, pb: Patch<T>, pc: Patch<T>| call_requires(fv, (pa, pb, pc)),
        forall|va: Vec<Vec<T>>, vb: Vec<Vec<T>>| call_requires(d, (va, vb)),
    ensures
        final(u).wf(),
        final(v).wf(),
        final(p).wf(),
        final(u).cols() == old(u).cols(),
        final(u)@.len() == old(u)@.len(),
        final(v).cols() == old(v).cols(),
        final(v)@.len() == old(v)@.len(),
        final(p).cols() == old(p).cols(),
        final(p)@.len() == old(p)@.len(),
        steps <= max_steps,
        iterated(
            step_rel(fb, fp, fu, fv, old(u).cols(), zero, nit as nat),
            (old(u)@, old(v)@, old(p)@),
            (final(u)@, final(v)@, final(p)@),
            steps as nat,
        ),
        steps == 0 ==> max_steps == 0 && final(u)@ == old(u)@ && final(v)@ == old(v)@
            && final(p)@ == old(p)@,
        steps >= 1 ==> exists|sp: (Seq<Seq<T>>, Seq<Seq<T>>, Seq<Seq<T>>)|
            #[trigger] iterated(
                rejected_step_rel(fb, fp, fu, fv, old(u).cols(), zero, nit as nat, d),
                (old(u)@, old(v)@, old(p)@),
                sp,
                (steps - 1) as nat,
            ) && step_rel(fb, fp, fu, fv, old(u).cols(), zero, nit as nat)(
                sp,
                (final(u)@, final(v)@, final(p)@),
            ) && (steps < max_steps ==> halted(d, final(u)@, sp.0)),
{
    let ghost gnx = old(u).cols();
    let ghost r = step_rel(fb, fp, fu, fv, gnx, zero, nit as nat);
    let ghost rc = rejected_step_rel(fb, fp, fu, fv, gnx, zero, nit as nat, d);
    let ghost init = (old(u)@, old(v)@, old(p)@);
    let mut steps: usize = 0;
    let mut done = false;
    while !done && steps < max_steps
        invariant
            u.wf(),
            v.wf(),
            p.wf(),
            u.cols() == old(u).cols(),
            u@.len() == old(u)@.len(),
            v.cols() == old(v).cols(),
            v@.len() == old(v)@.len(),
            p.cols() == old(p).cols(),
            p@.len() == old(p)@.len(),
            old(v)@.len() == old(u)@.len(),
            old(v).cols() == old(u).cols(),
            old(p)@.len() == old(u)@.len(),
            old(p).cols() == old(u).cols(),
            old(u)@.len() >= 3,
            old(u).cols() >= 1,
            gnx == old(u).cols(),
            r == step_rel(fb, fp, fu, fv, gnx, zero, nit as nat),
            rc == rejected_step_rel(fb, fp, fu, fv, gnx, zero, nit as nat, d),
            init == (old(u)@, old(v)@, old(p)@),
            steps <= max_steps,
            forall|pa: Patch<T>, pb: Patch<T>| call_requires(fb, (pa, pb)),
            forall|pa: Patch<T>, pb: Patch<T>| call_requires(fp, (pa, pb)),
            forall|pa: Patch<T>, pb: Patch<T>, pc: Patch<T>| call_requires(fu, (pa, pb, pc)),
            forall|pa: Patch<T>, pb: Patch<T>, pc: Patch<T>| call_requires(fv, (pa, pb, pc)),
            forall|va: Vec<Vec<T>>, vb: Vec<Vec<T>>| call_requires(d, (va, vb)),
            !done ==> iterated(rc, init, (u@, v@, p@), steps as nat),
            done ==> steps >= 1 && exists|sp: (Seq<Seq<T>>, Seq<Seq<T>>, Seq<Seq<T>>)|
                #[trigger] iterated(rc, init, sp, (steps - 1) as nat) && r(sp, (u@, v@, p@))
                    && halted(d, u@, sp.0),
        decreases max_steps - steps,
    {
        let ghost pre = (u@, v@, p@);
        let un = u.snapshot();
        let vn = v.snapshot();
        let b = make_b(u, v, zero, fb);
        let ghost bs = b@;
        set_pressure_poisson(p, &b, nit, fp);
        sweep_periodic3(u, &un, &vn, p, fu);
        let ghost mu = u@;
        sweep_periodic3(v, &un, &vn, p, fv);
        let ghost mv = v@;
        u.apply_wall_rows(zero);
        v.apply_wall_rows(zero);
        proof {
            assert(r(pre, (u@, v@, p@))) by {
                assert(swept_periodic2(
                    fb,
                    pre.0,
                    pre.1,
                    const_grid(pre.0.len(), gnx, zero),
                    bs,
                    pre.0.len() as int,
                    gnx as int,
                ));
                assert(iterated(
                    poisson_rel(fp, bs, pre.0.len() as int, gnx as int),
                    pre.2,
                    p@,
                    nit as nat,
                ));
                assert(swept_periodic3(
                    fu,
                    pre.0,
                    pre.1,
                    p@,
                    pre.0,
                    mu,
                    pre.0.len() as int,
                    gnx as int,
                ));
                assert(swept_periodic3(
                    fv,
                    pre.0,
                    pre.1,
                    p@,
                    pre.1,
                    mv,
                    pre.0.len() as int,
                    gnx as int,
                ));
                assert(u@ == wall_rows(mu, gnx, zero));
                assert(v@ == wall_rows(mv, gnx, zero));
            }
        }
        steps += 1;
        let va = u.rows_vec();
        let vb = un.rows_vec();
        let ghost gva = va;
        let ghost gvb = vb;
        done = d(va, vb);
        proof {
            assert(rows_eq(gva, u@));
            assert(rows_eq(gvb, pre.0));
            if done {
                assert(call_ensures(d, (gva, gvb), true));
                assert(halted(d, u@, pre.0));
                assert(iterated(rc, init, pre, (steps - 1) as nat));
            } else {
                assert(call_ensures(d, (gva, gvb), false));
                assert(rejected(d, u@, pre.0));
                assert(rc(pre, (u@, v@, p@)));
                lemma_iterated_step(rc, init, pre, (u@, v@, p@), (steps - 1) as nat);
            }
        }
    }
    proof {
        if done {
            let sp = choose|sp: (Seq<Seq<T>>, Seq<Seq<T>>, Seq<Seq<T>>)|
                #[trigger] iterated(rc, init, sp, (steps - 1) as nat) && r(sp, (u@, v@, p@))
                    && halted(d, u@, sp.0);
            lemma_iterated_weaken(rc, r, init, sp, (steps - 1) as nat);
            lemma_iterated_step(r, init, sp, (u@, v@, p@), (steps - 1) as nat);
        } else {
            lemma_iterated_weaken(rc, r, init, (u@, v@, p@), steps as nat);
            if steps >= 1 {
                let sp = lemma_iterated_last(rc, init, (u@, v@, p@), steps as nat);
                assert(r(sp, (u@, v@, p@)));
            }
        }
    }
    steps
}

} // verus!
