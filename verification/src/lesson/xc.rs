//! Laplace equation with a convergence test: relax the field sweep by sweep
//! until the caller's stopping criterion accepts the change between two
//! consecutive states, or a safety cap on the number of sweeps runs out.
//! Each sweep rewrites every interior cell from the snapshot's neighbours
//! and then re-applies the Laplace boundary regime (fixed left column, a
//! given profile on the right column, zero-gradient top and bottom rows).

use vstd::prelude::*;

use crate::bc::laplace_bc;
use crate::field::{rows_eq, Field};
use crate::iterate::{
    halted, iterated, lemma_iterated_last, lemma_iterated_step, lemma_iterated_weaken, rejected,
};
use crate::stencil::{interior_swept1, sweep_interior1, Patch};

verus! {

/// The step relation of one relaxation sweep: an interior sweep with the
/// kernel `f`, then the Laplace boundary regime.
pub open spec fn step_rel<T, F: Fn(Patch<T>) -> T>(f: F, nx: nat, left: T, y: Seq<T>) -> spec_fn(
    Seq<Seq<T>>,
    Seq<Seq<T>>,
) -> bool {
    |pre: Seq<Seq<T>>, post: Seq<Seq<T>>|
        exists|mid: Seq<Seq<T>>|
            #[trigger] interior_swept1(f, pre, pre, mid, pre.len() as int, nx as int) && post
                == laplace_bc(mid, nx, left, y)
}

/// One sweep whose states the stopping test `d` then rejected: the relation
/// of every sweep of the loop except the one it stopped on.
pub open spec fn rejected_step_rel<
    T,
    F: Fn(Patch<T>) -> T,
    D: Fn(Vec<Vec<T>>, Vec<Vec<T>>) -> bool,
>(f: F, nx: nat, left: T, y: Seq<T>, d: D) -> spec_fn(Seq<Seq<T>>, Seq<Seq<T>>) -> bool {
    |pre: Seq<Seq<T>>, post: Seq<Seq<T>>|
        step_rel(f, nx, left, y)(pre, post) && rejected(d, pre, post)
}

/// Relax `p` until the stopping test `d` accepts a sweep, or `max_sweeps`
/// sweeps have run. After every sweep, `d` is handed the rows of the state
/// before the sweep and the rows of the state after it; the sweep count is
/// returned. Every sweep but the last was rejected by `d`, and when the
/// solver stops before the cap, the last sweep's states satisfied `d`.
pub fn solve<
    T: Copy,
    F: Fn(Patch<T>) -> T + Copy,
    D: Fn(Vec<Vec<T>>, Vec<Vec<T>>) -> bool + Copy,
>(p: &mut Field<T>, y: &Vec<T>, left: T, f: F, d: D, max_sweeps: usize) -> (steps: usize)
    requires
        old(p).wf(),
        old(p)@.len() >= 3,
        old(p).cols() >= 1,
        y@.len() == old(p)@.len(),
        forall|pa: Patch<T>| call_requires(f, (pa,)),
        forall|va: Vec<Vec<T>>, vb: Vec<Vec<T>>| call_requires(d, (va, vb)),
    ensures
        final(p).wf(),
        final(p).cols() == old(p).cols(),
        final(p)@.len() == old(p)@.len(),
        steps <= max_sweeps,
        iterated(step_rel(f, old(p).cols(), left, y@), old(p)@, final(p)@, steps as nat),
        steps == 0 ==> max_sweeps == 0 && final(p)@ == old(p)@,
        steps >= 1 ==> exists|sp: Seq<Seq<T>>|
            #[trigger] iterated(
                rejected_step_rel(f, old(p).cols(), left, y@, d),
                old(p)@,
                sp,
                (steps - 1) as nat,
            ) && step_rel(f, old(p).cols(), left, y@)(sp, final(p)@) && (steps < max_sweeps
                ==> halted(d, sp, final(p)@)),
{
    let ghost nx = old(p).cols();
    let ghost r = step_rel(f, nx, left, y@);
    let ghost rc = rejected_step_rel(f, nx, left, y@, d);
    let mut steps: usize = 0;
    let mut done = false;
    while !done && steps < max_sweeps
        invariant
            p.wf(),
            p.cols() == old(p).cols(),
            p@.len() == old(p)@.len(),
            old(p)@.len() >= 3,
            old(p).cols() >= 1,
            y@.len() == old(p)@.len(),
            nx == old(p).cols(),
            r == step_rel(f, nx, left, y@),
            rc == rejected_step_rel(f, nx, left, y@, d),
            steps <= max_sweeps,
            forall|pa: Patch<T>| call_requires(f, (pa,)),
            forall|va: Vec<Vec<T>>, vb: Vec<Vec<T>>| call_requires(d, (va, vb)),
            !done ==> iterated(rc, old(p)@, p@, steps as nat),
            done ==> steps >= 1 && exists|sp: Seq<Seq<T>>|
                #[trigger] iterated(rc, old(p)@, sp, (steps - 1) as nat) && r(sp, p@) && halted(
                    d,
                    sp,
                    p@,
                ),
        decreases max_sweeps - steps,
    {
        let pn = p.snapshot();
        let ghost prev = p@;
        sweep_interior1(p, &pn, f);
        let ghost mid = p@;
        p.apply_laplace_bc(left, y);
        proof {
            assert(interior_swept1(f, prev, prev, mid, prev.len() as int, nx as int) && p@
                == laplace_bc(mid, nx, left, y@));
            assert(r(prev, p@));
        }
        steps += 1;
        let vp = pn.rows_vec();
        let vq = p.rows_vec();
        let ghost gvp = vp;
        let ghost gvq = vq;
        done = d(vp, vq);
        proof {
            assert(rows_eq(gvp, prev));
            assert(rows_eq(gvq, p@));
            if done {
                assert(call_ensures(d, (gvp, gvq), true));
                assert(halted(d, prev, p@));
                assert(iterated(rc, old(p)@, prev, (steps - 1) as nat));
            } else {
                assert(call_ensures(d, (gvp, gvq), false));
                assert(rejected(d, prev, p@));
                assert(rc(prev, p@));
                lemma_iterated_step(rc, old(p)@, prev, p@, (steps - 1) as nat);
            }
        }
    }
    proof {
        if done {
            let sp = choose|sp: Seq<Seq<T>>|
                #[trigger] iterated(rc, old(p)@, sp, (steps - 1) as nat) && r(sp, p@) && halted(
                    d,
                    sp,
                    p@,
                );
            lemma_iterated_weaken(rc, r, old(p)@, sp, (steps - 1) as nat);
            lemma_iterated_step(r, old(p)@, sp, p@, (steps - 1) as nat);
        } else {
            lemma_iterated_weaken(rc, r, old(p)@, p@, steps as nat);
            if steps >= 1 {
                let sp = lemma_iterated_last(rc, old(p)@, p@, steps as nat);
                assert(r(sp, p@));
            }
        }
    }
    steps
}

} // verus!
