//! 1D Burgers' equation with periodic boundaries: each time step rewrites
//! the inner cells from left, centre and right of the snapshot, then
//! recomputes cell 0 with its left neighbour wrapped to the second-to-last
//! cell, and copies the new cell 0 onto the last cell.

use vstd::prelude::*;

use crate::iterate::{iterated, lemma_iterated_refl, lemma_iterated_step};
use crate::line::{copy_vec, sweep_three, three_swept};

verus! {

/// One periodic time step: the inner cells are rewritten from the snapshot
/// `pre` by `f(left, centre, right)`, cell 0 is rewritten with its left
/// neighbour wrapped around, and the last cell is a copy of the new cell 0.
pub open spec fn periodic_step<T, F: Fn(T, T, T) -> T>(f: F, pre: Seq<T>, post: Seq<T>) -> bool {
    let n = pre.len() as int;
    &&& post.len() == pre.len()
    &&& (n < 2 ==> post == pre)
    &&& (n >= 2 ==> call_ensures(f, (pre[n - 2], pre[0], pre[1]), post[0]))
    &&& (n >= 2 ==> post[n - 1] == post[0])
    &&& forall|i: int|
        1 <= i < n - 1 ==> call_ensures(f, (pre[i - 1], pre[i], pre[i + 1]), #[trigger] post[i])
}

/// The step relation of one time step as a function of the kernel.
pub open spec fn step_rel<T, F: Fn(T, T, T) -> T>(f: F) -> spec_fn(Seq<T>, Seq<T>) -> bool {
    |pre: Seq<T>, post: Seq<T>| periodic_step(f, pre, post)
}

/// An inner sweep followed by the two wrapped end writes makes one periodic
/// step.
proof fn lemma_periodic_step<T, F: Fn(T, T, T) -> T>(
    f: F,
    pre: Seq<T>,
    mid: Seq<T>,
    post: Seq<T>,
    v0: T,
)
    requires
        pre.len() >= 2,
        three_swept(f, pre, mid),
        call_ensures(f, (pre[pre.len() - 2], pre[0], pre[1]), v0),
        post == mid.update(0, v0).update(pre.len() - 1, v0),
    ensures
        periodic_step(f, pre, post),
{
    let n = pre.len() as int;
    assert(post[0] == v0);
    assert(post[n - 1] == v0);
    assert forall|i: int| 1 <= i < n - 1 implies call_ensures(
        f,
        (pre[i - 1], pre[i], pre[i + 1]),
        #[trigger] post[i],
    ) by {
        assert(post[i] == mid[i]);
    }
}

/// Advance `u` through `nt` periodic time steps.
pub fn solve<T: Copy, F: Fn(T, T, T) -> T + Copy>(u: &mut Vec<T>, nt: usize, f: F)
    requires
        forall|l: T, c: T, r: T| call_requires(f, (l, c, r)),
    ensures
        final(u)@.len() == old(u)@.len(),
        iterated(step_rel(f), old(u)@, final(u)@, nt as nat),
{
    let n = u.len();
    if n < 2 {
        proof {
            assert(periodic_step(f, u@, u@));
            lemma_iterated_refl(step_rel(f), u@, nt as nat);
        }
        return ;
    }
    let mut t: usize = 0;
    while t < nt
        invariant
            t <= nt,
            n == u@.len() == old(u)@.len(),
            n >= 2,
            forall|l: T, c: T, r: T| call_requires(f, (l, c, r)),
            iterated(step_rel(f), old(u)@, u@, t as nat),
        decreases nt - t,
    {
        let un = copy_vec(u);
        let ghost prev = u@;
        sweep_three(u, &un, f);
        let ghost mid = u@;
        let v0 = f(un[n - 2], un[0], un[1]);
        u[0] = v0;
        u[n - 1] = v0;
        proof {
            lemma_periodic_step(f, prev, mid, u@, v0);
            assert(step_rel(f)(prev, u@));
            lemma_iterated_step(step_rel(f), old(u)@, prev, u@, t as nat);
        }
        t += 1;
    }
}

} // verus!
