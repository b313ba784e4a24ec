//! One-dimensional stencil sweeps and initial profiles, used by the 1D
//! advection, diffusion and Burgers solvers. A 1D field is a plain vector of
//! scalar values.

use vstd::prelude::*;

verus! {

/// `post` is `pre` with every cell `i >= 1` rewritten by the kernel `f`
/// applied to `(centre, left)` of `pre`, and cell 0 unchanged.
pub open spec fn upwind_swept<T, F: Fn(T, T) -> T>(f: F, pre: Seq<T>, post: Seq<T>) -> bool {
    &&& post.len() == pre.len()
    &&& (pre.len() > 0 ==> post[0] == pre[0])
    &&& forall|i: int|
        1 <= i < pre.len() ==> call_ensures(f, (pre[i], pre[i - 1]), #[trigger] post[i])
}

/// `post` is `pre` with every cell `1 <= i < len - 1` rewritten by the
/// kernel `f` applied to `(left, centre, right)` of `pre`, and both end
/// cells unchanged.
pub open spec fn three_swept<T, F: Fn(T, T, T) -> T>(f: F, pre: Seq<T>, post: Seq<T>) -> bool {
    &&& post.len() == pre.len()
    &&& (pre.len() > 0 ==> post[0] == pre[0])
    &&& (pre.len() > 1 ==> post[pre.len() - 1] == pre[pre.len() - 1])
    &&& forall|i: int|
        1 <= i < pre.len() - 1 ==> call_ensures(
            f,
            (pre[i - 1], pre[i], pre[i + 1]),
            #[trigger] post[i],
        )
}

/// An independent copy of a vector.
pub fn copy_vec<T: Copy>(v: &Vec<T>) -> (r: Vec<T>)
    ensures
        r@ == v@,
{
    let n = v.len();
    let mut r: Vec<T> = Vec::new();
    let mut i: usize = 0;
    while i < n
        invariant
            n == v@.len(),
            i <= n,
            r@.len() == i,
            forall|a: int| 0 <= a < i ==> #[trigger] r@[a] == v@[a],
        decreases n - i,
    {
        r.push(v[i]);
        i += 1;
    }
    proof {
        assert(r@ =~= v@);
    }
    r
}

/// A profile of `n` cells holding `base` everywhere except on the index
/// range `begin .. end`, which holds `peak` (a hat-shaped initial
/// condition).
pub fn hat<T: Copy>(n: usize, begin: usize, end: usize, base: T, peak: T) -> (r: Vec<T>)
    requires
        begin <= end <= n,
    ensures
        r@.len() == n,
        forall|i: int| 0 <= i < n && begin <= i < end ==> #[trigger] r@[i] == peak,
        forall|i: int| 0 <= i < n && !(begin <= i < end) ==> #[trigger] r@[i] == base,
{
    let mut r: Vec<T> = Vec::new();
    let mut i: usize = 0;
    while i < n
        invariant
            begin <= end <= n,
            i <= n,
            r@.len() == i,
            forall|a: int| 0 <= a < i && begin <= a < end ==> #[trigger] r@[a] == peak,
            forall|a: int| 0 <= a < i && !(begin <= a < end) ==> #[trigger] r@[a] == base,
        decreases n - i,
    {
        if i >= begin && i < end {
            r.push(peak);
        } else {
            r.push(base);
        }
        i += 1;
    }
    r
}

/// Rewrite every cell `i >= 1` of `u` by the kernel `f` applied to
/// `(centre, left)` of the snapshot `un`; cell 0 keeps its value.
pub fn sweep_upwind<T: Copy, F: Fn(T, T) -> T>(u: &mut Vec<T>, un: &Vec<T>, f: F)
    requires
        un@ == old(u)@,
        forall|c: T, l: T| call_requires(f, (c, l)),
    ensures
        upwind_swept(f, old(u)@, final(u)@),
{
    let n = u.len();
    let mut i: usize = 1;
    while i < n
        invariant
            un@ == old(u)@,
            n == u@.len() == old(u)@.len(),
            1 <= i <= n || (n == 0 && i == 1),
            forall|c: T, l: T| call_requires(f, (c, l)),
            forall|a: int| 0 <= a < u@.len() && !(1 <= a < i) ==> #[trigger] u@[a] == old(u)@[a],
            forall|a: int|
                1 <= a < i ==> call_ensures(f, (old(u)@[a], old(u)@[a - 1]), #[trigger] u@[a]),
        decreases n - i,
    {
        let v = f(un[i], un[i - 1]);
        u[i] = v;
        i += 1;
    }
}

/// Rewrite every cell `1 <= i < len - 1` of `u` by the kernel `f` applied to
/// `(left, centre, right)` of the snapshot `un`; both end cells keep their
/// values.
pub fn sweep_three<T: Copy, F: Fn(T, T, T) -> T>(u: &mut Vec<T>, un: &Vec<T>, f: F)
    requires
        un@ == old(u)@,
        forall|l: T, c: T, r: T| call_requires(f, (l, c, r)),
    ensures
        three_swept(f, old(u)@, final(u)@),
{
    let n = u.len();
    if n < 2 {
        return ;
    }
    let mut i: usize = 1;
    while i < n - 1
        invariant
            un@ == old(u)@,
            n == u@.len() == old(u)@.len(),
            2 <= n,
            1 <= i <= n - 1,
            forall|l: T, c: T, r: T| call_requires(f, (l, c, r)),
            forall|a: int| 0 <= a < u@.len() && !(1 <= a < i) ==> #[trigger] u@[a] == old(u)@[a],
            forall|a: int|
                1 <= a < i ==> call_ensures(
                    f,
                    (old(u)@[a - 1], old(u)@[a], old(u)@[a + 1]),
                    #[trigger] u@[a],
                ),
        decreases n - 1 - i,
    {
        let v = f(un[i - 1], un[i], un[i + 1]);
        u[i] = v;
        i += 1;
    }
}

} // verus!
