//! Chains of relational steps. Each solver's time loop is specified as: the
//! final state is reachable from the initial state by `n` applications of the
//! per-step relation.

use vstd::prelude::*;

use crate::field::rows_eq;

verus! {

/// A convergence test `d`, handed the rows of the grid `before` and the
/// rows of the grid `after`, can return true.
pub open spec fn halted<T, D: Fn(Vec<Vec<T>>, Vec<Vec<T>>) -> bool>(
    d: D,
    before: Seq<Seq<T>>,
    after: Seq<Seq<T>>,
) -> bool {
    exists|vp: Vec<Vec<T>>, vq: Vec<Vec<T>>|
        rows_eq(vp, before) && rows_eq(vq, after) && #[trigger] call_ensures(d, (vp, vq), true)
}

/// A convergence test `d`, handed the rows of the grid `x` and the rows of
/// the grid `y`, can return false: the pair was rejected and the loop went
/// on.
pub open spec fn rejected<T, D: Fn(Vec<Vec<T>>, Vec<Vec<T>>) -> bool>(
    d: D,
    x: Seq<Seq<T>>,
    y: Seq<Seq<T>>,
) -> bool {
    exists|vp: Vec<Vec<T>>, vq: Vec<Vec<T>>|
        rows_eq(vp, x) && rows_eq(vq, y) && #[trigger] call_ensures(d, (vp, vq), false)
}

/// `fin` is reachable from `init` by exactly `n` steps of the relation `r`.
pub open spec fn iterated<S>(r: spec_fn(S, S) -> bool, init: S, fin: S, n: nat) -> bool
    decreases n,
{
    if n == 0 {
        fin == init
    } else {
        exists|mid: S| iterated(r, init, mid, (n - 1) as nat) && #[trigger] r(mid, fin)
    }
}

/// A chain of `n` steps followed by one more step is a chain of `n + 1`
/// steps.
pub proof fn lemma_iterated_step<S>(r: spec_fn(S, S) -> bool, init: S, mid: S, fin: S, n: nat)
    requires
        iterated(r, init, mid, n),
        r(mid, fin),
    ensures
        iterated(r, init, fin, n + 1),
{
    assert(iterated(r, init, mid, n) && r(mid, fin));
}

/// A state related to itself makes chains of every length.
pub proof fn lemma_iterated_refl<S>(r: spec_fn(S, S) -> bool, s: S, n: nat)
    requires
        r(s, s),
    ensures
        iterated(r, s, s, n),
    decreases n,
{
    if n > 0 {
        lemma_iterated_refl(r, s, (n - 1) as nat);
        lemma_iterated_step(r, s, s, s, (n - 1) as nat);
    }
}

/// A non-empty chain ends with one application of the relation from some
/// state reached by the shorter chain.
pub proof fn lemma_iterated_last<S>(r: spec_fn(S, S) -> bool, init: S, fin: S, n: nat) -> (mid: S)
    requires
        n >= 1,
        iterated(r, init, fin, n),
    ensures
        iterated(r, init, mid, (n - 1) as nat),
        r(mid, fin),
{
    choose|mid: S| iterated(r, init, mid, (n - 1) as nat) && #[trigger] r(mid, fin)
}

/// A chain of a stronger relation is also a chain of a weaker one.
pub proof fn lemma_iterated_weaken<S>(
    r1: spec_fn(S, S) -> bool,
    r2: spec_fn(S, S) -> bool,
    init: S,
    fin: S,
    n: nat,
)
    requires
        iterated(r1, init, fin, n),
        forall|a: S, b: S| #[trigger] r1(a, b) ==> r2(a, b),
    ensures
        iterated(r2, init, fin, n),
    decreases n,
{
    if n > 0 {
        let mid = lemma_iterated_last(r1, init, fin, n);
        lemma_iterated_weaken(r1, r2, init, mid, (n - 1) as nat);
        lemma_iterated_step(r2, init, mid, fin, (n - 1) as nat);
    }
}

/// A chain of a deterministic relation is itself deterministic: when every
/// step pins its successor down to one state, two chains of the same length
/// from the same start end in the same state. With a kernel whose contract
/// fixes its result, a solver's chain contract therefore names exactly one
/// final field: the one a direct hand simulation of the recurrence
/// computes.
pub proof fn lemma_iterated_deterministic<S>(
    r: spec_fn(S, S) -> bool,
    init: S,
    fin1: S,
    fin2: S,
    n: nat,
)
    requires
        iterated(r, init, fin1, n),
        iterated(r, init, fin2, n),
        forall|a: S, b: S, c: S| #[trigger] r(a, b) && #[trigger] r(a, c) ==> b == c,
    ensures
        fin1 == fin2,
    decreases n,
{
    if n > 0 {
        let mid1 = lemma_iterated_last(r, init, fin1, n);
        let mid2 = lemma_iterated_last(r, init, fin2, n);
        lemma_iterated_deterministic(r, init, mid1, mid2, (n - 1) as nat);
    }
}

} // verus!
