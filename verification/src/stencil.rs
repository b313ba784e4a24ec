//! Stencil sweeps over 2D fields. A sweep rewrites a fixed range of cells of
//! a target field from a fixed pattern of neighbouring cells read out of
//! read-only snapshot fields, and leaves every other cell untouched: the
//! interior sweeps cover the cells off all four borders, the corner sweeps
//! cover everything off the first row and column, and the periodic sweeps
//! add the two outer columns with their row neighbours wrapped around. The
//! per-cell arithmetic is a kernel handed in by the caller; the contracts
//! relate each written cell to the kernel's contract on the exact snapshot
//! neighbourhood it was given.

use vstd::prelude::*;

use crate::field::Field;

verus! {

/// The five-point neighbourhood of one cell: the cell itself, its left and
/// right neighbours along a row, and the cells in the rows below and above.
pub struct Patch<T> {
    pub c: T,
    pub l: T,
    pub r: T,
    pub dn: T,
    pub up: T,
}

/// The five-point neighbourhood of cell `(i, j)` in grid `s`.
pub open spec fn patch_at<T>(s: Seq<Seq<T>>, i: int, j: int) -> Patch<T> {
    Patch {
        c: s[i][j],
        l: s[i][j - 1],
        r: s[i][j + 1],
        dn: s[i - 1][j],
        up: s[i + 1][j],
    }
}

/// The five-point neighbourhood of cell `(i, j)` with the row neighbours
/// wrapped around the grid's `nx` columns: column 0 has column `nx - 1` as
/// its left neighbour and vice versa.
pub open spec fn patch_wrapped<T>(s: Seq<Seq<T>>, nx: int, i: int, j: int) -> Patch<T> {
    Patch {
        c: s[i][j],
        l: s[i][if j == 0 { nx - 1 } else { j - 1 }],
        r: s[i][if j == nx - 1 { 0 } else { j + 1 }],
        dn: s[i - 1][j],
        up: s[i + 1][j],
    }
}

/// Whether `(i, j)` is an interior cell of a grid of shape `(ny, nx)`.
pub open spec fn is_interior(ny: int, nx: int, i: int, j: int) -> bool {
    1 <= i < ny - 1 && 1 <= j < nx - 1
}

/// `post` is `pre` with every interior cell rewritten by the kernel `f`
/// applied to that cell's neighbourhood in the snapshot `a`, and every border
/// cell unchanged.
pub open spec fn interior_swept1<T, F: Fn(Patch<T>) -> T>(
    f: F,
    a: Seq<Seq<T>>,
    pre: Seq<Seq<T>>,
    post: Seq<Seq<T>>,
    ny: int,
    nx: int,
) -> bool {
    &&& post.len() == ny
    &&& forall|i: int, j: int|
        0 <= i < ny && 0 <= j < nx && !is_interior(ny, nx, i, j) ==> #[trigger] post[i][j]
            == pre[i][j]
    &&& forall|i: int, j: int|
        is_interior(ny, nx, i, j) ==> call_ensures(f, (patch_at(a, i, j),), #[trigger] post[i][j])
}

/// `post` is `pre` with every interior cell rewritten by the kernel `f`
/// applied to that cell's neighbourhoods in the snapshots `a` and `b`, and
/// every border cell unchanged.
pub open spec fn interior_swept2<T, F: Fn(Patch<T>, Patch<T>) -> T>(
    f: F,
    a: Seq<Seq<T>>,
    b: Seq<Seq<T>>,
    pre: Seq<Seq<T>>,
    post: Seq<Seq<T>>,
    ny: int,
    nx: int,
) -> bool {
    &&& post.len() == ny
    &&& forall|i: int, j: int|
        0 <= i < ny && 0 <= j < nx && !is_interior(ny, nx, i, j) ==> #[trigger] post[i][j]
            == pre[i][j]
    &&& forall|i: int, j: int|
        is_interior(ny, nx, i, j) ==> call_ensures(
            f,
            (patch_at(a, i, j), patch_at(b, i, j)),
            #[trigger] post[i][j],
        )
}

/// `post` is `pre` with every interior cell rewritten by the kernel `f`
/// applied to that cell's neighbourhoods in the snapshots `a`, `b` and `c`,
/// and every border cell unchanged.
pub open spec fn interior_swept3<T, F: Fn(Patch<T>, Patch<T>, Patch<T>) -> T>(
    f: F,
    a: Seq<Seq<T>>,
    b: Seq<Seq<T>>,
    c: Seq<Seq<T>>,
    pre: Seq<Seq<T>>,
    post: Seq<Seq<T>>,
    ny: int,
    nx: int,
) -> bool {
    &&& post.len() == ny
    &&& forall|i: int, j: int|
        0 <= i < ny && 0 <= j < nx && !is_interior(ny, nx, i, j) ==> #[trigger] post[i][j]
            == pre[i][j]
    &&& forall|i: int, j: int|
        is_interior(ny, nx, i, j) ==> call_ensures(
            f,
            (patch_at(a, i, j), patch_at(b, i, j), patch_at(c, i, j)),
            #[trigger] post[i][j],
        )
}

/// `post` is `pre` with every cell of row `i >= 1`, column `j >= 1` rewritten
/// by the kernel `f` applied to `(centre, left, below)` read from the
/// snapshot `a`; row 0 and column 0 are unchanged.
pub open spec fn corner_swept1<T, F: Fn(T, T, T) -> T>(
    f: F,
    a: Seq<Seq<T>>,
    pre: Seq<Seq<T>>,
    post: Seq<Seq<T>>,
    ny: int,
    nx: int,
) -> bool {
    &&& post.len() == ny
    &&& forall|i: int, j: int|
        0 <= i < ny && 0 <= j < nx && !(1 <= i && 1 <= j) ==> #[trigger] post[i][j] == pre[i][j]
    &&& forall|i: int, j: int|
        1 <= i < ny && 1 <= j < nx ==> call_ensures(
            f,
            (a[i][j], a[i][j - 1], a[i - 1][j]),
            #[trigger] post[i][j],
        )
}

/// `post` is `pre` with every cell of row `i >= 1`, column `j >= 1` rewritten
/// by the kernel `f` applied to `(centre, left, below)` of the snapshot `a`
/// followed by `(centre, left, below)` of the snapshot `b`; row 0 and
/// column 0 are unchanged.
pub open spec fn corner_swept2<T, F: Fn(T, T, T, T, T, T) -> T>(
    f: F,
    a: Seq<Seq<T>>,
    b: Seq<Seq<T>>,
    pre: Seq<Seq<T>>,
    post: Seq<Seq<T>>,
    ny: int,
    nx: int,
) -> bool {
    &&& post.len() == ny
    &&& forall|i: int, j: int|
        0 <= i < ny && 0 <= j < nx && !(1 <= i && 1 <= j) ==> #[trigger] post[i][j] == pre[i][j]
    &&& forall|i: int, j: int|
        1 <= i < ny && 1 <= j < nx ==> call_ensures(
            f,
            (a[i][j], a[i][j - 1], a[i - 1][j], b[i][j], b[i][j - 1], b[i - 1][j]),
            #[trigger] post[i][j],
        )
}

/// `post` is `pre` with the cells of column `j` in rows `1 .. ny - 1`
/// rewritten by the kernel `f` applied to the wrapped neighbourhoods of the
/// snapshots `a` and `b` at that cell; every other cell is unchanged.
pub open spec fn col_swept2<T, F: Fn(Patch<T>, Patch<T>) -> T>(
    f: F,
    a: Seq<Seq<T>>,
    b: Seq<Seq<T>>,
    pre: Seq<Seq<T>>,
    post: Seq<Seq<T>>,
    ny: int,
    nx: int,
    j: int,
) -> bool {
    &&& post.len() == ny
    &&& forall|r: int, c: int|
        0 <= r < ny && 0 <= c < nx && !(1 <= r < ny - 1 && c == j) ==> #[trigger] post[r][c]
            == pre[r][c]
    &&& forall|r: int|
        1 <= r < ny - 1 ==> call_ensures(
            f,
            (patch_wrapped(a, nx, r, j), patch_wrapped(b, nx, r, j)),
            #[trigger] post[r][j],
        )
}

/// `post` is `pre` with the cells of column `j` in rows `1 .. ny - 1`
/// rewritten by the kernel `f` applied to the wrapped neighbourhoods of the
/// snapshots `a`, `b` and `c` at that cell; every other cell is unchanged.
pub open spec fn col_swept3<T, F: Fn(Patch<T>, Patch<T>, Patch<T>) -> T>(
    f: F,
    a: Seq<Seq<T>>,
    b: Seq<Seq<T>>,
    c: Seq<Seq<T>>,
    pre: Seq<Seq<T>>,
    post: Seq<Seq<T>>,
    ny: int,
    nx: int,
    j: int,
) -> bool {
    &&& post.len() == ny
    &&& forall|r: int, cc: int|
        0 <= r < ny && 0 <= cc < nx && !(1 <= r < ny - 1 && cc == j) ==> #[trigger] post[r][cc]
            == pre[r][cc]
    &&& forall|r: int|
        1 <= r < ny - 1 ==> call_ensures(
            f,
            (patch_wrapped(a, nx, r, j), patch_wrapped(b, nx, r, j), patch_wrapped(c, nx, r, j)),
            #[trigger] post[r][j],
        )
}

/// `post` is `pre` with the interior rewritten by the kernel `f` from the
/// snapshots `a` and `b`, and then the two outer columns rewritten by the
/// same kernel with wrapped row neighbours (last column first, then
/// column 0): the x-periodic sweep. The corner cells of both outer columns
/// are left unchanged.
pub open spec fn swept_periodic2<T, F: Fn(Patch<T>, Patch<T>) -> T>(
    f: F,
    a: Seq<Seq<T>>,
    b: Seq<Seq<T>>,
    pre: Seq<Seq<T>>,
    post: Seq<Seq<T>>,
    ny: int,
    nx: int,
) -> bool {
    exists|m1: Seq<Seq<T>>, m2: Seq<Seq<T>>|
        #![trigger col_swept2(f, a, b, m1, m2, ny, nx, nx - 1)]
        {
            &&& interior_swept2(f, a, b, pre, m1, ny, nx)
            &&& col_swept2(f, a, b, m1, m2, ny, nx, nx - 1)
            &&& col_swept2(f, a, b, m2, post, ny, nx, 0)
        }
}

/// The x-periodic sweep over three snapshot fields: the interior rewritten
/// from `a`, `b` and `c`, then the last column and column 0 rewritten with
/// wrapped row neighbours.
pub open spec fn swept_periodic3<T, F: Fn(Patch<T>, Patch<T>, Patch<T>) -> T>(
    f: F,
    a: Seq<Seq<T>>,
    b: Seq<Seq<T>>,
    c: Seq<Seq<T>>,
    pre: Seq<Seq<T>>,
    post: Seq<Seq<T>>,
    ny: int,
    nx: int,
) -> bool {
    exists|m1: Seq<Seq<T>>, m2: Seq<Seq<T>>|
        #![trigger col_swept3(f, a, b, c, m1, m2, ny, nx, nx - 1)]
        {
            &&& interior_swept3(f, a, b, c, pre, m1, ny, nx)
            &&& col_swept3(f, a, b, c, m1, m2, ny, nx, nx - 1)
            &&& col_swept3(f, a, b, c, m2, post, ny, nx, 0)
        }
}

impl<T: Copy> Field<T> {
    /// The five-point neighbourhood of interior cell `(i, j)`.
    pub fn read_patch(&self, i: usize, j: usize) -> (p: Patch<T>)
        requires
            self.wf(),
            is_interior(self@.len() as int, self.cols() as int, i as int, j as int),
        ensures
            p == patch_at(self@, i as int, j as int),
    {
        let ny = self.ny();
        let nx = self.nx();
        Patch {
            c: self.get(i, j),
            l: self.get(i, j - 1),
            r: self.get(i, j + 1),
            dn: self.get(i - 1, j),
            up: self.get(i + 1, j),
        }
    }

    /// The five-point neighbourhood of cell `(i, j)` with row neighbours
    /// wrapped around the columns.
    pub fn read_patch_wrapped(&self, i: usize, j: usize) -> (p: Patch<T>)
        requires
            self.wf(),
            1 <= i < self@.len() as int - 1,
            j < self.cols(),
        ensures
            p == patch_wrapped(self@, self.cols() as int, i as int, j as int),
    {
        let ny = self.ny();
        let nx = self.nx();
        let jl = if j == 0 { nx - 1 } else { j - 1 };
        let jr = if j == nx - 1 { 0 } else { j + 1 };
        Patch {
            c: self.get(i, j),
            l: self.get(i, jl),
            r: self.get(i, jr),
            dn: self.get(i - 1, j),
            up: self.get(i + 1, j),
        }
    }

    /// The values `(centre, left, below)` at cell `(i, j)` with `i, j >= 1`.
    pub fn read_corner(&self, i: usize, j: usize) -> (p: (T, T, T))
        requires
            self.wf(),
            1 <= i < self@.len(),
            1 <= j < self.cols(),
        ensures
            p == (self@[i as int][j as int], self@[i as int][j - 1], self@[i - 1][j as int]),
    {
        (self.get(i, j), self.get(i, j - 1), self.get(i - 1, j))
    }
}

/// Rewrite every interior cell of `t` by the kernel `f` applied to the
/// matching neighbourhood of the snapshot `a`; border cells keep their
/// values.
pub fn sweep_interior1<T: Copy, F: Fn(Patch<T>) -> T>(t: &mut Field<T>, a: &Field<T>, f: F)
    requires
        old(t).wf(),
        a.wf(),
        a@.len() == old(t)@.len(),
        a.cols() == old(t).cols(),
        forall|p: Patch<T>| call_requires(f, (p,)),
    ensures
        final(t).wf(),
        final(t).cols() == old(t).cols(),
        final(t)@.len() == old(t)@.len(),
        interior_swept1(
            f,
            a@,
            old(t)@,
            final(t)@,
            old(t)@.len() as int,
            old(t).cols() as int,
        ),
{
    let ny = t.ny();
    let nx = t.nx();
    if ny < 3 || nx < 3 {
        return ;
    }
    let ghost gny = ny as int;
    let ghost gnx = nx as int;
    let mut i: usize = 1;
    while i < ny - 1
        invariant
            t.wf(),
            a.wf(),
            t.cols() == old(t).cols(),
            t@.len() == old(t)@.len(),
            a@.len() == t@.len(),
            a.cols() == t.cols(),
            gny == t@.len(),
            gnx == t.cols(),
            ny == gny,
            nx == gnx,
            3 <= ny,
            3 <= nx,
            1 <= i <= ny - 1,
            forall|p: Patch<T>| call_requires(f, (p,)),
            forall|r: int, c: int|
                0 <= r < gny && 0 <= c < gnx && !(1 <= r < i && 1 <= c < gnx - 1)
                    ==> #[trigger] t@[r][c] == old(t)@[r][c],
            forall|r: int, c: int|
                1 <= r < i && 1 <= c < gnx - 1 ==> call_ensures(
                    f,
                    (patch_at(a@, r, c),),
                    #[trigger] t@[r][c],
                ),
        decreases ny - 1 - i,
    {
        let mut j: usize = 1;
        while j < nx - 1
            invariant
                t.wf(),
                a.wf(),
                t.cols() == old(t).cols(),
                t@.len() == old(t)@.len(),
                a@.len() == t@.len(),
                a.cols() == t.cols(),
                gny == t@.len(),
                gnx == t.cols(),
                ny == gny,
                nx == gnx,
                3 <= ny,
                3 <= nx,
                1 <= i < ny - 1,
                1 <= j <= nx - 1,
                forall|p: Patch<T>| call_requires(f, (p,)),
                forall|r: int, c: int|
                    0 <= r < gny && 0 <= c < gnx && !(1 <= r < i && 1 <= c < gnx - 1) && !(r == i
                        && 1 <= c < j) ==> #[trigger] t@[r][c] == old(t)@[r][c],
                forall|r: int, c: int|
                    1 <= r < i && 1 <= c < gnx - 1 ==> call_ensures(
                        f,
                        (patch_at(a@, r, c),),
                        #[trigger] t@[r][c],
                    ),
                forall|c: int|
                    1 <= c < j ==> call_ensures(
                        f,
                        (patch_at(a@, i as int, c),),
                        #[trigger] t@[i as int][c],
                    ),
            decreases nx - 1 - j,
        {
            let p = a.read_patch(i, j);
            let v = f(p);
            t.set(i, j, v);
            j += 1;
        }
        i += 1;
    }
}

/// Rewrite every interior cell of `t` by the kernel `f` applied to the
/// matching neighbourhoods of the snapshots `a` and `b`; border cells keep
/// their values.
pub fn sweep_interior2<T: Copy, F: Fn(Patch<T>, Patch<T>) -> T>(
    t: &mut Field<T>,
    a: &Field<T>,
    b: &Field<T>,
    f: F,
)
    requires
        old(t).wf(),
        a.wf(),
        b.wf(),
        a@.len() == old(t)@.len(),
        a.cols() == old(t).cols(),
        b@.len() == old(t)@.len(),
        b.cols() == old(t).cols(),
        forall|pa: Patch<T>, pb: Patch<T>| call_requires(f, (pa, pb)),
    ensures
        final(t).wf(),
        final(t).cols() == old(t).cols(),
        final(t)@.len() == old(t)@.len(),
        interior_swept2(
            f,
            a@,
            b@,
            old(t)@,
            final(t)@,
            old(t)@.len() as int,
            old(t).cols() as int,
        ),
{
    let ny = t.ny();
    let nx = t.nx();
    if ny < 3 || nx < 3 {
        return ;
    }
    let ghost gny = ny as int;
    let ghost gnx = nx as int;
    let mut i: usize = 1;
    while i < ny - 1
        invariant
            t.wf(),
            a.wf(),
            b.wf(),
            t.cols() == old(t).cols(),
            t@.len() == old(t)@.len(),
            a@.len() == t@.len(),
            a.cols() == t.cols(),
            b@.len() == t@.len(),
            b.cols() == t.cols(),
            gny == t@.len(),
            gnx == t.cols(),
            ny == gny,
            nx == gnx,
            3 <= ny,
            3 <= nx,
            1 <= i <= ny - 1,
            forall|pa: Patch<T>, pb: Patch<T>| call_requires(f, (pa, pb)),
            forall|r: int, c: int|
                0 <= r < gny && 0 <= c < gnx && !(1 <= r < i && 1 <= c < gnx - 1)
                    ==> #[trigger] t@[r][c] == old(t)@[r][c],
            forall|r: int, c: int|
                1 <= r < i && 1 <= c < gnx - 1 ==> call_ensures(
                    f,
                    (patch_at(a@, r, c), patch_at(b@, r, c)),
                    #[trigger] t@[r][c],
                ),
        decreases ny - 1 - i,
    {
        let mut j: usize = 1;
        while j < nx - 1
            invariant
                t.wf(),
                a.wf(),
                b.wf(),
                t.cols() == old(t).cols(),
                t@.len() == old(t)@.len(),
                a@.len() == t@.len(),
                a.cols() == t.cols(),
                b@.len() == t@.len(),
                b.cols() == t.cols(),
                gny == t@.len(),
                gnx == t.cols(),
                ny == gny,
                nx == gnx,
                3 <= ny,
                3 <= nx,
                1 <= i < ny - 1,
                1 <= j <= nx - 1,
                forall|pa: Patch<T>, pb: Patch<T>| call_requires(f, (pa, pb)),
                forall|r: int, c: int|
                    0 <= r < gny && 0 <= c < gnx && !(1 <= r < i && 1 <= c < gnx - 1) && !(r == i
                        && 1 <= c < j) ==> #[trigger] t@[r][c] == old(t)@[r][c],
                forall|r: int, c: int|
                    1 <= r < i && 1 <= c < gnx - 1 ==> call_ensures(
                        f,
                        (patch_at(a@, r, c), patch_at(b@, r, c)),
                        #[trigger] t@[r][c],
                    ),
                forall|c: int|
                    1 <= c < j ==> call_ensures(
                        f,
                        (patch_at(a@, i as int, c), patch_at(b@, i as int, c)),
                        #[trigger] t@[i as int][c],
                    ),
            decreases nx - 1 - j,
        {
            let pa = a.read_patch(i, j);
            let pb = b.read_patch(i, j);
            let v = f(pa, pb);
            t.set(i, j, v);
            j += 1;
        }
        i += 1;
    }
}

/// Rewrite every interior cell of `t` by the kernel `f` applied to the
/// matching neighbourhoods of the snapshots `a`, `b` and `c`; border cells
/// keep their values.
pub fn sweep_interior3<T: Copy, F: Fn(Patch<T>, Patch<T>, Patch<T>) -> T>(
    t: &mut Field<T>,
    a: &Field<T>,
    b: &Field<T>,
    c: &Field<T>,
    f: F,
)
    requires
        old(t).wf(),
        a.wf(),
        b.wf(),
        c.wf(),
        a@.len() == old(t)@.len(),
        a.cols() == old(t).cols(),
        b@.len() == old(t)@.len(),
        b.cols() == old(t).cols(),
        c@.len() == old(t)@.len(),
        c.cols() == old(t).cols(),
        forall|pa: Patch<T>, pb: Patch<T>, pc: Patch<T>| call_requires(f, (pa, pb, pc)),
    ensures
        final(t).wf(),
        final(t).cols() == old(t).cols(),
        final(t)@.len() == old(t)@.len(),
        interior_swept3(
            f,
            a@,
            b@,
            c@,
            old(t)@,
            final(t)@,
            old(t)@.len() as int,
            old(t).cols() as int,
        ),
{
    let ny = t.ny();
    let nx = t.nx();
    if ny < 3 || nx < 3 {
        return ;
    }
    let ghost gny = ny as int;
    let ghost gnx = nx as int;
    let mut i: usize = 1;
    while i < ny - 1
        invariant
            t.wf(),
            a.wf(),
            b.wf(),
            c.wf(),
            t.cols() == old(t).cols(),
            t@.len() == old(t)@.len(),
            a@.len() == t@.len(),
            a.cols() == t.cols(),
            b@.len() == t@.len(),
            b.cols() == t.cols(),
            c@.len() == t@.len(),
            c.cols() == t.cols(),
            gny == t@.len(),
            gnx == t.cols(),
            ny == gny,
            nx == gnx,
            3 <= ny,
            3 <= nx,
            1 <= i <= ny - 1,
            forall|pa: Patch<T>, pb: Patch<T>, pc: Patch<T>| call_requires(f, (pa, pb, pc)),
            forall|r: int, cc: int|
                0 <= r < gny && 0 <= cc < gnx && !(1 <= r < i && 1 <= cc < gnx - 1)
                    ==> #[trigger] t@[r][cc] == old(t)@[r][cc],
            forall|r: int, cc: int|
                1 <= r < i && 1 <= cc < gnx - 1 ==> call_ensures(
                    f,
                    (patch_at(a@, r, cc), patch_at(b@, r, cc), patch_at(c@, r, cc)),
                    #[trigger] t@[r][cc],
                ),
        decreases ny - 1 - i,
    {
        let mut j: usize = 1;
        while j < nx - 1
            invariant
                t.wf(),
                a.wf(),
                b.wf(),
                c.wf(),
                t.cols() == old(t).cols(),
                t@.len() == old(t)@.len(),
                a@.len() == t@.len(),
                a.cols() == t.cols(),
                b@.len() == t@.len(),
                b.cols() == t.cols(),
                c@.len() == t@.len(),
                c.cols() == t.cols(),
                gny == t@.len(),
                gnx == t.cols(),
                ny == gny,
                nx == gnx,
                3 <= ny,
                3 <= nx,
                1 <= i < ny - 1,
                1 <= j <= nx - 1,
                forall|pa: Patch<T>, pb: Patch<T>, pc: Patch<T>| call_requires(f, (pa, pb, pc)),
                forall|r: int, cc: int|
                    0 <= r < gny && 0 <= cc < gnx && !(1 <= r < i && 1 <= cc < gnx - 1) && !(r == i
                        && 1 <= cc < j) ==> #[trigger] t@[r][cc] == old(t)@[r][cc],
                forall|r: int, cc: int|
                    1 <= r < i && 1 <= cc < gnx - 1 ==> call_ensures(
                        f,
                        (patch_at(a@, r, cc), patch_at(b@, r, cc), patch_at(c@, r, cc)),
                        #[trigger] t@[r][cc],
                    ),
                forall|cc: int|
                    1 <= cc < j ==> call_ensures(
                        f,
                        (
                            patch_at(a@, i as int, cc),
                            patch_at(b@, i as int, cc),
                            patch_at(c@, i as int, cc),
                        ),
                        #[trigger] t@[i as int][cc],
                    ),
            decreases nx - 1 - j,
        {
            let pa = a.read_patch(i, j);
            let pb = b.read_patch(i, j);
            let pc = c.read_patch(i, j);
            let v = f(pa, pb, pc);
            t.set(i, j, v);
            j += 1;
        }
        i += 1;
    }
}

/// Rewrite every cell of `t` with row and column at least 1 by the kernel
/// `f` applied to `(centre, left, below)` read from the snapshot `a`; row 0
/// and column 0 keep their values.
pub fn sweep_corner1<T: Copy, F: Fn(T, T, T) -> T>(t: &mut Field<T>, a: &Field<T>, f: F)
    requires
        old(t).wf(),
        a.wf(),
        a@.len() == old(t)@.len(),
        a.cols() == old(t).cols(),
        forall|c: T, l: T, d: T| call_requires(f, (c, l, d)),
    ensures
        final(t).wf(),
        final(t).cols() == old(t).cols(),
        final(t)@.len() == old(t)@.len(),
        corner_swept1(
            f,
            a@,
            old(t)@,
            final(t)@,
            old(t)@.len() as int,
            old(t).cols() as int,
        ),
{
    let ny = t.ny();
    let nx = t.nx();
    if ny < 2 || nx < 2 {
        return ;
    }
    let ghost gny = ny as int;
    let ghost gnx = nx as int;
    let mut i: usize = 1;
    while i < ny
        invariant
            t.wf(),
            a.wf(),
            t.cols() == old(t).cols(),
            t@.len() == old(t)@.len(),
            a@.len() == t@.len(),
            a.cols() == t.cols(),
            gny == t@.len(),
            gnx == t.cols(),
            ny == gny,
            nx == gnx,
            2 <= ny,
            2 <= nx,
            1 <= i <= ny,
            forall|c: T, l: T, d: T| call_requires(f, (c, l, d)),
            forall|r: int, c: int|
                0 <= r < gny && 0 <= c < gnx && !(1 <= r < i && 1 <= c)
                    ==> #[trigger] t@[r][c] == old(t)@[r][c],
            forall|r: int, c: int|
                1 <= r < i && 1 <= c < gnx ==> call_ensures(
                    f,
                    (a@[r][c], a@[r][c - 1], a@[r - 1][c]),
                    #[trigger] t@[r][c],
                ),
        decreases ny - i,
    {
        let mut j: usize = 1;
        while j < nx
            invariant
                t.wf(),
                a.wf(),
                t.cols() == old(t).cols(),
                t@.len() == old(t)@.len(),
                a@.len() == t@.len(),
                a.cols() == t.cols(),
                gny == t@.len(),
                gnx == t.cols(),
                ny == gny,
                nx == gnx,
                2 <= ny,
                2 <= nx,
                1 <= i < ny,
                1 <= j <= nx,
                forall|c: T, l: T, d: T| call_requires(f, (c, l, d)),
                forall|r: int, c: int|
                    0 <= r < gny && 0 <= c < gnx && !(1 <= r < i && 1 <= c) && !(r == i && 1 <= c
                        < j) ==> #[trigger] t@[r][c] == old(t)@[r][c],
                forall|r: int, c: int|
                    1 <= r < i && 1 <= c < gnx ==> call_ensures(
                        f,
                        (a@[r][c], a@[r][c - 1], a@[r - 1][c]),
                        #[trigger] t@[r][c],
                    ),
                forall|c: int|
                    1 <= c < j ==> call_ensures(
                        f,
                        (a@[i as int][c], a@[i as int][c - 1], a@[i - 1][c]),
                        #[trigger] t@[i as int][c],
                    ),
            decreases nx - j,
        {
            let (pc, pl, pd) = a.read_corner(i, j);
            let v = f(pc, pl, pd);
            t.set(i, j, v);
            j += 1;
        }
        i += 1;
    }
}

/// Rewrite every cell of `t` with row and column at least 1 by the kernel
/// `f` applied to `(centre, left, below)` of the snapshot `a` followed by
/// `(centre, left, below)` of the snapshot `b`; row 0 and column 0 keep
/// their values.
pub fn sweep_corner2<T: Copy, F: Fn(T, T, T, T, T, T) -> T>(
    t: &mut Field<T>,
    a: &Field<T>,
    b: &Field<T>,
    f: F,
)
    requires
        old(t).wf(),
        a.wf(),
        b.wf(),
        a@.len() == old(t)@.len(),
        a.cols() == old(t).cols(),
        b@.len() == old(t)@.len(),
        b.cols() == old(t).cols(),
        forall|ac: T, al: T, ad: T, bc: T, bl: T, bd: T|
            call_requires(f, (ac, al, ad, bc, bl, bd)),
    ensures
        final(t).wf(),
        final(t).cols() == old(t).cols(),
        final(t)@.len() == old(t)@.len(),
        corner_swept2(
            f,
            a@,
            b@,
            old(t)@,
            final(t)@,
            old(t)@.len() as int,
            old(t).cols() as int,
        ),
{
    let ny = t.ny();
    let nx = t.nx();
    if ny < 2 || nx < 2 {
        return ;
    }
    let ghost gny = ny as int;
    let ghost gnx = nx as int;
    let mut i: usize = 1;
    while i < ny
        invariant
            t.wf(),
            a.wf(),
            b.wf(),
            t.cols() == old(t).cols(),
            t@.len() == old(t)@.len(),
            a@.len() == t@.len(),
            a.cols() == t.cols(),
            b@.len() == t@.len(),
            b.cols() == t.cols(),
            gny == t@.len(),
            gnx == t.cols(),
            ny == gny,
            nx == gnx,
            2 <= ny,
            2 <= nx,
            1 <= i <= ny,
            forall|ac: T, al: T, ad: T, bc: T, bl: T, bd: T|
                call_requires(f, (ac, al, ad, bc, bl, bd)),
            forall|r: int, c: int|
                0 <= r < gny && 0 <= c < gnx && !(1 <= r < i && 1 <= c)
                    ==> #[trigger] t@[r][c] == old(t)@[r][c],
            forall|r: int, c: int|
                1 <= r < i && 1 <= c < gnx ==> call_ensures(
                    f,
                    (a@[r][c], a@[r][c - 1], a@[r - 1][c], b@[r][c], b@[r][c - 1], b@[r - 1][c]),
                    #[trigger] t@[r][c],
                ),
        decreases ny - i,
    {
        let mut j: usize = 1;
        while j < nx
            invariant
                t.wf(),
                a.wf(),
                b.wf(),
                t.cols() == old(t).cols(),
                t@.len() == old(t)@.len(),
                a@.len() == t@.len(),
                a.cols() == t.cols(),
                b@.len() == t@.len(),
                b.cols() == t.cols(),
                gny == t@.len(),
                gnx == t.cols(),
                ny == gny,
                nx == gnx,
                2 <= ny,
                2 <= nx,
                1 <= i < ny,
                1 <= j <= nx,
                forall|ac: T, al: T, ad: T, bc: T, bl: T, bd: T|
                    call_requires(f, (ac, al, ad, bc, bl, bd)),
                forall|r: int, c: int|
                    0 <= r < gny && 0 <= c < gnx && !(1 <= r < i && 1 <= c) && !(r == i && 1 <= c
                        < j) ==> #[trigger] t@[r][c] == old(t)@[r][c],
                forall|r: int, c: int|
                    1 <= r < i && 1 <= c < gnx ==> call_ensures(
                        f,
                        (
                            a@[r][c],
                            a@[r][c - 1],
                            a@[r - 1][c],
                            b@[r][c],
                            b@[r][c - 1],
                            b@[r - 1][c],
                        ),
                        #[trigger] t@[r][c],
                    ),
                forall|c: int|
                    1 <= c < j ==> call_ensures(
                        f,
                        (
                            a@[i as int][c],
                            a@[i as int][c - 1],
                            a@[i - 1][c],
                            b@[i as int][c],
                            b@[i as int][c - 1],
                            b@[i - 1][c],
                        ),
                        #[trigger] t@[i as int][c],
                    ),
            decreases nx - j,
        {
            let (pac, pal, pad) = a.read_corner(i, j);
            let (pbc, pbl, pbd) = b.read_corner(i, j);
            let v = f(pac, pal, pad, pbc, pbl, pbd);
            t.set(i, j, v);
            j += 1;
        }
        i += 1;
    }
}

/// Rewrite the cells of column `j` in rows `1 .. ny - 1` of `t` by the
/// kernel `f` applied to the wrapped neighbourhoods of the snapshots `a` and
/// `b`; every other cell keeps its value.
pub fn sweep_col_wrapped2<T: Copy, F: Fn(Patch<T>, Patch<T>) -> T>(
    t: &mut Field<T>,
    a: &Field<T>,
    b: &Field<T>,
    j: usize,
    f: F,
)
    requires
        old(t).wf(),
        a.wf(),
        b.wf(),
        a@.len() == old(t)@.len(),
        a.cols() == old(t).cols(),
        b@.len() == old(t)@.len(),
        b.cols() == old(t).cols(),
        j < old(t).cols(),
        forall|pa: Patch<T>, pb: Patch<T>| call_requires(f, (pa, pb)),
    ensures
        final(t).wf(),
        final(t).cols() == old(t).cols(),
        final(t)@.len() == old(t)@.len(),
        col_swept2(
            f,
            a@,
            b@,
            old(t)@,
            final(t)@,
            old(t)@.len() as int,
            old(t).cols() as int,
            j as int,
        ),
{
    let ny = t.ny();
    if ny < 3 {
        return ;
    }
    let ghost gny = ny as int;
    let ghost gnx = old(t).cols() as int;
    let mut i: usize = 1;
    while i < ny - 1
        invariant
            t.wf(),
            a.wf(),
            b.wf(),
            t.cols() == old(t).cols(),
            t@.len() == old(t)@.len(),
            a@.len() == t@.len(),
            a.cols() == t.cols(),
            b@.len() == t@.len(),
            b.cols() == t.cols(),
            gny == t@.len(),
            gnx == t.cols(),
            ny == gny,
            3 <= ny,
            j < gnx,
            1 <= i <= ny - 1,
            forall|pa: Patch<T>, pb: Patch<T>| call_requires(f, (pa, pb)),
            forall|r: int, c: int|
                0 <= r < gny && 0 <= c < gnx && !(1 <= r < i && c == j)
                    ==> #[trigger] t@[r][c] == old(t)@[r][c],
            forall|r: int|
                1 <= r < i ==> call_ensures(
                    f,
                    (patch_wrapped(a@, gnx, r, j as int), patch_wrapped(b@, gnx, r, j as int)),
                    #[trigger] t@[r][j as int],
                ),
        decreases ny - 1 - i,
    {
        let pa = a.read_patch_wrapped(i, j);
        let pb = b.read_patch_wrapped(i, j);
        let v = f(pa, pb);
        t.set(i, j, v);
        i += 1;
    }
}

/// Rewrite the cells of column `j` in rows `1 .. ny - 1` of `t` by the
/// kernel `f` applied to the wrapped neighbourhoods of the snapshots `a`,
/// `b` and `c`; every other cell keeps its value.
pub fn sweep_col_wrapped3<T: Copy, F: Fn(Patch<T>, Patch<T>, Patch<T>) -> T>(
    t: &mut Field<T>,
    a: &Field<T>,
    b: &Field<T>,
    c: &Field<T>,
    j: usize,
    f: F,
)
    requires
        old(t).wf(),
        a.wf(),
        b.wf(),
        c.wf(),
        a@.len() == old(t)@.len(),
        a.cols() == old(t).cols(),
        b@.len() == old(t)@.len(),
        b.cols() == old(t).cols(),
        c@.len() == old(t)@.len(),
        c.cols() == old(t).cols(),
        j < old(t).cols(),
        forall|pa: Patch<T>, pb: Patch<T>, pc: Patch<T>| call_requires(f, (pa, pb, pc)),
    ensures
        final(t).wf(),
        final(t).cols() == old(t).cols(),
        final(t)@.len() == old(t)@.len(),
        col_swept3(
            f,
            a@,
            b@,
            c@,
            old(t)@,
            final(t)@,
            old(t)@.len() as int,
            old(t).cols() as int,
            j as int,
        ),
{
    let ny = t.ny();
    if ny < 3 {
        return ;
    }
    let ghost gny = ny as int;
    let ghost gnx = old(t).cols() as int;
    let mut i: usize = 1;
    while i < ny - 1
        invariant
            t.wf(),
            a.wf(),
            b.wf(),
            c.wf(),
            t.cols() == old(t).cols(),
            t@.len() == old(t)@.len(),
            a@.len() == t@.len(),
            a.cols() == t.cols(),
            b@.len() == t@.len(),
            b.cols() == t.cols(),
            c@.len() == t@.len(),
            c.cols() == t.cols(),
            gny == t@.len(),
            gnx == t.cols(),
            ny == gny,
            3 <= ny,
            j < gnx,
            1 <= i <= ny - 1,
            forall|pa: Patch<T>, pb: Patch<T>, pc: Patch<T>| call_requires(f, (pa, pb, pc)),
            forall|r: int, cc: int|
                0 <= r < gny && 0 <= cc < gnx && !(1 <= r < i && cc == j)
                    ==> #[trigger] t@[r][cc] == old(t)@[r][cc],
            forall|r: int|
                1 <= r < i ==> call_ensures(
                    f,
                    (
                        patch_wrapped(a@, gnx, r, j as int),
                        patch_wrapped(b@, gnx, r, j as int),
                        patch_wrapped(c@, gnx, r, j as int),
                    ),
                    #[trigger] t@[r][j as int],
                ),
        decreases ny - 1 - i,
    {
        let pa = a.read_patch_wrapped(i, j);
        let pb = b.read_patch_wrapped(i, j);
        let pc = c.read_patch_wrapped(i, j);
        let v = f(pa, pb, pc);
        t.set(i, j, v);
        i += 1;
    }
}

/// The x-periodic sweep: rewrite the interior of `t` from the snapshots
/// `a` and `b`, then the last column and column 0 with wrapped row
/// neighbours, all with the kernel `f`.
pub fn sweep_periodic2<T: Copy, F: Fn(Patch<T>, Patch<T>) -> T + Copy>(
    t: &mut Field<T>,
    a: &Field<T>,
    b: &Field<T>,
    f: F,
)
    requires
        old(t).wf(),
        a.wf(),
        b.wf(),
        a@.len() == old(t)@.len(),
        a.cols() == old(t).cols(),
        b@.len() == old(t)@.len(),
        b.cols() == old(t).cols(),
        old(t).cols() >= 1,
        forall|pa: Patch<T>, pb: Patch<T>| call_requires(f, (pa, pb)),
    ensures
        final(t).wf(),
        final(t).cols() == old(t).cols(),
        final(t)@.len() == old(t)@.len(),
        swept_periodic2(
            f,
            a@,
            b@,
            old(t)@,
            final(t)@,
            old(t)@.len() as int,
            old(t).cols() as int,
        ),
{
    let nx = t.nx();
    let ghost gny = old(t)@.len() as int;
    let ghost gnx = old(t).cols() as int;
    sweep_interior2(t, a, b, f);
    let ghost m1 = t@;
    sweep_col_wrapped2(t, a, b, nx - 1, f);
    let ghost m2 = t@;
    sweep_col_wrapped2(t, a, b, 0, f);
    proof {
        assert(interior_swept2(f, a@, b@, old(t)@, m1, gny, gnx));
        assert(col_swept2(f, a@, b@, m1, m2, gny, gnx, gnx - 1));
        assert(col_swept2(f, a@, b@, m2, t@, gny, gnx, 0));
    }
}

/// The x-periodic sweep over three snapshot fields: rewrite the interior of
/// `t` from `a`, `b` and `c`, then the last column and column 0 with
/// wrapped row neighbours, all with the kernel `f`.
pub fn sweep_periodic3<T: Copy, F: Fn(Patch<T>, Patch<T>, Patch<T>) -> T + Copy>(
    t: &mut Field<T>,
    a: &Field<T>,
    b: &Field<T>,
    c: &Field<T>,
    f: F,
)
    requires
        old(t).wf(),
        a.wf(),
        b.wf(),
        c.wf(),
        a@.len() == old(t)@.len(),
        a.cols() == old(t).cols(),
        b@.len() == old(t)@.len(),
        b.cols() == old(t).cols(),
        c@.len() == old(t)@.len(),
        c.cols() == old(t).cols(),
        old(t).cols() >= 1,
        forall|pa: Patch<T>, pb: Patch<T>, pc: Patch<T>| call_requires(f, (pa, pb, pc)),
    ensures
        final(t).wf(),
        final(t).cols() == old(t).cols(),
        final(t)@.len() == old(t)@.len(),
        swept_periodic3(
            f,
            a@,
            b@,
            c@,
            old(t)@,
            final(t)@,
            old(t)@.len() as int,
            old(t).cols() as int,
        ),
{
    let nx = t.nx();
    let ghost gny = old(t)@.len() as int;
    let ghost gnx = old(t).cols() as int;
    sweep_interior3(t, a, b, c, f);
    let ghost m1 = t@;
    sweep_col_wrapped3(t, a, b, c, nx - 1, f);
    let ghost m2 = t@;
    sweep_col_wrapped3(t, a, b, c, 0, f);
    proof {
        assert(interior_swept3(f, a@, b@, c@, old(t)@, m1, gny, gnx));
        assert(col_swept3(f, a@, b@, c@, m1, m2, gny, gnx, gnx - 1));
        assert(col_swept3(f, a@, b@, c@, m2, t@, gny, gnx, 0));
    }
}

} // verus!
