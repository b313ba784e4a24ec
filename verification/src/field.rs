//! A two-dimensional field of scalar values with a fixed shape, the storage
//! that every solver reads and mutates. Row index `i` runs along the y axis,
//! column index `j` along the x axis, matching a shape of `(ny, nx)`.

use vstd::prelude::*;

verus! {

/// A grid view is a sequence of rows, each of the same length `nx`.
pub open spec fn is_grid<T>(s: Seq<Seq<T>>, nx: nat) -> bool {
    forall|i: int| 0 <= i < s.len() ==> (#[trigger] s[i]).len() == nx
}

/// A row of length `nx` whose every entry is `v`.
pub open spec fn const_row<T>(nx: nat, v: T) -> Seq<T> {
    Seq::new(nx, |k: int| v)
}

/// A grid of shape `(ny, nx)` whose every entry is `v`.
pub open spec fn const_grid<T>(ny: nat, nx: nat, v: T) -> Seq<Seq<T>> {
    Seq::new(ny, |i: int| const_row(nx, v))
}

/// The vector of row vectors `v` holds exactly the grid `s`.
pub open spec fn rows_eq<T>(v: Vec<Vec<T>>, s: Seq<Seq<T>>) -> bool {
    &&& v@.len() == s.len()
    &&& forall|i: int| 0 <= i < s.len() ==> (#[trigger] v@[i])@ == s[i]
}

/// The grid `s` with every entry of column `j` replaced by `v`.
pub open spec fn set_col<T>(s: Seq<Seq<T>>, j: int, v: T) -> Seq<Seq<T>> {
    Seq::new(s.len(), |i: int| s[i].update(j, v))
}

/// The grid `s` with column `j` replaced entry by entry from `vals`.
pub open spec fn set_col_vals<T>(s: Seq<Seq<T>>, j: int, vals: Seq<T>) -> Seq<Seq<T>> {
    Seq::new(s.len(), |i: int| s[i].update(j, vals[i]))
}

/// A 2D field of values with shape `(ny, nx)`, stored row by row.
pub struct Field<T> {
    rows: Vec<Vec<T>>,
    nx: usize,
}

impl<T> View for Field<T> {
    type V = Seq<Seq<T>>;

    closed spec fn view(&self) -> Seq<Seq<T>> {
        self.rows@.map_values(|r: Vec<T>| r@)
    }
}

impl<T: Copy> Field<T> {
    /// The number of columns, fixed at construction.
    pub closed spec fn cols(&self) -> nat {
        self.nx as nat
    }

    /// Well-formedness: every row has exactly `cols()` entries.
    pub open spec fn wf(&self) -> bool {
        is_grid(self@, self.cols())
    }

    pub fn ny(&self) -> (n: usize)
        ensures
            n == self@.len(),
    {
        self.rows.len()
    }

    pub fn nx(&self) -> (n: usize)
        ensures
            n == self.cols(),
    {
        self.nx
    }

    /// A field of shape `(ny, nx)` with every entry equal to `v`.
    pub fn filled(ny: usize, nx: usize, v: T) -> (f: Field<T>)
        ensures
            f.wf(),
            f@.len() == ny,
            f.cols() == nx,
            forall|i: int, j: int| 0 <= i < ny && 0 <= j < nx ==> #[trigger] f@[i][j] == v,
            f@ == const_grid(ny as nat, nx as nat, v),
    {
        let mut rows: Vec<Vec<T>> = Vec::new();
        let mut i: usize = 0;
        while i < ny
            invariant
                i <= ny,
                rows@.len() == i,
                forall|a: int| 0 <= a < i ==> (#[trigger] rows@[a])@.len() == nx,
                forall|a: int, b: int|
                    0 <= a < i && 0 <= b < nx ==> #[trigger] rows@[a]@[b] == v,
            decreases ny - i,
        {
            let mut row: Vec<T> = Vec::new();
            let mut j: usize = 0;
            while j < nx
                invariant
                    j <= nx,
                    row@.len() == j,
                    forall|b: int| 0 <= b < j ==> #[trigger] row@[b] == v,
                decreases nx - j,
            {
                row.push(v);
                j += 1;
            }
            rows.push(row);
            i += 1;
        }
        let f = Field { rows, nx };
        proof {
            assert(f@ =~~= const_grid(ny as nat, nx as nat, v));
        }
        f
    }

    /// A field of shape `(ny, nx)` holding `base` everywhere except on the
    /// sub-rectangle of rows `r0 .. r1` and columns `c0 .. c1`, which holds
    /// `peak` (a block-shaped initial condition).
    pub fn block(
        ny: usize,
        nx: usize,
        r0: usize,
        r1: usize,
        c0: usize,
        c1: usize,
        base: T,
        peak: T,
    ) -> (f: Field<T>)
        requires
            r0 <= r1 <= ny,
            c0 <= c1 <= nx,
        ensures
            f.wf(),
            f@.len() == ny,
            f.cols() == nx,
            forall|i: int, j: int|
                0 <= i < ny && 0 <= j < nx && r0 <= i < r1 && c0 <= j < c1
                    ==> #[trigger] f@[i][j] == peak,
            forall|i: int, j: int|
                0 <= i < ny && 0 <= j < nx && !(r0 <= i < r1 && c0 <= j < c1)
                    ==> #[trigger] f@[i][j] == base,
    {
        let mut rows: Vec<Vec<T>> = Vec::new();
        let mut i: usize = 0;
        while i < ny
            invariant
                r0 <= r1 <= ny,
                c0 <= c1 <= nx,
                i <= ny,
                rows@.len() == i,
                forall|a: int| 0 <= a < i ==> (#[trigger] rows@[a])@.len() == nx,
                forall|a: int, b: int|
                    0 <= a < i && 0 <= b < nx && r0 <= a < r1 && c0 <= b < c1
                        ==> #[trigger] rows@[a]@[b] == peak,
                forall|a: int, b: int|
                    0 <= a < i && 0 <= b < nx && !(r0 <= a < r1 && c0 <= b < c1)
                        ==> #[trigger] rows@[a]@[b] == base,
            decreases ny - i,
        {
            let mut row: Vec<T> = Vec::new();
            let mut j: usize = 0;
            while j < nx
                invariant
                    j <= nx,
                    row@.len() == j,
                    forall|b: int|
                        0 <= b < j && r0 <= i < r1 && c0 <= b < c1
                            ==> #[trigger] row@[b] == peak,
                    forall|b: int|
                        0 <= b < j && !(r0 <= i < r1 && c0 <= b < c1)
                            ==> #[trigger] row@[b] == base,
                decreases nx - j,
            {
                if i >= r0 && i < r1 && j >= c0 && j < c1 {
                    row.push(peak);
                } else {
                    row.push(base);
                }
                j += 1;
            }
            rows.push(row);
            i += 1;
        }
        Field { rows, nx }
    }

    pub fn get(&self, i: usize, j: usize) -> (v: T)
        requires
            self.wf(),
            i < self@.len(),
            j < self.cols(),
        ensures
            v == self@[i as int][j as int],
    {
        proof {
            assert(self@[i as int] == self.rows@[i as int]@);
        }
        self.rows[i][j]
    }

    pub fn set(&mut self, i: usize, j: usize, v: T)
        requires
            old(self).wf(),
            i < old(self)@.len(),
            j < old(self).cols(),
        ensures
            final(self).wf(),
            final(self).cols() == old(self).cols(),
            final(self)@ == old(self)@.update(
                i as int,
                old(self)@[i as int].update(j as int, v),
            ),
    {
        proof {
            assert(self@[i as int] == self.rows@[i as int]@);
        }
        self.rows[i][j] = v;
        proof {
            assert(self@ =~= old(self)@.update(
                i as int,
                old(self)@[i as int].update(j as int, v),
            ));
        }
    }

    /// A field made of the given rows; every row must have length `nx`.
    pub fn from_rows(rows: Vec<Vec<T>>, nx: usize) -> (f: Field<T>)
        requires
            forall|i: int| 0 <= i < rows@.len() ==> (#[trigger] rows@[i])@.len() == nx,
        ensures
            f.wf(),
            f.cols() == nx,
            f@.len() == rows@.len(),
            forall|i: int| 0 <= i < rows@.len() ==> #[trigger] f@[i] == rows@[i]@,
    {
        Field { rows, nx }
    }

    /// A copy of row `i`.
    pub fn row(&self, i: usize) -> (r: Vec<T>)
        requires
            self.wf(),
            i < self@.len(),
        ensures
            r@ == self@[i as int],
    {
        let nx = self.nx;
        let mut r: Vec<T> = Vec::new();
        let mut j: usize = 0;
        while j < nx
            invariant
                self.wf(),
                i < self@.len(),
                nx == self.cols(),
                j <= nx,
                r@.len() == j,
                forall|b: int| 0 <= b < j ==> #[trigger] r@[b] == self@[i as int][b],
            decreases nx - j,
        {
            r.push(self.get(i, j));
            j += 1;
        }
        proof {
            assert(r@ =~= self@[i as int]);
        }
        r
    }

    /// The rows of the field, each copied into a fresh vector.
    pub fn rows_vec(&self) -> (r: Vec<Vec<T>>)
        requires
            self.wf(),
        ensures
            r@.len() == self@.len(),
            forall|i: int| 0 <= i < r@.len() ==> (#[trigger] r@[i])@ == self@[i],
            rows_eq(r, self@),
    {
        let ny = self.rows.len();
        let mut r: Vec<Vec<T>> = Vec::new();
        let mut i: usize = 0;
        while i < ny
            invariant
                self.wf(),
                ny == self@.len(),
                i <= ny,
                r@.len() == i,
                forall|a: int| 0 <= a < i ==> (#[trigger] r@[a])@ == self@[a],
            decreases ny - i,
        {
            r.push(self.row(i));
            i += 1;
        }
        r
    }

    /// An independent copy of the whole field.
    pub fn snapshot(&self) -> (f: Field<T>)
        requires
            self.wf(),
        ensures
            f.wf(),
            f.cols() == self.cols(),
            f@ == self@,
    {
        let rows = self.rows_vec();
        let f = Field { rows, nx: self.nx };
        proof {
            assert(f@ =~= self@);
        }
        f
    }

    /// Overwrite every entry of row `i` with `v`; all other rows keep their
    /// values.
    pub fn fill_row(&mut self, i: usize, v: T)
        requires
            old(self).wf(),
            i < old(self)@.len(),
        ensures
            final(self).wf(),
            final(self).cols() == old(self).cols(),
            final(self)@ == old(self)@.update(i as int, const_row(old(self).cols(), v)),
    {
        let nx = self.nx;
        let mut row: Vec<T> = Vec::new();
        let mut j: usize = 0;
        while j < nx
            invariant
                j <= nx,
                row@.len() == j,
                forall|b: int| 0 <= b < j ==> #[trigger] row@[b] == v,
            decreases nx - j,
        {
            row.push(v);
            j += 1;
        }
        proof {
            assert(row@ =~= const_row(self.cols(), v));
        }
        self.rows[i] = row;
        proof {
            assert(self@ =~= old(self)@.update(i as int, const_row(old(self).cols(), v)));
        }
    }

    /// Overwrite every entry of column `j` with `v`; all other columns keep
    /// their values.
    pub fn fill_col(&mut self, j: usize, v: T)
        requires
            old(self).wf(),
            j < old(self).cols(),
        ensures
            final(self).wf(),
            final(self).cols() == old(self).cols(),
            final(self)@ == set_col(old(self)@, j as int, v),
    {
        let ny = self.rows.len();
        let mut i: usize = 0;
        while i < ny
            invariant
                self.wf(),
                self.cols() == old(self).cols(),
                ny == self@.len() == old(self)@.len(),
                j < self.cols(),
                i <= ny,
                forall|a: int| 0 <= a < i ==> #[trigger] self@[a] == old(self)@[a].update(j as int, v),
                forall|a: int| i <= a < ny ==> #[trigger] self@[a] == old(self)@[a],
            decreases ny - i,
        {
            self.set(i, j, v);
            i += 1;
        }
        proof {
            assert(self@ =~= set_col(old(self)@, j as int, v));
        }
    }

    /// Overwrite row `dst` with a copy of row `src`; all other rows keep
    /// their values.
    pub fn copy_row(&mut self, dst: usize, src: usize)
        requires
            old(self).wf(),
            dst < old(self)@.len(),
            src < old(self)@.len(),
        ensures
            final(self).wf(),
            final(self).cols() == old(self).cols(),
            final(self)@ == old(self)@.update(dst as int, old(self)@[src as int]),
    {
        let row = self.row(src);
        self.rows[dst] = row;
        proof {
            assert(self@ =~= old(self)@.update(dst as int, old(self)@[src as int]));
        }
    }

    /// Overwrite column `j` entry by entry from `vals`; all other columns
    /// keep their values.
    pub fn set_col_from(&mut self, j: usize, vals: &Vec<T>)
        requires
            old(self).wf(),
            j < old(self).cols(),
            vals@.len() == old(self)@.len(),
        ensures
            final(self).wf(),
            final(self).cols() == old(self).cols(),
            final(self)@ == set_col_vals(old(self)@, j as int, vals@),
    {
        let ny = self.rows.len();
        let mut i: usize = 0;
        while i < ny
            invariant
                self.wf(),
                self.cols() == old(self).cols(),
                ny == self@.len() == old(self)@.len(),
                j < self.cols(),
                vals@.len() == ny,
                i <= ny,
                forall|a: int|
                    0 <= a < i ==> #[trigger] self@[a] == old(self)@[a].update(
                        j as int,
                        vals@[a],
                    ),
                forall|a: int| i <= a < ny ==> #[trigger] self@[a] == old(self)@[a],
            decreases ny - i,
        {
            self.set(i, j, vals[i]);
            i += 1;
        }
        proof {
            assert(self@ =~= set_col_vals(old(self)@, j as int, vals@));
        }
    }
}

} // verus!
