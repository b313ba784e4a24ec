//! Boundary condition applicators. Each regime overwrites a field's border
//! cells in place and leaves every interior cell untouched. Each applier's
//! contract gives the new grid as a closed-form function of the old one, and
//! a proof function per regime shows the overwrite is idempotent: applying
//! it twice yields the same grid as applying it once.

use vstd::prelude::*;

use crate::field::{const_row, Field};

verus! {

/// The grid `s` with every border cell (first and last row, first and last
/// column) replaced by `v`.
pub open spec fn border_const<T>(s: Seq<Seq<T>>, nx: nat, v: T) -> Seq<Seq<T>> {
    Seq::new(
        s.len(),
        |i: int|
            Seq::new(
                nx,
                |j: int|
                    if i == 0 || i == s.len() - 1 || j == 0 || j == nx - 1 {
                        v
                    } else {
                        s[i][j]
                    },
            ),
    )
}

/// The grid `s` with the first and last column replaced by `wall`, the rest
/// of the last row replaced by `lid`, and the rest of the first row replaced
/// by `wall`: the driven-lid regime, where the side columns are written
/// after the lid row and therefore win at the two top corners.
pub open spec fn lid_walls<T>(s: Seq<Seq<T>>, nx: nat, wall: T, lid: T) -> Seq<Seq<T>> {
    Seq::new(
        s.len(),
        |i: int|
            Seq::new(
                nx,
                |j: int|
                    if j == 0 || j == nx - 1 {
                        wall
                    } else if i == s.len() - 1 {
                        lid
                    } else if i == 0 {
                        wall
                    } else {
                        s[i][j]
                    },
            ),
    )
}

/// The grid `s` with the first and last row replaced by rows of `v` and all
/// other rows unchanged: Dirichlet walls on the two y boundaries only.
pub open spec fn wall_rows<T>(s: Seq<Seq<T>>, nx: nat, v: T) -> Seq<Seq<T>> {
    Seq::new(
        s.len(),
        |i: int|
            if i == 0 || i == s.len() - 1 {
                const_row(nx, v)
            } else {
                s[i]
            },
    )
}

/// The grid `s` with the first row replaced by a copy of the second and the
/// last row replaced by a copy of the one before it: discrete zero-gradient
/// (Neumann) conditions on the two y boundaries.
pub open spec fn neumann_rows<T>(s: Seq<Seq<T>>) -> Seq<Seq<T>> {
    Seq::new(
        s.len(),
        |i: int|
            if i == 0 {
                s[1]
            } else if i == s.len() - 1 {
                s[s.len() - 2]
            } else {
                s[i]
            },
    )
}

/// The grid `s` with column 0 fixed at `left`, the last column fixed entry
/// by entry from `right`, and then the first and last rows overwritten by
/// copies of their inner neighbours (zero-gradient in y). `src` names the
/// row each final row is read from.
pub open spec fn laplace_bc<T>(s: Seq<Seq<T>>, nx: nat, left: T, right: Seq<T>) -> Seq<Seq<T>> {
    Seq::new(
        s.len(),
        |i: int|
            {
                let src = if i == 0 {
                    1
                } else if i == s.len() - 1 {
                    s.len() - 2
                } else {
                    i as int
                };
                Seq::new(
                    nx,
                    |j: int|
                        if j == nx - 1 {
                            right[src]
                        } else if j == 0 {
                            left
                        } else {
                            s[src][j]
                        },
                )
            },
    )
}

impl<T: Copy> Field<T> {
    /// Overwrite every border cell with `v`.
    pub fn apply_border_const(&mut self, v: T)
        requires
            old(self).wf(),
            old(self)@.len() >= 1,
            old(self).cols() >= 1,
        ensures
            final(self).wf(),
            final(self).cols() == old(self).cols(),
            final(self)@ == border_const(old(self)@, old(self).cols(), v),
    {
        let ny = self.ny();
        let nx = self.nx();
        self.fill_row(0, v);
        self.fill_row(ny - 1, v);
        self.fill_col(0, v);
        self.fill_col(nx - 1, v);
        proof {
            assert(self@ =~~= border_const(old(self)@, old(self).cols(), v));
        }
    }

    /// Overwrite the first row and both side columns with `wall` and the
    /// last row with `lid`; the side columns are written last and win at
    /// the two corners of the lid row.
    pub fn apply_lid_walls(&mut self, wall: T, lid: T)
        requires
            old(self).wf(),
            old(self)@.len() >= 1,
            old(self).cols() >= 1,
        ensures
            final(self).wf(),
            final(self).cols() == old(self).cols(),
            final(self)@ == lid_walls(old(self)@, old(self).cols(), wall, lid),
    {
        let ny = self.ny();
        let nx = self.nx();
        self.fill_row(0, wall);
        self.fill_row(ny - 1, lid);
        self.fill_col(0, wall);
        self.fill_col(nx - 1, wall);
        proof {
            assert(self@ =~~= lid_walls(old(self)@, old(self).cols(), wall, lid));
        }
    }

    /// Overwrite the first and last row with `v`.
    pub fn apply_wall_rows(&mut self, v: T)
        requires
            old(self).wf(),
            old(self)@.len() >= 1,
        ensures
            final(self).wf(),
            final(self).cols() == old(self).cols(),
            final(self)@ == wall_rows(old(self)@, old(self).cols(), v),
    {
        let ny = self.ny();
        self.fill_row(0, v);
        self.fill_row(ny - 1, v);
        proof {
            assert(self@ =~~= wall_rows(old(self)@, old(self).cols(), v));
        }
    }

    /// Overwrite the first row with a copy of the second and the last row
    /// with a copy of the one before it.
    pub fn apply_neumann_rows(&mut self)
        requires
            old(self).wf(),
            old(self)@.len() >= 3,
        ensures
            final(self).wf(),
            final(self).cols() == old(self).cols(),
            final(self)@ == neumann_rows(old(self)@),
    {
        let ny = self.ny();
        self.copy_row(0, 1);
        self.copy_row(ny - 1, ny - 2);
        proof {
            assert(self@ =~~= neumann_rows(old(self)@));
        }
    }

    /// Fix column 0 at `left`, the last column entry by entry from `right`,
    /// then copy the second row onto the first and the second-to-last row
    /// onto the last.
    pub fn apply_laplace_bc(&mut self, left: T, right: &Vec<T>)
        requires
            old(self).wf(),
            old(self)@.len() >= 3,
            old(self).cols() >= 1,
            right@.len() == old(self)@.len(),
        ensures
            final(self).wf(),
            final(self).cols() == old(self).cols(),
            final(self)@ == laplace_bc(old(self)@, old(self).cols(), left, right@),
    {
        let ny = self.ny();
        let nx = self.nx();
        self.fill_col(0, left);
        self.set_col_from(nx - 1, right);
        self.copy_row(0, 1);
        self.copy_row(ny - 1, ny - 2);
        proof {
            assert(self@ =~~= laplace_bc(old(self)@, old(self).cols(), left, right@));
        }
    }
}

/// Overwriting the borders with a constant twice in a row yields the same
/// grid as doing it once.
pub proof fn lemma_border_const_idempotent<T>(s: Seq<Seq<T>>, nx: nat, v: T)
    ensures
        border_const(border_const(s, nx, v), nx, v) == border_const(s, nx, v),
{
    assert(border_const(border_const(s, nx, v), nx, v) =~~= border_const(s, nx, v));
}

/// Applying the driven-lid boundary regime twice in a row yields the same
/// grid as applying it once.
pub proof fn lemma_lid_walls_idempotent<T>(s: Seq<Seq<T>>, nx: nat, wall: T, lid: T)
    ensures
        lid_walls(lid_walls(s, nx, wall, lid), nx, wall, lid) == lid_walls(s, nx, wall, lid),
{
    assert(lid_walls(lid_walls(s, nx, wall, lid), nx, wall, lid) =~~= lid_walls(s, nx, wall, lid));
}

/// Overwriting the two wall rows twice in a row yields the same grid as
/// doing it once.
pub proof fn lemma_wall_rows_idempotent<T>(s: Seq<Seq<T>>, nx: nat, v: T)
    ensures
        wall_rows(wall_rows(s, nx, v), nx, v) == wall_rows(s, nx, v),
{
    assert(wall_rows(wall_rows(s, nx, v), nx, v) =~~= wall_rows(s, nx, v));
}

/// Copying the inner rows onto the boundary rows twice in a row yields the
/// same grid as doing it once.
pub proof fn lemma_neumann_rows_idempotent<T>(s: Seq<Seq<T>>)
    requires
        s.len() >= 3,
    ensures
        neumann_rows(neumann_rows(s)) == neumann_rows(s),
{
    assert(neumann_rows(neumann_rows(s)) =~~= neumann_rows(s));
}

/// Applying the Laplace boundary regime twice in a row yields the same grid
/// as applying it once.
pub proof fn lemma_laplace_bc_idempotent<T>(s: Seq<Seq<T>>, nx: nat, left: T, right: Seq<T>)
    requires
        s.len() >= 3,
    ensures
        laplace_bc(laplace_bc(s, nx, left, right), nx, left, right) == laplace_bc(
            s,
            nx,
            left,
            right,
        ),
{
    assert(laplace_bc(laplace_bc(s, nx, left, right), nx, left, right) =~~= laplace_bc(
        s,
        nx,
        left,
        right,
    ));
}

} // verus!
