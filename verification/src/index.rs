//! Indexing with square brackets: `grid[y]` is row `y`, `grid[(x, y)]` is the
//! cell at column `x` of row `y`.
//!
//! The index is the caller's to get right: reading asks for a row or a cell
//! that the grid has. Rows can be written through `grid[y][x] = value`; in
//! code that Verus checks, where the brackets cannot yet stand on the left of
//! an assignment, [`Array2D::get_row_unchecked_mut`] does the same. A pair
//! indexes for reading only; [`Array2D::get_unchecked_mut`] is its counterpart
//! for writing.

use crate::grid::Array2D;
use crate::layout::{in_bounds, offset, row_at, set_row};
use crate::rows::slice_mut;
use core::ops::{Index, IndexMut};
use vstd::prelude::*;

verus! {

impl<T, const W: usize, const H: usize> vstd::std_specs::core::IndexSpecImpl<usize> for Array2D<T, W, H> {
    /// Reading `grid[y]` asks for a row that the grid has.
    open spec fn index_req(&self, index: &usize) -> bool {
        *index < H
    }
}

impl<T, const W: usize, const H: usize> Index<usize> for Array2D<T, W, H> {
    type Output = [T];

    /// Row `index`.
    fn index(&self, index: usize) -> (row: &[T])
        ensures
            row@ == row_at(self@, W as nat, index as int),
            row@.len() == W,
    {
        self.get_row_unchecked(index)
    }
}

impl<T, const W: usize, const H: usize> IndexMut<usize> for Array2D<T, W, H> {
    /// Exclusive access to row `index`. Where the grid has no such row, the
    /// slice is empty and the grid is left as it is.
    fn index_mut(&mut self, index: usize) -> (row: &mut [T])
        ensures
            index < H ==> {
                &&& row@ == row_at(old(self)@, W as nat, index as int)
                &&& row@.len() == W
                &&& final(row)@.len() == W
                &&& final(self)@ == set_row(old(self)@, W as nat, index as int, final(row)@)
            },
            index >= H ==> row@.len() == 0 && final(self)@ == old(self)@,
    {
        if index < H {
            self.get_row_unchecked_mut(index)
        } else {
            proof {
                use_type_invariant(&*self);
                Self::lemma_view_is_buffer();
            }
            slice_mut(&mut self.data, 0, 0)
        }
    }
}

impl<T, const W: usize, const H: usize> vstd::std_specs::core::IndexSpecImpl<(usize, usize)> for Array2D<T, W, H> {
    /// Reading `grid[(x, y)]` asks for a cell that the grid has.
    open spec fn index_req(&self, index: &(usize, usize)) -> bool {
        in_bounds(W as nat, H as nat, index.0 as int, index.1 as int)
    }
}

impl<T, const W: usize, const H: usize> Index<(usize, usize)> for Array2D<T, W, H> {
    type Output = T;

    /// The cell at column `index.0` of row `index.1`.
    fn index(&self, index: (usize, usize)) -> (cell: &T)
        ensures
            *cell == self@[offset(W as nat, index.0 as int, index.1 as int)],
    {
        self.get_unchecked(index.0, index.1)
    }
}

} // verus!
