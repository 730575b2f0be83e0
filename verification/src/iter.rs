//! Traversal of a grid, cell by cell.

use crate::grid::Array2D;
use crate::layout::{row_at, set_row};
use crate::rows::slice_mut;
use vstd::prelude::*;
use vstd::std_specs::iter::IteratorSpec;

verus! {

impl<T, const W: usize, const H: usize> Array2D<T, W, H> {
    /// An iterator over all cells: row `0` from left to right, then row `1`,
    /// and so on.
    ///
    /// The first clause says what the iterator will yield. The other two are
    /// what a `for` loop needs to know of an iterator before it starts.
    pub fn iter(&self) -> (cells: core::slice::Iter<'_, T>)
        ensures
            cells.remaining() == self@.as_ref(),
            cells.decrease() is Some,
            cells.initial_value_relation(&cells),
    {
        proof {
            Self::lemma_view_is_buffer();
        }
        self.data.as_slice().iter()
    }

    /// Exclusive access to all cells in the order of [`Array2D::iter`], for
    /// changing them in place. What the caller leaves in the slice is what the
    /// grid then holds.
    pub fn iter_mut(&mut self) -> (cells: &mut [T])
        ensures
            cells@ == old(self)@,
            cells@.len() == W * H,
            final(cells)@.len() == W * H,
            final(self)@ == final(cells)@,
    {
        proof {
            use_type_invariant(&*self);
            Self::lemma_view_is_buffer();
        }
        let len = self.data.len();
        slice_mut(&mut self.data, 0, len)
    }

    /// An iterator over the cells of row `y`, which the caller knows to exist,
    /// from left to right.
    pub fn iter_row(&self, y: usize) -> (cells: core::slice::Iter<'_, T>)
        requires
            y < H,
        ensures
            cells.remaining() == row_at(self@, W as nat, y as int).as_ref(),
            cells.decrease() is Some,
            cells.initial_value_relation(&cells),
    {
        self.get_row_unchecked(y).iter()
    }

    /// Exclusive access to the cells of row `y`, which the caller knows to
    /// exist, in the order of [`Array2D::iter_row`], for changing them in
    /// place.
    pub fn iter_row_mut(&mut self, y: usize) -> (cells: &mut [T])
        requires
            y < H,
        ensures
            cells@ == row_at(old(self)@, W as nat, y as int),
            cells@.len() == W,
            final(cells)@.len() == W,
            final(self)@ == set_row(old(self)@, W as nat, y as int, final(cells)@),
    {
        self.get_row_unchecked_mut(y)
    }
}

} // verus!
