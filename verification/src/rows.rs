//! Rows of a grid as slices of its buffer.

use crate::grid::Array2D;
use crate::layout::{lemma_row_in_range, row_at, set_row};
use vstd::prelude::*;

verus! {

/// `&mut data[start..end]`: the index operator of `Vec` with a range, taken
/// mutably.
///
/// Trusted, not proved: the slice shows the elements `start..end` of the
/// vector; it keeps its length whatever is written through it; and once the
/// borrow ends the vector holds what the slice holds in those places and is
/// unchanged elsewhere. The range lies inside the vector, so the operator does
/// not panic.
#[verifier::external_body]
pub(crate) fn slice_mut<T>(data: &mut Vec<T>, start: usize, end: usize) -> (part: &mut [T])
    requires
        start <= end <= old(data)@.len(),
    ensures
        part@ == old(data)@.subrange(start as int, end as int),
        final(part)@.len() == part@.len(),
        final(data)@ == old(data)@.subrange(0, start as int) + final(part)@ + old(data)@.subrange(
            end as int,
            old(data)@.len() as int,
        ),
    no_unwind
{
    &mut data[start..end]
}

impl<T, const W: usize, const H: usize> Array2D<T, W, H> {
    /// Row `y`, if the grid has one.
    pub fn get_row(&self, y: usize) -> (row: Option<&[T]>)
        ensures
            match row {
                Some(cells) => y < H && cells@ == row_at(self@, W as nat, y as int) && cells@.len()
                    == W,
                None => y >= H,
            },
    {
        if y < H {
            Some(self.get_row_unchecked(y))
        } else {
            None
        }
    }

    /// Exclusive access to row `y`, if the grid has one. What the caller
    /// leaves in the slice is what the grid then holds in that row; no other
    /// row changes.
    pub fn get_row_mut(&mut self, y: usize) -> (row: Option<&mut [T]>)
        ensures
            match row {
                Some(cells) => {
                    &&& y < H
                    &&& cells@ == row_at(old(self)@, W as nat, y as int)
                    &&& cells@.len() == W
                    &&& final(cells)@.len() == W
                    &&& final(self)@ == set_row(old(self)@, W as nat, y as int, final(cells)@)
                },
                None => y >= H && final(self)@ == old(self)@,
            },
    {
        if y < H {
            Some(self.get_row_unchecked_mut(y))
        } else {
            None
        }
    }

    /// Row `y`, which the caller knows to exist.
    pub fn get_row_unchecked(&self, y: usize) -> (row: &[T])
        requires
            y < H,
        ensures
            row@ == row_at(self@, W as nat, y as int),
            row@.len() == W,
    {
        proof {
            Self::lemma_view_is_buffer();
        }
        let start = self.row_start(y);
        &self.data[start..start + W]
    }

    /// Exclusive access to row `y`, which the caller knows to exist.
    pub fn get_row_unchecked_mut(&mut self, y: usize) -> (row: &mut [T])
        requires
            y < H,
        ensures
            row@ == row_at(old(self)@, W as nat, y as int),
            row@.len() == W,
            final(row)@.len() == W,
            final(self)@ == set_row(old(self)@, W as nat, y as int, final(row)@),
    {
        proof {
            Self::lemma_view_is_buffer();
        }
        let start = self.row_start(y);
        slice_mut(&mut self.data, start, start + W)
    }

    /// All rows, from row `0` to row `H - 1`.
    pub fn rows(&self) -> (rows: Vec<&[T]>)
        ensures
            rows@.len() == H,
            forall|y: int| 0 <= y < H ==> (#[trigger] rows@[y])@ == row_at(self@, W as nat, y),
    {
        let mut rows: Vec<&[T]> = Vec::with_capacity(H);
        let mut y: usize = 0;
        while y < H
            invariant
                y <= H,
                rows@.len() == y,
                forall|k: int| 0 <= k < y ==> (#[trigger] rows@[k])@ == row_at(self@, W as nat, k),
            decreases H - y,
        {
            let row = self.get_row_unchecked(y);
            rows.push(row);
            y += 1;
        }
        rows
    }

    /// Offset at which row `y` starts.
    pub(crate) fn row_start(&self, y: usize) -> (start: usize)
        requires
            y < H,
        ensures
            start == y * W,
            start + W <= self.data.len(),
            self.wf(),
    {
        proof {
            use_type_invariant(self);
            Self::lemma_view_is_buffer();
            lemma_row_in_range(W as nat, H as nat, y as int);
        }
        assert(self.data.len() == W * H);
        y * W
    }
}

} // verus!
