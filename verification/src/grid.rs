//! The grid itself: construction and access to cells.

use crate::error::LengthMismatch;
use crate::layout::{cell_at, filled, in_bounds, lemma_offset_in_range, offset, set_cell};
use vstd::prelude::*;

verus! {

/// A dense grid of `W` columns and `H` rows, kept row by row in one buffer.
///
/// The view of a grid is that buffer: a sequence of `W * H` cells in which cell
/// `(x, y)` sits at offset `y * W + x`.
pub struct Array2D<T, const W: usize, const H: usize> {
    pub(crate) data: Vec<T>,
}

impl<T, const W: usize, const H: usize> View for Array2D<T, W, H> {
    type V = Seq<T>;

    closed spec fn view(&self) -> Seq<T> {
        self.data@
    }
}

impl<T, const W: usize, const H: usize> Array2D<T, W, H> {
    /// Every grid holds exactly `W * H` cells, from construction on.
    #[verifier::type_invariant]
    pub open spec fn wf(&self) -> bool {
        self@.len() == W * H
    }

    /// Wraps `data` as the cells of a grid, row by row, if it holds exactly
    /// `W * H` of them.
    pub fn from_raw(data: Vec<T>) -> (made: Result<Self, LengthMismatch>)
        ensures
            match made {
                Ok(grid) => data@.len() == W * H && grid@ == data@,
                Err(error) => data@.len() != W * H && error == (LengthMismatch {
                    width: W,
                    height: H,
                    len: data.len(),
                }),
            },
    {
        let len = data.len();
        match W.checked_mul(H) {
            Some(expected) if expected == len => Ok(Array2D { data }),
            _ => Err(LengthMismatch { width: W, height: H, len }),
        }
    }

    /// A grid in which every cell holds `value`.
    pub fn new(value: T) -> (grid: Self) where T: Copy
        requires
            W * H <= usize::MAX,
        ensures
            grid@ == filled(W as nat, H as nat, value),
    {
        let len: usize = W * H;
        let mut data: Vec<T> = Vec::with_capacity(len);
        while data.len() < len
            invariant
                data@.len() <= len,
                data@ == Seq::new(data@.len(), |i: int| value),
            decreases len - data@.len(),
        {
            data.push(value);
        }
        Array2D { data }
    }

    /// A grid in which every cell holds the default value of `T`.
    pub fn default() -> (grid: Self) where T: Default + Copy
        requires
            W * H <= usize::MAX,
        ensures
            exists|value: T| call_ensures(T::default, (), value) && grid@ == filled(
                W as nat,
                H as nat,
                value,
            ),
    {
        Self::new(T::default())
    }

    /// What [`Array2D::width`] returns, for ghost code.
    pub open spec fn spec_width(&self) -> usize {
        W
    }

    /// Number of columns.
    #[verifier::when_used_as_spec(spec_width)]
    pub fn width(&self) -> (width: usize)
        ensures
            width == W,
    {
        W
    }

    /// What [`Array2D::height`] returns, for ghost code.
    pub open spec fn spec_height(&self) -> usize {
        H
    }

    /// Number of rows.
    #[verifier::when_used_as_spec(spec_height)]
    pub fn height(&self) -> (height: usize)
        ensures
            height == H,
    {
        H
    }

    /// What [`Array2D::len`] returns, for ghost code.
    pub open spec fn spec_len(&self) -> usize {
        self@.len() as usize
    }

    /// Number of cells.
    #[verifier::when_used_as_spec(spec_len)]
    pub fn len(&self) -> (len: usize)
        ensures
            len == W * H,
            len == self@.len(),
    {
        proof {
            use_type_invariant(self);
        }
        self.data.len()
    }

    /// The cell at column `x` of row `y`, if the grid has one.
    pub fn get(&self, x: usize, y: usize) -> (cell: Option<&T>)
        ensures
            match cell {
                Some(value) => cell_at(self@, W as nat, H as nat, x as int, y as int) == Some(*value),
                None => cell_at(self@, W as nat, H as nat, x as int, y as int) is None,
            },
    {
        if x < W && y < H {
            let at = self.offset_of(x, y);
            Some(&self.data[at])
        } else {
            None
        }
    }

    /// Exclusive access to the cell at column `x` of row `y`, if the grid has
    /// one. What the caller leaves in the cell is what the grid then holds
    /// there; no other cell changes.
    pub fn get_mut(&mut self, x: usize, y: usize) -> (cell: Option<&mut T>)
        ensures
            match cell {
                Some(value) => {
                    &&& cell_at(old(self)@, W as nat, H as nat, x as int, y as int) == Some(*value)
                    &&& final(self)@ == set_cell(
                        old(self)@,
                        W as nat,
                        H as nat,
                        x as int,
                        y as int,
                        *final(value),
                    )
                },
                None => {
                    &&& cell_at(old(self)@, W as nat, H as nat, x as int, y as int) is None
                    &&& final(self)@ == old(self)@
                },
            },
    {
        if x < W && y < H {
            let at = self.offset_of(x, y);
            Some(&mut self.data[at])
        } else {
            None
        }
    }

    /// Writes `value` to the cell at column `x` of row `y` and reports whether
    /// the grid has such a cell. When it has none, nothing is written.
    pub fn set(&mut self, x: usize, y: usize, value: T) -> (written: bool)
        ensures
            written == in_bounds(W as nat, H as nat, x as int, y as int),
            final(self)@ == set_cell(old(self)@, W as nat, H as nat, x as int, y as int, value),
    {
        if x < W && y < H {
            let at = self.offset_of(x, y);
            self.data[at] = value;
            return true;
        }
        false
    }

    /// Writes `value` to the cell at column `x` of row `y`, which the caller
    /// knows to exist.
    pub fn set_unchecked(&mut self, x: usize, y: usize, value: T)
        requires
            x < W,
            y < H,
        ensures
            final(self)@ == old(self)@.update(offset(W as nat, x as int, y as int), value),
    {
        let at = self.offset_of(x, y);
        self.data[at] = value;
    }

    /// The cell at column `x` of row `y`, which the caller knows to exist.
    pub fn get_unchecked(&self, x: usize, y: usize) -> (cell: &T)
        requires
            x < W,
            y < H,
        ensures
            *cell == self@[offset(W as nat, x as int, y as int)],
    {
        let at = self.offset_of(x, y);
        &self.data[at]
    }

    /// Exclusive access to the cell at column `x` of row `y`, which the caller
    /// knows to exist.
    pub fn get_unchecked_mut(&mut self, x: usize, y: usize) -> (cell: &mut T)
        requires
            x < W,
            y < H,
        ensures
            *cell == old(self)@[offset(W as nat, x as int, y as int)],
            final(self)@ == old(self)@.update(offset(W as nat, x as int, y as int), *final(cell)),
    {
        let at = self.offset_of(x, y);
        &mut self.data[at]
    }

    /// All cells, row by row.
    pub fn get_raw(&self) -> (cells: &[T])
        ensures
            cells@ == self@,
    {
        self.data.as_slice()
    }

    /// The view of a grid is its buffer.
    pub(crate) proof fn lemma_view_is_buffer()
        ensures
            forall|grid: Self| #[trigger] grid@ == grid.data@,
    {
    }

    /// Flat offset of an in-bounds cell.
    pub(crate) fn offset_of(&self, x: usize, y: usize) -> (at: usize)
        requires
            x < W,
            y < H,
        ensures
            at == offset(W as nat, x as int, y as int),
            at < self@.len(),
            self.wf(),
    {
        proof {
            use_type_invariant(self);
            lemma_offset_in_range(W as nat, H as nat, x as int, y as int);
        }
        assert(self.data.len() == W * H);
        y * W + x
    }
}

} // verus!
