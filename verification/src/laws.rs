//! What holds of every grid, proved once over the layout.
//!
//! The grid's methods promise their results in terms of the functions of
//! [`crate::layout`]. The lemmas here say what those promises add up to when
//! calls are combined: a write is seen by the next read, other cells keep their
//! contents, rows and the flat order agree with the cells they are made of.
//! In each of them `cells` is the view of a grid of the stated width and height.

use crate::layout::{
    cell_at, filled, in_bounds, lemma_offset_in_range, lemma_offset_injective, lemma_offset_onto,
    lemma_row_in_range, offset, row_at, row_major_order, set_cell, set_row,
};
use vstd::prelude::*;

verus! {

/// After a write to a cell of the grid, a checked read of that cell returns
/// the value written, and so does an unchecked read. The grid keeps its size.
pub proof fn lemma_set_then_get<T>(
    cells: Seq<T>,
    width: nat,
    height: nat,
    x: int,
    y: int,
    value: T,
)
    requires
        cells.len() == width * height,
        in_bounds(width, height, x, y),
    ensures
        set_cell(cells, width, height, x, y, value).len() == cells.len(),
        cell_at(set_cell(cells, width, height, x, y, value), width, height, x, y) == Some(value),
        set_cell(cells, width, height, x, y, value)[offset(width, x, y)] == value,
{
    lemma_offset_in_range(width, height, x, y);
}

/// A write to one coordinate leaves every other cell of the grid as it was.
pub proof fn lemma_set_keeps_other_cells<T>(
    cells: Seq<T>,
    width: nat,
    height: nat,
    x: int,
    y: int,
    value: T,
    other_x: int,
    other_y: int,
)
    requires
        cells.len() == width * height,
        in_bounds(width, height, other_x, other_y),
        other_x != x || other_y != y,
    ensures
        cell_at(set_cell(cells, width, height, x, y, value), width, height, other_x, other_y)
            == cell_at(cells, width, height, other_x, other_y),
{
    lemma_offset_in_range(width, height, other_x, other_y);
    if in_bounds(width, height, x, y) {
        lemma_offset_in_range(width, height, x, y);
        if offset(width, x, y) == offset(width, other_x, other_y) {
            lemma_offset_injective(width, x, y, other_x, other_y);
        }
    }
}

/// Outside the grid a checked read finds nothing and a checked write changes
/// nothing.
pub proof fn lemma_out_of_bounds_is_inert<T>(
    cells: Seq<T>,
    width: nat,
    height: nat,
    x: int,
    y: int,
    value: T,
)
    requires
        !in_bounds(width, height, x, y),
    ensures
        cell_at(cells, width, height, x, y) is None,
        set_cell(cells, width, height, x, y, value) == cells,
{
}

/// Cell `(x, y)` of a grid is element `y * width + x` of its buffer, and that
/// element exists.
pub proof fn lemma_cells_are_row_major<T>(cells: Seq<T>, width: nat, height: nat, x: int, y: int)
    requires
        cells.len() == width * height,
        in_bounds(width, height, x, y),
    ensures
        0 <= y * width + x < cells.len(),
        cell_at(cells, width, height, x, y) == Some(cells[y * width + x]),
{
    lemma_offset_in_range(width, height, x, y);
}

/// Every element of the buffer is a cell of the grid, and of one cell only:
/// element `k` is the cell in column `k % width` of row `k / width`.
pub proof fn lemma_every_element_is_one_cell<T>(cells: Seq<T>, width: nat, height: nat, k: int)
    requires
        cells.len() == width * height,
        0 <= k < cells.len(),
    ensures
        width > 0,
        cell_at(cells, width, height, k % (width as int), k / (width as int)) == Some(cells[k]),
        forall|x: int, y: int|
            in_bounds(width, height, x, y) && #[trigger] offset(width, x, y) == k ==> {
                &&& x == k % (width as int)
                &&& y == k / (width as int)
            },
{
    lemma_offset_onto(width, height, k);
    let column = k % (width as int);
    let row = k / (width as int);
    assert forall|x: int, y: int|
        in_bounds(width, height, x, y) && #[trigger] offset(width, x, y) == k implies x == column
        && y == row by {
        lemma_offset_injective(width, x, y, column, row);
    }
}

/// A row of the grid holds exactly `width` cells, and its cell `x` is cell
/// `(x, y)` of the grid.
pub proof fn lemma_row_matches_cells<T>(cells: Seq<T>, width: nat, height: nat, y: int)
    requires
        cells.len() == width * height,
        0 <= y < height,
    ensures
        row_at(cells, width, y).len() == width,
        forall|x: int|
            0 <= x < width ==> cell_at(cells, width, height, x, y) == Some(
                #[trigger] row_at(cells, width, y)[x],
            ),
{
    lemma_row_in_range(width, height, y);
}

/// After a row is replaced, that row reads as the replacement, every other row
/// reads as before, and the grid keeps its size.
pub proof fn lemma_set_row_then_rows<T>(
    cells: Seq<T>,
    width: nat,
    height: nat,
    y: int,
    row: Seq<T>,
    other_y: int,
)
    requires
        cells.len() == width * height,
        0 <= y < height,
        0 <= other_y < height,
        row.len() == width,
    ensures
        set_row(cells, width, y, row).len() == cells.len(),
        row_at(set_row(cells, width, y, row), width, y) == row,
        other_y != y ==> row_at(set_row(cells, width, y, row), width, other_y) == row_at(
            cells,
            width,
            other_y,
        ),
{
    lemma_row_in_range(width, height, y);
    lemma_row_in_range(width, height, other_y);
    if other_y < y {
        assert(other_y * width + width <= y * width) by (nonlinear_arith)
            requires
                other_y < y,
        ;
    } else if y < other_y {
        assert(y * width + width <= other_y * width) by (nonlinear_arith)
            requires
                y < other_y,
        ;
    }
}

/// The first `rows` rows of the grid, visited row by row and from left to
/// right within a row, are the first `rows * width` elements of the buffer.
proof fn lemma_row_major_prefix<T>(cells: Seq<T>, width: nat, height: nat, rows: nat)
    requires
        cells.len() == width * height,
        rows <= height,
    ensures
        0 <= rows * width <= cells.len(),
        row_major_order(cells, width, rows) == cells.subrange(0, (rows * width) as int),
    decreases rows,
{
    if rows > 0 {
        let before = (rows - 1) as nat;
        lemma_row_major_prefix(cells, width, height, before);
        lemma_row_in_range(width, height, rows - 1);
        assert(rows * width == before * width + width) by (nonlinear_arith)
            requires
                rows == before + 1,
        ;
    }
}

/// The buffer holds the cells in the order in which a walk over the rows from
/// first to last, and from left to right within each row, meets them. This is
/// the order in which the grid's iterator yields them.
pub proof fn lemma_buffer_is_row_major_order<T>(cells: Seq<T>, width: nat, height: nat)
    requires
        cells.len() == width * height,
    ensures
        row_major_order(cells, width, height) == cells,
{
    lemma_row_major_prefix(cells, width, height, height);
    assert(height * width == width * height) by (nonlinear_arith);
}

/// A grid filled with one value has `width * height` cells, and each of them,
/// wherever it is read and in whatever order, holds that value.
pub proof fn lemma_filled_holds_value<T>(width: nat, height: nat, value: T)
    ensures
        filled(width, height, value).len() == width * height,
        forall|i: int| 0 <= i < width * height ==> #[trigger] filled(width, height, value)[i] == value,
        forall|x: int, y: int|
            in_bounds(width, height, x, y) ==> #[trigger] cell_at(
                filled(width, height, value),
                width,
                height,
                x,
                y,
            ) == Some(value),
        row_major_order(filled(width, height, value), width, height) == filled(width, height, value),
{
    let cells = filled(width, height, value);
    assert forall|x: int, y: int| in_bounds(width, height, x, y) implies #[trigger] cell_at(
        cells,
        width,
        height,
        x,
        y,
    ) == Some(value) by {
        lemma_offset_in_range(width, height, x, y);
    }
    lemma_buffer_is_row_major_order(cells, width, height);
}

} // verus!
