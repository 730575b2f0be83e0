//! The row-major layout of a grid, stated over mathematical sequences.
//!
//! A grid that is `width` cells wide and `height` cells high keeps its cells in
//! one sequence of `width * height` elements. Cell `(x, y)` sits at offset
//! `y * width + x`, so row `y` is the block of `width` cells that starts at
//! offset `y * width`. Everything the grid type promises is phrased with the
//! functions of this module, and the lemmas below are the facts about them that
//! callers need most often.

use vstd::prelude::*;

verus! {

/// Whether `(x, y)` names a cell of a `width` by `height` grid.
pub open spec fn in_bounds(width: nat, height: nat, x: int, y: int) -> bool {
    0 <= x < width && 0 <= y < height
}

/// The place of cell `(x, y)` in the flat buffer of a grid `width` cells wide.
pub open spec fn offset(width: nat, x: int, y: int) -> int {
    y * width + x
}

/// What a bounds-checked read of `(x, y)` sees: the cell, or nothing when the
/// coordinate lies outside the grid.
pub open spec fn cell_at<T>(cells: Seq<T>, width: nat, height: nat, x: int, y: int) -> Option<T> {
    if in_bounds(width, height, x, y) {
        Some(cells[offset(width, x, y)])
    } else {
        None
    }
}

/// The buffer after a bounds-checked write of `value` to `(x, y)`: one cell is
/// replaced, or nothing changes when the coordinate lies outside the grid.
pub open spec fn set_cell<T>(
    cells: Seq<T>,
    width: nat,
    height: nat,
    x: int,
    y: int,
    value: T,
) -> Seq<T> {
    if in_bounds(width, height, x, y) {
        cells.update(offset(width, x, y), value)
    } else {
        cells
    }
}

/// Row `y` of the buffer: the `width` cells from offset `y * width` on.
pub open spec fn row_at<T>(cells: Seq<T>, width: nat, y: int) -> Seq<T> {
    cells.subrange(y * width, y * width + width)
}

/// The buffer with row `y` replaced by `row`.
pub open spec fn set_row<T>(cells: Seq<T>, width: nat, y: int, row: Seq<T>) -> Seq<T> {
    cells.subrange(0, y * width) + row + cells.subrange(y * width + width, cells.len() as int)
}

/// A buffer in which every cell of a `width` by `height` grid holds `value`.
pub open spec fn filled<T>(width: nat, height: nat, value: T) -> Seq<T> {
    Seq::new(width * height, |i: int| value)
}

/// The cells in the order in which
/// `for y in 0..rows { for x in 0..width { visit(x, y) } }` visits them.
pub open spec fn row_major_order<T>(cells: Seq<T>, width: nat, rows: nat) -> Seq<T>
    decreases rows,
{
    if rows == 0 {
        Seq::empty()
    } else {
        row_major_order(cells, width, (rows - 1) as nat) + Seq::new(
            width,
            |x: int| cells[offset(width, x, rows - 1)],
        )
    }
}

/// The offset of an in-bounds cell lies inside the buffer, at or after the
/// start of its row.
pub proof fn lemma_offset_in_range(width: nat, height: nat, x: int, y: int)
    requires
        in_bounds(width, height, x, y),
    ensures
        0 <= y * width <= offset(width, x, y) < width * height,
{
    lemma_row_in_range(width, height, y);
}

/// Row `y` of a grid with `height` rows lies inside the buffer.
pub proof fn lemma_row_in_range(width: nat, height: nat, y: int)
    requires
        0 <= y < height,
    ensures
        0 <= y * width,
        y * width + width <= width * height,
{
    assert(0 <= y * width && y * width + width <= width * height) by (nonlinear_arith)
        requires
            0 <= y < height,
            0 <= width,
    ;
}

/// Two cells of one grid share an offset only if they are the same cell.
pub proof fn lemma_offset_injective(width: nat, x1: int, y1: int, x2: int, y2: int)
    requires
        0 <= x1 < width,
        0 <= x2 < width,
        offset(width, x1, y1) == offset(width, x2, y2),
    ensures
        x1 == x2,
        y1 == y2,
{
    if y1 < y2 {
        assert(y1 * width + width <= y2 * width) by (nonlinear_arith)
            requires
                y1 < y2,
                0 <= width,
        ;
    } else if y2 < y1 {
        assert(y2 * width + width <= y1 * width) by (nonlinear_arith)
            requires
                y2 < y1,
                0 <= width,
        ;
    }
}

/// Every offset inside the buffer belongs to a cell of the grid: the one in
/// column `k % width` of row `k / width`.
pub proof fn lemma_offset_onto(width: nat, height: nat, k: int)
    requires
        0 <= k < width * height,
    ensures
        width > 0,
        in_bounds(width, height, k % (width as int), k / (width as int)),
        offset(width, k % (width as int), k / (width as int)) == k,
{
    let w = width as int;
    assert(w > 0) by (nonlinear_arith)
        requires
            0 <= k < w * height,
            0 <= w,
    ;
    vstd::arithmetic::div_mod::lemma_fundamental_div_mod(k, w);
    vstd::arithmetic::div_mod::lemma_mod_bound(k, w);
    let q = k / w;
    assert(w * q == q * w) by (nonlinear_arith);
    assert(0 <= q < height) by (nonlinear_arith)
        requires
            0 <= k < w * height,
            k == q * w + k % w,
            0 <= k % w < w,
    ;
}

} // verus!
