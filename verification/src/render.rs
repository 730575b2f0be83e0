//! A grid as text: one line per row, every cell right-aligned in a column as
//! wide as the longest cell of the whole grid.

use crate::grid::Array2D;
use crate::layout::{lemma_row_in_range, row_at};
use vstd::prelude::*;
use vstd::string::*;

verus! {

/// Width of the column that holds `texts`: the length of the longest of them,
/// in characters, and `0` where there is none.
pub open spec fn column_width(texts: Seq<Seq<char>>) -> nat
    decreases texts.len(),
{
    if texts.len() == 0 {
        0
    } else {
        let before = column_width(texts.drop_last());
        if texts.last().len() > before {
            texts.last().len()
        } else {
            before
        }
    }
}

/// `count` spaces.
pub open spec fn spaces(count: nat) -> Seq<char> {
    Seq::new(count, |i: int| ' ')
}

/// `text` moved to the right edge of a column `column` characters wide.
pub open spec fn padded(text: Seq<char>, column: nat) -> Seq<char> {
    if text.len() < column {
        spaces((column - text.len()) as nat) + text
    } else {
        text
    }
}

/// The first `count` cells of `row`, each padded to `column`, with one space
/// between neighbours.
pub open spec fn cells_text(row: Seq<Seq<char>>, column: nat, count: nat) -> Seq<char>
    decreases count,
{
    if count == 0 {
        Seq::empty()
    } else if count == 1 {
        padded(row[0], column)
    } else {
        cells_text(row, column, (count - 1) as nat) + seq![' '] + padded(row[count - 1], column)
    }
}

/// One line of the text: the cells of `row`, then a newline.
pub open spec fn line_text(row: Seq<Seq<char>>, column: nat) -> Seq<char> {
    cells_text(row, column, row.len()) + seq!['\n']
}

/// The lines of the rows `0..count` of a grid `width` cells wide, in order.
pub open spec fn lines_text(texts: Seq<Seq<char>>, width: nat, column: nat, count: nat) -> Seq<
    char,
>
    decreases count,
{
    if count == 0 {
        Seq::empty()
    } else {
        lines_text(texts, width, column, (count - 1) as nat) + line_text(
            row_at(texts, width, count - 1),
            column,
        )
    }
}

/// The text of a `width` by `height` grid whose cells, row by row, read
/// `texts`.
pub open spec fn grid_text(texts: Seq<Seq<char>>, width: nat, height: nat) -> Seq<char> {
    lines_text(texts, width, column_width(texts), height)
}

/// No text is longer than the column is wide, and a column that holds any
/// text is exactly as wide as one of them.
pub proof fn lemma_column_width_is_longest(texts: Seq<Seq<char>>)
    ensures
        forall|i: int| 0 <= i < texts.len() ==> (#[trigger] texts[i]).len() <= column_width(texts),
        texts.len() == 0 ==> column_width(texts) == 0,
        texts.len() > 0 ==> exists|i: int|
            0 <= i < texts.len() && (#[trigger] texts[i]).len() == column_width(texts),
    decreases texts.len(),
{
    if texts.len() > 0 {
        let front = texts.drop_last();
        lemma_column_width_is_longest(front);
        assert forall|i: int| 0 <= i < texts.len() implies (#[trigger] texts[i]).len()
            <= column_width(texts) by {
            if i < front.len() {
                assert(front[i] == texts[i]);
            }
        }
        if texts.last().len() >= column_width(front) {
            assert(texts[texts.len() - 1].len() == column_width(texts));
        } else {
            let i = choose|i: int|
                0 <= i < front.len() && (#[trigger] front[i]).len() == column_width(front);
            assert(texts[i] == front[i]);
        }
    }
}

/// A text that fits its column fills it exactly: spaces come first, then the
/// text, which ends where the column ends.
pub proof fn lemma_padded_is_right_aligned(text: Seq<char>, column: nat)
    requires
        text.len() <= column,
    ensures
        padded(text, column).len() == column,
        padded(text, column) == spaces((column - text.len()) as nat) + text,
{
    if text.len() == column {
        assert(spaces(0) + text =~= text);
    }
}

/// The first `count` cells of a row whose texts all fit the column take
/// `column` characters each and one space between neighbours.
proof fn lemma_cells_text_len(row: Seq<Seq<char>>, column: nat, count: nat)
    requires
        count <= row.len(),
        forall|x: int| 0 <= x < row.len() ==> (#[trigger] row[x]).len() <= column,
    ensures
        cells_text(row, column, count).len() == if count == 0 {
            0
        } else {
            count * column + count - 1
        },
    decreases count,
{
    if count > 0 {
        let before = (count - 1) as nat;
        lemma_padded_is_right_aligned(row[count - 1], column);
        lemma_cells_text_len(row, column, before);
        assert(count * column == before * column + column) by (nonlinear_arith)
            requires
                count == before + 1,
        ;
    }
}

/// All lines of a grid's text are equally long: every cell takes as many
/// characters as the longest text of the grid, neighbours are one space apart,
/// and a newline ends the line.
pub proof fn lemma_lines_are_equally_long(texts: Seq<Seq<char>>, width: nat, height: nat, y: int)
    requires
        texts.len() == width * height,
        0 <= y < height,
    ensures
        line_text(row_at(texts, width, y), column_width(texts)).len() == if width == 0 {
            1
        } else {
            width * column_width(texts) + width
        },
{
    let row = row_at(texts, width, y);
    lemma_row_in_range(width, height, y);
    lemma_column_width_is_longest(texts);
    assert forall|x: int| 0 <= x < row.len() implies (#[trigger] row[x]).len() <= column_width(
        texts,
    ) by {
        assert(row[x] == texts[y * width + x]);
    }
    lemma_cells_text_len(row, column_width(texts), width);
}

/// `format!("{:?}", value)`: the text that the `Debug` impl of `T` writes for
/// `value`. Nothing is claimed of that text.
#[verifier::external_body]
fn debug_text<T: core::fmt::Debug>(value: &T) -> (text: String) {
    format!("{:?}", value)
}

/// Length of the longest of `texts`, in characters.
fn longest(texts: &[String]) -> (column: usize)
    ensures
        column == column_width(texts.deep_view()),
{
    let ghost all = texts.deep_view();
    let mut column: usize = 0;
    let mut i: usize = 0;
    while i < texts.len()
        invariant
            i <= texts.len(),
            all == texts.deep_view(),
            column == column_width(all.take(i as int)),
        decreases texts.len() - i,
    {
        let len = texts[i].as_str().unicode_len();
        proof {
            assert(all.take(i + 1).drop_last() == all.take(i as int));
            assert(all.take(i + 1).last() == texts[i as int]@);
        }
        if len > column {
            column = len;
        }
        i += 1;
    }
    proof {
        assert(all.take(texts.len() as int) == all);
    }
    column
}

/// Appends `text` to `out`, moved to the right edge of a column `column`
/// characters wide.
fn push_padded(out: &mut String, text: &str, column: usize)
    ensures
        final(out)@ == old(out)@ + padded(text@, column as nat),
{
    let ghost before = out@;
    let len = text.unicode_len();
    let gap: usize = if len < column {
        column - len
    } else {
        0
    };
    let mut i: usize = 0;
    while i < gap
        invariant
            i <= gap,
            out@ == before + spaces(i as nat),
        decreases gap - i,
    {
        proof {
            reveal_strlit(" ");
            assert(spaces(i as nat) + " "@ == spaces((i + 1) as nat));
        }
        out.append(" ");
        i += 1;
    }
    out.append(text);
    proof {
        if len < column {
            assert(out@ == before + (spaces(gap as nat) + text@));
        } else {
            assert(spaces(0) + text@ == text@);
        }
    }
}

/// Lays out the texts of the cells of a `width` by `height` grid, given row by
/// row: one line per row, the cells of a row separated by single spaces, every
/// cell right-aligned to the length of the longest text of the whole grid.
pub fn render_cells(texts: &[String], width: usize, height: usize) -> (text: String)
    requires
        texts@.len() == width * height,
    ensures
        text@ == grid_text(texts.deep_view(), width as nat, height as nat),
{
    let ghost all = texts.deep_view();
    let column = longest(texts);
    let mut out = String::new();
    let mut y: usize = 0;
    while y < height
        invariant
            y <= height,
            texts@.len() == width * height,
            all == texts.deep_view(),
            out@ == lines_text(all, width as nat, column as nat, y as nat),
        decreases height - y,
    {
        proof {
            lemma_row_in_range(width as nat, height as nat, y as int);
        }
        assert(texts.len() == width * height);
        let start = y * width;
        let ghost above = out@;
        let ghost row = row_at(all, width as nat, y as int);
        let mut x: usize = 0;
        while x < width
            invariant
                x <= width,
                start + width <= texts.len(),
                all == texts.deep_view(),
                row == all.subrange(start as int, start + width),
                out@ == above + cells_text(row, column as nat, x as nat),
            decreases width - x,
        {
            let ghost so_far = cells_text(row, column as nat, x as nat);
            if x > 0 {
                proof {
                    reveal_strlit(" ");
                }
                out.append(" ");
            }
            push_padded(&mut out, texts[start + x].as_str(), column);
            proof {
                assert(row[x as int] == texts[start + x]@);
                let cell = padded(row[x as int], column as nat);
                if x > 0 {
                    assert(out@ == above + (so_far + seq![' '] + cell));
                } else {
                    assert(out@ == above + cell);
                }
            }
            x += 1;
        }
        proof {
            reveal_strlit("\n");
        }
        out.append("\n");
        proof {
            assert(out@ == above + line_text(row, column as nat));
        }
        y += 1;
    }
    out
}

impl<T: core::fmt::Debug, const W: usize, const H: usize> Array2D<T, W, H> {
    /// The grid as text, every cell in its `Debug` form: one line per row, the
    /// cells of a row separated by single spaces and right-aligned to the
    /// longest cell of the grid.
    ///
    /// What a cell reads is up to the `Debug` impl of `T`; the arrangement of
    /// those texts is that of [`render_cells`].
    pub fn render(&self) -> (text: String)
        ensures
            exists|texts: Seq<Seq<char>>|
                texts.len() == W * H && text@ == grid_text(texts, W as nat, H as nat),
    {
        let cells = self.get_raw();
        let mut texts: Vec<String> = Vec::with_capacity(cells.len());
        let mut i: usize = 0;
        while i < cells.len()
            invariant
                i <= cells.len(),
                texts@.len() == i,
            decreases cells.len() - i,
        {
            texts.push(debug_text(&cells[i]));
            i += 1;
        }
        proof {
            use_type_invariant(self);
        }
        let text = render_cells(texts.as_slice(), W, H);
        assert(texts.deep_view().len() == W * H && text@ == grid_text(
            texts.deep_view(),
            W as nat,
            H as nat,
        ));
        text
    }
}

} // verus!
