//! Fixed-size two-dimensional arrays kept in one contiguous buffer.
//!
//! [`Array2D`] is a dense grid whose width and height are part of its type.
//! Its cells live row by row in a single allocation, so a cell is found by
//! arithmetic on its coordinates and never by following a pointer per row.
//!
//! ```
//! use array2d::Array2D;
//!
//! let mut grid = Array2D::<u64, 3, 4>::new(1);
//! assert!(grid.set(1, 1, 2));
//! grid[2][2] = 3;
//!
//! assert_eq!(grid.get(1, 1), Some(&2));
//! assert_eq!(grid[2][2], 3);
//! assert_eq!(grid.get(0, 0), Some(&1));
//! assert_eq!(grid.get(3, 0), None);
//! ```
//!
//! Every operation carries a contract that Verus checks against its body. The
//! contracts speak of a grid through its view, the sequence of its cells row by
//! row, and through the functions of [`layout`]; [`laws`] collects what follows
//! from them for any grid.

pub mod error;
pub mod grid;
pub mod index;
pub mod iter;
pub mod laws;
pub mod layout;
pub mod render;
pub mod rows;

pub use error::LengthMismatch;
pub use grid::Array2D;
pub use render::render_cells;
