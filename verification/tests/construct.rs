use array2d::{Array2D, LengthMismatch};

#[test]
fn from_raw_keeps_the_cells_in_order() {
    let grid = Array2D::<u8, 4, 2>::from_raw(vec![10, 11, 12, 13, 20, 21, 22, 23]).unwrap();
    assert_eq!(grid.get_raw(), &[10, 11, 12, 13, 20, 21, 22, 23]);
    assert_eq!(grid.width(), 4);
    assert_eq!(grid.height(), 2);
    assert_eq!(grid.len(), 8);
}

#[test]
fn from_raw_rejects_a_short_buffer() {
    let made = Array2D::<u8, 4, 2>::from_raw(vec![1, 2, 3, 4, 5, 6, 7]);
    assert_eq!(made.err(), Some(LengthMismatch { width: 4, height: 2, len: 7 }));
}

#[test]
fn from_raw_rejects_a_long_buffer() {
    let made = Array2D::<u8, 4, 2>::from_raw(vec![1, 2, 3, 4, 5, 6, 7, 8, 9]);
    assert_eq!(made.err(), Some(LengthMismatch { width: 4, height: 2, len: 9 }));
}

#[test]
fn from_raw_rejects_an_empty_buffer_for_a_grid_with_cells() {
    let made = Array2D::<u8, 1, 1>::from_raw(Vec::new());
    assert_eq!(made.err(), Some(LengthMismatch { width: 1, height: 1, len: 0 }));
}

#[test]
fn from_raw_rejects_any_buffer_when_the_cell_count_overflows() {
    let made = Array2D::<(), { usize::MAX }, 2>::from_raw(vec![(), ()]);
    assert_eq!(made.err(), Some(LengthMismatch { width: usize::MAX, height: 2, len: 2 }));
}

#[test]
fn from_raw_accepts_the_empty_buffer_for_a_grid_without_cells() {
    let no_columns = Array2D::<u8, 0, 5>::from_raw(Vec::new()).unwrap();
    assert_eq!(no_columns.len(), 0);
    assert_eq!(no_columns.height(), 5);
    let no_rows = Array2D::<u8, 5, 0>::from_raw(Vec::new()).unwrap();
    assert_eq!(no_rows.len(), 0);
    assert_eq!(no_rows.width(), 5);
    assert!(Array2D::<u8, 0, 5>::from_raw(vec![1]).is_err());
}

#[test]
fn new_fills_every_cell() {
    let grid = Array2D::<u16, 5, 3>::new(42);
    assert_eq!(grid.len(), 15);
    assert_eq!(grid.get_raw(), &[42u16; 15]);
    assert_eq!(grid.iter().count(), 15);
    assert!(grid.iter().all(|&cell| cell == 42));
    for y in 0..3 {
        for x in 0..5 {
            assert_eq!(grid.get(x, y), Some(&42));
        }
    }
}

#[test]
fn new_is_from_raw_of_copies() {
    let filled = Array2D::<char, 2, 3>::new('z');
    let made = Array2D::<char, 2, 3>::from_raw(vec!['z'; 6]).unwrap();
    assert_eq!(filled.get_raw(), made.get_raw());
}

#[test]
fn new_of_a_grid_without_cells_is_empty() {
    let grid = Array2D::<u8, 0, 3>::new(1);
    assert_eq!(grid.len(), 0);
    assert_eq!(grid.get(0, 0), None);
    assert_eq!(grid.iter().count(), 0);
}

#[test]
fn default_fills_with_the_default_value() {
    let numbers = Array2D::<i64, 3, 4>::default();
    assert_eq!(numbers.get_raw(), &[0i64; 12]);
    let flags = Array2D::<bool, 2, 2>::default();
    assert_eq!(flags.get_raw(), &[false; 4]);
}

#[test]
fn dimensions_do_not_change() {
    let mut grid = Array2D::<i32, 3, 2>::new(0);
    assert!(grid.set(2, 1, 5));
    assert!(!grid.set(3, 1, 5));
    grid.iter_mut()[0] = 9;
    grid[1][1] = 4;
    assert_eq!((grid.width(), grid.height(), grid.len()), (3, 2, 6));
    assert_eq!(grid.get_raw().len(), 6);
}
