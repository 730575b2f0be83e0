use array2d::render::render_cells;
use array2d::Array2D;

fn texts(cells: &[&str]) -> Vec<String> {
    cells.iter().map(|cell| cell.to_string()).collect()
}

#[test]
fn renders_two_by_two() {
    let grid = Array2D::<i32, 2, 2>::from_raw(vec![1, 2, 3, 4]).unwrap();
    let text = grid.render();
    assert_eq!(text, "1 2\n3 4\n");
    let lines: Vec<&str> = text.lines().collect();
    assert_eq!(lines, vec!["1 2", "3 4"]);
}

#[test]
fn aligns_to_the_longest_cell_of_the_grid() {
    let grid = Array2D::<i32, 2, 2>::from_raw(vec![1, 20, 300, 4]).unwrap();
    assert_eq!(grid.render(), "  1  20\n300   4\n");
}

#[test]
fn negative_numbers_count_their_sign() {
    let grid = Array2D::<i32, 3, 1>::from_raw(vec![-5, 0, 12]).unwrap();
    assert_eq!(grid.render(), "-5  0 12\n");
}

#[test]
fn cells_are_rendered_in_debug_form() {
    let grid = Array2D::<&str, 2, 1>::from_raw(vec!["a", "bcd"]).unwrap();
    assert_eq!(grid.render(), "  \"a\" \"bcd\"\n");
    let grid = Array2D::<Option<u8>, 1, 2>::from_raw(vec![None, Some(1)]).unwrap();
    assert_eq!(grid.render(), "   None\nSome(1)\n");
}

#[test]
fn every_line_is_equally_wide() {
    let grid = Array2D::<i32, 3, 3>::from_raw(vec![1, 22, 333, 4444, 5, 66, 777, 8, 99999]).unwrap();
    let text = grid.render();
    assert_eq!(text, "    1    22   333\n 4444     5    66\n  777     8 99999\n");
    assert!(text.lines().all(|line| line.len() == 17));
    assert_eq!(text.lines().count(), 3);
}

#[test]
fn a_grid_without_columns_renders_empty_lines() {
    let grid = Array2D::<i32, 0, 2>::new(0);
    assert_eq!(grid.render(), "\n\n");
}

#[test]
fn a_grid_without_rows_renders_nothing() {
    let grid = Array2D::<i32, 2, 0>::new(0);
    assert_eq!(grid.render(), "");
}

#[test]
fn a_single_cell_renders_on_one_line() {
    let grid = Array2D::<u8, 1, 1>::new(7);
    assert_eq!(grid.render(), "7\n");
}

#[test]
fn rendering_leaves_the_grid_alone() {
    let grid = Array2D::<i32, 2, 2>::from_raw(vec![1, 2, 3, 4]).unwrap();
    assert_eq!(grid.render(), grid.render());
    assert_eq!(grid.get_raw(), &[1, 2, 3, 4]);
}

#[test]
fn render_cells_lays_out_given_texts() {
    assert_eq!(render_cells(&texts(&["1", "2", "3", "4"]), 2, 2), "1 2\n3 4\n");
    assert_eq!(render_cells(&texts(&["1", "2", "3", "4"]), 4, 1), "1 2 3 4\n");
    assert_eq!(render_cells(&texts(&["1", "2", "3", "4"]), 1, 4), "1\n2\n3\n4\n");
    assert_eq!(render_cells(&texts(&["a", "bbb", "cc", ""]), 2, 2), "  a bbb\n cc    \n");
}

#[test]
fn render_cells_measures_in_characters() {
    assert_eq!(render_cells(&texts(&["é", "ab"]), 2, 1), " é ab\n");
    assert_eq!(render_cells(&texts(&["日本", "x"]), 1, 2), "日本\n x\n");
}

#[test]
fn render_cells_of_empty_texts() {
    assert_eq!(render_cells(&texts(&["", ""]), 2, 1), " \n");
    assert_eq!(render_cells(&Vec::new(), 0, 3), "\n\n\n");
    assert_eq!(render_cells(&Vec::new(), 3, 0), "");
}
