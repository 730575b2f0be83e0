use array2d::Array2D;

#[test]
fn test_create_array2d() {
    let mut array = Array2D::<i32, 3, 3>::new(0);
    for i in 0..9 {
        array[i / 3][i % 3] = i as i32;
    }

    for i in 0..9 {
        assert_eq!(array[i / 3][i % 3], i as i32);
        assert_eq!(array.get(i % 3, i / 3), Some(&(i as i32)));
        assert_eq!(array.get_mut(i % 3, i / 3), Some(&mut (i as i32)));
    }
}

#[test]
fn test_create_array2d_with_new() {
    let array = Array2D::<i32, 3, 3>::from_raw(vec![0, 1, 2, 3, 4, 5, 6, 7, 8]).unwrap();

    for i in 0..9 {
        assert_eq!(array[i / 3][i % 3], i as i32);
        assert_eq!(array.get(i % 3, i / 3), Some(&(i as i32)));
    }
}

#[test]
fn test_create_array2d_with_default() {
    let mut array = Array2D::<f64, 20, 10>::new(0f64);

    for i in 0..9 {
        assert_eq!(array[i / 3][i % 3], 0.0);
        assert_eq!(array.get(i % 3, i / 3), Some(&0.0));
        assert_eq!(array.get_mut(i % 3, i / 3), Some(&mut 0.0));
        assert_eq!(array.get_unchecked(i % 3, i / 3), &0.0);
    }
}

#[test]
fn test_iter() {
    let array = Array2D::<i32, 3, 3>::from_raw(vec![0, 1, 2, 3, 4, 5, 6, 7, 8]).unwrap();

    for (i, value) in array.iter().enumerate() {
        assert_eq!(*value, i as i32);
    }
}

#[test]
fn grid_of_three_by_four() {
    let mut grid = Array2D::<u64, 3, 4>::new(1);
    assert!(grid.set(1, 1, 2));
    grid[2][2] = 3;

    assert_eq!(grid.get(1, 1), Some(&2));
    assert_eq!(grid[2][2], 3);
    assert_eq!(grid.get(0, 0), Some(&1));
    assert_eq!(grid.get(3, 0), None);
    assert_eq!(grid.get(2, 3), Some(&1));
    assert_eq!(grid.get(2, 4), None);
}
