use kompost::compounds::{periodic_windows, window_2d, window_2d_sliced};
use kompost::composite::{circular_windows, circular_windows_2d, circular_windows_2d_slice};
use kompost::{collect, Lazy, Window, Windows, Windows2d};

fn windows_of(w: Windows<'_, i32>) -> Vec<Vec<i32>> {
    collect(w).into_iter().map(|x: Window<'_, i32>| collect(x).into_iter().copied().collect()).collect()
}

fn blocks_of(w: Windows2d<'_, i32>) -> Vec<Vec<Vec<Vec<i32>>>> {
    let mut out = Vec::new();
    for group in collect(w) {
        let mut cols = Vec::new();
        for col in collect(group) {
            let mut rows = Vec::new();
            for win in collect(col) {
                rows.push(collect(win).into_iter().copied().collect::<Vec<i32>>());
            }
            cols.push(rows);
        }
        out.push(cols);
    }
    out
}

#[test]
fn periodic_windows_example() {
    let a = [1, 2, 3, 4];
    assert_eq!(
        windows_of(periodic_windows(3, &a)),
        vec![vec![1, 2, 3], vec![2, 3, 4], vec![3, 4, 1], vec![4, 1, 2]]
    );
}

#[test]
fn periodic_windows_flattened() {
    let a = [1, 2, 3, 4];
    let flat: Vec<i32> = windows_of(periodic_windows(3, &a)).concat();
    assert_eq!(flat, vec![1, 2, 3, 2, 3, 4, 3, 4, 1, 4, 1, 2]);
}

#[test]
fn periodic_windows_larger_than_source_repeat() {
    let a = [1, 2];
    assert_eq!(
        windows_of(periodic_windows(5, &a)),
        vec![vec![1, 2, 1, 2, 1], vec![2, 1, 2, 1, 2]]
    );
}

#[test]
fn periodic_windows_of_size_zero_are_empty() {
    let a = [1, 2, 3];
    assert_eq!(windows_of(periodic_windows(0, &a)), vec![Vec::<i32>::new(); 3]);
}

#[test]
fn periodic_windows_of_empty_source() {
    let a: [i32; 0] = [];
    let mut w = periodic_windows(3, &a);
    assert!(w.next().is_none());
    assert!(w.next().is_none());
}

#[test]
fn periodic_windows_single_element() {
    let a = [7];
    assert_eq!(windows_of(periodic_windows(3, &a)), vec![vec![7, 7, 7]]);
}

#[test]
fn windows_are_independent() {
    let a = [1, 2, 3];
    let mut w = periodic_windows(2, &a);
    let mut first = w.next().unwrap();
    let mut second = w.next().unwrap();
    assert_eq!(second.next(), Some(&2));
    assert_eq!(first.next(), Some(&1));
    assert_eq!(first.next(), Some(&2));
    assert_eq!(second.next(), Some(&3));
    assert_eq!(second.next(), None);
}

#[test]
fn circular_windows_example() {
    let a = [1, 2, 3, 4];
    let flat: Vec<i32> = windows_of(circular_windows(3, &a)).concat();
    assert_eq!(flat, vec![1, 2, 3, 2, 3, 4, 3, 4, 1, 4, 1, 2]);
}

#[test]
fn circular_windows_larger_than_source_repeat() {
    let a = [1, 2];
    assert_eq!(
        windows_of(circular_windows(5, &a)),
        vec![vec![1, 2, 1, 2, 1], vec![2, 1, 2, 1, 2]]
    );
}

#[test]
fn circular_windows_single_element_hold_full_size() {
    let a = [9];
    assert_eq!(windows_of(circular_windows(3, &a)), vec![vec![9, 9, 9]]);
}

#[test]
fn circular_windows_of_empty_source() {
    let a: [i32; 0] = [];
    assert!(windows_of(circular_windows(2, &a)).is_empty());
}

#[test]
fn window_2d_of_three_by_three() {
    let grid = vec![vec![1, 2, 3], vec![4, 5, 6], vec![7, 8, 9]];
    let w = blocks_of(window_2d(&grid, 2, 2));
    assert_eq!(w.len(), 3);
    for group in &w {
        assert_eq!(group.len(), 3);
        for col in group {
            assert_eq!(col.len(), 2);
            for win in col {
                assert_eq!(win.len(), 2);
            }
        }
    }
    assert_eq!(w[0][0], vec![vec![1, 2], vec![4, 5]]);
    assert_eq!(w[0][2], vec![vec![3, 1], vec![6, 4]]);
    assert_eq!(w[2][2], vec![vec![9, 7], vec![3, 1]]);
    assert_eq!(w[1][1], vec![vec![5, 6], vec![8, 9]]);
}

#[test]
fn window_2d_sliced_matches_owned_rows() {
    let flat = [1, 2, 3, 4, 5, 6, 7, 8, 9];
    let rows: Vec<&[i32]> = flat.chunks(3).collect();
    let grid = vec![vec![1, 2, 3], vec![4, 5, 6], vec![7, 8, 9]];
    assert_eq!(blocks_of(window_2d_sliced(&rows, 2, 3)), blocks_of(window_2d(&grid, 2, 3)));
    let w = blocks_of(window_2d_sliced(&rows, 2, 3));
    assert_eq!(w[2][1], vec![vec![8, 9, 7], vec![2, 3, 1]]);
}

#[test]
fn window_2d_rectangular_grid_shape() {
    let grid = vec![vec![1, 2, 3, 4], vec![5, 6, 7, 8]];
    let w = blocks_of(window_2d(&grid, 3, 1));
    assert_eq!(w.len(), 2);
    assert_eq!(w[0].len(), 4);
    assert_eq!(w[1][3], vec![vec![8], vec![4], vec![8]]);
}

#[test]
fn window_2d_of_empty_grid() {
    let grid: Vec<Vec<i32>> = Vec::new();
    assert!(blocks_of(window_2d(&grid, 2, 2)).is_empty());
}

#[test]
fn window_2d_with_zero_height_has_no_column_windows() {
    let grid = vec![vec![1, 2], vec![3, 4]];
    let w = blocks_of(window_2d(&grid, 0, 2));
    assert_eq!(w, vec![Vec::<Vec<Vec<i32>>>::new(); 2]);
}

#[test]
fn window_2d_with_zero_width_has_empty_windows() {
    let grid = vec![vec![1, 2], vec![3, 4]];
    let w = blocks_of(window_2d(&grid, 1, 0));
    assert_eq!(w, vec![vec![vec![Vec::<i32>::new()]; 2]; 2]);
}

#[test]
fn circular_windows_2d_long_windows_repeat() {
    let grid = vec![vec![1, 2], vec![3, 4]];
    let w = blocks_of(circular_windows_2d(&grid, 1, 5));
    assert_eq!(w[0], vec![vec![vec![1, 2, 1, 2, 1]], vec![vec![2, 1, 2, 1, 2]]]);
    assert_eq!(w[1], vec![vec![vec![3, 4, 3, 4, 3]], vec![vec![4, 3, 4, 3, 4]]]);
}

#[test]
fn circular_windows_2d_tall_windows_repeat_rows() {
    let flat = [1, 2];
    let rows: Vec<&[i32]> = flat.chunks(2).collect();
    let w = blocks_of(circular_windows_2d_slice(&rows, 3, 5));
    assert_eq!(w.len(), 1);
    assert_eq!(w[0][0], vec![vec![1, 2, 1, 2, 1]; 3]);
    assert_eq!(w[0][1], vec![vec![2, 1, 2, 1, 2]; 3]);
}

#[test]
fn circular_windows_2d_slice_matches_owned_rows() {
    let flat = [1, 2, 3, 4, 5, 6];
    let rows: Vec<&[i32]> = flat.chunks(2).collect();
    let grid = vec![vec![1, 2], vec![3, 4], vec![5, 6]];
    let w = blocks_of(circular_windows_2d_slice(&rows, 2, 2));
    assert_eq!(w, blocks_of(circular_windows_2d(&grid, 2, 2)));
    assert_eq!(w[2][1], vec![vec![6, 5], vec![2, 1]]);
}
