use kompost::composite::{transpose, transpose_slice};
use kompost::compounds::{transpose as transpose_flat, transpose2};
use kompost::{collect, Cursor, Lazy, Transpose};

fn columns_of(t: Transpose<Cursor<i32>>) -> Vec<Vec<i32>> {
    collect(t).into_iter().map(collect).collect()
}

fn cursors(rows: Vec<Vec<i32>>) -> Vec<Cursor<i32>> {
    rows.into_iter().map(Cursor::new).collect()
}

#[test]
fn transpose_flat_of_chunks() {
    let a = [1, 2, 3, 4];
    let rows: Vec<&[i32]> = a.chunks(2).collect();
    assert_eq!(collect(transpose_flat(rows)), vec![1, 3, 2, 4]);
}

#[test]
fn transpose_slice_of_chunks() {
    let a = [1, 2, 3, 4, 5, 6];
    let rows: Vec<&[i32]> = a.chunks(3).collect();
    assert_eq!(collect(transpose_slice(rows)), vec![1, 4, 2, 5, 3, 6]);
}

#[test]
fn transpose_flat_of_ragged_rows() {
    let a = [1, 2, 3];
    let rows: Vec<&[i32]> = a.chunks(2).collect();
    assert_eq!(collect(transpose_flat(rows)), vec![1, 3, 2]);
}

#[test]
fn transpose_flat_of_no_rows() {
    let rows: Vec<&[i32]> = Vec::new();
    assert!(collect(transpose_flat(rows)).is_empty());
}

#[test]
fn transpose_flat_skips_empty_rows() {
    let a = [1, 2];
    let e: [i32; 0] = [];
    let rows: Vec<&[i32]> = vec![&e, &a, &e];
    assert_eq!(collect(transpose_flat(rows)), vec![1, 2]);
}

#[test]
fn transpose2_of_rectangle() {
    let t = transpose2(cursors(vec![vec![1, 2, 3], vec![4, 5, 6]]));
    assert_eq!(columns_of(t), vec![vec![1, 4], vec![2, 5], vec![3, 6]]);
}

#[test]
fn transpose_round_trip() {
    let grid = vec![vec![1, 2, 3], vec![4, 5, 6]];
    let once: Vec<Cursor<i32>> = collect(transpose2(cursors(grid.clone())));
    let twice = columns_of(transpose2(once));
    assert_eq!(twice, grid);
}

#[test]
fn transpose_ragged_rows_drop_out() {
    let t = transpose2(cursors(vec![vec![1, 2], vec![3]]));
    assert_eq!(columns_of(t), vec![vec![1, 3], vec![2]]);
}

#[test]
fn transpose_ragged_short_row_first() {
    let t = transpose(cursors(vec![vec![1], vec![2, 3, 4], vec![5, 6]]));
    assert_eq!(columns_of(t), vec![vec![1, 2, 5], vec![3, 6], vec![4]]);
}

#[test]
fn transpose_of_no_rows_is_empty() {
    let mut t = transpose2(cursors(Vec::new()));
    assert!(t.next().is_none());
    assert!(t.next().is_none());
}

#[test]
fn transpose_of_empty_rows_is_empty() {
    let t = transpose2(cursors(vec![vec![], vec![]]));
    assert!(columns_of(t).is_empty());
}

#[test]
fn transpose_columns_are_lazy_sequences() {
    let mut t = transpose(cursors(vec![vec![1, 2], vec![3, 4]]));
    let mut c = t.next().unwrap();
    assert_eq!(c.next(), Some(1));
    assert_eq!(c.next(), Some(3));
    assert_eq!(c.next(), None);
}

#[test]
fn transpose_slice_flat_round_trip() {
    let g = [1, 2, 3, 4, 5, 6];
    let h: Vec<i32> = collect(transpose_slice(g.chunks(3).collect()));
    assert_eq!(h, vec![1, 4, 2, 5, 3, 6]);
    let back: Vec<i32> = collect(transpose_slice(h.chunks(2).collect()));
    assert_eq!(back, g.to_vec());
}
