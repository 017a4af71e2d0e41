//! Pipeline functions: transposition and periodic windows, in one and two
//! dimensions.
use vstd::prelude::*;
use crate::lazy::Lazy;
use crate::model::{grid_of, grid_of_vecs, periodic, transposed, views, windows_2d};
use crate::transpose::{row_rests, transpose_rows, Transpose, TransposeFlat};
use crate::windows::{windows, windows_2d_of_slices, windows_2d_of_vecs, Windows, Windows2d};

verus! {

/// The elements of borrowed rows (a grid stored row-major and cut into
/// chunks, say) read column by column: the first element of every row, in
/// row order, then the second of every row that has one, and so on.
pub fn transpose<'a, T: View + Copy>(iter: Vec<&'a [T]>) -> (r: TransposeFlat<'a, T>)
    ensures
        r.rest() == transposed(grid_of(iter@)).flatten(),
{
    TransposeFlat::new(iter)
}

/// The lazy transpose of rows that are lazy sequences themselves: one column
/// per position up to the longest row, holding the element at that position
/// of every row that reaches it, in row order. Rows that run out early drop
/// out without padding; the result ends once no row has an element left.
pub fn transpose2<R: Lazy>(iter: Vec<R>) -> (r: Transpose<R>)
    ensures
        r.rest() == transposed(row_rests(iter@)),
        r.context().rows() == iter@,
        r.pulls() == 0,
{
    transpose_rows(iter)
}

/// The periodic windows of `it`: one per index `i`, each the `size` elements
/// read from `i` on, wrapping to the front as often as needed. A source of
/// length `n` gives exactly `n` windows; an empty one gives none.
pub fn periodic_windows<'a, T: View>(size: usize, it: &'a [T]) -> (r: Windows<'a, T>)
    ensures
        r.rest() == periodic(views(it@), size as nat),
        r.pulls() == 0,
{
    windows(it, size)
}

/// Periodic windows of `size_m` rows by `size_n` columns over a grid given
/// by borrowed rows, wrapping in both dimensions: entry `i` of the result
/// belongs to the row window at `i`, and within it entry `j` holds the
/// windows at `j` of each of those rows.
pub fn window_2d_sliced<'a, T: View>(it: &'a [&'a [T]], size_m: usize, size_n: usize) -> (r:
    Windows2d<'a, T>)
    ensures
        r.rest() == windows_2d(grid_of(it@), size_m as nat, size_n as nat),
{
    windows_2d_of_slices(it, size_m, size_n)
}

/// Periodic windows of `size_m` rows by `size_n` columns over a grid given
/// by owned rows, as [`window_2d_sliced`] does for borrowed ones.
pub fn window_2d<'a, T: View>(it: &'a [Vec<T>], size_m: usize, size_n: usize) -> (r: Windows2d<
    'a,
    T,
>)
    ensures
        r.rest() == windows_2d(grid_of_vecs(it@), size_m as nat, size_n as nat),
{
    windows_2d_of_vecs(it, size_m, size_n)
}

} // verus!
