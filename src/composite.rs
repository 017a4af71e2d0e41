//! Pipeline functions under their circular names: transposition and
//! circular windows, in one and two dimensions.
use vstd::prelude::*;
use crate::lazy::Lazy;
use crate::model::{grid_of, grid_of_vecs, periodic, transposed, views, windows_2d};
use crate::transpose::{row_rests, transpose_rows, Transpose, TransposeFlat};
use crate::windows::{windows, windows_2d_of_slices, windows_2d_of_vecs, Windows, Windows2d};

verus! {

/// The elements of borrowed rows read column by column; see
/// [`crate::compounds::transpose`].
pub fn transpose_slice<'a, T: View + Copy>(iter: Vec<&'a [T]>) -> (r: TransposeFlat<'a, T>)
    ensures
        r.rest() == transposed(grid_of(iter@)).flatten(),
{
    TransposeFlat::new(iter)
}

/// The lazy transpose of rows that are lazy sequences; see
/// [`crate::compounds::transpose2`].
pub fn transpose<R: Lazy>(iter: Vec<R>) -> (r: Transpose<R>)
    ensures
        r.rest() == transposed(row_rests(iter@)),
        r.context().rows() == iter@,
        r.pulls() == 0,
{
    transpose_rows(iter)
}

/// The circular windows of `it`: one per index `i`, each the `size` elements
/// read cyclically from `i` on, repeating elements when `size` exceeds the
/// length of `it`. A source of length `n` gives exactly `n` windows.
pub fn circular_windows<'a, T: View>(size: usize, it: &'a [T]) -> (r: Windows<'a, T>)
    ensures
        r.rest() == periodic(views(it@), size as nat),
        r.pulls() == 0,
{
    windows(it, size)
}

/// Circular windows of `size_m` rows by `size_n` columns over a grid given
/// by borrowed rows, wrapping in both dimensions and laid out as
/// [`crate::compounds::window_2d_sliced`] lays them out.
pub fn circular_windows_2d_slice<'a, T: View>(it: &'a [&'a [T]], size_m: usize, size_n: usize) -> (r:
    Windows2d<'a, T>)
    ensures
        r.rest() == windows_2d(grid_of(it@), size_m as nat, size_n as nat),
{
    windows_2d_of_slices(it, size_m, size_n)
}

/// Circular windows of `size_m` rows by `size_n` columns over a grid given
/// by owned rows, wrapping in both dimensions.
pub fn circular_windows_2d<'a, T: View>(it: &'a [Vec<T>], size_m: usize, size_n: usize) -> (r:
    Windows2d<'a, T>)
    ensures
        r.rest() == windows_2d(grid_of_vecs(it@), size_m as nat, size_n as nat),
{
    windows_2d_of_vecs(it, size_m, size_n)
}

} // verus!
