//! Laws that relate the adapters, windows and transposes of this library.
use vstd::prelude::*;
use crate::anonymous::{AnonymousIterator, Pull};
use crate::composed::ComposedIterator;
use crate::lazy::{Cursor, Lazy};
use crate::model::{
    chunked, cyclic_window, is_rectangular, lemma_chunked, lemma_flatten_rectangular,
    lemma_split_index, lemma_transposed_rectangular, periodic, transposed, views, windows_2d,
};

verus! {

/// Identity composition: an adapter whose context is a cursor over `v`,
/// taken as it is, and whose step pulls the cursor's next element yields
/// exactly the elements of `v`, in order.
pub proof fn law_identity_composition<T: View>(
    v: Seq<T>,
    cursor: Cursor<T>,
    adapter: AnonymousIterator<Cursor<T>, Pull, T>,
)
    requires
        cursor.items() == v,
        adapter.context() == cursor,
    ensures
        adapter.rest() == views(v),
{
    cursor.lemma_rest();
}

/// A source of length `n` has exactly `n` periodic windows, and window `i`
/// holds the `size` elements read cyclically from index `i`.
pub proof fn law_periodic_window_count<A>(s: Seq<A>, size: nat)
    ensures
        periodic(s, size).len() == s.len(),
        forall|i: int| 0 <= i < s.len() ==> (#[trigger] periodic(s, size)[i]).len() == size,
        forall|i: int, k: int|
            0 <= i < s.len() && 0 <= k < size ==> #[trigger] periodic(s, size)[i][k] == s[(i + k)
                % (s.len() as int)],
{
}

/// Transposing a grid of `m` rows, all of length `n`, twice gives the grid
/// back. Rows of length 0 are left out unless there are none: their
/// transpose is empty and forgets how many there were.
pub proof fn law_transpose_round_trip<A>(rows: Seq<Seq<A>>, n: nat)
    requires
        is_rectangular(rows, n),
        n > 0 || rows.len() == 0,
    ensures
        transposed(transposed(rows)) == rows,
{
    lemma_transposed_rectangular(rows, n);
    let t = transposed(rows);
    lemma_transposed_rectangular(t, rows.len());
    assert forall|i: int| 0 <= i < rows.len() implies transposed(t)[i] == rows[i] by {
        assert(transposed(t)[i] =~= rows[i]);
    }
    assert(transposed(t) =~= rows);
}

/// The periodic two-dimensional windows of an `m` by `n` grid: `m` row
/// windows, each of `n` column windows, each `size_m` rows of `size_n`
/// elements, wrapping in both dimensions. A window height of 0 is left out:
/// its row windows hold no rows, so their transpose is empty.
pub proof fn law_window_2d_shape<A>(grid: Seq<Seq<A>>, n: nat, size_m: nat, size_n: nat)
    requires
        is_rectangular(grid, n),
        size_m > 0,
    ensures
        ({
            let w = windows_2d(grid, size_m, size_n);
            let m = grid.len() as int;
            &&& w.len() == m
            &&& forall|i: int| 0 <= i < m ==> (#[trigger] w[i]).len() == n
            &&& forall|i: int, j: int|
                0 <= i < m && 0 <= j < n ==> (#[trigger] w[i][j]).len() == size_m
            &&& forall|i: int, j: int, r: int|
                0 <= i < m && 0 <= j < n && 0 <= r < size_m ==> (#[trigger] w[i][j][r]).len()
                    == size_n
            &&& forall|i: int, j: int, r: int, c: int|
                0 <= i < m && 0 <= j < n && 0 <= r < size_m && 0 <= c < size_n
                    ==> #[trigger] w[i][j][r][c] == grid[(i + r) % m][(j + c) % (n as int)]
        }),
{
    let w = windows_2d(grid, size_m, size_n);
    let m = grid.len() as int;
    assert forall|i: int| 0 <= i < m implies {
        &&& (#[trigger] w[i]).len() == n
        &&& forall|j: int| 0 <= j < n ==> (#[trigger] w[i][j]).len() == size_m
        &&& forall|j: int, r: int|
            0 <= j < n && 0 <= r < size_m ==> (#[trigger] w[i][j][r]).len() == size_n
        &&& forall|j: int, r: int, c: int|
            0 <= j < n && 0 <= r < size_m && 0 <= c < size_n ==> #[trigger] w[i][j][r][c]
                == grid[(i + r) % m][(j + c) % (n as int)]
    } by {
        let picked = cyclic_window(grid, i, size_m);
        let rows = picked.map_values(|row: Seq<A>| periodic(row, size_n));
        assert forall|r: int| 0 <= r < rows.len() implies #[trigger] rows[r].len() == n by {
            assert(0 <= (i + r) % m < m) by (nonlinear_arith)
                requires
                    m > 0,
            ;
        }
        assert(is_rectangular(rows, n));
        lemma_transposed_rectangular(rows, n);
        assert forall|j: int, r: int, c: int|
            0 <= j < n && 0 <= r < size_m && 0 <= c < size_n implies #[trigger] w[i][j][r][c]
            == grid[(i + r) % m][(j + c) % (n as int)] by {
            assert(w[i][j][r] == rows[r][j]);
            assert(rows[r][j] == cyclic_window(grid[(i + r) % m], j, size_n));
        }
    }
}

/// An empty source has no windows, and no rows, or only empty ones,
/// transpose to no columns.
pub proof fn law_empty_input<A>(size: nat, rows: Seq<Seq<A>>)
    requires
        is_rectangular(rows, 0),
    ensures
        periodic(Seq::<A>::empty(), size).len() == 0,
        transposed(rows).len() == 0,
{
    lemma_transposed_rectangular(rows, 0);
}

/// Transposing a grid stored flat, row after row, twice gives it back: cut
/// `g` into `m` rows of `n` and read it column by column (as
/// [`crate::compounds::transpose`] reads borrowed rows), then cut that into
/// `n` rows of `m` and read those column by column again.
pub proof fn law_flat_transpose_round_trip<A>(g: Seq<A>, m: nat, n: nat)
    requires
        m > 0,
        n > 0,
        g.len() == m * n,
    ensures
        transposed(chunked(transposed(chunked(g, n)).flatten(), m)).flatten() == g,
{
    let r = chunked(g, n);
    lemma_chunked(g, m, n);
    lemma_transposed_rectangular(r, n);
    let t = transposed(r);
    lemma_flatten_rectangular(t, m);
    let h = t.flatten();
    assert(h.len() == n * m);
    lemma_chunked(h, n, m);
    let c = chunked(h, m);
    assert forall|j: int| 0 <= j < n implies c[j] =~= t[j] by {
        assert forall|i: int| 0 <= i < m implies c[j][i] == t[j][i] by {
            assert(c[j][i] == h[j * m + i]);
        }
    }
    assert(c =~= t);
    law_transpose_round_trip(r, n);
    lemma_flatten_rectangular(r, n);
    assert forall|k: int| 0 <= k < g.len() implies r.flatten()[k] == g[k] by {
        lemma_split_index(k, m as int, n as int);
        let i = k / n as int;
        let j = k % n as int;
        assert(r.flatten()[i * n + j] == r[i][j]);
        assert(r[i][j] == g[i * n + j]);
    }
    assert(r.flatten() =~= g);
}

/// Laziness: an adapter whose step pulls its context, and a pipeline stage,
/// yield what the sequence they wrap yields and count its pulls as their
/// own. Each pull of them pulls that sequence exactly once, so pulling `k`
/// elements of such a stage (as [`crate::lazy::take`] does) draws exactly
/// the first `k` elements of its source, or all of them when it holds fewer,
/// and nothing beyond.
pub proof fn law_laziness<L: Lazy>(
    adapter: AnonymousIterator<L, Pull, L::Item>,
    stage: ComposedIterator<L>,
)
    ensures
        adapter.rest() == adapter.context().rest(),
        adapter.pulls() == adapter.context().pulls(),
        stage.rest() == stage.inner().rest(),
        stage.pulls() == stage.inner().pulls(),
{
}

} // verus!
