//! Mathematical model of the sequences the adapters produce.
use vstd::prelude::*;
use vstd::arithmetic::div_mod::{lemma_fundamental_div_mod, lemma_mod_bound};

verus! {

/// Column `j` of `rows`: the `j`-th element of every row longer than `j`,
/// in row order.
pub open spec fn column<A>(rows: Seq<Seq<A>>, j: int) -> Seq<A>
    decreases rows.len(),
{
    if rows.len() == 0 {
        Seq::empty()
    } else {
        let c = column(rows.drop_last(), j);
        if 0 <= j < rows.last().len() {
            c.push(rows.last()[j])
        } else {
            c
        }
    }
}

/// The length of the longest row (0 when there is none).
pub open spec fn width<A>(rows: Seq<Seq<A>>) -> nat
    decreases rows.len(),
{
    if rows.len() == 0 {
        0
    } else {
        let w = width(rows.drop_last());
        if rows.last().len() > w {
            rows.last().len()
        } else {
            w
        }
    }
}

/// The transpose of possibly ragged rows: one column per position of the
/// longest row, short rows left out of the columns they do not reach.
pub open spec fn transposed<A>(rows: Seq<Seq<A>>) -> Seq<Seq<A>> {
    Seq::new(width(rows), |j: int| column(rows, j))
}

/// Every row without its first element (an empty row stays empty).
pub open spec fn tails<A>(rows: Seq<Seq<A>>) -> Seq<Seq<A>> {
    rows.map_values(|r: Seq<A>| if r.len() > 0 { r.drop_first() } else { r })
}

/// The views of the elements of `s`.
pub open spec fn views<T: View>(s: Seq<T>) -> Seq<T::V> {
    s.map_values(|x: T| x@)
}

/// The grid that borrowed rows form, as views of their elements.
pub open spec fn grid_of<'a, T: View>(rows: Seq<&'a [T]>) -> Seq<Seq<T::V>> {
    rows.map_values(|r: &'a [T]| views(r@))
}

/// The grid that owned rows form, as views of their elements.
pub open spec fn grid_of_vecs<T: View>(rows: Seq<Vec<T>>) -> Seq<Seq<T::V>> {
    rows.map_values(|r: Vec<T>| views(r@))
}

/// `s` cut into `|s| / n` consecutive rows of `n` elements each.
pub open spec fn chunked<A>(s: Seq<A>, n: nat) -> Seq<Seq<A>> {
    Seq::new(s.len() / n, |i: int| s.subrange(i * n, i * n + n))
}

/// All rows have length `n`.
pub open spec fn is_rectangular<A>(rows: Seq<Seq<A>>, n: nat) -> bool {
    forall|i: int| 0 <= i < rows.len() ==> #[trigger] rows[i].len() == n
}

/// The window of `size` elements of `s` that starts at `start`, read
/// cyclically: element `k` is `s[(start + k) % |s|]`.
pub open spec fn cyclic_window<A>(s: Seq<A>, start: int, size: nat) -> Seq<A> {
    Seq::new(size, |k: int| s[(start + k) % (s.len() as int)])
}

/// The `|s|` periodic windows of `s`: the window at `i` holds `size` elements
/// read cyclically from index `i`, repeating elements when `size` exceeds
/// `|s|`.
pub open spec fn periodic<A>(s: Seq<A>, size: nat) -> Seq<Seq<A>> {
    Seq::new(s.len(), |i: int| cyclic_window(s, i, size))
}

/// The block windows of `grid` for the row window at `i`: the rows of that
/// window, each cut into its own windows of `size_n`, then transposed so that
/// the `j`-th entry holds the `j`-th window of every one of those rows.
pub open spec fn block_windows<A>(grid: Seq<Seq<A>>, i: int, size_m: nat, size_n: nat) -> Seq<
    Seq<Seq<A>>,
> {
    transposed(cyclic_window(grid, i, size_m).map_values(|row: Seq<A>| periodic(row, size_n)))
}

/// The two-dimensional windows of `grid`: for each row index, the block
/// windows of the row window that starts there.
pub open spec fn windows_2d<A>(grid: Seq<Seq<A>>, size_m: nat, size_n: nat) -> Seq<
    Seq<Seq<Seq<A>>>,
> {
    Seq::new(grid.len(), |i: int| block_windows(grid, i, size_m, size_n))
}

/// Column `j` of the rows without their heads is column `j + 1` of the rows.
pub proof fn lemma_column_tails<A>(rows: Seq<Seq<A>>, j: int)
    requires
        0 <= j,
    ensures
        column(tails(rows), j) == column(rows, j + 1),
    decreases rows.len(),
{
    if rows.len() > 0 {
        assert(tails(rows).drop_last() =~= tails(rows.drop_last()));
        lemma_column_tails(rows.drop_last(), j);
    }
}

/// Taking the heads off the rows shortens the longest by one.
pub proof fn lemma_width_tails<A>(rows: Seq<Seq<A>>)
    ensures
        width(tails(rows)) == if width(rows) > 0 { width(rows) - 1 } else { 0 },
    decreases rows.len(),
{
    if rows.len() > 0 {
        assert(tails(rows).drop_last() =~= tails(rows.drop_last()));
        lemma_width_tails(rows.drop_last());
    }
}

/// Column `j` is empty exactly when no row is longer than `j`.
pub proof fn lemma_column_len<A>(rows: Seq<Seq<A>>, j: int)
    requires
        0 <= j,
    ensures
        column(rows, j).len() > 0 <==> j < width(rows),
    decreases rows.len(),
{
    if rows.len() > 0 {
        lemma_column_len(rows.drop_last(), j);
    }
}

/// No column of a transpose is empty.
pub proof fn lemma_columns_nonempty<A>(rows: Seq<Seq<A>>)
    ensures
        forall|j: int| 0 <= j < transposed(rows).len() ==> (#[trigger] transposed(rows)[j]).len() > 0,
{
    assert forall|j: int| 0 <= j < transposed(rows).len() implies (#[trigger] transposed(
        rows,
    )[j]).len() > 0 by {
        lemma_column_len(rows, j);
    }
}

/// One step of the transpose: the first column comes out and the rows lose
/// their heads.
pub proof fn lemma_transposed_step<A>(rows: Seq<Seq<A>>)
    ensures
        column(rows, 0).len() > 0 <==> transposed(rows).len() > 0,
        transposed(rows).len() > 0 ==> transposed(rows)[0] == column(rows, 0)
            && transposed(tails(rows)) == transposed(rows).drop_first(),
        transposed(rows).len() == 0 ==> transposed(tails(rows)).len() == 0,
{
    lemma_column_len(rows, 0);
    lemma_width_tails(rows);
    assert forall|j: int| 0 <= j < width(tails(rows)) implies column(tails(rows), j) == column(
        rows,
        j + 1,
    ) by {
        lemma_column_tails(rows, j);
    }
    assert(transposed(rows).len() > 0 ==> transposed(tails(rows)) =~= transposed(rows).drop_first());
}

/// Rows all of length `n` have width `n`, unless there are none.
pub proof fn lemma_rectangular_width<A>(rows: Seq<Seq<A>>, n: nat)
    requires
        is_rectangular(rows, n),
    ensures
        width(rows) == if rows.len() > 0 { n } else { 0 },
    decreases rows.len(),
{
    if rows.len() > 0 {
        assert(is_rectangular(rows.drop_last(), n));
        lemma_rectangular_width(rows.drop_last(), n);
    }
}

/// In rows all of length `n`, column `j < n` holds the `j`-th element of
/// every row.
pub proof fn lemma_rectangular_column<A>(rows: Seq<Seq<A>>, n: nat, j: int)
    requires
        is_rectangular(rows, n),
        0 <= j < n,
    ensures
        column(rows, j) == Seq::new(rows.len(), |i: int| rows[i][j]),
    decreases rows.len(),
{
    if rows.len() > 0 {
        assert(is_rectangular(rows.drop_last(), n));
        lemma_rectangular_column(rows.drop_last(), n, j);
    }
    assert(column(rows, j) =~= Seq::new(rows.len(), |i: int| rows[i][j]));
}

/// The transpose of `m` rows all of length `n` is `n` rows of length `m`
/// (none when `m` is 0), with entry `(j, i)` taken from entry `(i, j)`.
pub proof fn lemma_transposed_rectangular<A>(rows: Seq<Seq<A>>, n: nat)
    requires
        is_rectangular(rows, n),
    ensures
        transposed(rows).len() == if rows.len() > 0 { n } else { 0 },
        is_rectangular(transposed(rows), rows.len()),
        forall|j: int, i: int|
            0 <= j < transposed(rows).len() && 0 <= i < rows.len() ==> #[trigger] transposed(
                rows,
            )[j][i] == rows[i][j],
{
    lemma_rectangular_width(rows, n);
    assert forall|j: int| 0 <= j < transposed(rows).len() implies #[trigger] transposed(rows)[j]
        == Seq::new(rows.len(), |i: int| rows[i][j]) by {
        lemma_rectangular_column(rows, n, j);
    }
}

/// Rows all of length `n`, laid end to end: entry `(q, r)` lands at
/// `q * n + r`.
pub proof fn lemma_flatten_rectangular<A>(rows: Seq<Seq<A>>, n: nat)
    requires
        is_rectangular(rows, n),
    ensures
        rows.flatten().len() == rows.len() * n,
        forall|q: int, r: int|
            0 <= q < rows.len() && 0 <= r < n ==> #[trigger] rows.flatten()[q * n + r]
                == rows[q][r],
    decreases rows.len(),
{
    if rows.len() > 0 {
        let rest = rows.drop_first();
        assert(is_rectangular(rest, n));
        lemma_flatten_rectangular(rest, n);
        assert(rows.flatten() == rows[0] + rest.flatten());
        assert(rows.len() * n == n + rest.len() * n) by (nonlinear_arith)
            requires
                rest.len() == rows.len() - 1,
        ;
        assert forall|q: int, r: int| 0 <= q < rows.len() && 0 <= r < n implies #[trigger] rows.flatten()[q
            * n + r] == rows[q][r] by {
            if q > 0 {
                assert(q * n + r - n == (q - 1) * n + r) by (nonlinear_arith);
                assert(q * n + r >= n) by (nonlinear_arith)
                    requires
                        q >= 1,
                        r >= 0,
                ;
                assert((q - 1) * n + r < rest.len() * n) by (nonlinear_arith)
                    requires
                        0 <= q - 1 < rest.len(),
                        0 <= r < n,
                ;
                assert(rest.flatten()[(q - 1) * n + r] == rest[q - 1][r]);
            } else {
                assert(q * n + r == r) by (nonlinear_arith)
                    requires
                        q == 0,
                ;
            }
        }
    }
}

/// An index below `m * n` splits into a row below `m` and a column below
/// `n`.
pub proof fn lemma_split_index(t: int, m: int, n: int)
    requires
        n > 0,
        0 <= t < m * n,
    ensures
        t == (t / n) * n + t % n,
        0 <= t / n < m,
        0 <= t % n < n,
{
    lemma_fundamental_div_mod(t, n);
    lemma_mod_bound(t, n);
    assert(t == (t / n) * n + t % n) by (nonlinear_arith)
        requires
            t == n * (t / n) + t % n,
    ;
    assert(0 <= t / n < m) by (nonlinear_arith)
        requires
            t == (t / n) * n + t % n,
            0 <= t % n < n,
            0 <= t < m * n,
            n > 0,
    ;
}

/// Cutting `q * n` elements into rows of `n` gives `q` rows, row `i` holding
/// the elements from `i * n` on.
pub proof fn lemma_chunked<A>(s: Seq<A>, q: nat, n: nat)
    requires
        n > 0,
        s.len() == q * n,
    ensures
        chunked(s, n).len() == q,
        is_rectangular(chunked(s, n), n),
        forall|i: int, j: int|
            0 <= i < q && 0 <= j < n ==> #[trigger] chunked(s, n)[i][j] == s[i * n + j],
{
    vstd::arithmetic::div_mod::lemma_fundamental_div_mod_converse(s.len() as int, n as int, q as int, 0);
    assert(chunked(s, n).len() == q);
    assert forall|i: int, j: int| 0 <= i < q && 0 <= j < n implies #[trigger] chunked(s, n)[i][j]
        == s[i * n + j] by {
        assert(i * n + n <= q * n) by (nonlinear_arith)
            requires
                0 <= i < q,
                n > 0,
        ;
        assert(0 <= i * n) by (nonlinear_arith)
            requires
                0 <= i,
        ;
        let row = s.subrange(i * n, i * n + n);
        assert(0 <= i < chunked(s, n).len());
        assert(chunked(s, n)[i] =~= row);
        assert(row.len() == n);
        assert(row[j] == s[i * n + j]);
    }
    assert forall|i: int| 0 <= i < q implies #[trigger] chunked(s, n)[i].len() == n by {
        assert(i * n + n <= q * n) by (nonlinear_arith)
            requires
                0 <= i < q,
                n > 0,
        ;
        assert(0 <= i * n) by (nonlinear_arith)
            requires
                0 <= i,
        ;
    }
}

} // verus!
