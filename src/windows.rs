//! Windows read cyclically from a borrowed source.
use vstd::prelude::*;
use vstd::arithmetic::div_mod::{lemma_mod_add_multiples_vanish, lemma_small_mod};
use crate::anonymous::{AnonymousIterator, AnonymouslyIterable, Step};
use crate::lazy::Lazy;
use crate::model::{block_windows, cyclic_window, grid_of, grid_of_vecs, periodic, views, windows_2d};
use crate::transpose::{row_rests, transpose_rows, Transpose};

verus! {

/// A lazy window into a borrowed source, read cyclically: it yields `left`
/// more elements, starting at index `pos` and wrapping to the front after the
/// last element.
pub struct Window<'a, T> {
    src: &'a [T],
    pos: usize,
    left: usize,
    taken: Ghost<nat>,
}

impl<'a, T> Window<'a, T> {
    #[verifier::type_invariant]
    spec fn inv(self) -> bool {
        self.left > 0 ==> self.pos < self.src@.len()
    }
}

impl<'a, T: View> Lazy for Window<'a, T> {
    type Item = &'a T;

    closed spec fn rest(&self) -> Seq<T::V> {
        cyclic_window(views(self.src@), self.pos as int, self.left as nat)
    }

    closed spec fn pulls(&self) -> nat {
        self.taken@
    }

    fn next(&mut self) -> (r: Option<&'a T>) {
        proof {
            use_type_invariant(&*self);
        }
        if self.left == 0 {
            proof {
                assert(self.rest() =~= old(self).rest());
            }
            return None;
        }
        let x = &self.src[self.pos];
        let len = self.src.len();
        if self.pos + 1 == len {
            self.pos = 0;
        } else {
            self.pos = self.pos + 1;
        }
        self.left = self.left - 1;
        self.taken = Ghost(self.taken@ + 1);
        proof {
            let n = len as int;
            assert forall|k: int| 0 <= k < self.left implies #[trigger] ((self.pos + k) % n) == (old(
                self,
            ).pos + 1 + k) % n by {
                if old(self).pos + 1 == n {
                    lemma_mod_add_multiples_vanish(k, n);
                }
            }
            assert(self.rest() =~= old(self).rest().drop_first());
            lemma_small_mod(old(self).pos as nat, n as nat);
            assert((old(self).pos + 0) % n == old(self).pos);
            assert(x@ == old(self).rest()[0]);
        }
        Some(x)
    }
}

impl<'a, T: View> View for Window<'a, T> {
    type V = Seq<T::V>;

    open spec fn view(&self) -> Seq<T::V> {
        self.rest()
    }
}

/// The context of a windowing: a borrowed source and the index at which the
/// next window starts.
pub struct Cyclic<'a, T> {
    src: &'a [T],
    start: usize,
}

impl<'a, T> Cyclic<'a, T> {
    #[verifier::type_invariant]
    spec fn inv(self) -> bool {
        self.start <= self.src@.len()
    }

    /// The source.
    pub closed spec fn source(&self) -> Seq<T> {
        self.src@
    }

    /// Where the next window starts.
    pub closed spec fn start(&self) -> nat {
        self.start as nat
    }

    /// The context of the windows of `src`, the first starting at index 0.
    pub fn new(src: &'a [T]) -> (r: Self)
        ensures
            r.source() == src@,
            r.start() == 0,
    {
        Cyclic { src, start: 0 }
    }
}

/// The step of a windowing: it yields the window, `size` elements long and
/// read cyclically, at the context's start, then moves the start on by one,
/// until a window has started at every index.
pub struct Windowing {
    pub size: usize,
}

impl<'a, T: View> Step<Cyclic<'a, T>, Window<'a, T>> for Windowing {
    open spec fn rest(&self, c: &Cyclic<'a, T>) -> Seq<Seq<T::V>> {
        Seq::new(
            (c.source().len() - c.start()) as nat,
            |i: int| cyclic_window(views(c.source()), c.start() + i, self.size as nat),
        )
    }

    open spec fn pulls(&self, c: &Cyclic<'a, T>) -> nat {
        c.start()
    }

    fn step(&self, c: &mut Cyclic<'a, T>) -> (r: Option<Window<'a, T>>) {
        proof {
            use_type_invariant(&*c);
        }
        let len = c.src.len();
        if c.start >= len {
            proof {
                assert(self.rest(c) =~= self.rest(old(c)));
            }
            return None;
        }
        let left = self.size;
        let w = Window { src: c.src, pos: c.start, left, taken: Ghost(0) };
        c.start = c.start + 1;
        proof {
            assert(w.rest() =~= self.rest(old(c))[0]);
            assert(self.rest(c) =~= self.rest(old(c)).drop_first());
        }
        Some(w)
    }
}

/// The lazy sequence of the windows of a borrowed source, one starting at
/// each index.
pub type Windows<'a, T> = AnonymousIterator<Cyclic<'a, T>, Windowing, Window<'a, T>>;

/// The windows of `src`, `size` elements long, one starting at each index:
/// the context is made from the source and the windowing step yields each
/// window in turn.
pub fn windows<'a, T: View>(src: &'a [T], size: usize) -> (r: Windows<'a, T>)
    ensures
        r.rest() == periodic(views(src@), size as nat),
        r.pulls() == 0,
{
    let r = src.anonymous(Cyclic::new, Windowing { size });
    assert(r.rest() =~= periodic(views(src@), size as nat));
    r
}

/// The context of a two-dimensional windowing: the rows of a grid, borrowed,
/// and the row at which the next row window starts.
pub struct Grid<'a, T> {
    rows: Vec<&'a [T]>,
    start: usize,
}

impl<'a, T> Grid<'a, T> {
    #[verifier::type_invariant]
    spec fn inv(self) -> bool {
        self.start <= self.rows@.len()
    }

    /// The rows.
    pub closed spec fn rows(&self) -> Seq<&'a [T]> {
        self.rows@
    }

    /// Where the next row window starts.
    pub closed spec fn start(&self) -> nat {
        self.start as nat
    }
}

impl<'a, T: View> Grid<'a, T> {
    /// The grid, as views of its elements.
    pub open spec fn grid(&self) -> Seq<Seq<T::V>> {
        grid_of(self.rows())
    }

    /// The grid with rows `rows`, the first row window starting at row 0.
    pub fn new(rows: Vec<&'a [T]>) -> (r: Self)
        ensures
            r.rows() == rows@,
            r.start() == 0,
    {
        Grid { rows, start: 0 }
    }

    /// The grid with borrowed rows `rows`.
    pub fn from_slices(rows: &'a [&'a [T]]) -> (r: Self)
        ensures
            r.grid() == grid_of(rows@),
            r.start() == 0,
    {
        let mut v: Vec<&'a [T]> = Vec::new();
        let mut k: usize = 0;
        while k < rows.len()
            invariant
                0 <= k <= rows@.len(),
                v@ == rows@.take(k as int),
            decreases rows@.len() - k,
        {
            v.push(rows[k]);
            k += 1;
            assert(v@ =~= rows@.take(k as int));
        }
        assert(v@ =~= rows@);
        Grid::new(v)
    }

    /// The grid with owned rows `rows`.
    pub fn from_vecs(rows: &'a [Vec<T>]) -> (r: Self)
        ensures
            r.grid() == grid_of_vecs(rows@),
            r.start() == 0,
    {
        let mut v: Vec<&'a [T]> = Vec::new();
        let mut k: usize = 0;
        while k < rows.len()
            invariant
                0 <= k <= rows@.len(),
                v@.len() == k,
                grid_of(v@) == grid_of_vecs(rows@.take(k as int)),
            decreases rows@.len() - k,
        {
            let ghost before = v@;
            let row = rows[k].as_slice();
            assert(row@ == rows@[k as int]@);
            v.push(row);
            k += 1;
            assert forall|i: int| 0 <= i < k implies grid_of(v@)[i] == grid_of_vecs(
                rows@.take(k as int),
            )[i] by {
                if i < k - 1 {
                    assert(v@[i] == before[i]);
                    assert(grid_of(before)[i] == grid_of_vecs(rows@.take(k - 1))[i]);
                }
            }
            assert(grid_of(v@) =~= grid_of_vecs(rows@.take(k as int)));
        }
        assert(rows@.take(rows@.len() as int) =~= rows@);
        Grid::new(v)
    }
}

/// The step of a two-dimensional windowing. For the row window of `size_m`
/// rows at the context's start it yields the block windows: those rows, each
/// cut into windows of `size_n`, transposed so that the first index picks the
/// column window and the second the row. Then it moves the start on by one,
/// until a row window has started at every row.
pub struct Blocking {
    pub size_m: usize,
    pub size_n: usize,
}

impl<'a, T: View> Step<Grid<'a, T>, Transpose<Windows<'a, T>>> for Blocking {
    open spec fn rest(&self, c: &Grid<'a, T>) -> Seq<Seq<Seq<Seq<T::V>>>> {
        Seq::new(
            (c.rows().len() - c.start()) as nat,
            |i: int|
                block_windows(
                    c.grid(),
                    c.start() + i,
                    self.size_m as nat,
                    self.size_n as nat,
                ),
        )
    }

    open spec fn pulls(&self, c: &Grid<'a, T>) -> nat {
        c.start()
    }

    fn step(&self, c: &mut Grid<'a, T>) -> (r: Option<Transpose<Windows<'a, T>>>) {
        proof {
            use_type_invariant(&*c);
        }
        let m = c.rows.len();
        if c.start >= m {
            proof {
                assert(self.rest(c) =~= self.rest(old(c)));
            }
            return None;
        }
        let wm = self.size_m;
        let ghost grid = grid_of(c.rows@);
        let ghost rw = cyclic_window(grid, c.start as int, self.size_m as nat);
        let ghost picked = cyclic_window(views(c.rows@), c.start as int, self.size_m as nat);
        let mut outer = Window { src: c.rows.as_slice(), pos: c.start, left: wm, taken: Ghost(0) };
        assert(outer.rest() =~= picked);
        let mut cols: Vec<Windows<'a, T>> = Vec::new();
        let mut k: usize = 0;
        while k < wm
            invariant
                0 <= k <= wm,
                wm == picked.len(),
                picked.len() == rw.len(),
                outer.rest() == picked.skip(k as int),
                forall|r: int| 0 <= r < wm ==> views(#[trigger] picked[r]) == rw[r],
                cols@.len() == k,
                forall|r: int|
                    0 <= r < k ==> (#[trigger] cols@[r]).rest() == periodic(rw[r], self.size_n as nat),
            decreases wm - k,
        {
            let row = outer.next().unwrap();
            let w = windows(*row, self.size_n);
            proof {
                assert(w.rest() =~= periodic(rw[k as int], self.size_n as nat));
            }
            cols.push(w);
            k += 1;
            proof {
                assert(outer.rest() =~= picked.skip(k as int));
            }
        }
        let t = transpose_rows(cols);
        proof {
            assert(row_rests(cols@) =~= rw.map_values(
                |row: Seq<T::V>| periodic(row, self.size_n as nat),
            ));
        }
        c.start = c.start + 1;
        proof {
            assert(self.rest(c) =~= self.rest(old(c)).drop_first());
        }
        Some(t)
    }
}

/// The lazy two-dimensional windows of a grid given by its rows.
pub type Windows2d<'a, T> = AnonymousIterator<Grid<'a, T>, Blocking, Transpose<Windows<'a, T>>>;

/// The two-dimensional windows, `size_m` rows by `size_n` columns, of the
/// grid with borrowed rows `rows`: the rows are gathered into the context and
/// the blocking step yields the block windows of each row window in turn.
pub fn windows_2d_of_slices<'a, T: View>(
    rows: &'a [&'a [T]],
    size_m: usize,
    size_n: usize,
) -> (r: Windows2d<'a, T>)
    ensures
        r.rest() == windows_2d(grid_of(rows@), size_m as nat, size_n as nat),
{
    let r = rows.anonymous(Grid::from_slices, Blocking { size_m, size_n });
    assert(r.rest() =~= windows_2d(grid_of(rows@), size_m as nat, size_n as nat));
    r
}

/// The two-dimensional windows, `size_m` rows by `size_n` columns, of the
/// grid with owned rows `rows`.
pub fn windows_2d_of_vecs<'a, T: View>(
    rows: &'a [Vec<T>],
    size_m: usize,
    size_n: usize,
) -> (r: Windows2d<'a, T>)
    ensures
        r.rest() == windows_2d(grid_of_vecs(rows@), size_m as nat, size_n as nat),
{
    let r = rows.anonymous(Grid::from_vecs, Blocking { size_m, size_n });
    assert(r.rest() =~= windows_2d(grid_of_vecs(rows@), size_m as nat, size_n as nat));
    r
}

} // verus!
