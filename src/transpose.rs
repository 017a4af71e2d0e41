//! Lazy transposition of a collection of rows.
use vstd::prelude::*;
use std::collections::VecDeque;
use crate::anonymous::{AnonymousIterator, AnonymouslyIterable, Step};
use crate::lazy::{to_deque, Cursor, Elements, Lazy};
use crate::model::{column, grid_of, lemma_columns_nonempty, lemma_transposed_step, tails, transposed, views};

verus! {

/// The rests of a collection of row cursors.
pub open spec fn row_rests<R: Lazy>(rows: Seq<R>) -> Seq<Seq<<R::Item as View>::V>> {
    rows.map_values(|r: R| r.rest())
}

/// The context of a lazy transpose: the row cursors, in row order, and the
/// number of columns yielded so far.
pub struct Rows<R> {
    rows: VecDeque<R>,
    columns: Ghost<nat>,
}

impl<R> Rows<R> {
    /// The row cursors.
    pub closed spec fn rows(&self) -> Seq<R> {
        self.rows@
    }

    /// How many columns were yielded so far.
    pub closed spec fn columns(&self) -> nat {
        self.columns@
    }

    /// The context over the row cursors `rows`, no column yielded yet.
    pub fn new(rows: Vec<R>) -> (r: Self)
        ensures
            r.rows() == rows@,
            r.columns() == 0,
    {
        Rows { rows: to_deque(rows), columns: Ghost(0) }
    }
}

/// The step of a lazy transpose: it takes the next element of every row
/// cursor of the context that still has one, in row order, and yields them
/// as a column; it yields nothing once no row contributes.
pub struct Transposing;

impl<R: Lazy> Step<Rows<R>, Cursor<R::Item>> for Transposing {
    open spec fn rest(&self, c: &Rows<R>) -> Seq<Seq<<R::Item as View>::V>> {
        transposed(row_rests(c.rows()))
    }

    open spec fn pulls(&self, c: &Rows<R>) -> nat {
        c.columns()
    }

    fn step(&self, c: &mut Rows<R>) -> (r: Option<Cursor<R::Item>>) {
        let ghost rows0 = row_rests(c.rows@);
        let n = c.rows.len();
        let mut col: Vec<R::Item> = Vec::new();
        let mut k: usize = 0;
        while k < n
            invariant
                0 <= k <= n,
                n == rows0.len(),
                c.rows@.len() == n,
                c.columns@ == old(c).columns@,
                forall|i: int| 0 <= i < n - k ==> (#[trigger] c.rows@[i]).rest() == rows0[k + i],
                forall|i: int|
                    0 <= i < k ==> (#[trigger] c.rows@[n - k + i]).rest() == tails(rows0)[i],
                col@.map_values(|x: R::Item| x@) == column(rows0.take(k as int), 0),
            decreases n - k,
        {
            let ghost before = c.rows@;
            let ghost col0 = col@;
            let mut row = c.rows.pop_front().unwrap();
            let x = row.next();
            match x {
                Some(x) => col.push(x),
                None => {},
            }
            c.rows.push_back(row);
            k += 1;
            proof {
                assert(rows0.take(k as int).drop_last() =~= rows0.take(k - 1));
                assert(col@.map_values(|x: R::Item| x@) =~= column(rows0.take(k as int), 0));
                assert forall|i: int| 0 <= i < n - k implies (#[trigger] c.rows@[i]).rest()
                    == rows0[k + i] by {
                    assert(c.rows@[i] == before[i + 1]);
                }
                assert forall|i: int| 0 <= i < k implies (#[trigger] c.rows@[n - k + i]).rest()
                    == tails(rows0)[i] by {
                    if i < k - 1 {
                        assert(c.rows@[n - k + i] == before[n - (k - 1) + i]);
                    }
                }
            }
        }
        proof {
            assert(rows0.take(n as int) =~= rows0);
            assert forall|i: int| 0 <= i < n implies row_rests(c.rows@)[i] == tails(rows0)[i] by {
                assert(c.rows@[n - k + i].rest() == tails(rows0)[i]);
            }
            assert(row_rests(c.rows@) =~= tails(rows0));
            lemma_transposed_step(rows0);
        }
        if col.len() == 0 {
            proof {
                assert(self.rest(c) =~= self.rest(old(c)));
            }
            None
        } else {
            c.columns = Ghost(c.columns@ + 1);
            Some(Cursor::new(col))
        }
    }
}

/// The lazy transpose of a collection of row cursors.
pub type Transpose<R> = AnonymousIterator<Rows<R>, Transposing, Cursor<<R as Lazy>::Item>>;


/// The lazy transpose of `rows`, each kept as its own cursor.
pub fn transpose_rows<R: Lazy>(rows: Vec<R>) -> (r: Transpose<R>)
    ensures
        r.rest() == transposed(row_rests(rows@)),
        r.context().rows() == rows@,
        r.pulls() == 0,
{
    let r = rows.anonymous(Rows::new, Transposing);
    r
}

/// The elements of borrowed rows, read column by column: all first elements
/// in row order, then all second elements of the rows that have one, and so
/// on.
pub struct TransposeFlat<'a, T: Copy + View> {
    cols: Transpose<Elements<'a, T>>,
    cur: Cursor<T>,
    taken: Ghost<nat>,
}

impl<'a, T: View + Copy> TransposeFlat<'a, T> {
    /// The elements of `rows`, column by column.
    pub fn new(rows: Vec<&'a [T]>) -> (r: Self)
        ensures
            r.rest() == transposed(grid_of(rows@)).flatten(),
            r.pulls() == 0,
    {
        let mut cursors: Vec<Elements<'a, T>> = Vec::new();
        let mut k: usize = 0;
        while k < rows.len()
            invariant
                0 <= k <= rows@.len(),
                cursors@.len() == k,
                forall|i: int| 0 <= i < k ==> (#[trigger] cursors@[i]).rest() == views(rows@[i]@),
            decreases rows@.len() - k,
        {
            cursors.push(Elements::new(rows[k]));
            k += 1;
        }
        assert(row_rests(cursors@) =~= grid_of(rows@));
        let r = TransposeFlat { cols: transpose_rows(cursors), cur: Cursor::new(Vec::new()), taken: Ghost(0) };
        assert(r.cur.rest() =~= Seq::<T::V>::empty());
        assert(r.rest() =~= r.cols.rest().flatten());
        r
    }
}

impl<'a, T: View + Copy> Lazy for TransposeFlat<'a, T> {
    type Item = T;

    closed spec fn rest(&self) -> Seq<T::V> {
        self.cur.rest() + self.cols.rest().flatten()
    }

    closed spec fn pulls(&self) -> nat {
        self.taken@
    }

    fn next(&mut self) -> (r: Option<T>) {
        match self.cur.next() {
            Some(x) => {
                proof {
                    assert(self.rest() =~= old(self).rest().drop_first());
                }
                self.taken = Ghost(self.taken@ + 1);
                return Some(x);
            },
            None => {},
        }
        proof {
            lemma_columns_nonempty(row_rests(self.cols.context().rows()));
        }
        match self.cols.next() {
            None => {
                proof {
                    assert(self.rest() =~= old(self).rest());
                }
                None
            },
            Some(c) => {
                self.cur = c;
                let x = self.cur.next().unwrap();
                self.taken = Ghost(self.taken@ + 1);
                proof {
                    assert(old(self).rest() =~= old(self).cols.rest().flatten());
                    assert(self.rest() =~= old(self).rest().drop_first());
                }
                Some(x)
            },
        }
    }
}

impl<'a, T: View + Copy> View for TransposeFlat<'a, T> {
    type V = Seq<T::V>;

    open spec fn view(&self) -> Seq<T::V> {
        self.rest()
    }
}

} // verus!
