//! The pull-based lazy sequence that every adapter of this library produces.
use vstd::prelude::*;
use std::collections::VecDeque;
use crate::model::views;

verus! {

/// A lazy sequence: a context that yields one element per pull.
///
/// `rest` is the model of the sequence: the views of the elements that it
/// still yields, in order. It is finite, and once it is empty it stays empty:
/// a pull yields its first element, or nothing once none is left, and keeps
/// yielding nothing after that. An unbounded source, or one that yields again
/// after reporting its end, has no such model and cannot implement this
/// trait.
///
/// `pulls` counts the elements that the sequence has yielded so far. A pull
/// that yields an element adds exactly one to it; one that yields nothing
/// leaves it as it was. An adapter that forwards its pulls to a source gives
/// that source's count as its own, so what a pipeline draws from its source
/// can be read off the pipeline.
pub trait Lazy: Sized {
    type Item: View;

    /// The views of the elements still to come, in order.
    spec fn rest(&self) -> Seq<<Self::Item as View>::V>;

    /// How many elements have been yielded so far.
    spec fn pulls(&self) -> nat;

    /// Pulls the next element.
    fn next(&mut self) -> (r: Option<Self::Item>)
        ensures
            old(self).rest().len() == 0 ==> r is None && final(self).rest() == old(self).rest(),
            old(self).rest().len() > 0 ==> r is Some && r->0@ == old(self).rest()[0]
                && final(self).rest() == old(self).rest().drop_first(),
            final(self).pulls() == old(self).pulls() + if r is Some { 1nat } else { 0nat },
    ;
}

/// Pulls the next element of `l`, whatever its type.
pub fn pull<L: Lazy>(l: &mut L) -> (r: Option<L::Item>)
    ensures
        old(l).rest().len() == 0 ==> r is None && final(l).rest() == old(l).rest(),
        old(l).rest().len() > 0 ==> r is Some && r->0@ == old(l).rest()[0] && final(l).rest()
            == old(l).rest().drop_first(),
        final(l).pulls() == old(l).pulls() + if r is Some { 1nat } else { 0nat },
{
    l.next()
}

/// A lazy sequence over the elements of an owned buffer, in order.
pub struct Cursor<T> {
    items: VecDeque<T>,
    taken: Ghost<nat>,
}

impl<T: View> Cursor<T> {
    /// The elements still held, not viewed.
    pub closed spec fn items(&self) -> Seq<T> {
        self.items@
    }

    /// A cursor yields the views of the elements it holds.
    pub proof fn lemma_rest(&self)
        ensures
            self.rest() == views(self.items()),
    {
    }

    /// A cursor over the elements of `v`, first to last.
    pub fn new(v: Vec<T>) -> (r: Self)
        ensures
            r.items() == v@,
            r.rest() == views(v@),
            r.pulls() == 0,
    {
        let r = Cursor { items: to_deque(v), taken: Ghost(0) };
        assert(r.rest() =~= views(v@));
        r
    }
}

/// The elements of `v` moved into a double-ended queue, in the same order.
pub(crate) fn to_deque<T>(v: Vec<T>) -> (r: VecDeque<T>)
    ensures
        r@ == v@,
{
    let mut items: VecDeque<T> = VecDeque::new();
    let mut v = v;
    let ghost orig = v@;
    let ghost n = v@.len();
    while v.len() > 0
        invariant
            v@.len() + items@.len() == n,
            v@ + items@ == orig,
        decreases v.len(),
    {
        let x = v.pop().unwrap();
        items.push_front(x);
        assert(v@ + items@ =~= orig);
    }
    assert(items@ =~= orig);
    items
}

impl<T: View> Lazy for Cursor<T> {
    type Item = T;

    closed spec fn rest(&self) -> Seq<T::V> {
        views(self.items@)
    }

    closed spec fn pulls(&self) -> nat {
        self.taken@
    }

    fn next(&mut self) -> (r: Option<T>) {
        let r = self.items.pop_front();
        if r.is_some() {
            self.taken = Ghost(self.taken@ + 1);
        }
        proof {
            assert(self.rest() =~= old(self).rest().drop_first() || old(self).rest().len() == 0);
        }
        r
    }
}

impl<T: View> View for Cursor<T> {
    type V = Seq<T::V>;

    open spec fn view(&self) -> Seq<T::V> {
        self.rest()
    }
}

/// A lazy sequence over the elements of a borrowed slice, copied out, first
/// to last.
pub struct Elements<'a, T> {
    src: &'a [T],
    pos: usize,
}

impl<'a, T> Elements<'a, T> {
    #[verifier::type_invariant]
    spec fn inv(self) -> bool {
        self.pos <= self.src@.len()
    }
}

impl<'a, T: Copy + View> Elements<'a, T> {
    /// A cursor over the elements of `src`.
    pub fn new(src: &'a [T]) -> (r: Self)
        ensures
            r.rest() == views(src@),
            r.pulls() == 0,
    {
        let r = Elements { src, pos: 0 };
        assert(r.rest() =~= views(src@));
        r
    }
}

impl<'a, T: Copy + View> Lazy for Elements<'a, T> {
    type Item = T;

    closed spec fn rest(&self) -> Seq<T::V> {
        views(self.src@).skip(self.pos as int)
    }

    closed spec fn pulls(&self) -> nat {
        self.pos as nat
    }

    fn next(&mut self) -> (r: Option<T>) {
        proof {
            use_type_invariant(&*self);
        }
        if self.pos < self.src.len() {
            let x = self.src[self.pos];
            self.pos = self.pos + 1;
            assert(self.rest() =~= old(self).rest().drop_first());
            Some(x)
        } else {
            assert(self.rest() =~= old(self).rest());
            None
        }
    }
}

/// Pulls every element of `l`, in order.
pub fn collect<L: Lazy>(l: L) -> (r: Vec<L::Item>)
    ensures
        views(r@) == l.rest(),
{
    let mut l = l;
    let ghost all = l.rest();
    let mut out: Vec<L::Item> = Vec::new();
    loop
        invariant
            views(out@) + l.rest() == all,
        ensures
            views(out@) == all,
        decreases l.rest().len(),
    {
        match l.next() {
            Some(x) => {
                out.push(x);
                assert(views(out@) + l.rest() =~= all);
            },
            None => {
                assert(views(out@) =~= all);
                break ;
            },
        }
    }
    out
}

/// Pulls at most `k` elements of `l`: the first `k`, or all of them when
/// there are fewer. Nothing beyond them is pulled: the count of pulls grows
/// by exactly the number of elements returned.
pub fn take<L: Lazy>(l: &mut L, k: usize) -> (r: Vec<L::Item>)
    ensures
        ({
            let n = if k <= old(l).rest().len() { k as int } else { old(l).rest().len() as int };
            &&& views(r@) == old(l).rest().take(n)
            &&& final(l).rest() == old(l).rest().skip(n)
            &&& final(l).pulls() == old(l).pulls() + n
        }),
{
    let ghost all = l.rest();
    let ghost p0 = l.pulls();
    let mut out: Vec<L::Item> = Vec::new();
    let mut i: usize = 0;
    while i < k
        invariant
            0 <= i <= k,
            views(out@) + l.rest() == all,
            out@.len() == i || (out@.len() < i && l.rest().len() == 0),
            out@.len() <= i,
            l.pulls() == p0 + out@.len(),
        decreases k - i,
    {
        match l.next() {
            Some(x) => {
                out.push(x);
                assert(views(out@) + l.rest() =~= all);
            },
            None => {},
        }
        i += 1;
    }
    proof {
        let n = if k <= all.len() { k as int } else { all.len() as int };
        assert(views(out@).len() == n);
        assert(views(out@) =~= all.take(n));
        assert(l.rest() =~= all.skip(n));
    }
    out
}

/// A count kept both exactly, as a ghost, and at run time, saturating at
/// `usize::MAX`.
struct Tally {
    drawn: usize,
    count: Ghost<nat>,
}

impl Tally {
    #[verifier::type_invariant]
    spec fn inv(self) -> bool {
        self.drawn as nat == if self.count@ < usize::MAX { self.count@ } else {
            usize::MAX as nat
        }
    }

    closed spec fn count(&self) -> nat {
        self.count@
    }

    fn zero() -> (r: Self)
        ensures
            r.count() == 0,
    {
        Tally { drawn: 0, count: Ghost(0) }
    }

    fn bump(&mut self)
        ensures
            final(self).count() == old(self).count() + 1,
    {
        proof {
            use_type_invariant(&*self);
        }
        let d = if self.drawn < usize::MAX {
            self.drawn + 1
        } else {
            self.drawn
        };
        *self = Tally { drawn: d, count: Ghost(self.count@ + 1) };
    }

    fn get(&self) -> (r: usize)
        ensures
            r == if self.count() < usize::MAX { self.count() } else { usize::MAX as nat },
    {
        proof {
            use_type_invariant(self);
        }
        self.drawn
    }
}

/// A lazy sequence that counts how many elements were drawn from the one it
/// wraps. The count kept at run time saturates at `usize::MAX`.
pub struct Counted<L> {
    inner: L,
    tally: Tally,
}

impl<L: Lazy> Counted<L> {
    /// The wrapped sequence.
    pub closed spec fn source(&self) -> L {
        self.inner
    }

    /// Wraps `inner`, with nothing drawn yet.
    pub fn new(inner: L) -> (r: Self)
        ensures
            r.source() == inner,
            r.pulls() == 0,
            r.rest() == inner.rest(),
    {
        Counted { inner, tally: Tally::zero() }
    }

    /// How many elements were drawn so far, saturating at `usize::MAX`.
    pub fn drawn(&self) -> (r: usize)
        ensures
            r == if self.pulls() < usize::MAX { self.pulls() } else { usize::MAX as nat },
    {
        self.tally.get()
    }
}

impl<L: Lazy> Lazy for Counted<L> {
    type Item = L::Item;

    open spec fn rest(&self) -> Seq<<L::Item as View>::V> {
        self.source().rest()
    }

    closed spec fn pulls(&self) -> nat {
        self.tally.count()
    }

    fn next(&mut self) -> (r: Option<L::Item>) {
        let r = self.inner.next();
        if r.is_some() {
            self.tally.bump();
        }
        r
    }
}

impl<L: Lazy> View for Counted<L> {
    type V = Seq<<L::Item as View>::V>;

    open spec fn view(&self) -> Self::V {
        self.rest()
    }
}

} // verus!
