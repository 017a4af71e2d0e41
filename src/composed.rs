//! A pipeline stage: a whole-sequence function applied under a uniform,
//! chainable call.
use vstd::prelude::*;
use crate::lazy::Lazy;

verus! {

/// The sequence that a pipeline function made from its source. It adds no
/// laziness, state or buffering of its own: each pull is a pull of that
/// sequence.
pub struct ComposedIterator<L> {
    iter: L,
}

impl<L: Lazy> ComposedIterator<L> {
    /// The sequence that the pipeline function returned.
    pub closed spec fn inner(&self) -> L {
        self.iter
    }

    /// Applies `init_fn` to `iter`, once, here.
    pub fn new<I, F: FnOnce(I) -> L>(iter: I, init_fn: F) -> (r: Self)
        requires
            init_fn.requires((iter,)),
        ensures
            init_fn.ensures((iter,), r.inner()),
            r.rest() == r.inner().rest(),
            r.pulls() == r.inner().pulls(),
    {
        ComposedIterator { iter: init_fn(iter) }
    }

    /// The sequence that the pipeline function returned, for inspection.
    pub fn get_inner(&self) -> (r: &L)
        ensures
            *r == self.inner(),
    {
        &self.iter
    }
}

impl<L: Lazy> Lazy for ComposedIterator<L> {
    type Item = L::Item;

    open spec fn rest(&self) -> Seq<<L::Item as View>::V> {
        self.inner().rest()
    }

    open spec fn pulls(&self) -> nat {
        self.inner().pulls()
    }

    /// Pulls the inner sequence once.
    fn next(&mut self) -> (r: Option<L::Item>) {
        self.iter.next()
    }
}

impl<L: Lazy> View for ComposedIterator<L> {
    type V = Seq<<L::Item as View>::V>;

    open spec fn view(&self) -> Self::V {
        self.rest()
    }
}

/// Lets any value be the source of a pipeline stage.
pub trait ComposedIterable: Sized {
    /// Hands `self` to the pipeline function `init_fn` and wraps what it
    /// returns, so that stages chain with one call syntax.
    fn composed<L: Lazy, F: FnOnce(Self) -> L>(self, init_fn: F) -> (r: ComposedIterator<L>)
        requires
            init_fn.requires((self,)),
        ensures
            init_fn.ensures((self,), r.inner()),
            r.rest() == r.inner().rest(),
    ;
}

impl<I> ComposedIterable for I {
    fn composed<L: Lazy, F: FnOnce(I) -> L>(self, init_fn: F) -> (r: ComposedIterator<L>) {
        ComposedIterator::new(self, init_fn)
    }
}

} // verus!
