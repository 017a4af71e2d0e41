//! A lazy sequence made from an initializer and a step, with no type of its
//! own to write for each use.
use vstd::prelude::*;
use std::marker::PhantomData;
use crate::lazy::Lazy;

verus! {

/// A step: the behaviour of an [`AnonymousIterator`] on each pull. It reads
/// and advances the adapter's context and returns the next element, if any.
///
/// `rest` says what the steps still yield from a context: each step yields
/// its first element, or nothing once none is left, after which the context
/// stays exhausted. As for [`Lazy`], the model is finite. `pulls` counts the
/// elements that steps have yielded from a context so far.
pub trait Step<C, Out: View> {
    /// The views of the elements that stepping `c` still yields, in order.
    spec fn rest(&self, c: &C) -> Seq<Out::V>;

    /// How many elements steps have yielded from `c` so far.
    spec fn pulls(&self, c: &C) -> nat;

    /// Produces the next element from the context `c`, advancing it.
    fn step(&self, c: &mut C) -> (r: Option<Out>)
        ensures
            self.rest(old(c)).len() == 0 ==> r is None && self.rest(final(c)) == self.rest(old(c)),
            self.rest(old(c)).len() > 0 ==> r is Some && r->0@ == self.rest(old(c))[0]
                && self.rest(final(c)) == self.rest(old(c)).drop_first(),
            self.pulls(final(c)) == self.pulls(old(c)) + if r is Some { 1nat } else { 0nat },
    ;
}

/// The step that pulls the next element of a context that is itself a lazy
/// sequence.
pub struct Pull;

impl<C: Lazy> Step<C, C::Item> for Pull {
    open spec fn rest(&self, c: &C) -> Seq<<C::Item as View>::V> {
        c.rest()
    }

    open spec fn pulls(&self, c: &C) -> nat {
        c.pulls()
    }

    fn step(&self, c: &mut C) -> (r: Option<C::Item>) {
        c.next()
    }
}

/// A lazy sequence driven by a context and a step. The context is made once,
/// from the source, by the initializer handed to [`AnonymousIterator::new`];
/// every pull then calls the step once on it.
pub struct AnonymousIterator<C, S, Out> {
    next_fn: S,
    context: C,
    out: PhantomData<Out>,
}

impl<C, Out: View, S: Step<C, Out>> AnonymousIterator<C, S, Out> {
    /// The context that each pull steps.
    pub closed spec fn context(&self) -> C {
        self.context
    }

    /// The step called on each pull.
    pub closed spec fn step_fn(&self) -> S {
        self.next_fn
    }

    /// Makes the context from `iter` with `init_fn`, called once, here, and
    /// steps it with `next_fn` on each pull.
    pub fn new<I, F: FnOnce(I) -> C>(iter: I, init_fn: F, next_fn: S) -> (r: Self)
        requires
            init_fn.requires((iter,)),
        ensures
            init_fn.ensures((iter,), r.context()),
            r.step_fn() == next_fn,
            r.rest() == next_fn.rest(&r.context()),
            r.pulls() == next_fn.pulls(&r.context()),
    {
        AnonymousIterator { next_fn, context: init_fn(iter), out: PhantomData }
    }

    /// The context, for inspection.
    pub fn get_context(&self) -> (r: &C)
        ensures
            *r == self.context(),
    {
        &self.context
    }
}

impl<C, Out: View, S: Step<C, Out>> Lazy for AnonymousIterator<C, S, Out> {
    type Item = Out;

    open spec fn rest(&self) -> Seq<Out::V> {
        self.step_fn().rest(&self.context())
    }

    open spec fn pulls(&self) -> nat {
        self.step_fn().pulls(&self.context())
    }

    /// Calls the step once on the context: the step is kept, and the context
    /// is left as that one call leaves it, which the step's own contract
    /// describes through its `rest` and `pulls`.
    fn next(&mut self) -> (r: Option<Out>)
        ensures
            final(self).step_fn() == old(self).step_fn(),
            old(self).step_fn().rest(&old(self).context()).len() > 0 ==> old(self).step_fn().rest(
                &final(self).context(),
            ) == old(self).step_fn().rest(&old(self).context()).drop_first(),
            old(self).step_fn().pulls(&final(self).context()) == old(self).step_fn().pulls(
                &old(self).context(),
            ) + if r is Some { 1nat } else { 0nat },
    {
        self.next_fn.step(&mut self.context)
    }
}

impl<C, Out: View, S: Step<C, Out>> View for AnonymousIterator<C, S, Out> {
    type V = Seq<Out::V>;

    open spec fn view(&self) -> Self::V {
        self.rest()
    }
}

/// Lets any value be the source of an [`AnonymousIterator`].
pub trait AnonymouslyIterable: Sized {
    /// Makes the context of an anonymous lazy sequence from `self` with
    /// `init_fn` and steps it with `next_fn`. Much like a scan, except that
    /// the state may depend on the whole source.
    fn anonymous<C, Out: View, S: Step<C, Out>, F: FnOnce(Self) -> C>(
        self,
        init_fn: F,
        next_fn: S,
    ) -> (r: AnonymousIterator<C, S, Out>)
        requires
            init_fn.requires((self,)),
        ensures
            init_fn.ensures((self,), r.context()),
            r.step_fn() == next_fn,
            r.rest() == next_fn.rest(&r.context()),
    ;
}

impl<I> AnonymouslyIterable for I {
    fn anonymous<C, Out: View, S: Step<C, Out>, F: FnOnce(I) -> C>(
        self,
        init_fn: F,
        next_fn: S,
    ) -> (r: AnonymousIterator<C, S, Out>) {
        AnonymousIterator::new(self, init_fn, next_fn)
    }
}

} // verus!
