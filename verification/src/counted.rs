//! A part of a composite callable, together with the number of times the
//! composite has called it. The count can only grow by calling the part, so
//! the composites can state how often each call applies each of its parts.
use vstd::prelude::*;

use crate::consumers::stateful_bi_consumer::StatefulBiConsumer;
use crate::consumers::stateful_consumer::StatefulConsumer;
use crate::functions::stateful_function::StatefulFunction;
use crate::functions::stateful_mutating_function::StatefulMutatingFunction;

verus! {

/// A stateful function or consumer and the number of calls made to it
/// through this wrapper.
pub struct Counted<F> {
    inner: F,
    calls: Ghost<nat>,
}

impl<F> Counted<F> {
    /// The wrapped part.
    pub closed spec fn inner(&self) -> F {
        self.inner
    }

    /// How many times the part has been called through this wrapper.
    pub closed spec fn calls(&self) -> nat {
        self.calls@
    }

    /// Wraps `inner`, not yet called.
    pub fn new(inner: F) -> (res: Self)
        ensures
            res.inner() == inner,
            res.calls() == 0,
    {
        Counted { inner, calls: Ghost(0) }
    }

    /// The wrapped part, to read.
    pub fn get(&self) -> (res: &F)
        ensures
            *res == self.inner(),
    {
        &self.inner
    }

    /// A copy of this wrapper around `inner`, an equal copy of its part,
    /// with the same count.
    pub fn with_copy(&self, inner: F) -> (res: Self)
        requires
            inner == self.inner(),
        ensures
            res == *self,
    {
        Counted { inner, calls: Ghost(self.calls@) }
    }

    /// Applies the wrapped function once.
    pub fn apply<T, R>(&mut self, t: &T) -> (r: R)
        where
            F: StatefulFunction<T, R>,
        requires
            old(self).inner().accepts(*t),
        ensures
            old(self).inner().produces(*t, r),
            final(self).calls() == old(self).calls() + 1,
            forall|x: T| #[trigger] final(self).inner().accepts(x) == old(self).inner().accepts(x),
            forall|x: T, y: R| #[trigger] final(self).inner().produces(x, y) == old(self).inner().produces(x, y),
    {
        let r = self.inner.apply(t);
        self.calls = Ghost(self.calls@ + 1);
        r
    }

    /// Lets the wrapped consumer accept `t` once.
    pub fn accept<T>(&mut self, t: &T)
        where
            F: StatefulConsumer<T>,
        requires
            old(self).inner().accepts(*t),
        ensures
            old(self).inner().performs(*t),
            final(self).calls() == old(self).calls() + 1,
            forall|x: T| #[trigger] final(self).inner().accepts(x) == old(self).inner().accepts(x),
            forall|x: T| #[trigger] final(self).inner().performs(x) == old(self).inner().performs(x),
    {
        self.inner.accept(t);
        self.calls = Ghost(self.calls@ + 1);
    }
}

/// A stateful mutating function and the number of calls made to it through
/// this wrapper.
pub struct CountedMut<F> {
    inner: F,
    calls: Ghost<nat>,
}

impl<F> CountedMut<F> {
    /// The wrapped function.
    pub closed spec fn inner(&self) -> F {
        self.inner
    }

    /// How many times the function has been called through this wrapper.
    pub closed spec fn calls(&self) -> nat {
        self.calls@
    }

    /// Wraps `inner`, not yet called.
    pub fn new(inner: F) -> (res: Self)
        ensures
            res.inner() == inner,
            res.calls() == 0,
    {
        CountedMut { inner, calls: Ghost(0) }
    }

    /// Applies the wrapped function once.
    pub fn apply<T, R>(&mut self, t: &mut T) -> (r: R)
        where
            F: StatefulMutatingFunction<T, R>,
        requires
            old(self).inner().accepts(*old(t)),
        ensures
            exists|m: &mut T|
                mut_ref_current(m) == *old(t) && mut_ref_future(m) == *final(t) && #[trigger] old(self).inner().produces(
                    m,
                    r,
                ),
            final(self).calls() == old(self).calls() + 1,
            forall|x: T| #[trigger] final(self).inner().accepts(x) == old(self).inner().accepts(x),
            forall|x: &mut T, y: R| #[trigger] final(self).inner().produces(x, y) == old(self).inner().produces(x, y),
    {
        let ghost f0 = self.inner;
        let r = self.inner.apply(t);
        proof {
            assert(exists|m: &mut T|
                mut_ref_current(m) == *old(t) && mut_ref_future(m) == *t && #[trigger] f0.produces(m, r));
            assert(*t == *final(t));
        }
        self.calls = Ghost(self.calls@ + 1);
        r
    }
}

/// A stateful consumer of two values and the number of calls made to it
/// through this wrapper.
pub struct CountedBi<F> {
    inner: F,
    calls: Ghost<nat>,
}

impl<F> CountedBi<F> {
    /// The wrapped consumer.
    pub closed spec fn inner(&self) -> F {
        self.inner
    }

    /// How many times the consumer has been called through this wrapper.
    pub closed spec fn calls(&self) -> nat {
        self.calls@
    }

    /// Wraps `inner`, not yet called.
    pub fn new(inner: F) -> (res: Self)
        ensures
            res.inner() == inner,
            res.calls() == 0,
    {
        CountedBi { inner, calls: Ghost(0) }
    }

    /// The wrapped part, to read.
    pub fn get(&self) -> (res: &F)
        ensures
            *res == self.inner(),
    {
        &self.inner
    }

    /// A copy of this wrapper around `inner`, an equal copy of its part,
    /// with the same count.
    pub fn with_copy(&self, inner: F) -> (res: Self)
        requires
            inner == self.inner(),
        ensures
            res == *self,
    {
        CountedBi { inner, calls: Ghost(self.calls@) }
    }

    /// Lets the wrapped consumer accept `t` and `u` once.
    pub fn accept<T, U>(&mut self, t: &T, u: &U)
        where
            F: StatefulBiConsumer<T, U>,
        requires
            old(self).inner().accepts(*t, *u),
        ensures
            old(self).inner().performs(*t, *u),
            final(self).calls() == old(self).calls() + 1,
            forall|x: T, y: U| #[trigger] final(self).inner().accepts(x, y) == old(self).inner().accepts(x, y),
            forall|x: T, y: U| #[trigger] final(self).inner().performs(x, y) == old(self).inner().performs(x, y),
    {
        self.inner.accept(t, u);
        self.calls = Ghost(self.calls@ + 1);
    }
}

} // verus!
