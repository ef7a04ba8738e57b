//! Consumers called at most once (`FnOnce(&T)`).
use vstd::prelude::*;

use crate::callable::CallOnce1;
use crate::consumers::noop::Noop;
use crate::names::{name_str, name_view, owned_name};
use crate::predicates::{BoxPredicate, Predicate};

verus! {

/// A consumer of a `&T` value that can be called once.
///
/// `accepts(t)` is what a caller must establish before `accept(&t)`;
/// `performs(t)` is what holds once `accept(&t)` has returned.
pub trait ConsumerOnce<T> {
    spec fn accepts(&self, t: T) -> bool;

    spec fn performs(&self, t: T) -> bool;

    fn accept(self, value: &T)
        where
            Self: Sized,
        requires
            self.accepts(*value),
        ensures
            self.performs(*value),
    ;

    /// Moves this consumer into a [`BoxConsumerOnce`] that calls it.
    fn into_box(self) -> (res: BoxConsumerOnce<T>)
        where
            Self: Sized + 'static,
            T: 'static,
        ensures
            forall|t: T| self.accepts(t) ==> #[trigger] res.accepts(t),
            forall|t: T| #[trigger] res.performs(t) ==> self.performs(t),
    {
        let f = move |t: &T|
            requires
                self.accepts(*t),
            ensures
                self.performs(*t),
        {
            self.accept(t)
        };
        BoxConsumerOnce::new(f)
    }

    /// A [`BoxConsumerOnce`] that calls a clone of this consumer.
    fn to_box(&self) -> (res: BoxConsumerOnce<T>)
        where
            Self: Clone + 'static,
            T: 'static,
        ensures
            exists|c: Self|
                cloned::<Self>(*self, c) && (forall|t: T| c.accepts(t) ==> #[trigger] res.accepts(t))
                    && (forall|t: T| #[trigger] res.performs(t) ==> c.performs(t)),
    {
        let c = self.clone();
        let res = c.into_box();
        assert(cloned::<Self>(*self, c));
        res
    }
}

impl<T, F: FnOnce(&T)> ConsumerOnce<T> for F {
    open spec fn accepts(&self, t: T) -> bool {
        call_requires(*self, (&t,))
    }

    open spec fn performs(&self, t: T) -> bool {
        call_ensures(*self, (&t,), ())
    }

    fn accept(self, value: &T) {
        self(value)
    }

    fn into_box(self) -> (res: BoxConsumerOnce<T>)
        where
            Self: Sized + 'static,
            T: 'static,
        ensures
            forall|t: T| #[trigger] res.accepts(t) == call_requires(self, (&t,)),
            forall|t: T| #[trigger] res.performs(t) == call_ensures(self, (&t,), ()),
    {
        BoxConsumerOnce::new(self)
    }
}

/// A consumer built by `and_then` runs the first consumer and then the
/// second on the same value: it takes every value that the first accepts and
/// that the second accepts once the first has acted on it, it takes no value
/// that the first does not, and when it has run, both have acted.
pub proof fn law_and_then_runs_first_then_second<T, A, B, AB>(a: A, b: B, ab: AB, t: T)
    where
        A: ConsumerOnce<T>,
        B: ConsumerOnce<T>,
        AB: ConsumerOnce<T>,
    requires
        forall|x: T| #[trigger] ab.accepts(x) == once_both_accepts(a, b, x),
        forall|x: T| #[trigger] ab.performs(x) == once_both_performs(a, b, x),
    ensures
        a.accepts(t) && (a.performs(t) ==> b.accepts(t)) ==> ab.accepts(t),
        ab.accepts(t) ==> a.accepts(t),
        ab.performs(t) ==> a.performs(t) && b.performs(t),
{
}

/// Two single-use consumers in turn on the same value: defined at `t` when
/// `first` is, and `second` is once `first` has done its part.
pub open spec fn once_both_accepts<T, C: ConsumerOnce<T>, D: ConsumerOnce<T>>(first: C, second: D, t: T) -> bool {
    &&& first.accepts(t)
    &&& first.performs(t) ==> second.accepts(t)
}

/// Two single-use consumers in turn on the same value: both have done their
/// part.
pub open spec fn once_both_performs<T, C: ConsumerOnce<T>, D: ConsumerOnce<T>>(first: C, second: D, t: T) -> bool {
    first.performs(t) && second.performs(t)
}

/// Sequencing single-use consumers is associative: `ab` followed by `c` and `a` followed by `bc`
/// accept the same values and do the same, where `ab` behaves as `a`
/// followed by `b` and `bc` as `b` followed by `c` (as the result of
/// `and_then` does).
pub proof fn law_and_then_associative<T, A, B, C, AB, BC>(a: A, b: B, c: C, ab: AB, bc: BC, t: T)
    where
        A: ConsumerOnce<T>,
        B: ConsumerOnce<T>,
        C: ConsumerOnce<T>,
        AB: ConsumerOnce<T>,
        BC: ConsumerOnce<T>,
    requires
        forall|x: T| #[trigger] ab.accepts(x) == once_both_accepts(a, b, x),
        forall|x: T| #[trigger] ab.performs(x) == once_both_performs(a, b, x),
        forall|x: T| #[trigger] bc.accepts(x) == once_both_accepts(b, c, x),
        forall|x: T| #[trigger] bc.performs(x) == once_both_performs(b, c, x),
    ensures
        once_both_accepts(ab, c, t) == once_both_accepts(a, bc, t),
        once_both_performs(ab, c, t) == once_both_performs(a, bc, t),
{
}

/// A single-use consumer that acts only where a predicate holds.
pub open spec fn once_guarded_accepts<T, P: Predicate<T>, C: ConsumerOnce<T>>(p: P, c: C, t: T) -> bool {
    &&& p.accepts(t)
    &&& forall|b: bool| #[trigger] p.produces(t, b) ==> (b ==> c.accepts(t))
}

/// A single-use consumer that acts only where a predicate holds: some answer
/// of the predicate was given, and the consumer did its part if it was `true`.
pub open spec fn once_guarded_performs<T, P: Predicate<T>, C: ConsumerOnce<T>>(p: P, c: C, t: T) -> bool {
    exists|b: bool| #[trigger] p.produces(t, b) && (b ==> c.performs(t))
}

/// A choice between two single-use consumers by a predicate.
pub open spec fn once_choice_accepts<T, P: Predicate<T>, C: ConsumerOnce<T>, E: ConsumerOnce<T>>(
    p: P,
    c: C,
    e: E,
    t: T,
) -> bool {
    &&& p.accepts(t)
    &&& forall|b: bool| #[trigger] p.produces(t, b) ==> if b {
        c.accepts(t)
    } else {
        e.accepts(t)
    }
}

/// A choice between two single-use consumers by a predicate: some answer of
/// the predicate was given, and the consumer it selects did its part.
pub open spec fn once_choice_performs<T, P: Predicate<T>, C: ConsumerOnce<T>, E: ConsumerOnce<T>>(
    p: P,
    c: C,
    e: E,
    t: T,
) -> bool {
    exists|b: bool| #[trigger] p.produces(t, b) && if b {
        c.performs(t)
    } else {
        e.performs(t)
    }
}

/// A single-use consumer in a box.
#[verifier::reject_recursive_types(T)]
pub struct BoxConsumerOnce<T> {
    function: Box<dyn CallOnce1<T, ()>>,
    name: Option<String>,
}

impl<T> BoxConsumerOnce<T> {
    pub closed spec fn accepts(&self, t: T) -> bool {
        self.function.pre(t)
    }

    pub closed spec fn performs(&self, t: T) -> bool {
        self.function.post(t, ())
    }

    pub closed spec fn spec_name(&self) -> Option<Seq<char>> {
        name_view(self.name)
    }

    pub(crate) fn from_call_once<C: CallOnce1<T, ()> + 'static>(c: C, name: Option<String>) -> (res: Self)
        ensures
            forall|t: T| #[trigger] res.accepts(t) == c.pre(t),
            forall|t: T| #[trigger] res.performs(t) == c.post(t, ()),
            res.spec_name() == name_view(name),
    {
        let function: Box<dyn CallOnce1<T, ()>> = Box::new(c);
        assert(forall|t: T| #[trigger] function.pre(t) == c.pre(t));
        assert(forall|t: T| #[trigger] function.post(t, ()) == c.post(t, ()));
        BoxConsumerOnce { function, name }
    }

    /// Wraps the closure `f`.
    pub fn new<F>(f: F) -> (res: Self)
        where
            F: FnOnce(&T) + 'static,
        ensures
            forall|t: T| #[trigger] res.accepts(t) == call_requires(f, (&t,)),
            forall|t: T| #[trigger] res.performs(t) == call_ensures(f, (&t,), ()),
            res.spec_name() is None,
    {
        Self::from_call_once(f, None)
    }

    /// Wraps the closure `f` under the name `name`.
    pub fn new_with_name<F>(name: &str, f: F) -> (res: Self)
        where
            F: FnOnce(&T) + 'static,
        ensures
            forall|t: T| #[trigger] res.accepts(t) == call_requires(f, (&t,)),
            forall|t: T| #[trigger] res.performs(t) == call_ensures(f, (&t,), ()),
            res.spec_name() == Some(name@),
    {
        Self::from_call_once(f, owned_name(name))
    }

    /// Wraps the closure `f` under the name `name`, if there is one.
    pub fn new_with_optional_name<F>(f: F, name: Option<String>) -> (res: Self)
        where
            F: FnOnce(&T) + 'static,
        ensures
            forall|t: T| #[trigger] res.accepts(t) == call_requires(f, (&t,)),
            forall|t: T| #[trigger] res.performs(t) == call_ensures(f, (&t,), ()),
            res.spec_name() == name_view(name),
    {
        Self::from_call_once(f, name)
    }

    /// A consumer that does nothing.
    pub fn noop() -> (res: Self)
        ensures
            forall|t: T| #[trigger] res.accepts(t),
            forall|t: T| #[trigger] res.performs(t),
            res.spec_name() is None,
    {
        Self::from_call_once(Noop, None)
    }

    /// The name of this consumer, if it has one.
    pub fn name(&self) -> (res: Option<&str>)
        ensures
            match res {
                Some(s) => self.spec_name() == Some(s@),
                None => self.spec_name() is None,
            },
    {
        name_str(&self.name)
    }

    /// Gives this consumer the name `name`; its behaviour stays the same.
    pub fn set_name(&mut self, name: &str)
        ensures
            final(self).spec_name() == Some(name@),
            forall|t: T| #[trigger] final(self).accepts(t) == old(self).accepts(t),
            forall|t: T| #[trigger] final(self).performs(t) == old(self).performs(t),
    {
        self.name = owned_name(name);
    }

    /// Restricts this consumer to the values on which `predicate` holds.
    pub fn when<P>(self, predicate: P) -> (res: BoxConditionalConsumerOnce<T>)
        where
            P: Predicate<T> + 'static,
            T: 'static,
        ensures
            res.consumer() == self,
            forall|t: T| predicate.accepts(t) ==> #[trigger] res.predicate().accepts(t),
            forall|t: T, b: bool| #[trigger] res.predicate().produces(t, b) ==> predicate.produces(t, b),
    {
        BoxConditionalConsumerOnce { consumer: self, predicate: predicate.into_box() }
    }

    /// This consumer followed by `after`, on the same value.
    pub fn and_then<C>(self, after: C) -> (res: BoxConsumerOnce<T>)
        where
            C: ConsumerOnce<T> + 'static,
            T: 'static,
        ensures
            forall|t: T| #[trigger] res.accepts(t) == once_both_accepts(self, after, t),
            forall|t: T| #[trigger] res.performs(t) == once_both_performs(self, after, t),
            res.spec_name() is None,
    {
        BoxConsumerOnce::from_call_once(BothOnce { first: self, second: after }, None)
    }

    /// This consumer as a plain closure.
    pub fn into_fn(self) -> (res: impl FnOnce(&T))
        ensures
            forall|t: T| self.accepts(t) ==> call_requires(res, (&t,)),
            forall|t: T| call_ensures(res, (&t,), ()) ==> self.performs(t),
    {
        move |t: &T|
            requires
                self.accepts(*t),
            ensures
                self.performs(*t),
        {
            self.function.call_once(t)
        }
    }
}

impl<T> ConsumerOnce<T> for BoxConsumerOnce<T> {
    open spec fn accepts(&self, t: T) -> bool {
        BoxConsumerOnce::accepts(self, t)
    }

    open spec fn performs(&self, t: T) -> bool {
        BoxConsumerOnce::performs(self, t)
    }

    fn accept(self, value: &T) {
        self.function.call_once(value)
    }

    fn into_box(self) -> (res: BoxConsumerOnce<T>)
        where
            Self: Sized + 'static,
            T: 'static,
    {
        self
    }
}

/// Sequencing for plain single-use closures.
pub trait FnConsumerOnceOps<T>: FnOnce(&T) + Sized {
    /// This closure followed by `next`, on the same value.
    fn and_then<C>(self, next: C) -> (res: BoxConsumerOnce<T>)
        where
            Self: 'static,
            C: ConsumerOnce<T> + 'static,
            T: 'static,
        ensures
            forall|t: T| #[trigger] res.accepts(t) == once_both_accepts(self, next, t),
            forall|t: T| #[trigger] res.performs(t) == once_both_performs(self, next, t),
    {
        BoxConsumerOnce::from_call_once(BothOnce { first: self, second: next }, None)
    }
}

impl<T, F: FnOnce(&T)> FnConsumerOnceOps<T> for F {

}

/// A [`BoxConsumerOnce`] that acts only on the values that a predicate
/// accepts.
#[verifier::reject_recursive_types(T)]
pub struct BoxConditionalConsumerOnce<T> {
    consumer: BoxConsumerOnce<T>,
    predicate: BoxPredicate<T>,
}

impl<T: 'static> BoxConditionalConsumerOnce<T> {
    pub closed spec fn consumer(&self) -> BoxConsumerOnce<T> {
        self.consumer
    }

    pub closed spec fn predicate(&self) -> BoxPredicate<T> {
        self.predicate
    }

    /// This conditional consumer followed by `next`, which acts on every
    /// value.
    pub fn and_then<C>(self, next: C) -> (res: BoxConsumerOnce<T>)
        where
            C: ConsumerOnce<T> + 'static,
        ensures
            forall|t: T| #[trigger] res.accepts(t) == once_both_accepts(self, next, t),
            forall|t: T| #[trigger] res.performs(t) == once_both_performs(self, next, t),
            res.spec_name() is None,
    {
        BoxConsumerOnce::from_call_once(BothOnce { first: self, second: next }, None)
    }

    /// The consumer that runs the guarded consumer where the predicate
    /// holds and `else_consumer` elsewhere.
    pub fn or_else<C>(self, else_consumer: C) -> (res: BoxConsumerOnce<T>)
        where
            C: ConsumerOnce<T> + 'static,
        ensures
            forall|t: T| #[trigger] res.accepts(t) == once_choice_accepts(self.predicate(), self.consumer(), else_consumer, t),
            forall|t: T| #[trigger] res.performs(t) == once_choice_performs(self.predicate(), self.consumer(), else_consumer, t),
            res.spec_name() is None,
    {
        BoxConsumerOnce::from_call_once(
            ChooseOnce { predicate: self.predicate, on_true: self.consumer, on_false: else_consumer },
            None,
        )
    }
}

impl<T: 'static> ConsumerOnce<T> for BoxConditionalConsumerOnce<T> {
    open spec fn accepts(&self, t: T) -> bool {
        once_guarded_accepts(self.predicate(), self.consumer(), t)
    }

    open spec fn performs(&self, t: T) -> bool {
        once_guarded_performs(self.predicate(), self.consumer(), t)
    }

    fn accept(self, value: &T) {
        if self.predicate.test(value) {
            self.consumer.accept(value);
        }
    }

    fn into_box(self) -> (res: BoxConsumerOnce<T>)
        where
            Self: Sized + 'static,
            T: 'static,
        ensures
            forall|t: T| #[trigger] res.accepts(t) == self.accepts(t),
            forall|t: T| #[trigger] res.performs(t) == self.performs(t),
            res.spec_name() is None,
    {
        BoxConsumerOnce::from_call_once(self, None)
    }
}

impl<T: 'static> CallOnce1<T, ()> for BoxConditionalConsumerOnce<T> {
    closed spec fn pre(&self, t: T) -> bool {
        self.accepts(t)
    }

    closed spec fn post(&self, t: T, r: ()) -> bool {
        self.performs(t)
    }

    fn call_once(self: Box<Self>, t: &T) {
        let c = *self;
        c.accept(t)
    }
}

impl<T: 'static> BoxConditionalConsumerOnce<T> {
    /// This conditional consumer as a plain closure.
    pub fn into_fn(self) -> (res: impl FnOnce(&T))
        ensures
            forall|t: T| self.accepts(t) ==> call_requires(res, (&t,)),
            forall|t: T| call_ensures(res, (&t,), ()) ==> self.performs(t),
    {
        move |t: &T|
            requires
                self.accepts(*t),
            ensures
                self.performs(*t),
        {
            self.accept(t)
        }
    }
}

/// Runs `first`, then `second`, on the same value; each at most once.
struct BothOnce<C, D> {
    first: C,
    second: D,
}

impl<T, C: ConsumerOnce<T>, D: ConsumerOnce<T>> CallOnce1<T, ()> for BothOnce<C, D> {
    closed spec fn pre(&self, t: T) -> bool {
        once_both_accepts(self.first, self.second, t)
    }

    closed spec fn post(&self, t: T, r: ()) -> bool {
        once_both_performs(self.first, self.second, t)
    }

    fn call_once(self: Box<Self>, t: &T) {
        let BothOnce { first, second } = *self;
        first.accept(t);
        second.accept(t);
    }
}

/// Runs `on_true` or `on_false` on the value, as `predicate` selects.
struct ChooseOnce<P, C, E> {
    predicate: P,
    on_true: C,
    on_false: E,
}

impl<T, P: Predicate<T>, C: ConsumerOnce<T>, E: ConsumerOnce<T>> CallOnce1<T, ()> for ChooseOnce<P, C, E> {
    closed spec fn pre(&self, t: T) -> bool {
        once_choice_accepts(self.predicate, self.on_true, self.on_false, t)
    }

    closed spec fn post(&self, t: T, r: ()) -> bool {
        once_choice_performs(self.predicate, self.on_true, self.on_false, t)
    }

    fn call_once(self: Box<Self>, t: &T) {
        let ChooseOnce { predicate, on_true, on_false } = *self;
        if predicate.test(t) {
            on_true.accept(t);
        } else {
            on_false.accept(t);
        }
    }
}

} // verus!
