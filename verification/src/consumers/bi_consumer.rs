//! Consumers that borrow two values and act on them (`Fn(&T, &U)`), in
//! boxed, `Rc` and `Arc` flavours, with conditional variants.
use std::rc::Rc;
use std::sync::Arc;
use vstd::prelude::*;

use crate::callable::{Call2, CallOnce2, SyncCall2};
use crate::consumers::bi_consumer_once::BoxBiConsumerOnce;
use crate::consumers::noop::Noop;
use crate::names::{clone_name, name_str, name_view, owned_name};
use crate::predicates::{ArcBiPredicate, BoxBiPredicate, BiPredicate, RcBiPredicate};

verus! {

/// A consumer of pairs of `&T` and `&U` values.
///
/// `accepts(t, u)` is what a caller must establish before `accept(&t, &u)`;
/// `performs(t, u)` is what holds once `accept(&t, &u)` has returned.
pub trait BiConsumer<T, U> {
    spec fn accepts(&self, t: T, u: U) -> bool;

    spec fn performs(&self, t: T, u: U) -> bool;

    fn accept(&self, first: &T, second: &U)
        requires
            self.accepts(*first, *second),
        ensures
            self.performs(*first, *second),
    ;

    /// Moves this consumer into a [`BoxBiConsumer`] that calls it.
    fn into_box(self) -> (res: BoxBiConsumer<T, U>)
        where
            Self: Sized + 'static,
            T: 'static,
            U: 'static,
        ensures
            forall|t: T, u: U| self.accepts(t, u) ==> #[trigger] res.accepts(t, u),
            forall|t: T, u: U| #[trigger] res.performs(t, u) ==> self.performs(t, u),
    {
        let f = move |t: &T, u: &U|
            requires
                self.accepts(*t, *u),
            ensures
                self.performs(*t, *u),
        {
            self.accept(t, u)
        };
        BoxBiConsumer::new(f)
    }

    /// Moves this consumer into an [`RcBiConsumer`] that calls it.
    fn into_rc(self) -> (res: RcBiConsumer<T, U>)
        where
            Self: Sized + 'static,
            T: 'static,
            U: 'static,
        ensures
            forall|t: T, u: U| self.accepts(t, u) ==> #[trigger] res.accepts(t, u),
            forall|t: T, u: U| #[trigger] res.performs(t, u) ==> self.performs(t, u),
    {
        let f = move |t: &T, u: &U|
            requires
                self.accepts(*t, *u),
            ensures
                self.performs(*t, *u),
        {
            self.accept(t, u)
        };
        RcBiConsumer::new(f)
    }

    /// Moves this consumer into an [`ArcBiConsumer`] that calls it.
    fn into_arc(self) -> (res: ArcBiConsumer<T, U>)
        where
            Self: Sized + Send + Sync + 'static,
            T: 'static,
            U: 'static,
        ensures
            forall|t: T, u: U| self.accepts(t, u) ==> #[trigger] res.accepts(t, u),
            forall|t: T, u: U| #[trigger] res.performs(t, u) ==> self.performs(t, u),
    {
        let f = move |t: &T, u: &U|
            requires
                self.accepts(*t, *u),
            ensures
                self.performs(*t, *u),
        {
            self.accept(t, u)
        };
        ArcBiConsumer::new(f)
    }

    /// Moves this consumer into a [`BoxBiConsumerOnce`] that calls it.
    fn into_once(self) -> (res: BoxBiConsumerOnce<T, U>)
        where
            Self: Sized + 'static,
            T: 'static,
            U: 'static,
        ensures
            forall|t: T, u: U| self.accepts(t, u) ==> #[trigger] res.accepts(t, u),
            forall|t: T, u: U| #[trigger] res.performs(t, u) ==> self.performs(t, u),
    {
        let f = move |t: &T, u: &U|
            requires
                self.accepts(*t, *u),
            ensures
                self.performs(*t, *u),
        {
            self.accept(t, u)
        };
        BoxBiConsumerOnce::new(f)
    }

    /// A [`BoxBiConsumer`] that calls a clone of this consumer.
    fn to_box(&self) -> (res: BoxBiConsumer<T, U>)
        where
            Self: Clone + 'static,
            T: 'static,
            U: 'static,
        ensures
            exists|c: Self|
                cloned::<Self>(*self, c) && (forall|t: T, u: U| c.accepts(t, u) ==> #[trigger] res.accepts(t, u))
                    && (forall|t: T, u: U| #[trigger] res.performs(t, u) ==> c.performs(t, u)),
    {
        let c = self.clone();
        let res = c.into_box();
        assert(cloned::<Self>(*self, c));
        res
    }

    /// An [`RcBiConsumer`] that calls a clone of this consumer.
    fn to_rc(&self) -> (res: RcBiConsumer<T, U>)
        where
            Self: Clone + 'static,
            T: 'static,
            U: 'static,
        ensures
            exists|c: Self|
                cloned::<Self>(*self, c) && (forall|t: T, u: U| c.accepts(t, u) ==> #[trigger] res.accepts(t, u))
                    && (forall|t: T, u: U| #[trigger] res.performs(t, u) ==> c.performs(t, u)),
    {
        let c = self.clone();
        let res = c.into_rc();
        assert(cloned::<Self>(*self, c));
        res
    }

    /// An [`ArcBiConsumer`] that calls a clone of this consumer.
    fn to_arc(&self) -> (res: ArcBiConsumer<T, U>)
        where
            Self: Clone + Send + Sync + 'static,
            T: 'static,
            U: 'static,
        ensures
            exists|c: Self|
                cloned::<Self>(*self, c) && (forall|t: T, u: U| c.accepts(t, u) ==> #[trigger] res.accepts(t, u))
                    && (forall|t: T, u: U| #[trigger] res.performs(t, u) ==> c.performs(t, u)),
    {
        let c = self.clone();
        let res = c.into_arc();
        assert(cloned::<Self>(*self, c));
        res
    }

    /// A [`BoxBiConsumerOnce`] that calls a clone of this consumer.
    fn to_once(&self) -> (res: BoxBiConsumerOnce<T, U>)
        where
            Self: Clone + 'static,
            T: 'static,
            U: 'static,
        ensures
            exists|c: Self|
                cloned::<Self>(*self, c) && (forall|t: T, u: U| c.accepts(t, u) ==> #[trigger] res.accepts(t, u))
                    && (forall|t: T, u: U| #[trigger] res.performs(t, u) ==> c.performs(t, u)),
    {
        let c = self.clone();
        let res = c.into_once();
        assert(cloned::<Self>(*self, c));
        res
    }
}

impl<T, U, F: Fn(&T, &U)> BiConsumer<T, U> for F {
    open spec fn accepts(&self, t: T, u: U) -> bool {
        call_requires(*self, (&t, &u))
    }

    open spec fn performs(&self, t: T, u: U) -> bool {
        call_ensures(*self, (&t, &u), ())
    }

    fn accept(&self, first: &T, second: &U) {
        (self)(first, second)
    }
}

/// A consumer in a box: single ownership.
#[verifier::reject_recursive_types(T)]
#[verifier::reject_recursive_types(U)]
pub struct BoxBiConsumer<T, U> {
    function: Box<dyn Call2<T, U, ()>>,
    name: Option<String>,
}

impl<T, U> BoxBiConsumer<T, U> {
    pub closed spec fn accepts(&self, t: T, u: U) -> bool {
        self.function.pre(t, u)
    }

    pub closed spec fn performs(&self, t: T, u: U) -> bool {
        self.function.post(t, u, ())
    }

    pub closed spec fn spec_name(&self) -> Option<Seq<char>> {
        name_view(self.name)
    }

    pub(crate) fn from_call<C: Call2<T, U, ()> + 'static>(c: C, name: Option<String>) -> (res: Self)
        ensures
            forall|t: T, u: U| #[trigger] res.accepts(t, u) == c.pre(t, u),
            forall|t: T, u: U| #[trigger] res.performs(t, u) == c.post(t, u, ()),
            res.spec_name() == name_view(name),
    {
        let function: Box<dyn Call2<T, U, ()>> = Box::new(c);
        assert(forall|t: T, u: U| #[trigger] function.pre(t, u) == c.pre(t, u));
        assert(forall|t: T, u: U| #[trigger] function.post(t, u, ()) == c.post(t, u, ()));
        BoxBiConsumer { function, name }
    }

    /// Wraps the closure `f`.
    pub fn new<F>(f: F) -> (res: Self)
        where
            F: Fn(&T, &U) + 'static,
        ensures
            forall|t: T, u: U| #[trigger] res.accepts(t, u) == call_requires(f, (&t, &u)),
            forall|t: T, u: U| #[trigger] res.performs(t, u) == call_ensures(f, (&t, &u), ()),
            res.spec_name() is None,
    {
        Self::from_call(f, None)
    }

    /// Wraps the closure `f` under the name `name`.
    pub fn new_with_name<F>(name: &str, f: F) -> (res: Self)
        where
            F: Fn(&T, &U) + 'static,
        ensures
            forall|t: T, u: U| #[trigger] res.accepts(t, u) == call_requires(f, (&t, &u)),
            forall|t: T, u: U| #[trigger] res.performs(t, u) == call_ensures(f, (&t, &u), ()),
            res.spec_name() == Some(name@),
    {
        Self::from_call(f, owned_name(name))
    }

    /// Wraps the closure `f` under the name `name`, if there is one.
    pub fn new_with_optional_name<F>(f: F, name: Option<String>) -> (res: Self)
        where
            F: Fn(&T, &U) + 'static,
        ensures
            forall|t: T, u: U| #[trigger] res.accepts(t, u) == call_requires(f, (&t, &u)),
            forall|t: T, u: U| #[trigger] res.performs(t, u) == call_ensures(f, (&t, &u), ()),
            res.spec_name() == name_view(name),
    {
        Self::from_call(f, name)
    }

    /// A consumer that does nothing.
    pub fn noop() -> (res: Self)
        ensures
            forall|t: T, u: U| #[trigger] res.accepts(t, u),
            forall|t: T, u: U| #[trigger] res.performs(t, u),
            res.spec_name() is None,
    {
        Self::from_call(Noop, None)
    }

    /// The name of this consumer, if it has one.
    pub fn name(&self) -> (res: Option<&str>)
        ensures
            match res {
                Some(s) => self.spec_name() == Some(s@),
                None => self.spec_name() is None,
            },
    {
        name_str(&self.name)
    }

    /// Gives this consumer the name `name`; its behaviour stays the same.
    pub fn set_name(&mut self, name: &str)
        ensures
            final(self).spec_name() == Some(name@),
            forall|t: T, u: U| #[trigger] final(self).accepts(t, u) == old(self).accepts(t, u),
            forall|t: T, u: U| #[trigger] final(self).performs(t, u) == old(self).performs(t, u),
    {
        self.name = owned_name(name);
    }

    /// Restricts this consumer to the values on which `predicate` holds.
    pub fn when<P>(self, predicate: P) -> (res: BoxConditionalBiConsumer<T, U>)
        where
            P: BiPredicate<T, U> + 'static,
            T: 'static,
            U: 'static,
        ensures
            res.consumer() == self,
            forall|t: T, u: U| predicate.accepts(t, u) ==> #[trigger] res.predicate().accepts(t, u),
            forall|t: T, u: U, b: bool| #[trigger] res.predicate().produces(t, u, b) ==> predicate.produces(t, u, b),
    {
        BoxConditionalBiConsumer { consumer: self, predicate: predicate.into_box() }
    }

    /// This consumer followed by `after`, on the same value.
    pub fn and_then<C>(self, after: C) -> (res: BoxBiConsumer<T, U>)
        where
            C: BiConsumer<T, U> + 'static,
            T: 'static,
            U: 'static,
        ensures
            forall|t: T, u: U| #[trigger] res.accepts(t, u) == both_accepts(self, after, t, u),
            forall|t: T, u: U| #[trigger] res.performs(t, u) == both_performs(self, after, t, u),
            res.spec_name() is None,
    {
        BoxBiConsumer::from_call(Both { first: self, second: after }, None)
    }

    /// This consumer as a plain closure.
    pub fn into_fn(self) -> (res: impl Fn(&T, &U))
        ensures
            forall|t: T, u: U| self.accepts(t, u) ==> call_requires(res, (&t, &u)),
            forall|t: T, u: U| call_ensures(res, (&t, &u), ()) ==> self.performs(t, u),
    {
        move |t: &T, u: &U|
            requires
                self.accepts(*t, *u),
            ensures
                self.performs(*t, *u),
        {
            self.function.call(t, u)
        }
    }
}

impl<T, U> CallOnce2<T, U, ()> for BoxBiConsumer<T, U> {
    closed spec fn pre(&self, t: T, u: U) -> bool {
        self.accepts(t, u)
    }

    closed spec fn post(&self, t: T, u: U, r: ()) -> bool {
        self.performs(t, u)
    }

    fn call_once(self: Box<Self>, t: &T, u: &U) {
        self.function.call(t, u)
    }
}

impl<T, U> BiConsumer<T, U> for BoxBiConsumer<T, U> {
    open spec fn accepts(&self, t: T, u: U) -> bool {
        BoxBiConsumer::accepts(self, t, u)
    }

    open spec fn performs(&self, t: T, u: U) -> bool {
        BoxBiConsumer::performs(self, t, u)
    }

    fn accept(&self, first: &T, second: &U) {
        self.function.call(first, second)
    }

    fn into_box(self) -> (res: BoxBiConsumer<T, U>)
        where
            Self: Sized + 'static,
            T: 'static,
            U: 'static,
    {
        self
    }

    fn into_rc(self) -> (res: RcBiConsumer<T, U>)
        where
            Self: Sized + 'static,
            T: 'static,
            U: 'static,
        ensures
            forall|t: T, u: U| #[trigger] res.accepts(t, u) == self.accepts(t, u),
            forall|t: T, u: U| #[trigger] res.performs(t, u) == self.performs(t, u),
            res.spec_name() == self.spec_name(),
    {
        RcBiConsumer { function: Rc::new(self.function), name: self.name }
    }

    fn into_once(self) -> (res: BoxBiConsumerOnce<T, U>)
        where
            Self: Sized + 'static,
            T: 'static,
            U: 'static,
        ensures
            forall|t: T, u: U| #[trigger] res.accepts(t, u) == self.accepts(t, u),
            forall|t: T, u: U| #[trigger] res.performs(t, u) == self.performs(t, u),
            res.spec_name() == self.spec_name(),
    {
        let name = clone_name(&self.name);
        BoxBiConsumerOnce::from_call_once(self, name)
    }
}

/// A [`BoxBiConsumer`] that acts only on the values that a predicate accepts.
#[verifier::reject_recursive_types(T)]
#[verifier::reject_recursive_types(U)]
pub struct BoxConditionalBiConsumer<T, U> {
    consumer: BoxBiConsumer<T, U>,
    predicate: BoxBiPredicate<T, U>,
}

impl<T: 'static, U: 'static> BoxConditionalBiConsumer<T, U> {
    pub closed spec fn consumer(&self) -> BoxBiConsumer<T, U> {
        self.consumer
    }

    pub closed spec fn predicate(&self) -> BoxBiPredicate<T, U> {
        self.predicate
    }

    /// This conditional consumer followed by `next`, which acts on every value.
    pub fn and_then<C>(self, next: C) -> (res: BoxBiConsumer<T, U>)
        where
            C: BiConsumer<T, U> + 'static,
        ensures
            forall|t: T, u: U| #[trigger] res.accepts(t, u) == both_accepts(self, next, t, u),
            forall|t: T, u: U| #[trigger] res.performs(t, u) == both_performs(self, next, t, u),
            res.spec_name() is None,
    {
        BoxBiConsumer::from_call(Both { first: self, second: next }, None)
    }

    /// The consumer that runs the guarded consumer where the predicate
    /// holds and `else_consumer` elsewhere.
    pub fn or_else<C>(self, else_consumer: C) -> (res: BoxBiConsumer<T, U>)
        where
            C: BiConsumer<T, U> + 'static,
        ensures
            forall|t: T, u: U| #[trigger] res.accepts(t, u) == choice_accepts(self.predicate(), self.consumer(), else_consumer, t, u),
            forall|t: T, u: U| #[trigger] res.performs(t, u) == choice_performs(self.predicate(), self.consumer(), else_consumer, t, u),
            res.spec_name() is None,
    {
        BoxBiConsumer::from_call(
            Choose {
                predicate: self.predicate,
                on_true: self.consumer,
                on_false: else_consumer,
            },
            None,
        )
    }
}

impl<T: 'static, U: 'static> BiConsumer<T, U> for BoxConditionalBiConsumer<T, U> {
    open spec fn accepts(&self, t: T, u: U) -> bool {
        guarded_accepts(self.predicate(), self.consumer(), t, u)
    }

    open spec fn performs(&self, t: T, u: U) -> bool {
        guarded_performs(self.predicate(), self.consumer(), t, u)
    }

    fn accept(&self, first: &T, second: &U) {
        if self.predicate.test(first, second) {
            self.consumer.accept(first, second);
        }
    }
}

/// A consumer behind an `Rc`: shared, single-threaded.
#[verifier::reject_recursive_types(T)]
#[verifier::reject_recursive_types(U)]
pub struct RcBiConsumer<T, U> {
    function: Rc<Box<dyn Call2<T, U, ()>>>,
    name: Option<String>,
}

impl<T, U> RcBiConsumer<T, U> {
    pub closed spec fn accepts(&self, t: T, u: U) -> bool {
        self.function.pre(t, u)
    }

    pub closed spec fn performs(&self, t: T, u: U) -> bool {
        self.function.post(t, u, ())
    }

    pub closed spec fn spec_name(&self) -> Option<Seq<char>> {
        name_view(self.name)
    }

    pub(crate) fn from_call<C: Call2<T, U, ()> + 'static>(c: C, name: Option<String>) -> (res: Self)
        ensures
            forall|t: T, u: U| #[trigger] res.accepts(t, u) == c.pre(t, u),
            forall|t: T, u: U| #[trigger] res.performs(t, u) == c.post(t, u, ()),
            res.spec_name() == name_view(name),
    {
        let function: Box<dyn Call2<T, U, ()>> = Box::new(c);
        assert(forall|t: T, u: U| #[trigger] function.pre(t, u) == c.pre(t, u));
        assert(forall|t: T, u: U| #[trigger] function.post(t, u, ()) == c.post(t, u, ()));
        RcBiConsumer { function: Rc::new(function), name }
    }

    /// Wraps the closure `f`.
    pub fn new<F>(f: F) -> (res: Self)
        where
            F: Fn(&T, &U) + 'static,
        ensures
            forall|t: T, u: U| #[trigger] res.accepts(t, u) == call_requires(f, (&t, &u)),
            forall|t: T, u: U| #[trigger] res.performs(t, u) == call_ensures(f, (&t, &u), ()),
            res.spec_name() is None,
    {
        Self::from_call(f, None)
    }

    /// Wraps the closure `f` under the name `name`.
    pub fn new_with_name<F>(name: &str, f: F) -> (res: Self)
        where
            F: Fn(&T, &U) + 'static,
        ensures
            forall|t: T, u: U| #[trigger] res.accepts(t, u) == call_requires(f, (&t, &u)),
            forall|t: T, u: U| #[trigger] res.performs(t, u) == call_ensures(f, (&t, &u), ()),
            res.spec_name() == Some(name@),
    {
        Self::from_call(f, owned_name(name))
    }

    /// Wraps the closure `f` under the name `name`, if there is one.
    pub fn new_with_optional_name<F>(f: F, name: Option<String>) -> (res: Self)
        where
            F: Fn(&T, &U) + 'static,
        ensures
            forall|t: T, u: U| #[trigger] res.accepts(t, u) == call_requires(f, (&t, &u)),
            forall|t: T, u: U| #[trigger] res.performs(t, u) == call_ensures(f, (&t, &u), ()),
            res.spec_name() == name_view(name),
    {
        Self::from_call(f, name)
    }

    /// A consumer that does nothing.
    pub fn noop() -> (res: Self)
        ensures
            forall|t: T, u: U| #[trigger] res.accepts(t, u),
            forall|t: T, u: U| #[trigger] res.performs(t, u),
            res.spec_name() is None,
    {
        Self::from_call(Noop, None)
    }

    /// The name of this consumer, if it has one.
    pub fn name(&self) -> (res: Option<&str>)
        ensures
            match res {
                Some(s) => self.spec_name() == Some(s@),
                None => self.spec_name() is None,
            },
    {
        name_str(&self.name)
    }

    /// Gives this consumer the name `name`; its behaviour stays the same.
    pub fn set_name(&mut self, name: &str)
        ensures
            final(self).spec_name() == Some(name@),
            forall|t: T, u: U| #[trigger] final(self).accepts(t, u) == old(self).accepts(t, u),
            forall|t: T, u: U| #[trigger] final(self).performs(t, u) == old(self).performs(t, u),
    {
        self.name = owned_name(name);
    }

    /// Restricts a copy of this consumer to the values on which `predicate` holds.
    pub fn when<P>(&self, predicate: P) -> (res: RcConditionalBiConsumer<T, U>)
        where
            P: BiPredicate<T, U> + 'static,
            T: 'static,
            U: 'static,
        ensures
            res.consumer() == *self,
            forall|t: T, u: U| predicate.accepts(t, u) ==> #[trigger] res.predicate().accepts(t, u),
            forall|t: T, u: U, b: bool| #[trigger] res.predicate().produces(t, u, b) ==> predicate.produces(t, u, b),
    {
        RcConditionalBiConsumer { consumer: self.duplicate(), predicate: predicate.into_rc() }
    }

    /// A copy of this consumer followed by `after`, on the same value.
    pub fn and_then<C>(&self, after: C) -> (res: RcBiConsumer<T, U>)
        where
            C: BiConsumer<T, U> + 'static,
            T: 'static,
            U: 'static,
        ensures
            forall|t: T, u: U| #[trigger] res.accepts(t, u) == both_accepts(*self, after, t, u),
            forall|t: T, u: U| #[trigger] res.performs(t, u) == both_performs(*self, after, t, u),
            res.spec_name() is None,
    {
        RcBiConsumer::from_call(Both { first: self.duplicate(), second: after }, None)
    }

    /// This consumer as a plain closure.
    pub fn into_fn(self) -> (res: impl Fn(&T, &U))
        ensures
            forall|t: T, u: U| self.accepts(t, u) ==> call_requires(res, (&t, &u)),
            forall|t: T, u: U| call_ensures(res, (&t, &u), ()) ==> self.performs(t, u),
    {
        move |t: &T, u: &U|
            requires
                self.accepts(*t, *u),
            ensures
                self.performs(*t, *u),
        {
            self.function.call(t, u)
        }
    }

    /// A closure that calls a clone of this consumer, which stays usable.
    pub fn to_fn(&self) -> (res: impl Fn(&T, &U))
        ensures
            forall|t: T, u: U| self.accepts(t, u) ==> call_requires(res, (&t, &u)),
            forall|t: T, u: U| call_ensures(res, (&t, &u), ()) ==> self.performs(t, u),
    {
        self.duplicate().into_fn()
    }
}

impl<T, U> RcBiConsumer<T, U> {
    fn duplicate(&self) -> (res: Self)
        ensures
            res == *self,
    {
        RcBiConsumer { function: self.function.clone(), name: clone_name(&self.name) }
    }
}

impl<T, U> Clone for RcBiConsumer<T, U> {
    fn clone(&self) -> (res: Self)
        ensures
            res == *self,
    {
        self.duplicate()
    }
}

impl<T, U> Call2<T, U, ()> for RcBiConsumer<T, U> {
    closed spec fn pre(&self, t: T, u: U) -> bool {
        self.accepts(t, u)
    }

    closed spec fn post(&self, t: T, u: U, r: ()) -> bool {
        self.performs(t, u)
    }

    fn call(&self, t: &T, u: &U) {
        self.function.call(t, u)
    }
}

impl<T, U> CallOnce2<T, U, ()> for RcBiConsumer<T, U> {
    closed spec fn pre(&self, t: T, u: U) -> bool {
        self.accepts(t, u)
    }

    closed spec fn post(&self, t: T, u: U, r: ()) -> bool {
        self.performs(t, u)
    }

    fn call_once(self: Box<Self>, t: &T, u: &U) {
        self.function.call(t, u)
    }
}

impl<T, U> BiConsumer<T, U> for RcBiConsumer<T, U> {
    open spec fn accepts(&self, t: T, u: U) -> bool {
        RcBiConsumer::accepts(self, t, u)
    }

    open spec fn performs(&self, t: T, u: U) -> bool {
        RcBiConsumer::performs(self, t, u)
    }

    fn accept(&self, first: &T, second: &U) {
        self.function.call(first, second)
    }

    fn into_box(self) -> (res: BoxBiConsumer<T, U>)
        where
            Self: Sized + 'static,
            T: 'static,
            U: 'static,
        ensures
            forall|t: T, u: U| #[trigger] res.accepts(t, u) == self.accepts(t, u),
            forall|t: T, u: U| #[trigger] res.performs(t, u) == self.performs(t, u),
            res.spec_name() == self.spec_name(),
    {
        let name = clone_name(&self.name);
        BoxBiConsumer::from_call(self, name)
    }

    fn into_rc(self) -> (res: RcBiConsumer<T, U>)
        where
            Self: Sized + 'static,
            T: 'static,
            U: 'static,
    {
        self
    }

    fn into_once(self) -> (res: BoxBiConsumerOnce<T, U>)
        where
            Self: Sized + 'static,
            T: 'static,
            U: 'static,
        ensures
            forall|t: T, u: U| #[trigger] res.accepts(t, u) == self.accepts(t, u),
            forall|t: T, u: U| #[trigger] res.performs(t, u) == self.performs(t, u),
            res.spec_name() == self.spec_name(),
    {
        let name = clone_name(&self.name);
        BoxBiConsumerOnce::from_call_once(self, name)
    }

    fn to_box(&self) -> (res: BoxBiConsumer<T, U>)
        where
            Self: Clone + 'static,
            T: 'static,
            U: 'static,
        ensures
            forall|t: T, u: U| #[trigger] res.accepts(t, u) == self.accepts(t, u),
            forall|t: T, u: U| #[trigger] res.performs(t, u) == self.performs(t, u),
            res.spec_name() == self.spec_name(),
    {
        let res = BoxBiConsumer::from_call(self.duplicate(), clone_name(&self.name));
        assert(cloned::<Self>(*self, *self));
        res
    }

    fn to_rc(&self) -> (res: RcBiConsumer<T, U>)
        where
            Self: Clone + 'static,
            T: 'static,
            U: 'static,
        ensures
            res == *self,
    {
        let res = self.duplicate();
        assert(cloned::<Self>(*self, *self));
        res
    }

    fn to_once(&self) -> (res: BoxBiConsumerOnce<T, U>)
        where
            Self: Clone + 'static,
            T: 'static,
            U: 'static,
        ensures
            forall|t: T, u: U| #[trigger] res.accepts(t, u) == self.accepts(t, u),
            forall|t: T, u: U| #[trigger] res.performs(t, u) == self.performs(t, u),
            res.spec_name() == self.spec_name(),
    {
        let res = BoxBiConsumerOnce::from_call_once(self.duplicate(), clone_name(&self.name));
        assert(cloned::<Self>(*self, *self));
        res
    }
}

/// A [`RcBiConsumer`] that acts only on the values that a predicate accepts.
#[verifier::reject_recursive_types(T)]
#[verifier::reject_recursive_types(U)]
pub struct RcConditionalBiConsumer<T, U> {
    consumer: RcBiConsumer<T, U>,
    predicate: RcBiPredicate<T, U>,
}

impl<T: 'static, U: 'static> RcConditionalBiConsumer<T, U> {
    pub closed spec fn consumer(&self) -> RcBiConsumer<T, U> {
        self.consumer
    }

    pub closed spec fn predicate(&self) -> RcBiPredicate<T, U> {
        self.predicate
    }

    /// A copy of this conditional consumer followed by `next`, which acts on every value.
    pub fn and_then<C>(&self, next: C) -> (res: RcBiConsumer<T, U>)
        where
            C: BiConsumer<T, U> + 'static,
        ensures
            forall|t: T, u: U| #[trigger] res.accepts(t, u) == both_accepts(*self, next, t, u),
            forall|t: T, u: U| #[trigger] res.performs(t, u) == both_performs(*self, next, t, u),
            res.spec_name() is None,
    {
        RcBiConsumer::from_call(Both { first: self.duplicate(), second: next }, None)
    }

    /// The consumer that runs the guarded consumer where the predicate
    /// holds and `else_consumer` elsewhere.
    pub fn or_else<C>(&self, else_consumer: C) -> (res: RcBiConsumer<T, U>)
        where
            C: BiConsumer<T, U> + 'static,
        ensures
            forall|t: T, u: U| #[trigger] res.accepts(t, u) == choice_accepts(self.predicate(), self.consumer(), else_consumer, t, u),
            forall|t: T, u: U| #[trigger] res.performs(t, u) == choice_performs(self.predicate(), self.consumer(), else_consumer, t, u),
            res.spec_name() is None,
    {
        RcBiConsumer::from_call(
            Choose {
                predicate: self.predicate.clone(),
                on_true: self.consumer.clone(),
                on_false: else_consumer,
            },
            None,
        )
    }
}

impl<T, U> RcConditionalBiConsumer<T, U> {
    fn duplicate(&self) -> (res: Self)
        ensures
            res == *self,
    {
        RcConditionalBiConsumer { consumer: self.consumer.clone(), predicate: self.predicate.clone() }
    }
}

impl<T, U> Clone for RcConditionalBiConsumer<T, U> {
    fn clone(&self) -> (res: Self)
        ensures
            res == *self,
    {
        self.duplicate()
    }
}

impl<T: 'static, U: 'static> BiConsumer<T, U> for RcConditionalBiConsumer<T, U> {
    open spec fn accepts(&self, t: T, u: U) -> bool {
        guarded_accepts(self.predicate(), self.consumer(), t, u)
    }

    open spec fn performs(&self, t: T, u: U) -> bool {
        guarded_performs(self.predicate(), self.consumer(), t, u)
    }

    fn accept(&self, first: &T, second: &U) {
        if self.predicate.test(first, second) {
            self.consumer.accept(first, second);
        }
    }
}

/// A consumer behind an `Arc`: shared, thread-safe.
#[verifier::reject_recursive_types(T)]
#[verifier::reject_recursive_types(U)]
pub struct ArcBiConsumer<T, U> {
    function: Arc<Box<dyn SyncCall2<T, U, ()>>>,
    name: Option<String>,
}

impl<T, U> ArcBiConsumer<T, U> {
    pub closed spec fn accepts(&self, t: T, u: U) -> bool {
        self.function.sync_pre(t, u)
    }

    pub closed spec fn performs(&self, t: T, u: U) -> bool {
        self.function.sync_post(t, u, ())
    }

    pub closed spec fn spec_name(&self) -> Option<Seq<char>> {
        name_view(self.name)
    }

    pub(crate) fn from_call<C: Call2<T, U, ()> + Send + Sync + 'static>(c: C, name: Option<String>) -> (res: Self)
        ensures
            forall|t: T, u: U| #[trigger] res.accepts(t, u) == c.pre(t, u),
            forall|t: T, u: U| #[trigger] res.performs(t, u) == c.post(t, u, ()),
            res.spec_name() == name_view(name),
    {
        assert(forall|t: T, u: U| #[trigger] SyncCall2::<T, U, ()>::sync_pre(&c, t, u) == c.pre(t, u));
        assert(forall|t: T, u: U| #[trigger] SyncCall2::<T, U, ()>::sync_post(&c, t, u, ()) == c.post(t, u, ()));
        let function: Box<dyn SyncCall2<T, U, ()>> = Box::new(c);
        assert(forall|t: T, u: U| #[trigger] function.sync_pre(t, u) == c.pre(t, u));
        assert(forall|t: T, u: U| #[trigger] function.sync_post(t, u, ()) == c.post(t, u, ()));
        ArcBiConsumer { function: Arc::new(function), name }
    }

    /// Wraps the closure `f`.
    pub fn new<F>(f: F) -> (res: Self)
        where
            F: Fn(&T, &U) + Send + Sync + 'static,
        ensures
            forall|t: T, u: U| #[trigger] res.accepts(t, u) == call_requires(f, (&t, &u)),
            forall|t: T, u: U| #[trigger] res.performs(t, u) == call_ensures(f, (&t, &u), ()),
            res.spec_name() is None,
    {
        Self::from_call(f, None)
    }

    /// Wraps the closure `f` under the name `name`.
    pub fn new_with_name<F>(name: &str, f: F) -> (res: Self)
        where
            F: Fn(&T, &U) + Send + Sync + 'static,
        ensures
            forall|t: T, u: U| #[trigger] res.accepts(t, u) == call_requires(f, (&t, &u)),
            forall|t: T, u: U| #[trigger] res.performs(t, u) == call_ensures(f, (&t, &u), ()),
            res.spec_name() == Some(name@),
    {
        Self::from_call(f, owned_name(name))
    }

    /// Wraps the closure `f` under the name `name`, if there is one.
    pub fn new_with_optional_name<F>(f: F, name: Option<String>) -> (res: Self)
        where
            F: Fn(&T, &U) + Send + Sync + 'static,
        ensures
            forall|t: T, u: U| #[trigger] res.accepts(t, u) == call_requires(f, (&t, &u)),
            forall|t: T, u: U| #[trigger] res.performs(t, u) == call_ensures(f, (&t, &u), ()),
            res.spec_name() == name_view(name),
    {
        Self::from_call(f, name)
    }

    /// A consumer that does nothing.
    pub fn noop() -> (res: Self)
        ensures
            forall|t: T, u: U| #[trigger] res.accepts(t, u),
            forall|t: T, u: U| #[trigger] res.performs(t, u),
            res.spec_name() is None,
    {
        Self::from_call(Noop, None)
    }

    /// The name of this consumer, if it has one.
    pub fn name(&self) -> (res: Option<&str>)
        ensures
            match res {
                Some(s) => self.spec_name() == Some(s@),
                None => self.spec_name() is None,
            },
    {
        name_str(&self.name)
    }

    /// Gives this consumer the name `name`; its behaviour stays the same.
    pub fn set_name(&mut self, name: &str)
        ensures
            final(self).spec_name() == Some(name@),
            forall|t: T, u: U| #[trigger] final(self).accepts(t, u) == old(self).accepts(t, u),
            forall|t: T, u: U| #[trigger] final(self).performs(t, u) == old(self).performs(t, u),
    {
        self.name = owned_name(name);
    }

    /// Restricts a copy of this consumer to the values on which `predicate` holds.
    pub fn when<P>(&self, predicate: P) -> (res: ArcConditionalBiConsumer<T, U>)
        where
            P: BiPredicate<T, U> + Send + Sync + 'static,
            T: 'static,
            U: 'static,
        ensures
            res.consumer() == *self,
            forall|t: T, u: U| predicate.accepts(t, u) ==> #[trigger] res.predicate().accepts(t, u),
            forall|t: T, u: U, b: bool| #[trigger] res.predicate().produces(t, u, b) ==> predicate.produces(t, u, b),
    {
        ArcConditionalBiConsumer { consumer: self.duplicate(), predicate: predicate.into_arc() }
    }

    /// A copy of this consumer followed by `after`, on the same value.
    pub fn and_then<C>(&self, after: C) -> (res: ArcBiConsumer<T, U>)
        where
            C: BiConsumer<T, U> + Send + Sync + 'static,
            T: 'static,
            U: 'static,
        ensures
            forall|t: T, u: U| #[trigger] res.accepts(t, u) == both_accepts(*self, after, t, u),
            forall|t: T, u: U| #[trigger] res.performs(t, u) == both_performs(*self, after, t, u),
            res.spec_name() is None,
    {
        ArcBiConsumer::from_call(Both { first: self.duplicate(), second: after }, None)
    }

    /// This consumer as a plain closure.
    pub fn into_fn(self) -> (res: impl Fn(&T, &U))
        ensures
            forall|t: T, u: U| self.accepts(t, u) ==> call_requires(res, (&t, &u)),
            forall|t: T, u: U| call_ensures(res, (&t, &u), ()) ==> self.performs(t, u),
    {
        move |t: &T, u: &U|
            requires
                self.accepts(*t, *u),
            ensures
                self.performs(*t, *u),
        {
            self.function.sync_call(t, u)
        }
    }

    /// A closure that calls a clone of this consumer, which stays usable.
    pub fn to_fn(&self) -> (res: impl Fn(&T, &U))
        ensures
            forall|t: T, u: U| self.accepts(t, u) ==> call_requires(res, (&t, &u)),
            forall|t: T, u: U| call_ensures(res, (&t, &u), ()) ==> self.performs(t, u),
    {
        self.duplicate().into_fn()
    }
}

impl<T, U> ArcBiConsumer<T, U> {
    fn duplicate(&self) -> (res: Self)
        ensures
            res == *self,
    {
        ArcBiConsumer { function: self.function.clone(), name: clone_name(&self.name) }
    }
}

impl<T, U> Clone for ArcBiConsumer<T, U> {
    fn clone(&self) -> (res: Self)
        ensures
            res == *self,
    {
        self.duplicate()
    }
}

impl<T, U> Call2<T, U, ()> for ArcBiConsumer<T, U> {
    closed spec fn pre(&self, t: T, u: U) -> bool {
        self.accepts(t, u)
    }

    closed spec fn post(&self, t: T, u: U, r: ()) -> bool {
        self.performs(t, u)
    }

    fn call(&self, t: &T, u: &U) {
        self.function.sync_call(t, u)
    }
}

impl<T, U> CallOnce2<T, U, ()> for ArcBiConsumer<T, U> {
    closed spec fn pre(&self, t: T, u: U) -> bool {
        self.accepts(t, u)
    }

    closed spec fn post(&self, t: T, u: U, r: ()) -> bool {
        self.performs(t, u)
    }

    fn call_once(self: Box<Self>, t: &T, u: &U) {
        self.function.sync_call(t, u)
    }
}

impl<T, U> BiConsumer<T, U> for ArcBiConsumer<T, U> {
    open spec fn accepts(&self, t: T, u: U) -> bool {
        ArcBiConsumer::accepts(self, t, u)
    }

    open spec fn performs(&self, t: T, u: U) -> bool {
        ArcBiConsumer::performs(self, t, u)
    }

    fn accept(&self, first: &T, second: &U) {
        self.function.sync_call(first, second)
    }

    fn into_box(self) -> (res: BoxBiConsumer<T, U>)
        where
            Self: Sized + 'static,
            T: 'static,
            U: 'static,
        ensures
            forall|t: T, u: U| #[trigger] res.accepts(t, u) == self.accepts(t, u),
            forall|t: T, u: U| #[trigger] res.performs(t, u) == self.performs(t, u),
            res.spec_name() == self.spec_name(),
    {
        let name = clone_name(&self.name);
        BoxBiConsumer::from_call(self, name)
    }

    fn into_rc(self) -> (res: RcBiConsumer<T, U>)
        where
            Self: Sized + 'static,
            T: 'static,
            U: 'static,
        ensures
            forall|t: T, u: U| #[trigger] res.accepts(t, u) == self.accepts(t, u),
            forall|t: T, u: U| #[trigger] res.performs(t, u) == self.performs(t, u),
            res.spec_name() == self.spec_name(),
    {
        let name = clone_name(&self.name);
        RcBiConsumer::from_call(self, name)
    }

    fn into_arc(self) -> (res: ArcBiConsumer<T, U>)
        where
            Self: Sized + Send + Sync + 'static,
            T: 'static,
            U: 'static,
    {
        self
    }

    fn into_once(self) -> (res: BoxBiConsumerOnce<T, U>)
        where
            Self: Sized + 'static,
            T: 'static,
            U: 'static,
        ensures
            forall|t: T, u: U| #[trigger] res.accepts(t, u) == self.accepts(t, u),
            forall|t: T, u: U| #[trigger] res.performs(t, u) == self.performs(t, u),
            res.spec_name() == self.spec_name(),
    {
        let name = clone_name(&self.name);
        BoxBiConsumerOnce::from_call_once(self, name)
    }

    fn to_box(&self) -> (res: BoxBiConsumer<T, U>)
        where
            Self: Clone + 'static,
            T: 'static,
            U: 'static,
        ensures
            forall|t: T, u: U| #[trigger] res.accepts(t, u) == self.accepts(t, u),
            forall|t: T, u: U| #[trigger] res.performs(t, u) == self.performs(t, u),
            res.spec_name() == self.spec_name(),
    {
        let res = BoxBiConsumer::from_call(self.duplicate(), clone_name(&self.name));
        assert(cloned::<Self>(*self, *self));
        res
    }

    fn to_rc(&self) -> (res: RcBiConsumer<T, U>)
        where
            Self: Clone + 'static,
            T: 'static,
            U: 'static,
        ensures
            forall|t: T, u: U| #[trigger] res.accepts(t, u) == self.accepts(t, u),
            forall|t: T, u: U| #[trigger] res.performs(t, u) == self.performs(t, u),
            res.spec_name() == self.spec_name(),
    {
        let res = RcBiConsumer::from_call(self.duplicate(), clone_name(&self.name));
        assert(cloned::<Self>(*self, *self));
        res
    }

    fn to_arc(&self) -> (res: ArcBiConsumer<T, U>)
        where
            Self: Clone + Send + Sync + 'static,
            T: 'static,
            U: 'static,
        ensures
            res == *self,
    {
        let res = self.duplicate();
        assert(cloned::<Self>(*self, *self));
        res
    }

    fn to_once(&self) -> (res: BoxBiConsumerOnce<T, U>)
        where
            Self: Clone + 'static,
            T: 'static,
            U: 'static,
        ensures
            forall|t: T, u: U| #[trigger] res.accepts(t, u) == self.accepts(t, u),
            forall|t: T, u: U| #[trigger] res.performs(t, u) == self.performs(t, u),
            res.spec_name() == self.spec_name(),
    {
        let res = BoxBiConsumerOnce::from_call_once(self.duplicate(), clone_name(&self.name));
        assert(cloned::<Self>(*self, *self));
        res
    }
}

/// A [`ArcBiConsumer`] that acts only on the values that a predicate accepts.
#[verifier::reject_recursive_types(T)]
#[verifier::reject_recursive_types(U)]
pub struct ArcConditionalBiConsumer<T, U> {
    consumer: ArcBiConsumer<T, U>,
    predicate: ArcBiPredicate<T, U>,
}

impl<T: 'static, U: 'static> ArcConditionalBiConsumer<T, U> {
    pub closed spec fn consumer(&self) -> ArcBiConsumer<T, U> {
        self.consumer
    }

    pub closed spec fn predicate(&self) -> ArcBiPredicate<T, U> {
        self.predicate
    }

    /// A copy of this conditional consumer followed by `next`, which acts on every value.
    pub fn and_then<C>(&self, next: C) -> (res: ArcBiConsumer<T, U>)
        where
            C: BiConsumer<T, U> + Send + Sync + 'static,
        ensures
            forall|t: T, u: U| #[trigger] res.accepts(t, u) == both_accepts(*self, next, t, u),
            forall|t: T, u: U| #[trigger] res.performs(t, u) == both_performs(*self, next, t, u),
            res.spec_name() is None,
    {
        ArcBiConsumer::from_call(Both { first: self.duplicate(), second: next }, None)
    }

    /// The consumer that runs the guarded consumer where the predicate
    /// holds and `else_consumer` elsewhere.
    pub fn or_else<C>(&self, else_consumer: C) -> (res: ArcBiConsumer<T, U>)
        where
            C: BiConsumer<T, U> + Send + Sync + 'static,
        ensures
            forall|t: T, u: U| #[trigger] res.accepts(t, u) == choice_accepts(self.predicate(), self.consumer(), else_consumer, t, u),
            forall|t: T, u: U| #[trigger] res.performs(t, u) == choice_performs(self.predicate(), self.consumer(), else_consumer, t, u),
            res.spec_name() is None,
    {
        ArcBiConsumer::from_call(
            Choose {
                predicate: self.predicate.clone(),
                on_true: self.consumer.clone(),
                on_false: else_consumer,
            },
            None,
        )
    }
}

impl<T, U> ArcConditionalBiConsumer<T, U> {
    fn duplicate(&self) -> (res: Self)
        ensures
            res == *self,
    {
        ArcConditionalBiConsumer { consumer: self.consumer.clone(), predicate: self.predicate.clone() }
    }
}

impl<T, U> Clone for ArcConditionalBiConsumer<T, U> {
    fn clone(&self) -> (res: Self)
        ensures
            res == *self,
    {
        self.duplicate()
    }
}

impl<T: 'static, U: 'static> BiConsumer<T, U> for ArcConditionalBiConsumer<T, U> {
    open spec fn accepts(&self, t: T, u: U) -> bool {
        guarded_accepts(self.predicate(), self.consumer(), t, u)
    }

    open spec fn performs(&self, t: T, u: U) -> bool {
        guarded_performs(self.predicate(), self.consumer(), t, u)
    }

    fn accept(&self, first: &T, second: &U) {
        if self.predicate.test(first, second) {
            self.consumer.accept(first, second);
        }
    }
}

/// Sequencing for plain closures.
pub trait FnBiConsumerOps<T, U>: Fn(&T, &U) + Sized {
    /// This closure followed by `next`, on the same value.
    fn and_then<C>(self, next: C) -> (res: BoxBiConsumer<T, U>)
        where
            Self: 'static,
            C: BiConsumer<T, U> + 'static,
            T: 'static,
            U: 'static,
        ensures
            forall|t: T, u: U| #[trigger] res.accepts(t, u) == both_accepts(self, next, t, u),
            forall|t: T, u: U| #[trigger] res.performs(t, u) == both_performs(self, next, t, u),
    {
        BoxBiConsumer::from_call(Both { first: self, second: next }, None)
    }
}

impl<T, U, F: Fn(&T, &U)> FnBiConsumerOps<T, U> for F {

}

/// A consumer built by `and_then` runs the first consumer and then the
/// second on the same pair: it takes every pair that the first accepts and
/// that the second accepts once the first has acted on it, it takes no pair
/// that the first does not, and when it has run, both have acted.
pub proof fn law_and_then_runs_first_then_second<T, U, A, B, AB>(a: A, b: B, ab: AB, t: T, u: U)
    where
        A: BiConsumer<T, U>,
        B: BiConsumer<T, U>,
        AB: BiConsumer<T, U>,
    requires
        forall|x: T, y: U| #[trigger] ab.accepts(x, y) == both_accepts(a, b, x, y),
        forall|x: T, y: U| #[trigger] ab.performs(x, y) == both_performs(a, b, x, y),
    ensures
        a.accepts(t, u) && (a.performs(t, u) ==> b.accepts(t, u)) ==> ab.accepts(t, u),
        ab.accepts(t, u) ==> a.accepts(t, u),
        ab.performs(t, u) ==> a.performs(t, u) && b.performs(t, u),
{
}

/// Two consumers in turn on the same value: defined at `t` when `first` is,
/// and `second` is once `first` has done its part.
pub open spec fn both_accepts<T, U, C: BiConsumer<T, U>, D: BiConsumer<T, U>>(first: C, second: D, t: T, u: U) -> bool {
    &&& first.accepts(t, u)
    &&& first.performs(t, u) ==> second.accepts(t, u)
}

/// Two consumers in turn on the same value: both have done their part.
pub open spec fn both_performs<T, U, C: BiConsumer<T, U>, D: BiConsumer<T, U>>(first: C, second: D, t: T, u: U) -> bool {
    first.performs(t, u) && second.performs(t, u)
}

/// A consumer that acts only where a predicate holds: defined at `t` when
/// the predicate is, and the consumer is wherever the answer may be `true`.
pub open spec fn guarded_accepts<T, U, P: BiPredicate<T, U>, C: BiConsumer<T, U>>(p: P, c: C, t: T, u: U) -> bool {
    &&& p.accepts(t, u)
    &&& forall|b: bool| #[trigger] p.produces(t, u, b) ==> (b ==> c.accepts(t, u))
}

/// A consumer that acts only where a predicate holds: some answer of the
/// predicate was given, and the consumer did its part if it was `true`.
pub open spec fn guarded_performs<T, U, P: BiPredicate<T, U>, C: BiConsumer<T, U>>(p: P, c: C, t: T, u: U) -> bool {
    exists|b: bool| #[trigger] p.produces(t, u, b) && (b ==> c.performs(t, u))
}

/// A choice between two consumers by a predicate: defined at `t` when the
/// predicate is, and the consumer that each possible answer selects is.
pub open spec fn choice_accepts<T, U, P: BiPredicate<T, U>, C: BiConsumer<T, U>, E: BiConsumer<T, U>>(p: P, c: C, e: E, t: T, u: U) -> bool {
    &&& p.accepts(t, u)
    &&& forall|b: bool| #[trigger] p.produces(t, u, b) ==> if b {
        c.accepts(t, u)
    } else {
        e.accepts(t, u)
    }
}

/// A choice between two consumers by a predicate: some answer of the
/// predicate was given, and the consumer it selects did its part.
pub open spec fn choice_performs<T, U, P: BiPredicate<T, U>, C: BiConsumer<T, U>, E: BiConsumer<T, U>>(p: P, c: C, e: E, t: T, u: U) -> bool {
    exists|b: bool| #[trigger] p.produces(t, u, b) && if b {
        c.performs(t, u)
    } else {
        e.performs(t, u)
    }
}


/// Sequencing is associative: `ab` followed by `c` and `a` followed by `bc`
/// accept the same pairs and do the same, where `ab` behaves as `a` followed
/// by `b` and `bc` as `b` followed by `c` (as the result of `and_then` does).
pub proof fn law_and_then_associative<T, U, A, B, C, AB, BC>(a: A, b: B, c: C, ab: AB, bc: BC, t: T, u: U)
    where
        A: BiConsumer<T, U>,
        B: BiConsumer<T, U>,
        C: BiConsumer<T, U>,
        AB: BiConsumer<T, U>,
        BC: BiConsumer<T, U>,
    requires
        forall|x: T, y: U| #[trigger] ab.accepts(x, y) == both_accepts(a, b, x, y),
        forall|x: T, y: U| #[trigger] ab.performs(x, y) == both_performs(a, b, x, y),
        forall|x: T, y: U| #[trigger] bc.accepts(x, y) == both_accepts(b, c, x, y),
        forall|x: T, y: U| #[trigger] bc.performs(x, y) == both_performs(b, c, x, y),
    ensures
        both_accepts(ab, c, t, u) == both_accepts(a, bc, t, u),
        both_performs(ab, c, t, u) == both_performs(a, bc, t, u),
{
}

/// A consumer that accepts every pair and does nothing (such as
/// [`BoxBiConsumer::noop`]) is neutral for sequencing, on either side.
pub proof fn law_noop_neutral<T, U, C, N>(c: C, noop: N, t: T, u: U)
    where
        C: BiConsumer<T, U>,
        N: BiConsumer<T, U>,
    requires
        forall|x: T, y: U| #[trigger] noop.accepts(x, y),
        forall|x: T, y: U| #[trigger] noop.performs(x, y),
    ensures
        both_accepts(c, noop, t, u) == c.accepts(t, u),
        both_performs(c, noop, t, u) == c.performs(t, u),
        both_accepts(noop, c, t, u) == c.accepts(t, u),
        both_performs(noop, c, t, u) == c.performs(t, u),
{
}

/// Runs `first`, then `second`, on the same value.
struct Both<C, D> {
    first: C,
    second: D,
}

impl<T, U, C: BiConsumer<T, U>, D: BiConsumer<T, U>> Call2<T, U, ()> for Both<C, D> {
    closed spec fn pre(&self, t: T, u: U) -> bool {
        both_accepts(self.first, self.second, t, u)
    }

    closed spec fn post(&self, t: T, u: U, r: ()) -> bool {
        both_performs(self.first, self.second, t, u)
    }

    fn call(&self, t: &T, u: &U) {
        self.first.accept(t, u);
        self.second.accept(t, u);
    }
}

/// Runs `on_true` or `on_false` on the value, as `predicate` selects.
struct Choose<P, C, E> {
    predicate: P,
    on_true: C,
    on_false: E,
}

impl<T, U, P: BiPredicate<T, U>, C: BiConsumer<T, U>, E: BiConsumer<T, U>> Call2<T, U, ()> for Choose<P, C, E> {
    closed spec fn pre(&self, t: T, u: U) -> bool {
        choice_accepts(self.predicate, self.on_true, self.on_false, t, u)
    }

    closed spec fn post(&self, t: T, u: U, r: ()) -> bool {
        choice_performs(self.predicate, self.on_true, self.on_false, t, u)
    }

    fn call(&self, t: &T, u: &U) {
        if self.predicate.test(t, u) {
            self.on_true.accept(t, u);
        } else {
            self.on_false.accept(t, u);
        }
    }
}

} // verus!
