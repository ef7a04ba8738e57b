//! Consumers that borrow a value and act on it (`Fn(&T)`), in boxed, `Rc`
//! and `Arc` flavours, with conditional variants.
use std::rc::Rc;
use std::sync::Arc;
use vstd::prelude::*;

use crate::callable::{Call1, CallOnce1, SyncCall1};
use crate::consumers::consumer_once::BoxConsumerOnce;
use crate::consumers::noop::Noop;
use crate::names::{clone_name, name_str, name_view, owned_name};
use crate::predicates::{ArcPredicate, BoxPredicate, Predicate, RcPredicate};

verus! {

/// A consumer of `&T` values.
///
/// `accepts(t)` is what a caller must establish before `accept(&t)`;
/// `performs(t)` is what holds once `accept(&t)` has returned.
pub trait Consumer<T> {
    spec fn accepts(&self, t: T) -> bool;

    spec fn performs(&self, t: T) -> bool;

    fn accept(&self, value: &T)
        requires
            self.accepts(*value),
        ensures
            self.performs(*value),
    ;

    /// Moves this consumer into a [`BoxConsumer`] that calls it.
    fn into_box(self) -> (res: BoxConsumer<T>)
        where
            Self: Sized + 'static,
            T: 'static,
        ensures
            forall|t: T| self.accepts(t) ==> #[trigger] res.accepts(t),
            forall|t: T| #[trigger] res.performs(t) ==> self.performs(t),
    {
        let f = move |t: &T|
            requires
                self.accepts(*t),
            ensures
                self.performs(*t),
        {
            self.accept(t)
        };
        BoxConsumer::new(f)
    }

    /// Moves this consumer into an [`RcConsumer`] that calls it.
    fn into_rc(self) -> (res: RcConsumer<T>)
        where
            Self: Sized + 'static,
            T: 'static,
        ensures
            forall|t: T| self.accepts(t) ==> #[trigger] res.accepts(t),
            forall|t: T| #[trigger] res.performs(t) ==> self.performs(t),
    {
        let f = move |t: &T|
            requires
                self.accepts(*t),
            ensures
                self.performs(*t),
        {
            self.accept(t)
        };
        RcConsumer::new(f)
    }

    /// Moves this consumer into an [`ArcConsumer`] that calls it.
    fn into_arc(self) -> (res: ArcConsumer<T>)
        where
            Self: Sized + Send + Sync + 'static,
            T: 'static,
        ensures
            forall|t: T| self.accepts(t) ==> #[trigger] res.accepts(t),
            forall|t: T| #[trigger] res.performs(t) ==> self.performs(t),
    {
        let f = move |t: &T|
            requires
                self.accepts(*t),
            ensures
                self.performs(*t),
        {
            self.accept(t)
        };
        ArcConsumer::new(f)
    }

    /// Moves this consumer into a [`BoxConsumerOnce`] that calls it.
    fn into_once(self) -> (res: BoxConsumerOnce<T>)
        where
            Self: Sized + 'static,
            T: 'static,
        ensures
            forall|t: T| self.accepts(t) ==> #[trigger] res.accepts(t),
            forall|t: T| #[trigger] res.performs(t) ==> self.performs(t),
    {
        let f = move |t: &T|
            requires
                self.accepts(*t),
            ensures
                self.performs(*t),
        {
            self.accept(t)
        };
        BoxConsumerOnce::new(f)
    }

    /// A [`BoxConsumer`] that calls a clone of this consumer.
    fn to_box(&self) -> (res: BoxConsumer<T>)
        where
            Self: Clone + 'static,
            T: 'static,
        ensures
            exists|c: Self|
                cloned::<Self>(*self, c) && (forall|t: T| c.accepts(t) ==> #[trigger] res.accepts(t))
                    && (forall|t: T| #[trigger] res.performs(t) ==> c.performs(t)),
    {
        let c = self.clone();
        let res = c.into_box();
        assert(cloned::<Self>(*self, c));
        res
    }

    /// An [`RcConsumer`] that calls a clone of this consumer.
    fn to_rc(&self) -> (res: RcConsumer<T>)
        where
            Self: Clone + 'static,
            T: 'static,
        ensures
            exists|c: Self|
                cloned::<Self>(*self, c) && (forall|t: T| c.accepts(t) ==> #[trigger] res.accepts(t))
                    && (forall|t: T| #[trigger] res.performs(t) ==> c.performs(t)),
    {
        let c = self.clone();
        let res = c.into_rc();
        assert(cloned::<Self>(*self, c));
        res
    }

    /// An [`ArcConsumer`] that calls a clone of this consumer.
    fn to_arc(&self) -> (res: ArcConsumer<T>)
        where
            Self: Clone + Send + Sync + 'static,
            T: 'static,
        ensures
            exists|c: Self|
                cloned::<Self>(*self, c) && (forall|t: T| c.accepts(t) ==> #[trigger] res.accepts(t))
                    && (forall|t: T| #[trigger] res.performs(t) ==> c.performs(t)),
    {
        let c = self.clone();
        let res = c.into_arc();
        assert(cloned::<Self>(*self, c));
        res
    }

    /// A [`BoxConsumerOnce`] that calls a clone of this consumer.
    fn to_once(&self) -> (res: BoxConsumerOnce<T>)
        where
            Self: Clone + 'static,
            T: 'static,
        ensures
            exists|c: Self|
                cloned::<Self>(*self, c) && (forall|t: T| c.accepts(t) ==> #[trigger] res.accepts(t))
                    && (forall|t: T| #[trigger] res.performs(t) ==> c.performs(t)),
    {
        let c = self.clone();
        let res = c.into_once();
        assert(cloned::<Self>(*self, c));
        res
    }
}

impl<T, F: Fn(&T)> Consumer<T> for F {
    open spec fn accepts(&self, t: T) -> bool {
        call_requires(*self, (&t,))
    }

    open spec fn performs(&self, t: T) -> bool {
        call_ensures(*self, (&t,), ())
    }

    fn accept(&self, value: &T) {
        (self)(value)
    }
}

/// A consumer in a box: single ownership.
#[verifier::reject_recursive_types(T)]
pub struct BoxConsumer<T> {
    function: Box<dyn Call1<T, ()>>,
    name: Option<String>,
}

impl<T> BoxConsumer<T> {
    pub closed spec fn accepts(&self, t: T) -> bool {
        self.function.pre(t)
    }

    pub closed spec fn performs(&self, t: T) -> bool {
        self.function.post(t, ())
    }

    pub closed spec fn spec_name(&self) -> Option<Seq<char>> {
        name_view(self.name)
    }

    pub(crate) fn from_call<C: Call1<T, ()> + 'static>(c: C, name: Option<String>) -> (res: Self)
        ensures
            forall|t: T| #[trigger] res.accepts(t) == c.pre(t),
            forall|t: T| #[trigger] res.performs(t) == c.post(t, ()),
            res.spec_name() == name_view(name),
    {
        let function: Box<dyn Call1<T, ()>> = Box::new(c);
        assert(forall|t: T| #[trigger] function.pre(t) == c.pre(t));
        assert(forall|t: T| #[trigger] function.post(t, ()) == c.post(t, ()));
        BoxConsumer { function, name }
    }

    /// Wraps the closure `f`.
    pub fn new<F>(f: F) -> (res: Self)
        where
            F: Fn(&T) + 'static,
        ensures
            forall|t: T| #[trigger] res.accepts(t) == call_requires(f, (&t,)),
            forall|t: T| #[trigger] res.performs(t) == call_ensures(f, (&t,), ()),
            res.spec_name() is None,
    {
        Self::from_call(f, None)
    }

    /// Wraps the closure `f` under the name `name`.
    pub fn new_with_name<F>(name: &str, f: F) -> (res: Self)
        where
            F: Fn(&T) + 'static,
        ensures
            forall|t: T| #[trigger] res.accepts(t) == call_requires(f, (&t,)),
            forall|t: T| #[trigger] res.performs(t) == call_ensures(f, (&t,), ()),
            res.spec_name() == Some(name@),
    {
        Self::from_call(f, owned_name(name))
    }

    /// Wraps the closure `f` under the name `name`, if there is one.
    pub fn new_with_optional_name<F>(f: F, name: Option<String>) -> (res: Self)
        where
            F: Fn(&T) + 'static,
        ensures
            forall|t: T| #[trigger] res.accepts(t) == call_requires(f, (&t,)),
            forall|t: T| #[trigger] res.performs(t) == call_ensures(f, (&t,), ()),
            res.spec_name() == name_view(name),
    {
        Self::from_call(f, name)
    }

    /// A consumer that does nothing.
    pub fn noop() -> (res: Self)
        ensures
            forall|t: T| #[trigger] res.accepts(t),
            forall|t: T| #[trigger] res.performs(t),
            res.spec_name() is None,
    {
        Self::from_call(Noop, None)
    }

    /// The name of this consumer, if it has one.
    pub fn name(&self) -> (res: Option<&str>)
        ensures
            match res {
                Some(s) => self.spec_name() == Some(s@),
                None => self.spec_name() is None,
            },
    {
        name_str(&self.name)
    }

    /// Gives this consumer the name `name`; its behaviour stays the same.
    pub fn set_name(&mut self, name: &str)
        ensures
            final(self).spec_name() == Some(name@),
            forall|t: T| #[trigger] final(self).accepts(t) == old(self).accepts(t),
            forall|t: T| #[trigger] final(self).performs(t) == old(self).performs(t),
    {
        self.name = owned_name(name);
    }

    /// Restricts this consumer to the values on which `predicate` holds.
    pub fn when<P>(self, predicate: P) -> (res: BoxConditionalConsumer<T>)
        where
            P: Predicate<T> + 'static,
            T: 'static,
        ensures
            res.consumer() == self,
            forall|t: T| predicate.accepts(t) ==> #[trigger] res.predicate().accepts(t),
            forall|t: T, b: bool| #[trigger] res.predicate().produces(t, b) ==> predicate.produces(t, b),
    {
        BoxConditionalConsumer { consumer: self, predicate: predicate.into_box() }
    }

    /// This consumer followed by `after`, on the same value.
    pub fn and_then<C>(self, after: C) -> (res: BoxConsumer<T>)
        where
            C: Consumer<T> + 'static,
            T: 'static,
        ensures
            forall|t: T| #[trigger] res.accepts(t) == both_accepts(self, after, t),
            forall|t: T| #[trigger] res.performs(t) == both_performs(self, after, t),
            res.spec_name() is None,
    {
        BoxConsumer::from_call(Both { first: self, second: after }, None)
    }

    /// This consumer as a plain closure.
    pub fn into_fn(self) -> (res: impl Fn(&T))
        ensures
            forall|t: T| self.accepts(t) ==> call_requires(res, (&t,)),
            forall|t: T| call_ensures(res, (&t,), ()) ==> self.performs(t),
    {
        move |t: &T|
            requires
                self.accepts(*t),
            ensures
                self.performs(*t),
        {
            self.function.call(t)
        }
    }
}

impl<T> CallOnce1<T, ()> for BoxConsumer<T> {
    closed spec fn pre(&self, t: T) -> bool {
        self.accepts(t)
    }

    closed spec fn post(&self, t: T, r: ()) -> bool {
        self.performs(t)
    }

    fn call_once(self: Box<Self>, t: &T) {
        self.function.call(t)
    }
}

impl<T> Consumer<T> for BoxConsumer<T> {
    open spec fn accepts(&self, t: T) -> bool {
        BoxConsumer::accepts(self, t)
    }

    open spec fn performs(&self, t: T) -> bool {
        BoxConsumer::performs(self, t)
    }

    fn accept(&self, value: &T) {
        self.function.call(value)
    }

    fn into_box(self) -> (res: BoxConsumer<T>)
        where
            Self: Sized + 'static,
            T: 'static,
    {
        self
    }

    fn into_rc(self) -> (res: RcConsumer<T>)
        where
            Self: Sized + 'static,
            T: 'static,
        ensures
            forall|t: T| #[trigger] res.accepts(t) == self.accepts(t),
            forall|t: T| #[trigger] res.performs(t) == self.performs(t),
            res.spec_name() == self.spec_name(),
    {
        RcConsumer { function: Rc::new(self.function), name: self.name }
    }

    fn into_once(self) -> (res: BoxConsumerOnce<T>)
        where
            Self: Sized + 'static,
            T: 'static,
        ensures
            forall|t: T| #[trigger] res.accepts(t) == self.accepts(t),
            forall|t: T| #[trigger] res.performs(t) == self.performs(t),
            res.spec_name() == self.spec_name(),
    {
        let name = clone_name(&self.name);
        BoxConsumerOnce::from_call_once(self, name)
    }
}

/// A [`BoxConsumer`] that acts only on the values that a predicate accepts.
#[verifier::reject_recursive_types(T)]
pub struct BoxConditionalConsumer<T> {
    consumer: BoxConsumer<T>,
    predicate: BoxPredicate<T>,
}

impl<T: 'static> BoxConditionalConsumer<T> {
    pub closed spec fn consumer(&self) -> BoxConsumer<T> {
        self.consumer
    }

    pub closed spec fn predicate(&self) -> BoxPredicate<T> {
        self.predicate
    }

    /// This conditional consumer followed by `next`, which acts on every value.
    pub fn and_then<C>(self, next: C) -> (res: BoxConsumer<T>)
        where
            C: Consumer<T> + 'static,
        ensures
            forall|t: T| #[trigger] res.accepts(t) == both_accepts(self, next, t),
            forall|t: T| #[trigger] res.performs(t) == both_performs(self, next, t),
            res.spec_name() is None,
    {
        BoxConsumer::from_call(Both { first: self, second: next }, None)
    }

    /// The consumer that runs the guarded consumer where the predicate
    /// holds and `else_consumer` elsewhere.
    pub fn or_else<C>(self, else_consumer: C) -> (res: BoxConsumer<T>)
        where
            C: Consumer<T> + 'static,
        ensures
            forall|t: T| #[trigger] res.accepts(t) == choice_accepts(self.predicate(), self.consumer(), else_consumer, t),
            forall|t: T| #[trigger] res.performs(t) == choice_performs(self.predicate(), self.consumer(), else_consumer, t),
            res.spec_name() is None,
    {
        BoxConsumer::from_call(
            Choose {
                predicate: self.predicate,
                on_true: self.consumer,
                on_false: else_consumer,
            },
            None,
        )
    }
}

impl<T: 'static> Consumer<T> for BoxConditionalConsumer<T> {
    open spec fn accepts(&self, t: T) -> bool {
        guarded_accepts(self.predicate(), self.consumer(), t)
    }

    open spec fn performs(&self, t: T) -> bool {
        guarded_performs(self.predicate(), self.consumer(), t)
    }

    fn accept(&self, value: &T) {
        if self.predicate.test(value) {
            self.consumer.accept(value);
        }
    }
}

/// A consumer behind an `Rc`: shared, single-threaded.
#[verifier::reject_recursive_types(T)]
pub struct RcConsumer<T> {
    function: Rc<Box<dyn Call1<T, ()>>>,
    name: Option<String>,
}

impl<T> RcConsumer<T> {
    pub closed spec fn accepts(&self, t: T) -> bool {
        self.function.pre(t)
    }

    pub closed spec fn performs(&self, t: T) -> bool {
        self.function.post(t, ())
    }

    pub closed spec fn spec_name(&self) -> Option<Seq<char>> {
        name_view(self.name)
    }

    pub(crate) fn from_call<C: Call1<T, ()> + 'static>(c: C, name: Option<String>) -> (res: Self)
        ensures
            forall|t: T| #[trigger] res.accepts(t) == c.pre(t),
            forall|t: T| #[trigger] res.performs(t) == c.post(t, ()),
            res.spec_name() == name_view(name),
    {
        let function: Box<dyn Call1<T, ()>> = Box::new(c);
        assert(forall|t: T| #[trigger] function.pre(t) == c.pre(t));
        assert(forall|t: T| #[trigger] function.post(t, ()) == c.post(t, ()));
        RcConsumer { function: Rc::new(function), name }
    }

    /// Wraps the closure `f`.
    pub fn new<F>(f: F) -> (res: Self)
        where
            F: Fn(&T) + 'static,
        ensures
            forall|t: T| #[trigger] res.accepts(t) == call_requires(f, (&t,)),
            forall|t: T| #[trigger] res.performs(t) == call_ensures(f, (&t,), ()),
            res.spec_name() is None,
    {
        Self::from_call(f, None)
    }

    /// Wraps the closure `f` under the name `name`.
    pub fn new_with_name<F>(name: &str, f: F) -> (res: Self)
        where
            F: Fn(&T) + 'static,
        ensures
            forall|t: T| #[trigger] res.accepts(t) == call_requires(f, (&t,)),
            forall|t: T| #[trigger] res.performs(t) == call_ensures(f, (&t,), ()),
            res.spec_name() == Some(name@),
    {
        Self::from_call(f, owned_name(name))
    }

    /// Wraps the closure `f` under the name `name`, if there is one.
    pub fn new_with_optional_name<F>(f: F, name: Option<String>) -> (res: Self)
        where
            F: Fn(&T) + 'static,
        ensures
            forall|t: T| #[trigger] res.accepts(t) == call_requires(f, (&t,)),
            forall|t: T| #[trigger] res.performs(t) == call_ensures(f, (&t,), ()),
            res.spec_name() == name_view(name),
    {
        Self::from_call(f, name)
    }

    /// A consumer that does nothing.
    pub fn noop() -> (res: Self)
        ensures
            forall|t: T| #[trigger] res.accepts(t),
            forall|t: T| #[trigger] res.performs(t),
            res.spec_name() is None,
    {
        Self::from_call(Noop, None)
    }

    /// The name of this consumer, if it has one.
    pub fn name(&self) -> (res: Option<&str>)
        ensures
            match res {
                Some(s) => self.spec_name() == Some(s@),
                None => self.spec_name() is None,
            },
    {
        name_str(&self.name)
    }

    /// Gives this consumer the name `name`; its behaviour stays the same.
    pub fn set_name(&mut self, name: &str)
        ensures
            final(self).spec_name() == Some(name@),
            forall|t: T| #[trigger] final(self).accepts(t) == old(self).accepts(t),
            forall|t: T| #[trigger] final(self).performs(t) == old(self).performs(t),
    {
        self.name = owned_name(name);
    }

    /// Restricts a copy of this consumer to the values on which `predicate` holds.
    pub fn when<P>(&self, predicate: P) -> (res: RcConditionalConsumer<T>)
        where
            P: Predicate<T> + 'static,
            T: 'static,
        ensures
            res.consumer() == *self,
            forall|t: T| predicate.accepts(t) ==> #[trigger] res.predicate().accepts(t),
            forall|t: T, b: bool| #[trigger] res.predicate().produces(t, b) ==> predicate.produces(t, b),
    {
        RcConditionalConsumer { consumer: self.duplicate(), predicate: predicate.into_rc() }
    }

    /// A copy of this consumer followed by `after`, on the same value.
    pub fn and_then<C>(&self, after: C) -> (res: RcConsumer<T>)
        where
            C: Consumer<T> + 'static,
            T: 'static,
        ensures
            forall|t: T| #[trigger] res.accepts(t) == both_accepts(*self, after, t),
            forall|t: T| #[trigger] res.performs(t) == both_performs(*self, after, t),
            res.spec_name() is None,
    {
        RcConsumer::from_call(Both { first: self.duplicate(), second: after }, None)
    }

    /// This consumer as a plain closure.
    pub fn into_fn(self) -> (res: impl Fn(&T))
        ensures
            forall|t: T| self.accepts(t) ==> call_requires(res, (&t,)),
            forall|t: T| call_ensures(res, (&t,), ()) ==> self.performs(t),
    {
        move |t: &T|
            requires
                self.accepts(*t),
            ensures
                self.performs(*t),
        {
            self.function.call(t)
        }
    }

    /// A closure that calls a clone of this consumer, which stays usable.
    pub fn to_fn(&self) -> (res: impl Fn(&T))
        ensures
            forall|t: T| self.accepts(t) ==> call_requires(res, (&t,)),
            forall|t: T| call_ensures(res, (&t,), ()) ==> self.performs(t),
    {
        self.duplicate().into_fn()
    }
}

impl<T> RcConsumer<T> {
    fn duplicate(&self) -> (res: Self)
        ensures
            res == *self,
    {
        RcConsumer { function: self.function.clone(), name: clone_name(&self.name) }
    }
}

impl<T> Clone for RcConsumer<T> {
    fn clone(&self) -> (res: Self)
        ensures
            res == *self,
    {
        self.duplicate()
    }
}

impl<T> Call1<T, ()> for RcConsumer<T> {
    closed spec fn pre(&self, t: T) -> bool {
        self.accepts(t)
    }

    closed spec fn post(&self, t: T, r: ()) -> bool {
        self.performs(t)
    }

    fn call(&self, t: &T) {
        self.function.call(t)
    }
}

impl<T> CallOnce1<T, ()> for RcConsumer<T> {
    closed spec fn pre(&self, t: T) -> bool {
        self.accepts(t)
    }

    closed spec fn post(&self, t: T, r: ()) -> bool {
        self.performs(t)
    }

    fn call_once(self: Box<Self>, t: &T) {
        self.function.call(t)
    }
}

impl<T> Consumer<T> for RcConsumer<T> {
    open spec fn accepts(&self, t: T) -> bool {
        RcConsumer::accepts(self, t)
    }

    open spec fn performs(&self, t: T) -> bool {
        RcConsumer::performs(self, t)
    }

    fn accept(&self, value: &T) {
        self.function.call(value)
    }

    fn into_box(self) -> (res: BoxConsumer<T>)
        where
            Self: Sized + 'static,
            T: 'static,
        ensures
            forall|t: T| #[trigger] res.accepts(t) == self.accepts(t),
            forall|t: T| #[trigger] res.performs(t) == self.performs(t),
            res.spec_name() == self.spec_name(),
    {
        let name = clone_name(&self.name);
        BoxConsumer::from_call(self, name)
    }

    fn into_rc(self) -> (res: RcConsumer<T>)
        where
            Self: Sized + 'static,
            T: 'static,
    {
        self
    }

    fn into_once(self) -> (res: BoxConsumerOnce<T>)
        where
            Self: Sized + 'static,
            T: 'static,
        ensures
            forall|t: T| #[trigger] res.accepts(t) == self.accepts(t),
            forall|t: T| #[trigger] res.performs(t) == self.performs(t),
            res.spec_name() == self.spec_name(),
    {
        let name = clone_name(&self.name);
        BoxConsumerOnce::from_call_once(self, name)
    }

    fn to_box(&self) -> (res: BoxConsumer<T>)
        where
            Self: Clone + 'static,
            T: 'static,
        ensures
            forall|t: T| #[trigger] res.accepts(t) == self.accepts(t),
            forall|t: T| #[trigger] res.performs(t) == self.performs(t),
            res.spec_name() == self.spec_name(),
    {
        let res = BoxConsumer::from_call(self.duplicate(), clone_name(&self.name));
        assert(cloned::<Self>(*self, *self));
        res
    }

    fn to_rc(&self) -> (res: RcConsumer<T>)
        where
            Self: Clone + 'static,
            T: 'static,
        ensures
            res == *self,
    {
        let res = self.duplicate();
        assert(cloned::<Self>(*self, *self));
        res
    }

    fn to_once(&self) -> (res: BoxConsumerOnce<T>)
        where
            Self: Clone + 'static,
            T: 'static,
        ensures
            forall|t: T| #[trigger] res.accepts(t) == self.accepts(t),
            forall|t: T| #[trigger] res.performs(t) == self.performs(t),
            res.spec_name() == self.spec_name(),
    {
        let res = BoxConsumerOnce::from_call_once(self.duplicate(), clone_name(&self.name));
        assert(cloned::<Self>(*self, *self));
        res
    }
}

/// A [`RcConsumer`] that acts only on the values that a predicate accepts.
#[verifier::reject_recursive_types(T)]
pub struct RcConditionalConsumer<T> {
    consumer: RcConsumer<T>,
    predicate: RcPredicate<T>,
}

impl<T: 'static> RcConditionalConsumer<T> {
    pub closed spec fn consumer(&self) -> RcConsumer<T> {
        self.consumer
    }

    pub closed spec fn predicate(&self) -> RcPredicate<T> {
        self.predicate
    }

    /// A copy of this conditional consumer followed by `next`, which acts on every value.
    pub fn and_then<C>(&self, next: C) -> (res: RcConsumer<T>)
        where
            C: Consumer<T> + 'static,
        ensures
            forall|t: T| #[trigger] res.accepts(t) == both_accepts(*self, next, t),
            forall|t: T| #[trigger] res.performs(t) == both_performs(*self, next, t),
            res.spec_name() is None,
    {
        RcConsumer::from_call(Both { first: self.duplicate(), second: next }, None)
    }

    /// The consumer that runs the guarded consumer where the predicate
    /// holds and `else_consumer` elsewhere.
    pub fn or_else<C>(&self, else_consumer: C) -> (res: RcConsumer<T>)
        where
            C: Consumer<T> + 'static,
        ensures
            forall|t: T| #[trigger] res.accepts(t) == choice_accepts(self.predicate(), self.consumer(), else_consumer, t),
            forall|t: T| #[trigger] res.performs(t) == choice_performs(self.predicate(), self.consumer(), else_consumer, t),
            res.spec_name() is None,
    {
        RcConsumer::from_call(
            Choose {
                predicate: self.predicate.clone(),
                on_true: self.consumer.clone(),
                on_false: else_consumer,
            },
            None,
        )
    }
}

impl<T> RcConditionalConsumer<T> {
    fn duplicate(&self) -> (res: Self)
        ensures
            res == *self,
    {
        RcConditionalConsumer { consumer: self.consumer.clone(), predicate: self.predicate.clone() }
    }
}

impl<T> Clone for RcConditionalConsumer<T> {
    fn clone(&self) -> (res: Self)
        ensures
            res == *self,
    {
        self.duplicate()
    }
}

impl<T: 'static> Consumer<T> for RcConditionalConsumer<T> {
    open spec fn accepts(&self, t: T) -> bool {
        guarded_accepts(self.predicate(), self.consumer(), t)
    }

    open spec fn performs(&self, t: T) -> bool {
        guarded_performs(self.predicate(), self.consumer(), t)
    }

    fn accept(&self, value: &T) {
        if self.predicate.test(value) {
            self.consumer.accept(value);
        }
    }
}

/// A consumer behind an `Arc`: shared, thread-safe.
#[verifier::reject_recursive_types(T)]
pub struct ArcConsumer<T> {
    function: Arc<Box<dyn SyncCall1<T, ()>>>,
    name: Option<String>,
}

impl<T> ArcConsumer<T> {
    pub closed spec fn accepts(&self, t: T) -> bool {
        self.function.sync_pre(t)
    }

    pub closed spec fn performs(&self, t: T) -> bool {
        self.function.sync_post(t, ())
    }

    pub closed spec fn spec_name(&self) -> Option<Seq<char>> {
        name_view(self.name)
    }

    pub(crate) fn from_call<C: Call1<T, ()> + Send + Sync + 'static>(c: C, name: Option<String>) -> (res: Self)
        ensures
            forall|t: T| #[trigger] res.accepts(t) == c.pre(t),
            forall|t: T| #[trigger] res.performs(t) == c.post(t, ()),
            res.spec_name() == name_view(name),
    {
        assert(forall|t: T| #[trigger] SyncCall1::<T, ()>::sync_pre(&c, t) == c.pre(t));
        assert(forall|t: T| #[trigger] SyncCall1::<T, ()>::sync_post(&c, t, ()) == c.post(t, ()));
        let function: Box<dyn SyncCall1<T, ()>> = Box::new(c);
        assert(forall|t: T| #[trigger] function.sync_pre(t) == c.pre(t));
        assert(forall|t: T| #[trigger] function.sync_post(t, ()) == c.post(t, ()));
        ArcConsumer { function: Arc::new(function), name }
    }

    /// Wraps the closure `f`.
    pub fn new<F>(f: F) -> (res: Self)
        where
            F: Fn(&T) + Send + Sync + 'static,
        ensures
            forall|t: T| #[trigger] res.accepts(t) == call_requires(f, (&t,)),
            forall|t: T| #[trigger] res.performs(t) == call_ensures(f, (&t,), ()),
            res.spec_name() is None,
    {
        Self::from_call(f, None)
    }

    /// Wraps the closure `f` under the name `name`.
    pub fn new_with_name<F>(name: &str, f: F) -> (res: Self)
        where
            F: Fn(&T) + Send + Sync + 'static,
        ensures
            forall|t: T| #[trigger] res.accepts(t) == call_requires(f, (&t,)),
            forall|t: T| #[trigger] res.performs(t) == call_ensures(f, (&t,), ()),
            res.spec_name() == Some(name@),
    {
        Self::from_call(f, owned_name(name))
    }

    /// Wraps the closure `f` under the name `name`, if there is one.
    pub fn new_with_optional_name<F>(f: F, name: Option<String>) -> (res: Self)
        where
            F: Fn(&T) + Send + Sync + 'static,
        ensures
            forall|t: T| #[trigger] res.accepts(t) == call_requires(f, (&t,)),
            forall|t: T| #[trigger] res.performs(t) == call_ensures(f, (&t,), ()),
            res.spec_name() == name_view(name),
    {
        Self::from_call(f, name)
    }

    /// A consumer that does nothing.
    pub fn noop() -> (res: Self)
        ensures
            forall|t: T| #[trigger] res.accepts(t),
            forall|t: T| #[trigger] res.performs(t),
            res.spec_name() is None,
    {
        Self::from_call(Noop, None)
    }

    /// The name of this consumer, if it has one.
    pub fn name(&self) -> (res: Option<&str>)
        ensures
            match res {
                Some(s) => self.spec_name() == Some(s@),
                None => self.spec_name() is None,
            },
    {
        name_str(&self.name)
    }

    /// Gives this consumer the name `name`; its behaviour stays the same.
    pub fn set_name(&mut self, name: &str)
        ensures
            final(self).spec_name() == Some(name@),
            forall|t: T| #[trigger] final(self).accepts(t) == old(self).accepts(t),
            forall|t: T| #[trigger] final(self).performs(t) == old(self).performs(t),
    {
        self.name = owned_name(name);
    }

    /// Restricts a copy of this consumer to the values on which `predicate` holds.
    pub fn when<P>(&self, predicate: P) -> (res: ArcConditionalConsumer<T>)
        where
            P: Predicate<T> + Send + Sync + 'static,
            T: 'static,
        ensures
            res.consumer() == *self,
            forall|t: T| predicate.accepts(t) ==> #[trigger] res.predicate().accepts(t),
            forall|t: T, b: bool| #[trigger] res.predicate().produces(t, b) ==> predicate.produces(t, b),
    {
        ArcConditionalConsumer { consumer: self.duplicate(), predicate: predicate.into_arc() }
    }

    /// A copy of this consumer followed by `after`, on the same value.
    pub fn and_then<C>(&self, after: C) -> (res: ArcConsumer<T>)
        where
            C: Consumer<T> + Send + Sync + 'static,
            T: 'static,
        ensures
            forall|t: T| #[trigger] res.accepts(t) == both_accepts(*self, after, t),
            forall|t: T| #[trigger] res.performs(t) == both_performs(*self, after, t),
            res.spec_name() is None,
    {
        ArcConsumer::from_call(Both { first: self.duplicate(), second: after }, None)
    }

    /// This consumer as a plain closure.
    pub fn into_fn(self) -> (res: impl Fn(&T))
        ensures
            forall|t: T| self.accepts(t) ==> call_requires(res, (&t,)),
            forall|t: T| call_ensures(res, (&t,), ()) ==> self.performs(t),
    {
        move |t: &T|
            requires
                self.accepts(*t),
            ensures
                self.performs(*t),
        {
            self.function.sync_call(t)
        }
    }

    /// A closure that calls a clone of this consumer, which stays usable.
    pub fn to_fn(&self) -> (res: impl Fn(&T))
        ensures
            forall|t: T| self.accepts(t) ==> call_requires(res, (&t,)),
            forall|t: T| call_ensures(res, (&t,), ()) ==> self.performs(t),
    {
        self.duplicate().into_fn()
    }
}

impl<T> ArcConsumer<T> {
    fn duplicate(&self) -> (res: Self)
        ensures
            res == *self,
    {
        ArcConsumer { function: self.function.clone(), name: clone_name(&self.name) }
    }
}

impl<T> Clone for ArcConsumer<T> {
    fn clone(&self) -> (res: Self)
        ensures
            res == *self,
    {
        self.duplicate()
    }
}

impl<T> Call1<T, ()> for ArcConsumer<T> {
    closed spec fn pre(&self, t: T) -> bool {
        self.accepts(t)
    }

    closed spec fn post(&self, t: T, r: ()) -> bool {
        self.performs(t)
    }

    fn call(&self, t: &T) {
        self.function.sync_call(t)
    }
}

impl<T> CallOnce1<T, ()> for ArcConsumer<T> {
    closed spec fn pre(&self, t: T) -> bool {
        self.accepts(t)
    }

    closed spec fn post(&self, t: T, r: ()) -> bool {
        self.performs(t)
    }

    fn call_once(self: Box<Self>, t: &T) {
        self.function.sync_call(t)
    }
}

impl<T> Consumer<T> for ArcConsumer<T> {
    open spec fn accepts(&self, t: T) -> bool {
        ArcConsumer::accepts(self, t)
    }

    open spec fn performs(&self, t: T) -> bool {
        ArcConsumer::performs(self, t)
    }

    fn accept(&self, value: &T) {
        self.function.sync_call(value)
    }

    fn into_box(self) -> (res: BoxConsumer<T>)
        where
            Self: Sized + 'static,
            T: 'static,
        ensures
            forall|t: T| #[trigger] res.accepts(t) == self.accepts(t),
            forall|t: T| #[trigger] res.performs(t) == self.performs(t),
            res.spec_name() == self.spec_name(),
    {
        let name = clone_name(&self.name);
        BoxConsumer::from_call(self, name)
    }

    fn into_rc(self) -> (res: RcConsumer<T>)
        where
            Self: Sized + 'static,
            T: 'static,
        ensures
            forall|t: T| #[trigger] res.accepts(t) == self.accepts(t),
            forall|t: T| #[trigger] res.performs(t) == self.performs(t),
            res.spec_name() == self.spec_name(),
    {
        let name = clone_name(&self.name);
        RcConsumer::from_call(self, name)
    }

    fn into_arc(self) -> (res: ArcConsumer<T>)
        where
            Self: Sized + Send + Sync + 'static,
            T: 'static,
    {
        self
    }

    fn into_once(self) -> (res: BoxConsumerOnce<T>)
        where
            Self: Sized + 'static,
            T: 'static,
        ensures
            forall|t: T| #[trigger] res.accepts(t) == self.accepts(t),
            forall|t: T| #[trigger] res.performs(t) == self.performs(t),
            res.spec_name() == self.spec_name(),
    {
        let name = clone_name(&self.name);
        BoxConsumerOnce::from_call_once(self, name)
    }

    fn to_box(&self) -> (res: BoxConsumer<T>)
        where
            Self: Clone + 'static,
            T: 'static,
        ensures
            forall|t: T| #[trigger] res.accepts(t) == self.accepts(t),
            forall|t: T| #[trigger] res.performs(t) == self.performs(t),
            res.spec_name() == self.spec_name(),
    {
        let res = BoxConsumer::from_call(self.duplicate(), clone_name(&self.name));
        assert(cloned::<Self>(*self, *self));
        res
    }

    fn to_rc(&self) -> (res: RcConsumer<T>)
        where
            Self: Clone + 'static,
            T: 'static,
        ensures
            forall|t: T| #[trigger] res.accepts(t) == self.accepts(t),
            forall|t: T| #[trigger] res.performs(t) == self.performs(t),
            res.spec_name() == self.spec_name(),
    {
        let res = RcConsumer::from_call(self.duplicate(), clone_name(&self.name));
        assert(cloned::<Self>(*self, *self));
        res
    }

    fn to_arc(&self) -> (res: ArcConsumer<T>)
        where
            Self: Clone + Send + Sync + 'static,
            T: 'static,
        ensures
            res == *self,
    {
        let res = self.duplicate();
        assert(cloned::<Self>(*self, *self));
        res
    }

    fn to_once(&self) -> (res: BoxConsumerOnce<T>)
        where
            Self: Clone + 'static,
            T: 'static,
        ensures
            forall|t: T| #[trigger] res.accepts(t) == self.accepts(t),
            forall|t: T| #[trigger] res.performs(t) == self.performs(t),
            res.spec_name() == self.spec_name(),
    {
        let res = BoxConsumerOnce::from_call_once(self.duplicate(), clone_name(&self.name));
        assert(cloned::<Self>(*self, *self));
        res
    }
}

/// A [`ArcConsumer`] that acts only on the values that a predicate accepts.
#[verifier::reject_recursive_types(T)]
pub struct ArcConditionalConsumer<T> {
    consumer: ArcConsumer<T>,
    predicate: ArcPredicate<T>,
}

impl<T: 'static> ArcConditionalConsumer<T> {
    pub closed spec fn consumer(&self) -> ArcConsumer<T> {
        self.consumer
    }

    pub closed spec fn predicate(&self) -> ArcPredicate<T> {
        self.predicate
    }

    /// A copy of this conditional consumer followed by `next`, which acts on every value.
    pub fn and_then<C>(&self, next: C) -> (res: ArcConsumer<T>)
        where
            C: Consumer<T> + Send + Sync + 'static,
        ensures
            forall|t: T| #[trigger] res.accepts(t) == both_accepts(*self, next, t),
            forall|t: T| #[trigger] res.performs(t) == both_performs(*self, next, t),
            res.spec_name() is None,
    {
        ArcConsumer::from_call(Both { first: self.duplicate(), second: next }, None)
    }

    /// The consumer that runs the guarded consumer where the predicate
    /// holds and `else_consumer` elsewhere.
    pub fn or_else<C>(&self, else_consumer: C) -> (res: ArcConsumer<T>)
        where
            C: Consumer<T> + Send + Sync + 'static,
        ensures
            forall|t: T| #[trigger] res.accepts(t) == choice_accepts(self.predicate(), self.consumer(), else_consumer, t),
            forall|t: T| #[trigger] res.performs(t) == choice_performs(self.predicate(), self.consumer(), else_consumer, t),
            res.spec_name() is None,
    {
        ArcConsumer::from_call(
            Choose {
                predicate: self.predicate.clone(),
                on_true: self.consumer.clone(),
                on_false: else_consumer,
            },
            None,
        )
    }
}

impl<T> ArcConditionalConsumer<T> {
    fn duplicate(&self) -> (res: Self)
        ensures
            res == *self,
    {
        ArcConditionalConsumer { consumer: self.consumer.clone(), predicate: self.predicate.clone() }
    }
}

impl<T> Clone for ArcConditionalConsumer<T> {
    fn clone(&self) -> (res: Self)
        ensures
            res == *self,
    {
        self.duplicate()
    }
}

impl<T: 'static> Consumer<T> for ArcConditionalConsumer<T> {
    open spec fn accepts(&self, t: T) -> bool {
        guarded_accepts(self.predicate(), self.consumer(), t)
    }

    open spec fn performs(&self, t: T) -> bool {
        guarded_performs(self.predicate(), self.consumer(), t)
    }

    fn accept(&self, value: &T) {
        if self.predicate.test(value) {
            self.consumer.accept(value);
        }
    }
}

/// Sequencing for plain closures.
pub trait FnConsumerOps<T>: Fn(&T) + Sized {
    /// This closure followed by `next`, on the same value.
    fn and_then<C>(self, next: C) -> (res: BoxConsumer<T>)
        where
            Self: 'static,
            C: Consumer<T> + 'static,
            T: 'static,
        ensures
            forall|t: T| #[trigger] res.accepts(t) == both_accepts(self, next, t),
            forall|t: T| #[trigger] res.performs(t) == both_performs(self, next, t),
    {
        BoxConsumer::from_call(Both { first: self, second: next }, None)
    }
}

impl<T, F: Fn(&T)> FnConsumerOps<T> for F {

}

/// A consumer built by `and_then` runs the first consumer and then the
/// second on the same value: it takes every value that the first accepts and
/// that the second accepts once the first has acted on it, it takes no value
/// that the first does not, and when it has run, both have acted.
pub proof fn law_and_then_runs_first_then_second<T, A, B, AB>(a: A, b: B, ab: AB, t: T)
    where
        A: Consumer<T>,
        B: Consumer<T>,
        AB: Consumer<T>,
    requires
        forall|x: T| #[trigger] ab.accepts(x) == both_accepts(a, b, x),
        forall|x: T| #[trigger] ab.performs(x) == both_performs(a, b, x),
    ensures
        a.accepts(t) && (a.performs(t) ==> b.accepts(t)) ==> ab.accepts(t),
        ab.accepts(t) ==> a.accepts(t),
        ab.performs(t) ==> a.performs(t) && b.performs(t),
{
}

/// Two consumers in turn on the same value: defined at `t` when `first` is,
/// and `second` is once `first` has done its part.
pub open spec fn both_accepts<T, C: Consumer<T>, D: Consumer<T>>(first: C, second: D, t: T) -> bool {
    &&& first.accepts(t)
    &&& first.performs(t) ==> second.accepts(t)
}

/// Two consumers in turn on the same value: both have done their part.
pub open spec fn both_performs<T, C: Consumer<T>, D: Consumer<T>>(first: C, second: D, t: T) -> bool {
    first.performs(t) && second.performs(t)
}

/// A consumer that acts only where a predicate holds: defined at `t` when
/// the predicate is, and the consumer is wherever the answer may be `true`.
pub open spec fn guarded_accepts<T, P: Predicate<T>, C: Consumer<T>>(p: P, c: C, t: T) -> bool {
    &&& p.accepts(t)
    &&& forall|b: bool| #[trigger] p.produces(t, b) ==> (b ==> c.accepts(t))
}

/// A consumer that acts only where a predicate holds: some answer of the
/// predicate was given, and the consumer did its part if it was `true`.
pub open spec fn guarded_performs<T, P: Predicate<T>, C: Consumer<T>>(p: P, c: C, t: T) -> bool {
    exists|b: bool| #[trigger] p.produces(t, b) && (b ==> c.performs(t))
}

/// A choice between two consumers by a predicate: defined at `t` when the
/// predicate is, and the consumer that each possible answer selects is.
pub open spec fn choice_accepts<T, P: Predicate<T>, C: Consumer<T>, E: Consumer<T>>(p: P, c: C, e: E, t: T) -> bool {
    &&& p.accepts(t)
    &&& forall|b: bool| #[trigger] p.produces(t, b) ==> if b {
        c.accepts(t)
    } else {
        e.accepts(t)
    }
}

/// A choice between two consumers by a predicate: some answer of the
/// predicate was given, and the consumer it selects did its part.
pub open spec fn choice_performs<T, P: Predicate<T>, C: Consumer<T>, E: Consumer<T>>(p: P, c: C, e: E, t: T) -> bool {
    exists|b: bool| #[trigger] p.produces(t, b) && if b {
        c.performs(t)
    } else {
        e.performs(t)
    }
}

/// Sequencing is associative: `ab` followed by `c` and `a` followed by `bc`
/// accept the same values and do the same, where `ab` behaves as `a`
/// followed by `b` and `bc` as `b` followed by `c` (as the result of
/// `and_then` does).
pub proof fn law_and_then_associative<T, A, B, C, AB, BC>(a: A, b: B, c: C, ab: AB, bc: BC, t: T)
    where
        A: Consumer<T>,
        B: Consumer<T>,
        C: Consumer<T>,
        AB: Consumer<T>,
        BC: Consumer<T>,
    requires
        forall|x: T| #[trigger] ab.accepts(x) == both_accepts(a, b, x),
        forall|x: T| #[trigger] ab.performs(x) == both_performs(a, b, x),
        forall|x: T| #[trigger] bc.accepts(x) == both_accepts(b, c, x),
        forall|x: T| #[trigger] bc.performs(x) == both_performs(b, c, x),
    ensures
        both_accepts(ab, c, t) == both_accepts(a, bc, t),
        both_performs(ab, c, t) == both_performs(a, bc, t),
{
}

/// A consumer that accepts every value and does nothing (such as
/// [`BoxConsumer::noop`]) is neutral for sequencing, on either side.
pub proof fn law_noop_neutral<T, C, N>(c: C, noop: N, t: T)
    where
        C: Consumer<T>,
        N: Consumer<T>,
    requires
        forall|x: T| #[trigger] noop.accepts(x),
        forall|x: T| #[trigger] noop.performs(x),
    ensures
        both_accepts(c, noop, t) == c.accepts(t),
        both_performs(c, noop, t) == c.performs(t),
        both_accepts(noop, c, t) == c.accepts(t),
        both_performs(noop, c, t) == c.performs(t),
{
}

/// Runs `first`, then `second`, on the same value.
struct Both<C, D> {
    first: C,
    second: D,
}

impl<T, C: Consumer<T>, D: Consumer<T>> Call1<T, ()> for Both<C, D> {
    closed spec fn pre(&self, t: T) -> bool {
        both_accepts(self.first, self.second, t)
    }

    closed spec fn post(&self, t: T, r: ()) -> bool {
        both_performs(self.first, self.second, t)
    }

    fn call(&self, t: &T) {
        self.first.accept(t);
        self.second.accept(t);
    }
}

/// Runs `on_true` or `on_false` on the value, as `predicate` selects.
struct Choose<P, C, E> {
    predicate: P,
    on_true: C,
    on_false: E,
}

impl<T, P: Predicate<T>, C: Consumer<T>, E: Consumer<T>> Call1<T, ()> for Choose<P, C, E> {
    closed spec fn pre(&self, t: T) -> bool {
        choice_accepts(self.predicate, self.on_true, self.on_false, t)
    }

    closed spec fn post(&self, t: T, r: ()) -> bool {
        choice_performs(self.predicate, self.on_true, self.on_false, t)
    }

    fn call(&self, t: &T) {
        if self.predicate.test(t) {
            self.on_true.accept(t);
        } else {
            self.on_false.accept(t);
        }
    }
}

} // verus!
