//! Consumers that borrow a value and may change their own state from one
//! call to the next (`FnMut(&T)`), in boxed, `Rc` and `Arc` flavours, with
//! conditional variants.
//!
//! The shared flavours keep the consumer behind a lock, so that every clone
//! calls the same consumer and sees the state that the others left.
use std::rc::Rc;
use std::sync::Arc;
use vstd::prelude::*;

use crate::callable::{CallMut1, CallOnce1, LockedCallMut1, LockedSyncCallMut1};
use crate::consumers::consumer_once::BoxConsumerOnce;
use crate::consumers::noop::Noop;
use crate::counted::Counted;
use crate::functions::stateful_function::{choice_step, sequence_step};
use crate::names::{clone_name, name_str, name_view, owned_name};
use crate::predicates::{ArcPredicate, BoxPredicate, Predicate, RcPredicate};

verus! {

/// A consumer of `&T` values that may change its own state when it acts.
///
/// `accepts(t)` is what a caller must establish before `accept(&t)`, and
/// `performs(t)` is what holds once it has returned. Both describe every
/// call, whatever state the earlier calls left: accepting a value does not
/// change them.
pub trait StatefulConsumer<T> {
    spec fn accepts(&self, t: T) -> bool;

    spec fn performs(&self, t: T) -> bool;

    fn accept(&mut self, value: &T)
        requires
            old(self).accepts(*value),
        ensures
            old(self).performs(*value),
            forall|x: T| #[trigger] final(self).accepts(x) == old(self).accepts(x),
            forall|x: T| #[trigger] final(self).performs(x) == old(self).performs(x),
    ;

    /// Moves this consumer into a [`BoxStatefulConsumer`] that calls it.
    fn into_box(self) -> (res: BoxStatefulConsumer<T>)
        where
            Self: Sized + 'static,
            T: 'static,
        ensures
            forall|t: T| self.accepts(t) ==> #[trigger] res.accepts(t),
            forall|t: T| #[trigger] res.performs(t) ==> self.performs(t),
    ;

    /// Moves this consumer into an [`RcStatefulConsumer`] that calls it.
    fn into_rc(self) -> (res: RcStatefulConsumer<T>)
        where
            Self: Sized + 'static,
            T: 'static,
        ensures
            forall|t: T| self.accepts(t) ==> #[trigger] res.accepts(t),
            forall|t: T| #[trigger] res.performs(t) ==> self.performs(t),
    ;

    /// Moves this consumer into an [`ArcStatefulConsumer`] that calls it.
    fn into_arc(self) -> (res: ArcStatefulConsumer<T>)
        where
            Self: Sized + Send + Sync + 'static,
            T: 'static,
        ensures
            forall|t: T| self.accepts(t) ==> #[trigger] res.accepts(t),
            forall|t: T| #[trigger] res.performs(t) ==> self.performs(t),
    ;

    /// Moves this consumer into a [`BoxConsumerOnce`] that calls it.
    fn into_once(self) -> (res: BoxConsumerOnce<T>)
        where
            Self: Sized + 'static,
            T: 'static,
        ensures
            forall|t: T| self.accepts(t) ==> #[trigger] res.accepts(t),
            forall|t: T| #[trigger] res.performs(t) ==> self.performs(t),
    ;

    /// A [`BoxStatefulConsumer`] that calls a clone of this consumer.
    fn to_box(&self) -> (res: BoxStatefulConsumer<T>)
        where
            Self: Clone + 'static,
            T: 'static,
        ensures
            exists|c: Self|
                cloned::<Self>(*self, c) && (forall|t: T| c.accepts(t) ==> #[trigger] res.accepts(t))
                    && (forall|t: T| #[trigger] res.performs(t) ==> c.performs(t)),
    ;

    /// An [`RcStatefulConsumer`] that calls a clone of this consumer.
    fn to_rc(&self) -> (res: RcStatefulConsumer<T>)
        where
            Self: Clone + 'static,
            T: 'static,
        ensures
            exists|c: Self|
                cloned::<Self>(*self, c) && (forall|t: T| c.accepts(t) ==> #[trigger] res.accepts(t))
                    && (forall|t: T| #[trigger] res.performs(t) ==> c.performs(t)),
    ;

    /// An [`ArcStatefulConsumer`] that calls a clone of this consumer.
    fn to_arc(&self) -> (res: ArcStatefulConsumer<T>)
        where
            Self: Clone + Send + Sync + 'static,
            T: 'static,
        ensures
            exists|c: Self|
                cloned::<Self>(*self, c) && (forall|t: T| c.accepts(t) ==> #[trigger] res.accepts(t))
                    && (forall|t: T| #[trigger] res.performs(t) ==> c.performs(t)),
    ;

    /// A [`BoxConsumerOnce`] that calls a clone of this consumer.
    fn to_once(&self) -> (res: BoxConsumerOnce<T>)
        where
            Self: Clone + 'static,
            T: 'static,
        ensures
            exists|c: Self|
                cloned::<Self>(*self, c) && (forall|t: T| c.accepts(t) ==> #[trigger] res.accepts(t))
                    && (forall|t: T| #[trigger] res.performs(t) ==> c.performs(t)),
    ;
}

impl<T, F: FnMut(&T)> StatefulConsumer<T> for F {
    open spec fn accepts(&self, t: T) -> bool {
        call_requires(*self, (&t,))
    }

    open spec fn performs(&self, t: T) -> bool {
        call_ensures(*self, (&t,), ())
    }

    fn accept(&mut self, value: &T) {
        (self)(value)
    }

    fn into_box(self) -> (res: BoxStatefulConsumer<T>)
        where
            Self: Sized + 'static,
            T: 'static,
        ensures
            forall|t: T| #[trigger] res.accepts(t) == self.accepts(t),
            forall|t: T| #[trigger] res.performs(t) == self.performs(t),
            res.spec_name() is None,
    {
        BoxStatefulConsumer::from_call_mut(self, None)
    }

    fn into_rc(self) -> (res: RcStatefulConsumer<T>)
        where
            Self: Sized + 'static,
            T: 'static,
        ensures
            forall|t: T| #[trigger] res.accepts(t) == self.accepts(t),
            forall|t: T| #[trigger] res.performs(t) == self.performs(t),
            res.spec_name() is None,
    {
        RcStatefulConsumer::from_call_mut(self, None)
    }

    fn into_arc(self) -> (res: ArcStatefulConsumer<T>)
        where
            Self: Sized + Send + Sync + 'static,
            T: 'static,
        ensures
            forall|t: T| #[trigger] res.accepts(t) == self.accepts(t),
            forall|t: T| #[trigger] res.performs(t) == self.performs(t),
            res.spec_name() is None,
    {
        ArcStatefulConsumer::from_call_mut(self, None)
    }

    fn into_once(self) -> (res: BoxConsumerOnce<T>)
        where
            Self: Sized + 'static,
            T: 'static,
        ensures
            forall|t: T| #[trigger] res.accepts(t) == self.accepts(t),
            forall|t: T| #[trigger] res.performs(t) == self.performs(t),
            res.spec_name() is None,
    {
        BoxConsumerOnce::from_call_once(self, None)
    }

    fn to_box(&self) -> (res: BoxStatefulConsumer<T>)
        where
            Self: Clone + 'static,
            T: 'static,
    {
        let c = self.clone();
        let res = BoxStatefulConsumer::from_call_mut(c, None);
        assert(cloned::<Self>(*self, c));
        res
    }

    fn to_rc(&self) -> (res: RcStatefulConsumer<T>)
        where
            Self: Clone + 'static,
            T: 'static,
    {
        let c = self.clone();
        let res = RcStatefulConsumer::from_call_mut(c, None);
        assert(cloned::<Self>(*self, c));
        res
    }

    fn to_arc(&self) -> (res: ArcStatefulConsumer<T>)
        where
            Self: Clone + Send + Sync + 'static,
            T: 'static,
    {
        let c = self.clone();
        let res = ArcStatefulConsumer::from_call_mut(c, None);
        assert(cloned::<Self>(*self, c));
        res
    }

    fn to_once(&self) -> (res: BoxConsumerOnce<T>)
        where
            Self: Clone + 'static,
            T: 'static,
    {
        let c = self.clone();
        let res = BoxConsumerOnce::from_call_once(c, None);
        assert(cloned::<Self>(*self, c));
        res
    }
}

/// A stateful consumer in a box: single ownership.
#[verifier::reject_recursive_types(T)]
pub struct BoxStatefulConsumer<T> {
    function: Box<dyn CallMut1<T, ()>>,
    name: Option<String>,
}

impl<T> BoxStatefulConsumer<T> {
    pub closed spec fn accepts(&self, t: T) -> bool {
        self.function.pre(t)
    }

    pub closed spec fn performs(&self, t: T) -> bool {
        self.function.post(t, ())
    }

    pub closed spec fn spec_name(&self) -> Option<Seq<char>> {
        name_view(self.name)
    }

    pub(crate) fn from_call_mut<C: CallMut1<T, ()> + 'static>(c: C, name: Option<String>) -> (res: Self)
        ensures
            forall|t: T| #[trigger] res.accepts(t) == c.pre(t),
            forall|t: T| #[trigger] res.performs(t) == c.post(t, ()),
            res.spec_name() == name_view(name),
    {
        let function: Box<dyn CallMut1<T, ()>> = Box::new(c);
        assert(forall|t: T| #[trigger] function.pre(t) == c.pre(t));
        assert(forall|t: T| #[trigger] function.post(t, ()) == c.post(t, ()));
        BoxStatefulConsumer { function, name }
    }

    /// Wraps the closure `f`.
    pub fn new<F>(f: F) -> (res: Self)
        where
            F: FnMut(&T) + 'static,
        ensures
            forall|t: T| #[trigger] res.accepts(t) == call_requires(f, (&t,)),
            forall|t: T| #[trigger] res.performs(t) == call_ensures(f, (&t,), ()),
            res.spec_name() is None,
    {
        Self::from_call_mut(f, None)
    }

    /// Wraps the closure `f` under the name `name`.
    pub fn new_with_name<F>(name: &str, f: F) -> (res: Self)
        where
            F: FnMut(&T) + 'static,
        ensures
            forall|t: T| #[trigger] res.accepts(t) == call_requires(f, (&t,)),
            forall|t: T| #[trigger] res.performs(t) == call_ensures(f, (&t,), ()),
            res.spec_name() == Some(name@),
    {
        Self::from_call_mut(f, owned_name(name))
    }

    /// Wraps the closure `f` under the name `name`, if there is one.
    pub fn new_with_optional_name<F>(f: F, name: Option<String>) -> (res: Self)
        where
            F: FnMut(&T) + 'static,
        ensures
            forall|t: T| #[trigger] res.accepts(t) == call_requires(f, (&t,)),
            forall|t: T| #[trigger] res.performs(t) == call_ensures(f, (&t,), ()),
            res.spec_name() == name_view(name),
    {
        Self::from_call_mut(f, name)
    }

    /// A consumer that does nothing.
    pub fn noop() -> (res: Self)
        ensures
            forall|t: T| #[trigger] res.accepts(t),
            forall|t: T| #[trigger] res.performs(t),
            res.spec_name() is None,
    {
        Self::from_call_mut(Noop, None)
    }

    /// The name of this consumer, if it has one.
    pub fn name(&self) -> (res: Option<&str>)
        ensures
            match res {
                Some(s) => self.spec_name() == Some(s@),
                None => self.spec_name() is None,
            },
    {
        name_str(&self.name)
    }

    /// Gives this consumer the name `name`; its behaviour stays the same.
    pub fn set_name(&mut self, name: &str)
        ensures
            final(self).spec_name() == Some(name@),
            forall|t: T| #[trigger] final(self).accepts(t) == old(self).accepts(t),
            forall|t: T| #[trigger] final(self).performs(t) == old(self).performs(t),
    {
        self.name = owned_name(name);
    }

    /// Restricts this consumer to the values on which `predicate` holds.
    pub fn when<P>(self, predicate: P) -> (res: BoxConditionalStatefulConsumer<T>)
        where
            P: Predicate<T> + 'static,
            T: 'static,
        ensures
            res.consumer() == self,
            res.consumer_calls() == 0,
            forall|t: T| predicate.accepts(t) ==> #[trigger] res.predicate().accepts(t),
            forall|t: T, b: bool| #[trigger] res.predicate().produces(t, b) ==> predicate.produces(t, b),
    {
        BoxConditionalStatefulConsumer { consumer: Counted::new(self), predicate: predicate.into_box() }
    }

    /// This consumer followed by `after`, on the same value.
    pub fn and_then<C>(self, after: C) -> (res: BoxStatefulConsumer<T>)
        where
            C: StatefulConsumer<T> + 'static,
            T: 'static,
        ensures
            forall|t: T| #[trigger] res.accepts(t) == both_accepts(self, after, t),
            forall|t: T| #[trigger] res.performs(t) == both_performs(self, after, t),
            res.spec_name() is None,
    {
        BoxStatefulConsumer::from_call_mut(BothMut { first: Counted::new(self), second: Counted::new(after) }, None)
    }

    /// This consumer as a plain closure.
    pub fn into_fn(self) -> (res: impl FnMut(&T))
        where
            T: 'static,
        ensures
            forall|t: T| self.accepts(t) ==> call_requires(res, (&t,)),
            forall|t: T| call_ensures(res, (&t,), ()) ==> self.performs(t),
    {
        let function = LockedCallMut1::new(self);
        move |t: &T|
            requires
                function.pre(*t),
            ensures
                function.post(*t, ()),
        {
            function.call(t)
        }
    }
}

impl<T> CallMut1<T, ()> for BoxStatefulConsumer<T> {
    closed spec fn pre(&self, t: T) -> bool {
        self.accepts(t)
    }

    closed spec fn post(&self, t: T, r: ()) -> bool {
        self.performs(t)
    }

    fn call_mut(&mut self, t: &T) {
        self.function.call_mut(t)
    }
}

impl<T> CallOnce1<T, ()> for BoxStatefulConsumer<T> {
    closed spec fn pre(&self, t: T) -> bool {
        self.accepts(t)
    }

    closed spec fn post(&self, t: T, r: ()) -> bool {
        self.performs(t)
    }

    fn call_once(self: Box<Self>, t: &T) {
        let mut c = *self;
        c.call_mut(t)
    }
}

impl<T> StatefulConsumer<T> for BoxStatefulConsumer<T> {
    open spec fn accepts(&self, t: T) -> bool {
        BoxStatefulConsumer::accepts(self, t)
    }

    open spec fn performs(&self, t: T) -> bool {
        BoxStatefulConsumer::performs(self, t)
    }

    fn accept(&mut self, value: &T) {
        self.function.call_mut(value)
    }

    fn into_box(self) -> (res: BoxStatefulConsumer<T>)
        where
            Self: Sized + 'static,
            T: 'static,
        ensures
            res == self,
    {
        self
    }

    fn into_rc(self) -> (res: RcStatefulConsumer<T>)
        where
            Self: Sized + 'static,
            T: 'static,
        ensures
            forall|t: T| #[trigger] res.accepts(t) == self.accepts(t),
            forall|t: T| #[trigger] res.performs(t) == self.performs(t),
            res.spec_name() == self.spec_name(),
    {
        let name = clone_name(&self.name);
        RcStatefulConsumer::from_call_mut(self, name)
    }

    fn into_arc(self) -> (res: ArcStatefulConsumer<T>)
        where
            Self: Sized + Send + Sync + 'static,
            T: 'static,
        ensures
            forall|t: T| #[trigger] res.accepts(t) == self.accepts(t),
            forall|t: T| #[trigger] res.performs(t) == self.performs(t),
            res.spec_name() == self.spec_name(),
    {
        let name = clone_name(&self.name);
        ArcStatefulConsumer::from_call_mut(self, name)
    }

    fn into_once(self) -> (res: BoxConsumerOnce<T>)
        where
            Self: Sized + 'static,
            T: 'static,
        ensures
            forall|t: T| #[trigger] res.accepts(t) == self.accepts(t),
            forall|t: T| #[trigger] res.performs(t) == self.performs(t),
            res.spec_name() == self.spec_name(),
    {
        let name = clone_name(&self.name);
        BoxConsumerOnce::from_call_once(self, name)
    }

    fn to_box(&self) -> (res: BoxStatefulConsumer<T>)
        where
            Self: Clone + 'static,
            T: 'static,
    {
        let c = self.clone();
        assert(cloned::<Self>(*self, c));
        c
    }

    fn to_rc(&self) -> (res: RcStatefulConsumer<T>)
        where
            Self: Clone + 'static,
            T: 'static,
    {
        let c = self.clone();
        let res = RcStatefulConsumer::from_call_mut(c, None);
        assert(cloned::<Self>(*self, c));
        res
    }

    fn to_arc(&self) -> (res: ArcStatefulConsumer<T>)
        where
            Self: Clone + Send + Sync + 'static,
            T: 'static,
    {
        let c = self.clone();
        let res = ArcStatefulConsumer::from_call_mut(c, None);
        assert(cloned::<Self>(*self, c));
        res
    }

    fn to_once(&self) -> (res: BoxConsumerOnce<T>)
        where
            Self: Clone + 'static,
            T: 'static,
    {
        let c = self.clone();
        let res = BoxConsumerOnce::from_call_once(c, None);
        assert(cloned::<Self>(*self, c));
        res
    }
}

/// A [`BoxStatefulConsumer`] that acts only on the values that a predicate accepts.
#[verifier::reject_recursive_types(T)]
pub struct BoxConditionalStatefulConsumer<T> {
    consumer: Counted<BoxStatefulConsumer<T>>,
    predicate: BoxPredicate<T>,
}

impl<T: 'static> BoxConditionalStatefulConsumer<T> {
    pub closed spec fn consumer(&self) -> BoxStatefulConsumer<T> {
        self.consumer.inner()
    }

    /// How many times this conditional consumer has run its consumer.
    pub closed spec fn consumer_calls(&self) -> nat {
        self.consumer.calls()
    }

    pub closed spec fn predicate(&self) -> BoxPredicate<T> {
        self.predicate
    }

    pub open spec fn accepts(&self, t: T) -> bool {
        guarded_accepts(self.predicate(), self.consumer(), t)
    }

    pub open spec fn performs(&self, t: T) -> bool {
        guarded_performs(self.predicate(), self.consumer(), t)
    }

    /// This conditional consumer followed by `next`, which acts on every value.
    pub fn and_then<C>(self, next: C) -> (res: BoxStatefulConsumer<T>)
        where
            C: StatefulConsumer<T> + 'static,
        ensures
            forall|t: T| #[trigger] res.accepts(t) == both_accepts(self, next, t),
            forall|t: T| #[trigger] res.performs(t) == both_performs(self, next, t),
            res.spec_name() is None,
    {
        BoxStatefulConsumer::from_call_mut(BothMut { first: Counted::new(self), second: Counted::new(next) }, None)
    }

    /// The consumer that runs the guarded consumer where the predicate holds
    /// and `else_consumer` elsewhere.
    pub fn or_else<C>(self, else_consumer: C) -> (res: BoxStatefulConsumer<T>)
        where
            C: StatefulConsumer<T> + 'static,
        ensures
            forall|t: T| #[trigger] res.accepts(t) == choice_accepts(self.predicate(), self.consumer(), else_consumer, t),
            forall|t: T| #[trigger] res.performs(t) == choice_performs(self.predicate(), self.consumer(), else_consumer, t),
            res.spec_name() is None,
    {
        BoxStatefulConsumer::from_call_mut(
            ChooseMut { predicate: self.predicate, on_true: self.consumer, on_false: Counted::new(else_consumer) },
            None,
        )
    }
}

impl<T: 'static> CallMut1<T, ()> for BoxConditionalStatefulConsumer<T> {
    closed spec fn pre(&self, t: T) -> bool {
        self.accepts(t)
    }

    closed spec fn post(&self, t: T, r: ()) -> bool {
        self.performs(t)
    }

    closed spec fn part_calls(&self) -> (nat, nat) {
        (self.consumer.calls(), 0)
    }

    closed spec fn part_step(&self, t: T, before: (nat, nat), after: (nat, nat)) -> bool {
        guarded_step(self.predicate.produces(t, true), self.predicate.produces(t, false), before, after)
    }

    fn call_mut(&mut self, t: &T) {
        if self.predicate.test(t) {
            self.consumer.accept(t);
        }
    }
}

impl<T: 'static> CallOnce1<T, ()> for BoxConditionalStatefulConsumer<T> {
    closed spec fn pre(&self, t: T) -> bool {
        self.accepts(t)
    }

    closed spec fn post(&self, t: T, r: ()) -> bool {
        self.performs(t)
    }

    fn call_once(self: Box<Self>, t: &T) {
        let mut c = *self;
        c.call_mut(t)
    }
}

impl<T: 'static> StatefulConsumer<T> for BoxConditionalStatefulConsumer<T> {
    open spec fn accepts(&self, t: T) -> bool {
        BoxConditionalStatefulConsumer::accepts(self, t)
    }

    open spec fn performs(&self, t: T) -> bool {
        BoxConditionalStatefulConsumer::performs(self, t)
    }

    fn accept(&mut self, value: &T)
        ensures
            guarded_step(
                old(self).predicate().produces(*value, true),
                old(self).predicate().produces(*value, false),
                (old(self).consumer_calls(), 0),
                (final(self).consumer_calls(), 0),
            ),
            final(self).predicate() == old(self).predicate(),
    {
        if self.predicate.test(value) {
            self.consumer.accept(value);
        }
    }

    fn into_box(self) -> (res: BoxStatefulConsumer<T>)
        where
            Self: Sized + 'static,
            T: 'static,
        ensures
            forall|t: T| #[trigger] res.accepts(t) == self.accepts(t),
            forall|t: T| #[trigger] res.performs(t) == self.performs(t),
            res.spec_name() is None,
    {
        BoxStatefulConsumer::from_call_mut(self, None)
    }

    fn into_rc(self) -> (res: RcStatefulConsumer<T>)
        where
            Self: Sized + 'static,
            T: 'static,
        ensures
            forall|t: T| #[trigger] res.accepts(t) == self.accepts(t),
            forall|t: T| #[trigger] res.performs(t) == self.performs(t),
            res.spec_name() is None,
    {
        RcStatefulConsumer::from_call_mut(self, None)
    }

    fn into_arc(self) -> (res: ArcStatefulConsumer<T>)
        where
            Self: Sized + Send + Sync + 'static,
            T: 'static,
        ensures
            forall|t: T| #[trigger] res.accepts(t) == self.accepts(t),
            forall|t: T| #[trigger] res.performs(t) == self.performs(t),
            res.spec_name() is None,
    {
        ArcStatefulConsumer::from_call_mut(self, None)
    }

    fn into_once(self) -> (res: BoxConsumerOnce<T>)
        where
            Self: Sized + 'static,
            T: 'static,
        ensures
            forall|t: T| #[trigger] res.accepts(t) == self.accepts(t),
            forall|t: T| #[trigger] res.performs(t) == self.performs(t),
            res.spec_name() is None,
    {
        BoxConsumerOnce::from_call_once(self, None)
    }

    fn to_box(&self) -> (res: BoxStatefulConsumer<T>)
        where
            Self: Clone + 'static,
            T: 'static,
    {
        let c = self.clone();
        let res = BoxStatefulConsumer::from_call_mut(c, None);
        assert(cloned::<Self>(*self, c));
        res
    }

    fn to_rc(&self) -> (res: RcStatefulConsumer<T>)
        where
            Self: Clone + 'static,
            T: 'static,
    {
        let c = self.clone();
        let res = RcStatefulConsumer::from_call_mut(c, None);
        assert(cloned::<Self>(*self, c));
        res
    }

    fn to_arc(&self) -> (res: ArcStatefulConsumer<T>)
        where
            Self: Clone + Send + Sync + 'static,
            T: 'static,
    {
        let c = self.clone();
        let res = ArcStatefulConsumer::from_call_mut(c, None);
        assert(cloned::<Self>(*self, c));
        res
    }

    fn to_once(&self) -> (res: BoxConsumerOnce<T>)
        where
            Self: Clone + 'static,
            T: 'static,
    {
        let c = self.clone();
        let res = BoxConsumerOnce::from_call_once(c, None);
        assert(cloned::<Self>(*self, c));
        res
    }
}

/// A stateful consumer behind an `Rc` and a lock: shared within one thread;
/// every clone calls the same consumer and sees the state that the others
/// left.
#[verifier::reject_recursive_types(T)]
pub struct RcStatefulConsumer<T> {
    function: Rc<LockedCallMut1<T, ()>>,
    name: Option<String>,
}

impl<T> RcStatefulConsumer<T> {
    pub closed spec fn accepts(&self, t: T) -> bool {
        self.function.pre(t)
    }

    pub closed spec fn performs(&self, t: T) -> bool {
        self.function.post(t, ())
    }

    pub closed spec fn spec_name(&self) -> Option<Seq<char>> {
        name_view(self.name)
    }

    pub(crate) fn from_call_mut<C: CallMut1<T, ()> + 'static>(c: C, name: Option<String>) -> (res: Self)
        ensures
            forall|t: T| #[trigger] res.accepts(t) == c.pre(t),
            forall|t: T| #[trigger] res.performs(t) == c.post(t, ()),
            res.spec_name() == name_view(name),
    {
        RcStatefulConsumer { function: Rc::new(LockedCallMut1::new(c)), name }
    }

    /// Wraps the closure `f`.
    pub fn new<F>(f: F) -> (res: Self)
        where
            F: FnMut(&T) + 'static,
        ensures
            forall|t: T| #[trigger] res.accepts(t) == call_requires(f, (&t,)),
            forall|t: T| #[trigger] res.performs(t) == call_ensures(f, (&t,), ()),
            res.spec_name() is None,
    {
        Self::from_call_mut(f, None)
    }

    /// Wraps the closure `f` under the name `name`.
    pub fn new_with_name<F>(name: &str, f: F) -> (res: Self)
        where
            F: FnMut(&T) + 'static,
        ensures
            forall|t: T| #[trigger] res.accepts(t) == call_requires(f, (&t,)),
            forall|t: T| #[trigger] res.performs(t) == call_ensures(f, (&t,), ()),
            res.spec_name() == Some(name@),
    {
        Self::from_call_mut(f, owned_name(name))
    }

    /// Wraps the closure `f` under the name `name`, if there is one.
    pub fn new_with_optional_name<F>(f: F, name: Option<String>) -> (res: Self)
        where
            F: FnMut(&T) + 'static,
        ensures
            forall|t: T| #[trigger] res.accepts(t) == call_requires(f, (&t,)),
            forall|t: T| #[trigger] res.performs(t) == call_ensures(f, (&t,), ()),
            res.spec_name() == name_view(name),
    {
        Self::from_call_mut(f, name)
    }

    /// A consumer that does nothing.
    pub fn noop() -> (res: Self)
        ensures
            forall|t: T| #[trigger] res.accepts(t),
            forall|t: T| #[trigger] res.performs(t),
            res.spec_name() is None,
    {
        Self::from_call_mut(Noop, None)
    }

    /// The name of this consumer, if it has one.
    pub fn name(&self) -> (res: Option<&str>)
        ensures
            match res {
                Some(s) => self.spec_name() == Some(s@),
                None => self.spec_name() is None,
            },
    {
        name_str(&self.name)
    }

    /// Gives this consumer the name `name`; its behaviour stays the same.
    pub fn set_name(&mut self, name: &str)
        ensures
            final(self).spec_name() == Some(name@),
            forall|t: T| #[trigger] final(self).accepts(t) == old(self).accepts(t),
            forall|t: T| #[trigger] final(self).performs(t) == old(self).performs(t),
    {
        self.name = owned_name(name);
    }

    /// Restricts a clone of this consumer to the values on which `predicate` holds.
    pub fn when<P>(&self, predicate: P) -> (res: RcConditionalStatefulConsumer<T>)
        where
            P: Predicate<T> + 'static,
            T: 'static,
        ensures
            res.consumer() == *self,
            res.consumer_calls() == 0,
            forall|t: T| predicate.accepts(t) ==> #[trigger] res.predicate().accepts(t),
            forall|t: T, b: bool| #[trigger] res.predicate().produces(t, b) ==> predicate.produces(t, b),
    {
        RcConditionalStatefulConsumer { consumer: Counted::new(self.duplicate()), predicate: predicate.into_rc() }
    }

    /// A clone of this consumer followed by `after`, on the same value.
    pub fn and_then<C>(&self, after: C) -> (res: RcStatefulConsumer<T>)
        where
            C: StatefulConsumer<T> + 'static,
            T: 'static,
        ensures
            forall|t: T| #[trigger] res.accepts(t) == both_accepts(*self, after, t),
            forall|t: T| #[trigger] res.performs(t) == both_performs(*self, after, t),
            res.spec_name() is None,
    {
        RcStatefulConsumer::from_call_mut(BothMut { first: Counted::new(self.duplicate()), second: Counted::new(after) }, None)
    }

    /// This consumer as a plain closure.
    pub fn into_fn(self) -> (res: impl FnMut(&T))
        ensures
            forall|t: T| self.accepts(t) ==> call_requires(res, (&t,)),
            forall|t: T| call_ensures(res, (&t,), ()) ==> self.performs(t),
    {
        move |t: &T|
            requires
                self.accepts(*t),
            ensures
                self.performs(*t),
        {
            self.function.call(t)
        }
    }

    /// A clone of this consumer as a plain closure.
    pub fn to_fn(&self) -> (res: impl FnMut(&T))
        ensures
            forall|t: T| self.accepts(t) ==> call_requires(res, (&t,)),
            forall|t: T| call_ensures(res, (&t,), ()) ==> self.performs(t),
    {
        self.duplicate().into_fn()
    }

    fn duplicate(&self) -> (res: Self)
        ensures
            res == *self,
    {
        RcStatefulConsumer { function: self.function.clone(), name: clone_name(&self.name) }
    }
}

impl<T> CallMut1<T, ()> for RcStatefulConsumer<T> {
    closed spec fn pre(&self, t: T) -> bool {
        self.accepts(t)
    }

    closed spec fn post(&self, t: T, r: ()) -> bool {
        self.performs(t)
    }

    fn call_mut(&mut self, t: &T) {
        self.function.call(t)
    }
}

impl<T> CallOnce1<T, ()> for RcStatefulConsumer<T> {
    closed spec fn pre(&self, t: T) -> bool {
        self.accepts(t)
    }

    closed spec fn post(&self, t: T, r: ()) -> bool {
        self.performs(t)
    }

    fn call_once(self: Box<Self>, t: &T) {
        let mut c = *self;
        c.call_mut(t)
    }
}

impl<T> Clone for RcStatefulConsumer<T> {
    fn clone(&self) -> (res: Self)
        ensures
            res == *self,
    {
        self.duplicate()
    }
}

impl<T> StatefulConsumer<T> for RcStatefulConsumer<T> {
    open spec fn accepts(&self, t: T) -> bool {
        RcStatefulConsumer::accepts(self, t)
    }

    open spec fn performs(&self, t: T) -> bool {
        RcStatefulConsumer::performs(self, t)
    }

    fn accept(&mut self, value: &T)
        ensures
            *final(self) == *old(self),
    {
        self.function.call(value)
    }

    fn into_box(self) -> (res: BoxStatefulConsumer<T>)
        where
            Self: Sized + 'static,
            T: 'static,
        ensures
            forall|t: T| #[trigger] res.accepts(t) == self.accepts(t),
            forall|t: T| #[trigger] res.performs(t) == self.performs(t),
            res.spec_name() == self.spec_name(),
    {
        let name = clone_name(&self.name);
        BoxStatefulConsumer::from_call_mut(self, name)
    }

    fn into_rc(self) -> (res: RcStatefulConsumer<T>)
        where
            Self: Sized + 'static,
            T: 'static,
        ensures
            res == self,
    {
        self
    }

    fn into_arc(self) -> (res: ArcStatefulConsumer<T>)
        where
            Self: Sized + Send + Sync + 'static,
            T: 'static,
        ensures
            forall|t: T| #[trigger] res.accepts(t) == self.accepts(t),
            forall|t: T| #[trigger] res.performs(t) == self.performs(t),
            res.spec_name() == self.spec_name(),
    {
        let name = clone_name(&self.name);
        ArcStatefulConsumer::from_call_mut(self, name)
    }

    fn into_once(self) -> (res: BoxConsumerOnce<T>)
        where
            Self: Sized + 'static,
            T: 'static,
        ensures
            forall|t: T| #[trigger] res.accepts(t) == self.accepts(t),
            forall|t: T| #[trigger] res.performs(t) == self.performs(t),
            res.spec_name() == self.spec_name(),
    {
        let name = clone_name(&self.name);
        BoxConsumerOnce::from_call_once(self, name)
    }

    fn to_box(&self) -> (res: BoxStatefulConsumer<T>)
        where
            Self: Clone + 'static,
            T: 'static,
        ensures
            forall|t: T| #[trigger] res.accepts(t) == self.accepts(t),
            forall|t: T| #[trigger] res.performs(t) == self.performs(t),
            res.spec_name() == self.spec_name(),
    {
        let res = BoxStatefulConsumer::from_call_mut(self.duplicate(), clone_name(&self.name));
        assert(cloned::<Self>(*self, *self));
        res
    }

    fn to_rc(&self) -> (res: RcStatefulConsumer<T>)
        where
            Self: Clone + 'static,
            T: 'static,
        ensures
            res == *self,
    {
        let res = self.duplicate();
        assert(cloned::<Self>(*self, *self));
        res
    }

    fn to_arc(&self) -> (res: ArcStatefulConsumer<T>)
        where
            Self: Clone + Send + Sync + 'static,
            T: 'static,
        ensures
            forall|t: T| #[trigger] res.accepts(t) == self.accepts(t),
            forall|t: T| #[trigger] res.performs(t) == self.performs(t),
            res.spec_name() == self.spec_name(),
    {
        let res = ArcStatefulConsumer::from_call_mut(self.duplicate(), clone_name(&self.name));
        assert(cloned::<Self>(*self, *self));
        res
    }

    fn to_once(&self) -> (res: BoxConsumerOnce<T>)
        where
            Self: Clone + 'static,
            T: 'static,
        ensures
            forall|t: T| #[trigger] res.accepts(t) == self.accepts(t),
            forall|t: T| #[trigger] res.performs(t) == self.performs(t),
            res.spec_name() == self.spec_name(),
    {
        let res = BoxConsumerOnce::from_call_once(self.duplicate(), clone_name(&self.name));
        assert(cloned::<Self>(*self, *self));
        res
    }
}

/// A [`RcStatefulConsumer`] that acts only on the values that a predicate accepts.
#[verifier::reject_recursive_types(T)]
pub struct RcConditionalStatefulConsumer<T> {
    consumer: Counted<RcStatefulConsumer<T>>,
    predicate: RcPredicate<T>,
}

impl<T: 'static> RcConditionalStatefulConsumer<T> {
    pub closed spec fn consumer(&self) -> RcStatefulConsumer<T> {
        self.consumer.inner()
    }

    /// How many times this conditional consumer has run its consumer.
    pub closed spec fn consumer_calls(&self) -> nat {
        self.consumer.calls()
    }

    pub closed spec fn predicate(&self) -> RcPredicate<T> {
        self.predicate
    }

    pub open spec fn accepts(&self, t: T) -> bool {
        guarded_accepts(self.predicate(), self.consumer(), t)
    }

    pub open spec fn performs(&self, t: T) -> bool {
        guarded_performs(self.predicate(), self.consumer(), t)
    }

    /// A clone of this conditional consumer followed by `next`, which acts on every value.
    pub fn and_then<C>(&self, next: C) -> (res: RcStatefulConsumer<T>)
        where
            C: StatefulConsumer<T> + 'static,
        ensures
            forall|t: T| #[trigger] res.accepts(t) == both_accepts(*self, next, t),
            forall|t: T| #[trigger] res.performs(t) == both_performs(*self, next, t),
            res.spec_name() is None,
    {
        RcStatefulConsumer::from_call_mut(BothMut { first: Counted::new(self.duplicate()), second: Counted::new(next) }, None)
    }

    /// The consumer that runs the guarded consumer where the predicate holds
    /// and `else_consumer` elsewhere.
    pub fn or_else<C>(&self, else_consumer: C) -> (res: RcStatefulConsumer<T>)
        where
            C: StatefulConsumer<T> + 'static,
        ensures
            forall|t: T| #[trigger] res.accepts(t) == choice_accepts(self.predicate(), self.consumer(), else_consumer, t),
            forall|t: T| #[trigger] res.performs(t) == choice_performs(self.predicate(), self.consumer(), else_consumer, t),
            res.spec_name() is None,
    {
        RcStatefulConsumer::from_call_mut(
            ChooseMut { predicate: self.predicate.clone(), on_true: self.consumer.with_copy(self.consumer.get().clone()), on_false: Counted::new(else_consumer) },
            None,
        )
    }

    fn duplicate(&self) -> (res: Self)
        ensures
            res == *self,
    {
        RcConditionalStatefulConsumer { consumer: self.consumer.with_copy(self.consumer.get().clone()), predicate: self.predicate.clone() }
    }
}

impl<T: 'static> CallMut1<T, ()> for RcConditionalStatefulConsumer<T> {
    closed spec fn pre(&self, t: T) -> bool {
        self.accepts(t)
    }

    closed spec fn post(&self, t: T, r: ()) -> bool {
        self.performs(t)
    }

    closed spec fn part_calls(&self) -> (nat, nat) {
        (self.consumer.calls(), 0)
    }

    closed spec fn part_step(&self, t: T, before: (nat, nat), after: (nat, nat)) -> bool {
        guarded_step(self.predicate.produces(t, true), self.predicate.produces(t, false), before, after)
    }

    fn call_mut(&mut self, t: &T) {
        if self.predicate.test(t) {
            self.consumer.accept(t);
        }
    }
}

impl<T: 'static> CallOnce1<T, ()> for RcConditionalStatefulConsumer<T> {
    closed spec fn pre(&self, t: T) -> bool {
        self.accepts(t)
    }

    closed spec fn post(&self, t: T, r: ()) -> bool {
        self.performs(t)
    }

    fn call_once(self: Box<Self>, t: &T) {
        let mut c = *self;
        c.call_mut(t)
    }
}

impl<T: 'static> Clone for RcConditionalStatefulConsumer<T> {
    fn clone(&self) -> (res: Self)
        ensures
            res == *self,
    {
        self.duplicate()
    }
}

impl<T: 'static> StatefulConsumer<T> for RcConditionalStatefulConsumer<T> {
    open spec fn accepts(&self, t: T) -> bool {
        RcConditionalStatefulConsumer::accepts(self, t)
    }

    open spec fn performs(&self, t: T) -> bool {
        RcConditionalStatefulConsumer::performs(self, t)
    }

    fn accept(&mut self, value: &T)
        ensures
            guarded_step(
                old(self).predicate().produces(*value, true),
                old(self).predicate().produces(*value, false),
                (old(self).consumer_calls(), 0),
                (final(self).consumer_calls(), 0),
            ),
            final(self).predicate() == old(self).predicate(),
    {
        if self.predicate.test(value) {
            self.consumer.accept(value);
        }
    }

    fn into_box(self) -> (res: BoxStatefulConsumer<T>)
        where
            Self: Sized + 'static,
            T: 'static,
        ensures
            forall|t: T| #[trigger] res.accepts(t) == self.accepts(t),
            forall|t: T| #[trigger] res.performs(t) == self.performs(t),
            res.spec_name() is None,
    {
        BoxStatefulConsumer::from_call_mut(self, None)
    }

    fn into_rc(self) -> (res: RcStatefulConsumer<T>)
        where
            Self: Sized + 'static,
            T: 'static,
        ensures
            forall|t: T| #[trigger] res.accepts(t) == self.accepts(t),
            forall|t: T| #[trigger] res.performs(t) == self.performs(t),
            res.spec_name() is None,
    {
        RcStatefulConsumer::from_call_mut(self, None)
    }

    fn into_arc(self) -> (res: ArcStatefulConsumer<T>)
        where
            Self: Sized + Send + Sync + 'static,
            T: 'static,
        ensures
            forall|t: T| #[trigger] res.accepts(t) == self.accepts(t),
            forall|t: T| #[trigger] res.performs(t) == self.performs(t),
            res.spec_name() is None,
    {
        ArcStatefulConsumer::from_call_mut(self, None)
    }

    fn into_once(self) -> (res: BoxConsumerOnce<T>)
        where
            Self: Sized + 'static,
            T: 'static,
        ensures
            forall|t: T| #[trigger] res.accepts(t) == self.accepts(t),
            forall|t: T| #[trigger] res.performs(t) == self.performs(t),
            res.spec_name() is None,
    {
        BoxConsumerOnce::from_call_once(self, None)
    }

    fn to_box(&self) -> (res: BoxStatefulConsumer<T>)
        where
            Self: Clone + 'static,
            T: 'static,
        ensures
            forall|t: T| #[trigger] res.accepts(t) == self.accepts(t),
            forall|t: T| #[trigger] res.performs(t) == self.performs(t),
            res.spec_name() is None,
    {
        let res = BoxStatefulConsumer::from_call_mut(self.duplicate(), None);
        assert(cloned::<Self>(*self, *self));
        res
    }

    fn to_rc(&self) -> (res: RcStatefulConsumer<T>)
        where
            Self: Clone + 'static,
            T: 'static,
        ensures
            forall|t: T| #[trigger] res.accepts(t) == self.accepts(t),
            forall|t: T| #[trigger] res.performs(t) == self.performs(t),
            res.spec_name() is None,
    {
        let res = RcStatefulConsumer::from_call_mut(self.duplicate(), None);
        assert(cloned::<Self>(*self, *self));
        res
    }

    fn to_arc(&self) -> (res: ArcStatefulConsumer<T>)
        where
            Self: Clone + Send + Sync + 'static,
            T: 'static,
        ensures
            forall|t: T| #[trigger] res.accepts(t) == self.accepts(t),
            forall|t: T| #[trigger] res.performs(t) == self.performs(t),
            res.spec_name() is None,
    {
        let res = ArcStatefulConsumer::from_call_mut(self.duplicate(), None);
        assert(cloned::<Self>(*self, *self));
        res
    }

    fn to_once(&self) -> (res: BoxConsumerOnce<T>)
        where
            Self: Clone + 'static,
            T: 'static,
        ensures
            forall|t: T| #[trigger] res.accepts(t) == self.accepts(t),
            forall|t: T| #[trigger] res.performs(t) == self.performs(t),
            res.spec_name() is None,
    {
        let res = BoxConsumerOnce::from_call_once(self.duplicate(), None);
        assert(cloned::<Self>(*self, *self));
        res
    }
}

/// A stateful consumer behind an `Arc` and a lock: shared between threads;
/// every clone calls the same consumer and sees the state that the others
/// left.
#[verifier::reject_recursive_types(T)]
pub struct ArcStatefulConsumer<T> {
    function: Arc<LockedSyncCallMut1<T, ()>>,
    name: Option<String>,
}

impl<T> ArcStatefulConsumer<T> {
    pub closed spec fn accepts(&self, t: T) -> bool {
        self.function.pre(t)
    }

    pub closed spec fn performs(&self, t: T) -> bool {
        self.function.post(t, ())
    }

    pub closed spec fn spec_name(&self) -> Option<Seq<char>> {
        name_view(self.name)
    }

    pub(crate) fn from_call_mut<C: CallMut1<T, ()> + Send + Sync + 'static>(c: C, name: Option<String>) -> (res: Self)
        ensures
            forall|t: T| #[trigger] res.accepts(t) == c.pre(t),
            forall|t: T| #[trigger] res.performs(t) == c.post(t, ()),
            res.spec_name() == name_view(name),
    {
        ArcStatefulConsumer { function: Arc::new(LockedSyncCallMut1::new(c)), name }
    }

    /// Wraps the closure `f`.
    pub fn new<F>(f: F) -> (res: Self)
        where
            F: FnMut(&T) + Send + Sync + 'static,
        ensures
            forall|t: T| #[trigger] res.accepts(t) == call_requires(f, (&t,)),
            forall|t: T| #[trigger] res.performs(t) == call_ensures(f, (&t,), ()),
            res.spec_name() is None,
    {
        Self::from_call_mut(f, None)
    }

    /// Wraps the closure `f` under the name `name`.
    pub fn new_with_name<F>(name: &str, f: F) -> (res: Self)
        where
            F: FnMut(&T) + Send + Sync + 'static,
        ensures
            forall|t: T| #[trigger] res.accepts(t) == call_requires(f, (&t,)),
            forall|t: T| #[trigger] res.performs(t) == call_ensures(f, (&t,), ()),
            res.spec_name() == Some(name@),
    {
        Self::from_call_mut(f, owned_name(name))
    }

    /// Wraps the closure `f` under the name `name`, if there is one.
    pub fn new_with_optional_name<F>(f: F, name: Option<String>) -> (res: Self)
        where
            F: FnMut(&T) + Send + Sync + 'static,
        ensures
            forall|t: T| #[trigger] res.accepts(t) == call_requires(f, (&t,)),
            forall|t: T| #[trigger] res.performs(t) == call_ensures(f, (&t,), ()),
            res.spec_name() == name_view(name),
    {
        Self::from_call_mut(f, name)
    }

    /// A consumer that does nothing.
    pub fn noop() -> (res: Self)
        ensures
            forall|t: T| #[trigger] res.accepts(t),
            forall|t: T| #[trigger] res.performs(t),
            res.spec_name() is None,
    {
        Self::from_call_mut(Noop, None)
    }

    /// The name of this consumer, if it has one.
    pub fn name(&self) -> (res: Option<&str>)
        ensures
            match res {
                Some(s) => self.spec_name() == Some(s@),
                None => self.spec_name() is None,
            },
    {
        name_str(&self.name)
    }

    /// Gives this consumer the name `name`; its behaviour stays the same.
    pub fn set_name(&mut self, name: &str)
        ensures
            final(self).spec_name() == Some(name@),
            forall|t: T| #[trigger] final(self).accepts(t) == old(self).accepts(t),
            forall|t: T| #[trigger] final(self).performs(t) == old(self).performs(t),
    {
        self.name = owned_name(name);
    }

    /// Restricts a clone of this consumer to the values on which `predicate` holds.
    pub fn when<P>(&self, predicate: P) -> (res: ArcConditionalStatefulConsumer<T>)
        where
            P: Predicate<T> + Send + Sync + 'static,
            T: 'static,
        ensures
            res.consumer() == *self,
            res.consumer_calls() == 0,
            forall|t: T| predicate.accepts(t) ==> #[trigger] res.predicate().accepts(t),
            forall|t: T, b: bool| #[trigger] res.predicate().produces(t, b) ==> predicate.produces(t, b),
    {
        ArcConditionalStatefulConsumer { consumer: Counted::new(self.duplicate()), predicate: predicate.into_arc() }
    }

    /// A clone of this consumer followed by `after`, on the same value.
    pub fn and_then<C>(&self, after: C) -> (res: ArcStatefulConsumer<T>)
        where
            C: StatefulConsumer<T> + Send + Sync + 'static,
            T: 'static,
        ensures
            forall|t: T| #[trigger] res.accepts(t) == both_accepts(*self, after, t),
            forall|t: T| #[trigger] res.performs(t) == both_performs(*self, after, t),
            res.spec_name() is None,
    {
        ArcStatefulConsumer::from_call_mut(BothMut { first: Counted::new(self.duplicate()), second: Counted::new(after) }, None)
    }

    /// This consumer as a plain closure.
    pub fn into_fn(self) -> (res: impl FnMut(&T))
        ensures
            forall|t: T| self.accepts(t) ==> call_requires(res, (&t,)),
            forall|t: T| call_ensures(res, (&t,), ()) ==> self.performs(t),
    {
        move |t: &T|
            requires
                self.accepts(*t),
            ensures
                self.performs(*t),
        {
            self.function.call(t)
        }
    }

    /// A clone of this consumer as a plain closure.
    pub fn to_fn(&self) -> (res: impl FnMut(&T))
        ensures
            forall|t: T| self.accepts(t) ==> call_requires(res, (&t,)),
            forall|t: T| call_ensures(res, (&t,), ()) ==> self.performs(t),
    {
        self.duplicate().into_fn()
    }

    fn duplicate(&self) -> (res: Self)
        ensures
            res == *self,
    {
        ArcStatefulConsumer { function: self.function.clone(), name: clone_name(&self.name) }
    }
}

impl<T> CallMut1<T, ()> for ArcStatefulConsumer<T> {
    closed spec fn pre(&self, t: T) -> bool {
        self.accepts(t)
    }

    closed spec fn post(&self, t: T, r: ()) -> bool {
        self.performs(t)
    }

    fn call_mut(&mut self, t: &T) {
        self.function.call(t)
    }
}

impl<T> CallOnce1<T, ()> for ArcStatefulConsumer<T> {
    closed spec fn pre(&self, t: T) -> bool {
        self.accepts(t)
    }

    closed spec fn post(&self, t: T, r: ()) -> bool {
        self.performs(t)
    }

    fn call_once(self: Box<Self>, t: &T) {
        let mut c = *self;
        c.call_mut(t)
    }
}

impl<T> Clone for ArcStatefulConsumer<T> {
    fn clone(&self) -> (res: Self)
        ensures
            res == *self,
    {
        self.duplicate()
    }
}

impl<T> StatefulConsumer<T> for ArcStatefulConsumer<T> {
    open spec fn accepts(&self, t: T) -> bool {
        ArcStatefulConsumer::accepts(self, t)
    }

    open spec fn performs(&self, t: T) -> bool {
        ArcStatefulConsumer::performs(self, t)
    }

    fn accept(&mut self, value: &T)
        ensures
            *final(self) == *old(self),
    {
        self.function.call(value)
    }

    fn into_box(self) -> (res: BoxStatefulConsumer<T>)
        where
            Self: Sized + 'static,
            T: 'static,
        ensures
            forall|t: T| #[trigger] res.accepts(t) == self.accepts(t),
            forall|t: T| #[trigger] res.performs(t) == self.performs(t),
            res.spec_name() == self.spec_name(),
    {
        let name = clone_name(&self.name);
        BoxStatefulConsumer::from_call_mut(self, name)
    }

    fn into_rc(self) -> (res: RcStatefulConsumer<T>)
        where
            Self: Sized + 'static,
            T: 'static,
        ensures
            forall|t: T| #[trigger] res.accepts(t) == self.accepts(t),
            forall|t: T| #[trigger] res.performs(t) == self.performs(t),
            res.spec_name() == self.spec_name(),
    {
        let name = clone_name(&self.name);
        RcStatefulConsumer::from_call_mut(self, name)
    }

    fn into_arc(self) -> (res: ArcStatefulConsumer<T>)
        where
            Self: Sized + Send + Sync + 'static,
            T: 'static,
        ensures
            res == self,
    {
        self
    }

    fn into_once(self) -> (res: BoxConsumerOnce<T>)
        where
            Self: Sized + 'static,
            T: 'static,
        ensures
            forall|t: T| #[trigger] res.accepts(t) == self.accepts(t),
            forall|t: T| #[trigger] res.performs(t) == self.performs(t),
            res.spec_name() == self.spec_name(),
    {
        let name = clone_name(&self.name);
        BoxConsumerOnce::from_call_once(self, name)
    }

    fn to_box(&self) -> (res: BoxStatefulConsumer<T>)
        where
            Self: Clone + 'static,
            T: 'static,
        ensures
            forall|t: T| #[trigger] res.accepts(t) == self.accepts(t),
            forall|t: T| #[trigger] res.performs(t) == self.performs(t),
            res.spec_name() == self.spec_name(),
    {
        let res = BoxStatefulConsumer::from_call_mut(self.duplicate(), clone_name(&self.name));
        assert(cloned::<Self>(*self, *self));
        res
    }

    fn to_rc(&self) -> (res: RcStatefulConsumer<T>)
        where
            Self: Clone + 'static,
            T: 'static,
        ensures
            forall|t: T| #[trigger] res.accepts(t) == self.accepts(t),
            forall|t: T| #[trigger] res.performs(t) == self.performs(t),
            res.spec_name() == self.spec_name(),
    {
        let res = RcStatefulConsumer::from_call_mut(self.duplicate(), clone_name(&self.name));
        assert(cloned::<Self>(*self, *self));
        res
    }

    fn to_arc(&self) -> (res: ArcStatefulConsumer<T>)
        where
            Self: Clone + Send + Sync + 'static,
            T: 'static,
        ensures
            res == *self,
    {
        let res = self.duplicate();
        assert(cloned::<Self>(*self, *self));
        res
    }

    fn to_once(&self) -> (res: BoxConsumerOnce<T>)
        where
            Self: Clone + 'static,
            T: 'static,
        ensures
            forall|t: T| #[trigger] res.accepts(t) == self.accepts(t),
            forall|t: T| #[trigger] res.performs(t) == self.performs(t),
            res.spec_name() == self.spec_name(),
    {
        let res = BoxConsumerOnce::from_call_once(self.duplicate(), clone_name(&self.name));
        assert(cloned::<Self>(*self, *self));
        res
    }
}

/// A [`ArcStatefulConsumer`] that acts only on the values that a predicate accepts.
#[verifier::reject_recursive_types(T)]
pub struct ArcConditionalStatefulConsumer<T> {
    consumer: Counted<ArcStatefulConsumer<T>>,
    predicate: ArcPredicate<T>,
}

impl<T: 'static> ArcConditionalStatefulConsumer<T> {
    pub closed spec fn consumer(&self) -> ArcStatefulConsumer<T> {
        self.consumer.inner()
    }

    /// How many times this conditional consumer has run its consumer.
    pub closed spec fn consumer_calls(&self) -> nat {
        self.consumer.calls()
    }

    pub closed spec fn predicate(&self) -> ArcPredicate<T> {
        self.predicate
    }

    pub open spec fn accepts(&self, t: T) -> bool {
        guarded_accepts(self.predicate(), self.consumer(), t)
    }

    pub open spec fn performs(&self, t: T) -> bool {
        guarded_performs(self.predicate(), self.consumer(), t)
    }

    /// A clone of this conditional consumer followed by `next`, which acts on every value.
    pub fn and_then<C>(&self, next: C) -> (res: ArcStatefulConsumer<T>)
        where
            C: StatefulConsumer<T> + Send + Sync + 'static,
        ensures
            forall|t: T| #[trigger] res.accepts(t) == both_accepts(*self, next, t),
            forall|t: T| #[trigger] res.performs(t) == both_performs(*self, next, t),
            res.spec_name() is None,
    {
        ArcStatefulConsumer::from_call_mut(BothMut { first: Counted::new(self.duplicate()), second: Counted::new(next) }, None)
    }

    /// The consumer that runs the guarded consumer where the predicate holds
    /// and `else_consumer` elsewhere.
    pub fn or_else<C>(&self, else_consumer: C) -> (res: ArcStatefulConsumer<T>)
        where
            C: StatefulConsumer<T> + Send + Sync + 'static,
        ensures
            forall|t: T| #[trigger] res.accepts(t) == choice_accepts(self.predicate(), self.consumer(), else_consumer, t),
            forall|t: T| #[trigger] res.performs(t) == choice_performs(self.predicate(), self.consumer(), else_consumer, t),
            res.spec_name() is None,
    {
        ArcStatefulConsumer::from_call_mut(
            ChooseMut { predicate: self.predicate.clone(), on_true: self.consumer.with_copy(self.consumer.get().clone()), on_false: Counted::new(else_consumer) },
            None,
        )
    }

    fn duplicate(&self) -> (res: Self)
        ensures
            res == *self,
    {
        ArcConditionalStatefulConsumer { consumer: self.consumer.with_copy(self.consumer.get().clone()), predicate: self.predicate.clone() }
    }
}

impl<T: 'static> CallMut1<T, ()> for ArcConditionalStatefulConsumer<T> {
    closed spec fn pre(&self, t: T) -> bool {
        self.accepts(t)
    }

    closed spec fn post(&self, t: T, r: ()) -> bool {
        self.performs(t)
    }

    closed spec fn part_calls(&self) -> (nat, nat) {
        (self.consumer.calls(), 0)
    }

    closed spec fn part_step(&self, t: T, before: (nat, nat), after: (nat, nat)) -> bool {
        guarded_step(self.predicate.produces(t, true), self.predicate.produces(t, false), before, after)
    }

    fn call_mut(&mut self, t: &T) {
        if self.predicate.test(t) {
            self.consumer.accept(t);
        }
    }
}

impl<T: 'static> CallOnce1<T, ()> for ArcConditionalStatefulConsumer<T> {
    closed spec fn pre(&self, t: T) -> bool {
        self.accepts(t)
    }

    closed spec fn post(&self, t: T, r: ()) -> bool {
        self.performs(t)
    }

    fn call_once(self: Box<Self>, t: &T) {
        let mut c = *self;
        c.call_mut(t)
    }
}

impl<T: 'static> Clone for ArcConditionalStatefulConsumer<T> {
    fn clone(&self) -> (res: Self)
        ensures
            res == *self,
    {
        self.duplicate()
    }
}

impl<T: 'static> StatefulConsumer<T> for ArcConditionalStatefulConsumer<T> {
    open spec fn accepts(&self, t: T) -> bool {
        ArcConditionalStatefulConsumer::accepts(self, t)
    }

    open spec fn performs(&self, t: T) -> bool {
        ArcConditionalStatefulConsumer::performs(self, t)
    }

    fn accept(&mut self, value: &T)
        ensures
            guarded_step(
                old(self).predicate().produces(*value, true),
                old(self).predicate().produces(*value, false),
                (old(self).consumer_calls(), 0),
                (final(self).consumer_calls(), 0),
            ),
            final(self).predicate() == old(self).predicate(),
    {
        if self.predicate.test(value) {
            self.consumer.accept(value);
        }
    }

    fn into_box(self) -> (res: BoxStatefulConsumer<T>)
        where
            Self: Sized + 'static,
            T: 'static,
        ensures
            forall|t: T| #[trigger] res.accepts(t) == self.accepts(t),
            forall|t: T| #[trigger] res.performs(t) == self.performs(t),
            res.spec_name() is None,
    {
        BoxStatefulConsumer::from_call_mut(self, None)
    }

    fn into_rc(self) -> (res: RcStatefulConsumer<T>)
        where
            Self: Sized + 'static,
            T: 'static,
        ensures
            forall|t: T| #[trigger] res.accepts(t) == self.accepts(t),
            forall|t: T| #[trigger] res.performs(t) == self.performs(t),
            res.spec_name() is None,
    {
        RcStatefulConsumer::from_call_mut(self, None)
    }

    fn into_arc(self) -> (res: ArcStatefulConsumer<T>)
        where
            Self: Sized + Send + Sync + 'static,
            T: 'static,
        ensures
            forall|t: T| #[trigger] res.accepts(t) == self.accepts(t),
            forall|t: T| #[trigger] res.performs(t) == self.performs(t),
            res.spec_name() is None,
    {
        ArcStatefulConsumer::from_call_mut(self, None)
    }

    fn into_once(self) -> (res: BoxConsumerOnce<T>)
        where
            Self: Sized + 'static,
            T: 'static,
        ensures
            forall|t: T| #[trigger] res.accepts(t) == self.accepts(t),
            forall|t: T| #[trigger] res.performs(t) == self.performs(t),
            res.spec_name() is None,
    {
        BoxConsumerOnce::from_call_once(self, None)
    }

    fn to_box(&self) -> (res: BoxStatefulConsumer<T>)
        where
            Self: Clone + 'static,
            T: 'static,
        ensures
            forall|t: T| #[trigger] res.accepts(t) == self.accepts(t),
            forall|t: T| #[trigger] res.performs(t) == self.performs(t),
            res.spec_name() is None,
    {
        let res = BoxStatefulConsumer::from_call_mut(self.duplicate(), None);
        assert(cloned::<Self>(*self, *self));
        res
    }

    fn to_rc(&self) -> (res: RcStatefulConsumer<T>)
        where
            Self: Clone + 'static,
            T: 'static,
        ensures
            forall|t: T| #[trigger] res.accepts(t) == self.accepts(t),
            forall|t: T| #[trigger] res.performs(t) == self.performs(t),
            res.spec_name() is None,
    {
        let res = RcStatefulConsumer::from_call_mut(self.duplicate(), None);
        assert(cloned::<Self>(*self, *self));
        res
    }

    fn to_arc(&self) -> (res: ArcStatefulConsumer<T>)
        where
            Self: Clone + Send + Sync + 'static,
            T: 'static,
        ensures
            forall|t: T| #[trigger] res.accepts(t) == self.accepts(t),
            forall|t: T| #[trigger] res.performs(t) == self.performs(t),
            res.spec_name() is None,
    {
        let res = ArcStatefulConsumer::from_call_mut(self.duplicate(), None);
        assert(cloned::<Self>(*self, *self));
        res
    }

    fn to_once(&self) -> (res: BoxConsumerOnce<T>)
        where
            Self: Clone + 'static,
            T: 'static,
        ensures
            forall|t: T| #[trigger] res.accepts(t) == self.accepts(t),
            forall|t: T| #[trigger] res.performs(t) == self.performs(t),
            res.spec_name() is None,
    {
        let res = BoxConsumerOnce::from_call_once(self.duplicate(), None);
        assert(cloned::<Self>(*self, *self));
        res
    }
}

/// Sequencing for plain closures.
pub trait FnStatefulConsumerOps<T>: FnMut(&T) + Sized {
    /// This closure followed by `next`, on the same value.
    fn and_then<C>(self, next: C) -> (res: BoxStatefulConsumer<T>)
        where
            Self: 'static,
            C: StatefulConsumer<T> + 'static,
            T: 'static,
        ensures
            forall|t: T| #[trigger] res.accepts(t) == both_accepts(self, next, t),
            forall|t: T| #[trigger] res.performs(t) == both_performs(self, next, t),
    {
        BoxStatefulConsumer::from_call_mut(BothMut { first: Counted::new(self), second: Counted::new(next) }, None)
    }
}

impl<T, F: FnMut(&T)> FnStatefulConsumerOps<T> for F {

}

/// A consumer built by `and_then` runs the first consumer and then the
/// second on the same value: it takes every value that the first accepts and
/// that the second accepts once the first has acted on it, it takes no value
/// that the first does not, and when it has run, both have acted.
pub proof fn law_and_then_runs_first_then_second<T, A, B, AB>(a: A, b: B, ab: AB, t: T)
    where
        A: StatefulConsumer<T>,
        B: StatefulConsumer<T>,
        AB: StatefulConsumer<T>,
    requires
        forall|x: T| #[trigger] ab.accepts(x) == both_accepts(a, b, x),
        forall|x: T| #[trigger] ab.performs(x) == both_performs(a, b, x),
    ensures
        a.accepts(t) && (a.performs(t) ==> b.accepts(t)) ==> ab.accepts(t),
        ab.accepts(t) ==> a.accepts(t),
        ab.performs(t) ==> a.performs(t) && b.performs(t),
{
}

/// Two consumers in turn on the same value: defined when `first` is, and
/// `second` is once `first` has done its part.
pub open spec fn both_accepts<T, C: StatefulConsumer<T>, D: StatefulConsumer<T>>(first: C, second: D, t: T) -> bool {
    &&& first.accepts(t)
    &&& first.performs(t) ==> second.accepts(t)
}

/// Two consumers in turn on the same value: both have done their part.
pub open spec fn both_performs<T, C: StatefulConsumer<T>, D: StatefulConsumer<T>>(first: C, second: D, t: T) -> bool {
    first.performs(t) && second.performs(t)
}

/// Over any run of calls, a consumer restricted by `when` runs its consumer
/// at most once per call: after `i` calls it has run it at most `i` times,
/// exactly `i` times when the predicate can never answer false, and never
/// when the predicate can never answer true.
///
/// `runs[i + 1]` is the conditional consumer after it accepted `inputs[i]`,
/// as [`StatefulConsumer::accept`] on a [`BoxConditionalStatefulConsumer`]
/// relates them.
pub proof fn law_when_runs_consumer_at_most_once_per_call<T: 'static>(
    runs: Seq<BoxConditionalStatefulConsumer<T>>,
    inputs: Seq<T>,
)
    requires
        runs.len() == inputs.len() + 1,
        runs[0].consumer_calls() == 0,
        forall|i: int| 0 <= i < inputs.len() ==> #[trigger] accepted_in_turn(runs, inputs, i),
    ensures
        forall|i: int| 0 <= i < runs.len() ==> #[trigger] runs[i].consumer_calls() <= i,
        (forall|t: T| !runs[0].predicate().produces(t, false)) ==> forall|i: int|
            0 <= i < runs.len() ==> #[trigger] runs[i].consumer_calls() == i,
        (forall|t: T| !runs[0].predicate().produces(t, true)) ==> forall|i: int|
            0 <= i < runs.len() ==> #[trigger] runs[i].consumer_calls() == 0,
{
    assert forall|i: int| 0 <= i < runs.len() implies #[trigger] runs[i].consumer_calls() <= i by {
        lemma_calls_along(runs, inputs, i);
    }
    if forall|t: T| !runs[0].predicate().produces(t, false) {
        assert forall|i: int| 0 <= i < runs.len() implies #[trigger] runs[i].consumer_calls() == i by {
            lemma_calls_along(runs, inputs, i);
        }
    }
    if forall|t: T| !runs[0].predicate().produces(t, true) {
        assert forall|i: int| 0 <= i < runs.len() implies #[trigger] runs[i].consumer_calls() == 0 by {
            lemma_calls_along(runs, inputs, i);
        }
    }
}

/// `runs[i + 1]` is `runs[i]` after accepting `inputs[i]`, as far as the
/// guard is concerned: the predicate is kept, and the consumer ran once or
/// not at all, as [`guarded_step`] allows for the predicate's answers.
pub open spec fn accepted_in_turn<T: 'static>(
    runs: Seq<BoxConditionalStatefulConsumer<T>>,
    inputs: Seq<T>,
    i: int,
) -> bool {
    &&& runs[i + 1].predicate() == runs[i].predicate()
    &&& guarded_step(
        runs[i].predicate().produces(inputs[i], true),
        runs[i].predicate().produces(inputs[i], false),
        (runs[i].consumer_calls(), 0),
        (runs[i + 1].consumer_calls(), 0),
    )
}

/// The counts after the first `n` calls of a run of a conditional consumer.
proof fn lemma_calls_along<T: 'static>(runs: Seq<BoxConditionalStatefulConsumer<T>>, inputs: Seq<T>, n: int)
    requires
        runs.len() == inputs.len() + 1,
        0 <= n <= inputs.len(),
        runs[0].consumer_calls() == 0,
        forall|i: int| 0 <= i < inputs.len() ==> #[trigger] accepted_in_turn(runs, inputs, i),
    ensures
        runs[n].consumer_calls() <= n,
        runs[n].predicate() == runs[0].predicate(),
        (forall|t: T| !runs[0].predicate().produces(t, false)) ==> runs[n].consumer_calls() == n,
        (forall|t: T| !runs[0].predicate().produces(t, true)) ==> runs[n].consumer_calls() == 0,
    decreases n,
{
    if n > 0 {
        lemma_calls_along(runs, inputs, n - 1);
        assert(accepted_in_turn(runs, inputs, n - 1));
    }
}

/// One call of a consumer guarded by a predicate runs the consumer exactly
/// once where the predicate may answer true (`may_hold`), and not at all
/// where it may answer false (`may_fail`): the count of its runs grows by one
/// or stays.
pub open spec fn guarded_step(may_hold: bool, may_fail: bool, before: (nat, nat), after: (nat, nat)) -> bool {
    ||| after == (before.0 + 1, before.1) && may_hold
    ||| after == before && may_fail
}

/// A consumer that acts only where a predicate holds: defined when the
/// predicate is, and the consumer is wherever the answer may be `true`.
pub open spec fn guarded_accepts<T, P: Predicate<T>, C: StatefulConsumer<T>>(p: P, c: C, t: T) -> bool {
    &&& p.accepts(t)
    &&& forall|b: bool| #[trigger] p.produces(t, b) ==> (b ==> c.accepts(t))
}

/// A consumer that acts only where a predicate holds: some answer of the
/// predicate was given, and the consumer did its part if it was `true`.
pub open spec fn guarded_performs<T, P: Predicate<T>, C: StatefulConsumer<T>>(p: P, c: C, t: T) -> bool {
    exists|b: bool| #[trigger] p.produces(t, b) && (b ==> c.performs(t))
}

/// A choice between two consumers by a predicate: defined when the
/// predicate is, and the consumer that each possible answer selects is.
pub open spec fn choice_accepts<T, P: Predicate<T>, C: StatefulConsumer<T>, E: StatefulConsumer<T>>(p: P, c: C, e: E, t: T) -> bool {
    &&& p.accepts(t)
    &&& forall|b: bool| #[trigger] p.produces(t, b) ==> if b {
        c.accepts(t)
    } else {
        e.accepts(t)
    }
}

/// A choice between two consumers by a predicate: some answer of the
/// predicate was given, and the consumer it selects did its part.
pub open spec fn choice_performs<T, P: Predicate<T>, C: StatefulConsumer<T>, E: StatefulConsumer<T>>(p: P, c: C, e: E, t: T) -> bool {
    exists|b: bool| #[trigger] p.produces(t, b) && if b {
        c.performs(t)
    } else {
        e.performs(t)
    }
}

/// Sequencing is associative: `ab` followed by `c` and `a` followed by `bc`
/// accept the same values and do the same, where `ab` behaves as `a`
/// followed by `b` and `bc` as `b` followed by `c` (as the result of
/// `and_then` does).
pub proof fn law_and_then_associative<T, A, B, C, AB, BC>(a: A, b: B, c: C, ab: AB, bc: BC, t: T)
    where
        A: StatefulConsumer<T>,
        B: StatefulConsumer<T>,
        C: StatefulConsumer<T>,
        AB: StatefulConsumer<T>,
        BC: StatefulConsumer<T>,
    requires
        forall|x: T| #[trigger] ab.accepts(x) == both_accepts(a, b, x),
        forall|x: T| #[trigger] ab.performs(x) == both_performs(a, b, x),
        forall|x: T| #[trigger] bc.accepts(x) == both_accepts(b, c, x),
        forall|x: T| #[trigger] bc.performs(x) == both_performs(b, c, x),
    ensures
        both_accepts(ab, c, t) == both_accepts(a, bc, t),
        both_performs(ab, c, t) == both_performs(a, bc, t),
{
}

/// A consumer that accepts every value and does nothing (such as
/// `noop`) is neutral for sequencing, on either side.
pub proof fn law_noop_neutral<T, C, N>(c: C, noop: N, t: T)
    where
        C: StatefulConsumer<T>,
        N: StatefulConsumer<T>,
    requires
        forall|x: T| #[trigger] noop.accepts(x),
        forall|x: T| #[trigger] noop.performs(x),
    ensures
        both_accepts(c, noop, t) == c.accepts(t),
        both_performs(c, noop, t) == c.performs(t),
        both_accepts(noop, c, t) == c.accepts(t),
        both_performs(noop, c, t) == c.performs(t),
{
}

/// Runs `first`, then `second`, on the same value.
struct BothMut<C, D> {
    first: Counted<C>,
    second: Counted<D>,
}

impl<T, C: StatefulConsumer<T>, D: StatefulConsumer<T>> CallMut1<T, ()> for BothMut<C, D> {
    closed spec fn pre(&self, t: T) -> bool {
        both_accepts(self.first.inner(), self.second.inner(), t)
    }

    closed spec fn post(&self, t: T, r: ()) -> bool {
        both_performs(self.first.inner(), self.second.inner(), t)
    }

    closed spec fn part_calls(&self) -> (nat, nat) {
        (self.first.calls(), self.second.calls())
    }

    closed spec fn part_step(&self, t: T, before: (nat, nat), after: (nat, nat)) -> bool {
        sequence_step(before, after)
    }

    fn call_mut(&mut self, t: &T) {
        self.first.accept(t);
        self.second.accept(t);
    }
}

/// Runs `on_true` or `on_false`, as `predicate` selects.
struct ChooseMut<P, C, E> {
    predicate: P,
    on_true: Counted<C>,
    on_false: Counted<E>,
}

impl<T, P: Predicate<T>, C: StatefulConsumer<T>, E: StatefulConsumer<T>> CallMut1<T, ()> for ChooseMut<P, C, E> {
    closed spec fn pre(&self, t: T) -> bool {
        choice_accepts(self.predicate, self.on_true.inner(), self.on_false.inner(), t)
    }

    closed spec fn post(&self, t: T, r: ()) -> bool {
        choice_performs(self.predicate, self.on_true.inner(), self.on_false.inner(), t)
    }

    closed spec fn part_calls(&self) -> (nat, nat) {
        (self.on_true.calls(), self.on_false.calls())
    }

    closed spec fn part_step(&self, t: T, before: (nat, nat), after: (nat, nat)) -> bool {
        choice_step(self.predicate.produces(t, true), self.predicate.produces(t, false), before, after)
    }

    fn call_mut(&mut self, t: &T) {
        if self.predicate.test(t) {
            self.on_true.accept(t);
        } else {
            self.on_false.accept(t);
        }
    }
}

} // verus!
