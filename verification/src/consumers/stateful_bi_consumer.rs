//! Consumers that borrow two values and may change their own state from
//! one call to the next (`FnMut(&T, &U)`), in boxed, `Rc` and `Arc`
//! flavours, with conditional variants.
//!
//! The shared flavours keep the consumer behind a lock, so that every clone
//! calls the same consumer and sees the state that the others left.
use std::rc::Rc;
use std::sync::Arc;
use vstd::prelude::*;

use crate::callable::{CallMut2, CallOnce2, LockedCallMut2, LockedSyncCallMut2};
use crate::counted::CountedBi;
use crate::functions::stateful_function::{choice_step, sequence_step};
use crate::consumers::bi_consumer_once::BoxBiConsumerOnce;
use crate::consumers::noop::Noop;
use crate::names::{clone_name, name_str, name_view, owned_name};
use crate::predicates::{ArcBiPredicate, BoxBiPredicate, BiPredicate, RcBiPredicate};

verus! {

/// A consumer of pairs of `&T` and `&U` values that may change its own state
/// when it acts.
///
/// `accepts(t, u)` is what a caller must establish before `accept(&t, &u)`, and
/// `performs(t, u)` is what holds once it has returned. Both describe every
/// call, whatever state the earlier calls left: accepting a value does not
/// change them.
pub trait StatefulBiConsumer<T, U> {
    spec fn accepts(&self, t: T, u: U) -> bool;

    spec fn performs(&self, t: T, u: U) -> bool;

    fn accept(&mut self, first: &T, second: &U)
        requires
            old(self).accepts(*first, *second),
        ensures
            old(self).performs(*first, *second),
            forall|x: T, y: U| #[trigger] final(self).accepts(x, y) == old(self).accepts(x, y),
            forall|x: T, y: U| #[trigger] final(self).performs(x, y) == old(self).performs(x, y),
    ;

    /// Moves this consumer into a [`BoxStatefulBiConsumer`] that calls it.
    fn into_box(self) -> (res: BoxStatefulBiConsumer<T, U>)
        where
            Self: Sized + 'static,
            T: 'static,
            U: 'static,
        ensures
            forall|t: T, u: U| self.accepts(t, u) ==> #[trigger] res.accepts(t, u),
            forall|t: T, u: U| #[trigger] res.performs(t, u) ==> self.performs(t, u),
    ;

    /// Moves this consumer into an [`RcStatefulBiConsumer`] that calls it.
    fn into_rc(self) -> (res: RcStatefulBiConsumer<T, U>)
        where
            Self: Sized + 'static,
            T: 'static,
            U: 'static,
        ensures
            forall|t: T, u: U| self.accepts(t, u) ==> #[trigger] res.accepts(t, u),
            forall|t: T, u: U| #[trigger] res.performs(t, u) ==> self.performs(t, u),
    ;

    /// Moves this consumer into an [`ArcStatefulBiConsumer`] that calls it.
    fn into_arc(self) -> (res: ArcStatefulBiConsumer<T, U>)
        where
            Self: Sized + Send + Sync + 'static,
            T: 'static,
            U: 'static,
        ensures
            forall|t: T, u: U| self.accepts(t, u) ==> #[trigger] res.accepts(t, u),
            forall|t: T, u: U| #[trigger] res.performs(t, u) ==> self.performs(t, u),
    ;

    /// Moves this consumer into a [`BoxBiConsumerOnce`] that calls it.
    fn into_once(self) -> (res: BoxBiConsumerOnce<T, U>)
        where
            Self: Sized + 'static,
            T: 'static,
            U: 'static,
        ensures
            forall|t: T, u: U| self.accepts(t, u) ==> #[trigger] res.accepts(t, u),
            forall|t: T, u: U| #[trigger] res.performs(t, u) ==> self.performs(t, u),
    ;

    /// A [`BoxStatefulBiConsumer`] that calls a clone of this consumer.
    fn to_box(&self) -> (res: BoxStatefulBiConsumer<T, U>)
        where
            Self: Clone + 'static,
            T: 'static,
            U: 'static,
        ensures
            exists|c: Self|
                cloned::<Self>(*self, c) && (forall|t: T, u: U| c.accepts(t, u) ==> #[trigger] res.accepts(t, u))
                    && (forall|t: T, u: U| #[trigger] res.performs(t, u) ==> c.performs(t, u)),
    ;

    /// An [`RcStatefulBiConsumer`] that calls a clone of this consumer.
    fn to_rc(&self) -> (res: RcStatefulBiConsumer<T, U>)
        where
            Self: Clone + 'static,
            T: 'static,
            U: 'static,
        ensures
            exists|c: Self|
                cloned::<Self>(*self, c) && (forall|t: T, u: U| c.accepts(t, u) ==> #[trigger] res.accepts(t, u))
                    && (forall|t: T, u: U| #[trigger] res.performs(t, u) ==> c.performs(t, u)),
    ;

    /// An [`ArcStatefulBiConsumer`] that calls a clone of this consumer.
    fn to_arc(&self) -> (res: ArcStatefulBiConsumer<T, U>)
        where
            Self: Clone + Send + Sync + 'static,
            T: 'static,
            U: 'static,
        ensures
            exists|c: Self|
                cloned::<Self>(*self, c) && (forall|t: T, u: U| c.accepts(t, u) ==> #[trigger] res.accepts(t, u))
                    && (forall|t: T, u: U| #[trigger] res.performs(t, u) ==> c.performs(t, u)),
    ;

    /// A [`BoxBiConsumerOnce`] that calls a clone of this consumer.
    fn to_once(&self) -> (res: BoxBiConsumerOnce<T, U>)
        where
            Self: Clone + 'static,
            T: 'static,
            U: 'static,
        ensures
            exists|c: Self|
                cloned::<Self>(*self, c) && (forall|t: T, u: U| c.accepts(t, u) ==> #[trigger] res.accepts(t, u))
                    && (forall|t: T, u: U| #[trigger] res.performs(t, u) ==> c.performs(t, u)),
    ;
}

impl<T, U, F: FnMut(&T, &U)> StatefulBiConsumer<T, U> for F {
    open spec fn accepts(&self, t: T, u: U) -> bool {
        call_requires(*self, (&t, &u))
    }

    open spec fn performs(&self, t: T, u: U) -> bool {
        call_ensures(*self, (&t, &u), ())
    }

    fn accept(&mut self, first: &T, second: &U) {
        (self)(first, second)
    }

    fn into_box(self) -> (res: BoxStatefulBiConsumer<T, U>)
        where
            Self: Sized + 'static,
            T: 'static,
            U: 'static,
        ensures
            forall|t: T, u: U| #[trigger] res.accepts(t, u) == self.accepts(t, u),
            forall|t: T, u: U| #[trigger] res.performs(t, u) == self.performs(t, u),
            res.spec_name() is None,
    {
        BoxStatefulBiConsumer::from_call_mut(self, None)
    }

    fn into_rc(self) -> (res: RcStatefulBiConsumer<T, U>)
        where
            Self: Sized + 'static,
            T: 'static,
            U: 'static,
        ensures
            forall|t: T, u: U| #[trigger] res.accepts(t, u) == self.accepts(t, u),
            forall|t: T, u: U| #[trigger] res.performs(t, u) == self.performs(t, u),
            res.spec_name() is None,
    {
        RcStatefulBiConsumer::from_call_mut(self, None)
    }

    fn into_arc(self) -> (res: ArcStatefulBiConsumer<T, U>)
        where
            Self: Sized + Send + Sync + 'static,
            T: 'static,
            U: 'static,
        ensures
            forall|t: T, u: U| #[trigger] res.accepts(t, u) == self.accepts(t, u),
            forall|t: T, u: U| #[trigger] res.performs(t, u) == self.performs(t, u),
            res.spec_name() is None,
    {
        ArcStatefulBiConsumer::from_call_mut(self, None)
    }

    fn into_once(self) -> (res: BoxBiConsumerOnce<T, U>)
        where
            Self: Sized + 'static,
            T: 'static,
            U: 'static,
        ensures
            forall|t: T, u: U| #[trigger] res.accepts(t, u) == self.accepts(t, u),
            forall|t: T, u: U| #[trigger] res.performs(t, u) == self.performs(t, u),
            res.spec_name() is None,
    {
        BoxBiConsumerOnce::from_call_once(self, None)
    }

    fn to_box(&self) -> (res: BoxStatefulBiConsumer<T, U>)
        where
            Self: Clone + 'static,
            T: 'static,
            U: 'static,
    {
        let c = self.clone();
        let res = BoxStatefulBiConsumer::from_call_mut(c, None);
        assert(cloned::<Self>(*self, c));
        res
    }

    fn to_rc(&self) -> (res: RcStatefulBiConsumer<T, U>)
        where
            Self: Clone + 'static,
            T: 'static,
            U: 'static,
    {
        let c = self.clone();
        let res = RcStatefulBiConsumer::from_call_mut(c, None);
        assert(cloned::<Self>(*self, c));
        res
    }

    fn to_arc(&self) -> (res: ArcStatefulBiConsumer<T, U>)
        where
            Self: Clone + Send + Sync + 'static,
            T: 'static,
            U: 'static,
    {
        let c = self.clone();
        let res = ArcStatefulBiConsumer::from_call_mut(c, None);
        assert(cloned::<Self>(*self, c));
        res
    }

    fn to_once(&self) -> (res: BoxBiConsumerOnce<T, U>)
        where
            Self: Clone + 'static,
            T: 'static,
            U: 'static,
    {
        let c = self.clone();
        let res = BoxBiConsumerOnce::from_call_once(c, None);
        assert(cloned::<Self>(*self, c));
        res
    }
}

/// A stateful consumer in a box: single ownership.
#[verifier::reject_recursive_types(T)]
#[verifier::reject_recursive_types(U)]
pub struct BoxStatefulBiConsumer<T, U> {
    function: Box<dyn CallMut2<T, U, ()>>,
    name: Option<String>,
}

impl<T, U> BoxStatefulBiConsumer<T, U> {
    pub closed spec fn accepts(&self, t: T, u: U) -> bool {
        self.function.pre(t, u)
    }

    pub closed spec fn performs(&self, t: T, u: U) -> bool {
        self.function.post(t, u, ())
    }

    pub closed spec fn spec_name(&self) -> Option<Seq<char>> {
        name_view(self.name)
    }

    pub(crate) fn from_call_mut<C: CallMut2<T, U, ()> + 'static>(c: C, name: Option<String>) -> (res: Self)
        ensures
            forall|t: T, u: U| #[trigger] res.accepts(t, u) == c.pre(t, u),
            forall|t: T, u: U| #[trigger] res.performs(t, u) == c.post(t, u, ()),
            res.spec_name() == name_view(name),
    {
        let function: Box<dyn CallMut2<T, U, ()>> = Box::new(c);
        assert(forall|t: T, u: U| #[trigger] function.pre(t, u) == c.pre(t, u));
        assert(forall|t: T, u: U| #[trigger] function.post(t, u, ()) == c.post(t, u, ()));
        BoxStatefulBiConsumer { function, name }
    }

    /// Wraps the closure `f`.
    pub fn new<F>(f: F) -> (res: Self)
        where
            F: FnMut(&T, &U) + 'static,
        ensures
            forall|t: T, u: U| #[trigger] res.accepts(t, u) == call_requires(f, (&t, &u)),
            forall|t: T, u: U| #[trigger] res.performs(t, u) == call_ensures(f, (&t, &u), ()),
            res.spec_name() is None,
    {
        Self::from_call_mut(f, None)
    }

    /// Wraps the closure `f` under the name `name`.
    pub fn new_with_name<F>(name: &str, f: F) -> (res: Self)
        where
            F: FnMut(&T, &U) + 'static,
        ensures
            forall|t: T, u: U| #[trigger] res.accepts(t, u) == call_requires(f, (&t, &u)),
            forall|t: T, u: U| #[trigger] res.performs(t, u) == call_ensures(f, (&t, &u), ()),
            res.spec_name() == Some(name@),
    {
        Self::from_call_mut(f, owned_name(name))
    }

    /// Wraps the closure `f` under the name `name`, if there is one.
    pub fn new_with_optional_name<F>(f: F, name: Option<String>) -> (res: Self)
        where
            F: FnMut(&T, &U) + 'static,
        ensures
            forall|t: T, u: U| #[trigger] res.accepts(t, u) == call_requires(f, (&t, &u)),
            forall|t: T, u: U| #[trigger] res.performs(t, u) == call_ensures(f, (&t, &u), ()),
            res.spec_name() == name_view(name),
    {
        Self::from_call_mut(f, name)
    }

    /// A consumer that does nothing.
    pub fn noop() -> (res: Self)
        ensures
            forall|t: T, u: U| #[trigger] res.accepts(t, u),
            forall|t: T, u: U| #[trigger] res.performs(t, u),
            res.spec_name() is None,
    {
        Self::from_call_mut(Noop, None)
    }

    /// The name of this consumer, if it has one.
    pub fn name(&self) -> (res: Option<&str>)
        ensures
            match res {
                Some(s) => self.spec_name() == Some(s@),
                None => self.spec_name() is None,
            },
    {
        name_str(&self.name)
    }

    /// Gives this consumer the name `name`; its behaviour stays the same.
    pub fn set_name(&mut self, name: &str)
        ensures
            final(self).spec_name() == Some(name@),
            forall|t: T, u: U| #[trigger] final(self).accepts(t, u) == old(self).accepts(t, u),
            forall|t: T, u: U| #[trigger] final(self).performs(t, u) == old(self).performs(t, u),
    {
        self.name = owned_name(name);
    }

    /// Restricts this consumer to the pair of valuess on which `predicate` holds.
    pub fn when<P>(self, predicate: P) -> (res: BoxConditionalStatefulBiConsumer<T, U>)
        where
            P: BiPredicate<T, U> + 'static,
            T: 'static,
            U: 'static,
        ensures
            res.consumer() == self,
            res.consumer_calls() == 0,
            forall|t: T, u: U| predicate.accepts(t, u) ==> #[trigger] res.predicate().accepts(t, u),
            forall|t: T, u: U, b: bool| #[trigger] res.predicate().produces(t, u, b) ==> predicate.produces(t, u, b),
    {
        BoxConditionalStatefulBiConsumer { consumer: CountedBi::new(self), predicate: predicate.into_box() }
    }

    /// This consumer followed by `after`, on the same pair of values.
    pub fn and_then<C>(self, after: C) -> (res: BoxStatefulBiConsumer<T, U>)
        where
            C: StatefulBiConsumer<T, U> + 'static,
            T: 'static,
            U: 'static,
        ensures
            forall|t: T, u: U| #[trigger] res.accepts(t, u) == both_accepts(self, after, t, u),
            forall|t: T, u: U| #[trigger] res.performs(t, u) == both_performs(self, after, t, u),
            res.spec_name() is None,
    {
        BoxStatefulBiConsumer::from_call_mut(BothMut { first: CountedBi::new(self), second: CountedBi::new(after) }, None)
    }

    /// This consumer as a plain closure.
    pub fn into_fn(self) -> (res: impl FnMut(&T, &U))
        where
            T: 'static,
            U: 'static,
        ensures
            forall|t: T, u: U| self.accepts(t, u) ==> call_requires(res, (&t, &u)),
            forall|t: T, u: U| call_ensures(res, (&t, &u), ()) ==> self.performs(t, u),
    {
        let function = LockedCallMut2::new(self);
        move |t: &T, u: &U|
            requires
                function.pre(*t, *u),
            ensures
                function.post(*t, *u, ()),
        {
            function.call(t, u)
        }
    }
}

impl<T, U> CallMut2<T, U, ()> for BoxStatefulBiConsumer<T, U> {
    closed spec fn pre(&self, t: T, u: U) -> bool {
        self.accepts(t, u)
    }

    closed spec fn post(&self, t: T, u: U, r: ()) -> bool {
        self.performs(t, u)
    }

    fn call_mut(&mut self, t: &T, u: &U) {
        self.function.call_mut(t, u)
    }
}

impl<T, U> CallOnce2<T, U, ()> for BoxStatefulBiConsumer<T, U> {
    closed spec fn pre(&self, t: T, u: U) -> bool {
        self.accepts(t, u)
    }

    closed spec fn post(&self, t: T, u: U, r: ()) -> bool {
        self.performs(t, u)
    }

    fn call_once(self: Box<Self>, t: &T, u: &U) {
        let mut c = *self;
        c.call_mut(t, u)
    }
}

impl<T, U> StatefulBiConsumer<T, U> for BoxStatefulBiConsumer<T, U> {
    open spec fn accepts(&self, t: T, u: U) -> bool {
        BoxStatefulBiConsumer::accepts(self, t, u)
    }

    open spec fn performs(&self, t: T, u: U) -> bool {
        BoxStatefulBiConsumer::performs(self, t, u)
    }

    fn accept(&mut self, first: &T, second: &U) {
        self.function.call_mut(first, second)
    }

    fn into_box(self) -> (res: BoxStatefulBiConsumer<T, U>)
        where
            Self: Sized + 'static,
            T: 'static,
            U: 'static,
        ensures
            res == self,
    {
        self
    }

    fn into_rc(self) -> (res: RcStatefulBiConsumer<T, U>)
        where
            Self: Sized + 'static,
            T: 'static,
            U: 'static,
        ensures
            forall|t: T, u: U| #[trigger] res.accepts(t, u) == self.accepts(t, u),
            forall|t: T, u: U| #[trigger] res.performs(t, u) == self.performs(t, u),
            res.spec_name() == self.spec_name(),
    {
        let name = clone_name(&self.name);
        RcStatefulBiConsumer::from_call_mut(self, name)
    }

    fn into_arc(self) -> (res: ArcStatefulBiConsumer<T, U>)
        where
            Self: Sized + Send + Sync + 'static,
            T: 'static,
            U: 'static,
        ensures
            forall|t: T, u: U| #[trigger] res.accepts(t, u) == self.accepts(t, u),
            forall|t: T, u: U| #[trigger] res.performs(t, u) == self.performs(t, u),
            res.spec_name() == self.spec_name(),
    {
        let name = clone_name(&self.name);
        ArcStatefulBiConsumer::from_call_mut(self, name)
    }

    fn into_once(self) -> (res: BoxBiConsumerOnce<T, U>)
        where
            Self: Sized + 'static,
            T: 'static,
            U: 'static,
        ensures
            forall|t: T, u: U| #[trigger] res.accepts(t, u) == self.accepts(t, u),
            forall|t: T, u: U| #[trigger] res.performs(t, u) == self.performs(t, u),
            res.spec_name() == self.spec_name(),
    {
        let name = clone_name(&self.name);
        BoxBiConsumerOnce::from_call_once(self, name)
    }

    fn to_box(&self) -> (res: BoxStatefulBiConsumer<T, U>)
        where
            Self: Clone + 'static,
            T: 'static,
            U: 'static,
    {
        let c = self.clone();
        assert(cloned::<Self>(*self, c));
        c
    }

    fn to_rc(&self) -> (res: RcStatefulBiConsumer<T, U>)
        where
            Self: Clone + 'static,
            T: 'static,
            U: 'static,
    {
        let c = self.clone();
        let res = RcStatefulBiConsumer::from_call_mut(c, None);
        assert(cloned::<Self>(*self, c));
        res
    }

    fn to_arc(&self) -> (res: ArcStatefulBiConsumer<T, U>)
        where
            Self: Clone + Send + Sync + 'static,
            T: 'static,
            U: 'static,
    {
        let c = self.clone();
        let res = ArcStatefulBiConsumer::from_call_mut(c, None);
        assert(cloned::<Self>(*self, c));
        res
    }

    fn to_once(&self) -> (res: BoxBiConsumerOnce<T, U>)
        where
            Self: Clone + 'static,
            T: 'static,
            U: 'static,
    {
        let c = self.clone();
        let res = BoxBiConsumerOnce::from_call_once(c, None);
        assert(cloned::<Self>(*self, c));
        res
    }
}

/// A [`BoxStatefulBiConsumer`] that acts only on the pair of valuess that a predicate accepts.
#[verifier::reject_recursive_types(T)]
#[verifier::reject_recursive_types(U)]
pub struct BoxConditionalStatefulBiConsumer<T, U> {
    consumer: CountedBi<BoxStatefulBiConsumer<T, U>>,
    predicate: BoxBiPredicate<T, U>,
}

impl<T: 'static, U: 'static> BoxConditionalStatefulBiConsumer<T, U> {
    pub closed spec fn consumer(&self) -> BoxStatefulBiConsumer<T, U> {
        self.consumer.inner()
    }

    /// How many times this conditional consumer has run its consumer.
    pub closed spec fn consumer_calls(&self) -> nat {
        self.consumer.calls()
    }

    pub closed spec fn predicate(&self) -> BoxBiPredicate<T, U> {
        self.predicate
    }

    pub open spec fn accepts(&self, t: T, u: U) -> bool {
        guarded_accepts(self.predicate(), self.consumer(), t, u)
    }

    pub open spec fn performs(&self, t: T, u: U) -> bool {
        guarded_performs(self.predicate(), self.consumer(), t, u)
    }

    /// This conditional consumer followed by `next`, which acts on every pair of values.
    pub fn and_then<C>(self, next: C) -> (res: BoxStatefulBiConsumer<T, U>)
        where
            C: StatefulBiConsumer<T, U> + 'static,
        ensures
            forall|t: T, u: U| #[trigger] res.accepts(t, u) == both_accepts(self, next, t, u),
            forall|t: T, u: U| #[trigger] res.performs(t, u) == both_performs(self, next, t, u),
            res.spec_name() is None,
    {
        BoxStatefulBiConsumer::from_call_mut(BothMut { first: CountedBi::new(self), second: CountedBi::new(next) }, None)
    }

    /// The consumer that runs the guarded consumer where the predicate holds
    /// and `else_consumer` elsewhere.
    pub fn or_else<C>(self, else_consumer: C) -> (res: BoxStatefulBiConsumer<T, U>)
        where
            C: StatefulBiConsumer<T, U> + 'static,
        ensures
            forall|t: T, u: U| #[trigger] res.accepts(t, u) == choice_accepts(self.predicate(), self.consumer(), else_consumer, t, u),
            forall|t: T, u: U| #[trigger] res.performs(t, u) == choice_performs(self.predicate(), self.consumer(), else_consumer, t, u),
            res.spec_name() is None,
    {
        BoxStatefulBiConsumer::from_call_mut(
            ChooseMut { predicate: self.predicate, on_true: self.consumer, on_false: CountedBi::new(else_consumer) },
            None,
        )
    }
}

impl<T: 'static, U: 'static> CallMut2<T, U, ()> for BoxConditionalStatefulBiConsumer<T, U> {
    closed spec fn pre(&self, t: T, u: U) -> bool {
        self.accepts(t, u)
    }

    closed spec fn post(&self, t: T, u: U, r: ()) -> bool {
        self.performs(t, u)
    }

    closed spec fn part_calls(&self) -> (nat, nat) {
        (self.consumer.calls(), 0)
    }

    closed spec fn part_step(&self, t: T, u: U, before: (nat, nat), after: (nat, nat)) -> bool {
        guarded_step(self.predicate.produces(t, u, true), self.predicate.produces(t, u, false), before, after)
    }

    fn call_mut(&mut self, t: &T, u: &U) {
        if self.predicate.test(t, u) {
            self.consumer.accept(t, u);
        }
    }
}

impl<T: 'static, U: 'static> CallOnce2<T, U, ()> for BoxConditionalStatefulBiConsumer<T, U> {
    closed spec fn pre(&self, t: T, u: U) -> bool {
        self.accepts(t, u)
    }

    closed spec fn post(&self, t: T, u: U, r: ()) -> bool {
        self.performs(t, u)
    }

    fn call_once(self: Box<Self>, t: &T, u: &U) {
        let mut c = *self;
        c.call_mut(t, u)
    }
}

impl<T: 'static, U: 'static> StatefulBiConsumer<T, U> for BoxConditionalStatefulBiConsumer<T, U> {
    open spec fn accepts(&self, t: T, u: U) -> bool {
        BoxConditionalStatefulBiConsumer::accepts(self, t, u)
    }

    open spec fn performs(&self, t: T, u: U) -> bool {
        BoxConditionalStatefulBiConsumer::performs(self, t, u)
    }

    fn accept(&mut self, first: &T, second: &U)
        ensures
            guarded_step(
                old(self).predicate().produces(*first, *second, true),
                old(self).predicate().produces(*first, *second, false),
                (old(self).consumer_calls(), 0),
                (final(self).consumer_calls(), 0),
            ),
            final(self).predicate() == old(self).predicate(),
    {
        if self.predicate.test(first, second) {
            self.consumer.accept(first, second);
        }
    }

    fn into_box(self) -> (res: BoxStatefulBiConsumer<T, U>)
        where
            Self: Sized + 'static,
            T: 'static,
            U: 'static,
        ensures
            forall|t: T, u: U| #[trigger] res.accepts(t, u) == self.accepts(t, u),
            forall|t: T, u: U| #[trigger] res.performs(t, u) == self.performs(t, u),
            res.spec_name() is None,
    {
        BoxStatefulBiConsumer::from_call_mut(self, None)
    }

    fn into_rc(self) -> (res: RcStatefulBiConsumer<T, U>)
        where
            Self: Sized + 'static,
            T: 'static,
            U: 'static,
        ensures
            forall|t: T, u: U| #[trigger] res.accepts(t, u) == self.accepts(t, u),
            forall|t: T, u: U| #[trigger] res.performs(t, u) == self.performs(t, u),
            res.spec_name() is None,
    {
        RcStatefulBiConsumer::from_call_mut(self, None)
    }

    fn into_arc(self) -> (res: ArcStatefulBiConsumer<T, U>)
        where
            Self: Sized + Send + Sync + 'static,
            T: 'static,
            U: 'static,
        ensures
            forall|t: T, u: U| #[trigger] res.accepts(t, u) == self.accepts(t, u),
            forall|t: T, u: U| #[trigger] res.performs(t, u) == self.performs(t, u),
            res.spec_name() is None,
    {
        ArcStatefulBiConsumer::from_call_mut(self, None)
    }

    fn into_once(self) -> (res: BoxBiConsumerOnce<T, U>)
        where
            Self: Sized + 'static,
            T: 'static,
            U: 'static,
        ensures
            forall|t: T, u: U| #[trigger] res.accepts(t, u) == self.accepts(t, u),
            forall|t: T, u: U| #[trigger] res.performs(t, u) == self.performs(t, u),
            res.spec_name() is None,
    {
        BoxBiConsumerOnce::from_call_once(self, None)
    }

    fn to_box(&self) -> (res: BoxStatefulBiConsumer<T, U>)
        where
            Self: Clone + 'static,
            T: 'static,
            U: 'static,
    {
        let c = self.clone();
        let res = BoxStatefulBiConsumer::from_call_mut(c, None);
        assert(cloned::<Self>(*self, c));
        res
    }

    fn to_rc(&self) -> (res: RcStatefulBiConsumer<T, U>)
        where
            Self: Clone + 'static,
            T: 'static,
            U: 'static,
    {
        let c = self.clone();
        let res = RcStatefulBiConsumer::from_call_mut(c, None);
        assert(cloned::<Self>(*self, c));
        res
    }

    fn to_arc(&self) -> (res: ArcStatefulBiConsumer<T, U>)
        where
            Self: Clone + Send + Sync + 'static,
            T: 'static,
            U: 'static,
    {
        let c = self.clone();
        let res = ArcStatefulBiConsumer::from_call_mut(c, None);
        assert(cloned::<Self>(*self, c));
        res
    }

    fn to_once(&self) -> (res: BoxBiConsumerOnce<T, U>)
        where
            Self: Clone + 'static,
            T: 'static,
            U: 'static,
    {
        let c = self.clone();
        let res = BoxBiConsumerOnce::from_call_once(c, None);
        assert(cloned::<Self>(*self, c));
        res
    }
}

/// A stateful consumer behind an `Rc` and a lock: shared within one thread;
/// every clone calls the same consumer and sees the state that the others
/// left.
#[verifier::reject_recursive_types(T)]
#[verifier::reject_recursive_types(U)]
pub struct RcStatefulBiConsumer<T, U> {
    function: Rc<LockedCallMut2<T, U, ()>>,
    name: Option<String>,
}

impl<T, U> RcStatefulBiConsumer<T, U> {
    pub closed spec fn accepts(&self, t: T, u: U) -> bool {
        self.function.pre(t, u)
    }

    pub closed spec fn performs(&self, t: T, u: U) -> bool {
        self.function.post(t, u, ())
    }

    pub closed spec fn spec_name(&self) -> Option<Seq<char>> {
        name_view(self.name)
    }

    pub(crate) fn from_call_mut<C: CallMut2<T, U, ()> + 'static>(c: C, name: Option<String>) -> (res: Self)
        ensures
            forall|t: T, u: U| #[trigger] res.accepts(t, u) == c.pre(t, u),
            forall|t: T, u: U| #[trigger] res.performs(t, u) == c.post(t, u, ()),
            res.spec_name() == name_view(name),
    {
        RcStatefulBiConsumer { function: Rc::new(LockedCallMut2::new(c)), name }
    }

    /// Wraps the closure `f`.
    pub fn new<F>(f: F) -> (res: Self)
        where
            F: FnMut(&T, &U) + 'static,
        ensures
            forall|t: T, u: U| #[trigger] res.accepts(t, u) == call_requires(f, (&t, &u)),
            forall|t: T, u: U| #[trigger] res.performs(t, u) == call_ensures(f, (&t, &u), ()),
            res.spec_name() is None,
    {
        Self::from_call_mut(f, None)
    }

    /// Wraps the closure `f` under the name `name`.
    pub fn new_with_name<F>(name: &str, f: F) -> (res: Self)
        where
            F: FnMut(&T, &U) + 'static,
        ensures
            forall|t: T, u: U| #[trigger] res.accepts(t, u) == call_requires(f, (&t, &u)),
            forall|t: T, u: U| #[trigger] res.performs(t, u) == call_ensures(f, (&t, &u), ()),
            res.spec_name() == Some(name@),
    {
        Self::from_call_mut(f, owned_name(name))
    }

    /// Wraps the closure `f` under the name `name`, if there is one.
    pub fn new_with_optional_name<F>(f: F, name: Option<String>) -> (res: Self)
        where
            F: FnMut(&T, &U) + 'static,
        ensures
            forall|t: T, u: U| #[trigger] res.accepts(t, u) == call_requires(f, (&t, &u)),
            forall|t: T, u: U| #[trigger] res.performs(t, u) == call_ensures(f, (&t, &u), ()),
            res.spec_name() == name_view(name),
    {
        Self::from_call_mut(f, name)
    }

    /// A consumer that does nothing.
    pub fn noop() -> (res: Self)
        ensures
            forall|t: T, u: U| #[trigger] res.accepts(t, u),
            forall|t: T, u: U| #[trigger] res.performs(t, u),
            res.spec_name() is None,
    {
        Self::from_call_mut(Noop, None)
    }

    /// The name of this consumer, if it has one.
    pub fn name(&self) -> (res: Option<&str>)
        ensures
            match res {
                Some(s) => self.spec_name() == Some(s@),
                None => self.spec_name() is None,
            },
    {
        name_str(&self.name)
    }

    /// Gives this consumer the name `name`; its behaviour stays the same.
    pub fn set_name(&mut self, name: &str)
        ensures
            final(self).spec_name() == Some(name@),
            forall|t: T, u: U| #[trigger] final(self).accepts(t, u) == old(self).accepts(t, u),
            forall|t: T, u: U| #[trigger] final(self).performs(t, u) == old(self).performs(t, u),
    {
        self.name = owned_name(name);
    }

    /// Restricts a clone of this consumer to the pair of valuess on which `predicate` holds.
    pub fn when<P>(&self, predicate: P) -> (res: RcConditionalStatefulBiConsumer<T, U>)
        where
            P: BiPredicate<T, U> + 'static,
            T: 'static,
            U: 'static,
        ensures
            res.consumer() == *self,
            res.consumer_calls() == 0,
            forall|t: T, u: U| predicate.accepts(t, u) ==> #[trigger] res.predicate().accepts(t, u),
            forall|t: T, u: U, b: bool| #[trigger] res.predicate().produces(t, u, b) ==> predicate.produces(t, u, b),
    {
        RcConditionalStatefulBiConsumer { consumer: CountedBi::new(self.duplicate()), predicate: predicate.into_rc() }
    }

    /// A clone of this consumer followed by `after`, on the same pair of values.
    pub fn and_then<C>(&self, after: C) -> (res: RcStatefulBiConsumer<T, U>)
        where
            C: StatefulBiConsumer<T, U> + 'static,
            T: 'static,
            U: 'static,
        ensures
            forall|t: T, u: U| #[trigger] res.accepts(t, u) == both_accepts(*self, after, t, u),
            forall|t: T, u: U| #[trigger] res.performs(t, u) == both_performs(*self, after, t, u),
            res.spec_name() is None,
    {
        RcStatefulBiConsumer::from_call_mut(BothMut { first: CountedBi::new(self.duplicate()), second: CountedBi::new(after) }, None)
    }

    /// This consumer as a plain closure.
    pub fn into_fn(self) -> (res: impl FnMut(&T, &U))
        ensures
            forall|t: T, u: U| self.accepts(t, u) ==> call_requires(res, (&t, &u)),
            forall|t: T, u: U| call_ensures(res, (&t, &u), ()) ==> self.performs(t, u),
    {
        move |t: &T, u: &U|
            requires
                self.accepts(*t, *u),
            ensures
                self.performs(*t, *u),
        {
            self.function.call(t, u)
        }
    }

    /// A clone of this consumer as a plain closure.
    pub fn to_fn(&self) -> (res: impl FnMut(&T, &U))
        ensures
            forall|t: T, u: U| self.accepts(t, u) ==> call_requires(res, (&t, &u)),
            forall|t: T, u: U| call_ensures(res, (&t, &u), ()) ==> self.performs(t, u),
    {
        self.duplicate().into_fn()
    }

    fn duplicate(&self) -> (res: Self)
        ensures
            res == *self,
    {
        RcStatefulBiConsumer { function: self.function.clone(), name: clone_name(&self.name) }
    }
}

impl<T, U> CallMut2<T, U, ()> for RcStatefulBiConsumer<T, U> {
    closed spec fn pre(&self, t: T, u: U) -> bool {
        self.accepts(t, u)
    }

    closed spec fn post(&self, t: T, u: U, r: ()) -> bool {
        self.performs(t, u)
    }

    fn call_mut(&mut self, t: &T, u: &U) {
        self.function.call(t, u)
    }
}

impl<T, U> CallOnce2<T, U, ()> for RcStatefulBiConsumer<T, U> {
    closed spec fn pre(&self, t: T, u: U) -> bool {
        self.accepts(t, u)
    }

    closed spec fn post(&self, t: T, u: U, r: ()) -> bool {
        self.performs(t, u)
    }

    fn call_once(self: Box<Self>, t: &T, u: &U) {
        let mut c = *self;
        c.call_mut(t, u)
    }
}

impl<T, U> Clone for RcStatefulBiConsumer<T, U> {
    fn clone(&self) -> (res: Self)
        ensures
            res == *self,
    {
        self.duplicate()
    }
}

impl<T, U> StatefulBiConsumer<T, U> for RcStatefulBiConsumer<T, U> {
    open spec fn accepts(&self, t: T, u: U) -> bool {
        RcStatefulBiConsumer::accepts(self, t, u)
    }

    open spec fn performs(&self, t: T, u: U) -> bool {
        RcStatefulBiConsumer::performs(self, t, u)
    }

    fn accept(&mut self, first: &T, second: &U)
        ensures
            *final(self) == *old(self),
    {
        self.function.call(first, second)
    }

    fn into_box(self) -> (res: BoxStatefulBiConsumer<T, U>)
        where
            Self: Sized + 'static,
            T: 'static,
            U: 'static,
        ensures
            forall|t: T, u: U| #[trigger] res.accepts(t, u) == self.accepts(t, u),
            forall|t: T, u: U| #[trigger] res.performs(t, u) == self.performs(t, u),
            res.spec_name() == self.spec_name(),
    {
        let name = clone_name(&self.name);
        BoxStatefulBiConsumer::from_call_mut(self, name)
    }

    fn into_rc(self) -> (res: RcStatefulBiConsumer<T, U>)
        where
            Self: Sized + 'static,
            T: 'static,
            U: 'static,
        ensures
            res == self,
    {
        self
    }

    fn into_arc(self) -> (res: ArcStatefulBiConsumer<T, U>)
        where
            Self: Sized + Send + Sync + 'static,
            T: 'static,
            U: 'static,
        ensures
            forall|t: T, u: U| #[trigger] res.accepts(t, u) == self.accepts(t, u),
            forall|t: T, u: U| #[trigger] res.performs(t, u) == self.performs(t, u),
            res.spec_name() == self.spec_name(),
    {
        let name = clone_name(&self.name);
        ArcStatefulBiConsumer::from_call_mut(self, name)
    }

    fn into_once(self) -> (res: BoxBiConsumerOnce<T, U>)
        where
            Self: Sized + 'static,
            T: 'static,
            U: 'static,
        ensures
            forall|t: T, u: U| #[trigger] res.accepts(t, u) == self.accepts(t, u),
            forall|t: T, u: U| #[trigger] res.performs(t, u) == self.performs(t, u),
            res.spec_name() == self.spec_name(),
    {
        let name = clone_name(&self.name);
        BoxBiConsumerOnce::from_call_once(self, name)
    }

    fn to_box(&self) -> (res: BoxStatefulBiConsumer<T, U>)
        where
            Self: Clone + 'static,
            T: 'static,
            U: 'static,
        ensures
            forall|t: T, u: U| #[trigger] res.accepts(t, u) == self.accepts(t, u),
            forall|t: T, u: U| #[trigger] res.performs(t, u) == self.performs(t, u),
            res.spec_name() == self.spec_name(),
    {
        let res = BoxStatefulBiConsumer::from_call_mut(self.duplicate(), clone_name(&self.name));
        assert(cloned::<Self>(*self, *self));
        res
    }

    fn to_rc(&self) -> (res: RcStatefulBiConsumer<T, U>)
        where
            Self: Clone + 'static,
            T: 'static,
            U: 'static,
        ensures
            res == *self,
    {
        let res = self.duplicate();
        assert(cloned::<Self>(*self, *self));
        res
    }

    fn to_arc(&self) -> (res: ArcStatefulBiConsumer<T, U>)
        where
            Self: Clone + Send + Sync + 'static,
            T: 'static,
            U: 'static,
        ensures
            forall|t: T, u: U| #[trigger] res.accepts(t, u) == self.accepts(t, u),
            forall|t: T, u: U| #[trigger] res.performs(t, u) == self.performs(t, u),
            res.spec_name() == self.spec_name(),
    {
        let res = ArcStatefulBiConsumer::from_call_mut(self.duplicate(), clone_name(&self.name));
        assert(cloned::<Self>(*self, *self));
        res
    }

    fn to_once(&self) -> (res: BoxBiConsumerOnce<T, U>)
        where
            Self: Clone + 'static,
            T: 'static,
            U: 'static,
        ensures
            forall|t: T, u: U| #[trigger] res.accepts(t, u) == self.accepts(t, u),
            forall|t: T, u: U| #[trigger] res.performs(t, u) == self.performs(t, u),
            res.spec_name() == self.spec_name(),
    {
        let res = BoxBiConsumerOnce::from_call_once(self.duplicate(), clone_name(&self.name));
        assert(cloned::<Self>(*self, *self));
        res
    }
}

/// A [`RcStatefulBiConsumer`] that acts only on the pair of valuess that a predicate accepts.
#[verifier::reject_recursive_types(T)]
#[verifier::reject_recursive_types(U)]
pub struct RcConditionalStatefulBiConsumer<T, U> {
    consumer: CountedBi<RcStatefulBiConsumer<T, U>>,
    predicate: RcBiPredicate<T, U>,
}

impl<T: 'static, U: 'static> RcConditionalStatefulBiConsumer<T, U> {
    pub closed spec fn consumer(&self) -> RcStatefulBiConsumer<T, U> {
        self.consumer.inner()
    }

    /// How many times this conditional consumer has run its consumer.
    pub closed spec fn consumer_calls(&self) -> nat {
        self.consumer.calls()
    }

    pub closed spec fn predicate(&self) -> RcBiPredicate<T, U> {
        self.predicate
    }

    pub open spec fn accepts(&self, t: T, u: U) -> bool {
        guarded_accepts(self.predicate(), self.consumer(), t, u)
    }

    pub open spec fn performs(&self, t: T, u: U) -> bool {
        guarded_performs(self.predicate(), self.consumer(), t, u)
    }

    /// A clone of this conditional consumer followed by `next`, which acts on every pair of values.
    pub fn and_then<C>(&self, next: C) -> (res: RcStatefulBiConsumer<T, U>)
        where
            C: StatefulBiConsumer<T, U> + 'static,
        ensures
            forall|t: T, u: U| #[trigger] res.accepts(t, u) == both_accepts(*self, next, t, u),
            forall|t: T, u: U| #[trigger] res.performs(t, u) == both_performs(*self, next, t, u),
            res.spec_name() is None,
    {
        RcStatefulBiConsumer::from_call_mut(BothMut { first: CountedBi::new(self.duplicate()), second: CountedBi::new(next) }, None)
    }

    /// The consumer that runs the guarded consumer where the predicate holds
    /// and `else_consumer` elsewhere.
    pub fn or_else<C>(&self, else_consumer: C) -> (res: RcStatefulBiConsumer<T, U>)
        where
            C: StatefulBiConsumer<T, U> + 'static,
        ensures
            forall|t: T, u: U| #[trigger] res.accepts(t, u) == choice_accepts(self.predicate(), self.consumer(), else_consumer, t, u),
            forall|t: T, u: U| #[trigger] res.performs(t, u) == choice_performs(self.predicate(), self.consumer(), else_consumer, t, u),
            res.spec_name() is None,
    {
        RcStatefulBiConsumer::from_call_mut(
            ChooseMut { predicate: self.predicate.clone(), on_true: self.consumer.with_copy(self.consumer.get().clone()), on_false: CountedBi::new(else_consumer) },
            None,
        )
    }

    fn duplicate(&self) -> (res: Self)
        ensures
            res == *self,
    {
        RcConditionalStatefulBiConsumer { consumer: self.consumer.with_copy(self.consumer.get().clone()), predicate: self.predicate.clone() }
    }
}

impl<T: 'static, U: 'static> CallMut2<T, U, ()> for RcConditionalStatefulBiConsumer<T, U> {
    closed spec fn pre(&self, t: T, u: U) -> bool {
        self.accepts(t, u)
    }

    closed spec fn post(&self, t: T, u: U, r: ()) -> bool {
        self.performs(t, u)
    }

    closed spec fn part_calls(&self) -> (nat, nat) {
        (self.consumer.calls(), 0)
    }

    closed spec fn part_step(&self, t: T, u: U, before: (nat, nat), after: (nat, nat)) -> bool {
        guarded_step(self.predicate.produces(t, u, true), self.predicate.produces(t, u, false), before, after)
    }

    fn call_mut(&mut self, t: &T, u: &U) {
        if self.predicate.test(t, u) {
            self.consumer.accept(t, u);
        }
    }
}

impl<T: 'static, U: 'static> CallOnce2<T, U, ()> for RcConditionalStatefulBiConsumer<T, U> {
    closed spec fn pre(&self, t: T, u: U) -> bool {
        self.accepts(t, u)
    }

    closed spec fn post(&self, t: T, u: U, r: ()) -> bool {
        self.performs(t, u)
    }

    fn call_once(self: Box<Self>, t: &T, u: &U) {
        let mut c = *self;
        c.call_mut(t, u)
    }
}

impl<T: 'static, U: 'static> Clone for RcConditionalStatefulBiConsumer<T, U> {
    fn clone(&self) -> (res: Self)
        ensures
            res == *self,
    {
        self.duplicate()
    }
}

impl<T: 'static, U: 'static> StatefulBiConsumer<T, U> for RcConditionalStatefulBiConsumer<T, U> {
    open spec fn accepts(&self, t: T, u: U) -> bool {
        RcConditionalStatefulBiConsumer::accepts(self, t, u)
    }

    open spec fn performs(&self, t: T, u: U) -> bool {
        RcConditionalStatefulBiConsumer::performs(self, t, u)
    }

    fn accept(&mut self, first: &T, second: &U)
        ensures
            guarded_step(
                old(self).predicate().produces(*first, *second, true),
                old(self).predicate().produces(*first, *second, false),
                (old(self).consumer_calls(), 0),
                (final(self).consumer_calls(), 0),
            ),
            final(self).predicate() == old(self).predicate(),
    {
        if self.predicate.test(first, second) {
            self.consumer.accept(first, second);
        }
    }

    fn into_box(self) -> (res: BoxStatefulBiConsumer<T, U>)
        where
            Self: Sized + 'static,
            T: 'static,
            U: 'static,
        ensures
            forall|t: T, u: U| #[trigger] res.accepts(t, u) == self.accepts(t, u),
            forall|t: T, u: U| #[trigger] res.performs(t, u) == self.performs(t, u),
            res.spec_name() is None,
    {
        BoxStatefulBiConsumer::from_call_mut(self, None)
    }

    fn into_rc(self) -> (res: RcStatefulBiConsumer<T, U>)
        where
            Self: Sized + 'static,
            T: 'static,
            U: 'static,
        ensures
            forall|t: T, u: U| #[trigger] res.accepts(t, u) == self.accepts(t, u),
            forall|t: T, u: U| #[trigger] res.performs(t, u) == self.performs(t, u),
            res.spec_name() is None,
    {
        RcStatefulBiConsumer::from_call_mut(self, None)
    }

    fn into_arc(self) -> (res: ArcStatefulBiConsumer<T, U>)
        where
            Self: Sized + Send + Sync + 'static,
            T: 'static,
            U: 'static,
        ensures
            forall|t: T, u: U| #[trigger] res.accepts(t, u) == self.accepts(t, u),
            forall|t: T, u: U| #[trigger] res.performs(t, u) == self.performs(t, u),
            res.spec_name() is None,
    {
        ArcStatefulBiConsumer::from_call_mut(self, None)
    }

    fn into_once(self) -> (res: BoxBiConsumerOnce<T, U>)
        where
            Self: Sized + 'static,
            T: 'static,
            U: 'static,
        ensures
            forall|t: T, u: U| #[trigger] res.accepts(t, u) == self.accepts(t, u),
            forall|t: T, u: U| #[trigger] res.performs(t, u) == self.performs(t, u),
            res.spec_name() is None,
    {
        BoxBiConsumerOnce::from_call_once(self, None)
    }

    fn to_box(&self) -> (res: BoxStatefulBiConsumer<T, U>)
        where
            Self: Clone + 'static,
            T: 'static,
            U: 'static,
        ensures
            forall|t: T, u: U| #[trigger] res.accepts(t, u) == self.accepts(t, u),
            forall|t: T, u: U| #[trigger] res.performs(t, u) == self.performs(t, u),
            res.spec_name() is None,
    {
        let res = BoxStatefulBiConsumer::from_call_mut(self.duplicate(), None);
        assert(cloned::<Self>(*self, *self));
        res
    }

    fn to_rc(&self) -> (res: RcStatefulBiConsumer<T, U>)
        where
            Self: Clone + 'static,
            T: 'static,
            U: 'static,
        ensures
            forall|t: T, u: U| #[trigger] res.accepts(t, u) == self.accepts(t, u),
            forall|t: T, u: U| #[trigger] res.performs(t, u) == self.performs(t, u),
            res.spec_name() is None,
    {
        let res = RcStatefulBiConsumer::from_call_mut(self.duplicate(), None);
        assert(cloned::<Self>(*self, *self));
        res
    }

    fn to_arc(&self) -> (res: ArcStatefulBiConsumer<T, U>)
        where
            Self: Clone + Send + Sync + 'static,
            T: 'static,
            U: 'static,
        ensures
            forall|t: T, u: U| #[trigger] res.accepts(t, u) == self.accepts(t, u),
            forall|t: T, u: U| #[trigger] res.performs(t, u) == self.performs(t, u),
            res.spec_name() is None,
    {
        let res = ArcStatefulBiConsumer::from_call_mut(self.duplicate(), None);
        assert(cloned::<Self>(*self, *self));
        res
    }

    fn to_once(&self) -> (res: BoxBiConsumerOnce<T, U>)
        where
            Self: Clone + 'static,
            T: 'static,
            U: 'static,
        ensures
            forall|t: T, u: U| #[trigger] res.accepts(t, u) == self.accepts(t, u),
            forall|t: T, u: U| #[trigger] res.performs(t, u) == self.performs(t, u),
            res.spec_name() is None,
    {
        let res = BoxBiConsumerOnce::from_call_once(self.duplicate(), None);
        assert(cloned::<Self>(*self, *self));
        res
    }
}

/// A stateful consumer behind an `Arc` and a lock: shared between threads;
/// every clone calls the same consumer and sees the state that the others
/// left.
#[verifier::reject_recursive_types(T)]
#[verifier::reject_recursive_types(U)]
pub struct ArcStatefulBiConsumer<T, U> {
    function: Arc<LockedSyncCallMut2<T, U, ()>>,
    name: Option<String>,
}

impl<T, U> ArcStatefulBiConsumer<T, U> {
    pub closed spec fn accepts(&self, t: T, u: U) -> bool {
        self.function.pre(t, u)
    }

    pub closed spec fn performs(&self, t: T, u: U) -> bool {
        self.function.post(t, u, ())
    }

    pub closed spec fn spec_name(&self) -> Option<Seq<char>> {
        name_view(self.name)
    }

    pub(crate) fn from_call_mut<C: CallMut2<T, U, ()> + Send + Sync + 'static>(c: C, name: Option<String>) -> (res: Self)
        ensures
            forall|t: T, u: U| #[trigger] res.accepts(t, u) == c.pre(t, u),
            forall|t: T, u: U| #[trigger] res.performs(t, u) == c.post(t, u, ()),
            res.spec_name() == name_view(name),
    {
        ArcStatefulBiConsumer { function: Arc::new(LockedSyncCallMut2::new(c)), name }
    }

    /// Wraps the closure `f`.
    pub fn new<F>(f: F) -> (res: Self)
        where
            F: FnMut(&T, &U) + Send + Sync + 'static,
        ensures
            forall|t: T, u: U| #[trigger] res.accepts(t, u) == call_requires(f, (&t, &u)),
            forall|t: T, u: U| #[trigger] res.performs(t, u) == call_ensures(f, (&t, &u), ()),
            res.spec_name() is None,
    {
        Self::from_call_mut(f, None)
    }

    /// Wraps the closure `f` under the name `name`.
    pub fn new_with_name<F>(name: &str, f: F) -> (res: Self)
        where
            F: FnMut(&T, &U) + Send + Sync + 'static,
        ensures
            forall|t: T, u: U| #[trigger] res.accepts(t, u) == call_requires(f, (&t, &u)),
            forall|t: T, u: U| #[trigger] res.performs(t, u) == call_ensures(f, (&t, &u), ()),
            res.spec_name() == Some(name@),
    {
        Self::from_call_mut(f, owned_name(name))
    }

    /// Wraps the closure `f` under the name `name`, if there is one.
    pub fn new_with_optional_name<F>(f: F, name: Option<String>) -> (res: Self)
        where
            F: FnMut(&T, &U) + Send + Sync + 'static,
        ensures
            forall|t: T, u: U| #[trigger] res.accepts(t, u) == call_requires(f, (&t, &u)),
            forall|t: T, u: U| #[trigger] res.performs(t, u) == call_ensures(f, (&t, &u), ()),
            res.spec_name() == name_view(name),
    {
        Self::from_call_mut(f, name)
    }

    /// A consumer that does nothing.
    pub fn noop() -> (res: Self)
        ensures
            forall|t: T, u: U| #[trigger] res.accepts(t, u),
            forall|t: T, u: U| #[trigger] res.performs(t, u),
            res.spec_name() is None,
    {
        Self::from_call_mut(Noop, None)
    }

    /// The name of this consumer, if it has one.
    pub fn name(&self) -> (res: Option<&str>)
        ensures
            match res {
                Some(s) => self.spec_name() == Some(s@),
                None => self.spec_name() is None,
            },
    {
        name_str(&self.name)
    }

    /// Gives this consumer the name `name`; its behaviour stays the same.
    pub fn set_name(&mut self, name: &str)
        ensures
            final(self).spec_name() == Some(name@),
            forall|t: T, u: U| #[trigger] final(self).accepts(t, u) == old(self).accepts(t, u),
            forall|t: T, u: U| #[trigger] final(self).performs(t, u) == old(self).performs(t, u),
    {
        self.name = owned_name(name);
    }

    /// Restricts a clone of this consumer to the pair of valuess on which `predicate` holds.
    pub fn when<P>(&self, predicate: P) -> (res: ArcConditionalStatefulBiConsumer<T, U>)
        where
            P: BiPredicate<T, U> + Send + Sync + 'static,
            T: 'static,
            U: 'static,
        ensures
            res.consumer() == *self,
            res.consumer_calls() == 0,
            forall|t: T, u: U| predicate.accepts(t, u) ==> #[trigger] res.predicate().accepts(t, u),
            forall|t: T, u: U, b: bool| #[trigger] res.predicate().produces(t, u, b) ==> predicate.produces(t, u, b),
    {
        ArcConditionalStatefulBiConsumer { consumer: CountedBi::new(self.duplicate()), predicate: predicate.into_arc() }
    }

    /// A clone of this consumer followed by `after`, on the same pair of values.
    pub fn and_then<C>(&self, after: C) -> (res: ArcStatefulBiConsumer<T, U>)
        where
            C: StatefulBiConsumer<T, U> + Send + Sync + 'static,
            T: 'static,
            U: 'static,
        ensures
            forall|t: T, u: U| #[trigger] res.accepts(t, u) == both_accepts(*self, after, t, u),
            forall|t: T, u: U| #[trigger] res.performs(t, u) == both_performs(*self, after, t, u),
            res.spec_name() is None,
    {
        ArcStatefulBiConsumer::from_call_mut(BothMut { first: CountedBi::new(self.duplicate()), second: CountedBi::new(after) }, None)
    }

    /// This consumer as a plain closure.
    pub fn into_fn(self) -> (res: impl FnMut(&T, &U))
        ensures
            forall|t: T, u: U| self.accepts(t, u) ==> call_requires(res, (&t, &u)),
            forall|t: T, u: U| call_ensures(res, (&t, &u), ()) ==> self.performs(t, u),
    {
        move |t: &T, u: &U|
            requires
                self.accepts(*t, *u),
            ensures
                self.performs(*t, *u),
        {
            self.function.call(t, u)
        }
    }

    /// A clone of this consumer as a plain closure.
    pub fn to_fn(&self) -> (res: impl FnMut(&T, &U))
        ensures
            forall|t: T, u: U| self.accepts(t, u) ==> call_requires(res, (&t, &u)),
            forall|t: T, u: U| call_ensures(res, (&t, &u), ()) ==> self.performs(t, u),
    {
        self.duplicate().into_fn()
    }

    fn duplicate(&self) -> (res: Self)
        ensures
            res == *self,
    {
        ArcStatefulBiConsumer { function: self.function.clone(), name: clone_name(&self.name) }
    }
}

impl<T, U> CallMut2<T, U, ()> for ArcStatefulBiConsumer<T, U> {
    closed spec fn pre(&self, t: T, u: U) -> bool {
        self.accepts(t, u)
    }

    closed spec fn post(&self, t: T, u: U, r: ()) -> bool {
        self.performs(t, u)
    }

    fn call_mut(&mut self, t: &T, u: &U) {
        self.function.call(t, u)
    }
}

impl<T, U> CallOnce2<T, U, ()> for ArcStatefulBiConsumer<T, U> {
    closed spec fn pre(&self, t: T, u: U) -> bool {
        self.accepts(t, u)
    }

    closed spec fn post(&self, t: T, u: U, r: ()) -> bool {
        self.performs(t, u)
    }

    fn call_once(self: Box<Self>, t: &T, u: &U) {
        let mut c = *self;
        c.call_mut(t, u)
    }
}

impl<T, U> Clone for ArcStatefulBiConsumer<T, U> {
    fn clone(&self) -> (res: Self)
        ensures
            res == *self,
    {
        self.duplicate()
    }
}

impl<T, U> StatefulBiConsumer<T, U> for ArcStatefulBiConsumer<T, U> {
    open spec fn accepts(&self, t: T, u: U) -> bool {
        ArcStatefulBiConsumer::accepts(self, t, u)
    }

    open spec fn performs(&self, t: T, u: U) -> bool {
        ArcStatefulBiConsumer::performs(self, t, u)
    }

    fn accept(&mut self, first: &T, second: &U)
        ensures
            *final(self) == *old(self),
    {
        self.function.call(first, second)
    }

    fn into_box(self) -> (res: BoxStatefulBiConsumer<T, U>)
        where
            Self: Sized + 'static,
            T: 'static,
            U: 'static,
        ensures
            forall|t: T, u: U| #[trigger] res.accepts(t, u) == self.accepts(t, u),
            forall|t: T, u: U| #[trigger] res.performs(t, u) == self.performs(t, u),
            res.spec_name() == self.spec_name(),
    {
        let name = clone_name(&self.name);
        BoxStatefulBiConsumer::from_call_mut(self, name)
    }

    fn into_rc(self) -> (res: RcStatefulBiConsumer<T, U>)
        where
            Self: Sized + 'static,
            T: 'static,
            U: 'static,
        ensures
            forall|t: T, u: U| #[trigger] res.accepts(t, u) == self.accepts(t, u),
            forall|t: T, u: U| #[trigger] res.performs(t, u) == self.performs(t, u),
            res.spec_name() == self.spec_name(),
    {
        let name = clone_name(&self.name);
        RcStatefulBiConsumer::from_call_mut(self, name)
    }

    fn into_arc(self) -> (res: ArcStatefulBiConsumer<T, U>)
        where
            Self: Sized + Send + Sync + 'static,
            T: 'static,
            U: 'static,
        ensures
            res == self,
    {
        self
    }

    fn into_once(self) -> (res: BoxBiConsumerOnce<T, U>)
        where
            Self: Sized + 'static,
            T: 'static,
            U: 'static,
        ensures
            forall|t: T, u: U| #[trigger] res.accepts(t, u) == self.accepts(t, u),
            forall|t: T, u: U| #[trigger] res.performs(t, u) == self.performs(t, u),
            res.spec_name() == self.spec_name(),
    {
        let name = clone_name(&self.name);
        BoxBiConsumerOnce::from_call_once(self, name)
    }

    fn to_box(&self) -> (res: BoxStatefulBiConsumer<T, U>)
        where
            Self: Clone + 'static,
            T: 'static,
            U: 'static,
        ensures
            forall|t: T, u: U| #[trigger] res.accepts(t, u) == self.accepts(t, u),
            forall|t: T, u: U| #[trigger] res.performs(t, u) == self.performs(t, u),
            res.spec_name() == self.spec_name(),
    {
        let res = BoxStatefulBiConsumer::from_call_mut(self.duplicate(), clone_name(&self.name));
        assert(cloned::<Self>(*self, *self));
        res
    }

    fn to_rc(&self) -> (res: RcStatefulBiConsumer<T, U>)
        where
            Self: Clone + 'static,
            T: 'static,
            U: 'static,
        ensures
            forall|t: T, u: U| #[trigger] res.accepts(t, u) == self.accepts(t, u),
            forall|t: T, u: U| #[trigger] res.performs(t, u) == self.performs(t, u),
            res.spec_name() == self.spec_name(),
    {
        let res = RcStatefulBiConsumer::from_call_mut(self.duplicate(), clone_name(&self.name));
        assert(cloned::<Self>(*self, *self));
        res
    }

    fn to_arc(&self) -> (res: ArcStatefulBiConsumer<T, U>)
        where
            Self: Clone + Send + Sync + 'static,
            T: 'static,
            U: 'static,
        ensures
            res == *self,
    {
        let res = self.duplicate();
        assert(cloned::<Self>(*self, *self));
        res
    }

    fn to_once(&self) -> (res: BoxBiConsumerOnce<T, U>)
        where
            Self: Clone + 'static,
            T: 'static,
            U: 'static,
        ensures
            forall|t: T, u: U| #[trigger] res.accepts(t, u) == self.accepts(t, u),
            forall|t: T, u: U| #[trigger] res.performs(t, u) == self.performs(t, u),
            res.spec_name() == self.spec_name(),
    {
        let res = BoxBiConsumerOnce::from_call_once(self.duplicate(), clone_name(&self.name));
        assert(cloned::<Self>(*self, *self));
        res
    }
}

/// A [`ArcStatefulBiConsumer`] that acts only on the pair of valuess that a predicate accepts.
#[verifier::reject_recursive_types(T)]
#[verifier::reject_recursive_types(U)]
pub struct ArcConditionalStatefulBiConsumer<T, U> {
    consumer: CountedBi<ArcStatefulBiConsumer<T, U>>,
    predicate: ArcBiPredicate<T, U>,
}

impl<T: 'static, U: 'static> ArcConditionalStatefulBiConsumer<T, U> {
    pub closed spec fn consumer(&self) -> ArcStatefulBiConsumer<T, U> {
        self.consumer.inner()
    }

    /// How many times this conditional consumer has run its consumer.
    pub closed spec fn consumer_calls(&self) -> nat {
        self.consumer.calls()
    }

    pub closed spec fn predicate(&self) -> ArcBiPredicate<T, U> {
        self.predicate
    }

    pub open spec fn accepts(&self, t: T, u: U) -> bool {
        guarded_accepts(self.predicate(), self.consumer(), t, u)
    }

    pub open spec fn performs(&self, t: T, u: U) -> bool {
        guarded_performs(self.predicate(), self.consumer(), t, u)
    }

    /// A clone of this conditional consumer followed by `next`, which acts on every pair of values.
    pub fn and_then<C>(&self, next: C) -> (res: ArcStatefulBiConsumer<T, U>)
        where
            C: StatefulBiConsumer<T, U> + Send + Sync + 'static,
        ensures
            forall|t: T, u: U| #[trigger] res.accepts(t, u) == both_accepts(*self, next, t, u),
            forall|t: T, u: U| #[trigger] res.performs(t, u) == both_performs(*self, next, t, u),
            res.spec_name() is None,
    {
        ArcStatefulBiConsumer::from_call_mut(BothMut { first: CountedBi::new(self.duplicate()), second: CountedBi::new(next) }, None)
    }

    /// The consumer that runs the guarded consumer where the predicate holds
    /// and `else_consumer` elsewhere.
    pub fn or_else<C>(&self, else_consumer: C) -> (res: ArcStatefulBiConsumer<T, U>)
        where
            C: StatefulBiConsumer<T, U> + Send + Sync + 'static,
        ensures
            forall|t: T, u: U| #[trigger] res.accepts(t, u) == choice_accepts(self.predicate(), self.consumer(), else_consumer, t, u),
            forall|t: T, u: U| #[trigger] res.performs(t, u) == choice_performs(self.predicate(), self.consumer(), else_consumer, t, u),
            res.spec_name() is None,
    {
        ArcStatefulBiConsumer::from_call_mut(
            ChooseMut { predicate: self.predicate.clone(), on_true: self.consumer.with_copy(self.consumer.get().clone()), on_false: CountedBi::new(else_consumer) },
            None,
        )
    }

    fn duplicate(&self) -> (res: Self)
        ensures
            res == *self,
    {
        ArcConditionalStatefulBiConsumer { consumer: self.consumer.with_copy(self.consumer.get().clone()), predicate: self.predicate.clone() }
    }
}

impl<T: 'static, U: 'static> CallMut2<T, U, ()> for ArcConditionalStatefulBiConsumer<T, U> {
    closed spec fn pre(&self, t: T, u: U) -> bool {
        self.accepts(t, u)
    }

    closed spec fn post(&self, t: T, u: U, r: ()) -> bool {
        self.performs(t, u)
    }

    closed spec fn part_calls(&self) -> (nat, nat) {
        (self.consumer.calls(), 0)
    }

    closed spec fn part_step(&self, t: T, u: U, before: (nat, nat), after: (nat, nat)) -> bool {
        guarded_step(self.predicate.produces(t, u, true), self.predicate.produces(t, u, false), before, after)
    }

    fn call_mut(&mut self, t: &T, u: &U) {
        if self.predicate.test(t, u) {
            self.consumer.accept(t, u);
        }
    }
}

impl<T: 'static, U: 'static> CallOnce2<T, U, ()> for ArcConditionalStatefulBiConsumer<T, U> {
    closed spec fn pre(&self, t: T, u: U) -> bool {
        self.accepts(t, u)
    }

    closed spec fn post(&self, t: T, u: U, r: ()) -> bool {
        self.performs(t, u)
    }

    fn call_once(self: Box<Self>, t: &T, u: &U) {
        let mut c = *self;
        c.call_mut(t, u)
    }
}

impl<T: 'static, U: 'static> Clone for ArcConditionalStatefulBiConsumer<T, U> {
    fn clone(&self) -> (res: Self)
        ensures
            res == *self,
    {
        self.duplicate()
    }
}

impl<T: 'static, U: 'static> StatefulBiConsumer<T, U> for ArcConditionalStatefulBiConsumer<T, U> {
    open spec fn accepts(&self, t: T, u: U) -> bool {
        ArcConditionalStatefulBiConsumer::accepts(self, t, u)
    }

    open spec fn performs(&self, t: T, u: U) -> bool {
        ArcConditionalStatefulBiConsumer::performs(self, t, u)
    }

    fn accept(&mut self, first: &T, second: &U)
        ensures
            guarded_step(
                old(self).predicate().produces(*first, *second, true),
                old(self).predicate().produces(*first, *second, false),
                (old(self).consumer_calls(), 0),
                (final(self).consumer_calls(), 0),
            ),
            final(self).predicate() == old(self).predicate(),
    {
        if self.predicate.test(first, second) {
            self.consumer.accept(first, second);
        }
    }

    fn into_box(self) -> (res: BoxStatefulBiConsumer<T, U>)
        where
            Self: Sized + 'static,
            T: 'static,
            U: 'static,
        ensures
            forall|t: T, u: U| #[trigger] res.accepts(t, u) == self.accepts(t, u),
            forall|t: T, u: U| #[trigger] res.performs(t, u) == self.performs(t, u),
            res.spec_name() is None,
    {
        BoxStatefulBiConsumer::from_call_mut(self, None)
    }

    fn into_rc(self) -> (res: RcStatefulBiConsumer<T, U>)
        where
            Self: Sized + 'static,
            T: 'static,
            U: 'static,
        ensures
            forall|t: T, u: U| #[trigger] res.accepts(t, u) == self.accepts(t, u),
            forall|t: T, u: U| #[trigger] res.performs(t, u) == self.performs(t, u),
            res.spec_name() is None,
    {
        RcStatefulBiConsumer::from_call_mut(self, None)
    }

    fn into_arc(self) -> (res: ArcStatefulBiConsumer<T, U>)
        where
            Self: Sized + Send + Sync + 'static,
            T: 'static,
            U: 'static,
        ensures
            forall|t: T, u: U| #[trigger] res.accepts(t, u) == self.accepts(t, u),
            forall|t: T, u: U| #[trigger] res.performs(t, u) == self.performs(t, u),
            res.spec_name() is None,
    {
        ArcStatefulBiConsumer::from_call_mut(self, None)
    }

    fn into_once(self) -> (res: BoxBiConsumerOnce<T, U>)
        where
            Self: Sized + 'static,
            T: 'static,
            U: 'static,
        ensures
            forall|t: T, u: U| #[trigger] res.accepts(t, u) == self.accepts(t, u),
            forall|t: T, u: U| #[trigger] res.performs(t, u) == self.performs(t, u),
            res.spec_name() is None,
    {
        BoxBiConsumerOnce::from_call_once(self, None)
    }

    fn to_box(&self) -> (res: BoxStatefulBiConsumer<T, U>)
        where
            Self: Clone + 'static,
            T: 'static,
            U: 'static,
        ensures
            forall|t: T, u: U| #[trigger] res.accepts(t, u) == self.accepts(t, u),
            forall|t: T, u: U| #[trigger] res.performs(t, u) == self.performs(t, u),
            res.spec_name() is None,
    {
        let res = BoxStatefulBiConsumer::from_call_mut(self.duplicate(), None);
        assert(cloned::<Self>(*self, *self));
        res
    }

    fn to_rc(&self) -> (res: RcStatefulBiConsumer<T, U>)
        where
            Self: Clone + 'static,
            T: 'static,
            U: 'static,
        ensures
            forall|t: T, u: U| #[trigger] res.accepts(t, u) == self.accepts(t, u),
            forall|t: T, u: U| #[trigger] res.performs(t, u) == self.performs(t, u),
            res.spec_name() is None,
    {
        let res = RcStatefulBiConsumer::from_call_mut(self.duplicate(), None);
        assert(cloned::<Self>(*self, *self));
        res
    }

    fn to_arc(&self) -> (res: ArcStatefulBiConsumer<T, U>)
        where
            Self: Clone + Send + Sync + 'static,
            T: 'static,
            U: 'static,
        ensures
            forall|t: T, u: U| #[trigger] res.accepts(t, u) == self.accepts(t, u),
            forall|t: T, u: U| #[trigger] res.performs(t, u) == self.performs(t, u),
            res.spec_name() is None,
    {
        let res = ArcStatefulBiConsumer::from_call_mut(self.duplicate(), None);
        assert(cloned::<Self>(*self, *self));
        res
    }

    fn to_once(&self) -> (res: BoxBiConsumerOnce<T, U>)
        where
            Self: Clone + 'static,
            T: 'static,
            U: 'static,
        ensures
            forall|t: T, u: U| #[trigger] res.accepts(t, u) == self.accepts(t, u),
            forall|t: T, u: U| #[trigger] res.performs(t, u) == self.performs(t, u),
            res.spec_name() is None,
    {
        let res = BoxBiConsumerOnce::from_call_once(self.duplicate(), None);
        assert(cloned::<Self>(*self, *self));
        res
    }
}

/// Sequencing for plain closures.
pub trait FnStatefulBiConsumerOps<T, U>: FnMut(&T, &U) + Sized {
    /// This closure followed by `next`, on the same pair of values.
    fn and_then<C>(self, next: C) -> (res: BoxStatefulBiConsumer<T, U>)
        where
            Self: 'static,
            C: StatefulBiConsumer<T, U> + 'static,
            T: 'static,
            U: 'static,
        ensures
            forall|t: T, u: U| #[trigger] res.accepts(t, u) == both_accepts(self, next, t, u),
            forall|t: T, u: U| #[trigger] res.performs(t, u) == both_performs(self, next, t, u),
    {
        BoxStatefulBiConsumer::from_call_mut(BothMut { first: CountedBi::new(self), second: CountedBi::new(next) }, None)
    }
}

impl<T, U, F: FnMut(&T, &U)> FnStatefulBiConsumerOps<T, U> for F {

}

/// A consumer built by `and_then` runs the first consumer and then the
/// second on the same pair: it takes every pair that the first accepts and
/// that the second accepts once the first has acted on it, it takes no pair
/// that the first does not, and when it has run, both have acted.
pub proof fn law_and_then_runs_first_then_second<T, U, A, B, AB>(a: A, b: B, ab: AB, t: T, u: U)
    where
        A: StatefulBiConsumer<T, U>,
        B: StatefulBiConsumer<T, U>,
        AB: StatefulBiConsumer<T, U>,
    requires
        forall|x: T, y: U| #[trigger] ab.accepts(x, y) == both_accepts(a, b, x, y),
        forall|x: T, y: U| #[trigger] ab.performs(x, y) == both_performs(a, b, x, y),
    ensures
        a.accepts(t, u) && (a.performs(t, u) ==> b.accepts(t, u)) ==> ab.accepts(t, u),
        ab.accepts(t, u) ==> a.accepts(t, u),
        ab.performs(t, u) ==> a.performs(t, u) && b.performs(t, u),
{
}

/// Two consumers in turn on the same pair of values: defined when `first` is, and
/// `second` is once `first` has done its part.
pub open spec fn both_accepts<T, U, C: StatefulBiConsumer<T, U>, D: StatefulBiConsumer<T, U>>(first: C, second: D, t: T, u: U) -> bool {
    &&& first.accepts(t, u)
    &&& first.performs(t, u) ==> second.accepts(t, u)
}

/// Two consumers in turn on the same pair of values: both have done their part.
pub open spec fn both_performs<T, U, C: StatefulBiConsumer<T, U>, D: StatefulBiConsumer<T, U>>(first: C, second: D, t: T, u: U) -> bool {
    first.performs(t, u) && second.performs(t, u)
}

/// One call of a consumer guarded by a predicate runs the consumer exactly
/// once where the predicate may answer true (`may_hold`), and not at all
/// where it may answer false (`may_fail`): the count of its runs grows by one
/// or stays.
pub open spec fn guarded_step(may_hold: bool, may_fail: bool, before: (nat, nat), after: (nat, nat)) -> bool {
    ||| after == (before.0 + 1, before.1) && may_hold
    ||| after == before && may_fail
}

/// A consumer that acts only where a predicate holds: defined when the
/// predicate is, and the consumer is wherever the answer may be `true`.
pub open spec fn guarded_accepts<T, U, P: BiPredicate<T, U>, C: StatefulBiConsumer<T, U>>(p: P, c: C, t: T, u: U) -> bool {
    &&& p.accepts(t, u)
    &&& forall|b: bool| #[trigger] p.produces(t, u, b) ==> (b ==> c.accepts(t, u))
}

/// A consumer that acts only where a predicate holds: some answer of the
/// predicate was given, and the consumer did its part if it was `true`.
pub open spec fn guarded_performs<T, U, P: BiPredicate<T, U>, C: StatefulBiConsumer<T, U>>(p: P, c: C, t: T, u: U) -> bool {
    exists|b: bool| #[trigger] p.produces(t, u, b) && (b ==> c.performs(t, u))
}

/// A choice between two consumers by a predicate: defined when the
/// predicate is, and the consumer that each possible answer selects is.
pub open spec fn choice_accepts<T, U, P: BiPredicate<T, U>, C: StatefulBiConsumer<T, U>, E: StatefulBiConsumer<T, U>>(p: P, c: C, e: E, t: T, u: U) -> bool {
    &&& p.accepts(t, u)
    &&& forall|b: bool| #[trigger] p.produces(t, u, b) ==> if b {
        c.accepts(t, u)
    } else {
        e.accepts(t, u)
    }
}

/// A choice between two consumers by a predicate: some answer of the
/// predicate was given, and the consumer it selects did its part.
pub open spec fn choice_performs<T, U, P: BiPredicate<T, U>, C: StatefulBiConsumer<T, U>, E: StatefulBiConsumer<T, U>>(p: P, c: C, e: E, t: T, u: U) -> bool {
    exists|b: bool| #[trigger] p.produces(t, u, b) && if b {
        c.performs(t, u)
    } else {
        e.performs(t, u)
    }
}

/// Sequencing is associative: `ab` followed by `c` and `a` followed by `bc`
/// accept the same pair of valuess and do the same, where `ab` behaves as `a`
/// followed by `b` and `bc` as `b` followed by `c` (as the result of
/// `and_then` does).
pub proof fn law_and_then_associative<T, U, A, B, C, AB, BC>(a: A, b: B, c: C, ab: AB, bc: BC, t: T, u: U)
    where
        A: StatefulBiConsumer<T, U>,
        B: StatefulBiConsumer<T, U>,
        C: StatefulBiConsumer<T, U>,
        AB: StatefulBiConsumer<T, U>,
        BC: StatefulBiConsumer<T, U>,
    requires
        forall|x: T, y: U| #[trigger] ab.accepts(x, y) == both_accepts(a, b, x, y),
        forall|x: T, y: U| #[trigger] ab.performs(x, y) == both_performs(a, b, x, y),
        forall|x: T, y: U| #[trigger] bc.accepts(x, y) == both_accepts(b, c, x, y),
        forall|x: T, y: U| #[trigger] bc.performs(x, y) == both_performs(b, c, x, y),
    ensures
        both_accepts(ab, c, t, u) == both_accepts(a, bc, t, u),
        both_performs(ab, c, t, u) == both_performs(a, bc, t, u),
{
}

/// A consumer that accepts every pair of values and does nothing (such as
/// `noop`) is neutral for sequencing, on either side.
pub proof fn law_noop_neutral<T, U, C, N>(c: C, noop: N, t: T, u: U)
    where
        C: StatefulBiConsumer<T, U>,
        N: StatefulBiConsumer<T, U>,
    requires
        forall|x: T, y: U| #[trigger] noop.accepts(x, y),
        forall|x: T, y: U| #[trigger] noop.performs(x, y),
    ensures
        both_accepts(c, noop, t, u) == c.accepts(t, u),
        both_performs(c, noop, t, u) == c.performs(t, u),
        both_accepts(noop, c, t, u) == c.accepts(t, u),
        both_performs(noop, c, t, u) == c.performs(t, u),
{
}

/// Runs `first`, then `second`, on the same pair of values.
struct BothMut<C, D> {
    first: CountedBi<C>,
    second: CountedBi<D>,
}

impl<T, U, C: StatefulBiConsumer<T, U>, D: StatefulBiConsumer<T, U>> CallMut2<T, U, ()> for BothMut<C, D> {
    closed spec fn pre(&self, t: T, u: U) -> bool {
        both_accepts(self.first.inner(), self.second.inner(), t, u)
    }

    closed spec fn post(&self, t: T, u: U, r: ()) -> bool {
        both_performs(self.first.inner(), self.second.inner(), t, u)
    }

    closed spec fn part_calls(&self) -> (nat, nat) {
        (self.first.calls(), self.second.calls())
    }

    closed spec fn part_step(&self, t: T, u: U, before: (nat, nat), after: (nat, nat)) -> bool {
        sequence_step(before, after)
    }

    fn call_mut(&mut self, t: &T, u: &U) {
        self.first.accept(t, u);
        self.second.accept(t, u);
    }
}

/// Runs `on_true` or `on_false`, as `predicate` selects.
struct ChooseMut<P, C, E> {
    predicate: P,
    on_true: CountedBi<C>,
    on_false: CountedBi<E>,
}

impl<T, U, P: BiPredicate<T, U>, C: StatefulBiConsumer<T, U>, E: StatefulBiConsumer<T, U>> CallMut2<T, U, ()> for ChooseMut<P, C, E> {
    closed spec fn pre(&self, t: T, u: U) -> bool {
        choice_accepts(self.predicate, self.on_true.inner(), self.on_false.inner(), t, u)
    }

    closed spec fn post(&self, t: T, u: U, r: ()) -> bool {
        choice_performs(self.predicate, self.on_true.inner(), self.on_false.inner(), t, u)
    }

    closed spec fn part_calls(&self) -> (nat, nat) {
        (self.on_true.calls(), self.on_false.calls())
    }

    closed spec fn part_step(&self, t: T, u: U, before: (nat, nat), after: (nat, nat)) -> bool {
        choice_step(self.predicate.produces(t, u, true), self.predicate.produces(t, u, false), before, after)
    }

    fn call_mut(&mut self, t: &T, u: &U) {
        if self.predicate.test(t, u) {
            self.on_true.accept(t, u);
        } else {
            self.on_false.accept(t, u);
        }
    }
}

} // verus!
