//! Functions that borrow their input and may change their own state from one
//! call to the next (`FnMut(&T) -> R`), in boxed, `Rc` and `Arc` flavours,
//! with conditional variants.
//!
//! The shared flavours keep the function behind a lock, so that every clone
//! calls the same function and sees the state that the others left.
use std::rc::Rc;
use std::sync::Arc;
use vstd::prelude::*;

use crate::callable::{CallMut1, LockedCallMut1, LockedSyncCallMut1};
use crate::counted::Counted;
use crate::functions::constant::{Constant, Identity};
use crate::names::{clone_name, name_str, name_view, owned_name};
use crate::predicates::{ArcPredicate, BoxPredicate, Predicate, RcPredicate};

verus! {

/// A function from `&T` to `R` that may change its own state when applied.
///
/// `accepts(t)` is what a caller must establish before `apply(&t)`, and
/// `produces(t, r)` says that `r` is a possible result for `t`. Both describe
/// every call, whatever state the earlier calls left: applying the function
/// does not change them.
pub trait StatefulFunction<T, R> {
    spec fn accepts(&self, t: T) -> bool;

    spec fn produces(&self, t: T, r: R) -> bool;

    fn apply(&mut self, t: &T) -> (r: R)
        requires
            old(self).accepts(*t),
        ensures
            old(self).produces(*t, r),
            forall|x: T| #[trigger] final(self).accepts(x) == old(self).accepts(x),
            forall|x: T, y: R| #[trigger] final(self).produces(x, y) == old(self).produces(x, y),
    ;

    /// Moves this function into a [`BoxStatefulFunction`] that calls it.
    fn into_box(self) -> (res: BoxStatefulFunction<T, R>)
        where
            Self: Sized + 'static,
            T: 'static,
            R: 'static,
        ensures
            forall|t: T| self.accepts(t) ==> #[trigger] res.accepts(t),
            forall|t: T, r: R| #[trigger] res.produces(t, r) ==> self.produces(t, r),
    ;

    /// Moves this function into an [`RcStatefulFunction`] that calls it.
    fn into_rc(self) -> (res: RcStatefulFunction<T, R>)
        where
            Self: Sized + 'static,
            T: 'static,
            R: 'static,
        ensures
            forall|t: T| self.accepts(t) ==> #[trigger] res.accepts(t),
            forall|t: T, r: R| #[trigger] res.produces(t, r) ==> self.produces(t, r),
    ;

    /// Moves this function into an [`ArcStatefulFunction`] that calls it.
    fn into_arc(self) -> (res: ArcStatefulFunction<T, R>)
        where
            Self: Sized + Send + Sync + 'static,
            T: 'static,
            R: 'static,
        ensures
            forall|t: T| self.accepts(t) ==> #[trigger] res.accepts(t),
            forall|t: T, r: R| #[trigger] res.produces(t, r) ==> self.produces(t, r),
    ;

    /// A [`BoxStatefulFunction`] that calls a clone of this function.
    fn to_box(&self) -> (res: BoxStatefulFunction<T, R>)
        where
            Self: Clone + 'static,
            T: 'static,
            R: 'static,
        ensures
            exists|c: Self|
                cloned::<Self>(*self, c) && (forall|t: T| c.accepts(t) ==> #[trigger] res.accepts(t))
                    && (forall|t: T, r: R| #[trigger] res.produces(t, r) ==> c.produces(t, r)),
    ;

    /// An [`RcStatefulFunction`] that calls a clone of this function.
    fn to_rc(&self) -> (res: RcStatefulFunction<T, R>)
        where
            Self: Clone + 'static,
            T: 'static,
            R: 'static,
        ensures
            exists|c: Self|
                cloned::<Self>(*self, c) && (forall|t: T| c.accepts(t) ==> #[trigger] res.accepts(t))
                    && (forall|t: T, r: R| #[trigger] res.produces(t, r) ==> c.produces(t, r)),
    ;

    /// An [`ArcStatefulFunction`] that calls a clone of this function.
    fn to_arc(&self) -> (res: ArcStatefulFunction<T, R>)
        where
            Self: Clone + Send + Sync + 'static,
            T: 'static,
            R: 'static,
        ensures
            exists|c: Self|
                cloned::<Self>(*self, c) && (forall|t: T| c.accepts(t) ==> #[trigger] res.accepts(t))
                    && (forall|t: T, r: R| #[trigger] res.produces(t, r) ==> c.produces(t, r)),
    ;
}

impl<T, R, F: FnMut(&T) -> R> StatefulFunction<T, R> for F {
    open spec fn accepts(&self, t: T) -> bool {
        call_requires(*self, (&t,))
    }

    open spec fn produces(&self, t: T, r: R) -> bool {
        call_ensures(*self, (&t,), r)
    }

    fn apply(&mut self, t: &T) -> (r: R) {
        (self)(t)
    }

    fn into_box(self) -> (res: BoxStatefulFunction<T, R>)
        where
            Self: Sized + 'static,
            T: 'static,
            R: 'static,
        ensures
            forall|t: T| #[trigger] res.accepts(t) == self.accepts(t),
            forall|t: T, r: R| #[trigger] res.produces(t, r) == self.produces(t, r),
            res.spec_name() is None,
    {
        BoxStatefulFunction::from_call_mut(self, None)
    }

    fn into_rc(self) -> (res: RcStatefulFunction<T, R>)
        where
            Self: Sized + 'static,
            T: 'static,
            R: 'static,
        ensures
            forall|t: T| #[trigger] res.accepts(t) == self.accepts(t),
            forall|t: T, r: R| #[trigger] res.produces(t, r) == self.produces(t, r),
            res.spec_name() is None,
    {
        RcStatefulFunction::from_call_mut(self, None)
    }

    fn into_arc(self) -> (res: ArcStatefulFunction<T, R>)
        where
            Self: Sized + Send + Sync + 'static,
            T: 'static,
            R: 'static,
        ensures
            forall|t: T| #[trigger] res.accepts(t) == self.accepts(t),
            forall|t: T, r: R| #[trigger] res.produces(t, r) == self.produces(t, r),
            res.spec_name() is None,
    {
        ArcStatefulFunction::from_call_mut(self, None)
    }

    fn to_box(&self) -> (res: BoxStatefulFunction<T, R>)
        where
            Self: Clone + 'static,
            T: 'static,
            R: 'static,
    {
        let c = self.clone();
        let res = BoxStatefulFunction::from_call_mut(c, None);
        assert(cloned::<Self>(*self, c));
        res
    }

    fn to_rc(&self) -> (res: RcStatefulFunction<T, R>)
        where
            Self: Clone + 'static,
            T: 'static,
            R: 'static,
    {
        let c = self.clone();
        let res = RcStatefulFunction::from_call_mut(c, None);
        assert(cloned::<Self>(*self, c));
        res
    }

    fn to_arc(&self) -> (res: ArcStatefulFunction<T, R>)
        where
            Self: Clone + Send + Sync + 'static,
            T: 'static,
            R: 'static,
    {
        let c = self.clone();
        let res = ArcStatefulFunction::from_call_mut(c, None);
        assert(cloned::<Self>(*self, c));
        res
    }
}

/// A stateful function in a box: single ownership.
#[verifier::reject_recursive_types(T)]
#[verifier::reject_recursive_types(R)]
pub struct BoxStatefulFunction<T, R> {
    function: Box<dyn CallMut1<T, R>>,
    name: Option<String>,
}

impl<T, R> BoxStatefulFunction<T, R> {
    pub closed spec fn accepts(&self, t: T) -> bool {
        self.function.pre(t)
    }

    pub closed spec fn produces(&self, t: T, r: R) -> bool {
        self.function.post(t, r)
    }

    pub closed spec fn spec_name(&self) -> Option<Seq<char>> {
        name_view(self.name)
    }

    /// How many times this function has applied each of its two parts, when
    /// it was built from two (by `and_then`, `compose` or `or_else`);
    /// `(0, 0)` for a function built from a single closure.
    pub closed spec fn part_calls(&self) -> (nat, nat) {
        self.function.part_calls()
    }

    /// What one call on `t` may do to [`BoxStatefulFunction::part_calls`]:
    /// take it from `before` to `after`.
    pub closed spec fn part_step(&self, t: T, before: (nat, nat), after: (nat, nat)) -> bool {
        self.function.part_step(t, before, after)
    }

    pub(crate) fn from_call_mut<C: CallMut1<T, R> + 'static>(c: C, name: Option<String>) -> (res: Self)
        ensures
            forall|t: T| #[trigger] res.accepts(t) == c.pre(t),
            forall|t: T, r: R| #[trigger] res.produces(t, r) == c.post(t, r),
            res.part_calls() == c.part_calls(),
            forall|t: T, b: (nat, nat), a: (nat, nat)| #[trigger] res.part_step(t, b, a) == c.part_step(t, b, a),
            res.spec_name() == name_view(name),
    {
        let function: Box<dyn CallMut1<T, R>> = Box::new(c);
        assert(forall|t: T| #[trigger] function.pre(t) == c.pre(t));
        assert(forall|t: T, r: R| #[trigger] function.post(t, r) == c.post(t, r));
        assert(function.part_calls() == c.part_calls());
        assert(forall|t: T, b: (nat, nat), a: (nat, nat)| #[trigger] function.part_step(t, b, a) == c.part_step(t, b, a));
        BoxStatefulFunction { function, name }
    }

    /// Wraps the closure `f`.
    pub fn new<F>(f: F) -> (res: Self)
        where
            F: FnMut(&T) -> R + 'static,
        ensures
            forall|t: T| #[trigger] res.accepts(t) == call_requires(f, (&t,)),
            forall|t: T, r: R| #[trigger] res.produces(t, r) == call_ensures(f, (&t,), r),
            res.part_calls() == (0nat, 0nat),
            forall|t: T, b: (nat, nat), a: (nat, nat)| #[trigger] res.part_step(t, b, a) == (a == b),
            res.spec_name() is None,
    {
        Self::from_call_mut(f, None)
    }

    /// Wraps the closure `f` under the name `name`.
    pub fn new_with_name<F>(name: &str, f: F) -> (res: Self)
        where
            F: FnMut(&T) -> R + 'static,
        ensures
            forall|t: T| #[trigger] res.accepts(t) == call_requires(f, (&t,)),
            forall|t: T, r: R| #[trigger] res.produces(t, r) == call_ensures(f, (&t,), r),
            res.part_calls() == (0nat, 0nat),
            forall|t: T, b: (nat, nat), a: (nat, nat)| #[trigger] res.part_step(t, b, a) == (a == b),
            res.spec_name() == Some(name@),
    {
        Self::from_call_mut(f, owned_name(name))
    }

    /// Wraps the closure `f` under the name `name`, if there is one.
    pub fn new_with_optional_name<F>(f: F, name: Option<String>) -> (res: Self)
        where
            F: FnMut(&T) -> R + 'static,
        ensures
            forall|t: T| #[trigger] res.accepts(t) == call_requires(f, (&t,)),
            forall|t: T, r: R| #[trigger] res.produces(t, r) == call_ensures(f, (&t,), r),
            res.part_calls() == (0nat, 0nat),
            forall|t: T, b: (nat, nat), a: (nat, nat)| #[trigger] res.part_step(t, b, a) == (a == b),
            res.spec_name() == name_view(name),
    {
        Self::from_call_mut(f, name)
    }

    /// The name of this function, if it has one.
    pub fn name(&self) -> (res: Option<&str>)
        ensures
            match res {
                Some(s) => self.spec_name() == Some(s@),
                None => self.spec_name() is None,
            },
    {
        name_str(&self.name)
    }

    /// Gives this function the name `name`; its behaviour stays the same.
    pub fn set_name(&mut self, name: &str)
        ensures
            final(self).spec_name() == Some(name@),
            forall|t: T| #[trigger] final(self).accepts(t) == old(self).accepts(t),
            final(self).part_calls() == old(self).part_calls(),
            forall|t: T, b: (nat, nat), a: (nat, nat)| #[trigger]
                final(self).part_step(t, b, a) == old(self).part_step(t, b, a),
            forall|t: T, r: R| #[trigger] final(self).produces(t, r) == old(self).produces(t, r),
    {
        self.name = owned_name(name);
    }

    /// Restricts this function to the inputs on which `predicate` holds;
    /// [`BoxConditionalStatefulFunction::or_else`] then supplies the other
    /// branch.
    pub fn when<P>(self, predicate: P) -> (res: BoxConditionalStatefulFunction<T, R>)
        where
            P: Predicate<T> + 'static,
            T: 'static,
        ensures
            res.function() == self,
            forall|t: T| predicate.accepts(t) ==> #[trigger] res.predicate().accepts(t),
            forall|t: T, b: bool| #[trigger] res.predicate().produces(t, b) ==> predicate.produces(t, b),
    {
        BoxConditionalStatefulFunction { function: self, predicate: predicate.into_box() }
    }

    /// This function followed by `after` on its result.
    pub fn and_then<S, F>(self, after: F) -> (res: BoxStatefulFunction<T, S>)
        where
            T: 'static,
            R: 'static,
            S: 'static,
            F: StatefulFunction<R, S> + 'static,
        ensures
            forall|t: T| #[trigger] res.accepts(t) == then_accepts(self, after, t),
            forall|t: T, s: S| #[trigger] res.produces(t, s) == then_produces(self, after, t, s),
            res.part_calls() == (0nat, 0nat),
            forall|t: T, b: (nat, nat), a: (nat, nat)| #[trigger] res.part_step(t, b, a) == sequence_step(b, a),
            res.spec_name() is None,
    {
        BoxStatefulFunction::from_call_mut(ThenMut { first: Counted::new(self), after: Counted::new(after) }, None)
    }

    /// This function as a plain closure.
    pub fn into_fn(self) -> (res: impl FnMut(&T) -> R)
        where
            T: 'static,
            R: 'static,
        ensures
            forall|t: T| self.accepts(t) ==> call_requires(res, (&t,)),
            forall|t: T, r: R| call_ensures(res, (&t,), r) ==> self.produces(t, r),
    {
        let function = LockedCallMut1::new(self);
        move |t: &T| -> (r: R)
            requires
                function.pre(*t),
            ensures
                function.post(*t, r),
        {
            function.call(t)
        }
    }
}

impl<T: 'static, R: Clone + 'static> BoxStatefulFunction<T, R> {
    /// A function that returns a clone of `value` for every input.
    pub fn constant(value: R) -> (res: BoxStatefulFunction<T, R>)
        ensures
            forall|t: T| #[trigger] res.accepts(t),
            forall|t: T, r: R| #[trigger] res.produces(t, r) == cloned::<R>(value, r),
            res.spec_name() is None,
    {
        BoxStatefulFunction::from_call_mut(Constant { value }, None)
    }
}

impl<T: Clone + 'static> BoxStatefulFunction<T, T> {
    /// A function that returns a clone of its input.
    pub fn identity() -> (res: BoxStatefulFunction<T, T>)
        ensures
            forall|t: T| #[trigger] res.accepts(t),
            forall|t: T, r: T| #[trigger] res.produces(t, r) == cloned::<T>(t, r),
            res.spec_name() is None,
    {
        BoxStatefulFunction::from_call_mut(Identity, None)
    }
}

impl<T, R> CallMut1<T, R> for BoxStatefulFunction<T, R> {
    closed spec fn pre(&self, t: T) -> bool {
        self.accepts(t)
    }

    closed spec fn post(&self, t: T, r: R) -> bool {
        self.produces(t, r)
    }

    closed spec fn part_calls(&self) -> (nat, nat) {
        BoxStatefulFunction::part_calls(self)
    }

    closed spec fn part_step(&self, t: T, before: (nat, nat), after: (nat, nat)) -> bool {
        BoxStatefulFunction::part_step(self, t, before, after)
    }

    fn call_mut(&mut self, t: &T) -> (r: R) {
        self.function.call_mut(t)
    }
}

impl<T, R> StatefulFunction<T, R> for BoxStatefulFunction<T, R> {
    open spec fn accepts(&self, t: T) -> bool {
        BoxStatefulFunction::accepts(self, t)
    }

    open spec fn produces(&self, t: T, r: R) -> bool {
        BoxStatefulFunction::produces(self, t, r)
    }

    fn apply(&mut self, t: &T) -> (r: R)
        ensures
            old(self).part_step(*t, old(self).part_calls(), final(self).part_calls()),
            forall|x: T, b: (nat, nat), a: (nat, nat)| #[trigger]
                final(self).part_step(x, b, a) == old(self).part_step(x, b, a),
    {
        self.function.call_mut(t)
    }

    fn into_box(self) -> (res: BoxStatefulFunction<T, R>)
        where
            Self: Sized + 'static,
            T: 'static,
            R: 'static,
        ensures
            res == self,
    {
        self
    }

    fn into_rc(self) -> (res: RcStatefulFunction<T, R>)
        where
            Self: Sized + 'static,
            T: 'static,
            R: 'static,
        ensures
            forall|t: T| #[trigger] res.accepts(t) == self.accepts(t),
            forall|t: T, r: R| #[trigger] res.produces(t, r) == self.produces(t, r),
            res.spec_name() == self.spec_name(),
    {
        let name = clone_name(&self.name);
        RcStatefulFunction::from_call_mut(self, name)
    }

    fn into_arc(self) -> (res: ArcStatefulFunction<T, R>)
        where
            Self: Sized + Send + Sync + 'static,
            T: 'static,
            R: 'static,
        ensures
            forall|t: T| #[trigger] res.accepts(t) == self.accepts(t),
            forall|t: T, r: R| #[trigger] res.produces(t, r) == self.produces(t, r),
            res.spec_name() == self.spec_name(),
    {
        let name = clone_name(&self.name);
        ArcStatefulFunction::from_call_mut(self, name)
    }

    fn to_box(&self) -> (res: BoxStatefulFunction<T, R>)
        where
            Self: Clone + 'static,
            T: 'static,
            R: 'static,
    {
        let c = self.clone();
        assert(cloned::<Self>(*self, c));
        c
    }

    fn to_rc(&self) -> (res: RcStatefulFunction<T, R>)
        where
            Self: Clone + 'static,
            T: 'static,
            R: 'static,
    {
        let c = self.clone();
        let res = RcStatefulFunction::from_call_mut(c, None);
        assert(cloned::<Self>(*self, c));
        res
    }

    fn to_arc(&self) -> (res: ArcStatefulFunction<T, R>)
        where
            Self: Clone + Send + Sync + 'static,
            T: 'static,
            R: 'static,
    {
        let c = self.clone();
        let res = ArcStatefulFunction::from_call_mut(c, None);
        assert(cloned::<Self>(*self, c));
        res
    }
}

/// A stateful function behind an `Rc` and a lock: shared within one thread;
/// every clone calls the same function and sees the state that the others
/// left.
#[verifier::reject_recursive_types(T)]
#[verifier::reject_recursive_types(R)]
pub struct RcStatefulFunction<T, R> {
    function: Rc<LockedCallMut1<T, R>>,
    name: Option<String>,
}

impl<T, R> RcStatefulFunction<T, R> {
    pub closed spec fn accepts(&self, t: T) -> bool {
        self.function.pre(t)
    }

    pub closed spec fn produces(&self, t: T, r: R) -> bool {
        self.function.post(t, r)
    }

    pub closed spec fn spec_name(&self) -> Option<Seq<char>> {
        name_view(self.name)
    }

    pub(crate) fn from_call_mut<C: CallMut1<T, R> + 'static>(c: C, name: Option<String>) -> (res: Self)
        ensures
            forall|t: T| #[trigger] res.accepts(t) == c.pre(t),
            forall|t: T, r: R| #[trigger] res.produces(t, r) == c.post(t, r),
            res.spec_name() == name_view(name),
    {
        RcStatefulFunction { function: Rc::new(LockedCallMut1::new(c)), name }
    }

    /// Wraps the closure `f`.
    pub fn new<F>(f: F) -> (res: Self)
        where
            F: FnMut(&T) -> R + 'static,
        ensures
            forall|t: T| #[trigger] res.accepts(t) == call_requires(f, (&t,)),
            forall|t: T, r: R| #[trigger] res.produces(t, r) == call_ensures(f, (&t,), r),
            res.spec_name() is None,
    {
        Self::from_call_mut(f, None)
    }

    /// Wraps the closure `f` under the name `name`.
    pub fn new_with_name<F>(name: &str, f: F) -> (res: Self)
        where
            F: FnMut(&T) -> R + 'static,
        ensures
            forall|t: T| #[trigger] res.accepts(t) == call_requires(f, (&t,)),
            forall|t: T, r: R| #[trigger] res.produces(t, r) == call_ensures(f, (&t,), r),
            res.spec_name() == Some(name@),
    {
        Self::from_call_mut(f, owned_name(name))
    }

    /// Wraps the closure `f` under the name `name`, if there is one.
    pub fn new_with_optional_name<F>(f: F, name: Option<String>) -> (res: Self)
        where
            F: FnMut(&T) -> R + 'static,
        ensures
            forall|t: T| #[trigger] res.accepts(t) == call_requires(f, (&t,)),
            forall|t: T, r: R| #[trigger] res.produces(t, r) == call_ensures(f, (&t,), r),
            res.spec_name() == name_view(name),
    {
        Self::from_call_mut(f, name)
    }

    /// The name of this function, if it has one.
    pub fn name(&self) -> (res: Option<&str>)
        ensures
            match res {
                Some(s) => self.spec_name() == Some(s@),
                None => self.spec_name() is None,
            },
    {
        name_str(&self.name)
    }

    /// Gives this function the name `name`; its behaviour stays the same.
    pub fn set_name(&mut self, name: &str)
        ensures
            final(self).spec_name() == Some(name@),
            forall|t: T| #[trigger] final(self).accepts(t) == old(self).accepts(t),
            forall|t: T, r: R| #[trigger] final(self).produces(t, r) == old(self).produces(t, r),
    {
        self.name = owned_name(name);
    }

    /// Restricts a clone of this function to the inputs on which `predicate`
    /// holds; [`RcConditionalStatefulFunction::or_else`] then supplies the other branch.
    pub fn when<P>(&self, predicate: P) -> (res: RcConditionalStatefulFunction<T, R>)
        where
            P: Predicate<T> + 'static,
            T: 'static,
        ensures
            res.function() == *self,
            forall|t: T| predicate.accepts(t) ==> #[trigger] res.predicate().accepts(t),
            forall|t: T, b: bool| #[trigger] res.predicate().produces(t, b) ==> predicate.produces(t, b),
    {
        RcConditionalStatefulFunction { function: self.duplicate(), predicate: predicate.into_rc() }
    }

    /// A clone of this function followed by `after` on its result.
    pub fn and_then<S, F>(&self, after: F) -> (res: RcStatefulFunction<T, S>)
        where
            T: 'static,
            R: 'static,
            S: 'static,
            F: StatefulFunction<R, S> + 'static,
        ensures
            forall|t: T| #[trigger] res.accepts(t) == then_accepts(*self, after, t),
            forall|t: T, s: S| #[trigger] res.produces(t, s) == then_produces(*self, after, t, s),
            res.spec_name() is None,
    {
        RcStatefulFunction::from_call_mut(ThenMut { first: Counted::new(self.duplicate()), after: Counted::new(after) }, None)
    }

    /// This function as a plain closure.
    pub fn into_fn(self) -> (res: impl FnMut(&T) -> R)
        ensures
            forall|t: T| self.accepts(t) ==> call_requires(res, (&t,)),
            forall|t: T, r: R| call_ensures(res, (&t,), r) ==> self.produces(t, r),
    {
        move |t: &T| -> (r: R)
            requires
                self.accepts(*t),
            ensures
                self.produces(*t, r),
        {
            self.function.call(t)
        }
    }

    /// A clone of this function as a plain closure.
    pub fn to_fn(&self) -> (res: impl FnMut(&T) -> R)
        ensures
            forall|t: T| self.accepts(t) ==> call_requires(res, (&t,)),
            forall|t: T, r: R| call_ensures(res, (&t,), r) ==> self.produces(t, r),
    {
        self.duplicate().into_fn()
    }

    fn duplicate(&self) -> (res: Self)
        ensures
            res == *self,
    {
        RcStatefulFunction { function: self.function.clone(), name: clone_name(&self.name) }
    }
}

impl<T: 'static, R: Clone + 'static> RcStatefulFunction<T, R> {
    /// A function that returns a clone of `value` for every input.
    pub fn constant(value: R) -> (res: RcStatefulFunction<T, R>)
        ensures
            forall|t: T| #[trigger] res.accepts(t),
            forall|t: T, r: R| #[trigger] res.produces(t, r) == cloned::<R>(value, r),
            res.spec_name() is None,
    {
        RcStatefulFunction::from_call_mut(Constant { value }, None)
    }
}

impl<T: Clone + 'static> RcStatefulFunction<T, T> {
    /// A function that returns a clone of its input.
    pub fn identity() -> (res: RcStatefulFunction<T, T>)
        ensures
            forall|t: T| #[trigger] res.accepts(t),
            forall|t: T, r: T| #[trigger] res.produces(t, r) == cloned::<T>(t, r),
            res.spec_name() is None,
    {
        RcStatefulFunction::from_call_mut(Identity, None)
    }
}

impl<T, R> Clone for RcStatefulFunction<T, R> {
    fn clone(&self) -> (res: Self)
        ensures
            res == *self,
    {
        self.duplicate()
    }
}

impl<T, R> CallMut1<T, R> for RcStatefulFunction<T, R> {
    closed spec fn pre(&self, t: T) -> bool {
        self.accepts(t)
    }

    closed spec fn post(&self, t: T, r: R) -> bool {
        self.produces(t, r)
    }

    fn call_mut(&mut self, t: &T) -> (r: R) {
        self.function.call(t)
    }
}

impl<T, R> StatefulFunction<T, R> for RcStatefulFunction<T, R> {
    open spec fn accepts(&self, t: T) -> bool {
        RcStatefulFunction::accepts(self, t)
    }

    open spec fn produces(&self, t: T, r: R) -> bool {
        RcStatefulFunction::produces(self, t, r)
    }

    fn apply(&mut self, t: &T) -> (r: R)
        ensures
            *final(self) == *old(self),
    {
        self.function.call(t)
    }

    fn into_box(self) -> (res: BoxStatefulFunction<T, R>)
        where
            Self: Sized + 'static,
            T: 'static,
            R: 'static,
        ensures
            forall|t: T| #[trigger] res.accepts(t) == self.accepts(t),
            forall|t: T, r: R| #[trigger] res.produces(t, r) == self.produces(t, r),
            res.spec_name() == self.spec_name(),
    {
        let name = clone_name(&self.name);
        BoxStatefulFunction::from_call_mut(self, name)
    }

    fn into_rc(self) -> (res: RcStatefulFunction<T, R>)
        where
            Self: Sized + 'static,
            T: 'static,
            R: 'static,
        ensures
            res == self,
    {
        self
    }

    fn into_arc(self) -> (res: ArcStatefulFunction<T, R>)
        where
            Self: Sized + Send + Sync + 'static,
            T: 'static,
            R: 'static,
        ensures
            forall|t: T| #[trigger] res.accepts(t) == self.accepts(t),
            forall|t: T, r: R| #[trigger] res.produces(t, r) == self.produces(t, r),
            res.spec_name() == self.spec_name(),
    {
        let name = clone_name(&self.name);
        ArcStatefulFunction::from_call_mut(self, name)
    }

    fn to_box(&self) -> (res: BoxStatefulFunction<T, R>)
        where
            Self: Clone + 'static,
            T: 'static,
            R: 'static,
        ensures
            forall|t: T| #[trigger] res.accepts(t) == self.accepts(t),
            forall|t: T, r: R| #[trigger] res.produces(t, r) == self.produces(t, r),
            res.spec_name() == self.spec_name(),
    {
        let res = BoxStatefulFunction::from_call_mut(self.duplicate(), clone_name(&self.name));
        assert(cloned::<Self>(*self, *self));
        res
    }

    fn to_rc(&self) -> (res: RcStatefulFunction<T, R>)
        where
            Self: Clone + 'static,
            T: 'static,
            R: 'static,
        ensures
            res == *self,
    {
        let res = self.duplicate();
        assert(cloned::<Self>(*self, *self));
        res
    }

    fn to_arc(&self) -> (res: ArcStatefulFunction<T, R>)
        where
            Self: Clone + Send + Sync + 'static,
            T: 'static,
            R: 'static,
        ensures
            forall|t: T| #[trigger] res.accepts(t) == self.accepts(t),
            forall|t: T, r: R| #[trigger] res.produces(t, r) == self.produces(t, r),
            res.spec_name() == self.spec_name(),
    {
        let res = ArcStatefulFunction::from_call_mut(self.duplicate(), clone_name(&self.name));
        assert(cloned::<Self>(*self, *self));
        res
    }
}

/// A stateful function behind an `Arc` and a lock: shared between threads;
/// every clone calls the same function and sees the state that the others
/// left.
#[verifier::reject_recursive_types(T)]
#[verifier::reject_recursive_types(R)]
pub struct ArcStatefulFunction<T, R> {
    function: Arc<LockedSyncCallMut1<T, R>>,
    name: Option<String>,
}

impl<T, R> ArcStatefulFunction<T, R> {
    pub closed spec fn accepts(&self, t: T) -> bool {
        self.function.pre(t)
    }

    pub closed spec fn produces(&self, t: T, r: R) -> bool {
        self.function.post(t, r)
    }

    pub closed spec fn spec_name(&self) -> Option<Seq<char>> {
        name_view(self.name)
    }

    pub(crate) fn from_call_mut<C: CallMut1<T, R> + Send + Sync + 'static>(c: C, name: Option<String>) -> (res: Self)
        ensures
            forall|t: T| #[trigger] res.accepts(t) == c.pre(t),
            forall|t: T, r: R| #[trigger] res.produces(t, r) == c.post(t, r),
            res.spec_name() == name_view(name),
    {
        ArcStatefulFunction { function: Arc::new(LockedSyncCallMut1::new(c)), name }
    }

    /// Wraps the closure `f`.
    pub fn new<F>(f: F) -> (res: Self)
        where
            F: FnMut(&T) -> R + Send + Sync + 'static,
        ensures
            forall|t: T| #[trigger] res.accepts(t) == call_requires(f, (&t,)),
            forall|t: T, r: R| #[trigger] res.produces(t, r) == call_ensures(f, (&t,), r),
            res.spec_name() is None,
    {
        Self::from_call_mut(f, None)
    }

    /// Wraps the closure `f` under the name `name`.
    pub fn new_with_name<F>(name: &str, f: F) -> (res: Self)
        where
            F: FnMut(&T) -> R + Send + Sync + 'static,
        ensures
            forall|t: T| #[trigger] res.accepts(t) == call_requires(f, (&t,)),
            forall|t: T, r: R| #[trigger] res.produces(t, r) == call_ensures(f, (&t,), r),
            res.spec_name() == Some(name@),
    {
        Self::from_call_mut(f, owned_name(name))
    }

    /// Wraps the closure `f` under the name `name`, if there is one.
    pub fn new_with_optional_name<F>(f: F, name: Option<String>) -> (res: Self)
        where
            F: FnMut(&T) -> R + Send + Sync + 'static,
        ensures
            forall|t: T| #[trigger] res.accepts(t) == call_requires(f, (&t,)),
            forall|t: T, r: R| #[trigger] res.produces(t, r) == call_ensures(f, (&t,), r),
            res.spec_name() == name_view(name),
    {
        Self::from_call_mut(f, name)
    }

    /// The name of this function, if it has one.
    pub fn name(&self) -> (res: Option<&str>)
        ensures
            match res {
                Some(s) => self.spec_name() == Some(s@),
                None => self.spec_name() is None,
            },
    {
        name_str(&self.name)
    }

    /// Gives this function the name `name`; its behaviour stays the same.
    pub fn set_name(&mut self, name: &str)
        ensures
            final(self).spec_name() == Some(name@),
            forall|t: T| #[trigger] final(self).accepts(t) == old(self).accepts(t),
            forall|t: T, r: R| #[trigger] final(self).produces(t, r) == old(self).produces(t, r),
    {
        self.name = owned_name(name);
    }

    /// Restricts a clone of this function to the inputs on which `predicate`
    /// holds; [`ArcConditionalStatefulFunction::or_else`] then supplies the other branch.
    pub fn when<P>(&self, predicate: P) -> (res: ArcConditionalStatefulFunction<T, R>)
        where
            P: Predicate<T> + Send + Sync + 'static,
            T: 'static,
        ensures
            res.function() == *self,
            forall|t: T| predicate.accepts(t) ==> #[trigger] res.predicate().accepts(t),
            forall|t: T, b: bool| #[trigger] res.predicate().produces(t, b) ==> predicate.produces(t, b),
    {
        ArcConditionalStatefulFunction { function: self.duplicate(), predicate: predicate.into_arc() }
    }

    /// A clone of this function followed by `after` on its result.
    pub fn and_then<S, F>(&self, after: F) -> (res: ArcStatefulFunction<T, S>)
        where
            T: 'static,
            R: 'static,
            S: 'static,
            F: StatefulFunction<R, S> + Send + Sync + 'static,
        ensures
            forall|t: T| #[trigger] res.accepts(t) == then_accepts(*self, after, t),
            forall|t: T, s: S| #[trigger] res.produces(t, s) == then_produces(*self, after, t, s),
            res.spec_name() is None,
    {
        ArcStatefulFunction::from_call_mut(ThenMut { first: Counted::new(self.duplicate()), after: Counted::new(after) }, None)
    }

    /// This function as a plain closure.
    pub fn into_fn(self) -> (res: impl FnMut(&T) -> R)
        ensures
            forall|t: T| self.accepts(t) ==> call_requires(res, (&t,)),
            forall|t: T, r: R| call_ensures(res, (&t,), r) ==> self.produces(t, r),
    {
        move |t: &T| -> (r: R)
            requires
                self.accepts(*t),
            ensures
                self.produces(*t, r),
        {
            self.function.call(t)
        }
    }

    /// A clone of this function as a plain closure.
    pub fn to_fn(&self) -> (res: impl FnMut(&T) -> R)
        ensures
            forall|t: T| self.accepts(t) ==> call_requires(res, (&t,)),
            forall|t: T, r: R| call_ensures(res, (&t,), r) ==> self.produces(t, r),
    {
        self.duplicate().into_fn()
    }

    fn duplicate(&self) -> (res: Self)
        ensures
            res == *self,
    {
        ArcStatefulFunction { function: self.function.clone(), name: clone_name(&self.name) }
    }
}

impl<T: 'static, R: Clone + Send + Sync + 'static> ArcStatefulFunction<T, R> {
    /// A function that returns a clone of `value` for every input.
    pub fn constant(value: R) -> (res: ArcStatefulFunction<T, R>)
        ensures
            forall|t: T| #[trigger] res.accepts(t),
            forall|t: T, r: R| #[trigger] res.produces(t, r) == cloned::<R>(value, r),
            res.spec_name() is None,
    {
        ArcStatefulFunction::from_call_mut(Constant { value }, None)
    }
}

impl<T: Clone + 'static> ArcStatefulFunction<T, T> {
    /// A function that returns a clone of its input.
    pub fn identity() -> (res: ArcStatefulFunction<T, T>)
        ensures
            forall|t: T| #[trigger] res.accepts(t),
            forall|t: T, r: T| #[trigger] res.produces(t, r) == cloned::<T>(t, r),
            res.spec_name() is None,
    {
        ArcStatefulFunction::from_call_mut(Identity, None)
    }
}

impl<T, R> Clone for ArcStatefulFunction<T, R> {
    fn clone(&self) -> (res: Self)
        ensures
            res == *self,
    {
        self.duplicate()
    }
}

impl<T, R> CallMut1<T, R> for ArcStatefulFunction<T, R> {
    closed spec fn pre(&self, t: T) -> bool {
        self.accepts(t)
    }

    closed spec fn post(&self, t: T, r: R) -> bool {
        self.produces(t, r)
    }

    fn call_mut(&mut self, t: &T) -> (r: R) {
        self.function.call(t)
    }
}

impl<T, R> StatefulFunction<T, R> for ArcStatefulFunction<T, R> {
    open spec fn accepts(&self, t: T) -> bool {
        ArcStatefulFunction::accepts(self, t)
    }

    open spec fn produces(&self, t: T, r: R) -> bool {
        ArcStatefulFunction::produces(self, t, r)
    }

    fn apply(&mut self, t: &T) -> (r: R)
        ensures
            *final(self) == *old(self),
    {
        self.function.call(t)
    }

    fn into_box(self) -> (res: BoxStatefulFunction<T, R>)
        where
            Self: Sized + 'static,
            T: 'static,
            R: 'static,
        ensures
            forall|t: T| #[trigger] res.accepts(t) == self.accepts(t),
            forall|t: T, r: R| #[trigger] res.produces(t, r) == self.produces(t, r),
            res.spec_name() == self.spec_name(),
    {
        let name = clone_name(&self.name);
        BoxStatefulFunction::from_call_mut(self, name)
    }

    fn into_rc(self) -> (res: RcStatefulFunction<T, R>)
        where
            Self: Sized + 'static,
            T: 'static,
            R: 'static,
        ensures
            forall|t: T| #[trigger] res.accepts(t) == self.accepts(t),
            forall|t: T, r: R| #[trigger] res.produces(t, r) == self.produces(t, r),
            res.spec_name() == self.spec_name(),
    {
        let name = clone_name(&self.name);
        RcStatefulFunction::from_call_mut(self, name)
    }

    fn into_arc(self) -> (res: ArcStatefulFunction<T, R>)
        where
            Self: Sized + Send + Sync + 'static,
            T: 'static,
            R: 'static,
        ensures
            res == self,
    {
        self
    }

    fn to_box(&self) -> (res: BoxStatefulFunction<T, R>)
        where
            Self: Clone + 'static,
            T: 'static,
            R: 'static,
        ensures
            forall|t: T| #[trigger] res.accepts(t) == self.accepts(t),
            forall|t: T, r: R| #[trigger] res.produces(t, r) == self.produces(t, r),
            res.spec_name() == self.spec_name(),
    {
        let res = BoxStatefulFunction::from_call_mut(self.duplicate(), clone_name(&self.name));
        assert(cloned::<Self>(*self, *self));
        res
    }

    fn to_rc(&self) -> (res: RcStatefulFunction<T, R>)
        where
            Self: Clone + 'static,
            T: 'static,
            R: 'static,
        ensures
            forall|t: T| #[trigger] res.accepts(t) == self.accepts(t),
            forall|t: T, r: R| #[trigger] res.produces(t, r) == self.produces(t, r),
            res.spec_name() == self.spec_name(),
    {
        let res = RcStatefulFunction::from_call_mut(self.duplicate(), clone_name(&self.name));
        assert(cloned::<Self>(*self, *self));
        res
    }

    fn to_arc(&self) -> (res: ArcStatefulFunction<T, R>)
        where
            Self: Clone + Send + Sync + 'static,
            T: 'static,
            R: 'static,
        ensures
            res == *self,
    {
        let res = self.duplicate();
        assert(cloned::<Self>(*self, *self));
        res
    }
}

/// A [`BoxStatefulFunction`] restricted by a predicate, waiting for the
/// branch that [`BoxConditionalStatefulFunction::or_else`] supplies.
#[verifier::reject_recursive_types(T)]
#[verifier::reject_recursive_types(R)]
pub struct BoxConditionalStatefulFunction<T, R> {
    function: BoxStatefulFunction<T, R>,
    predicate: BoxPredicate<T>,
}

impl<T: 'static, R: 'static> BoxConditionalStatefulFunction<T, R> {
    pub closed spec fn function(&self) -> BoxStatefulFunction<T, R> {
        self.function
    }

    pub closed spec fn predicate(&self) -> BoxPredicate<T> {
        self.predicate
    }

    /// The function that applies the guarded function where the predicate
    /// holds and `else_function` elsewhere.
    pub fn or_else<F>(self, else_function: F) -> (res: BoxStatefulFunction<T, R>)
        where
            F: StatefulFunction<T, R> + 'static,
        ensures
            forall|t: T| #[trigger] res.accepts(t) == choice_accepts(self.predicate(), self.function(), else_function, t),
            forall|t: T, r: R| #[trigger] res.produces(t, r) == choice_produces(self.predicate(), self.function(), else_function, t, r),
            res.part_calls() == (0nat, 0nat),
            forall|t: T, b: (nat, nat), a: (nat, nat)| #[trigger]
                res.part_step(t, b, a) == choice_step(self.predicate().produces(t, true), self.predicate().produces(t, false), b, a),
            res.spec_name() is None,
    {
        BoxStatefulFunction::from_call_mut(
            ChooseMut {
                predicate: self.predicate,
                on_true: Counted::new(self.function),
                on_false: Counted::new(else_function),
            },
            None,
        )
    }
}

/// An [`RcStatefulFunction`] restricted by a predicate, waiting for the
/// branch that [`RcConditionalStatefulFunction::or_else`] supplies.
#[verifier::reject_recursive_types(T)]
#[verifier::reject_recursive_types(R)]
pub struct RcConditionalStatefulFunction<T, R> {
    function: RcStatefulFunction<T, R>,
    predicate: RcPredicate<T>,
}

impl<T: 'static, R: 'static> RcConditionalStatefulFunction<T, R> {
    pub closed spec fn function(&self) -> RcStatefulFunction<T, R> {
        self.function
    }

    pub closed spec fn predicate(&self) -> RcPredicate<T> {
        self.predicate
    }

    /// The function that applies the guarded function where the predicate
    /// holds and `else_function` elsewhere.
    pub fn or_else<F>(&self, else_function: F) -> (res: RcStatefulFunction<T, R>)
        where
            F: StatefulFunction<T, R> + 'static,
        ensures
            forall|t: T| #[trigger] res.accepts(t) == choice_accepts(self.predicate(), self.function(), else_function, t),
            forall|t: T, r: R| #[trigger] res.produces(t, r) == choice_produces(self.predicate(), self.function(), else_function, t, r),
            res.spec_name() is None,
    {
        RcStatefulFunction::from_call_mut(
            ChooseMut {
                predicate: self.predicate.clone(),
                on_true: Counted::new(self.function.clone()),
                on_false: Counted::new(else_function),
            },
            None,
        )
    }
}

impl<T, R> Clone for RcConditionalStatefulFunction<T, R> {
    fn clone(&self) -> (res: Self)
        ensures
            res == *self,
    {
        RcConditionalStatefulFunction { function: self.function.clone(), predicate: self.predicate.clone() }
    }
}

/// An [`ArcStatefulFunction`] restricted by a predicate, waiting for the
/// branch that [`ArcConditionalStatefulFunction::or_else`] supplies.
#[verifier::reject_recursive_types(T)]
#[verifier::reject_recursive_types(R)]
pub struct ArcConditionalStatefulFunction<T, R> {
    function: ArcStatefulFunction<T, R>,
    predicate: ArcPredicate<T>,
}

impl<T: 'static, R: 'static> ArcConditionalStatefulFunction<T, R> {
    pub closed spec fn function(&self) -> ArcStatefulFunction<T, R> {
        self.function
    }

    pub closed spec fn predicate(&self) -> ArcPredicate<T> {
        self.predicate
    }

    /// The function that applies the guarded function where the predicate
    /// holds and `else_function` elsewhere.
    pub fn or_else<F>(&self, else_function: F) -> (res: ArcStatefulFunction<T, R>)
        where
            F: StatefulFunction<T, R> + Send + Sync + 'static,
        ensures
            forall|t: T| #[trigger] res.accepts(t) == choice_accepts(self.predicate(), self.function(), else_function, t),
            forall|t: T, r: R| #[trigger] res.produces(t, r) == choice_produces(self.predicate(), self.function(), else_function, t, r),
            res.spec_name() is None,
    {
        ArcStatefulFunction::from_call_mut(
            ChooseMut {
                predicate: self.predicate.clone(),
                on_true: Counted::new(self.function.clone()),
                on_false: Counted::new(else_function),
            },
            None,
        )
    }
}

impl<T, R> Clone for ArcConditionalStatefulFunction<T, R> {
    fn clone(&self) -> (res: Self)
        ensures
            res == *self,
    {
        ArcConditionalStatefulFunction { function: self.function.clone(), predicate: self.predicate.clone() }
    }
}

/// Composition and guarding for plain closures.
pub trait FnStatefulFunctionOps<T, R>: FnMut(&T) -> R + Sized {
    /// This closure followed by `after` on its result.
    fn and_then<S, F>(self, after: F) -> (res: BoxStatefulFunction<T, S>)
        where
            Self: 'static,
            S: 'static,
            F: StatefulFunction<R, S> + 'static,
            T: 'static,
            R: 'static,
        ensures
            forall|t: T| #[trigger] res.accepts(t) == then_accepts(self, after, t),
            forall|t: T, s: S| #[trigger] res.produces(t, s) == then_produces(self, after, t, s),
    {
        let first = BoxStatefulFunction::new(self);
        let res = first.and_then(after);
        assert forall|t: T| #[trigger] res.accepts(t) == then_accepts(self, after, t) by {
            assert(StatefulFunction::accepts(&first, t) == StatefulFunction::accepts(&self, t));
            assert(forall|m: R|
                #![trigger StatefulFunction::produces(&first, t, m)]
                #![trigger StatefulFunction::produces(&self, t, m)]
                StatefulFunction::produces(&first, t, m) == StatefulFunction::produces(&self, t, m));
        }
        assert forall|t: T, s: S| #[trigger] res.produces(t, s) == then_produces(self, after, t, s) by {
            assert(forall|m: R|
                #![trigger StatefulFunction::produces(&first, t, m)]
                #![trigger StatefulFunction::produces(&self, t, m)]
                StatefulFunction::produces(&first, t, m) == StatefulFunction::produces(&self, t, m));
        }
        res
    }

    /// `before` followed by this closure on its result.
    fn compose<S, F>(self, before: F) -> (res: BoxStatefulFunction<S, R>)
        where
            Self: 'static,
            S: 'static,
            F: StatefulFunction<S, T> + 'static,
            T: 'static,
            R: 'static,
        ensures
            forall|s: S| #[trigger] res.accepts(s) == then_accepts(before, self, s),
            forall|s: S, r: R| #[trigger] res.produces(s, r) == then_produces(before, self, s, r),
            res.part_calls() == (0nat, 0nat),
            forall|s: S, b: (nat, nat), a: (nat, nat)| #[trigger] res.part_step(s, b, a) == sequence_step(b, a),
    {
        let second = BoxStatefulFunction::new(self);
        let res = BoxStatefulFunction::from_call_mut(Before { before: Counted::new(before), function: Counted::new(second) }, None);
        assert forall|s: S| #[trigger] res.accepts(s) == then_accepts(before, self, s) by {
            assert(forall|m: T|
                #![trigger StatefulFunction::accepts(&second, m)]
                #![trigger StatefulFunction::accepts(&self, m)]
                StatefulFunction::accepts(&second, m) == StatefulFunction::accepts(&self, m));
        }
        assert forall|s: S, r: R| #[trigger] res.produces(s, r) == then_produces(before, self, s, r) by {
            assert(forall|m: T|
                #![trigger StatefulFunction::produces(&second, m, r)]
                #![trigger StatefulFunction::produces(&self, m, r)]
                StatefulFunction::produces(&second, m, r) == StatefulFunction::produces(&self, m, r));
        }
        res
    }

    /// This closure restricted to the inputs on which `predicate` holds.
    fn when<P>(self, predicate: P) -> (res: BoxConditionalStatefulFunction<T, R>)
        where
            Self: 'static,
            P: Predicate<T> + 'static,
            T: 'static,
            R: 'static,
        ensures
            forall|t: T| #[trigger] res.function().accepts(t) == call_requires(self, (&t,)),
            forall|t: T, r: R| #[trigger] res.function().produces(t, r) == call_ensures(self, (&t,), r),
            forall|t: T| predicate.accepts(t) ==> #[trigger] res.predicate().accepts(t),
            forall|t: T, b: bool| #[trigger] res.predicate().produces(t, b) ==> predicate.produces(t, b),
    {
        BoxStatefulFunction::new(self).when(predicate)
    }
}

impl<T, R, F: FnMut(&T) -> R> FnStatefulFunctionOps<T, R> for F {

}

/// Over any run of calls, a function built by `and_then` or `compose`
/// applies each of its two parts once per call: after `i` calls each part
/// has been applied exactly `i` times, so the second part never runs more
/// (or less) often than the first, and never twice on one result.
///
/// `runs[i + 1]` is the function after its call on `inputs[i]`, as
/// [`StatefulFunction::apply`] on a [`BoxStatefulFunction`] relates them.
pub proof fn law_sequence_applies_each_part_once_per_call<T, R>(
    runs: Seq<BoxStatefulFunction<T, R>>,
    inputs: Seq<T>,
)
    requires
        runs.len() == inputs.len() + 1,
        runs[0].part_calls() == (0nat, 0nat),
        forall|t: T, b: (nat, nat), a: (nat, nat)| #[trigger] runs[0].part_step(t, b, a) == sequence_step(b, a),
        forall|i: int|
            0 <= i < inputs.len() ==> #[trigger] runs[i].part_step(inputs[i], runs[i].part_calls(), runs[i + 1].part_calls()),
        forall|i: int, t: T, b: (nat, nat), a: (nat, nat)|
            0 <= i < inputs.len() ==> #[trigger] runs[i + 1].part_step(t, b, a) == runs[i].part_step(t, b, a),
    ensures
        forall|i: int| 0 <= i < runs.len() ==> #[trigger] runs[i].part_calls() == (i as nat, i as nat),
    decreases inputs.len(),
{
    if inputs.len() > 0 {
        let n = inputs.len() - 1;
        law_sequence_applies_each_part_once_per_call(runs.take(n + 1), inputs.take(n));
        lemma_step_kept(runs, inputs, n);
        assert(runs[n].part_step(inputs[n], runs[n].part_calls(), runs[n + 1].part_calls()));
        assert(runs.take(n + 1)[n] == runs[n]);
        assert forall|i: int| 0 <= i < runs.len() implies #[trigger] runs[i].part_calls() == (i as nat, i as nat) by {
            if i <= n {
                assert(runs.take(n + 1)[i] == runs[i]);
            }
        }
    }
}

/// Over any run of calls, a function built by `when(..).or_else(..)`
/// applies exactly one branch per call: after `i` calls the two branches
/// have been applied `i` times in all, and each call applied the first
/// branch only if the predicate may hold on its input (`may_hold`), the
/// second only if it may fail there (`may_fail`).
///
/// `runs[i + 1]` is the function after its call on `inputs[i]`, as
/// [`StatefulFunction::apply`] on a [`BoxStatefulFunction`] relates them.
pub proof fn law_choice_applies_one_branch_per_call<T, R>(
    runs: Seq<BoxStatefulFunction<T, R>>,
    inputs: Seq<T>,
    may_hold: spec_fn(T) -> bool,
    may_fail: spec_fn(T) -> bool,
)
    requires
        runs.len() == inputs.len() + 1,
        runs[0].part_calls() == (0nat, 0nat),
        forall|t: T, b: (nat, nat), a: (nat, nat)| #[trigger]
            runs[0].part_step(t, b, a) == choice_step(may_hold(t), may_fail(t), b, a),
        forall|i: int|
            0 <= i < inputs.len() ==> #[trigger] runs[i].part_step(inputs[i], runs[i].part_calls(), runs[i + 1].part_calls()),
        forall|i: int, t: T, b: (nat, nat), a: (nat, nat)|
            0 <= i < inputs.len() ==> #[trigger] runs[i + 1].part_step(t, b, a) == runs[i].part_step(t, b, a),
    ensures
        forall|i: int| 0 <= i < runs.len() ==> #[trigger] runs[i].part_calls().0 + runs[i].part_calls().1 == i,
        forall|i: int|
            0 <= i < inputs.len() ==> (#[trigger] runs[i + 1].part_calls().0 > runs[i].part_calls().0 ==> may_hold(
                inputs[i],
            )) && (runs[i + 1].part_calls().1 > runs[i].part_calls().1 ==> may_fail(inputs[i])),
    decreases inputs.len(),
{
    if inputs.len() > 0 {
        let n = inputs.len() - 1;
        law_choice_applies_one_branch_per_call(runs.take(n + 1), inputs.take(n), may_hold, may_fail);
        lemma_step_kept(runs, inputs, n);
        assert(runs[n].part_step(inputs[n], runs[n].part_calls(), runs[n + 1].part_calls()));
        assert(runs.take(n + 1)[n] == runs[n]);
        assert forall|i: int| 0 <= i < runs.len() implies #[trigger] runs[i].part_calls().0 + runs[i].part_calls().1
            == i by {
            if i <= n {
                assert(runs.take(n + 1)[i] == runs[i]);
            }
        }
        assert forall|i: int| 0 <= i < inputs.len() implies (#[trigger] runs[i + 1].part_calls().0
            > runs[i].part_calls().0 ==> may_hold(inputs[i])) && (runs[i + 1].part_calls().1 > runs[i].part_calls().1
            ==> may_fail(inputs[i])) by {
            if i < n {
                assert(runs.take(n + 1)[i] == runs[i]);
                assert(runs.take(n + 1)[i + 1] == runs[i + 1]);
                assert(inputs.take(n)[i] == inputs[i]);
            } else {
                assert(runs[i].part_step(inputs[i], runs[i].part_calls(), runs[i + 1].part_calls()));
            }
        }
    }
}

/// Along a run, every function in it moves its part counts as the first
/// one does.
proof fn lemma_step_kept<T, R>(runs: Seq<BoxStatefulFunction<T, R>>, inputs: Seq<T>, n: int)
    requires
        runs.len() == inputs.len() + 1,
        0 <= n <= inputs.len(),
        forall|i: int, t: T, b: (nat, nat), a: (nat, nat)|
            0 <= i < inputs.len() ==> #[trigger] runs[i + 1].part_step(t, b, a) == runs[i].part_step(t, b, a),
    ensures
        forall|t: T, b: (nat, nat), a: (nat, nat)| #[trigger] runs[n].part_step(t, b, a) == runs[0].part_step(t, b, a),
    decreases n,
{
    if n > 0 {
        lemma_step_kept(runs, inputs, n - 1);
        assert forall|t: T, b: (nat, nat), a: (nat, nat)| #[trigger] runs[n].part_step(t, b, a) == runs[0].part_step(
            t,
            b,
            a,
        ) by {
            assert(runs[(n - 1) + 1].part_step(t, b, a) == runs[n - 1].part_step(t, b, a));
        }
    }
}

/// One call of a sequence of two parts (`and_then`, `compose`) applies each
/// part exactly once: the counts of calls made to the two parts both grow
/// by one.
pub open spec fn sequence_step(before: (nat, nat), after: (nat, nat)) -> bool {
    after == (before.0 + 1, before.1 + 1)
}

/// One call of a choice between two branches (`when(..).or_else(..)`)
/// applies exactly one branch, once: the first only where the predicate may
/// answer true (`may_hold`), the second only where it may answer false
/// (`may_fail`).
pub open spec fn choice_step(may_hold: bool, may_fail: bool, before: (nat, nat), after: (nat, nat)) -> bool {
    ||| after == (before.0 + 1, before.1) && may_hold
    ||| after == (before.0, before.1 + 1) && may_fail
}

/// `first` followed by `after`: defined at `t` when `first` is, and `after`
/// is defined at each result that `first` may give for `t`.
pub open spec fn then_accepts<T, M, R, G: StatefulFunction<T, M>, F: StatefulFunction<M, R>>(
    first: G,
    after: F,
    t: T,
) -> bool {
    &&& first.accepts(t)
    &&& forall|m: M| #[trigger] first.produces(t, m) ==> after.accepts(m)
}

/// `first` followed by `after`: `r` is a possible result when some
/// intermediate value `m` of `first` leads `after` to `r`.
pub open spec fn then_produces<T, M, R, G: StatefulFunction<T, M>, F: StatefulFunction<M, R>>(
    first: G,
    after: F,
    t: T,
    r: R,
) -> bool {
    exists|m: M| #[trigger] first.produces(t, m) && after.produces(m, r)
}

/// A choice between two functions by a predicate: defined at `t` when the
/// predicate is, and the branch that each possible answer selects is.
pub open spec fn choice_accepts<T, R, P: Predicate<T>, G: StatefulFunction<T, R>, E: StatefulFunction<T, R>>(
    p: P,
    g: G,
    e: E,
    t: T,
) -> bool {
    &&& p.accepts(t)
    &&& forall|b: bool| #[trigger] p.produces(t, b) ==> if b {
        g.accepts(t)
    } else {
        e.accepts(t)
    }
}

/// A choice between two functions by a predicate: `r` is a possible result
/// when some answer of the predicate selects a branch that may give `r`.
pub open spec fn choice_produces<T, R, P: Predicate<T>, G: StatefulFunction<T, R>, E: StatefulFunction<T, R>>(
    p: P,
    g: G,
    e: E,
    t: T,
    r: R,
) -> bool {
    exists|b: bool| #[trigger] p.produces(t, b) && if b {
        g.produces(t, r)
    } else {
        e.produces(t, r)
    }
}

/// Sequencing is associative: `fg` followed by `h` and `f` followed by `gh`
/// accept the same inputs and give the same results, where `fg` behaves as
/// `f` followed by `g` and `gh` as `g` followed by `h` (as the result of
/// `and_then` does).
pub proof fn law_then_associative<T, M, N, R, F, G, H, FG, GH>(f: F, g: G, h: H, fg: FG, gh: GH, t: T)
    where
        F: StatefulFunction<T, M>,
        G: StatefulFunction<M, N>,
        H: StatefulFunction<N, R>,
        FG: StatefulFunction<T, N>,
        GH: StatefulFunction<M, R>,
    requires
        forall|x: T| #[trigger] fg.accepts(x) == then_accepts(f, g, x),
        forall|x: T, n: N| #[trigger] fg.produces(x, n) == then_produces(f, g, x, n),
        forall|m: M| #[trigger] gh.accepts(m) == then_accepts(g, h, m),
        forall|m: M, r: R| #[trigger] gh.produces(m, r) == then_produces(g, h, m, r),
    ensures
        then_accepts(fg, h, t) == then_accepts(f, gh, t),
        forall|r: R| #[trigger] then_produces(fg, h, t, r) == then_produces(f, gh, t, r),
{
    if then_accepts(fg, h, t) {
        assert forall|m: M| #[trigger] f.produces(t, m) implies gh.accepts(m) by {
            assert forall|n: N| #[trigger] g.produces(m, n) implies h.accepts(n) by {
                assert(fg.produces(t, n));
            }
        }
    }
    if then_accepts(f, gh, t) {
        assert forall|n: N| #[trigger] fg.produces(t, n) implies h.accepts(n) by {
            let m = choose|m: M| #[trigger] f.produces(t, m) && g.produces(m, n);
            assert(gh.accepts(m));
        }
    }
    assert forall|r: R| #[trigger] then_produces(fg, h, t, r) == then_produces(f, gh, t, r) by {
        if then_produces(fg, h, t, r) {
            let n = choose|n: N| #[trigger] fg.produces(t, n) && h.produces(n, r);
            let m = choose|m: M| #[trigger] f.produces(t, m) && g.produces(m, n);
            assert(gh.produces(m, r));
        }
        if then_produces(f, gh, t, r) {
            let m = choose|m: M| #[trigger] f.produces(t, m) && gh.produces(m, r);
            let n = choose|n: N| #[trigger] g.produces(m, n) && h.produces(n, r);
            assert(fg.produces(t, n));
        }
    }
}

/// Two functions in sequence keep their combined behaviour when each keeps
/// its own.
proof fn lemma_then_unchanged<T, M, R, G: StatefulFunction<T, M>, F: StatefulFunction<M, R>>(
    g0: G,
    g1: G,
    f0: F,
    f1: F,
)
    requires
        forall|x: T| #[trigger] g1.accepts(x) == g0.accepts(x),
        forall|x: T, y: M| #[trigger] g1.produces(x, y) == g0.produces(x, y),
        forall|x: M| #[trigger] f1.accepts(x) == f0.accepts(x),
        forall|x: M, y: R| #[trigger] f1.produces(x, y) == f0.produces(x, y),
    ensures
        forall|t: T| #[trigger] then_accepts(g1, f1, t) == then_accepts(g0, f0, t),
        forall|t: T, r: R| #[trigger] then_produces(g1, f1, t, r) == then_produces(g0, f0, t, r),
{
    assert forall|t: T| #[trigger] then_accepts(g1, f1, t) == then_accepts(g0, f0, t) by {
        if then_accepts(g0, f0, t) {
            assert forall|m: M| #[trigger] g1.produces(t, m) implies f1.accepts(m) by {
                assert(g0.produces(t, m));
            }
        }
        if then_accepts(g1, f1, t) {
            assert forall|m: M| #[trigger] g0.produces(t, m) implies f0.accepts(m) by {
                assert(g1.produces(t, m));
            }
        }
    }
    assert forall|t: T, r: R| #[trigger] then_produces(g1, f1, t, r) == then_produces(g0, f0, t, r) by {
        if then_produces(g0, f0, t, r) {
            let m = choose|m: M| #[trigger] g0.produces(t, m) && f0.produces(m, r);
            assert(g1.produces(t, m) && f1.produces(m, r));
        }
        if then_produces(g1, f1, t, r) {
            let m = choose|m: M| #[trigger] g1.produces(t, m) && f1.produces(m, r);
            assert(g0.produces(t, m) && f0.produces(m, r));
        }
    }
}

/// Applies `first`, then `after` on its result, counting the calls made to
/// each.
struct ThenMut<G, F> {
    first: Counted<G>,
    after: Counted<F>,
}

impl<T, M, R, F: StatefulFunction<M, R>> CallMut1<T, R> for ThenMut<BoxStatefulFunction<T, M>, F> {
    closed spec fn pre(&self, t: T) -> bool {
        then_accepts(self.first.inner(), self.after.inner(), t)
    }

    closed spec fn post(&self, t: T, r: R) -> bool {
        then_produces(self.first.inner(), self.after.inner(), t, r)
    }

    closed spec fn part_calls(&self) -> (nat, nat) {
        (self.first.calls(), self.after.calls())
    }

    closed spec fn part_step(&self, t: T, before: (nat, nat), after: (nat, nat)) -> bool {
        sequence_step(before, after)
    }

    fn call_mut(&mut self, t: &T) -> (r: R) {
        let ghost first = self.first.inner();
        let ghost after = self.after.inner();
        let m = self.first.apply(t);
        let r = self.after.apply(&m);
        proof {
            lemma_then_unchanged(first, self.first.inner(), after, self.after.inner());
        }
        r
    }
}

impl<T, M, R, F: StatefulFunction<M, R>> CallMut1<T, R> for ThenMut<RcStatefulFunction<T, M>, F> {
    closed spec fn pre(&self, t: T) -> bool {
        then_accepts(self.first.inner(), self.after.inner(), t)
    }

    closed spec fn post(&self, t: T, r: R) -> bool {
        then_produces(self.first.inner(), self.after.inner(), t, r)
    }

    closed spec fn part_calls(&self) -> (nat, nat) {
        (self.first.calls(), self.after.calls())
    }

    closed spec fn part_step(&self, t: T, before: (nat, nat), after: (nat, nat)) -> bool {
        sequence_step(before, after)
    }

    fn call_mut(&mut self, t: &T) -> (r: R) {
        let ghost first = self.first.inner();
        let ghost after = self.after.inner();
        let m = self.first.apply(t);
        let r = self.after.apply(&m);
        proof {
            lemma_then_unchanged(first, self.first.inner(), after, self.after.inner());
        }
        r
    }
}

impl<T, M, R, F: StatefulFunction<M, R>> CallMut1<T, R> for ThenMut<ArcStatefulFunction<T, M>, F> {
    closed spec fn pre(&self, t: T) -> bool {
        then_accepts(self.first.inner(), self.after.inner(), t)
    }

    closed spec fn post(&self, t: T, r: R) -> bool {
        then_produces(self.first.inner(), self.after.inner(), t, r)
    }

    closed spec fn part_calls(&self) -> (nat, nat) {
        (self.first.calls(), self.after.calls())
    }

    closed spec fn part_step(&self, t: T, before: (nat, nat), after: (nat, nat)) -> bool {
        sequence_step(before, after)
    }

    fn call_mut(&mut self, t: &T) -> (r: R) {
        let ghost first = self.first.inner();
        let ghost after = self.after.inner();
        let m = self.first.apply(t);
        let r = self.after.apply(&m);
        proof {
            lemma_then_unchanged(first, self.first.inner(), after, self.after.inner());
        }
        r
    }
}

/// Applies `before`, then `function` on its result.
struct Before<G, F> {
    before: Counted<G>,
    function: Counted<F>,
}

impl<S, T, R, G: StatefulFunction<S, T>> CallMut1<S, R> for Before<G, BoxStatefulFunction<T, R>> {
    closed spec fn pre(&self, s: S) -> bool {
        then_accepts(self.before.inner(), self.function.inner(), s)
    }

    closed spec fn post(&self, s: S, r: R) -> bool {
        then_produces(self.before.inner(), self.function.inner(), s, r)
    }

    closed spec fn part_calls(&self) -> (nat, nat) {
        (self.before.calls(), self.function.calls())
    }

    closed spec fn part_step(&self, s: S, before: (nat, nat), after: (nat, nat)) -> bool {
        sequence_step(before, after)
    }

    fn call_mut(&mut self, s: &S) -> (r: R) {
        let ghost before = self.before.inner();
        let ghost function = self.function.inner();
        let t = self.before.apply(s);
        let r = self.function.apply(&t);
        proof {
            lemma_then_unchanged(before, self.before.inner(), function, self.function.inner());
        }
        r
    }
}

/// Applies `on_true` or `on_false`, as `predicate` selects.
struct ChooseMut<P, G, E> {
    predicate: P,
    on_true: Counted<G>,
    on_false: Counted<E>,
}

impl<T, R, P: Predicate<T>, G: StatefulFunction<T, R>, E: StatefulFunction<T, R>> CallMut1<T, R> for ChooseMut<P, G, E> {
    closed spec fn pre(&self, t: T) -> bool {
        choice_accepts(self.predicate, self.on_true.inner(), self.on_false.inner(), t)
    }

    closed spec fn post(&self, t: T, r: R) -> bool {
        choice_produces(self.predicate, self.on_true.inner(), self.on_false.inner(), t, r)
    }

    closed spec fn part_calls(&self) -> (nat, nat) {
        (self.on_true.calls(), self.on_false.calls())
    }

    closed spec fn part_step(&self, t: T, before: (nat, nat), after: (nat, nat)) -> bool {
        choice_step(self.predicate.produces(t, true), self.predicate.produces(t, false), before, after)
    }

    fn call_mut(&mut self, t: &T) -> (r: R) {
        if self.predicate.test(t) {
            self.on_true.apply(t)
        } else {
            self.on_false.apply(t)
        }
    }
}

} // verus!
