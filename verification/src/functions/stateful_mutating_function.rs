//! Functions that take their argument by mutable reference, may change it
//! and their own state, and compute a result (`FnMut(&mut T) -> R`), in
//! boxed, `Rc` and `Arc` flavours, with conditional variants.
//!
//! `produces(m, r)` relates a reference `m` to a result `r`: a reference
//! stands for the value it held when the call started (`mut_ref_current`)
//! and the value it holds when the call returns (`mut_ref_future`). The
//! shared flavours keep the function behind a lock, so that every clone
//! calls the same function and sees the state that the others left.
use std::rc::Rc;
use std::sync::Arc;
use vstd::prelude::*;

use crate::counted::CountedMut;
use crate::functions::function::Function;
use crate::functions::stateful_function::choice_step;
use crate::functions::mutating_function_once::BoxMutatingFunctionOnce;
use crate::mutating_call::{LockedMutCallMut1, LockedSyncMutCallMut1, MutCallMut1, MutCallOnce1};
use crate::names::{clone_name, name_str, name_view, owned_name};
use crate::predicates::{ArcPredicate, BoxPredicate, Predicate, RcPredicate};

verus! {

/// A function that may change its own state and the value it is given, and
/// computes a result.
///
/// `accepts(t)` is what must hold of the value before `apply`, and
/// `produces(m, r)` says that a call may take `m` from its value before to
/// its value after and give `r`. Both describe every call, whatever state
/// the earlier calls left: applying the function does not change them.
pub trait StatefulMutatingFunction<T, R> {
    spec fn accepts(&self, t: T) -> bool;

    spec fn produces(&self, m: &mut T, r: R) -> bool;

    fn apply(&mut self, t: &mut T) -> (r: R)
        requires
            old(self).accepts(*old(t)),
        ensures
            exists|m: &mut T|
                mut_ref_current(m) == *old(t) && mut_ref_future(m) == *final(t) && #[trigger] old(self).produces(m, r),
            forall|x: T| #[trigger] final(self).accepts(x) == old(self).accepts(x),
            forall|x: &mut T, y: R| #[trigger] final(self).produces(x, y) == old(self).produces(x, y),
    ;

    /// Moves this function into a [`BoxStatefulMutatingFunction`] that calls it.
    fn into_box(self) -> (res: BoxStatefulMutatingFunction<T, R>)
        where
            Self: Sized + 'static,
            T: 'static,
            R: 'static,
        ensures
            forall|t: T| #[trigger] res.accepts(t) == self.accepts(t),
            forall|m: &mut T, r: R| #[trigger] res.produces(m, r) == self.produces(m, r),
    ;

    /// Moves this function into an [`RcStatefulMutatingFunction`] that calls it.
    fn into_rc(self) -> (res: RcStatefulMutatingFunction<T, R>)
        where
            Self: Sized + 'static,
            T: 'static,
            R: 'static,
        ensures
            forall|t: T| #[trigger] res.accepts(t) == self.accepts(t),
            forall|m: &mut T, r: R| #[trigger] res.produces(m, r) == self.produces(m, r),
    ;

    /// Moves this function into an [`ArcStatefulMutatingFunction`] that calls it.
    fn into_arc(self) -> (res: ArcStatefulMutatingFunction<T, R>)
        where
            Self: Sized + Send + Sync + 'static,
            T: 'static,
            R: 'static,
        ensures
            forall|t: T| #[trigger] res.accepts(t) == self.accepts(t),
            forall|m: &mut T, r: R| #[trigger] res.produces(m, r) == self.produces(m, r),
    ;

    /// Moves this function into a [`BoxMutatingFunctionOnce`] that calls it.
    fn into_once(self) -> (res: BoxMutatingFunctionOnce<T, R>)
        where
            Self: Sized + 'static,
            T: 'static,
            R: 'static,
        ensures
            forall|t: T| #[trigger] res.accepts(t) == self.accepts(t),
            forall|m: &mut T, r: R| #[trigger] res.produces(m, r) == self.produces(m, r),
    ;

    /// A [`BoxStatefulMutatingFunction`] that calls a clone of this function.
    fn to_box(&self) -> (res: BoxStatefulMutatingFunction<T, R>)
        where
            Self: Clone + 'static,
            T: 'static,
            R: 'static,
        ensures
            exists|c: Self|
                cloned::<Self>(*self, c) && (forall|t: T| #[trigger] res.accepts(t) == c.accepts(t))
                    && (forall|m: &mut T, r: R| #[trigger] res.produces(m, r) == c.produces(m, r)),
    ;

    /// An [`RcStatefulMutatingFunction`] that calls a clone of this function.
    fn to_rc(&self) -> (res: RcStatefulMutatingFunction<T, R>)
        where
            Self: Clone + 'static,
            T: 'static,
            R: 'static,
        ensures
            exists|c: Self|
                cloned::<Self>(*self, c) && (forall|t: T| #[trigger] res.accepts(t) == c.accepts(t))
                    && (forall|m: &mut T, r: R| #[trigger] res.produces(m, r) == c.produces(m, r)),
    ;

    /// An [`ArcStatefulMutatingFunction`] that calls a clone of this function.
    fn to_arc(&self) -> (res: ArcStatefulMutatingFunction<T, R>)
        where
            Self: Clone + Send + Sync + 'static,
            T: 'static,
            R: 'static,
        ensures
            exists|c: Self|
                cloned::<Self>(*self, c) && (forall|t: T| #[trigger] res.accepts(t) == c.accepts(t))
                    && (forall|m: &mut T, r: R| #[trigger] res.produces(m, r) == c.produces(m, r)),
    ;

    /// A [`BoxMutatingFunctionOnce`] that calls a clone of this function.
    fn to_once(&self) -> (res: BoxMutatingFunctionOnce<T, R>)
        where
            Self: Clone + 'static,
            T: 'static,
            R: 'static,
        ensures
            exists|c: Self|
                cloned::<Self>(*self, c) && (forall|t: T| #[trigger] res.accepts(t) == c.accepts(t))
                    && (forall|m: &mut T, r: R| #[trigger] res.produces(m, r) == c.produces(m, r)),
    ;
}

impl<T, R, F: FnMut(&mut T) -> R> StatefulMutatingFunction<T, R> for F {
    open spec fn accepts(&self, t: T) -> bool {
        forall|m: &mut T| mut_ref_current(m) == t ==> #[trigger] call_requires(*self, (m,))
    }

    open spec fn produces(&self, m: &mut T, r: R) -> bool {
        call_ensures(*self, (m,), r)
    }

    fn apply(&mut self, t: &mut T) -> (r: R) {
        let r = (self)(t);
        proof {
            assert(exists|m: &mut T|
                #[trigger] call_ensures(*old(self), (m,), r) && mut_ref_current(m) == *old(t) && mut_ref_future(m) == *t);
            let m = choose|m: &mut T|
                #[trigger] call_ensures(*old(self), (m,), r) && mut_ref_current(m) == *old(t) && mut_ref_future(m) == *t;
            assert(StatefulMutatingFunction::<T, R>::produces(&*old(self), m, r));
            assert(*t == *final(t));
        }
        r
    }

    fn into_box(self) -> (res: BoxStatefulMutatingFunction<T, R>)
        where
            Self: Sized + 'static,
            T: 'static,
            R: 'static,
        ensures
            res.spec_name() is None,
    {
        BoxStatefulMutatingFunction::from_call_mut(self, None)
    }

    fn into_rc(self) -> (res: RcStatefulMutatingFunction<T, R>)
        where
            Self: Sized + 'static,
            T: 'static,
            R: 'static,
        ensures
            res.spec_name() is None,
    {
        RcStatefulMutatingFunction::from_call_mut(self, None)
    }

    fn into_arc(self) -> (res: ArcStatefulMutatingFunction<T, R>)
        where
            Self: Sized + Send + Sync + 'static,
            T: 'static,
            R: 'static,
        ensures
            res.spec_name() is None,
    {
        ArcStatefulMutatingFunction::from_call_mut(self, None)
    }

    fn into_once(self) -> (res: BoxMutatingFunctionOnce<T, R>)
        where
            Self: Sized + 'static,
            T: 'static,
            R: 'static,
        ensures
            res.spec_name() is None,
    {
        BoxMutatingFunctionOnce::from_call_once(self, None)
    }

    fn to_box(&self) -> (res: BoxStatefulMutatingFunction<T, R>)
        where
            Self: Clone + 'static,
            T: 'static,
            R: 'static,
    {
        let c = self.clone();
        let res = BoxStatefulMutatingFunction::from_call_mut(c, None);
        assert(cloned::<Self>(*self, c));
        res
    }

    fn to_rc(&self) -> (res: RcStatefulMutatingFunction<T, R>)
        where
            Self: Clone + 'static,
            T: 'static,
            R: 'static,
    {
        let c = self.clone();
        let res = RcStatefulMutatingFunction::from_call_mut(c, None);
        assert(cloned::<Self>(*self, c));
        res
    }

    fn to_arc(&self) -> (res: ArcStatefulMutatingFunction<T, R>)
        where
            Self: Clone + Send + Sync + 'static,
            T: 'static,
            R: 'static,
    {
        let c = self.clone();
        let res = ArcStatefulMutatingFunction::from_call_mut(c, None);
        assert(cloned::<Self>(*self, c));
        res
    }

    fn to_once(&self) -> (res: BoxMutatingFunctionOnce<T, R>)
        where
            Self: Clone + 'static,
            T: 'static,
            R: 'static,
    {
        let c = self.clone();
        let res = BoxMutatingFunctionOnce::from_call_once(c, None);
        assert(cloned::<Self>(*self, c));
        res
    }
}

/// A stateful mutating function in a box: single ownership.
#[verifier::reject_recursive_types(T)]
#[verifier::reject_recursive_types(R)]
pub struct BoxStatefulMutatingFunction<T, R> {
    function: Box<dyn MutCallMut1<T, R>>,
    name: Option<String>,
}

impl<T, R> BoxStatefulMutatingFunction<T, R> {
    pub closed spec fn accepts(&self, t: T) -> bool {
        self.function.pre(t)
    }

    pub closed spec fn produces(&self, m: &mut T, r: R) -> bool {
        self.function.post(m, r)
    }

    pub closed spec fn spec_name(&self) -> Option<Seq<char>> {
        name_view(self.name)
    }

    /// How many times this function has applied its parts, when it was
    /// built from them (by `and_then` or `or_else`); `(0, 0)` for a function
    /// built from a single closure.
    pub closed spec fn part_calls(&self) -> (nat, nat) {
        self.function.part_calls()
    }

    /// What one call on a value `t` may do to
    /// [`BoxStatefulMutatingFunction::part_calls`]: take it from `before` to
    /// `after`.
    pub closed spec fn part_step(&self, t: T, before: (nat, nat), after: (nat, nat)) -> bool {
        self.function.part_step(t, before, after)
    }

    pub(crate) fn from_call_mut<C: MutCallMut1<T, R> + 'static>(c: C, name: Option<String>) -> (res: Self)
        ensures
            forall|t: T| #[trigger] res.accepts(t) == c.pre(t),
            forall|m: &mut T, r: R| #[trigger] res.produces(m, r) == c.post(m, r),
            res.part_calls() == c.part_calls(),
            forall|t: T, b: (nat, nat), a: (nat, nat)| #[trigger] res.part_step(t, b, a) == c.part_step(t, b, a),
            res.spec_name() == name_view(name),
    {
        let function: Box<dyn MutCallMut1<T, R>> = Box::new(c);
        assert(forall|t: T| #[trigger] function.pre(t) == c.pre(t));
        assert(forall|m: &mut T, r: R| #[trigger] function.post(m, r) == c.post(m, r));
        assert(function.part_calls() == c.part_calls());
        assert(forall|t: T, b: (nat, nat), a: (nat, nat)| #[trigger] function.part_step(t, b, a) == c.part_step(t, b, a));
        BoxStatefulMutatingFunction { function, name }
    }

    /// Wraps the closure `f`.
    pub fn new<F>(f: F) -> (res: Self)
        where
            F: FnMut(&mut T) -> R + 'static,
        ensures
            forall|t: T| #[trigger]
                res.accepts(t) == (forall|m: &mut T| mut_ref_current(m) == t ==> #[trigger] call_requires(f, (m,))),
            forall|m: &mut T, r: R| #[trigger] res.produces(m, r) == call_ensures(f, (m,), r),
            res.part_calls() == (0nat, 0nat),
            forall|t: T, b: (nat, nat), a: (nat, nat)| #[trigger] res.part_step(t, b, a) == (a == b),
            res.spec_name() is None,
    {
        Self::from_call_mut(f, None)
    }

    /// Wraps the closure `f` under the name `name`.
    pub fn new_with_name<F>(name: &str, f: F) -> (res: Self)
        where
            F: FnMut(&mut T) -> R + 'static,
        ensures
            forall|t: T| #[trigger]
                res.accepts(t) == (forall|m: &mut T| mut_ref_current(m) == t ==> #[trigger] call_requires(f, (m,))),
            forall|m: &mut T, r: R| #[trigger] res.produces(m, r) == call_ensures(f, (m,), r),
            res.part_calls() == (0nat, 0nat),
            forall|t: T, b: (nat, nat), a: (nat, nat)| #[trigger] res.part_step(t, b, a) == (a == b),
            res.spec_name() == Some(name@),
    {
        Self::from_call_mut(f, owned_name(name))
    }

    /// Wraps the closure `f` under the name `name`, if there is one.
    pub fn new_with_optional_name<F>(f: F, name: Option<String>) -> (res: Self)
        where
            F: FnMut(&mut T) -> R + 'static,
        ensures
            forall|t: T| #[trigger]
                res.accepts(t) == (forall|m: &mut T| mut_ref_current(m) == t ==> #[trigger] call_requires(f, (m,))),
            forall|m: &mut T, r: R| #[trigger] res.produces(m, r) == call_ensures(f, (m,), r),
            res.part_calls() == (0nat, 0nat),
            forall|t: T, b: (nat, nat), a: (nat, nat)| #[trigger] res.part_step(t, b, a) == (a == b),
            res.spec_name() == name_view(name),
    {
        Self::from_call_mut(f, name)
    }

    /// The name of this function, if it has one.
    pub fn name(&self) -> (res: Option<&str>)
        ensures
            match res {
                Some(s) => self.spec_name() == Some(s@),
                None => self.spec_name() is None,
            },
    {
        name_str(&self.name)
    }

    /// Gives this function the name `name`; its behaviour stays the same.
    pub fn set_name(&mut self, name: &str)
        ensures
            final(self).spec_name() == Some(name@),
            forall|t: T| #[trigger] final(self).accepts(t) == old(self).accepts(t),
            forall|m: &mut T, r: R| #[trigger] final(self).produces(m, r) == old(self).produces(m, r),
    {
        self.name = owned_name(name);
    }

    /// Restricts this function to the values on which `predicate` holds before the
    /// call; [`BoxConditionalStatefulMutatingFunction::or_else`] then supplies the other branch.
    pub fn when<P>(self, predicate: P) -> (res: BoxConditionalStatefulMutatingFunction<T, R>)
        where
            P: Predicate<T> + 'static,
            T: 'static,
        ensures
            res.function() == self,
            forall|t: T| predicate.accepts(t) ==> #[trigger] res.predicate().accepts(t),
            forall|t: T, b: bool| #[trigger] res.predicate().produces(t, b) ==> predicate.produces(t, b),
    {
        BoxConditionalStatefulMutatingFunction { function: self, predicate: predicate.into_box() }
    }

    /// This function followed by `after` on its result.
    pub fn and_then<S, F>(self, after: F) -> (res: BoxStatefulMutatingFunction<T, S>)
        where
            T: 'static,
            R: 'static,
            S: 'static,
            F: Function<R, S> + 'static,
        ensures
            forall|t: T| #[trigger] res.accepts(t) == then_accepts(self, after, t),
            forall|m: &mut T, s: S| #[trigger] res.produces(m, s) == then_produces(self, after, m, s),
            res.part_calls() == (0nat, 0nat),
            forall|t: T, b: (nat, nat), a: (nat, nat)| #[trigger] res.part_step(t, b, a) == (a == (b.0 + 1, b.1)),
            res.spec_name() is None,
    {
        BoxStatefulMutatingFunction::from_call_mut(Then { first: CountedMut::new(self), after }, None)
    }

    /// This function as a plain closure.
    pub fn into_fn(self) -> (res: impl FnMut(&mut T) -> R)
        where
            T: 'static,
            R: 'static,
        ensures
            forall|t: T| self.accepts(t) ==> res.accepts(t),
            forall|m: &mut T, r: R| #[trigger]
                call_ensures(res, (m,), r) ==> exists|m2: &mut T|
                    #![trigger self.produces(m2, r)]
                    mut_ref_current(m2) == mut_ref_current(m) && mut_ref_future(m2) == mut_ref_future(m)
                        && self.produces(m2, r),
    {
        let function = LockedMutCallMut1::new(self);
        move |t: &mut T| -> (r: R)
            requires
                function.pre(*old(t)),
            ensures
                exists|m: &mut T|
                    mut_ref_current(m) == *old(t) && mut_ref_future(m) == *final(t) && #[trigger] function.post(m, r),
        {
            function.call(t)
        }
    }
}

impl<T: Clone + 'static> BoxStatefulMutatingFunction<T, T> {
    /// A function that leaves the value as it is and returns a clone of it.
    pub fn identity() -> (res: BoxStatefulMutatingFunction<T, T>)
        ensures
            forall|t: T| #[trigger] res.accepts(t),
            forall|m: &mut T, r: T| #[trigger]
                res.produces(m, r) ==> cloned::<T>(mut_ref_current(m), r) && mut_ref_future(m) == mut_ref_current(m),
            res.spec_name() is None,
    {
        let f = |t: &mut T| -> (r: T)
            ensures
                cloned::<T>(*old(t), r),
                *final(t) == *old(t),
        {
            (*t).clone()
        };
        BoxStatefulMutatingFunction::new(f)
    }
}

impl<T, R> MutCallMut1<T, R> for BoxStatefulMutatingFunction<T, R> {
    closed spec fn pre(&self, t: T) -> bool {
        self.accepts(t)
    }

    closed spec fn post(&self, m: &mut T, r: R) -> bool {
        self.produces(m, r)
    }

    closed spec fn part_calls(&self) -> (nat, nat) {
        BoxStatefulMutatingFunction::part_calls(self)
    }

    closed spec fn part_step(&self, t: T, before: (nat, nat), after: (nat, nat)) -> bool {
        BoxStatefulMutatingFunction::part_step(self, t, before, after)
    }

    fn call_mut(&mut self, t: &mut T) -> (r: R) {
        let ghost s0 = *self;
        let r = self.function.call_mut(t);
        proof {
            assert(exists|m: &mut T|
                mut_ref_current(m) == *old(t) && mut_ref_future(m) == *t && #[trigger] s0.function.post(m, r));
            let m = choose|m: &mut T|
                mut_ref_current(m) == *old(t) && mut_ref_future(m) == *t && #[trigger] s0.function.post(m, r);
            assert(MutCallMut1::<T, R>::post(&s0, m, r));
            assert(*t == *final(t));
        }
        r
    }
}

impl<T, R> MutCallOnce1<T, R> for BoxStatefulMutatingFunction<T, R> {
    closed spec fn pre(&self, t: T) -> bool {
        self.accepts(t)
    }

    closed spec fn post(&self, m: &mut T, r: R) -> bool {
        self.produces(m, r)
    }

    fn call_once(self: Box<Self>, t: &mut T) -> (r: R) {
        let mut c = *self;
        let ghost s0 = c;
        let r = c.call_mut(t);
        proof {
            assert(exists|m: &mut T|
                mut_ref_current(m) == *old(t) && mut_ref_future(m) == *t && #[trigger] MutCallMut1::<T, R>::post(&s0, m, r));
            let m = choose|m: &mut T|
                mut_ref_current(m) == *old(t) && mut_ref_future(m) == *t && #[trigger] MutCallMut1::<T, R>::post(&s0, m, r);
            assert(MutCallOnce1::<T, R>::post(&*self, m, r));
            assert(*t == *final(t));
        }
        r
    }
}

impl<T, R> StatefulMutatingFunction<T, R> for BoxStatefulMutatingFunction<T, R> {
    open spec fn accepts(&self, t: T) -> bool {
        BoxStatefulMutatingFunction::accepts(self, t)
    }

    open spec fn produces(&self, m: &mut T, r: R) -> bool {
        BoxStatefulMutatingFunction::produces(self, m, r)
    }

    fn apply(&mut self, t: &mut T) -> (r: R)
        ensures
            old(self).part_step(*old(t), old(self).part_calls(), final(self).part_calls()),
            forall|x: T, b: (nat, nat), a: (nat, nat)| #[trigger]
                final(self).part_step(x, b, a) == old(self).part_step(x, b, a),
    {
        let ghost s0 = *self;
        let r = self.function.call_mut(t);
        proof {
            assert(exists|m: &mut T|
                mut_ref_current(m) == *old(t) && mut_ref_future(m) == *t && #[trigger] s0.function.post(m, r));
            let m = choose|m: &mut T|
                mut_ref_current(m) == *old(t) && mut_ref_future(m) == *t && #[trigger] s0.function.post(m, r);
            assert(StatefulMutatingFunction::<T, R>::produces(&s0, m, r));
            assert(*t == *final(t));
        }
        r
    }

    fn into_box(self) -> (res: BoxStatefulMutatingFunction<T, R>)
        where
            Self: Sized + 'static,
            T: 'static,
            R: 'static,
    {
        self
    }

    fn into_rc(self) -> (res: RcStatefulMutatingFunction<T, R>)
        where
            Self: Sized + 'static,
            T: 'static,
            R: 'static,
        ensures
            res.spec_name() == self.spec_name(),
    {
        let name = clone_name(&self.name);
        RcStatefulMutatingFunction::from_call_mut(self, name)
    }

    fn into_arc(self) -> (res: ArcStatefulMutatingFunction<T, R>)
        where
            Self: Sized + Send + Sync + 'static,
            T: 'static,
            R: 'static,
        ensures
            res.spec_name() == self.spec_name(),
    {
        let name = clone_name(&self.name);
        ArcStatefulMutatingFunction::from_call_mut(self, name)
    }

    fn into_once(self) -> (res: BoxMutatingFunctionOnce<T, R>)
        where
            Self: Sized + 'static,
            T: 'static,
            R: 'static,
        ensures
            res.spec_name() == self.spec_name(),
    {
        let name = clone_name(&self.name);
        BoxMutatingFunctionOnce::from_call_once(self, name)
    }

    fn to_box(&self) -> (res: BoxStatefulMutatingFunction<T, R>)
        where
            Self: Clone + 'static,
            T: 'static,
            R: 'static,
    {
        let c = self.clone();
        assert(cloned::<Self>(*self, c));
        c
    }

    fn to_rc(&self) -> (res: RcStatefulMutatingFunction<T, R>)
        where
            Self: Clone + 'static,
            T: 'static,
            R: 'static,
    {
        let c = self.clone();
        let res = RcStatefulMutatingFunction::from_call_mut(c, None);
        assert(cloned::<Self>(*self, c));
        res
    }

    fn to_arc(&self) -> (res: ArcStatefulMutatingFunction<T, R>)
        where
            Self: Clone + Send + Sync + 'static,
            T: 'static,
            R: 'static,
    {
        let c = self.clone();
        let res = ArcStatefulMutatingFunction::from_call_mut(c, None);
        assert(cloned::<Self>(*self, c));
        res
    }

    fn to_once(&self) -> (res: BoxMutatingFunctionOnce<T, R>)
        where
            Self: Clone + 'static,
            T: 'static,
            R: 'static,
    {
        let c = self.clone();
        let res = BoxMutatingFunctionOnce::from_call_once(c, None);
        assert(cloned::<Self>(*self, c));
        res
    }
}

/// A stateful mutating function behind an `Rc` and a lock: shared within
/// one thread; every clone calls the same function and sees the state that
/// the others left.
#[verifier::reject_recursive_types(T)]
#[verifier::reject_recursive_types(R)]
pub struct RcStatefulMutatingFunction<T, R> {
    function: Rc<LockedMutCallMut1<T, R>>,
    name: Option<String>,
}

impl<T, R> RcStatefulMutatingFunction<T, R> {
    pub closed spec fn accepts(&self, t: T) -> bool {
        self.function.pre(t)
    }

    pub closed spec fn produces(&self, m: &mut T, r: R) -> bool {
        self.function.post(m, r)
    }

    pub closed spec fn spec_name(&self) -> Option<Seq<char>> {
        name_view(self.name)
    }

    pub(crate) fn from_call_mut<C: MutCallMut1<T, R> + 'static>(c: C, name: Option<String>) -> (res: Self)
        ensures
            forall|t: T| #[trigger] res.accepts(t) == c.pre(t),
            forall|m: &mut T, r: R| #[trigger] res.produces(m, r) == c.post(m, r),
            res.spec_name() == name_view(name),
    {
        RcStatefulMutatingFunction { function: Rc::new(LockedMutCallMut1::new(c)), name }
    }

    /// Wraps the closure `f`.
    pub fn new<F>(f: F) -> (res: Self)
        where
            F: FnMut(&mut T) -> R + 'static,
        ensures
            forall|t: T| #[trigger]
                res.accepts(t) == (forall|m: &mut T| mut_ref_current(m) == t ==> #[trigger] call_requires(f, (m,))),
            forall|m: &mut T, r: R| #[trigger] res.produces(m, r) == call_ensures(f, (m,), r),
            res.spec_name() is None,
    {
        Self::from_call_mut(f, None)
    }

    /// Wraps the closure `f` under the name `name`.
    pub fn new_with_name<F>(name: &str, f: F) -> (res: Self)
        where
            F: FnMut(&mut T) -> R + 'static,
        ensures
            forall|t: T| #[trigger]
                res.accepts(t) == (forall|m: &mut T| mut_ref_current(m) == t ==> #[trigger] call_requires(f, (m,))),
            forall|m: &mut T, r: R| #[trigger] res.produces(m, r) == call_ensures(f, (m,), r),
            res.spec_name() == Some(name@),
    {
        Self::from_call_mut(f, owned_name(name))
    }

    /// Wraps the closure `f` under the name `name`, if there is one.
    pub fn new_with_optional_name<F>(f: F, name: Option<String>) -> (res: Self)
        where
            F: FnMut(&mut T) -> R + 'static,
        ensures
            forall|t: T| #[trigger]
                res.accepts(t) == (forall|m: &mut T| mut_ref_current(m) == t ==> #[trigger] call_requires(f, (m,))),
            forall|m: &mut T, r: R| #[trigger] res.produces(m, r) == call_ensures(f, (m,), r),
            res.spec_name() == name_view(name),
    {
        Self::from_call_mut(f, name)
    }

    /// The name of this function, if it has one.
    pub fn name(&self) -> (res: Option<&str>)
        ensures
            match res {
                Some(s) => self.spec_name() == Some(s@),
                None => self.spec_name() is None,
            },
    {
        name_str(&self.name)
    }

    /// Gives this function the name `name`; its behaviour stays the same.
    pub fn set_name(&mut self, name: &str)
        ensures
            final(self).spec_name() == Some(name@),
            forall|t: T| #[trigger] final(self).accepts(t) == old(self).accepts(t),
            forall|m: &mut T, r: R| #[trigger] final(self).produces(m, r) == old(self).produces(m, r),
    {
        self.name = owned_name(name);
    }

    /// Restricts a clone of this function to the values on which `predicate` holds before the
    /// call; [`RcConditionalStatefulMutatingFunction::or_else`] then supplies the other branch.
    pub fn when<P>(&self, predicate: P) -> (res: RcConditionalStatefulMutatingFunction<T, R>)
        where
            P: Predicate<T> + 'static,
            T: 'static,
        ensures
            res.function() == *self,
            forall|t: T| predicate.accepts(t) ==> #[trigger] res.predicate().accepts(t),
            forall|t: T, b: bool| #[trigger] res.predicate().produces(t, b) ==> predicate.produces(t, b),
    {
        RcConditionalStatefulMutatingFunction { function: self.duplicate(), predicate: predicate.into_rc() }
    }

    /// A clone of this function followed by `after` on its result.
    pub fn and_then<S, F>(&self, after: F) -> (res: RcStatefulMutatingFunction<T, S>)
        where
            T: 'static,
            R: 'static,
            S: 'static,
            F: Function<R, S> + 'static,
        ensures
            forall|t: T| #[trigger] res.accepts(t) == then_accepts(*self, after, t),
            forall|m: &mut T, s: S| #[trigger] res.produces(m, s) == then_produces(*self, after, m, s),
            res.spec_name() is None,
    {
        RcStatefulMutatingFunction::from_call_mut(Then { first: CountedMut::new(self.duplicate()), after }, None)
    }

    /// This function as a plain closure.
    pub fn into_fn(self) -> (res: impl FnMut(&mut T) -> R)
        ensures
            forall|t: T| self.accepts(t) ==> res.accepts(t),
            forall|m: &mut T, r: R| #[trigger]
                call_ensures(res, (m,), r) ==> exists|m2: &mut T|
                    #![trigger self.produces(m2, r)]
                    mut_ref_current(m2) == mut_ref_current(m) && mut_ref_future(m2) == mut_ref_future(m)
                        && self.produces(m2, r),
    {
        move |t: &mut T| -> (r: R)
            requires
                self.accepts(*old(t)),
            ensures
                exists|m: &mut T|
                    mut_ref_current(m) == *old(t) && mut_ref_future(m) == *final(t) && #[trigger] self.produces(m, r),
        {
            let r = self.function.call(t);
            proof {
                let m = choose|m: &mut T|
                    mut_ref_current(m) == *old(t) && mut_ref_future(m) == *final(t) && #[trigger] self.function.post(m, r);
                assert(self.produces(m, r));
            }
            r
        }
    }

    /// A clone of this function as a plain closure.
    pub fn to_fn(&self) -> (res: impl FnMut(&mut T) -> R)
        ensures
            forall|t: T| self.accepts(t) ==> res.accepts(t),
            forall|m: &mut T, r: R| #[trigger]
                call_ensures(res, (m,), r) ==> exists|m2: &mut T|
                    #![trigger self.produces(m2, r)]
                    mut_ref_current(m2) == mut_ref_current(m) && mut_ref_future(m2) == mut_ref_future(m)
                        && self.produces(m2, r),
    {
        self.duplicate().into_fn()
    }

    fn duplicate(&self) -> (res: Self)
        ensures
            res == *self,
    {
        RcStatefulMutatingFunction { function: self.function.clone(), name: clone_name(&self.name) }
    }
}

impl<T: Clone + 'static> RcStatefulMutatingFunction<T, T> {
    /// A function that leaves the value as it is and returns a clone of it.
    pub fn identity() -> (res: RcStatefulMutatingFunction<T, T>)
        ensures
            forall|t: T| #[trigger] res.accepts(t),
            forall|m: &mut T, r: T| #[trigger]
                res.produces(m, r) ==> cloned::<T>(mut_ref_current(m), r) && mut_ref_future(m) == mut_ref_current(m),
            res.spec_name() is None,
    {
        let f = |t: &mut T| -> (r: T)
            ensures
                cloned::<T>(*old(t), r),
                *final(t) == *old(t),
        {
            (*t).clone()
        };
        RcStatefulMutatingFunction::new(f)
    }
}

impl<T, R> Clone for RcStatefulMutatingFunction<T, R> {
    fn clone(&self) -> (res: Self)
        ensures
            res == *self,
    {
        self.duplicate()
    }
}

impl<T, R> MutCallMut1<T, R> for RcStatefulMutatingFunction<T, R> {
    closed spec fn pre(&self, t: T) -> bool {
        self.accepts(t)
    }

    closed spec fn post(&self, m: &mut T, r: R) -> bool {
        self.produces(m, r)
    }

    fn call_mut(&mut self, t: &mut T) -> (r: R) {
        let ghost s0 = *self;
        let r = self.function.call(t);
        proof {
            assert(exists|m: &mut T|
                mut_ref_current(m) == *old(t) && mut_ref_future(m) == *t && #[trigger] s0.function.post(m, r));
            let m = choose|m: &mut T|
                mut_ref_current(m) == *old(t) && mut_ref_future(m) == *t && #[trigger] s0.function.post(m, r);
            assert(MutCallMut1::<T, R>::post(&s0, m, r));
            assert(*t == *final(t));
        }
        r
    }
}

impl<T, R> MutCallOnce1<T, R> for RcStatefulMutatingFunction<T, R> {
    closed spec fn pre(&self, t: T) -> bool {
        self.accepts(t)
    }

    closed spec fn post(&self, m: &mut T, r: R) -> bool {
        self.produces(m, r)
    }

    fn call_once(self: Box<Self>, t: &mut T) -> (r: R) {
        let mut c = *self;
        let ghost s0 = c;
        let r = c.call_mut(t);
        proof {
            assert(exists|m: &mut T|
                mut_ref_current(m) == *old(t) && mut_ref_future(m) == *t && #[trigger] MutCallMut1::<T, R>::post(&s0, m, r));
            let m = choose|m: &mut T|
                mut_ref_current(m) == *old(t) && mut_ref_future(m) == *t && #[trigger] MutCallMut1::<T, R>::post(&s0, m, r);
            assert(MutCallOnce1::<T, R>::post(&*self, m, r));
            assert(*t == *final(t));
        }
        r
    }
}

impl<T, R> StatefulMutatingFunction<T, R> for RcStatefulMutatingFunction<T, R> {
    open spec fn accepts(&self, t: T) -> bool {
        RcStatefulMutatingFunction::accepts(self, t)
    }

    open spec fn produces(&self, m: &mut T, r: R) -> bool {
        RcStatefulMutatingFunction::produces(self, m, r)
    }

    fn apply(&mut self, t: &mut T) -> (r: R)
        ensures
            *final(self) == *old(self),
    {
        let ghost s0 = *self;
        let r = self.function.call(t);
        proof {
            assert(exists|m: &mut T|
                mut_ref_current(m) == *old(t) && mut_ref_future(m) == *t && #[trigger] s0.function.post(m, r));
            let m = choose|m: &mut T|
                mut_ref_current(m) == *old(t) && mut_ref_future(m) == *t && #[trigger] s0.function.post(m, r);
            assert(StatefulMutatingFunction::<T, R>::produces(&s0, m, r));
            assert(*t == *final(t));
        }
        r
    }

    fn into_box(self) -> (res: BoxStatefulMutatingFunction<T, R>)
        where
            Self: Sized + 'static,
            T: 'static,
            R: 'static,
        ensures
            res.spec_name() == self.spec_name(),
    {
        let name = clone_name(&self.name);
        BoxStatefulMutatingFunction::from_call_mut(self, name)
    }

    fn into_rc(self) -> (res: RcStatefulMutatingFunction<T, R>)
        where
            Self: Sized + 'static,
            T: 'static,
            R: 'static,
    {
        self
    }

    fn into_arc(self) -> (res: ArcStatefulMutatingFunction<T, R>)
        where
            Self: Sized + Send + Sync + 'static,
            T: 'static,
            R: 'static,
        ensures
            res.spec_name() == self.spec_name(),
    {
        let name = clone_name(&self.name);
        ArcStatefulMutatingFunction::from_call_mut(self, name)
    }

    fn into_once(self) -> (res: BoxMutatingFunctionOnce<T, R>)
        where
            Self: Sized + 'static,
            T: 'static,
            R: 'static,
        ensures
            res.spec_name() == self.spec_name(),
    {
        let name = clone_name(&self.name);
        BoxMutatingFunctionOnce::from_call_once(self, name)
    }

    fn to_box(&self) -> (res: BoxStatefulMutatingFunction<T, R>)
        where
            Self: Clone + 'static,
            T: 'static,
            R: 'static,
    {
        let res = BoxStatefulMutatingFunction::from_call_mut(self.duplicate(), clone_name(&self.name));
        assert(cloned::<Self>(*self, *self));
        res
    }

    fn to_rc(&self) -> (res: RcStatefulMutatingFunction<T, R>)
        where
            Self: Clone + 'static,
            T: 'static,
            R: 'static,
        ensures
            res == *self,
    {
        let res = self.duplicate();
        assert(cloned::<Self>(*self, *self));
        res
    }

    fn to_arc(&self) -> (res: ArcStatefulMutatingFunction<T, R>)
        where
            Self: Clone + Send + Sync + 'static,
            T: 'static,
            R: 'static,
    {
        let res = ArcStatefulMutatingFunction::from_call_mut(self.duplicate(), clone_name(&self.name));
        assert(cloned::<Self>(*self, *self));
        res
    }

    fn to_once(&self) -> (res: BoxMutatingFunctionOnce<T, R>)
        where
            Self: Clone + 'static,
            T: 'static,
            R: 'static,
    {
        let res = BoxMutatingFunctionOnce::from_call_once(self.duplicate(), clone_name(&self.name));
        assert(cloned::<Self>(*self, *self));
        res
    }
}

/// A stateful mutating function behind an `Arc` and a lock: shared between
/// threads; every clone calls the same function and sees the state that the
/// others left.
#[verifier::reject_recursive_types(T)]
#[verifier::reject_recursive_types(R)]
pub struct ArcStatefulMutatingFunction<T, R> {
    function: Arc<LockedSyncMutCallMut1<T, R>>,
    name: Option<String>,
}

impl<T, R> ArcStatefulMutatingFunction<T, R> {
    pub closed spec fn accepts(&self, t: T) -> bool {
        self.function.pre(t)
    }

    pub closed spec fn produces(&self, m: &mut T, r: R) -> bool {
        self.function.post(m, r)
    }

    pub closed spec fn spec_name(&self) -> Option<Seq<char>> {
        name_view(self.name)
    }

    pub(crate) fn from_call_mut<C: MutCallMut1<T, R> + Send + Sync + 'static>(c: C, name: Option<String>) -> (res: Self)
        ensures
            forall|t: T| #[trigger] res.accepts(t) == c.pre(t),
            forall|m: &mut T, r: R| #[trigger] res.produces(m, r) == c.post(m, r),
            res.spec_name() == name_view(name),
    {
        ArcStatefulMutatingFunction { function: Arc::new(LockedSyncMutCallMut1::new(c)), name }
    }

    /// Wraps the closure `f`.
    pub fn new<F>(f: F) -> (res: Self)
        where
            F: FnMut(&mut T) -> R + Send + Sync + 'static,
        ensures
            forall|t: T| #[trigger]
                res.accepts(t) == (forall|m: &mut T| mut_ref_current(m) == t ==> #[trigger] call_requires(f, (m,))),
            forall|m: &mut T, r: R| #[trigger] res.produces(m, r) == call_ensures(f, (m,), r),
            res.spec_name() is None,
    {
        Self::from_call_mut(f, None)
    }

    /// Wraps the closure `f` under the name `name`.
    pub fn new_with_name<F>(name: &str, f: F) -> (res: Self)
        where
            F: FnMut(&mut T) -> R + Send + Sync + 'static,
        ensures
            forall|t: T| #[trigger]
                res.accepts(t) == (forall|m: &mut T| mut_ref_current(m) == t ==> #[trigger] call_requires(f, (m,))),
            forall|m: &mut T, r: R| #[trigger] res.produces(m, r) == call_ensures(f, (m,), r),
            res.spec_name() == Some(name@),
    {
        Self::from_call_mut(f, owned_name(name))
    }

    /// Wraps the closure `f` under the name `name`, if there is one.
    pub fn new_with_optional_name<F>(f: F, name: Option<String>) -> (res: Self)
        where
            F: FnMut(&mut T) -> R + Send + Sync + 'static,
        ensures
            forall|t: T| #[trigger]
                res.accepts(t) == (forall|m: &mut T| mut_ref_current(m) == t ==> #[trigger] call_requires(f, (m,))),
            forall|m: &mut T, r: R| #[trigger] res.produces(m, r) == call_ensures(f, (m,), r),
            res.spec_name() == name_view(name),
    {
        Self::from_call_mut(f, name)
    }

    /// The name of this function, if it has one.
    pub fn name(&self) -> (res: Option<&str>)
        ensures
            match res {
                Some(s) => self.spec_name() == Some(s@),
                None => self.spec_name() is None,
            },
    {
        name_str(&self.name)
    }

    /// Gives this function the name `name`; its behaviour stays the same.
    pub fn set_name(&mut self, name: &str)
        ensures
            final(self).spec_name() == Some(name@),
            forall|t: T| #[trigger] final(self).accepts(t) == old(self).accepts(t),
            forall|m: &mut T, r: R| #[trigger] final(self).produces(m, r) == old(self).produces(m, r),
    {
        self.name = owned_name(name);
    }

    /// Restricts a clone of this function to the values on which `predicate` holds before the
    /// call; [`ArcConditionalStatefulMutatingFunction::or_else`] then supplies the other branch.
    pub fn when<P>(&self, predicate: P) -> (res: ArcConditionalStatefulMutatingFunction<T, R>)
        where
            P: Predicate<T> + Send + Sync + 'static,
            T: 'static,
        ensures
            res.function() == *self,
            forall|t: T| predicate.accepts(t) ==> #[trigger] res.predicate().accepts(t),
            forall|t: T, b: bool| #[trigger] res.predicate().produces(t, b) ==> predicate.produces(t, b),
    {
        ArcConditionalStatefulMutatingFunction { function: self.duplicate(), predicate: predicate.into_arc() }
    }

    /// A clone of this function followed by `after` on its result.
    pub fn and_then<S, F>(&self, after: F) -> (res: ArcStatefulMutatingFunction<T, S>)
        where
            T: 'static,
            R: 'static,
            S: 'static,
            F: Function<R, S> + Send + Sync + 'static,
        ensures
            forall|t: T| #[trigger] res.accepts(t) == then_accepts(*self, after, t),
            forall|m: &mut T, s: S| #[trigger] res.produces(m, s) == then_produces(*self, after, m, s),
            res.spec_name() is None,
    {
        ArcStatefulMutatingFunction::from_call_mut(Then { first: CountedMut::new(self.duplicate()), after }, None)
    }

    /// This function as a plain closure.
    pub fn into_fn(self) -> (res: impl FnMut(&mut T) -> R)
        ensures
            forall|t: T| self.accepts(t) ==> res.accepts(t),
            forall|m: &mut T, r: R| #[trigger]
                call_ensures(res, (m,), r) ==> exists|m2: &mut T|
                    #![trigger self.produces(m2, r)]
                    mut_ref_current(m2) == mut_ref_current(m) && mut_ref_future(m2) == mut_ref_future(m)
                        && self.produces(m2, r),
    {
        move |t: &mut T| -> (r: R)
            requires
                self.accepts(*old(t)),
            ensures
                exists|m: &mut T|
                    mut_ref_current(m) == *old(t) && mut_ref_future(m) == *final(t) && #[trigger] self.produces(m, r),
        {
            let r = self.function.call(t);
            proof {
                let m = choose|m: &mut T|
                    mut_ref_current(m) == *old(t) && mut_ref_future(m) == *final(t) && #[trigger] self.function.post(m, r);
                assert(self.produces(m, r));
            }
            r
        }
    }

    /// A clone of this function as a plain closure.
    pub fn to_fn(&self) -> (res: impl FnMut(&mut T) -> R)
        ensures
            forall|t: T| self.accepts(t) ==> res.accepts(t),
            forall|m: &mut T, r: R| #[trigger]
                call_ensures(res, (m,), r) ==> exists|m2: &mut T|
                    #![trigger self.produces(m2, r)]
                    mut_ref_current(m2) == mut_ref_current(m) && mut_ref_future(m2) == mut_ref_future(m)
                        && self.produces(m2, r),
    {
        self.duplicate().into_fn()
    }

    fn duplicate(&self) -> (res: Self)
        ensures
            res == *self,
    {
        ArcStatefulMutatingFunction { function: self.function.clone(), name: clone_name(&self.name) }
    }
}

impl<T: Clone + Send + Sync + 'static> ArcStatefulMutatingFunction<T, T> {
    /// A function that leaves the value as it is and returns a clone of it.
    pub fn identity() -> (res: ArcStatefulMutatingFunction<T, T>)
        ensures
            forall|t: T| #[trigger] res.accepts(t),
            forall|m: &mut T, r: T| #[trigger]
                res.produces(m, r) ==> cloned::<T>(mut_ref_current(m), r) && mut_ref_future(m) == mut_ref_current(m),
            res.spec_name() is None,
    {
        let f = |t: &mut T| -> (r: T)
            ensures
                cloned::<T>(*old(t), r),
                *final(t) == *old(t),
        {
            (*t).clone()
        };
        ArcStatefulMutatingFunction::new(f)
    }
}

impl<T, R> Clone for ArcStatefulMutatingFunction<T, R> {
    fn clone(&self) -> (res: Self)
        ensures
            res == *self,
    {
        self.duplicate()
    }
}

impl<T, R> MutCallMut1<T, R> for ArcStatefulMutatingFunction<T, R> {
    closed spec fn pre(&self, t: T) -> bool {
        self.accepts(t)
    }

    closed spec fn post(&self, m: &mut T, r: R) -> bool {
        self.produces(m, r)
    }

    fn call_mut(&mut self, t: &mut T) -> (r: R) {
        let ghost s0 = *self;
        let r = self.function.call(t);
        proof {
            assert(exists|m: &mut T|
                mut_ref_current(m) == *old(t) && mut_ref_future(m) == *t && #[trigger] s0.function.post(m, r));
            let m = choose|m: &mut T|
                mut_ref_current(m) == *old(t) && mut_ref_future(m) == *t && #[trigger] s0.function.post(m, r);
            assert(MutCallMut1::<T, R>::post(&s0, m, r));
            assert(*t == *final(t));
        }
        r
    }
}

impl<T, R> MutCallOnce1<T, R> for ArcStatefulMutatingFunction<T, R> {
    closed spec fn pre(&self, t: T) -> bool {
        self.accepts(t)
    }

    closed spec fn post(&self, m: &mut T, r: R) -> bool {
        self.produces(m, r)
    }

    fn call_once(self: Box<Self>, t: &mut T) -> (r: R) {
        let mut c = *self;
        let ghost s0 = c;
        let r = c.call_mut(t);
        proof {
            assert(exists|m: &mut T|
                mut_ref_current(m) == *old(t) && mut_ref_future(m) == *t && #[trigger] MutCallMut1::<T, R>::post(&s0, m, r));
            let m = choose|m: &mut T|
                mut_ref_current(m) == *old(t) && mut_ref_future(m) == *t && #[trigger] MutCallMut1::<T, R>::post(&s0, m, r);
            assert(MutCallOnce1::<T, R>::post(&*self, m, r));
            assert(*t == *final(t));
        }
        r
    }
}

impl<T, R> StatefulMutatingFunction<T, R> for ArcStatefulMutatingFunction<T, R> {
    open spec fn accepts(&self, t: T) -> bool {
        ArcStatefulMutatingFunction::accepts(self, t)
    }

    open spec fn produces(&self, m: &mut T, r: R) -> bool {
        ArcStatefulMutatingFunction::produces(self, m, r)
    }

    fn apply(&mut self, t: &mut T) -> (r: R)
        ensures
            *final(self) == *old(self),
    {
        let ghost s0 = *self;
        let r = self.function.call(t);
        proof {
            assert(exists|m: &mut T|
                mut_ref_current(m) == *old(t) && mut_ref_future(m) == *t && #[trigger] s0.function.post(m, r));
            let m = choose|m: &mut T|
                mut_ref_current(m) == *old(t) && mut_ref_future(m) == *t && #[trigger] s0.function.post(m, r);
            assert(StatefulMutatingFunction::<T, R>::produces(&s0, m, r));
            assert(*t == *final(t));
        }
        r
    }

    fn into_box(self) -> (res: BoxStatefulMutatingFunction<T, R>)
        where
            Self: Sized + 'static,
            T: 'static,
            R: 'static,
        ensures
            res.spec_name() == self.spec_name(),
    {
        let name = clone_name(&self.name);
        BoxStatefulMutatingFunction::from_call_mut(self, name)
    }

    fn into_rc(self) -> (res: RcStatefulMutatingFunction<T, R>)
        where
            Self: Sized + 'static,
            T: 'static,
            R: 'static,
        ensures
            res.spec_name() == self.spec_name(),
    {
        let name = clone_name(&self.name);
        RcStatefulMutatingFunction::from_call_mut(self, name)
    }

    fn into_arc(self) -> (res: ArcStatefulMutatingFunction<T, R>)
        where
            Self: Sized + Send + Sync + 'static,
            T: 'static,
            R: 'static,
    {
        self
    }

    fn into_once(self) -> (res: BoxMutatingFunctionOnce<T, R>)
        where
            Self: Sized + 'static,
            T: 'static,
            R: 'static,
        ensures
            res.spec_name() == self.spec_name(),
    {
        let name = clone_name(&self.name);
        BoxMutatingFunctionOnce::from_call_once(self, name)
    }

    fn to_box(&self) -> (res: BoxStatefulMutatingFunction<T, R>)
        where
            Self: Clone + 'static,
            T: 'static,
            R: 'static,
    {
        let res = BoxStatefulMutatingFunction::from_call_mut(self.duplicate(), clone_name(&self.name));
        assert(cloned::<Self>(*self, *self));
        res
    }

    fn to_rc(&self) -> (res: RcStatefulMutatingFunction<T, R>)
        where
            Self: Clone + 'static,
            T: 'static,
            R: 'static,
    {
        let res = RcStatefulMutatingFunction::from_call_mut(self.duplicate(), clone_name(&self.name));
        assert(cloned::<Self>(*self, *self));
        res
    }

    fn to_arc(&self) -> (res: ArcStatefulMutatingFunction<T, R>)
        where
            Self: Clone + Send + Sync + 'static,
            T: 'static,
            R: 'static,
        ensures
            res == *self,
    {
        let res = self.duplicate();
        assert(cloned::<Self>(*self, *self));
        res
    }

    fn to_once(&self) -> (res: BoxMutatingFunctionOnce<T, R>)
        where
            Self: Clone + 'static,
            T: 'static,
            R: 'static,
    {
        let res = BoxMutatingFunctionOnce::from_call_once(self.duplicate(), clone_name(&self.name));
        assert(cloned::<Self>(*self, *self));
        res
    }
}

/// A [`BoxStatefulMutatingFunction`] restricted by a predicate on the value it is given, waiting
/// for the branch that [`BoxConditionalStatefulMutatingFunction::or_else`] supplies.
#[verifier::reject_recursive_types(T)]
#[verifier::reject_recursive_types(R)]
pub struct BoxConditionalStatefulMutatingFunction<T, R> {
    function: BoxStatefulMutatingFunction<T, R>,
    predicate: BoxPredicate<T>,
}

impl<T: 'static, R: 'static> BoxConditionalStatefulMutatingFunction<T, R> {
    pub closed spec fn function(&self) -> BoxStatefulMutatingFunction<T, R> {
        self.function
    }

    pub closed spec fn predicate(&self) -> BoxPredicate<T> {
        self.predicate
    }

    /// The function that applies the guarded function where the predicate
    /// holds of the value before the call, and `else_function` elsewhere.
    pub fn or_else<F>(self, else_function: F) -> (res: BoxStatefulMutatingFunction<T, R>)
        where
            F: StatefulMutatingFunction<T, R> + 'static,
        ensures
            forall|t: T| #[trigger] res.accepts(t) == choice_accepts(self.predicate(), self.function(), else_function, t),
            forall|m: &mut T, r: R| #[trigger] res.produces(m, r) == choice_produces(self.predicate(), self.function(), else_function, m, r),
            res.part_calls() == (0nat, 0nat),
            forall|t: T, b: (nat, nat), a: (nat, nat)| #[trigger]
                res.part_step(t, b, a) == choice_step(self.predicate().produces(t, true), self.predicate().produces(t, false), b, a),
            res.spec_name() is None,
    {
        BoxStatefulMutatingFunction::from_call_mut(
            Choose {
                predicate: self.predicate,
                on_true: CountedMut::new(self.function),
                on_false: CountedMut::new(else_function),
            },
            None,
        )
    }
}

/// A [`RcStatefulMutatingFunction`] restricted by a predicate on the value it is given, waiting
/// for the branch that [`RcConditionalStatefulMutatingFunction::or_else`] supplies.
#[verifier::reject_recursive_types(T)]
#[verifier::reject_recursive_types(R)]
pub struct RcConditionalStatefulMutatingFunction<T, R> {
    function: RcStatefulMutatingFunction<T, R>,
    predicate: RcPredicate<T>,
}

impl<T: 'static, R: 'static> RcConditionalStatefulMutatingFunction<T, R> {
    pub closed spec fn function(&self) -> RcStatefulMutatingFunction<T, R> {
        self.function
    }

    pub closed spec fn predicate(&self) -> RcPredicate<T> {
        self.predicate
    }

    /// The function that applies the guarded function where the predicate
    /// holds of the value before the call, and `else_function` elsewhere.
    pub fn or_else<F>(&self, else_function: F) -> (res: RcStatefulMutatingFunction<T, R>)
        where
            F: StatefulMutatingFunction<T, R> + 'static,
        ensures
            forall|t: T| #[trigger] res.accepts(t) == choice_accepts(self.predicate(), self.function(), else_function, t),
            forall|m: &mut T, r: R| #[trigger] res.produces(m, r) == choice_produces(self.predicate(), self.function(), else_function, m, r),
            res.spec_name() is None,
    {
        RcStatefulMutatingFunction::from_call_mut(
            Choose {
                predicate: self.predicate.clone(),
                on_true: CountedMut::new(self.function.clone()),
                on_false: CountedMut::new(else_function),
            },
            None,
        )
    }
}

impl<T, R> Clone for RcConditionalStatefulMutatingFunction<T, R> {
    fn clone(&self) -> (res: Self)
        ensures
            res == *self,
    {
        RcConditionalStatefulMutatingFunction { function: self.function.clone(), predicate: self.predicate.clone() }
    }
}

/// A [`ArcStatefulMutatingFunction`] restricted by a predicate on the value it is given, waiting
/// for the branch that [`ArcConditionalStatefulMutatingFunction::or_else`] supplies.
#[verifier::reject_recursive_types(T)]
#[verifier::reject_recursive_types(R)]
pub struct ArcConditionalStatefulMutatingFunction<T, R> {
    function: ArcStatefulMutatingFunction<T, R>,
    predicate: ArcPredicate<T>,
}

impl<T: 'static, R: 'static> ArcConditionalStatefulMutatingFunction<T, R> {
    pub closed spec fn function(&self) -> ArcStatefulMutatingFunction<T, R> {
        self.function
    }

    pub closed spec fn predicate(&self) -> ArcPredicate<T> {
        self.predicate
    }

    /// The function that applies the guarded function where the predicate
    /// holds of the value before the call, and `else_function` elsewhere.
    pub fn or_else<F>(&self, else_function: F) -> (res: ArcStatefulMutatingFunction<T, R>)
        where
            F: StatefulMutatingFunction<T, R> + Send + Sync + 'static,
        ensures
            forall|t: T| #[trigger] res.accepts(t) == choice_accepts(self.predicate(), self.function(), else_function, t),
            forall|m: &mut T, r: R| #[trigger] res.produces(m, r) == choice_produces(self.predicate(), self.function(), else_function, m, r),
            res.spec_name() is None,
    {
        ArcStatefulMutatingFunction::from_call_mut(
            Choose {
                predicate: self.predicate.clone(),
                on_true: CountedMut::new(self.function.clone()),
                on_false: CountedMut::new(else_function),
            },
            None,
        )
    }
}

impl<T, R> Clone for ArcConditionalStatefulMutatingFunction<T, R> {
    fn clone(&self) -> (res: Self)
        ensures
            res == *self,
    {
        ArcConditionalStatefulMutatingFunction { function: self.function.clone(), predicate: self.predicate.clone() }
    }
}

/// Composition and guarding for plain closures.
pub trait FnStatefulMutatingFunctionOps<T, R>: FnMut(&mut T) -> R + Sized {
    /// This closure followed by `after` on its result.
    fn and_then<S, F>(self, after: F) -> (res: BoxStatefulMutatingFunction<T, S>)
        where
            Self: 'static,
            S: 'static,
            F: Function<R, S> + 'static,
            T: 'static,
            R: 'static,
        ensures
            forall|t: T| #[trigger] res.accepts(t) == then_accepts(self, after, t),
            forall|m: &mut T, s: S| #[trigger] res.produces(m, s) == then_produces(self, after, m, s),
    {
        let first = BoxStatefulMutatingFunction::new(self);
        let res = first.and_then(after);
        assert forall|t: T| #[trigger] res.accepts(t) == then_accepts(self, after, t) by {
            assert(forall|m: &mut T, r: R|
                #![trigger StatefulMutatingFunction::produces(&first, m, r)]
                #![trigger StatefulMutatingFunction::produces(&self, m, r)]
                StatefulMutatingFunction::produces(&first, m, r) == StatefulMutatingFunction::produces(&self, m, r));
        }
        assert forall|m: &mut T, s: S| #[trigger] res.produces(m, s) == then_produces(self, after, m, s) by {
            assert(forall|r: R|
                #![trigger StatefulMutatingFunction::produces(&first, m, r)]
                #![trigger StatefulMutatingFunction::produces(&self, m, r)]
                StatefulMutatingFunction::produces(&first, m, r) == StatefulMutatingFunction::produces(&self, m, r));
        }
        res
    }

    /// This closure restricted to the values on which `predicate` holds
    /// before the call.
    fn when<P>(self, predicate: P) -> (res: BoxConditionalStatefulMutatingFunction<T, R>)
        where
            Self: 'static,
            P: Predicate<T> + 'static,
            T: 'static,
            R: 'static,
        ensures
            forall|t: T| #[trigger]
                res.function().accepts(t) == (forall|m: &mut T| mut_ref_current(m) == t ==> #[trigger] call_requires(self, (m,))),
            forall|m: &mut T, r: R| #[trigger] res.function().produces(m, r) == call_ensures(self, (m,), r),
            forall|t: T| predicate.accepts(t) ==> #[trigger] res.predicate().accepts(t),
            forall|t: T, b: bool| #[trigger] res.predicate().produces(t, b) ==> predicate.produces(t, b),
    {
        BoxStatefulMutatingFunction::new(self).when(predicate)
    }
}

impl<T, R, F: FnMut(&mut T) -> R> FnStatefulMutatingFunctionOps<T, R> for F {

}

/// Following a stateful mutating function by two functions on its
/// result is associative: `bf` followed by `g`, and `b` followed by `fg`,
/// accept the same values and may change them in the same ways and give the
/// same results, where `bf` behaves as `b` followed by `f` and `fg` as `f`
/// followed by `g` (as the results of `and_then` do).
pub proof fn law_then_associative<T, M, N, R, B, F, G, BF, FG>(b: B, f: F, g: G, bf: BF, fg: FG, t: T)
    where
        B: StatefulMutatingFunction<T, M>,
        F: Function<M, N>,
        G: Function<N, R>,
        BF: StatefulMutatingFunction<T, N>,
        FG: Function<M, R>,
    requires
        forall|x: T| #[trigger] bf.accepts(x) == then_accepts(b, f, x),
        forall|m: &mut T, k: N| #[trigger] bf.produces(m, k) == then_produces(b, f, m, k),
        forall|k: M| #[trigger] fg.accepts(k) == crate::functions::function::then_accepts(f, g, k),
        forall|k: M, r: R| #[trigger] fg.produces(k, r) == crate::functions::function::then_produces(f, g, k, r),
    ensures
        then_accepts(bf, g, t) == then_accepts(b, fg, t),
        forall|m: &mut T, r: R| #[trigger]
            then_produces(bf, g, m, r) == then_produces(b, fg, m, r),
{
    if then_accepts(bf, g, t) {
        assert forall|m: &mut T, k: M|
            mut_ref_current(m) == t && #[trigger] b.produces(m, k) implies fg.accepts(
            k,
        ) by {
            assert(bf.accepts(t));
            assert forall|j: N| #[trigger] f.produces(k, j) implies g.accepts(j) by {
                assert(bf.produces(m, j));
            }
        }
    }
    if then_accepts(b, fg, t) {
        assert forall|m: &mut T, j: N|
            mut_ref_current(m) == t && #[trigger] bf.produces(m, j) implies g.accepts(
            j,
        ) by {
            let k = choose|k: M| #[trigger] b.produces(m, k) && f.produces(k, j);
            assert(fg.accepts(k));
        }
        assert forall|m: &mut T, k: M|
            mut_ref_current(m) == t && #[trigger] b.produces(m, k) implies f.accepts(
            k,
        ) by {
            assert(fg.accepts(k));
        }
        assert(bf.accepts(t));
    }
    assert forall|m: &mut T, r: R| #[trigger]
        then_produces(bf, g, m, r) == then_produces(b, fg, m, r) by {
        if then_produces(bf, g, m, r) {
            let j = choose|j: N| #[trigger] bf.produces(m, j) && g.produces(j, r);
            let k = choose|k: M| #[trigger] b.produces(m, k) && f.produces(k, j);
            assert(fg.produces(k, r));
        }
        if then_produces(b, fg, m, r) {
            let k = choose|k: M| #[trigger] b.produces(m, k) && fg.produces(k, r);
            let j = choose|j: N| #[trigger] f.produces(k, j) && g.produces(j, r);
            assert(bf.produces(m, j));
        }
    }
}

/// `first` followed by `after`: defined at `t` when `first` is, and `after`
/// is defined at each result that `first` may give for it.
pub open spec fn then_accepts<T, M, S, G: StatefulMutatingFunction<T, M>, F: Function<M, S>>(
    first: G,
    after: F,
    t: T,
) -> bool {
    &&& first.accepts(t)
    &&& forall|m: &mut T, r: M| mut_ref_current(m) == t && #[trigger] first.produces(m, r) ==> after.accepts(r)
}

/// `first` followed by `after`: a call may take `m` as `first` does and give
/// `s` when some result of `first` leads `after` to `s`.
pub open spec fn then_produces<T, M, S, G: StatefulMutatingFunction<T, M>, F: Function<M, S>>(
    first: G,
    after: F,
    m: &mut T,
    s: S,
) -> bool {
    exists|r: M| #[trigger] first.produces(m, r) && after.produces(r, s)
}

/// A choice between two functions by a predicate on the value before the
/// call: defined when the predicate is, and the branch that each possible
/// answer selects is.
pub open spec fn choice_accepts<
    T,
    R,
    P: Predicate<T>,
    G: StatefulMutatingFunction<T, R>,
    E: StatefulMutatingFunction<T, R>,
>(p: P, g: G, e: E, t: T) -> bool {
    &&& p.accepts(t)
    &&& forall|b: bool| #[trigger] p.produces(t, b) ==> if b {
        g.accepts(t)
    } else {
        e.accepts(t)
    }
}

/// A choice between two functions by a predicate on the value before the
/// call: some answer of the predicate selects a branch that may behave so.
pub open spec fn choice_produces<
    T,
    R,
    P: Predicate<T>,
    G: StatefulMutatingFunction<T, R>,
    E: StatefulMutatingFunction<T, R>,
>(p: P, g: G, e: E, m: &mut T, r: R) -> bool {
    exists|b: bool| #[trigger] p.produces(mut_ref_current(m), b) && if b {
        g.produces(m, r)
    } else {
        e.produces(m, r)
    }
}

/// A function followed by a plain function keeps its combined behaviour when
/// the first keeps its own.
proof fn lemma_then_unchanged<T, M, S, G: StatefulMutatingFunction<T, M>, F: Function<M, S>>(g0: G, g1: G, f: F)
    requires
        forall|x: T| #[trigger] g1.accepts(x) == g0.accepts(x),
        forall|x: &mut T, y: M| #[trigger] g1.produces(x, y) == g0.produces(x, y),
    ensures
        forall|t: T| #[trigger] then_accepts(g1, f, t) == then_accepts(g0, f, t),
        forall|m: &mut T, s: S| #[trigger] then_produces(g1, f, m, s) == then_produces(g0, f, m, s),
{
    assert forall|t: T| #[trigger] then_accepts(g1, f, t) == then_accepts(g0, f, t) by {
        if then_accepts(g0, f, t) {
            assert forall|m: &mut T, r: M| mut_ref_current(m) == t && #[trigger] g1.produces(m, r) implies f.accepts(r) by {
                assert(g0.produces(m, r));
            }
        }
        if then_accepts(g1, f, t) {
            assert forall|m: &mut T, r: M| mut_ref_current(m) == t && #[trigger] g0.produces(m, r) implies f.accepts(r) by {
                assert(g1.produces(m, r));
            }
        }
    }
    assert forall|m: &mut T, s: S| #[trigger] then_produces(g1, f, m, s) == then_produces(g0, f, m, s) by {
        if then_produces(g0, f, m, s) {
            let r = choose|r: M| #[trigger] g0.produces(m, r) && f.produces(r, s);
            assert(g1.produces(m, r));
        }
        if then_produces(g1, f, m, s) {
            let r = choose|r: M| #[trigger] g1.produces(m, r) && f.produces(r, s);
            assert(g0.produces(m, r));
        }
    }
}

/// Over any run of calls, a mutating function built by `and_then` applies
/// the mutating function it was built from exactly once per call: after `i`
/// calls it has been applied exactly `i` times, so the value is never changed
/// twice by one call.
///
/// `runs[i + 1]` is the function after its call on a value that held `inputs[i]`, as
/// [`StatefulMutatingFunction::apply`] on a [`BoxStatefulMutatingFunction`] relates them.
pub proof fn law_and_then_applies_function_once_per_call<T, R>(
    runs: Seq<BoxStatefulMutatingFunction<T, R>>,
    inputs: Seq<T>,
)
    requires
        runs.len() == inputs.len() + 1,
        runs[0].part_calls() == (0nat, 0nat),
        forall|t: T, b: (nat, nat), a: (nat, nat)| #[trigger] runs[0].part_step(t, b, a) == (a == (b.0 + 1, b.1)),
        forall|i: int|
            0 <= i < inputs.len() ==> #[trigger] runs[i].part_step(inputs[i], runs[i].part_calls(), runs[i + 1].part_calls()),
        forall|i: int, t: T, b: (nat, nat), a: (nat, nat)|
            0 <= i < inputs.len() ==> #[trigger] runs[i + 1].part_step(t, b, a) == runs[i].part_step(t, b, a),
    ensures
        forall|i: int| 0 <= i < runs.len() ==> #[trigger] runs[i].part_calls() == (i as nat, 0nat),
    decreases inputs.len(),
{
    if inputs.len() > 0 {
        let n = inputs.len() - 1;
        law_and_then_applies_function_once_per_call(runs.take(n + 1), inputs.take(n));
        lemma_step_kept(runs, inputs, n);
        assert(runs[n].part_step(inputs[n], runs[n].part_calls(), runs[n + 1].part_calls()));
        assert(runs.take(n + 1)[n] == runs[n]);
        assert forall|i: int| 0 <= i < runs.len() implies #[trigger] runs[i].part_calls() == (i as nat, 0nat) by {
            if i <= n {
                assert(runs.take(n + 1)[i] == runs[i]);
            }
        }
    }
}

/// Over any run of calls, a mutating function built by `when(..).or_else(..)`
/// applies exactly one branch per call: after `i` calls the two branches
/// have been applied `i` times in all, and each call applied the first
/// branch only if the predicate may hold on the value it was given (`may_hold`), the
/// second only if it may fail on it (`may_fail`).
///
/// `runs[i + 1]` is the function after its call on a value that held `inputs[i]`, as
/// [`StatefulMutatingFunction::apply`] on a [`BoxStatefulMutatingFunction`] relates them.
pub proof fn law_choice_applies_one_branch_per_call<T, R>(
    runs: Seq<BoxStatefulMutatingFunction<T, R>>,
    inputs: Seq<T>,
    may_hold: spec_fn(T) -> bool,
    may_fail: spec_fn(T) -> bool,
)
    requires
        runs.len() == inputs.len() + 1,
        runs[0].part_calls() == (0nat, 0nat),
        forall|t: T, b: (nat, nat), a: (nat, nat)| #[trigger]
            runs[0].part_step(t, b, a) == choice_step(may_hold(t), may_fail(t), b, a),
        forall|i: int|
            0 <= i < inputs.len() ==> #[trigger] runs[i].part_step(inputs[i], runs[i].part_calls(), runs[i + 1].part_calls()),
        forall|i: int, t: T, b: (nat, nat), a: (nat, nat)|
            0 <= i < inputs.len() ==> #[trigger] runs[i + 1].part_step(t, b, a) == runs[i].part_step(t, b, a),
    ensures
        forall|i: int| 0 <= i < runs.len() ==> #[trigger] runs[i].part_calls().0 + runs[i].part_calls().1 == i,
        forall|i: int|
            0 <= i < inputs.len() ==> (#[trigger] runs[i + 1].part_calls().0 > runs[i].part_calls().0 ==> may_hold(
                inputs[i],
            )) && (runs[i + 1].part_calls().1 > runs[i].part_calls().1 ==> may_fail(inputs[i])),
    decreases inputs.len(),
{
    if inputs.len() > 0 {
        let n = inputs.len() - 1;
        law_choice_applies_one_branch_per_call(runs.take(n + 1), inputs.take(n), may_hold, may_fail);
        lemma_step_kept(runs, inputs, n);
        assert(runs[n].part_step(inputs[n], runs[n].part_calls(), runs[n + 1].part_calls()));
        assert(runs.take(n + 1)[n] == runs[n]);
        assert forall|i: int| 0 <= i < runs.len() implies #[trigger] runs[i].part_calls().0 + runs[i].part_calls().1
            == i by {
            if i <= n {
                assert(runs.take(n + 1)[i] == runs[i]);
            }
        }
        assert forall|i: int| 0 <= i < inputs.len() implies (#[trigger] runs[i + 1].part_calls().0
            > runs[i].part_calls().0 ==> may_hold(inputs[i])) && (runs[i + 1].part_calls().1 > runs[i].part_calls().1
            ==> may_fail(inputs[i])) by {
            if i < n {
                assert(runs.take(n + 1)[i] == runs[i]);
                assert(runs.take(n + 1)[i + 1] == runs[i + 1]);
                assert(inputs.take(n)[i] == inputs[i]);
            } else {
                assert(runs[i].part_step(inputs[i], runs[i].part_calls(), runs[i + 1].part_calls()));
            }
        }
    }
}

/// Along a run, every function in it moves its part counts as the first
/// one does.
proof fn lemma_step_kept<T, R>(runs: Seq<BoxStatefulMutatingFunction<T, R>>, inputs: Seq<T>, n: int)
    requires
        runs.len() == inputs.len() + 1,
        0 <= n <= inputs.len(),
        forall|i: int, t: T, b: (nat, nat), a: (nat, nat)|
            0 <= i < inputs.len() ==> #[trigger] runs[i + 1].part_step(t, b, a) == runs[i].part_step(t, b, a),
    ensures
        forall|t: T, b: (nat, nat), a: (nat, nat)| #[trigger] runs[n].part_step(t, b, a) == runs[0].part_step(t, b, a),
    decreases n,
{
    if n > 0 {
        lemma_step_kept(runs, inputs, n - 1);
        assert forall|t: T, b: (nat, nat), a: (nat, nat)| #[trigger] runs[n].part_step(t, b, a) == runs[0].part_step(
            t,
            b,
            a,
        ) by {
            assert(runs[(n - 1) + 1].part_step(t, b, a) == runs[n - 1].part_step(t, b, a));
        }
    }
}

/// Calls `first`, then `after` on its result.
struct Then<G, F> {
    first: CountedMut<G>,
    after: F,
}

impl<T, M, S, F: Function<M, S>> MutCallMut1<T, S> for Then<BoxStatefulMutatingFunction<T, M>, F> {
    closed spec fn pre(&self, t: T) -> bool {
        then_accepts(self.first.inner(), self.after, t)
    }

    closed spec fn post(&self, m: &mut T, s: S) -> bool {
        then_produces(self.first.inner(), self.after, m, s)
    }

    closed spec fn part_calls(&self) -> (nat, nat) {
        (self.first.calls(), 0)
    }

    closed spec fn part_step(&self, t: T, before: (nat, nat), after: (nat, nat)) -> bool {
        after == (before.0 + 1, before.1)
    }

    fn call_mut(&mut self, t: &mut T) -> (s: S) {
        let ghost s0 = *self;
        let r = self.first.apply(t);
        proof {
            assert(exists|m: &mut T|
                mut_ref_current(m) == *old(t) && mut_ref_future(m) == *t
                    && #[trigger] StatefulMutatingFunction::<T, M>::produces(&s0.first.inner(), m, r));
        }
        let ghost m = choose|m: &mut T|
            mut_ref_current(m) == *old(t) && mut_ref_future(m) == *t
                && #[trigger] StatefulMutatingFunction::<T, M>::produces(&s0.first.inner(), m, r);
        let s = self.after.apply(&r);
        proof {
            assert(then_produces(s0.first.inner(), s0.after, m, s));
            assert(MutCallMut1::<T, S>::post(&s0, m, s));
            lemma_then_unchanged(s0.first.inner(), self.first.inner(), self.after);
            assert(*t == *final(t));
        }
        s
    }
}

impl<T, M, S, F: Function<M, S>> MutCallMut1<T, S> for Then<RcStatefulMutatingFunction<T, M>, F> {
    closed spec fn pre(&self, t: T) -> bool {
        then_accepts(self.first.inner(), self.after, t)
    }

    closed spec fn post(&self, m: &mut T, s: S) -> bool {
        then_produces(self.first.inner(), self.after, m, s)
    }

    closed spec fn part_calls(&self) -> (nat, nat) {
        (self.first.calls(), 0)
    }

    closed spec fn part_step(&self, t: T, before: (nat, nat), after: (nat, nat)) -> bool {
        after == (before.0 + 1, before.1)
    }

    fn call_mut(&mut self, t: &mut T) -> (s: S) {
        let ghost s0 = *self;
        let r = self.first.apply(t);
        proof {
            assert(exists|m: &mut T|
                mut_ref_current(m) == *old(t) && mut_ref_future(m) == *t
                    && #[trigger] StatefulMutatingFunction::<T, M>::produces(&s0.first.inner(), m, r));
        }
        let ghost m = choose|m: &mut T|
            mut_ref_current(m) == *old(t) && mut_ref_future(m) == *t
                && #[trigger] StatefulMutatingFunction::<T, M>::produces(&s0.first.inner(), m, r);
        let s = self.after.apply(&r);
        proof {
            assert(then_produces(s0.first.inner(), s0.after, m, s));
            assert(MutCallMut1::<T, S>::post(&s0, m, s));
            lemma_then_unchanged(s0.first.inner(), self.first.inner(), self.after);
            assert(*t == *final(t));
        }
        s
    }
}

impl<T, M, S, F: Function<M, S>> MutCallMut1<T, S> for Then<ArcStatefulMutatingFunction<T, M>, F> {
    closed spec fn pre(&self, t: T) -> bool {
        then_accepts(self.first.inner(), self.after, t)
    }

    closed spec fn post(&self, m: &mut T, s: S) -> bool {
        then_produces(self.first.inner(), self.after, m, s)
    }

    closed spec fn part_calls(&self) -> (nat, nat) {
        (self.first.calls(), 0)
    }

    closed spec fn part_step(&self, t: T, before: (nat, nat), after: (nat, nat)) -> bool {
        after == (before.0 + 1, before.1)
    }

    fn call_mut(&mut self, t: &mut T) -> (s: S) {
        let ghost s0 = *self;
        let r = self.first.apply(t);
        proof {
            assert(exists|m: &mut T|
                mut_ref_current(m) == *old(t) && mut_ref_future(m) == *t
                    && #[trigger] StatefulMutatingFunction::<T, M>::produces(&s0.first.inner(), m, r));
        }
        let ghost m = choose|m: &mut T|
            mut_ref_current(m) == *old(t) && mut_ref_future(m) == *t
                && #[trigger] StatefulMutatingFunction::<T, M>::produces(&s0.first.inner(), m, r);
        let s = self.after.apply(&r);
        proof {
            assert(then_produces(s0.first.inner(), s0.after, m, s));
            assert(MutCallMut1::<T, S>::post(&s0, m, s));
            lemma_then_unchanged(s0.first.inner(), self.first.inner(), self.after);
            assert(*t == *final(t));
        }
        s
    }
}

/// Applies `on_true` or `on_false`, as `predicate` selects.
struct Choose<P, G, E> {
    predicate: P,
    on_true: CountedMut<G>,
    on_false: CountedMut<E>,
}

impl<
    T,
    R,
    P: Predicate<T>,
    G: StatefulMutatingFunction<T, R>,
    E: StatefulMutatingFunction<T, R>,
> MutCallMut1<T, R> for Choose<P, G, E> {
    closed spec fn pre(&self, t: T) -> bool {
        choice_accepts(self.predicate, self.on_true.inner(), self.on_false.inner(), t)
    }

    closed spec fn post(&self, m: &mut T, r: R) -> bool {
        choice_produces(self.predicate, self.on_true.inner(), self.on_false.inner(), m, r)
    }

    closed spec fn part_calls(&self) -> (nat, nat) {
        (self.on_true.calls(), self.on_false.calls())
    }

    closed spec fn part_step(&self, t: T, before: (nat, nat), after: (nat, nat)) -> bool {
        choice_step(self.predicate.produces(t, true), self.predicate.produces(t, false), before, after)
    }

    fn call_mut(&mut self, t: &mut T) -> (r: R) {
        let ghost s0 = *self;
        if self.predicate.test(&*t) {
            let r = self.on_true.apply(t);
            proof {
                assert(exists|m: &mut T|
                    mut_ref_current(m) == *old(t) && mut_ref_future(m) == *t && #[trigger] s0.on_true.inner().produces(m, r));
                let m = choose|m: &mut T|
                    mut_ref_current(m) == *old(t) && mut_ref_future(m) == *t && #[trigger] s0.on_true.inner().produces(m, r);
                assert(MutCallMut1::<T, R>::post(&s0, m, r));
                assert(*t == *final(t));
            }
            r
        } else {
            let r = self.on_false.apply(t);
            proof {
                assert(exists|m: &mut T|
                    mut_ref_current(m) == *old(t) && mut_ref_future(m) == *t && #[trigger] s0.on_false.inner().produces(m, r));
                let m = choose|m: &mut T|
                    mut_ref_current(m) == *old(t) && mut_ref_future(m) == *t && #[trigger] s0.on_false.inner().produces(m, r);
                assert(MutCallMut1::<T, R>::post(&s0, m, r));
                assert(*t == *final(t));
            }
            r
        }
    }
}

} // verus!
