//! Functions that borrow their input and compute a result (`Fn(&T) -> R`),
//! in boxed, `Rc` and `Arc` flavours, with conditional variants.
use std::rc::Rc;
use std::sync::Arc;
use vstd::prelude::*;

use crate::callable::{Call1, CallOnce1, SyncCall1};
use crate::functions::constant::{Constant, Identity};
use crate::functions::function_once::BoxFunctionOnce;
use crate::names::{clone_name, name_str, name_view, owned_name};
use crate::predicates::{ArcPredicate, BoxPredicate, Predicate, RcPredicate};

verus! {

/// A function from `&T` to `R`.
///
/// `accepts(t)` is what a caller must establish before `apply(&t)`;
/// `produces(t, r)` says that `r` is a possible result for `t`.
pub trait Function<T, R> {
    spec fn accepts(&self, t: T) -> bool;

    spec fn produces(&self, t: T, r: R) -> bool;

    fn apply(&self, t: &T) -> (r: R)
        requires
            self.accepts(*t),
        ensures
            self.produces(*t, r),
    ;

    /// Moves this function into a [`BoxFunction`] that calls it.
    fn into_box(self) -> (res: BoxFunction<T, R>)
        where
            Self: Sized + 'static,
            T: 'static,
            R: 'static,
        ensures
            forall|t: T| self.accepts(t) ==> #[trigger] res.accepts(t),
            forall|t: T, r: R| #[trigger] res.produces(t, r) ==> self.produces(t, r),
    {
        let f = move |t: &T| -> (r: R)
            requires
                self.accepts(*t),
            ensures
                self.produces(*t, r),
        {
            self.apply(t)
        };
        BoxFunction::new(f)
    }

    /// Moves this function into an [`RcFunction`] that calls it.
    fn into_rc(self) -> (res: RcFunction<T, R>)
        where
            Self: Sized + 'static,
            T: 'static,
            R: 'static,
        ensures
            forall|t: T| self.accepts(t) ==> #[trigger] res.accepts(t),
            forall|t: T, r: R| #[trigger] res.produces(t, r) ==> self.produces(t, r),
    {
        let f = move |t: &T| -> (r: R)
            requires
                self.accepts(*t),
            ensures
                self.produces(*t, r),
        {
            self.apply(t)
        };
        RcFunction::new(f)
    }

    /// Moves this function into an [`ArcFunction`] that calls it.
    fn into_arc(self) -> (res: ArcFunction<T, R>)
        where
            Self: Sized + Send + Sync + 'static,
            T: 'static,
            R: 'static,
        ensures
            forall|t: T| self.accepts(t) ==> #[trigger] res.accepts(t),
            forall|t: T, r: R| #[trigger] res.produces(t, r) ==> self.produces(t, r),
    {
        let f = move |t: &T| -> (r: R)
            requires
                self.accepts(*t),
            ensures
                self.produces(*t, r),
        {
            self.apply(t)
        };
        ArcFunction::new(f)
    }

    /// Moves this function into a [`BoxFunctionOnce`] that calls it.
    fn into_once(self) -> (res: BoxFunctionOnce<T, R>)
        where
            Self: Sized + 'static,
            T: 'static,
            R: 'static,
        ensures
            forall|t: T| self.accepts(t) ==> #[trigger] res.accepts(t),
            forall|t: T, r: R| #[trigger] res.produces(t, r) ==> self.produces(t, r),
    {
        let f = move |t: &T| -> (r: R)
            requires
                self.accepts(*t),
            ensures
                self.produces(*t, r),
        {
            self.apply(t)
        };
        BoxFunctionOnce::new(f)
    }

    /// A [`BoxFunction`] that calls a clone of this function.
    fn to_box(&self) -> (res: BoxFunction<T, R>)
        where
            Self: Clone + 'static,
            T: 'static,
            R: 'static,
        ensures
            exists|c: Self|
                cloned::<Self>(*self, c) && (forall|t: T| c.accepts(t) ==> #[trigger] res.accepts(t))
                    && (forall|t: T, r: R| #[trigger] res.produces(t, r) ==> c.produces(t, r)),
    {
        let c = self.clone();
        let res = c.into_box();
        assert(cloned::<Self>(*self, c));
        res
    }

    /// An [`RcFunction`] that calls a clone of this function.
    fn to_rc(&self) -> (res: RcFunction<T, R>)
        where
            Self: Clone + 'static,
            T: 'static,
            R: 'static,
        ensures
            exists|c: Self|
                cloned::<Self>(*self, c) && (forall|t: T| c.accepts(t) ==> #[trigger] res.accepts(t))
                    && (forall|t: T, r: R| #[trigger] res.produces(t, r) ==> c.produces(t, r)),
    {
        let c = self.clone();
        let res = c.into_rc();
        assert(cloned::<Self>(*self, c));
        res
    }

    /// An [`ArcFunction`] that calls a clone of this function.
    fn to_arc(&self) -> (res: ArcFunction<T, R>)
        where
            Self: Clone + Send + Sync + 'static,
            T: 'static,
            R: 'static,
        ensures
            exists|c: Self|
                cloned::<Self>(*self, c) && (forall|t: T| c.accepts(t) ==> #[trigger] res.accepts(t))
                    && (forall|t: T, r: R| #[trigger] res.produces(t, r) ==> c.produces(t, r)),
    {
        let c = self.clone();
        let res = c.into_arc();
        assert(cloned::<Self>(*self, c));
        res
    }

    /// A [`BoxFunctionOnce`] that calls a clone of this function.
    fn to_once(&self) -> (res: BoxFunctionOnce<T, R>)
        where
            Self: Clone + 'static,
            T: 'static,
            R: 'static,
        ensures
            exists|c: Self|
                cloned::<Self>(*self, c) && (forall|t: T| c.accepts(t) ==> #[trigger] res.accepts(t))
                    && (forall|t: T, r: R| #[trigger] res.produces(t, r) ==> c.produces(t, r)),
    {
        let c = self.clone();
        let res = c.into_once();
        assert(cloned::<Self>(*self, c));
        res
    }
}

impl<T, R, F: Fn(&T) -> R> Function<T, R> for F {
    open spec fn accepts(&self, t: T) -> bool {
        call_requires(*self, (&t,))
    }

    open spec fn produces(&self, t: T, r: R) -> bool {
        call_ensures(*self, (&t,), r)
    }

    fn apply(&self, t: &T) -> (r: R) {
        (self)(t)
    }
}


/// A function in a box: single ownership.
#[verifier::reject_recursive_types(T)]
#[verifier::reject_recursive_types(R)]
pub struct BoxFunction<T, R> {
    function: Box<dyn Call1<T, R>>,
    name: Option<String>,
}

impl<T, R> BoxFunction<T, R> {
    pub closed spec fn accepts(&self, t: T) -> bool {
        self.function.pre(t)
    }

    pub closed spec fn produces(&self, t: T, r: R) -> bool {
        self.function.post(t, r)
    }

    pub closed spec fn spec_name(&self) -> Option<Seq<char>> {
        name_view(self.name)
    }

    pub(crate) fn from_call<C: Call1<T, R> + 'static>(c: C, name: Option<String>) -> (res: Self)
        ensures
            forall|t: T| #[trigger] res.accepts(t) == c.pre(t),
            forall|t: T, r: R| #[trigger] res.produces(t, r) == c.post(t, r),
            res.spec_name() == name_view(name),
    {
        let function: Box<dyn Call1<T, R>> = Box::new(c);
        assert(forall|t: T| #[trigger] function.pre(t) == c.pre(t));
        assert(forall|t: T, r: R| #[trigger] function.post(t, r) == c.post(t, r));
        BoxFunction { function, name }
    }

    /// Wraps the closure `f`.
    pub fn new<F>(f: F) -> (res: Self)
        where
            F: Fn(&T) -> R + 'static,
        ensures
            forall|t: T| #[trigger] res.accepts(t) == call_requires(f, (&t,)),
            forall|t: T, r: R| #[trigger] res.produces(t, r) == call_ensures(f, (&t,), r),
            res.spec_name() is None,
    {
        Self::from_call(f, None)
    }

    /// Wraps the closure `f` under the name `name`.
    pub fn new_with_name<F>(name: &str, f: F) -> (res: Self)
        where
            F: Fn(&T) -> R + 'static,
        ensures
            forall|t: T| #[trigger] res.accepts(t) == call_requires(f, (&t,)),
            forall|t: T, r: R| #[trigger] res.produces(t, r) == call_ensures(f, (&t,), r),
            res.spec_name() == Some(name@),
    {
        Self::from_call(f, owned_name(name))
    }

    /// Wraps the closure `f` under the name `name`, if there is one.
    pub fn new_with_optional_name<F>(f: F, name: Option<String>) -> (res: Self)
        where
            F: Fn(&T) -> R + 'static,
        ensures
            forall|t: T| #[trigger] res.accepts(t) == call_requires(f, (&t,)),
            forall|t: T, r: R| #[trigger] res.produces(t, r) == call_ensures(f, (&t,), r),
            res.spec_name() == name_view(name),
    {
        Self::from_call(f, name)
    }

    /// The name of this function, if it has one.
    pub fn name(&self) -> (res: Option<&str>)
        ensures
            match res {
                Some(s) => self.spec_name() == Some(s@),
                None => self.spec_name() is None,
            },
    {
        name_str(&self.name)
    }

    /// Gives this function the name `name`; its behaviour stays the same.
    pub fn set_name(&mut self, name: &str)
        ensures
            final(self).spec_name() == Some(name@),
            forall|t: T| #[trigger] final(self).accepts(t) == old(self).accepts(t),
            forall|t: T, r: R| #[trigger] final(self).produces(t, r) == old(self).produces(t, r),
    {
        self.name = owned_name(name);
    }

    /// Restricts this function to the inputs on which `predicate` holds;
    /// [`BoxConditionalFunction::or_else`] then supplies the other branch.
    pub fn when<P>(self, predicate: P) -> (res: BoxConditionalFunction<T, R>)
        where
            P: Predicate<T> + 'static,
            T: 'static,
        ensures
            res.function() == self,
            forall|t: T| predicate.accepts(t) ==> #[trigger] res.predicate().accepts(t),
            forall|t: T, b: bool| #[trigger] res.predicate().produces(t, b) ==> predicate.produces(t, b),
    {
        BoxConditionalFunction { function: self, predicate: predicate.into_box() }
    }

    /// This function followed by `after` on its result.
    pub fn and_then<S, F>(self, after: F) -> (res: BoxFunction<T, S>)
        where
            T: 'static,
            R: 'static,
            S: 'static,
            F: Function<R, S> + 'static,
        ensures
            forall|t: T| #[trigger] res.accepts(t) == then_accepts(self, after, t),
            forall|t: T, s: S| #[trigger] res.produces(t, s) == then_produces(self, after, t, s),
            res.spec_name() is None,
    {
        BoxFunction::from_call(Then { first: self, after }, None)
    }

    /// This function as a plain closure.
    pub fn into_fn(self) -> (res: impl Fn(&T) -> R)
        ensures
            forall|t: T| self.accepts(t) ==> call_requires(res, (&t,)),
            forall|t: T, r: R| call_ensures(res, (&t,), r) ==> self.produces(t, r),
    {
        move |t: &T| -> (r: R)
            requires
                self.accepts(*t),
            ensures
                self.produces(*t, r),
        {
            self.function.call(t)
        }
    }
}

impl<T: 'static, R: Clone + 'static> BoxFunction<T, R> {
    /// A function that returns a clone of `value` for every input.
    pub fn constant(value: R) -> (res: BoxFunction<T, R>)
        ensures
            forall|t: T| #[trigger] res.accepts(t),
            forall|t: T, r: R| #[trigger] res.produces(t, r) == cloned::<R>(value, r),
            res.spec_name() is None,
    {
        BoxFunction::from_call(Constant { value }, None)
    }
}

impl<T: Clone + 'static> BoxFunction<T, T> {
    /// A function that returns a clone of its input.
    pub fn identity() -> (res: BoxFunction<T, T>)
        ensures
            forall|t: T| #[trigger] res.accepts(t),
            forall|t: T, r: T| #[trigger] res.produces(t, r) == cloned::<T>(t, r),
            res.spec_name() is None,
    {
        BoxFunction::from_call(Identity, None)
    }
}

impl<T, R> CallOnce1<T, R> for BoxFunction<T, R> {
    closed spec fn pre(&self, t: T) -> bool {
        self.accepts(t)
    }

    closed spec fn post(&self, t: T, r: R) -> bool {
        self.produces(t, r)
    }

    fn call_once(self: Box<Self>, t: &T) -> (r: R) {
        self.function.call(t)
    }
}

impl<T, R> Function<T, R> for BoxFunction<T, R> {
    open spec fn accepts(&self, t: T) -> bool {
        BoxFunction::accepts(self, t)
    }

    open spec fn produces(&self, t: T, r: R) -> bool {
        BoxFunction::produces(self, t, r)
    }

    fn apply(&self, t: &T) -> (r: R) {
        self.function.call(t)
    }

    fn into_box(self) -> (res: BoxFunction<T, R>)
        where
            Self: Sized + 'static,
            T: 'static,
            R: 'static,
    {
        self
    }

    fn into_rc(self) -> (res: RcFunction<T, R>)
        where
            Self: Sized + 'static,
            T: 'static,
            R: 'static,
        ensures
            forall|t: T| #[trigger] res.accepts(t) == self.accepts(t),
            forall|t: T, r: R| #[trigger] res.produces(t, r) == self.produces(t, r),
            res.spec_name() == self.spec_name(),
    {
        RcFunction { function: Rc::new(self.function), name: self.name }
    }

    fn into_once(self) -> (res: BoxFunctionOnce<T, R>)
        where
            Self: Sized + 'static,
            T: 'static,
            R: 'static,
        ensures
            forall|t: T| #[trigger] res.accepts(t) == self.accepts(t),
            forall|t: T, r: R| #[trigger] res.produces(t, r) == self.produces(t, r),
            res.spec_name() == self.spec_name(),
    {
        let name = clone_name(&self.name);
        BoxFunctionOnce::from_call_once(self, name)
    }
}

/// A function behind an `Rc`: shared, single-threaded.
#[verifier::reject_recursive_types(T)]
#[verifier::reject_recursive_types(R)]
pub struct RcFunction<T, R> {
    function: Rc<Box<dyn Call1<T, R>>>,
    name: Option<String>,
}

impl<T, R> RcFunction<T, R> {
    pub closed spec fn accepts(&self, t: T) -> bool {
        self.function.pre(t)
    }

    pub closed spec fn produces(&self, t: T, r: R) -> bool {
        self.function.post(t, r)
    }

    pub closed spec fn spec_name(&self) -> Option<Seq<char>> {
        name_view(self.name)
    }

    pub(crate) fn from_call<C: Call1<T, R> + 'static>(c: C, name: Option<String>) -> (res: Self)
        ensures
            forall|t: T| #[trigger] res.accepts(t) == c.pre(t),
            forall|t: T, r: R| #[trigger] res.produces(t, r) == c.post(t, r),
            res.spec_name() == name_view(name),
    {
        let function: Box<dyn Call1<T, R>> = Box::new(c);
        assert(forall|t: T| #[trigger] function.pre(t) == c.pre(t));
        assert(forall|t: T, r: R| #[trigger] function.post(t, r) == c.post(t, r));
        RcFunction { function: Rc::new(function), name }
    }

    /// Wraps the closure `f`.
    pub fn new<F>(f: F) -> (res: Self)
        where
            F: Fn(&T) -> R + 'static,
        ensures
            forall|t: T| #[trigger] res.accepts(t) == call_requires(f, (&t,)),
            forall|t: T, r: R| #[trigger] res.produces(t, r) == call_ensures(f, (&t,), r),
            res.spec_name() is None,
    {
        Self::from_call(f, None)
    }

    /// Wraps the closure `f` under the name `name`.
    pub fn new_with_name<F>(name: &str, f: F) -> (res: Self)
        where
            F: Fn(&T) -> R + 'static,
        ensures
            forall|t: T| #[trigger] res.accepts(t) == call_requires(f, (&t,)),
            forall|t: T, r: R| #[trigger] res.produces(t, r) == call_ensures(f, (&t,), r),
            res.spec_name() == Some(name@),
    {
        Self::from_call(f, owned_name(name))
    }

    /// Wraps the closure `f` under the name `name`, if there is one.
    pub fn new_with_optional_name<F>(f: F, name: Option<String>) -> (res: Self)
        where
            F: Fn(&T) -> R + 'static,
        ensures
            forall|t: T| #[trigger] res.accepts(t) == call_requires(f, (&t,)),
            forall|t: T, r: R| #[trigger] res.produces(t, r) == call_ensures(f, (&t,), r),
            res.spec_name() == name_view(name),
    {
        Self::from_call(f, name)
    }

    /// The name of this function, if it has one.
    pub fn name(&self) -> (res: Option<&str>)
        ensures
            match res {
                Some(s) => self.spec_name() == Some(s@),
                None => self.spec_name() is None,
            },
    {
        name_str(&self.name)
    }

    /// Gives this function the name `name`; its behaviour stays the same.
    pub fn set_name(&mut self, name: &str)
        ensures
            final(self).spec_name() == Some(name@),
            forall|t: T| #[trigger] final(self).accepts(t) == old(self).accepts(t),
            forall|t: T, r: R| #[trigger] final(self).produces(t, r) == old(self).produces(t, r),
    {
        self.name = owned_name(name);
    }

    /// Restricts a copy of this function to the inputs on which `predicate`
    /// holds; [`RcConditionalFunction::or_else`] then supplies the other branch.
    pub fn when<P>(&self, predicate: P) -> (res: RcConditionalFunction<T, R>)
        where
            P: Predicate<T> + 'static,
            T: 'static,
        ensures
            res.function() == *self,
            forall|t: T| predicate.accepts(t) ==> #[trigger] res.predicate().accepts(t),
            forall|t: T, b: bool| #[trigger] res.predicate().produces(t, b) ==> predicate.produces(t, b),
    {
        RcConditionalFunction { function: self.clone(), predicate: predicate.into_rc() }
    }

    /// A copy of this function followed by `after` on its result.
    pub fn and_then<S, F>(&self, after: F) -> (res: RcFunction<T, S>)
        where
            T: 'static,
            R: 'static,
            S: 'static,
            F: Function<R, S> + 'static,
        ensures
            forall|t: T| #[trigger] res.accepts(t) == then_accepts(*self, after, t),
            forall|t: T, s: S| #[trigger] res.produces(t, s) == then_produces(*self, after, t, s),
            res.spec_name() is None,
    {
        RcFunction::from_call(Then { first: self.clone(), after }, None)
    }

    /// This function as a plain closure.
    pub fn into_fn(self) -> (res: impl Fn(&T) -> R)
        ensures
            forall|t: T| self.accepts(t) ==> call_requires(res, (&t,)),
            forall|t: T, r: R| call_ensures(res, (&t,), r) ==> self.produces(t, r),
    {
        move |t: &T| -> (r: R)
            requires
                self.accepts(*t),
            ensures
                self.produces(*t, r),
        {
            self.function.call(t)
        }
    }

    /// A closure that calls a clone of this function, which stays usable.
    pub fn to_fn(&self) -> (res: impl Fn(&T) -> R)
        ensures
            forall|t: T| self.accepts(t) ==> call_requires(res, (&t,)),
            forall|t: T, r: R| call_ensures(res, (&t,), r) ==> self.produces(t, r),
    {
        self.duplicate().into_fn()
    }
}

impl<T: 'static, R: Clone + 'static> RcFunction<T, R> {
    /// A function that returns a clone of `value` for every input.
    pub fn constant(value: R) -> (res: RcFunction<T, R>)
        ensures
            forall|t: T| #[trigger] res.accepts(t),
            forall|t: T, r: R| #[trigger] res.produces(t, r) == cloned::<R>(value, r),
            res.spec_name() is None,
    {
        RcFunction::from_call(Constant { value }, None)
    }
}

impl<T: Clone + 'static> RcFunction<T, T> {
    /// A function that returns a clone of its input.
    pub fn identity() -> (res: RcFunction<T, T>)
        ensures
            forall|t: T| #[trigger] res.accepts(t),
            forall|t: T, r: T| #[trigger] res.produces(t, r) == cloned::<T>(t, r),
            res.spec_name() is None,
    {
        RcFunction::from_call(Identity, None)
    }
}

impl<T, R> RcFunction<T, R> {
    fn duplicate(&self) -> (res: Self)
        ensures
            res == *self,
    {
        RcFunction { function: self.function.clone(), name: clone_name(&self.name) }
    }
}

impl<T, R> Clone for RcFunction<T, R> {
    fn clone(&self) -> (res: Self)
        ensures
            res == *self,
    {
        self.duplicate()
    }
}

impl<T, R> Call1<T, R> for RcFunction<T, R> {
    closed spec fn pre(&self, t: T) -> bool {
        self.accepts(t)
    }

    closed spec fn post(&self, t: T, r: R) -> bool {
        self.produces(t, r)
    }

    fn call(&self, t: &T) -> (r: R) {
        self.function.call(t)
    }
}

impl<T, R> CallOnce1<T, R> for RcFunction<T, R> {
    closed spec fn pre(&self, t: T) -> bool {
        self.accepts(t)
    }

    closed spec fn post(&self, t: T, r: R) -> bool {
        self.produces(t, r)
    }

    fn call_once(self: Box<Self>, t: &T) -> (r: R) {
        self.function.call(t)
    }
}

impl<T, R> Function<T, R> for RcFunction<T, R> {
    open spec fn accepts(&self, t: T) -> bool {
        RcFunction::accepts(self, t)
    }

    open spec fn produces(&self, t: T, r: R) -> bool {
        RcFunction::produces(self, t, r)
    }

    fn apply(&self, t: &T) -> (r: R) {
        self.function.call(t)
    }

    fn into_box(self) -> (res: BoxFunction<T, R>)
        where
            Self: Sized + 'static,
            T: 'static,
            R: 'static,
        ensures
            forall|t: T| #[trigger] res.accepts(t) == self.accepts(t),
            forall|t: T, r: R| #[trigger] res.produces(t, r) == self.produces(t, r),
            res.spec_name() == self.spec_name(),
    {
        let name = clone_name(&self.name);
        BoxFunction::from_call(self, name)
    }

    fn into_rc(self) -> (res: RcFunction<T, R>)
        where
            Self: Sized + 'static,
            T: 'static,
            R: 'static,
    {
        self
    }

    fn into_once(self) -> (res: BoxFunctionOnce<T, R>)
        where
            Self: Sized + 'static,
            T: 'static,
            R: 'static,
        ensures
            forall|t: T| #[trigger] res.accepts(t) == self.accepts(t),
            forall|t: T, r: R| #[trigger] res.produces(t, r) == self.produces(t, r),
            res.spec_name() == self.spec_name(),
    {
        let name = clone_name(&self.name);
        BoxFunctionOnce::from_call_once(self, name)
    }

    fn to_box(&self) -> (res: BoxFunction<T, R>)
        where
            Self: Clone + 'static,
            T: 'static,
            R: 'static,
        ensures
            forall|t: T| #[trigger] res.accepts(t) == self.accepts(t),
            forall|t: T, r: R| #[trigger] res.produces(t, r) == self.produces(t, r),
            res.spec_name() == self.spec_name(),
    {
        let res = BoxFunction::from_call(self.duplicate(), clone_name(&self.name));
        assert(cloned::<Self>(*self, *self));
        res
    }

    fn to_rc(&self) -> (res: RcFunction<T, R>)
        where
            Self: Clone + 'static,
            T: 'static,
            R: 'static,
        ensures
            res == *self,
    {
        let res = self.duplicate();
        assert(cloned::<Self>(*self, *self));
        res
    }

    fn to_once(&self) -> (res: BoxFunctionOnce<T, R>)
        where
            Self: Clone + 'static,
            T: 'static,
            R: 'static,
        ensures
            forall|t: T| #[trigger] res.accepts(t) == self.accepts(t),
            forall|t: T, r: R| #[trigger] res.produces(t, r) == self.produces(t, r),
            res.spec_name() == self.spec_name(),
    {
        let res = BoxFunctionOnce::from_call_once(self.duplicate(), clone_name(&self.name));
        assert(cloned::<Self>(*self, *self));
        res
    }
}

/// A function behind an `Arc`: shared, thread-safe.
#[verifier::reject_recursive_types(T)]
#[verifier::reject_recursive_types(R)]
pub struct ArcFunction<T, R> {
    function: Arc<Box<dyn SyncCall1<T, R>>>,
    name: Option<String>,
}

impl<T, R> ArcFunction<T, R> {
    pub closed spec fn accepts(&self, t: T) -> bool {
        self.function.sync_pre(t)
    }

    pub closed spec fn produces(&self, t: T, r: R) -> bool {
        self.function.sync_post(t, r)
    }

    pub closed spec fn spec_name(&self) -> Option<Seq<char>> {
        name_view(self.name)
    }

    pub(crate) fn from_call<C: Call1<T, R> + Send + Sync + 'static>(c: C, name: Option<String>) -> (res: Self)
        ensures
            forall|t: T| #[trigger] res.accepts(t) == c.pre(t),
            forall|t: T, r: R| #[trigger] res.produces(t, r) == c.post(t, r),
            res.spec_name() == name_view(name),
    {
        assert(forall|t: T| #[trigger] SyncCall1::<T, R>::sync_pre(&c, t) == c.pre(t));
        assert(forall|t: T, r: R| #[trigger] SyncCall1::<T, R>::sync_post(&c, t, r) == c.post(t, r));
        let function: Box<dyn SyncCall1<T, R>> = Box::new(c);
        assert(forall|t: T| #[trigger] function.sync_pre(t) == c.pre(t));
        assert(forall|t: T, r: R| #[trigger] function.sync_post(t, r) == c.post(t, r));
        ArcFunction { function: Arc::new(function), name }
    }

    /// Wraps the closure `f`.
    pub fn new<F>(f: F) -> (res: Self)
        where
            F: Fn(&T) -> R + Send + Sync + 'static,
        ensures
            forall|t: T| #[trigger] res.accepts(t) == call_requires(f, (&t,)),
            forall|t: T, r: R| #[trigger] res.produces(t, r) == call_ensures(f, (&t,), r),
            res.spec_name() is None,
    {
        Self::from_call(f, None)
    }

    /// Wraps the closure `f` under the name `name`.
    pub fn new_with_name<F>(name: &str, f: F) -> (res: Self)
        where
            F: Fn(&T) -> R + Send + Sync + 'static,
        ensures
            forall|t: T| #[trigger] res.accepts(t) == call_requires(f, (&t,)),
            forall|t: T, r: R| #[trigger] res.produces(t, r) == call_ensures(f, (&t,), r),
            res.spec_name() == Some(name@),
    {
        Self::from_call(f, owned_name(name))
    }

    /// Wraps the closure `f` under the name `name`, if there is one.
    pub fn new_with_optional_name<F>(f: F, name: Option<String>) -> (res: Self)
        where
            F: Fn(&T) -> R + Send + Sync + 'static,
        ensures
            forall|t: T| #[trigger] res.accepts(t) == call_requires(f, (&t,)),
            forall|t: T, r: R| #[trigger] res.produces(t, r) == call_ensures(f, (&t,), r),
            res.spec_name() == name_view(name),
    {
        Self::from_call(f, name)
    }

    /// The name of this function, if it has one.
    pub fn name(&self) -> (res: Option<&str>)
        ensures
            match res {
                Some(s) => self.spec_name() == Some(s@),
                None => self.spec_name() is None,
            },
    {
        name_str(&self.name)
    }

    /// Gives this function the name `name`; its behaviour stays the same.
    pub fn set_name(&mut self, name: &str)
        ensures
            final(self).spec_name() == Some(name@),
            forall|t: T| #[trigger] final(self).accepts(t) == old(self).accepts(t),
            forall|t: T, r: R| #[trigger] final(self).produces(t, r) == old(self).produces(t, r),
    {
        self.name = owned_name(name);
    }

    /// Restricts a copy of this function to the inputs on which `predicate`
    /// holds; [`ArcConditionalFunction::or_else`] then supplies the other branch.
    pub fn when<P>(&self, predicate: P) -> (res: ArcConditionalFunction<T, R>)
        where
            P: Predicate<T> + Send + Sync + 'static,
            T: 'static,
        ensures
            res.function() == *self,
            forall|t: T| predicate.accepts(t) ==> #[trigger] res.predicate().accepts(t),
            forall|t: T, b: bool| #[trigger] res.predicate().produces(t, b) ==> predicate.produces(t, b),
    {
        ArcConditionalFunction { function: self.clone(), predicate: predicate.into_arc() }
    }

    /// A copy of this function followed by `after` on its result.
    pub fn and_then<S, F>(&self, after: F) -> (res: ArcFunction<T, S>)
        where
            T: 'static,
            R: 'static,
            S: 'static,
            F: Function<R, S> + Send + Sync + 'static,
        ensures
            forall|t: T| #[trigger] res.accepts(t) == then_accepts(*self, after, t),
            forall|t: T, s: S| #[trigger] res.produces(t, s) == then_produces(*self, after, t, s),
            res.spec_name() is None,
    {
        ArcFunction::from_call(Then { first: self.clone(), after }, None)
    }

    /// This function as a plain closure.
    pub fn into_fn(self) -> (res: impl Fn(&T) -> R)
        ensures
            forall|t: T| self.accepts(t) ==> call_requires(res, (&t,)),
            forall|t: T, r: R| call_ensures(res, (&t,), r) ==> self.produces(t, r),
    {
        move |t: &T| -> (r: R)
            requires
                self.accepts(*t),
            ensures
                self.produces(*t, r),
        {
            self.function.sync_call(t)
        }
    }

    /// A closure that calls a clone of this function, which stays usable.
    pub fn to_fn(&self) -> (res: impl Fn(&T) -> R)
        ensures
            forall|t: T| self.accepts(t) ==> call_requires(res, (&t,)),
            forall|t: T, r: R| call_ensures(res, (&t,), r) ==> self.produces(t, r),
    {
        self.duplicate().into_fn()
    }
}

impl<T: 'static, R: Clone + Send + Sync + 'static> ArcFunction<T, R> {
    /// A function that returns a clone of `value` for every input.
    pub fn constant(value: R) -> (res: ArcFunction<T, R>)
        ensures
            forall|t: T| #[trigger] res.accepts(t),
            forall|t: T, r: R| #[trigger] res.produces(t, r) == cloned::<R>(value, r),
            res.spec_name() is None,
    {
        ArcFunction::from_call(Constant { value }, None)
    }
}

impl<T: Clone + 'static> ArcFunction<T, T> {
    /// A function that returns a clone of its input.
    pub fn identity() -> (res: ArcFunction<T, T>)
        ensures
            forall|t: T| #[trigger] res.accepts(t),
            forall|t: T, r: T| #[trigger] res.produces(t, r) == cloned::<T>(t, r),
            res.spec_name() is None,
    {
        ArcFunction::from_call(Identity, None)
    }
}

impl<T, R> ArcFunction<T, R> {
    fn duplicate(&self) -> (res: Self)
        ensures
            res == *self,
    {
        ArcFunction { function: self.function.clone(), name: clone_name(&self.name) }
    }
}

impl<T, R> Clone for ArcFunction<T, R> {
    fn clone(&self) -> (res: Self)
        ensures
            res == *self,
    {
        self.duplicate()
    }
}

impl<T, R> Call1<T, R> for ArcFunction<T, R> {
    closed spec fn pre(&self, t: T) -> bool {
        self.accepts(t)
    }

    closed spec fn post(&self, t: T, r: R) -> bool {
        self.produces(t, r)
    }

    fn call(&self, t: &T) -> (r: R) {
        self.function.sync_call(t)
    }
}

impl<T, R> CallOnce1<T, R> for ArcFunction<T, R> {
    closed spec fn pre(&self, t: T) -> bool {
        self.accepts(t)
    }

    closed spec fn post(&self, t: T, r: R) -> bool {
        self.produces(t, r)
    }

    fn call_once(self: Box<Self>, t: &T) -> (r: R) {
        self.function.sync_call(t)
    }
}

impl<T, R> Function<T, R> for ArcFunction<T, R> {
    open spec fn accepts(&self, t: T) -> bool {
        ArcFunction::accepts(self, t)
    }

    open spec fn produces(&self, t: T, r: R) -> bool {
        ArcFunction::produces(self, t, r)
    }

    fn apply(&self, t: &T) -> (r: R) {
        self.function.sync_call(t)
    }

    fn into_box(self) -> (res: BoxFunction<T, R>)
        where
            Self: Sized + 'static,
            T: 'static,
            R: 'static,
        ensures
            forall|t: T| #[trigger] res.accepts(t) == self.accepts(t),
            forall|t: T, r: R| #[trigger] res.produces(t, r) == self.produces(t, r),
            res.spec_name() == self.spec_name(),
    {
        let name = clone_name(&self.name);
        BoxFunction::from_call(self, name)
    }

    fn into_rc(self) -> (res: RcFunction<T, R>)
        where
            Self: Sized + 'static,
            T: 'static,
            R: 'static,
        ensures
            forall|t: T| #[trigger] res.accepts(t) == self.accepts(t),
            forall|t: T, r: R| #[trigger] res.produces(t, r) == self.produces(t, r),
            res.spec_name() == self.spec_name(),
    {
        let name = clone_name(&self.name);
        RcFunction::from_call(self, name)
    }

    fn into_arc(self) -> (res: ArcFunction<T, R>)
        where
            Self: Sized + Send + Sync + 'static,
            T: 'static,
            R: 'static,
    {
        self
    }

    fn into_once(self) -> (res: BoxFunctionOnce<T, R>)
        where
            Self: Sized + 'static,
            T: 'static,
            R: 'static,
        ensures
            forall|t: T| #[trigger] res.accepts(t) == self.accepts(t),
            forall|t: T, r: R| #[trigger] res.produces(t, r) == self.produces(t, r),
            res.spec_name() == self.spec_name(),
    {
        let name = clone_name(&self.name);
        BoxFunctionOnce::from_call_once(self, name)
    }

    fn to_box(&self) -> (res: BoxFunction<T, R>)
        where
            Self: Clone + 'static,
            T: 'static,
            R: 'static,
        ensures
            forall|t: T| #[trigger] res.accepts(t) == self.accepts(t),
            forall|t: T, r: R| #[trigger] res.produces(t, r) == self.produces(t, r),
            res.spec_name() == self.spec_name(),
    {
        let res = BoxFunction::from_call(self.duplicate(), clone_name(&self.name));
        assert(cloned::<Self>(*self, *self));
        res
    }

    fn to_rc(&self) -> (res: RcFunction<T, R>)
        where
            Self: Clone + 'static,
            T: 'static,
            R: 'static,
        ensures
            forall|t: T| #[trigger] res.accepts(t) == self.accepts(t),
            forall|t: T, r: R| #[trigger] res.produces(t, r) == self.produces(t, r),
            res.spec_name() == self.spec_name(),
    {
        let res = RcFunction::from_call(self.duplicate(), clone_name(&self.name));
        assert(cloned::<Self>(*self, *self));
        res
    }

    fn to_arc(&self) -> (res: ArcFunction<T, R>)
        where
            Self: Clone + Send + Sync + 'static,
            T: 'static,
            R: 'static,
        ensures
            res == *self,
    {
        let res = self.duplicate();
        assert(cloned::<Self>(*self, *self));
        res
    }

    fn to_once(&self) -> (res: BoxFunctionOnce<T, R>)
        where
            Self: Clone + 'static,
            T: 'static,
            R: 'static,
        ensures
            forall|t: T| #[trigger] res.accepts(t) == self.accepts(t),
            forall|t: T, r: R| #[trigger] res.produces(t, r) == self.produces(t, r),
            res.spec_name() == self.spec_name(),
    {
        let res = BoxFunctionOnce::from_call_once(self.duplicate(), clone_name(&self.name));
        assert(cloned::<Self>(*self, *self));
        res
    }
}

/// `and_then` and `when` for plain closures, giving boxed functions.
pub trait FnFunctionOps<T, R>: Fn(&T) -> R + Sized {
    /// This closure followed by `after` on its result.
    fn and_then<S, F>(self, after: F) -> (res: BoxFunction<T, S>)
        where
            Self: 'static,
            S: 'static,
            F: Function<R, S> + 'static,
            T: 'static,
            R: 'static,
        ensures
            forall|t: T| #[trigger] res.accepts(t) == then_accepts(self, after, t),
            forall|t: T, s: S| #[trigger] res.produces(t, s) == then_produces(self, after, t, s),
    {
        let first = BoxFunction::new(self);
        let res = first.and_then(after);
        assert forall|t: T| #[trigger] res.accepts(t) == then_accepts(self, after, t) by {
            assert(Function::accepts(&first, t) == Function::accepts(&self, t));
            assert(forall|m: R|
                #![trigger Function::produces(&first, t, m)]
                #![trigger Function::produces(&self, t, m)]
                Function::produces(&first, t, m) == Function::produces(&self, t, m));
        }
        assert forall|t: T, s: S| #[trigger] res.produces(t, s) == then_produces(self, after, t, s) by {
            assert(forall|m: R|
                #![trigger Function::produces(&first, t, m)]
                #![trigger Function::produces(&self, t, m)]
                Function::produces(&first, t, m) == Function::produces(&self, t, m));
        }
        res
    }

    /// This closure restricted to the inputs on which `predicate` holds.
    fn when<P>(self, predicate: P) -> (res: BoxConditionalFunction<T, R>)
        where
            Self: 'static,
            P: Predicate<T> + 'static,
            T: 'static,
            R: 'static,
        ensures
            forall|t: T| #[trigger] res.function().accepts(t) == call_requires(self, (&t,)),
            forall|t: T, r: R| #[trigger] res.function().produces(t, r) == call_ensures(self, (&t,), r),
            forall|t: T| predicate.accepts(t) ==> #[trigger] res.predicate().accepts(t),
            forall|t: T, b: bool| #[trigger] res.predicate().produces(t, b) ==> predicate.produces(t, b),
    {
        BoxFunction::new(self).when(predicate)
    }
}

impl<T, R, F: Fn(&T) -> R> FnFunctionOps<T, R> for F {
}

/// A [`BoxFunction`] restricted by a predicate, waiting for the branch that
/// [`BoxConditionalFunction::or_else`] supplies.
#[verifier::reject_recursive_types(T)]
#[verifier::reject_recursive_types(R)]
pub struct BoxConditionalFunction<T, R> {
    function: BoxFunction<T, R>,
    predicate: BoxPredicate<T>,
}

impl<T: 'static, R: 'static> BoxConditionalFunction<T, R> {
    pub closed spec fn function(&self) -> BoxFunction<T, R> {
        self.function
    }

    pub closed spec fn predicate(&self) -> BoxPredicate<T> {
        self.predicate
    }

    /// The function that applies the guarded function where the predicate
    /// holds and `else_function` elsewhere.
    pub fn or_else<F>(self, else_function: F) -> (res: BoxFunction<T, R>)
        where
            F: Function<T, R> + 'static,
        ensures
            forall|t: T| #[trigger] res.accepts(t) == choice_accepts(self.predicate(), self.function(), else_function, t),
            forall|t: T, r: R| #[trigger] res.produces(t, r) == choice_produces(self.predicate(), self.function(), else_function, t, r),
            res.spec_name() is None,
    {
        BoxFunction::from_call(
            Choose { predicate: self.predicate, on_true: self.function, on_false: else_function },
            None,
        )
    }
}

/// An [`RcFunction`] restricted by a predicate, waiting for the branch that
/// [`RcConditionalFunction::or_else`] supplies.
#[verifier::reject_recursive_types(T)]
#[verifier::reject_recursive_types(R)]
pub struct RcConditionalFunction<T, R> {
    function: RcFunction<T, R>,
    predicate: RcPredicate<T>,
}

impl<T: 'static, R: 'static> RcConditionalFunction<T, R> {
    pub closed spec fn function(&self) -> RcFunction<T, R> {
        self.function
    }

    pub closed spec fn predicate(&self) -> RcPredicate<T> {
        self.predicate
    }

    /// The function that applies the guarded function where the predicate
    /// holds and `else_function` elsewhere.
    pub fn or_else<F>(&self, else_function: F) -> (res: RcFunction<T, R>)
        where
            F: Function<T, R> + 'static,
        ensures
            forall|t: T| #[trigger] res.accepts(t) == choice_accepts(self.predicate(), self.function(), else_function, t),
            forall|t: T, r: R| #[trigger] res.produces(t, r) == choice_produces(self.predicate(), self.function(), else_function, t, r),
            res.spec_name() is None,
    {
        RcFunction::from_call(
            Choose {
                predicate: self.predicate.clone(),
                on_true: self.function.clone(),
                on_false: else_function,
            },
            None,
        )
    }
}

impl<T, R> Clone for RcConditionalFunction<T, R> {
    fn clone(&self) -> (res: Self)
        ensures
            res == *self,
    {
        RcConditionalFunction { function: self.function.clone(), predicate: self.predicate.clone() }
    }
}

/// An [`ArcFunction`] restricted by a predicate, waiting for the branch that
/// [`ArcConditionalFunction::or_else`] supplies.
#[verifier::reject_recursive_types(T)]
#[verifier::reject_recursive_types(R)]
pub struct ArcConditionalFunction<T, R> {
    function: ArcFunction<T, R>,
    predicate: ArcPredicate<T>,
}

impl<T: 'static, R: 'static> ArcConditionalFunction<T, R> {
    pub closed spec fn function(&self) -> ArcFunction<T, R> {
        self.function
    }

    pub closed spec fn predicate(&self) -> ArcPredicate<T> {
        self.predicate
    }

    /// The function that applies the guarded function where the predicate
    /// holds and `else_function` elsewhere.
    pub fn or_else<F>(&self, else_function: F) -> (res: ArcFunction<T, R>)
        where
            F: Function<T, R> + Send + Sync + 'static,
        ensures
            forall|t: T| #[trigger] res.accepts(t) == choice_accepts(self.predicate(), self.function(), else_function, t),
            forall|t: T, r: R| #[trigger] res.produces(t, r) == choice_produces(self.predicate(), self.function(), else_function, t, r),
            res.spec_name() is None,
    {
        ArcFunction::from_call(
            Choose {
                predicate: self.predicate.clone(),
                on_true: self.function.clone(),
                on_false: else_function,
            },
            None,
        )
    }
}

impl<T, R> Clone for ArcConditionalFunction<T, R> {
    fn clone(&self) -> (res: Self)
        ensures
            res == *self,
    {
        ArcConditionalFunction { function: self.function.clone(), predicate: self.predicate.clone() }
    }
}

/// `then` followed by `after`: defined at `t` when `then` is, and `after` is
/// defined at each result that `then` may give for `t`.
pub open spec fn then_accepts<T, M, R, G: Function<T, M>, F: Function<M, R>>(g: G, f: F, t: T) -> bool {
    &&& g.accepts(t)
    &&& forall|m: M| #[trigger] g.produces(t, m) ==> f.accepts(m)
}

/// `then` followed by `after`: `r` is a possible result when some
/// intermediate value `m` of `then` leads `after` to `r`.
pub open spec fn then_produces<T, M, R, G: Function<T, M>, F: Function<M, R>>(
    g: G,
    f: F,
    t: T,
    r: R,
) -> bool {
    exists|m: M| #[trigger] g.produces(t, m) && f.produces(m, r)
}

/// A choice between two functions by a predicate: defined at `t` when the
/// predicate is, and the branch that each possible answer selects is.
pub open spec fn choice_accepts<T, R, P: Predicate<T>, G: Function<T, R>, E: Function<T, R>>(
    p: P,
    g: G,
    e: E,
    t: T,
) -> bool {
    &&& p.accepts(t)
    &&& forall|b: bool| #[trigger] p.produces(t, b) ==> if b {
        g.accepts(t)
    } else {
        e.accepts(t)
    }
}

/// A choice between two functions by a predicate: `r` is a possible result
/// when some answer of the predicate selects a branch that may give `r`.
pub open spec fn choice_produces<T, R, P: Predicate<T>, G: Function<T, R>, E: Function<T, R>>(
    p: P,
    g: G,
    e: E,
    t: T,
    r: R,
) -> bool {
    exists|b: bool| #[trigger] p.produces(t, b) && if b {
        g.produces(t, r)
    } else {
        e.produces(t, r)
    }
}

/// Sequencing is associative: `fg` followed by `h` and `f` followed by `gh`
/// accept the same inputs and give the same results, where `fg` behaves as
/// `f` followed by `g` and `gh` as `g` followed by `h` (as the result of
/// `and_then` does).
pub proof fn law_then_associative<T, M, N, R, F, G, H, FG, GH>(f: F, g: G, h: H, fg: FG, gh: GH, t: T)
    where
        F: Function<T, M>,
        G: Function<M, N>,
        H: Function<N, R>,
        FG: Function<T, N>,
        GH: Function<M, R>,
    requires
        forall|x: T| #[trigger] fg.accepts(x) == then_accepts(f, g, x),
        forall|x: T, n: N| #[trigger] fg.produces(x, n) == then_produces(f, g, x, n),
        forall|m: M| #[trigger] gh.accepts(m) == then_accepts(g, h, m),
        forall|m: M, r: R| #[trigger] gh.produces(m, r) == then_produces(g, h, m, r),
    ensures
        then_accepts(fg, h, t) == then_accepts(f, gh, t),
        forall|r: R| #[trigger] then_produces(fg, h, t, r) == then_produces(f, gh, t, r),
{
    if then_accepts(fg, h, t) {
        assert forall|m: M| #[trigger] f.produces(t, m) implies gh.accepts(m) by {
            assert forall|n: N| #[trigger] g.produces(m, n) implies h.accepts(n) by {
                assert(fg.produces(t, n));
            }
        }
    }
    if then_accepts(f, gh, t) {
        assert forall|n: N| #[trigger] fg.produces(t, n) implies h.accepts(n) by {
            let m = choose|m: M| #[trigger] f.produces(t, m) && g.produces(m, n);
            assert(gh.accepts(m));
        }
    }
    assert forall|r: R| #[trigger] then_produces(fg, h, t, r) == then_produces(f, gh, t, r) by {
        if then_produces(fg, h, t, r) {
            let n = choose|n: N| #[trigger] fg.produces(t, n) && h.produces(n, r);
            let m = choose|m: M| #[trigger] f.produces(t, m) && g.produces(m, n);
            assert(gh.produces(m, r));
        }
        if then_produces(f, gh, t, r) {
            let m = choose|m: M| #[trigger] f.produces(t, m) && gh.produces(m, r);
            let n = choose|n: N| #[trigger] g.produces(m, n) && h.produces(n, r);
            assert(fg.produces(t, n));
        }
    }
}

/// Following a function by an identity (a function defined everywhere
/// whose result equals its input) keeps where the function is defined and
/// gives only results that the function gives.
pub proof fn law_then_identity<T, R, F, I>(f: F, id: I, t: T)
    where
        F: Function<T, R>,
        I: Function<R, R>,
    requires
        forall|r: R| #[trigger] id.accepts(r),
        forall|a: R, b: R| #[trigger] id.produces(a, b) ==> a == b,
    ensures
        then_accepts(f, id, t) == f.accepts(t),
        forall|r: R| #[trigger] then_produces(f, id, t, r) ==> f.produces(t, r),
{
}

/// Preceding a function by an identity (a function defined everywhere whose
/// result equals its input) keeps it defined wherever it was, and gives only
/// results that the function gives.
pub proof fn law_identity_then<T, R, I, F>(id: I, f: F, t: T)
    where
        I: Function<T, T>,
        F: Function<T, R>,
    requires
        forall|x: T| #[trigger] id.accepts(x),
        forall|a: T, b: T| #[trigger] id.produces(a, b) ==> a == b,
    ensures
        f.accepts(t) ==> then_accepts(id, f, t),
        forall|r: R| #[trigger] then_produces(id, f, t, r) ==> f.produces(t, r),
{
}

/// Calls `first`, then `after` on its result.
struct Then<G, F> {
    first: G,
    after: F,
}

impl<T, M, R, F: Function<M, R>> Call1<T, R> for Then<BoxFunction<T, M>, F> {
    closed spec fn pre(&self, t: T) -> bool {
        then_accepts(self.first, self.after, t)
    }

    closed spec fn post(&self, t: T, r: R) -> bool {
        then_produces(self.first, self.after, t, r)
    }

    fn call(&self, t: &T) -> (r: R) {
        let m = self.first.apply(t);
        self.after.apply(&m)
    }
}

impl<T, M, R, F: Function<M, R>> Call1<T, R> for Then<RcFunction<T, M>, F> {
    closed spec fn pre(&self, t: T) -> bool {
        then_accepts(self.first, self.after, t)
    }

    closed spec fn post(&self, t: T, r: R) -> bool {
        then_produces(self.first, self.after, t, r)
    }

    fn call(&self, t: &T) -> (r: R) {
        let m = self.first.apply(t);
        self.after.apply(&m)
    }
}

impl<T, M, R, F: Function<M, R>> Call1<T, R> for Then<ArcFunction<T, M>, F> {
    closed spec fn pre(&self, t: T) -> bool {
        then_accepts(self.first, self.after, t)
    }

    closed spec fn post(&self, t: T, r: R) -> bool {
        then_produces(self.first, self.after, t, r)
    }

    fn call(&self, t: &T) -> (r: R) {
        let m = self.first.apply(t);
        self.after.apply(&m)
    }
}

/// Selects `on_true` or `on_false` by `predicate`.
struct Choose<P, G, E> {
    predicate: P,
    on_true: G,
    on_false: E,
}

impl<T, R, P: Predicate<T>, G: Function<T, R>, E: Function<T, R>> Call1<T, R> for Choose<P, G, E> {
    closed spec fn pre(&self, t: T) -> bool {
        choice_accepts(self.predicate, self.on_true, self.on_false, t)
    }

    closed spec fn post(&self, t: T, r: R) -> bool {
        choice_produces(self.predicate, self.on_true, self.on_false, t, r)
    }

    fn call(&self, t: &T) -> (r: R) {
        if self.predicate.test(t) {
            self.on_true.apply(t)
        } else {
            self.on_false.apply(t)
        }
    }
}

} // verus!
