//! Functions that borrow two inputs and compute a result
//! (`Fn(&T, &U) -> R`), in boxed, `Rc` and `Arc` flavours, with conditional
//! variants.
use std::rc::Rc;
use std::sync::Arc;
use vstd::prelude::*;

use crate::callable::{Call2, CallOnce2, SyncCall2};
use crate::functions::bi_function_once::BoxBiFunctionOnce;
use crate::functions::constant::Constant;
use crate::functions::function::Function;
use crate::names::{clone_name, name_str, name_view, owned_name};
use crate::predicates::{ArcBiPredicate, BiPredicate, BoxBiPredicate, RcBiPredicate};

verus! {

/// A function from `&T` and `&U` to `R`.
///
/// `accepts(t, u)` is what a caller must establish before `apply(&t, &u)`;
/// `produces(t, u, r)` says that `r` is a possible result for `t` and `u`.
pub trait BiFunction<T, U, R> {
    spec fn accepts(&self, t: T, u: U) -> bool;

    spec fn produces(&self, t: T, u: U, r: R) -> bool;

    fn apply(&self, t: &T, u: &U) -> (r: R)
        requires
            self.accepts(*t, *u),
        ensures
            self.produces(*t, *u, r),
    ;

    /// Moves this function into a [`BoxBiFunction`] that calls it.
    fn into_box(self) -> (res: BoxBiFunction<T, U, R>)
        where
            Self: Sized + 'static,
            T: 'static,
            U: 'static,
            R: 'static,
        ensures
            forall|t: T, u: U| self.accepts(t, u) ==> #[trigger] res.accepts(t, u),
            forall|t: T, u: U, r: R| #[trigger] res.produces(t, u, r) ==> self.produces(t, u, r),
    {
        let f = move |t: &T, u: &U| -> (r: R)
            requires
                self.accepts(*t, *u),
            ensures
                self.produces(*t, *u, r),
        {
            self.apply(t, u)
        };
        BoxBiFunction::new(f)
    }

    /// Moves this function into an [`RcBiFunction`] that calls it.
    fn into_rc(self) -> (res: RcBiFunction<T, U, R>)
        where
            Self: Sized + 'static,
            T: 'static,
            U: 'static,
            R: 'static,
        ensures
            forall|t: T, u: U| self.accepts(t, u) ==> #[trigger] res.accepts(t, u),
            forall|t: T, u: U, r: R| #[trigger] res.produces(t, u, r) ==> self.produces(t, u, r),
    {
        let f = move |t: &T, u: &U| -> (r: R)
            requires
                self.accepts(*t, *u),
            ensures
                self.produces(*t, *u, r),
        {
            self.apply(t, u)
        };
        RcBiFunction::new(f)
    }

    /// Moves this function into an [`ArcBiFunction`] that calls it.
    fn into_arc(self) -> (res: ArcBiFunction<T, U, R>)
        where
            Self: Sized + Send + Sync + 'static,
            T: 'static,
            U: 'static,
            R: 'static,
        ensures
            forall|t: T, u: U| self.accepts(t, u) ==> #[trigger] res.accepts(t, u),
            forall|t: T, u: U, r: R| #[trigger] res.produces(t, u, r) ==> self.produces(t, u, r),
    {
        let f = move |t: &T, u: &U| -> (r: R)
            requires
                self.accepts(*t, *u),
            ensures
                self.produces(*t, *u, r),
        {
            self.apply(t, u)
        };
        ArcBiFunction::new(f)
    }

    /// Moves this function into a [`BoxBiFunctionOnce`] that calls it.
    fn into_once(self) -> (res: BoxBiFunctionOnce<T, U, R>)
        where
            Self: Sized + 'static,
            T: 'static,
            U: 'static,
            R: 'static,
        ensures
            forall|t: T, u: U| self.accepts(t, u) ==> #[trigger] res.accepts(t, u),
            forall|t: T, u: U, r: R| #[trigger] res.produces(t, u, r) ==> self.produces(t, u, r),
    {
        let f = move |t: &T, u: &U| -> (r: R)
            requires
                self.accepts(*t, *u),
            ensures
                self.produces(*t, *u, r),
        {
            self.apply(t, u)
        };
        BoxBiFunctionOnce::new(f)
    }

    /// A [`BoxBiFunction`] that calls a clone of this function.
    fn to_box(&self) -> (res: BoxBiFunction<T, U, R>)
        where
            Self: Clone + 'static,
            T: 'static,
            U: 'static,
            R: 'static,
        ensures
            exists|c: Self|
                cloned::<Self>(*self, c) && (forall|t: T, u: U| c.accepts(t, u) ==> #[trigger] res.accepts(t, u))
                    && (forall|t: T, u: U, r: R| #[trigger] res.produces(t, u, r) ==> c.produces(t, u, r)),
    {
        let c = self.clone();
        let res = c.into_box();
        assert(cloned::<Self>(*self, c));
        res
    }

    /// An [`RcBiFunction`] that calls a clone of this function.
    fn to_rc(&self) -> (res: RcBiFunction<T, U, R>)
        where
            Self: Clone + 'static,
            T: 'static,
            U: 'static,
            R: 'static,
        ensures
            exists|c: Self|
                cloned::<Self>(*self, c) && (forall|t: T, u: U| c.accepts(t, u) ==> #[trigger] res.accepts(t, u))
                    && (forall|t: T, u: U, r: R| #[trigger] res.produces(t, u, r) ==> c.produces(t, u, r)),
    {
        let c = self.clone();
        let res = c.into_rc();
        assert(cloned::<Self>(*self, c));
        res
    }

    /// An [`ArcBiFunction`] that calls a clone of this function.
    fn to_arc(&self) -> (res: ArcBiFunction<T, U, R>)
        where
            Self: Clone + Send + Sync + 'static,
            T: 'static,
            U: 'static,
            R: 'static,
        ensures
            exists|c: Self|
                cloned::<Self>(*self, c) && (forall|t: T, u: U| c.accepts(t, u) ==> #[trigger] res.accepts(t, u))
                    && (forall|t: T, u: U, r: R| #[trigger] res.produces(t, u, r) ==> c.produces(t, u, r)),
    {
        let c = self.clone();
        let res = c.into_arc();
        assert(cloned::<Self>(*self, c));
        res
    }

    /// A [`BoxBiFunctionOnce`] that calls a clone of this function.
    fn to_once(&self) -> (res: BoxBiFunctionOnce<T, U, R>)
        where
            Self: Clone + 'static,
            T: 'static,
            U: 'static,
            R: 'static,
        ensures
            exists|c: Self|
                cloned::<Self>(*self, c) && (forall|t: T, u: U| c.accepts(t, u) ==> #[trigger] res.accepts(t, u))
                    && (forall|t: T, u: U, r: R| #[trigger] res.produces(t, u, r) ==> c.produces(t, u, r)),
    {
        let c = self.clone();
        let res = c.into_once();
        assert(cloned::<Self>(*self, c));
        res
    }
}

impl<T, U, R, F: Fn(&T, &U) -> R> BiFunction<T, U, R> for F {
    open spec fn accepts(&self, t: T, u: U) -> bool {
        call_requires(*self, (&t, &u))
    }

    open spec fn produces(&self, t: T, u: U, r: R) -> bool {
        call_ensures(*self, (&t, &u), r)
    }

    fn apply(&self, t: &T, u: &U) -> (r: R) {
        (self)(t, u)
    }
}


/// A function in a box: single ownership.
#[verifier::reject_recursive_types(T)]
#[verifier::reject_recursive_types(U)]
#[verifier::reject_recursive_types(R)]
pub struct BoxBiFunction<T, U, R> {
    function: Box<dyn Call2<T, U, R>>,
    name: Option<String>,
}

impl<T, U, R> BoxBiFunction<T, U, R> {
    pub closed spec fn accepts(&self, t: T, u: U) -> bool {
        self.function.pre(t, u)
    }

    pub closed spec fn produces(&self, t: T, u: U, r: R) -> bool {
        self.function.post(t, u, r)
    }

    pub closed spec fn spec_name(&self) -> Option<Seq<char>> {
        name_view(self.name)
    }

    pub(crate) fn from_call<C: Call2<T, U, R> + 'static>(c: C, name: Option<String>) -> (res: Self)
        ensures
            forall|t: T, u: U| #[trigger] res.accepts(t, u) == c.pre(t, u),
            forall|t: T, u: U, r: R| #[trigger] res.produces(t, u, r) == c.post(t, u, r),
            res.spec_name() == name_view(name),
    {
        let function: Box<dyn Call2<T, U, R>> = Box::new(c);
        assert(forall|t: T, u: U| #[trigger] function.pre(t, u) == c.pre(t, u));
        assert(forall|t: T, u: U, r: R| #[trigger] function.post(t, u, r) == c.post(t, u, r));
        BoxBiFunction { function, name }
    }

    /// Wraps the closure `f`.
    pub fn new<F>(f: F) -> (res: Self)
        where
            F: Fn(&T, &U) -> R + 'static,
        ensures
            forall|t: T, u: U| #[trigger] res.accepts(t, u) == call_requires(f, (&t, &u)),
            forall|t: T, u: U, r: R| #[trigger] res.produces(t, u, r) == call_ensures(f, (&t, &u), r),
            res.spec_name() is None,
    {
        Self::from_call(f, None)
    }

    /// Wraps the closure `f` under the name `name`.
    pub fn new_with_name<F>(name: &str, f: F) -> (res: Self)
        where
            F: Fn(&T, &U) -> R + 'static,
        ensures
            forall|t: T, u: U| #[trigger] res.accepts(t, u) == call_requires(f, (&t, &u)),
            forall|t: T, u: U, r: R| #[trigger] res.produces(t, u, r) == call_ensures(f, (&t, &u), r),
            res.spec_name() == Some(name@),
    {
        Self::from_call(f, owned_name(name))
    }

    /// Wraps the closure `f` under the name `name`, if there is one.
    pub fn new_with_optional_name<F>(f: F, name: Option<String>) -> (res: Self)
        where
            F: Fn(&T, &U) -> R + 'static,
        ensures
            forall|t: T, u: U| #[trigger] res.accepts(t, u) == call_requires(f, (&t, &u)),
            forall|t: T, u: U, r: R| #[trigger] res.produces(t, u, r) == call_ensures(f, (&t, &u), r),
            res.spec_name() == name_view(name),
    {
        Self::from_call(f, name)
    }

    /// The name of this function, if it has one.
    pub fn name(&self) -> (res: Option<&str>)
        ensures
            match res {
                Some(s) => self.spec_name() == Some(s@),
                None => self.spec_name() is None,
            },
    {
        name_str(&self.name)
    }

    /// Gives this function the name `name`; its behaviour stays the same.
    pub fn set_name(&mut self, name: &str)
        ensures
            final(self).spec_name() == Some(name@),
            forall|t: T, u: U| #[trigger] final(self).accepts(t, u) == old(self).accepts(t, u),
            forall|t: T, u: U, r: R| #[trigger] final(self).produces(t, u, r) == old(self).produces(t, u, r),
    {
        self.name = owned_name(name);
    }

    /// Restricts this function to the inputs on which `predicate` holds;
    /// [`BoxConditionalBiFunction::or_else`] then supplies the other branch.
    pub fn when<P>(self, predicate: P) -> (res: BoxConditionalBiFunction<T, U, R>)
        where
            P: BiPredicate<T, U> + 'static,
            T: 'static,
            U: 'static,
        ensures
            res.function() == self,
            forall|t: T, u: U| predicate.accepts(t, u) ==> #[trigger] res.predicate().accepts(t, u),
            forall|t: T, u: U, b: bool| #[trigger] res.predicate().produces(t, u, b) ==> predicate.produces(t, u, b),
    {
        BoxConditionalBiFunction { function: self, predicate: predicate.into_box() }
    }

    /// This function followed by `after` on its result.
    pub fn and_then<S, F>(self, after: F) -> (res: BoxBiFunction<T, U, S>)
        where
            T: 'static,
            U: 'static,
            R: 'static,
            S: 'static,
            F: Function<R, S> + 'static,
        ensures
            forall|t: T, u: U| #[trigger] res.accepts(t, u) == then_accepts(self, after, t, u),
            forall|t: T, u: U, s: S| #[trigger] res.produces(t, u, s) == then_produces(self, after, t, u, s),
            res.spec_name() is None,
    {
        BoxBiFunction::from_call(Then { first: self, after }, None)
    }

    /// This function as a plain closure.
    pub fn into_fn(self) -> (res: impl Fn(&T, &U) -> R)
        ensures
            forall|t: T, u: U| self.accepts(t, u) ==> call_requires(res, (&t, &u)),
            forall|t: T, u: U, r: R| call_ensures(res, (&t, &u), r) ==> self.produces(t, u, r),
    {
        move |t: &T, u: &U| -> (r: R)
            requires
                self.accepts(*t, *u),
            ensures
                self.produces(*t, *u, r),
        {
            self.function.call(t, u)
        }
    }
}

impl<T: 'static, U: 'static, R: Clone + 'static> BoxBiFunction<T, U, R> {
    /// A function that returns a clone of `value` for every input.
    pub fn constant(value: R) -> (res: BoxBiFunction<T, U, R>)
        ensures
            forall|t: T, u: U| #[trigger] res.accepts(t, u),
            forall|t: T, u: U, r: R| #[trigger] res.produces(t, u, r) == cloned::<R>(value, r),
            res.spec_name() is None,
    {
        BoxBiFunction::from_call(Constant { value }, None)
    }
}

impl<T, U, R> CallOnce2<T, U, R> for BoxBiFunction<T, U, R> {
    closed spec fn pre(&self, t: T, u: U) -> bool {
        self.accepts(t, u)
    }

    closed spec fn post(&self, t: T, u: U, r: R) -> bool {
        self.produces(t, u, r)
    }

    fn call_once(self: Box<Self>, t: &T, u: &U) -> (r: R) {
        self.function.call(t, u)
    }
}

impl<T, U, R> BiFunction<T, U, R> for BoxBiFunction<T, U, R> {
    open spec fn accepts(&self, t: T, u: U) -> bool {
        BoxBiFunction::accepts(self, t, u)
    }

    open spec fn produces(&self, t: T, u: U, r: R) -> bool {
        BoxBiFunction::produces(self, t, u, r)
    }

    fn apply(&self, t: &T, u: &U) -> (r: R) {
        self.function.call(t, u)
    }

    fn into_box(self) -> (res: BoxBiFunction<T, U, R>)
        where
            Self: Sized + 'static,
            T: 'static,
            U: 'static,
            R: 'static,
    {
        self
    }

    fn into_rc(self) -> (res: RcBiFunction<T, U, R>)
        where
            Self: Sized + 'static,
            T: 'static,
            U: 'static,
            R: 'static,
        ensures
            forall|t: T, u: U| #[trigger] res.accepts(t, u) == self.accepts(t, u),
            forall|t: T, u: U, r: R| #[trigger] res.produces(t, u, r) == self.produces(t, u, r),
            res.spec_name() == self.spec_name(),
    {
        RcBiFunction { function: Rc::new(self.function), name: self.name }
    }

    fn into_once(self) -> (res: BoxBiFunctionOnce<T, U, R>)
        where
            Self: Sized + 'static,
            T: 'static,
            U: 'static,
            R: 'static,
        ensures
            forall|t: T, u: U| #[trigger] res.accepts(t, u) == self.accepts(t, u),
            forall|t: T, u: U, r: R| #[trigger] res.produces(t, u, r) == self.produces(t, u, r),
            res.spec_name() == self.spec_name(),
    {
        let name = clone_name(&self.name);
        BoxBiFunctionOnce::from_call_once(self, name)
    }
}

/// A function behind an `Rc`: shared, single-threaded.
#[verifier::reject_recursive_types(T)]
#[verifier::reject_recursive_types(U)]
#[verifier::reject_recursive_types(R)]
pub struct RcBiFunction<T, U, R> {
    function: Rc<Box<dyn Call2<T, U, R>>>,
    name: Option<String>,
}

impl<T, U, R> RcBiFunction<T, U, R> {
    pub closed spec fn accepts(&self, t: T, u: U) -> bool {
        self.function.pre(t, u)
    }

    pub closed spec fn produces(&self, t: T, u: U, r: R) -> bool {
        self.function.post(t, u, r)
    }

    pub closed spec fn spec_name(&self) -> Option<Seq<char>> {
        name_view(self.name)
    }

    pub(crate) fn from_call<C: Call2<T, U, R> + 'static>(c: C, name: Option<String>) -> (res: Self)
        ensures
            forall|t: T, u: U| #[trigger] res.accepts(t, u) == c.pre(t, u),
            forall|t: T, u: U, r: R| #[trigger] res.produces(t, u, r) == c.post(t, u, r),
            res.spec_name() == name_view(name),
    {
        let function: Box<dyn Call2<T, U, R>> = Box::new(c);
        assert(forall|t: T, u: U| #[trigger] function.pre(t, u) == c.pre(t, u));
        assert(forall|t: T, u: U, r: R| #[trigger] function.post(t, u, r) == c.post(t, u, r));
        RcBiFunction { function: Rc::new(function), name }
    }

    /// Wraps the closure `f`.
    pub fn new<F>(f: F) -> (res: Self)
        where
            F: Fn(&T, &U) -> R + 'static,
        ensures
            forall|t: T, u: U| #[trigger] res.accepts(t, u) == call_requires(f, (&t, &u)),
            forall|t: T, u: U, r: R| #[trigger] res.produces(t, u, r) == call_ensures(f, (&t, &u), r),
            res.spec_name() is None,
    {
        Self::from_call(f, None)
    }

    /// Wraps the closure `f` under the name `name`.
    pub fn new_with_name<F>(name: &str, f: F) -> (res: Self)
        where
            F: Fn(&T, &U) -> R + 'static,
        ensures
            forall|t: T, u: U| #[trigger] res.accepts(t, u) == call_requires(f, (&t, &u)),
            forall|t: T, u: U, r: R| #[trigger] res.produces(t, u, r) == call_ensures(f, (&t, &u), r),
            res.spec_name() == Some(name@),
    {
        Self::from_call(f, owned_name(name))
    }

    /// Wraps the closure `f` under the name `name`, if there is one.
    pub fn new_with_optional_name<F>(f: F, name: Option<String>) -> (res: Self)
        where
            F: Fn(&T, &U) -> R + 'static,
        ensures
            forall|t: T, u: U| #[trigger] res.accepts(t, u) == call_requires(f, (&t, &u)),
            forall|t: T, u: U, r: R| #[trigger] res.produces(t, u, r) == call_ensures(f, (&t, &u), r),
            res.spec_name() == name_view(name),
    {
        Self::from_call(f, name)
    }

    /// The name of this function, if it has one.
    pub fn name(&self) -> (res: Option<&str>)
        ensures
            match res {
                Some(s) => self.spec_name() == Some(s@),
                None => self.spec_name() is None,
            },
    {
        name_str(&self.name)
    }

    /// Gives this function the name `name`; its behaviour stays the same.
    pub fn set_name(&mut self, name: &str)
        ensures
            final(self).spec_name() == Some(name@),
            forall|t: T, u: U| #[trigger] final(self).accepts(t, u) == old(self).accepts(t, u),
            forall|t: T, u: U, r: R| #[trigger] final(self).produces(t, u, r) == old(self).produces(t, u, r),
    {
        self.name = owned_name(name);
    }

    /// Restricts a copy of this function to the inputs on which `predicate`
    /// holds; [`RcConditionalBiFunction::or_else`] then supplies the other branch.
    pub fn when<P>(&self, predicate: P) -> (res: RcConditionalBiFunction<T, U, R>)
        where
            P: BiPredicate<T, U> + 'static,
            T: 'static,
            U: 'static,
        ensures
            res.function() == *self,
            forall|t: T, u: U| predicate.accepts(t, u) ==> #[trigger] res.predicate().accepts(t, u),
            forall|t: T, u: U, b: bool| #[trigger] res.predicate().produces(t, u, b) ==> predicate.produces(t, u, b),
    {
        RcConditionalBiFunction { function: self.clone(), predicate: predicate.into_rc() }
    }

    /// A copy of this function followed by `after` on its result.
    pub fn and_then<S, F>(&self, after: F) -> (res: RcBiFunction<T, U, S>)
        where
            T: 'static,
            U: 'static,
            R: 'static,
            S: 'static,
            F: Function<R, S> + 'static,
        ensures
            forall|t: T, u: U| #[trigger] res.accepts(t, u) == then_accepts(*self, after, t, u),
            forall|t: T, u: U, s: S| #[trigger] res.produces(t, u, s) == then_produces(*self, after, t, u, s),
            res.spec_name() is None,
    {
        RcBiFunction::from_call(Then { first: self.clone(), after }, None)
    }

    /// This function as a plain closure.
    pub fn into_fn(self) -> (res: impl Fn(&T, &U) -> R)
        ensures
            forall|t: T, u: U| self.accepts(t, u) ==> call_requires(res, (&t, &u)),
            forall|t: T, u: U, r: R| call_ensures(res, (&t, &u), r) ==> self.produces(t, u, r),
    {
        move |t: &T, u: &U| -> (r: R)
            requires
                self.accepts(*t, *u),
            ensures
                self.produces(*t, *u, r),
        {
            self.function.call(t, u)
        }
    }

    /// A closure that calls a clone of this function, which stays usable.
    pub fn to_fn(&self) -> (res: impl Fn(&T, &U) -> R)
        ensures
            forall|t: T, u: U| self.accepts(t, u) ==> call_requires(res, (&t, &u)),
            forall|t: T, u: U, r: R| call_ensures(res, (&t, &u), r) ==> self.produces(t, u, r),
    {
        self.duplicate().into_fn()
    }
}

impl<T: 'static, U: 'static, R: Clone + 'static> RcBiFunction<T, U, R> {
    /// A function that returns a clone of `value` for every input.
    pub fn constant(value: R) -> (res: RcBiFunction<T, U, R>)
        ensures
            forall|t: T, u: U| #[trigger] res.accepts(t, u),
            forall|t: T, u: U, r: R| #[trigger] res.produces(t, u, r) == cloned::<R>(value, r),
            res.spec_name() is None,
    {
        RcBiFunction::from_call(Constant { value }, None)
    }
}

impl<T, U, R> RcBiFunction<T, U, R> {
    fn duplicate(&self) -> (res: Self)
        ensures
            res == *self,
    {
        RcBiFunction { function: self.function.clone(), name: clone_name(&self.name) }
    }
}

impl<T, U, R> Clone for RcBiFunction<T, U, R> {
    fn clone(&self) -> (res: Self)
        ensures
            res == *self,
    {
        self.duplicate()
    }
}

impl<T, U, R> Call2<T, U, R> for RcBiFunction<T, U, R> {
    closed spec fn pre(&self, t: T, u: U) -> bool {
        self.accepts(t, u)
    }

    closed spec fn post(&self, t: T, u: U, r: R) -> bool {
        self.produces(t, u, r)
    }

    fn call(&self, t: &T, u: &U) -> (r: R) {
        self.function.call(t, u)
    }
}

impl<T, U, R> CallOnce2<T, U, R> for RcBiFunction<T, U, R> {
    closed spec fn pre(&self, t: T, u: U) -> bool {
        self.accepts(t, u)
    }

    closed spec fn post(&self, t: T, u: U, r: R) -> bool {
        self.produces(t, u, r)
    }

    fn call_once(self: Box<Self>, t: &T, u: &U) -> (r: R) {
        self.function.call(t, u)
    }
}

impl<T, U, R> BiFunction<T, U, R> for RcBiFunction<T, U, R> {
    open spec fn accepts(&self, t: T, u: U) -> bool {
        RcBiFunction::accepts(self, t, u)
    }

    open spec fn produces(&self, t: T, u: U, r: R) -> bool {
        RcBiFunction::produces(self, t, u, r)
    }

    fn apply(&self, t: &T, u: &U) -> (r: R) {
        self.function.call(t, u)
    }

    fn into_box(self) -> (res: BoxBiFunction<T, U, R>)
        where
            Self: Sized + 'static,
            T: 'static,
            U: 'static,
            R: 'static,
        ensures
            forall|t: T, u: U| #[trigger] res.accepts(t, u) == self.accepts(t, u),
            forall|t: T, u: U, r: R| #[trigger] res.produces(t, u, r) == self.produces(t, u, r),
            res.spec_name() == self.spec_name(),
    {
        let name = clone_name(&self.name);
        BoxBiFunction::from_call(self, name)
    }

    fn into_rc(self) -> (res: RcBiFunction<T, U, R>)
        where
            Self: Sized + 'static,
            T: 'static,
            U: 'static,
            R: 'static,
    {
        self
    }

    fn into_once(self) -> (res: BoxBiFunctionOnce<T, U, R>)
        where
            Self: Sized + 'static,
            T: 'static,
            U: 'static,
            R: 'static,
        ensures
            forall|t: T, u: U| #[trigger] res.accepts(t, u) == self.accepts(t, u),
            forall|t: T, u: U, r: R| #[trigger] res.produces(t, u, r) == self.produces(t, u, r),
            res.spec_name() == self.spec_name(),
    {
        let name = clone_name(&self.name);
        BoxBiFunctionOnce::from_call_once(self, name)
    }

    fn to_box(&self) -> (res: BoxBiFunction<T, U, R>)
        where
            Self: Clone + 'static,
            T: 'static,
            U: 'static,
            R: 'static,
        ensures
            forall|t: T, u: U| #[trigger] res.accepts(t, u) == self.accepts(t, u),
            forall|t: T, u: U, r: R| #[trigger] res.produces(t, u, r) == self.produces(t, u, r),
            res.spec_name() == self.spec_name(),
    {
        let res = BoxBiFunction::from_call(self.duplicate(), clone_name(&self.name));
        assert(cloned::<Self>(*self, *self));
        res
    }

    fn to_rc(&self) -> (res: RcBiFunction<T, U, R>)
        where
            Self: Clone + 'static,
            T: 'static,
            U: 'static,
            R: 'static,
        ensures
            res == *self,
    {
        let res = self.duplicate();
        assert(cloned::<Self>(*self, *self));
        res
    }

    fn to_once(&self) -> (res: BoxBiFunctionOnce<T, U, R>)
        where
            Self: Clone + 'static,
            T: 'static,
            U: 'static,
            R: 'static,
        ensures
            forall|t: T, u: U| #[trigger] res.accepts(t, u) == self.accepts(t, u),
            forall|t: T, u: U, r: R| #[trigger] res.produces(t, u, r) == self.produces(t, u, r),
            res.spec_name() == self.spec_name(),
    {
        let res = BoxBiFunctionOnce::from_call_once(self.duplicate(), clone_name(&self.name));
        assert(cloned::<Self>(*self, *self));
        res
    }
}

/// A function behind an `Arc`: shared, thread-safe.
#[verifier::reject_recursive_types(T)]
#[verifier::reject_recursive_types(U)]
#[verifier::reject_recursive_types(R)]
pub struct ArcBiFunction<T, U, R> {
    function: Arc<Box<dyn SyncCall2<T, U, R>>>,
    name: Option<String>,
}

impl<T, U, R> ArcBiFunction<T, U, R> {
    pub closed spec fn accepts(&self, t: T, u: U) -> bool {
        self.function.sync_pre(t, u)
    }

    pub closed spec fn produces(&self, t: T, u: U, r: R) -> bool {
        self.function.sync_post(t, u, r)
    }

    pub closed spec fn spec_name(&self) -> Option<Seq<char>> {
        name_view(self.name)
    }

    pub(crate) fn from_call<C: Call2<T, U, R> + Send + Sync + 'static>(c: C, name: Option<String>) -> (res: Self)
        ensures
            forall|t: T, u: U| #[trigger] res.accepts(t, u) == c.pre(t, u),
            forall|t: T, u: U, r: R| #[trigger] res.produces(t, u, r) == c.post(t, u, r),
            res.spec_name() == name_view(name),
    {
        assert(forall|t: T, u: U| #[trigger] SyncCall2::<T, U, R>::sync_pre(&c, t, u) == c.pre(t, u));
        assert(forall|t: T, u: U, r: R| #[trigger] SyncCall2::<T, U, R>::sync_post(&c, t, u, r) == c.post(t, u, r));
        let function: Box<dyn SyncCall2<T, U, R>> = Box::new(c);
        assert(forall|t: T, u: U| #[trigger] function.sync_pre(t, u) == c.pre(t, u));
        assert(forall|t: T, u: U, r: R| #[trigger] function.sync_post(t, u, r) == c.post(t, u, r));
        ArcBiFunction { function: Arc::new(function), name }
    }

    /// Wraps the closure `f`.
    pub fn new<F>(f: F) -> (res: Self)
        where
            F: Fn(&T, &U) -> R + Send + Sync + 'static,
        ensures
            forall|t: T, u: U| #[trigger] res.accepts(t, u) == call_requires(f, (&t, &u)),
            forall|t: T, u: U, r: R| #[trigger] res.produces(t, u, r) == call_ensures(f, (&t, &u), r),
            res.spec_name() is None,
    {
        Self::from_call(f, None)
    }

    /// Wraps the closure `f` under the name `name`.
    pub fn new_with_name<F>(name: &str, f: F) -> (res: Self)
        where
            F: Fn(&T, &U) -> R + Send + Sync + 'static,
        ensures
            forall|t: T, u: U| #[trigger] res.accepts(t, u) == call_requires(f, (&t, &u)),
            forall|t: T, u: U, r: R| #[trigger] res.produces(t, u, r) == call_ensures(f, (&t, &u), r),
            res.spec_name() == Some(name@),
    {
        Self::from_call(f, owned_name(name))
    }

    /// Wraps the closure `f` under the name `name`, if there is one.
    pub fn new_with_optional_name<F>(f: F, name: Option<String>) -> (res: Self)
        where
            F: Fn(&T, &U) -> R + Send + Sync + 'static,
        ensures
            forall|t: T, u: U| #[trigger] res.accepts(t, u) == call_requires(f, (&t, &u)),
            forall|t: T, u: U, r: R| #[trigger] res.produces(t, u, r) == call_ensures(f, (&t, &u), r),
            res.spec_name() == name_view(name),
    {
        Self::from_call(f, name)
    }

    /// The name of this function, if it has one.
    pub fn name(&self) -> (res: Option<&str>)
        ensures
            match res {
                Some(s) => self.spec_name() == Some(s@),
                None => self.spec_name() is None,
            },
    {
        name_str(&self.name)
    }

    /// Gives this function the name `name`; its behaviour stays the same.
    pub fn set_name(&mut self, name: &str)
        ensures
            final(self).spec_name() == Some(name@),
            forall|t: T, u: U| #[trigger] final(self).accepts(t, u) == old(self).accepts(t, u),
            forall|t: T, u: U, r: R| #[trigger] final(self).produces(t, u, r) == old(self).produces(t, u, r),
    {
        self.name = owned_name(name);
    }

    /// Restricts a copy of this function to the inputs on which `predicate`
    /// holds; [`ArcConditionalBiFunction::or_else`] then supplies the other branch.
    pub fn when<P>(&self, predicate: P) -> (res: ArcConditionalBiFunction<T, U, R>)
        where
            P: BiPredicate<T, U> + Send + Sync + 'static,
            T: 'static,
            U: 'static,
        ensures
            res.function() == *self,
            forall|t: T, u: U| predicate.accepts(t, u) ==> #[trigger] res.predicate().accepts(t, u),
            forall|t: T, u: U, b: bool| #[trigger] res.predicate().produces(t, u, b) ==> predicate.produces(t, u, b),
    {
        ArcConditionalBiFunction { function: self.clone(), predicate: predicate.into_arc() }
    }

    /// A copy of this function followed by `after` on its result.
    pub fn and_then<S, F>(&self, after: F) -> (res: ArcBiFunction<T, U, S>)
        where
            T: 'static,
            U: 'static,
            R: 'static,
            S: 'static,
            F: Function<R, S> + Send + Sync + 'static,
        ensures
            forall|t: T, u: U| #[trigger] res.accepts(t, u) == then_accepts(*self, after, t, u),
            forall|t: T, u: U, s: S| #[trigger] res.produces(t, u, s) == then_produces(*self, after, t, u, s),
            res.spec_name() is None,
    {
        ArcBiFunction::from_call(Then { first: self.clone(), after }, None)
    }

    /// This function as a plain closure.
    pub fn into_fn(self) -> (res: impl Fn(&T, &U) -> R)
        ensures
            forall|t: T, u: U| self.accepts(t, u) ==> call_requires(res, (&t, &u)),
            forall|t: T, u: U, r: R| call_ensures(res, (&t, &u), r) ==> self.produces(t, u, r),
    {
        move |t: &T, u: &U| -> (r: R)
            requires
                self.accepts(*t, *u),
            ensures
                self.produces(*t, *u, r),
        {
            self.function.sync_call(t, u)
        }
    }

    /// A closure that calls a clone of this function, which stays usable.
    pub fn to_fn(&self) -> (res: impl Fn(&T, &U) -> R)
        ensures
            forall|t: T, u: U| self.accepts(t, u) ==> call_requires(res, (&t, &u)),
            forall|t: T, u: U, r: R| call_ensures(res, (&t, &u), r) ==> self.produces(t, u, r),
    {
        self.duplicate().into_fn()
    }
}

impl<T: 'static, U: 'static, R: Clone + Send + Sync + 'static> ArcBiFunction<T, U, R> {
    /// A function that returns a clone of `value` for every input.
    pub fn constant(value: R) -> (res: ArcBiFunction<T, U, R>)
        ensures
            forall|t: T, u: U| #[trigger] res.accepts(t, u),
            forall|t: T, u: U, r: R| #[trigger] res.produces(t, u, r) == cloned::<R>(value, r),
            res.spec_name() is None,
    {
        ArcBiFunction::from_call(Constant { value }, None)
    }
}

impl<T, U, R> ArcBiFunction<T, U, R> {
    fn duplicate(&self) -> (res: Self)
        ensures
            res == *self,
    {
        ArcBiFunction { function: self.function.clone(), name: clone_name(&self.name) }
    }
}

impl<T, U, R> Clone for ArcBiFunction<T, U, R> {
    fn clone(&self) -> (res: Self)
        ensures
            res == *self,
    {
        self.duplicate()
    }
}

impl<T, U, R> Call2<T, U, R> for ArcBiFunction<T, U, R> {
    closed spec fn pre(&self, t: T, u: U) -> bool {
        self.accepts(t, u)
    }

    closed spec fn post(&self, t: T, u: U, r: R) -> bool {
        self.produces(t, u, r)
    }

    fn call(&self, t: &T, u: &U) -> (r: R) {
        self.function.sync_call(t, u)
    }
}

impl<T, U, R> CallOnce2<T, U, R> for ArcBiFunction<T, U, R> {
    closed spec fn pre(&self, t: T, u: U) -> bool {
        self.accepts(t, u)
    }

    closed spec fn post(&self, t: T, u: U, r: R) -> bool {
        self.produces(t, u, r)
    }

    fn call_once(self: Box<Self>, t: &T, u: &U) -> (r: R) {
        self.function.sync_call(t, u)
    }
}

impl<T, U, R> BiFunction<T, U, R> for ArcBiFunction<T, U, R> {
    open spec fn accepts(&self, t: T, u: U) -> bool {
        ArcBiFunction::accepts(self, t, u)
    }

    open spec fn produces(&self, t: T, u: U, r: R) -> bool {
        ArcBiFunction::produces(self, t, u, r)
    }

    fn apply(&self, t: &T, u: &U) -> (r: R) {
        self.function.sync_call(t, u)
    }

    fn into_box(self) -> (res: BoxBiFunction<T, U, R>)
        where
            Self: Sized + 'static,
            T: 'static,
            U: 'static,
            R: 'static,
        ensures
            forall|t: T, u: U| #[trigger] res.accepts(t, u) == self.accepts(t, u),
            forall|t: T, u: U, r: R| #[trigger] res.produces(t, u, r) == self.produces(t, u, r),
            res.spec_name() == self.spec_name(),
    {
        let name = clone_name(&self.name);
        BoxBiFunction::from_call(self, name)
    }

    fn into_rc(self) -> (res: RcBiFunction<T, U, R>)
        where
            Self: Sized + 'static,
            T: 'static,
            U: 'static,
            R: 'static,
        ensures
            forall|t: T, u: U| #[trigger] res.accepts(t, u) == self.accepts(t, u),
            forall|t: T, u: U, r: R| #[trigger] res.produces(t, u, r) == self.produces(t, u, r),
            res.spec_name() == self.spec_name(),
    {
        let name = clone_name(&self.name);
        RcBiFunction::from_call(self, name)
    }

    fn into_arc(self) -> (res: ArcBiFunction<T, U, R>)
        where
            Self: Sized + Send + Sync + 'static,
            T: 'static,
            U: 'static,
            R: 'static,
    {
        self
    }

    fn into_once(self) -> (res: BoxBiFunctionOnce<T, U, R>)
        where
            Self: Sized + 'static,
            T: 'static,
            U: 'static,
            R: 'static,
        ensures
            forall|t: T, u: U| #[trigger] res.accepts(t, u) == self.accepts(t, u),
            forall|t: T, u: U, r: R| #[trigger] res.produces(t, u, r) == self.produces(t, u, r),
            res.spec_name() == self.spec_name(),
    {
        let name = clone_name(&self.name);
        BoxBiFunctionOnce::from_call_once(self, name)
    }

    fn to_box(&self) -> (res: BoxBiFunction<T, U, R>)
        where
            Self: Clone + 'static,
            T: 'static,
            U: 'static,
            R: 'static,
        ensures
            forall|t: T, u: U| #[trigger] res.accepts(t, u) == self.accepts(t, u),
            forall|t: T, u: U, r: R| #[trigger] res.produces(t, u, r) == self.produces(t, u, r),
            res.spec_name() == self.spec_name(),
    {
        let res = BoxBiFunction::from_call(self.duplicate(), clone_name(&self.name));
        assert(cloned::<Self>(*self, *self));
        res
    }

    fn to_rc(&self) -> (res: RcBiFunction<T, U, R>)
        where
            Self: Clone + 'static,
            T: 'static,
            U: 'static,
            R: 'static,
        ensures
            forall|t: T, u: U| #[trigger] res.accepts(t, u) == self.accepts(t, u),
            forall|t: T, u: U, r: R| #[trigger] res.produces(t, u, r) == self.produces(t, u, r),
            res.spec_name() == self.spec_name(),
    {
        let res = RcBiFunction::from_call(self.duplicate(), clone_name(&self.name));
        assert(cloned::<Self>(*self, *self));
        res
    }

    fn to_arc(&self) -> (res: ArcBiFunction<T, U, R>)
        where
            Self: Clone + Send + Sync + 'static,
            T: 'static,
            U: 'static,
            R: 'static,
        ensures
            res == *self,
    {
        let res = self.duplicate();
        assert(cloned::<Self>(*self, *self));
        res
    }

    fn to_once(&self) -> (res: BoxBiFunctionOnce<T, U, R>)
        where
            Self: Clone + 'static,
            T: 'static,
            U: 'static,
            R: 'static,
        ensures
            forall|t: T, u: U| #[trigger] res.accepts(t, u) == self.accepts(t, u),
            forall|t: T, u: U, r: R| #[trigger] res.produces(t, u, r) == self.produces(t, u, r),
            res.spec_name() == self.spec_name(),
    {
        let res = BoxBiFunctionOnce::from_call_once(self.duplicate(), clone_name(&self.name));
        assert(cloned::<Self>(*self, *self));
        res
    }
}

/// A [`BoxBiFunction`] restricted by a predicate, waiting for the branch that
/// [`BoxConditionalBiFunction::or_else`] supplies.
#[verifier::reject_recursive_types(T)]
#[verifier::reject_recursive_types(U)]
#[verifier::reject_recursive_types(R)]
pub struct BoxConditionalBiFunction<T, U, R> {
    function: BoxBiFunction<T, U, R>,
    predicate: BoxBiPredicate<T, U>,
}

impl<T: 'static, U: 'static, R: 'static> BoxConditionalBiFunction<T, U, R> {
    pub closed spec fn function(&self) -> BoxBiFunction<T, U, R> {
        self.function
    }

    pub closed spec fn predicate(&self) -> BoxBiPredicate<T, U> {
        self.predicate
    }

    /// The function that applies the guarded function where the predicate
    /// holds and `else_function` elsewhere.
    pub fn or_else<F>(self, else_function: F) -> (res: BoxBiFunction<T, U, R>)
        where
            F: BiFunction<T, U, R> + 'static,
        ensures
            forall|t: T, u: U| #[trigger] res.accepts(t, u) == choice_accepts(self.predicate(), self.function(), else_function, t, u),
            forall|t: T, u: U, r: R| #[trigger] res.produces(t, u, r) == choice_produces(self.predicate(), self.function(), else_function, t, u, r),
            res.spec_name() is None,
    {
        BoxBiFunction::from_call(
            Choose { predicate: self.predicate, on_true: self.function, on_false: else_function },
            None,
        )
    }
}

/// An [`RcBiFunction`] restricted by a predicate, waiting for the branch that
/// [`RcConditionalBiFunction::or_else`] supplies.
#[verifier::reject_recursive_types(T)]
#[verifier::reject_recursive_types(U)]
#[verifier::reject_recursive_types(R)]
pub struct RcConditionalBiFunction<T, U, R> {
    function: RcBiFunction<T, U, R>,
    predicate: RcBiPredicate<T, U>,
}

impl<T: 'static, U: 'static, R: 'static> RcConditionalBiFunction<T, U, R> {
    pub closed spec fn function(&self) -> RcBiFunction<T, U, R> {
        self.function
    }

    pub closed spec fn predicate(&self) -> RcBiPredicate<T, U> {
        self.predicate
    }

    /// The function that applies the guarded function where the predicate
    /// holds and `else_function` elsewhere.
    pub fn or_else<F>(&self, else_function: F) -> (res: RcBiFunction<T, U, R>)
        where
            F: BiFunction<T, U, R> + 'static,
        ensures
            forall|t: T, u: U| #[trigger] res.accepts(t, u) == choice_accepts(self.predicate(), self.function(), else_function, t, u),
            forall|t: T, u: U, r: R| #[trigger] res.produces(t, u, r) == choice_produces(self.predicate(), self.function(), else_function, t, u, r),
            res.spec_name() is None,
    {
        RcBiFunction::from_call(
            Choose {
                predicate: self.predicate.clone(),
                on_true: self.function.clone(),
                on_false: else_function,
            },
            None,
        )
    }
}

impl<T, U, R> Clone for RcConditionalBiFunction<T, U, R> {
    fn clone(&self) -> (res: Self)
        ensures
            res == *self,
    {
        RcConditionalBiFunction { function: self.function.clone(), predicate: self.predicate.clone() }
    }
}

/// An [`ArcBiFunction`] restricted by a predicate, waiting for the branch that
/// [`ArcConditionalBiFunction::or_else`] supplies.
#[verifier::reject_recursive_types(T)]
#[verifier::reject_recursive_types(U)]
#[verifier::reject_recursive_types(R)]
pub struct ArcConditionalBiFunction<T, U, R> {
    function: ArcBiFunction<T, U, R>,
    predicate: ArcBiPredicate<T, U>,
}

impl<T: 'static, U: 'static, R: 'static> ArcConditionalBiFunction<T, U, R> {
    pub closed spec fn function(&self) -> ArcBiFunction<T, U, R> {
        self.function
    }

    pub closed spec fn predicate(&self) -> ArcBiPredicate<T, U> {
        self.predicate
    }

    /// The function that applies the guarded function where the predicate
    /// holds and `else_function` elsewhere.
    pub fn or_else<F>(&self, else_function: F) -> (res: ArcBiFunction<T, U, R>)
        where
            F: BiFunction<T, U, R> + Send + Sync + 'static,
        ensures
            forall|t: T, u: U| #[trigger] res.accepts(t, u) == choice_accepts(self.predicate(), self.function(), else_function, t, u),
            forall|t: T, u: U, r: R| #[trigger] res.produces(t, u, r) == choice_produces(self.predicate(), self.function(), else_function, t, u, r),
            res.spec_name() is None,
    {
        ArcBiFunction::from_call(
            Choose {
                predicate: self.predicate.clone(),
                on_true: self.function.clone(),
                on_false: else_function,
            },
            None,
        )
    }
}

impl<T, U, R> Clone for ArcConditionalBiFunction<T, U, R> {
    fn clone(&self) -> (res: Self)
        ensures
            res == *self,
    {
        ArcConditionalBiFunction { function: self.function.clone(), predicate: self.predicate.clone() }
    }
}

/// A conditional bi-function without an alternative: defined at `t`, `u`
/// when the predicate is, every possible answer is `true`, and the function is.
pub open spec fn guarded_accepts<T, U, R, P: BiPredicate<T, U>, G: BiFunction<T, U, R>>(
    p: P,
    g: G,
    t: T,
    u: U,
) -> bool {
    &&& p.accepts(t, u)
    &&& forall|b: bool| #[trigger] p.produces(t, u, b) ==> b
    &&& g.accepts(t, u)
}

impl<T: 'static, U: 'static, R: 'static> BiFunction<T, U, R> for RcConditionalBiFunction<T, U, R> {
    open spec fn accepts(&self, t: T, u: U) -> bool {
        guarded_accepts(self.predicate(), self.function(), t, u)
    }

    open spec fn produces(&self, t: T, u: U, r: R) -> bool {
        self.function().produces(t, u, r)
    }

    fn apply(&self, t: &T, u: &U) -> (r: R) {
        let b = self.predicate.test(t, u);
        assert(b);
        self.function.apply(t, u)
    }
}

impl<T: 'static, U: 'static, R: 'static> BiFunction<T, U, R> for ArcConditionalBiFunction<T, U, R> {
    open spec fn accepts(&self, t: T, u: U) -> bool {
        guarded_accepts(self.predicate(), self.function(), t, u)
    }

    open spec fn produces(&self, t: T, u: U, r: R) -> bool {
        self.function().produces(t, u, r)
    }

    fn apply(&self, t: &T, u: &U) -> (r: R) {
        let b = self.predicate.test(t, u);
        assert(b);
        self.function.apply(t, u)
    }
}

/// Composition and conditioning for plain two-argument closures.
pub trait FnBiFunctionOps<T, U, R>: Fn(&T, &U) -> R + Sized {
    /// This closure followed by `after` on its result.
    fn and_then<S, F>(self, after: F) -> (res: BoxBiFunction<T, U, S>)
        where
            Self: 'static,
            S: 'static,
            F: Function<R, S> + 'static,
            T: 'static,
            U: 'static,
            R: 'static,
        ensures
            forall|t: T, u: U| #[trigger] res.accepts(t, u) == then_accepts(self, after, t, u),
            forall|t: T, u: U, s: S| #[trigger] res.produces(t, u, s) == then_produces(self, after, t, u, s),
    {
        let first = BoxBiFunction::new(self);
        let res = first.and_then(after);
        assert forall|t: T, u: U| #[trigger] res.accepts(t, u) == then_accepts(self, after, t, u) by {
            assert(BiFunction::accepts(&first, t, u) == BiFunction::accepts(&self, t, u));
            assert(forall|m: R|
                #![trigger BiFunction::produces(&first, t, u, m)]
                #![trigger BiFunction::produces(&self, t, u, m)]
                BiFunction::produces(&first, t, u, m) == BiFunction::produces(&self, t, u, m));
        }
        assert forall|t: T, u: U, s: S| #[trigger] res.produces(t, u, s) == then_produces(self, after, t, u, s) by {
            assert(forall|m: R|
                #![trigger BiFunction::produces(&first, t, u, m)]
                #![trigger BiFunction::produces(&self, t, u, m)]
                BiFunction::produces(&first, t, u, m) == BiFunction::produces(&self, t, u, m));
        }
        res
    }

    /// This closure restricted to the inputs on which `predicate` holds.
    fn when<P>(self, predicate: P) -> (res: BoxConditionalBiFunction<T, U, R>)
        where
            Self: 'static,
            P: BiPredicate<T, U> + 'static,
            T: 'static,
            U: 'static,
            R: 'static,
        ensures
            forall|t: T, u: U| #[trigger] res.function().accepts(t, u) == call_requires(self, (&t, &u)),
            forall|t: T, u: U, r: R| #[trigger] res.function().produces(t, u, r) == call_ensures(self, (&t, &u), r),
            forall|t: T, u: U| predicate.accepts(t, u) ==> #[trigger] res.predicate().accepts(t, u),
            forall|t: T, u: U, b: bool| #[trigger] res.predicate().produces(t, u, b) ==> predicate.produces(t, u, b),
    {
        BoxBiFunction::new(self).when(predicate)
    }
}

impl<T, U, R, F: Fn(&T, &U) -> R> FnBiFunctionOps<T, U, R> for F {

}

/// `first` followed by `after`: defined at `t`, `u` when `first` is, and `after`
/// is defined at each result that `first` may give for them.
pub open spec fn then_accepts<T, U, M, R, G: BiFunction<T, U, M>, F: Function<M, R>>(g: G, f: F, t: T, u: U) -> bool {
    &&& g.accepts(t, u)
    &&& forall|m: M| #[trigger] g.produces(t, u, m) ==> f.accepts(m)
}

/// `first` followed by `after`: `r` is a possible result when some
/// intermediate value `m` of `first` leads `after` to `r`.
pub open spec fn then_produces<T, U, M, R, G: BiFunction<T, U, M>, F: Function<M, R>>(
    g: G,
    f: F,
    t: T,
    u: U,
    r: R,
) -> bool {
    exists|m: M| #[trigger] g.produces(t, u, m) && f.produces(m, r)
}

/// A choice between two functions by a predicate: defined at `t` when the
/// predicate is, and the branch that each possible answer selects is.
pub open spec fn choice_accepts<T, U, R, P: BiPredicate<T, U>, G: BiFunction<T, U, R>, E: BiFunction<T, U, R>>(
    p: P,
    g: G,
    e: E,
    t: T,
    u: U,
) -> bool {
    &&& p.accepts(t, u)
    &&& forall|b: bool| #[trigger] p.produces(t, u, b) ==> if b {
        g.accepts(t, u)
    } else {
        e.accepts(t, u)
    }
}

/// A choice between two functions by a predicate: `r` is a possible result
/// when some answer of the predicate selects a branch that may give `r`.
pub open spec fn choice_produces<T, U, R, P: BiPredicate<T, U>, G: BiFunction<T, U, R>, E: BiFunction<T, U, R>>(
    p: P,
    g: G,
    e: E,
    t: T,
    u: U,
    r: R,
) -> bool {
    exists|b: bool| #[trigger] p.produces(t, u, b) && if b {
        g.produces(t, u, r)
    } else {
        e.produces(t, u, r)
    }
}

/// Sequencing a two-argument function with two one-argument functions is
/// associative: `bf` followed by `g`, and `b` followed by `fg`, accept the
/// same pairs and give the same results, where `bf` behaves as `b` followed
/// by `f` and `fg` as `f` followed by `g` (as the results of `and_then` do).
pub proof fn law_then_associative<T, U, M, N, R, B, F, G, BF, FG>(b: B, f: F, g: G, bf: BF, fg: FG, t: T, u: U)
    where
        B: BiFunction<T, U, M>,
        F: Function<M, N>,
        G: Function<N, R>,
        BF: BiFunction<T, U, N>,
        FG: Function<M, R>,
    requires
        forall|x: T, y: U| #[trigger] bf.accepts(x, y) == then_accepts(b, f, x, y),
        forall|x: T, y: U, n: N| #[trigger] bf.produces(x, y, n) == then_produces(b, f, x, y, n),
        forall|m: M| #[trigger] fg.accepts(m) == crate::functions::function::then_accepts(f, g, m),
        forall|m: M, r: R| #[trigger] fg.produces(m, r) == crate::functions::function::then_produces(f, g, m, r),
    ensures
        then_accepts(bf, g, t, u) == then_accepts(b, fg, t, u),
        forall|r: R| #[trigger] then_produces(bf, g, t, u, r) == then_produces(b, fg, t, u, r),
{
    if then_accepts(bf, g, t, u) {
        assert forall|m: M| #[trigger] b.produces(t, u, m) implies fg.accepts(m) by {
            assert forall|n: N| #[trigger] f.produces(m, n) implies g.accepts(n) by {
                assert(bf.produces(t, u, n));
            }
        }
    }
    if then_accepts(b, fg, t, u) {
        assert forall|n: N| #[trigger] bf.produces(t, u, n) implies g.accepts(n) by {
            let m = choose|m: M| #[trigger] b.produces(t, u, m) && f.produces(m, n);
            assert(fg.accepts(m));
        }
    }
    assert forall|r: R| #[trigger] then_produces(bf, g, t, u, r) == then_produces(b, fg, t, u, r) by {
        if then_produces(bf, g, t, u, r) {
            let n = choose|n: N| #[trigger] bf.produces(t, u, n) && g.produces(n, r);
            let m = choose|m: M| #[trigger] b.produces(t, u, m) && f.produces(m, n);
            assert(fg.produces(m, r));
        }
        if then_produces(b, fg, t, u, r) {
            let m = choose|m: M| #[trigger] b.produces(t, u, m) && fg.produces(m, r);
            let n = choose|n: N| #[trigger] f.produces(m, n) && g.produces(n, r);
            assert(bf.produces(t, u, n));
        }
    }
}

/// Calls `first`, then `after` on its result.
struct Then<G, F> {
    first: G,
    after: F,
}

impl<T, U, M, R, F: Function<M, R>> Call2<T, U, R> for Then<BoxBiFunction<T, U, M>, F> {
    closed spec fn pre(&self, t: T, u: U) -> bool {
        then_accepts(self.first, self.after, t, u)
    }

    closed spec fn post(&self, t: T, u: U, r: R) -> bool {
        then_produces(self.first, self.after, t, u, r)
    }

    fn call(&self, t: &T, u: &U) -> (r: R) {
        let m = self.first.apply(t, u);
        self.after.apply(&m)
    }
}

impl<T, U, M, R, F: Function<M, R>> Call2<T, U, R> for Then<RcBiFunction<T, U, M>, F> {
    closed spec fn pre(&self, t: T, u: U) -> bool {
        then_accepts(self.first, self.after, t, u)
    }

    closed spec fn post(&self, t: T, u: U, r: R) -> bool {
        then_produces(self.first, self.after, t, u, r)
    }

    fn call(&self, t: &T, u: &U) -> (r: R) {
        let m = self.first.apply(t, u);
        self.after.apply(&m)
    }
}

impl<T, U, M, R, F: Function<M, R>> Call2<T, U, R> for Then<ArcBiFunction<T, U, M>, F> {
    closed spec fn pre(&self, t: T, u: U) -> bool {
        then_accepts(self.first, self.after, t, u)
    }

    closed spec fn post(&self, t: T, u: U, r: R) -> bool {
        then_produces(self.first, self.after, t, u, r)
    }

    fn call(&self, t: &T, u: &U) -> (r: R) {
        let m = self.first.apply(t, u);
        self.after.apply(&m)
    }
}

/// Selects `on_true` or `on_false` by `predicate`.
struct Choose<P, G, E> {
    predicate: P,
    on_true: G,
    on_false: E,
}

impl<T, U, R, P: BiPredicate<T, U>, G: BiFunction<T, U, R>, E: BiFunction<T, U, R>> Call2<T, U, R> for Choose<P, G, E> {
    closed spec fn pre(&self, t: T, u: U) -> bool {
        choice_accepts(self.predicate, self.on_true, self.on_false, t, u)
    }

    closed spec fn post(&self, t: T, u: U, r: R) -> bool {
        choice_produces(self.predicate, self.on_true, self.on_false, t, u, r)
    }

    fn call(&self, t: &T, u: &U) -> (r: R) {
        if self.predicate.test(t, u) {
            self.on_true.apply(t, u)
        } else {
            self.on_false.apply(t, u)
        }
    }
}

/// A [`BoxBiFunction`] whose two arguments have the same type.
pub type BoxBinaryFunction<T, R> = BoxBiFunction<T, T, R>;

/// An [`ArcBiFunction`] whose two arguments have the same type.
pub type ArcBinaryFunction<T, R> = ArcBiFunction<T, T, R>;

/// An [`RcBiFunction`] whose two arguments have the same type.
pub type RcBinaryFunction<T, R> = RcBiFunction<T, T, R>;

} // verus!
