//! Functions that take two arguments by mutable reference, may change them,
//! and compute a result (`Fn(&mut T, &mut U) -> R`), in boxed, `Rc` and
//! `Arc` flavours, with conditional variants.
//!
//! `produces(m, n, r)` relates references `m` and `n` to a result `r`: a
//! reference stands for the value it held when the call started
//! (`mut_ref_current`) and the value it holds when the call returns
//! (`mut_ref_future`).
use std::rc::Rc;
use std::sync::Arc;
use vstd::prelude::*;

use crate::functions::bi_mutating_function_once::BoxBiMutatingFunctionOnce;
use crate::functions::function::Function;
use crate::mutating_call::{MutCall2, MutCallOnce2, SyncMutCall2};
use crate::names::{clone_name, name_str, name_view, owned_name};
use crate::predicates::{ArcBiPredicate, BiPredicate, BoxBiPredicate, RcBiPredicate};

verus! {

/// A function that may change the two values it is given and computes a
/// result.
///
/// `accepts(t, u)` is what must hold of the values before `apply`;
/// `produces(m, n, r)` says that a call may take `m` and `n` from their
/// values before to their values after and give `r`.
pub trait BiMutatingFunction<T, U, R> {
    spec fn accepts(&self, t: T, u: U) -> bool;

    spec fn produces(&self, m: &mut T, n: &mut U, r: R) -> bool;

    fn apply(&self, first: &mut T, second: &mut U) -> (r: R)
        requires
            self.accepts(*old(first), *old(second)),
        ensures
            exists|m: &mut T, n: &mut U|
                mut_ref_current(m) == *old(first) && mut_ref_future(m) == *final(first) && mut_ref_current(n)
                    == *old(second) && mut_ref_future(n) == *final(second) && #[trigger] self.produces(m, n, r),
    ;

    /// Moves this function into a [`BoxBiMutatingFunction`] that calls it.
    fn into_box(self) -> (res: BoxBiMutatingFunction<T, U, R>)
        where
            Self: Sized + 'static,
            T: 'static,
            U: 'static,
            R: 'static,
        ensures
            forall|t: T, u: U| self.accepts(t, u) ==> #[trigger] res.accepts(t, u),
            forall|m: &mut T, n: &mut U, r: R| #[trigger]
                res.produces(m, n, r) ==> exists|m2: &mut T, n2: &mut U|
                    #![trigger self.produces(m2, n2, r)]
                    mut_ref_current(m2) == mut_ref_current(m) && mut_ref_future(m2) == mut_ref_future(m) && mut_ref_current(n2) == mut_ref_current(n)
                        && mut_ref_future(n2) == mut_ref_future(n) && self.produces(m2, n2, r),
    {
        let f = move |t: &mut T, u: &mut U| -> (r: R)
            requires
                self.accepts(*old(t), *old(u)),
            ensures
                exists|m: &mut T, n: &mut U|
                    mut_ref_current(m) == *old(t) && mut_ref_future(m) == *final(t) && mut_ref_current(n)
                        == *old(u) && mut_ref_future(n) == *final(u) && #[trigger] self.produces(m, n, r),
        {
            let r = self.apply(t, u);
            proof {
                assert(exists|m: &mut T, n: &mut U|
                    mut_ref_current(m) == *old(t) && mut_ref_future(m) == *t && mut_ref_current(n) == *old(u)
                        && mut_ref_future(n) == *u && #[trigger] self.produces(m, n, r));
                assert(*t == *final(t) && *u == *final(u));
            }
            r
        };
        BoxBiMutatingFunction::new(f)
    }

    /// Moves this function into an [`RcBiMutatingFunction`] that calls it.
    fn into_rc(self) -> (res: RcBiMutatingFunction<T, U, R>)
        where
            Self: Sized + 'static,
            T: 'static,
            U: 'static,
            R: 'static,
        ensures
            forall|t: T, u: U| self.accepts(t, u) ==> #[trigger] res.accepts(t, u),
            forall|m: &mut T, n: &mut U, r: R| #[trigger]
                res.produces(m, n, r) ==> exists|m2: &mut T, n2: &mut U|
                    #![trigger self.produces(m2, n2, r)]
                    mut_ref_current(m2) == mut_ref_current(m) && mut_ref_future(m2) == mut_ref_future(m) && mut_ref_current(n2) == mut_ref_current(n)
                        && mut_ref_future(n2) == mut_ref_future(n) && self.produces(m2, n2, r),
    {
        let f = move |t: &mut T, u: &mut U| -> (r: R)
            requires
                self.accepts(*old(t), *old(u)),
            ensures
                exists|m: &mut T, n: &mut U|
                    mut_ref_current(m) == *old(t) && mut_ref_future(m) == *final(t) && mut_ref_current(n)
                        == *old(u) && mut_ref_future(n) == *final(u) && #[trigger] self.produces(m, n, r),
        {
            let r = self.apply(t, u);
            proof {
                assert(exists|m: &mut T, n: &mut U|
                    mut_ref_current(m) == *old(t) && mut_ref_future(m) == *t && mut_ref_current(n) == *old(u)
                        && mut_ref_future(n) == *u && #[trigger] self.produces(m, n, r));
                assert(*t == *final(t) && *u == *final(u));
            }
            r
        };
        RcBiMutatingFunction::new(f)
    }

    /// Moves this function into an [`ArcBiMutatingFunction`] that calls it.
    fn into_arc(self) -> (res: ArcBiMutatingFunction<T, U, R>)
        where
            Self: Sized + Send + Sync + 'static,
            T: 'static,
            U: 'static,
            R: 'static,
        ensures
            forall|t: T, u: U| self.accepts(t, u) ==> #[trigger] res.accepts(t, u),
            forall|m: &mut T, n: &mut U, r: R| #[trigger]
                res.produces(m, n, r) ==> exists|m2: &mut T, n2: &mut U|
                    #![trigger self.produces(m2, n2, r)]
                    mut_ref_current(m2) == mut_ref_current(m) && mut_ref_future(m2) == mut_ref_future(m) && mut_ref_current(n2) == mut_ref_current(n)
                        && mut_ref_future(n2) == mut_ref_future(n) && self.produces(m2, n2, r),
    {
        let f = move |t: &mut T, u: &mut U| -> (r: R)
            requires
                self.accepts(*old(t), *old(u)),
            ensures
                exists|m: &mut T, n: &mut U|
                    mut_ref_current(m) == *old(t) && mut_ref_future(m) == *final(t) && mut_ref_current(n)
                        == *old(u) && mut_ref_future(n) == *final(u) && #[trigger] self.produces(m, n, r),
        {
            let r = self.apply(t, u);
            proof {
                assert(exists|m: &mut T, n: &mut U|
                    mut_ref_current(m) == *old(t) && mut_ref_future(m) == *t && mut_ref_current(n) == *old(u)
                        && mut_ref_future(n) == *u && #[trigger] self.produces(m, n, r));
                assert(*t == *final(t) && *u == *final(u));
            }
            r
        };
        ArcBiMutatingFunction::new(f)
    }

    /// Moves this function into a [`BoxBiMutatingFunctionOnce`] that calls it.
    fn into_once(self) -> (res: BoxBiMutatingFunctionOnce<T, U, R>)
        where
            Self: Sized + 'static,
            T: 'static,
            U: 'static,
            R: 'static,
        ensures
            forall|t: T, u: U| self.accepts(t, u) ==> #[trigger] res.accepts(t, u),
            forall|m: &mut T, n: &mut U, r: R| #[trigger]
                res.produces(m, n, r) ==> exists|m2: &mut T, n2: &mut U|
                    #![trigger self.produces(m2, n2, r)]
                    mut_ref_current(m2) == mut_ref_current(m) && mut_ref_future(m2) == mut_ref_future(m) && mut_ref_current(n2) == mut_ref_current(n)
                        && mut_ref_future(n2) == mut_ref_future(n) && self.produces(m2, n2, r),
    {
        let f = move |t: &mut T, u: &mut U| -> (r: R)
            requires
                self.accepts(*old(t), *old(u)),
            ensures
                exists|m: &mut T, n: &mut U|
                    mut_ref_current(m) == *old(t) && mut_ref_future(m) == *final(t) && mut_ref_current(n)
                        == *old(u) && mut_ref_future(n) == *final(u) && #[trigger] self.produces(m, n, r),
        {
            let r = self.apply(t, u);
            proof {
                assert(exists|m: &mut T, n: &mut U|
                    mut_ref_current(m) == *old(t) && mut_ref_future(m) == *t && mut_ref_current(n) == *old(u)
                        && mut_ref_future(n) == *u && #[trigger] self.produces(m, n, r));
                assert(*t == *final(t) && *u == *final(u));
            }
            r
        };
        BoxBiMutatingFunctionOnce::new(f)
    }

    /// A [`BoxBiMutatingFunction`] that calls a clone of this function.
    fn to_box(&self) -> (res: BoxBiMutatingFunction<T, U, R>)
        where
            Self: Clone + 'static,
            T: 'static,
            U: 'static,
            R: 'static,
        ensures
            exists|c: Self| cloned::<Self>(*self, c) && ({
                &&& forall|t: T, u: U| c.accepts(t, u) ==> #[trigger] res.accepts(t, u)
                &&& forall|m: &mut T, n: &mut U, r: R| #[trigger]
                    res.produces(m, n, r) ==> exists|m2: &mut T, n2: &mut U|
                        #![trigger c.produces(m2, n2, r)]
                        mut_ref_current(m2) == mut_ref_current(m) && mut_ref_future(m2) == mut_ref_future(m)
                            && mut_ref_current(n2) == mut_ref_current(n) && mut_ref_future(n2) == mut_ref_future(n)
                            && c.produces(m2, n2, r)
            }),
    {
        let c = self.clone();
        let res = c.into_box();
        assert(cloned::<Self>(*self, c));
        res
    }

    /// An [`RcBiMutatingFunction`] that calls a clone of this function.
    fn to_rc(&self) -> (res: RcBiMutatingFunction<T, U, R>)
        where
            Self: Clone + 'static,
            T: 'static,
            U: 'static,
            R: 'static,
        ensures
            exists|c: Self| cloned::<Self>(*self, c) && ({
                &&& forall|t: T, u: U| c.accepts(t, u) ==> #[trigger] res.accepts(t, u)
                &&& forall|m: &mut T, n: &mut U, r: R| #[trigger]
                    res.produces(m, n, r) ==> exists|m2: &mut T, n2: &mut U|
                        #![trigger c.produces(m2, n2, r)]
                        mut_ref_current(m2) == mut_ref_current(m) && mut_ref_future(m2) == mut_ref_future(m)
                            && mut_ref_current(n2) == mut_ref_current(n) && mut_ref_future(n2) == mut_ref_future(n)
                            && c.produces(m2, n2, r)
            }),
    {
        let c = self.clone();
        let res = c.into_rc();
        assert(cloned::<Self>(*self, c));
        res
    }

    /// An [`ArcBiMutatingFunction`] that calls a clone of this function.
    fn to_arc(&self) -> (res: ArcBiMutatingFunction<T, U, R>)
        where
            Self: Clone + Send + Sync + 'static,
            T: 'static,
            U: 'static,
            R: 'static,
        ensures
            exists|c: Self| cloned::<Self>(*self, c) && ({
                &&& forall|t: T, u: U| c.accepts(t, u) ==> #[trigger] res.accepts(t, u)
                &&& forall|m: &mut T, n: &mut U, r: R| #[trigger]
                    res.produces(m, n, r) ==> exists|m2: &mut T, n2: &mut U|
                        #![trigger c.produces(m2, n2, r)]
                        mut_ref_current(m2) == mut_ref_current(m) && mut_ref_future(m2) == mut_ref_future(m)
                            && mut_ref_current(n2) == mut_ref_current(n) && mut_ref_future(n2) == mut_ref_future(n)
                            && c.produces(m2, n2, r)
            }),
    {
        let c = self.clone();
        let res = c.into_arc();
        assert(cloned::<Self>(*self, c));
        res
    }

    /// A [`BoxBiMutatingFunctionOnce`] that calls a clone of this function.
    fn to_once(&self) -> (res: BoxBiMutatingFunctionOnce<T, U, R>)
        where
            Self: Clone + 'static,
            T: 'static,
            U: 'static,
            R: 'static,
        ensures
            exists|c: Self| cloned::<Self>(*self, c) && ({
                &&& forall|t: T, u: U| c.accepts(t, u) ==> #[trigger] res.accepts(t, u)
                &&& forall|m: &mut T, n: &mut U, r: R| #[trigger]
                    res.produces(m, n, r) ==> exists|m2: &mut T, n2: &mut U|
                        #![trigger c.produces(m2, n2, r)]
                        mut_ref_current(m2) == mut_ref_current(m) && mut_ref_future(m2) == mut_ref_future(m)
                            && mut_ref_current(n2) == mut_ref_current(n) && mut_ref_future(n2) == mut_ref_future(n)
                            && c.produces(m2, n2, r)
            }),
    {
        let c = self.clone();
        let res = c.into_once();
        assert(cloned::<Self>(*self, c));
        res
    }
}

impl<T, U, R, F: Fn(&mut T, &mut U) -> R> BiMutatingFunction<T, U, R> for F {
    open spec fn accepts(&self, t: T, u: U) -> bool {
        forall|m: &mut T, n: &mut U|
            mut_ref_current(m) == t && mut_ref_current(n) == u ==> #[trigger] call_requires(*self, (m, n))
    }

    open spec fn produces(&self, m: &mut T, n: &mut U, r: R) -> bool {
        call_ensures(*self, (m, n), r)
    }

    fn apply(&self, first: &mut T, second: &mut U) -> (r: R) {
        let r = (self)(first, second);
        proof {
            assert(exists|m: &mut T, n: &mut U|
                #[trigger] call_ensures(*self, (m, n), r) && mut_ref_current(m) == *old(first) && mut_ref_future(m)
                    == *first && mut_ref_current(n) == *old(second) && mut_ref_future(n) == *second);
            let (m, n) = choose|m: &mut T, n: &mut U|
                #[trigger] call_ensures(*self, (m, n), r) && mut_ref_current(m) == *old(first) && mut_ref_future(m)
                    == *first && mut_ref_current(n) == *old(second) && mut_ref_future(n) == *second;
            assert(BiMutatingFunction::<T, U, R>::produces(self, m, n, r));
            assert(*first == *final(first) && *second == *final(second));
        }
        r
    }
}

/// A bi-mutating function in a box: single ownership.
#[verifier::reject_recursive_types(T)]
#[verifier::reject_recursive_types(U)]
#[verifier::reject_recursive_types(R)]
pub struct BoxBiMutatingFunction<T, U, R> {
    function: Box<dyn MutCall2<T, U, R>>,
    name: Option<String>,
}

impl<T, U, R> BoxBiMutatingFunction<T, U, R> {
    pub closed spec fn accepts(&self, t: T, u: U) -> bool {
        self.function.pre(t, u)
    }

    pub closed spec fn produces(&self, m: &mut T, n: &mut U, r: R) -> bool {
        self.function.post(m, n, r)
    }

    pub closed spec fn spec_name(&self) -> Option<Seq<char>> {
        name_view(self.name)
    }

    pub(crate) fn from_call<C: MutCall2<T, U, R> + 'static>(c: C, name: Option<String>) -> (res: Self)
        ensures
            forall|t: T, u: U| #[trigger] res.accepts(t, u) == c.pre(t, u),
            forall|m: &mut T, n: &mut U, r: R| #[trigger] res.produces(m, n, r) == c.post(m, n, r),
            res.spec_name() == name_view(name),
    {
        let function: Box<dyn MutCall2<T, U, R>> = Box::new(c);
        assert(forall|t: T, u: U| #[trigger] function.pre(t, u) == c.pre(t, u));
        assert(forall|m: &mut T, n: &mut U, r: R| #[trigger] function.post(m, n, r) == c.post(m, n, r));
        BoxBiMutatingFunction { function, name }
    }

    /// Wraps the closure `f`.
    pub fn new<F>(f: F) -> (res: Self)
        where
            F: Fn(&mut T, &mut U) -> R + 'static,
        ensures
            forall|t: T, u: U| #[trigger]
                res.accepts(t, u) == (forall|m: &mut T, n: &mut U|
                    mut_ref_current(m) == t && mut_ref_current(n) == u ==> #[trigger] call_requires(f, (m, n))),
            forall|m: &mut T, n: &mut U, r: R| #[trigger] res.produces(m, n, r) == call_ensures(f, (m, n), r),
            res.spec_name() is None,
    {
        Self::from_call(f, None)
    }

    /// Wraps the closure `f` under the name `name`.
    pub fn new_with_name<F>(name: &str, f: F) -> (res: Self)
        where
            F: Fn(&mut T, &mut U) -> R + 'static,
        ensures
            forall|t: T, u: U| #[trigger]
                res.accepts(t, u) == (forall|m: &mut T, n: &mut U|
                    mut_ref_current(m) == t && mut_ref_current(n) == u ==> #[trigger] call_requires(f, (m, n))),
            forall|m: &mut T, n: &mut U, r: R| #[trigger] res.produces(m, n, r) == call_ensures(f, (m, n), r),
            res.spec_name() == Some(name@),
    {
        Self::from_call(f, owned_name(name))
    }

    /// Wraps the closure `f` under the name `name`, if there is one.
    pub fn new_with_optional_name<F>(f: F, name: Option<String>) -> (res: Self)
        where
            F: Fn(&mut T, &mut U) -> R + 'static,
        ensures
            forall|t: T, u: U| #[trigger]
                res.accepts(t, u) == (forall|m: &mut T, n: &mut U|
                    mut_ref_current(m) == t && mut_ref_current(n) == u ==> #[trigger] call_requires(f, (m, n))),
            forall|m: &mut T, n: &mut U, r: R| #[trigger] res.produces(m, n, r) == call_ensures(f, (m, n), r),
            res.spec_name() == name_view(name),
    {
        Self::from_call(f, name)
    }

    /// The name of this function, if it has one.
    pub fn name(&self) -> (res: Option<&str>)
        ensures
            match res {
                Some(s) => self.spec_name() == Some(s@),
                None => self.spec_name() is None,
            },
    {
        name_str(&self.name)
    }

    /// Gives this function the name `name`; its behaviour stays the same.
    pub fn set_name(&mut self, name: &str)
        ensures
            final(self).spec_name() == Some(name@),
            forall|t: T, u: U| #[trigger] final(self).accepts(t, u) == old(self).accepts(t, u),
            forall|m: &mut T, n: &mut U, r: R| #[trigger] final(self).produces(m, n, r) == old(self).produces(m, n, r),
    {
        self.name = owned_name(name);
    }

    /// Restricts this function to the values on which `predicate` holds before the
    /// call; [`BoxConditionalBiMutatingFunction::or_else`] then supplies the other branch.
    pub fn when<P>(self, predicate: P) -> (res: BoxConditionalBiMutatingFunction<T, U, R>)
        where
            P: BiPredicate<T, U> + 'static,
            T: 'static,
            U: 'static,
        ensures
            res.function() == self,
            forall|t: T, u: U| predicate.accepts(t, u) ==> #[trigger] res.predicate().accepts(t, u),
            forall|t: T, u: U, b: bool| #[trigger] res.predicate().produces(t, u, b) ==> predicate.produces(t, u, b),
    {
        BoxConditionalBiMutatingFunction { function: self, predicate: predicate.into_box() }
    }

    /// This function followed by `after` on its result.
    pub fn and_then<S, F>(self, after: F) -> (res: BoxBiMutatingFunction<T, U, S>)
        where
            T: 'static,
            U: 'static,
            R: 'static,
            S: 'static,
            F: Function<R, S> + 'static,
        ensures
            forall|t: T, u: U| #[trigger] res.accepts(t, u) == then_accepts(self, after, t, u),
            forall|m: &mut T, n: &mut U, s: S| #[trigger] res.produces(m, n, s) == then_produces(self, after, m, n, s),
            res.spec_name() is None,
    {
        BoxBiMutatingFunction::from_call(Then { first: self, after }, None)
    }

    /// This function as a plain closure.
    pub fn into_fn(self) -> (res: impl Fn(&mut T, &mut U) -> R)
        ensures
            forall|t: T, u: U| self.accepts(t, u) ==> res.accepts(t, u),
            forall|m: &mut T, n: &mut U, r: R| #[trigger]
                call_ensures(res, (m, n), r) ==> exists|m2: &mut T, n2: &mut U|
                    #![trigger self.produces(m2, n2, r)]
                    mut_ref_current(m2) == mut_ref_current(m) && mut_ref_future(m2) == mut_ref_future(m)
                        && mut_ref_current(n2) == mut_ref_current(n) && mut_ref_future(n2) == mut_ref_future(n)
                        && self.produces(m2, n2, r),
    {
        move |t: &mut T, u: &mut U| -> (r: R)
            requires
                self.accepts(*old(t), *old(u)),
            ensures
                exists|m: &mut T, n: &mut U|
                    mut_ref_current(m) == *old(t) && mut_ref_future(m) == *final(t) && mut_ref_current(n)
                        == *old(u) && mut_ref_future(n) == *final(u) && #[trigger] self.produces(m, n, r),
        {
            let r = self.function.call(t, u);
            proof {
                assert(exists|m: &mut T, n: &mut U|
                    mut_ref_current(m) == *old(t) && mut_ref_future(m) == *t && mut_ref_current(n) == *old(u)
                        && mut_ref_future(n) == *u && #[trigger] self.function.post(m, n, r));
                let (m, n) = choose|m: &mut T, n: &mut U|
                    mut_ref_current(m) == *old(t) && mut_ref_future(m) == *t && mut_ref_current(n) == *old(u)
                        && mut_ref_future(n) == *u && #[trigger] self.function.post(m, n, r);
                assert(self.produces(m, n, r));
                assert(*t == *final(t) && *u == *final(u));
            }
            r
        }
    }
}

impl<T: 'static, U: 'static, R: Clone + 'static> BoxBiMutatingFunction<T, U, R> {
    /// A function that leaves both values as they are and returns a clone
    /// of `value`.
    pub fn constant(value: R) -> (res: BoxBiMutatingFunction<T, U, R>)
        ensures
            forall|t: T, u: U| #[trigger] res.accepts(t, u),
            forall|m: &mut T, n: &mut U, r: R| #[trigger]
                res.produces(m, n, r) ==> cloned::<R>(value, r) && mut_ref_future(m) == mut_ref_current(m)
                    && mut_ref_future(n) == mut_ref_current(n),
            res.spec_name() is None,
    {
        let f = move |t: &mut T, u: &mut U| -> (r: R)
            ensures
                clone_of(&value, r),
                *final(t) == *old(t),
                *final(u) == *old(u),
        {
            value.clone()
        };
        BoxBiMutatingFunction::new(f)
    }
}

impl<T, U, R> MutCall2<T, U, R> for BoxBiMutatingFunction<T, U, R> {
    closed spec fn pre(&self, t: T, u: U) -> bool {
        self.accepts(t, u)
    }

    closed spec fn post(&self, m: &mut T, n: &mut U, r: R) -> bool {
        self.produces(m, n, r)
    }

    fn call(&self, t: &mut T, u: &mut U) -> (r: R) {
        let r = self.function.call(t, u);
        proof {
            assert(exists|m: &mut T, n: &mut U|
                mut_ref_current(m) == *old(t) && mut_ref_future(m) == *t && mut_ref_current(n) == *old(u)
                    && mut_ref_future(n) == *u && #[trigger] self.function.post(m, n, r));
            let (m, n) = choose|m: &mut T, n: &mut U|
                mut_ref_current(m) == *old(t) && mut_ref_future(m) == *t && mut_ref_current(n) == *old(u)
                    && mut_ref_future(n) == *u && #[trigger] self.function.post(m, n, r);
            assert(MutCall2::<T, U, R>::post(&*self, m, n, r));
            assert(*t == *final(t) && *u == *final(u));
        }
        r
    }
}

impl<T, U, R> MutCallOnce2<T, U, R> for BoxBiMutatingFunction<T, U, R> {
    closed spec fn pre(&self, t: T, u: U) -> bool {
        self.accepts(t, u)
    }

    closed spec fn post(&self, m: &mut T, n: &mut U, r: R) -> bool {
        self.produces(m, n, r)
    }

    fn call_once(self: Box<Self>, t: &mut T, u: &mut U) -> (r: R) {
        let r = self.function.call(t, u);
        proof {
            assert(exists|m: &mut T, n: &mut U|
                mut_ref_current(m) == *old(t) && mut_ref_future(m) == *t && mut_ref_current(n) == *old(u)
                    && mut_ref_future(n) == *u && #[trigger] self.function.post(m, n, r));
            let (m, n) = choose|m: &mut T, n: &mut U|
                mut_ref_current(m) == *old(t) && mut_ref_future(m) == *t && mut_ref_current(n) == *old(u)
                    && mut_ref_future(n) == *u && #[trigger] self.function.post(m, n, r);
            assert(MutCallOnce2::<T, U, R>::post(&*self, m, n, r));
            assert(*t == *final(t) && *u == *final(u));
        }
        r
    }
}

impl<T, U, R> BiMutatingFunction<T, U, R> for BoxBiMutatingFunction<T, U, R> {
    open spec fn accepts(&self, t: T, u: U) -> bool {
        BoxBiMutatingFunction::accepts(self, t, u)
    }

    open spec fn produces(&self, m: &mut T, n: &mut U, r: R) -> bool {
        BoxBiMutatingFunction::produces(self, m, n, r)
    }

    fn apply(&self, first: &mut T, second: &mut U) -> (r: R) {
        let r = self.function.call(first, second);
        proof {
            assert(exists|m: &mut T, n: &mut U|
                mut_ref_current(m) == *old(first) && mut_ref_future(m) == *first && mut_ref_current(n)
                    == *old(second) && mut_ref_future(n) == *second && #[trigger] self.function.post(m, n, r));
            let (m, n) = choose|m: &mut T, n: &mut U|
                mut_ref_current(m) == *old(first) && mut_ref_future(m) == *first && mut_ref_current(n)
                    == *old(second) && mut_ref_future(n) == *second && #[trigger] self.function.post(m, n, r);
            assert(BiMutatingFunction::<T, U, R>::produces(self, m, n, r));
            assert(*first == *final(first) && *second == *final(second));
        }
        r
    }

    fn into_box(self) -> (res: BoxBiMutatingFunction<T, U, R>)
        where
            Self: Sized + 'static,
            T: 'static,
            U: 'static,
            R: 'static,
        ensures
            res == self,
    {
        assert forall|m: &mut T, n: &mut U, r: R| #[trigger] BoxBiMutatingFunction::produces(&self, m, n, r)
            implies exists|m2: &mut T, n2: &mut U|
            mut_ref_current(m2) == mut_ref_current(m) && mut_ref_future(m2) == mut_ref_future(m)
                && mut_ref_current(n2) == mut_ref_current(n) && mut_ref_future(n2) == mut_ref_future(n)
                && BiMutatingFunction::<T, U, R>::produces(&self, m2, n2, r) by {
            assert(BiMutatingFunction::<T, U, R>::produces(&self, m, n, r));
        }
        self
    }

    fn into_rc(self) -> (res: RcBiMutatingFunction<T, U, R>)
        where
            Self: Sized + 'static,
            T: 'static,
            U: 'static,
            R: 'static,
        ensures
            forall|t: T, u: U| #[trigger] res.accepts(t, u) == self.accepts(t, u),
            forall|m: &mut T, n: &mut U, r: R| #[trigger] res.produces(m, n, r) == self.produces(m, n, r),
            res.spec_name() == self.spec_name(),
    {
        let name = clone_name(&self.name);
        let ghost s = self;
        let res = RcBiMutatingFunction::from_call(self, name);
        assert forall|m: &mut T, n: &mut U, r: R| #[trigger] RcBiMutatingFunction::produces(&res, m, n, r)
            implies exists|m2: &mut T, n2: &mut U|
            mut_ref_current(m2) == mut_ref_current(m) && mut_ref_future(m2) == mut_ref_future(m)
                && mut_ref_current(n2) == mut_ref_current(n) && mut_ref_future(n2) == mut_ref_future(n)
                && BiMutatingFunction::<T, U, R>::produces(&s, m2, n2, r) by {
            assert(BiMutatingFunction::<T, U, R>::produces(&s, m, n, r));
        }
        res
    }

    fn into_arc(self) -> (res: ArcBiMutatingFunction<T, U, R>)
        where
            Self: Sized + Send + Sync + 'static,
            T: 'static,
            U: 'static,
            R: 'static,
        ensures
            forall|t: T, u: U| #[trigger] res.accepts(t, u) == self.accepts(t, u),
            forall|m: &mut T, n: &mut U, r: R| #[trigger] res.produces(m, n, r) == self.produces(m, n, r),
            res.spec_name() == self.spec_name(),
    {
        let name = clone_name(&self.name);
        let ghost s = self;
        let res = ArcBiMutatingFunction::from_call(self, name);
        assert forall|m: &mut T, n: &mut U, r: R| #[trigger] ArcBiMutatingFunction::produces(&res, m, n, r)
            implies exists|m2: &mut T, n2: &mut U|
            mut_ref_current(m2) == mut_ref_current(m) && mut_ref_future(m2) == mut_ref_future(m)
                && mut_ref_current(n2) == mut_ref_current(n) && mut_ref_future(n2) == mut_ref_future(n)
                && BiMutatingFunction::<T, U, R>::produces(&s, m2, n2, r) by {
            assert(BiMutatingFunction::<T, U, R>::produces(&s, m, n, r));
        }
        res
    }

    fn into_once(self) -> (res: BoxBiMutatingFunctionOnce<T, U, R>)
        where
            Self: Sized + 'static,
            T: 'static,
            U: 'static,
            R: 'static,
        ensures
            forall|t: T, u: U| #[trigger] res.accepts(t, u) == self.accepts(t, u),
            forall|m: &mut T, n: &mut U, r: R| #[trigger] res.produces(m, n, r) == self.produces(m, n, r),
            res.spec_name() == self.spec_name(),
    {
        let name = clone_name(&self.name);
        let ghost s = self;
        let res = BoxBiMutatingFunctionOnce::from_call_once(self, name);
        assert forall|m: &mut T, n: &mut U, r: R| #[trigger] BoxBiMutatingFunctionOnce::produces(&res, m, n, r)
            implies exists|m2: &mut T, n2: &mut U|
            mut_ref_current(m2) == mut_ref_current(m) && mut_ref_future(m2) == mut_ref_future(m)
                && mut_ref_current(n2) == mut_ref_current(n) && mut_ref_future(n2) == mut_ref_future(n)
                && BiMutatingFunction::<T, U, R>::produces(&s, m2, n2, r) by {
            assert(BiMutatingFunction::<T, U, R>::produces(&s, m, n, r));
        }
        res
    }
}

/// A bi-mutating function behind an `Rc`: shared, single-threaded.
#[verifier::reject_recursive_types(T)]
#[verifier::reject_recursive_types(U)]
#[verifier::reject_recursive_types(R)]
pub struct RcBiMutatingFunction<T, U, R> {
    function: Rc<Box<dyn MutCall2<T, U, R>>>,
    name: Option<String>,
}

impl<T, U, R> RcBiMutatingFunction<T, U, R> {
    pub closed spec fn accepts(&self, t: T, u: U) -> bool {
        self.function.pre(t, u)
    }

    pub closed spec fn produces(&self, m: &mut T, n: &mut U, r: R) -> bool {
        self.function.post(m, n, r)
    }

    pub closed spec fn spec_name(&self) -> Option<Seq<char>> {
        name_view(self.name)
    }

    pub(crate) fn from_call<C: MutCall2<T, U, R> + 'static>(c: C, name: Option<String>) -> (res: Self)
        ensures
            forall|t: T, u: U| #[trigger] res.accepts(t, u) == c.pre(t, u),
            forall|m: &mut T, n: &mut U, r: R| #[trigger] res.produces(m, n, r) == c.post(m, n, r),
            res.spec_name() == name_view(name),
    {
        let function: Box<dyn MutCall2<T, U, R>> = Box::new(c);
        assert(forall|t: T, u: U| #[trigger] function.pre(t, u) == c.pre(t, u));
        assert(forall|m: &mut T, n: &mut U, r: R| #[trigger] function.post(m, n, r) == c.post(m, n, r));
        RcBiMutatingFunction { function: Rc::new(function), name }
    }

    /// Wraps the closure `f`.
    pub fn new<F>(f: F) -> (res: Self)
        where
            F: Fn(&mut T, &mut U) -> R + 'static,
        ensures
            forall|t: T, u: U| #[trigger]
                res.accepts(t, u) == (forall|m: &mut T, n: &mut U|
                    mut_ref_current(m) == t && mut_ref_current(n) == u ==> #[trigger] call_requires(f, (m, n))),
            forall|m: &mut T, n: &mut U, r: R| #[trigger] res.produces(m, n, r) == call_ensures(f, (m, n), r),
            res.spec_name() is None,
    {
        Self::from_call(f, None)
    }

    /// Wraps the closure `f` under the name `name`.
    pub fn new_with_name<F>(name: &str, f: F) -> (res: Self)
        where
            F: Fn(&mut T, &mut U) -> R + 'static,
        ensures
            forall|t: T, u: U| #[trigger]
                res.accepts(t, u) == (forall|m: &mut T, n: &mut U|
                    mut_ref_current(m) == t && mut_ref_current(n) == u ==> #[trigger] call_requires(f, (m, n))),
            forall|m: &mut T, n: &mut U, r: R| #[trigger] res.produces(m, n, r) == call_ensures(f, (m, n), r),
            res.spec_name() == Some(name@),
    {
        Self::from_call(f, owned_name(name))
    }

    /// Wraps the closure `f` under the name `name`, if there is one.
    pub fn new_with_optional_name<F>(f: F, name: Option<String>) -> (res: Self)
        where
            F: Fn(&mut T, &mut U) -> R + 'static,
        ensures
            forall|t: T, u: U| #[trigger]
                res.accepts(t, u) == (forall|m: &mut T, n: &mut U|
                    mut_ref_current(m) == t && mut_ref_current(n) == u ==> #[trigger] call_requires(f, (m, n))),
            forall|m: &mut T, n: &mut U, r: R| #[trigger] res.produces(m, n, r) == call_ensures(f, (m, n), r),
            res.spec_name() == name_view(name),
    {
        Self::from_call(f, name)
    }

    /// The name of this function, if it has one.
    pub fn name(&self) -> (res: Option<&str>)
        ensures
            match res {
                Some(s) => self.spec_name() == Some(s@),
                None => self.spec_name() is None,
            },
    {
        name_str(&self.name)
    }

    /// Gives this function the name `name`; its behaviour stays the same.
    pub fn set_name(&mut self, name: &str)
        ensures
            final(self).spec_name() == Some(name@),
            forall|t: T, u: U| #[trigger] final(self).accepts(t, u) == old(self).accepts(t, u),
            forall|m: &mut T, n: &mut U, r: R| #[trigger] final(self).produces(m, n, r) == old(self).produces(m, n, r),
    {
        self.name = owned_name(name);
    }

    /// Restricts a clone of this function to the values on which `predicate` holds before the
    /// call; [`RcConditionalBiMutatingFunction::or_else`] then supplies the other branch.
    pub fn when<P>(&self, predicate: P) -> (res: RcConditionalBiMutatingFunction<T, U, R>)
        where
            P: BiPredicate<T, U> + 'static,
            T: 'static,
            U: 'static,
        ensures
            res.function() == *self,
            forall|t: T, u: U| predicate.accepts(t, u) ==> #[trigger] res.predicate().accepts(t, u),
            forall|t: T, u: U, b: bool| #[trigger] res.predicate().produces(t, u, b) ==> predicate.produces(t, u, b),
    {
        RcConditionalBiMutatingFunction { function: self.duplicate(), predicate: predicate.into_rc() }
    }

    /// A clone of this function followed by `after` on its result.
    pub fn and_then<S, F>(&self, after: F) -> (res: RcBiMutatingFunction<T, U, S>)
        where
            T: 'static,
            U: 'static,
            R: 'static,
            S: 'static,
            F: Function<R, S> + 'static,
        ensures
            forall|t: T, u: U| #[trigger] res.accepts(t, u) == then_accepts(*self, after, t, u),
            forall|m: &mut T, n: &mut U, s: S| #[trigger] res.produces(m, n, s) == then_produces(*self, after, m, n, s),
            res.spec_name() is None,
    {
        RcBiMutatingFunction::from_call(Then { first: self.duplicate(), after }, None)
    }

    /// This function as a plain closure.
    pub fn into_fn(self) -> (res: impl Fn(&mut T, &mut U) -> R)
        ensures
            forall|t: T, u: U| self.accepts(t, u) ==> res.accepts(t, u),
            forall|m: &mut T, n: &mut U, r: R| #[trigger]
                call_ensures(res, (m, n), r) ==> exists|m2: &mut T, n2: &mut U|
                    #![trigger self.produces(m2, n2, r)]
                    mut_ref_current(m2) == mut_ref_current(m) && mut_ref_future(m2) == mut_ref_future(m)
                        && mut_ref_current(n2) == mut_ref_current(n) && mut_ref_future(n2) == mut_ref_future(n)
                        && self.produces(m2, n2, r),
    {
        move |t: &mut T, u: &mut U| -> (r: R)
            requires
                self.accepts(*old(t), *old(u)),
            ensures
                exists|m: &mut T, n: &mut U|
                    mut_ref_current(m) == *old(t) && mut_ref_future(m) == *final(t) && mut_ref_current(n)
                        == *old(u) && mut_ref_future(n) == *final(u) && #[trigger] self.produces(m, n, r),
        {
            let r = self.function.call(t, u);
            proof {
                assert(exists|m: &mut T, n: &mut U|
                    mut_ref_current(m) == *old(t) && mut_ref_future(m) == *t && mut_ref_current(n) == *old(u)
                        && mut_ref_future(n) == *u && #[trigger] self.function.post(m, n, r));
                let (m, n) = choose|m: &mut T, n: &mut U|
                    mut_ref_current(m) == *old(t) && mut_ref_future(m) == *t && mut_ref_current(n) == *old(u)
                        && mut_ref_future(n) == *u && #[trigger] self.function.post(m, n, r);
                assert(self.produces(m, n, r));
                assert(*t == *final(t) && *u == *final(u));
            }
            r
        }
    }

    /// A closure that calls a clone of this function, which stays usable.
    pub fn to_fn(&self) -> (res: impl Fn(&mut T, &mut U) -> R)
        ensures
            forall|t: T, u: U| self.accepts(t, u) ==> res.accepts(t, u),
            forall|m: &mut T, n: &mut U, r: R| #[trigger]
                call_ensures(res, (m, n), r) ==> exists|m2: &mut T, n2: &mut U|
                    #![trigger self.produces(m2, n2, r)]
                    mut_ref_current(m2) == mut_ref_current(m) && mut_ref_future(m2) == mut_ref_future(m)
                        && mut_ref_current(n2) == mut_ref_current(n) && mut_ref_future(n2) == mut_ref_future(n)
                        && self.produces(m2, n2, r),
    {
        self.duplicate().into_fn()
    }

    fn duplicate(&self) -> (res: Self)
        ensures
            res == *self,
    {
        RcBiMutatingFunction { function: self.function.clone(), name: clone_name(&self.name) }
    }
}

impl<T: 'static, U: 'static, R: Clone + 'static> RcBiMutatingFunction<T, U, R> {
    /// A function that leaves both values as they are and returns a clone
    /// of `value`.
    pub fn constant(value: R) -> (res: RcBiMutatingFunction<T, U, R>)
        ensures
            forall|t: T, u: U| #[trigger] res.accepts(t, u),
            forall|m: &mut T, n: &mut U, r: R| #[trigger]
                res.produces(m, n, r) ==> cloned::<R>(value, r) && mut_ref_future(m) == mut_ref_current(m)
                    && mut_ref_future(n) == mut_ref_current(n),
            res.spec_name() is None,
    {
        let f = move |t: &mut T, u: &mut U| -> (r: R)
            ensures
                clone_of(&value, r),
                *final(t) == *old(t),
                *final(u) == *old(u),
        {
            value.clone()
        };
        RcBiMutatingFunction::new(f)
    }
}

impl<T, U, R> Clone for RcBiMutatingFunction<T, U, R> {
    fn clone(&self) -> (res: Self)
        ensures
            res == *self,
    {
        self.duplicate()
    }
}

impl<T, U, R> MutCall2<T, U, R> for RcBiMutatingFunction<T, U, R> {
    closed spec fn pre(&self, t: T, u: U) -> bool {
        self.accepts(t, u)
    }

    closed spec fn post(&self, m: &mut T, n: &mut U, r: R) -> bool {
        self.produces(m, n, r)
    }

    fn call(&self, t: &mut T, u: &mut U) -> (r: R) {
        let r = self.function.call(t, u);
        proof {
            assert(exists|m: &mut T, n: &mut U|
                mut_ref_current(m) == *old(t) && mut_ref_future(m) == *t && mut_ref_current(n) == *old(u)
                    && mut_ref_future(n) == *u && #[trigger] self.function.post(m, n, r));
            let (m, n) = choose|m: &mut T, n: &mut U|
                mut_ref_current(m) == *old(t) && mut_ref_future(m) == *t && mut_ref_current(n) == *old(u)
                    && mut_ref_future(n) == *u && #[trigger] self.function.post(m, n, r);
            assert(MutCall2::<T, U, R>::post(&*self, m, n, r));
            assert(*t == *final(t) && *u == *final(u));
        }
        r
    }
}

impl<T, U, R> MutCallOnce2<T, U, R> for RcBiMutatingFunction<T, U, R> {
    closed spec fn pre(&self, t: T, u: U) -> bool {
        self.accepts(t, u)
    }

    closed spec fn post(&self, m: &mut T, n: &mut U, r: R) -> bool {
        self.produces(m, n, r)
    }

    fn call_once(self: Box<Self>, t: &mut T, u: &mut U) -> (r: R) {
        let r = self.function.call(t, u);
        proof {
            assert(exists|m: &mut T, n: &mut U|
                mut_ref_current(m) == *old(t) && mut_ref_future(m) == *t && mut_ref_current(n) == *old(u)
                    && mut_ref_future(n) == *u && #[trigger] self.function.post(m, n, r));
            let (m, n) = choose|m: &mut T, n: &mut U|
                mut_ref_current(m) == *old(t) && mut_ref_future(m) == *t && mut_ref_current(n) == *old(u)
                    && mut_ref_future(n) == *u && #[trigger] self.function.post(m, n, r);
            assert(MutCallOnce2::<T, U, R>::post(&*self, m, n, r));
            assert(*t == *final(t) && *u == *final(u));
        }
        r
    }
}

impl<T, U, R> BiMutatingFunction<T, U, R> for RcBiMutatingFunction<T, U, R> {
    open spec fn accepts(&self, t: T, u: U) -> bool {
        RcBiMutatingFunction::accepts(self, t, u)
    }

    open spec fn produces(&self, m: &mut T, n: &mut U, r: R) -> bool {
        RcBiMutatingFunction::produces(self, m, n, r)
    }

    fn apply(&self, first: &mut T, second: &mut U) -> (r: R) {
        let r = self.function.call(first, second);
        proof {
            assert(exists|m: &mut T, n: &mut U|
                mut_ref_current(m) == *old(first) && mut_ref_future(m) == *first && mut_ref_current(n)
                    == *old(second) && mut_ref_future(n) == *second && #[trigger] self.function.post(m, n, r));
            let (m, n) = choose|m: &mut T, n: &mut U|
                mut_ref_current(m) == *old(first) && mut_ref_future(m) == *first && mut_ref_current(n)
                    == *old(second) && mut_ref_future(n) == *second && #[trigger] self.function.post(m, n, r);
            assert(BiMutatingFunction::<T, U, R>::produces(self, m, n, r));
            assert(*first == *final(first) && *second == *final(second));
        }
        r
    }

    fn into_box(self) -> (res: BoxBiMutatingFunction<T, U, R>)
        where
            Self: Sized + 'static,
            T: 'static,
            U: 'static,
            R: 'static,
        ensures
            forall|t: T, u: U| #[trigger] res.accepts(t, u) == self.accepts(t, u),
            forall|m: &mut T, n: &mut U, r: R| #[trigger] res.produces(m, n, r) == self.produces(m, n, r),
            res.spec_name() == self.spec_name(),
    {
        let name = clone_name(&self.name);
        let ghost s = self;
        let res = BoxBiMutatingFunction::from_call(self, name);
        assert forall|m: &mut T, n: &mut U, r: R| #[trigger] BoxBiMutatingFunction::produces(&res, m, n, r)
            implies exists|m2: &mut T, n2: &mut U|
            mut_ref_current(m2) == mut_ref_current(m) && mut_ref_future(m2) == mut_ref_future(m)
                && mut_ref_current(n2) == mut_ref_current(n) && mut_ref_future(n2) == mut_ref_future(n)
                && BiMutatingFunction::<T, U, R>::produces(&s, m2, n2, r) by {
            assert(BiMutatingFunction::<T, U, R>::produces(&s, m, n, r));
        }
        res
    }

    fn into_rc(self) -> (res: RcBiMutatingFunction<T, U, R>)
        where
            Self: Sized + 'static,
            T: 'static,
            U: 'static,
            R: 'static,
        ensures
            res == self,
    {
        assert forall|m: &mut T, n: &mut U, r: R| #[trigger] RcBiMutatingFunction::produces(&self, m, n, r)
            implies exists|m2: &mut T, n2: &mut U|
            mut_ref_current(m2) == mut_ref_current(m) && mut_ref_future(m2) == mut_ref_future(m)
                && mut_ref_current(n2) == mut_ref_current(n) && mut_ref_future(n2) == mut_ref_future(n)
                && BiMutatingFunction::<T, U, R>::produces(&self, m2, n2, r) by {
            assert(BiMutatingFunction::<T, U, R>::produces(&self, m, n, r));
        }
        self
    }

    fn into_arc(self) -> (res: ArcBiMutatingFunction<T, U, R>)
        where
            Self: Sized + Send + Sync + 'static,
            T: 'static,
            U: 'static,
            R: 'static,
        ensures
            forall|t: T, u: U| #[trigger] res.accepts(t, u) == self.accepts(t, u),
            forall|m: &mut T, n: &mut U, r: R| #[trigger] res.produces(m, n, r) == self.produces(m, n, r),
            res.spec_name() == self.spec_name(),
    {
        let name = clone_name(&self.name);
        let ghost s = self;
        let res = ArcBiMutatingFunction::from_call(self, name);
        assert forall|m: &mut T, n: &mut U, r: R| #[trigger] ArcBiMutatingFunction::produces(&res, m, n, r)
            implies exists|m2: &mut T, n2: &mut U|
            mut_ref_current(m2) == mut_ref_current(m) && mut_ref_future(m2) == mut_ref_future(m)
                && mut_ref_current(n2) == mut_ref_current(n) && mut_ref_future(n2) == mut_ref_future(n)
                && BiMutatingFunction::<T, U, R>::produces(&s, m2, n2, r) by {
            assert(BiMutatingFunction::<T, U, R>::produces(&s, m, n, r));
        }
        res
    }

    fn into_once(self) -> (res: BoxBiMutatingFunctionOnce<T, U, R>)
        where
            Self: Sized + 'static,
            T: 'static,
            U: 'static,
            R: 'static,
        ensures
            forall|t: T, u: U| #[trigger] res.accepts(t, u) == self.accepts(t, u),
            forall|m: &mut T, n: &mut U, r: R| #[trigger] res.produces(m, n, r) == self.produces(m, n, r),
            res.spec_name() == self.spec_name(),
    {
        let name = clone_name(&self.name);
        let ghost s = self;
        let res = BoxBiMutatingFunctionOnce::from_call_once(self, name);
        assert forall|m: &mut T, n: &mut U, r: R| #[trigger] BoxBiMutatingFunctionOnce::produces(&res, m, n, r)
            implies exists|m2: &mut T, n2: &mut U|
            mut_ref_current(m2) == mut_ref_current(m) && mut_ref_future(m2) == mut_ref_future(m)
                && mut_ref_current(n2) == mut_ref_current(n) && mut_ref_future(n2) == mut_ref_future(n)
                && BiMutatingFunction::<T, U, R>::produces(&s, m2, n2, r) by {
            assert(BiMutatingFunction::<T, U, R>::produces(&s, m, n, r));
        }
        res
    }

    fn to_box(&self) -> (res: BoxBiMutatingFunction<T, U, R>)
        where
            Self: Clone + 'static,
            T: 'static,
            U: 'static,
            R: 'static,
        ensures
            forall|t: T, u: U| #[trigger] res.accepts(t, u) == self.accepts(t, u),
            forall|m: &mut T, n: &mut U, r: R| #[trigger] res.produces(m, n, r) == self.produces(m, n, r),
            res.spec_name() == self.spec_name(),
    {
        let res = BoxBiMutatingFunction::from_call(self.duplicate(), clone_name(&self.name));
        proof {
            let c = *self;
            assert(cloned::<Self>(*self, c));
            assert forall|m: &mut T, n: &mut U, r: R| #[trigger] BoxBiMutatingFunction::produces(&res, m, n, r)
                implies exists|m2: &mut T, n2: &mut U|
                mut_ref_current(m2) == mut_ref_current(m) && mut_ref_future(m2) == mut_ref_future(m)
                    && mut_ref_current(n2) == mut_ref_current(n) && mut_ref_future(n2) == mut_ref_future(n)
                    && BiMutatingFunction::<T, U, R>::produces(&c, m2, n2, r) by {
                assert(BiMutatingFunction::<T, U, R>::produces(&c, m, n, r));
            }
        }
        res
    }

    fn to_rc(&self) -> (res: RcBiMutatingFunction<T, U, R>)
        where
            Self: Clone + 'static,
            T: 'static,
            U: 'static,
            R: 'static,
        ensures
            res == *self,
    {
        let res = self.duplicate();
        proof {
            let c = *self;
            assert(cloned::<Self>(*self, c));
            assert forall|m: &mut T, n: &mut U, r: R| #[trigger] RcBiMutatingFunction::produces(&c, m, n, r)
                implies exists|m2: &mut T, n2: &mut U|
                mut_ref_current(m2) == mut_ref_current(m) && mut_ref_future(m2) == mut_ref_future(m)
                    && mut_ref_current(n2) == mut_ref_current(n) && mut_ref_future(n2) == mut_ref_future(n)
                    && BiMutatingFunction::<T, U, R>::produces(&c, m2, n2, r) by {
                assert(BiMutatingFunction::<T, U, R>::produces(&c, m, n, r));
            }
        }
        res
    }

    fn to_arc(&self) -> (res: ArcBiMutatingFunction<T, U, R>)
        where
            Self: Clone + Send + Sync + 'static,
            T: 'static,
            U: 'static,
            R: 'static,
        ensures
            forall|t: T, u: U| #[trigger] res.accepts(t, u) == self.accepts(t, u),
            forall|m: &mut T, n: &mut U, r: R| #[trigger] res.produces(m, n, r) == self.produces(m, n, r),
            res.spec_name() == self.spec_name(),
    {
        let res = ArcBiMutatingFunction::from_call(self.duplicate(), clone_name(&self.name));
        proof {
            let c = *self;
            assert(cloned::<Self>(*self, c));
            assert forall|m: &mut T, n: &mut U, r: R| #[trigger] ArcBiMutatingFunction::produces(&res, m, n, r)
                implies exists|m2: &mut T, n2: &mut U|
                mut_ref_current(m2) == mut_ref_current(m) && mut_ref_future(m2) == mut_ref_future(m)
                    && mut_ref_current(n2) == mut_ref_current(n) && mut_ref_future(n2) == mut_ref_future(n)
                    && BiMutatingFunction::<T, U, R>::produces(&c, m2, n2, r) by {
                assert(BiMutatingFunction::<T, U, R>::produces(&c, m, n, r));
            }
        }
        res
    }

    fn to_once(&self) -> (res: BoxBiMutatingFunctionOnce<T, U, R>)
        where
            Self: Clone + 'static,
            T: 'static,
            U: 'static,
            R: 'static,
        ensures
            forall|t: T, u: U| #[trigger] res.accepts(t, u) == self.accepts(t, u),
            forall|m: &mut T, n: &mut U, r: R| #[trigger] res.produces(m, n, r) == self.produces(m, n, r),
            res.spec_name() == self.spec_name(),
    {
        let res = BoxBiMutatingFunctionOnce::from_call_once(self.duplicate(), clone_name(&self.name));
        proof {
            let c = *self;
            assert(cloned::<Self>(*self, c));
            assert forall|m: &mut T, n: &mut U, r: R| #[trigger] BoxBiMutatingFunctionOnce::produces(&res, m, n, r)
                implies exists|m2: &mut T, n2: &mut U|
                mut_ref_current(m2) == mut_ref_current(m) && mut_ref_future(m2) == mut_ref_future(m)
                    && mut_ref_current(n2) == mut_ref_current(n) && mut_ref_future(n2) == mut_ref_future(n)
                    && BiMutatingFunction::<T, U, R>::produces(&c, m2, n2, r) by {
                assert(BiMutatingFunction::<T, U, R>::produces(&c, m, n, r));
            }
        }
        res
    }
}

/// A bi-mutating function behind an `Arc`: shared, thread-safe.
#[verifier::reject_recursive_types(T)]
#[verifier::reject_recursive_types(U)]
#[verifier::reject_recursive_types(R)]
pub struct ArcBiMutatingFunction<T, U, R> {
    function: Arc<Box<dyn SyncMutCall2<T, U, R>>>,
    name: Option<String>,
}

impl<T, U, R> ArcBiMutatingFunction<T, U, R> {
    pub closed spec fn accepts(&self, t: T, u: U) -> bool {
        self.function.shared_pre(t, u)
    }

    pub closed spec fn produces(&self, m: &mut T, n: &mut U, r: R) -> bool {
        self.function.shared_post(m, n, r)
    }

    pub closed spec fn spec_name(&self) -> Option<Seq<char>> {
        name_view(self.name)
    }

    pub(crate) fn from_call<C: MutCall2<T, U, R> + Send + Sync + 'static>(c: C, name: Option<String>) -> (res: Self)
        ensures
            forall|t: T, u: U| #[trigger] res.accepts(t, u) == c.pre(t, u),
            forall|m: &mut T, n: &mut U, r: R| #[trigger] res.produces(m, n, r) == c.post(m, n, r),
            res.spec_name() == name_view(name),
    {
        assert(forall|t: T, u: U| #[trigger] SyncMutCall2::<T, U, R>::shared_pre(&c, t, u) == c.pre(t, u));
        assert(forall|m: &mut T, n: &mut U, r: R| #[trigger] SyncMutCall2::<T, U, R>::shared_post(&c, m, n, r) == c.post(m, n, r));
        let function: Box<dyn SyncMutCall2<T, U, R>> = Box::new(c);
        assert(forall|t: T, u: U| #[trigger] function.shared_pre(t, u) == c.pre(t, u));
        assert(forall|m: &mut T, n: &mut U, r: R| #[trigger] function.shared_post(m, n, r) == c.post(m, n, r));
        ArcBiMutatingFunction { function: Arc::new(function), name }
    }

    /// Wraps the closure `f`.
    pub fn new<F>(f: F) -> (res: Self)
        where
            F: Fn(&mut T, &mut U) -> R + Send + Sync + 'static,
        ensures
            forall|t: T, u: U| #[trigger]
                res.accepts(t, u) == (forall|m: &mut T, n: &mut U|
                    mut_ref_current(m) == t && mut_ref_current(n) == u ==> #[trigger] call_requires(f, (m, n))),
            forall|m: &mut T, n: &mut U, r: R| #[trigger] res.produces(m, n, r) == call_ensures(f, (m, n), r),
            res.spec_name() is None,
    {
        Self::from_call(f, None)
    }

    /// Wraps the closure `f` under the name `name`.
    pub fn new_with_name<F>(name: &str, f: F) -> (res: Self)
        where
            F: Fn(&mut T, &mut U) -> R + Send + Sync + 'static,
        ensures
            forall|t: T, u: U| #[trigger]
                res.accepts(t, u) == (forall|m: &mut T, n: &mut U|
                    mut_ref_current(m) == t && mut_ref_current(n) == u ==> #[trigger] call_requires(f, (m, n))),
            forall|m: &mut T, n: &mut U, r: R| #[trigger] res.produces(m, n, r) == call_ensures(f, (m, n), r),
            res.spec_name() == Some(name@),
    {
        Self::from_call(f, owned_name(name))
    }

    /// Wraps the closure `f` under the name `name`, if there is one.
    pub fn new_with_optional_name<F>(f: F, name: Option<String>) -> (res: Self)
        where
            F: Fn(&mut T, &mut U) -> R + Send + Sync + 'static,
        ensures
            forall|t: T, u: U| #[trigger]
                res.accepts(t, u) == (forall|m: &mut T, n: &mut U|
                    mut_ref_current(m) == t && mut_ref_current(n) == u ==> #[trigger] call_requires(f, (m, n))),
            forall|m: &mut T, n: &mut U, r: R| #[trigger] res.produces(m, n, r) == call_ensures(f, (m, n), r),
            res.spec_name() == name_view(name),
    {
        Self::from_call(f, name)
    }

    /// The name of this function, if it has one.
    pub fn name(&self) -> (res: Option<&str>)
        ensures
            match res {
                Some(s) => self.spec_name() == Some(s@),
                None => self.spec_name() is None,
            },
    {
        name_str(&self.name)
    }

    /// Gives this function the name `name`; its behaviour stays the same.
    pub fn set_name(&mut self, name: &str)
        ensures
            final(self).spec_name() == Some(name@),
            forall|t: T, u: U| #[trigger] final(self).accepts(t, u) == old(self).accepts(t, u),
            forall|m: &mut T, n: &mut U, r: R| #[trigger] final(self).produces(m, n, r) == old(self).produces(m, n, r),
    {
        self.name = owned_name(name);
    }

    /// Restricts a clone of this function to the values on which `predicate` holds before the
    /// call; [`ArcConditionalBiMutatingFunction::or_else`] then supplies the other branch.
    pub fn when<P>(&self, predicate: P) -> (res: ArcConditionalBiMutatingFunction<T, U, R>)
        where
            P: BiPredicate<T, U> + Send + Sync + 'static,
            T: 'static,
            U: 'static,
        ensures
            res.function() == *self,
            forall|t: T, u: U| predicate.accepts(t, u) ==> #[trigger] res.predicate().accepts(t, u),
            forall|t: T, u: U, b: bool| #[trigger] res.predicate().produces(t, u, b) ==> predicate.produces(t, u, b),
    {
        ArcConditionalBiMutatingFunction { function: self.duplicate(), predicate: predicate.into_arc() }
    }

    /// A clone of this function followed by `after` on its result.
    pub fn and_then<S, F>(&self, after: F) -> (res: ArcBiMutatingFunction<T, U, S>)
        where
            T: 'static,
            U: 'static,
            R: 'static,
            S: 'static,
            F: Function<R, S> + Send + Sync + 'static,
        ensures
            forall|t: T, u: U| #[trigger] res.accepts(t, u) == then_accepts(*self, after, t, u),
            forall|m: &mut T, n: &mut U, s: S| #[trigger] res.produces(m, n, s) == then_produces(*self, after, m, n, s),
            res.spec_name() is None,
    {
        ArcBiMutatingFunction::from_call(Then { first: self.duplicate(), after }, None)
    }

    /// This function as a plain closure.
    pub fn into_fn(self) -> (res: impl Fn(&mut T, &mut U) -> R)
        ensures
            forall|t: T, u: U| self.accepts(t, u) ==> res.accepts(t, u),
            forall|m: &mut T, n: &mut U, r: R| #[trigger]
                call_ensures(res, (m, n), r) ==> exists|m2: &mut T, n2: &mut U|
                    #![trigger self.produces(m2, n2, r)]
                    mut_ref_current(m2) == mut_ref_current(m) && mut_ref_future(m2) == mut_ref_future(m)
                        && mut_ref_current(n2) == mut_ref_current(n) && mut_ref_future(n2) == mut_ref_future(n)
                        && self.produces(m2, n2, r),
    {
        move |t: &mut T, u: &mut U| -> (r: R)
            requires
                self.accepts(*old(t), *old(u)),
            ensures
                exists|m: &mut T, n: &mut U|
                    mut_ref_current(m) == *old(t) && mut_ref_future(m) == *final(t) && mut_ref_current(n)
                        == *old(u) && mut_ref_future(n) == *final(u) && #[trigger] self.produces(m, n, r),
        {
            let r = self.function.shared_call(t, u);
            proof {
                assert(exists|m: &mut T, n: &mut U|
                    mut_ref_current(m) == *old(t) && mut_ref_future(m) == *t && mut_ref_current(n) == *old(u)
                        && mut_ref_future(n) == *u && #[trigger] self.function.shared_post(m, n, r));
                let (m, n) = choose|m: &mut T, n: &mut U|
                    mut_ref_current(m) == *old(t) && mut_ref_future(m) == *t && mut_ref_current(n) == *old(u)
                        && mut_ref_future(n) == *u && #[trigger] self.function.shared_post(m, n, r);
                assert(self.produces(m, n, r));
                assert(*t == *final(t) && *u == *final(u));
            }
            r
        }
    }

    /// A closure that calls a clone of this function, which stays usable.
    pub fn to_fn(&self) -> (res: impl Fn(&mut T, &mut U) -> R)
        ensures
            forall|t: T, u: U| self.accepts(t, u) ==> res.accepts(t, u),
            forall|m: &mut T, n: &mut U, r: R| #[trigger]
                call_ensures(res, (m, n), r) ==> exists|m2: &mut T, n2: &mut U|
                    #![trigger self.produces(m2, n2, r)]
                    mut_ref_current(m2) == mut_ref_current(m) && mut_ref_future(m2) == mut_ref_future(m)
                        && mut_ref_current(n2) == mut_ref_current(n) && mut_ref_future(n2) == mut_ref_future(n)
                        && self.produces(m2, n2, r),
    {
        self.duplicate().into_fn()
    }

    fn duplicate(&self) -> (res: Self)
        ensures
            res == *self,
    {
        ArcBiMutatingFunction { function: self.function.clone(), name: clone_name(&self.name) }
    }
}

impl<T: 'static, U: 'static, R: Clone + Send + Sync + 'static> ArcBiMutatingFunction<T, U, R> {
    /// A function that leaves both values as they are and returns a clone
    /// of `value`.
    pub fn constant(value: R) -> (res: ArcBiMutatingFunction<T, U, R>)
        ensures
            forall|t: T, u: U| #[trigger] res.accepts(t, u),
            forall|m: &mut T, n: &mut U, r: R| #[trigger]
                res.produces(m, n, r) ==> cloned::<R>(value, r) && mut_ref_future(m) == mut_ref_current(m)
                    && mut_ref_future(n) == mut_ref_current(n),
            res.spec_name() is None,
    {
        let f = move |t: &mut T, u: &mut U| -> (r: R)
            ensures
                clone_of(&value, r),
                *final(t) == *old(t),
                *final(u) == *old(u),
        {
            value.clone()
        };
        ArcBiMutatingFunction::new(f)
    }
}

impl<T, U, R> Clone for ArcBiMutatingFunction<T, U, R> {
    fn clone(&self) -> (res: Self)
        ensures
            res == *self,
    {
        self.duplicate()
    }
}

impl<T, U, R> MutCall2<T, U, R> for ArcBiMutatingFunction<T, U, R> {
    closed spec fn pre(&self, t: T, u: U) -> bool {
        self.accepts(t, u)
    }

    closed spec fn post(&self, m: &mut T, n: &mut U, r: R) -> bool {
        self.produces(m, n, r)
    }

    fn call(&self, t: &mut T, u: &mut U) -> (r: R) {
        let r = self.function.shared_call(t, u);
        proof {
            assert(exists|m: &mut T, n: &mut U|
                mut_ref_current(m) == *old(t) && mut_ref_future(m) == *t && mut_ref_current(n) == *old(u)
                    && mut_ref_future(n) == *u && #[trigger] self.function.shared_post(m, n, r));
            let (m, n) = choose|m: &mut T, n: &mut U|
                mut_ref_current(m) == *old(t) && mut_ref_future(m) == *t && mut_ref_current(n) == *old(u)
                    && mut_ref_future(n) == *u && #[trigger] self.function.shared_post(m, n, r);
            assert(MutCall2::<T, U, R>::post(&*self, m, n, r));
            assert(*t == *final(t) && *u == *final(u));
        }
        r
    }
}

impl<T, U, R> MutCallOnce2<T, U, R> for ArcBiMutatingFunction<T, U, R> {
    closed spec fn pre(&self, t: T, u: U) -> bool {
        self.accepts(t, u)
    }

    closed spec fn post(&self, m: &mut T, n: &mut U, r: R) -> bool {
        self.produces(m, n, r)
    }

    fn call_once(self: Box<Self>, t: &mut T, u: &mut U) -> (r: R) {
        let r = self.function.shared_call(t, u);
        proof {
            assert(exists|m: &mut T, n: &mut U|
                mut_ref_current(m) == *old(t) && mut_ref_future(m) == *t && mut_ref_current(n) == *old(u)
                    && mut_ref_future(n) == *u && #[trigger] self.function.shared_post(m, n, r));
            let (m, n) = choose|m: &mut T, n: &mut U|
                mut_ref_current(m) == *old(t) && mut_ref_future(m) == *t && mut_ref_current(n) == *old(u)
                    && mut_ref_future(n) == *u && #[trigger] self.function.shared_post(m, n, r);
            assert(MutCallOnce2::<T, U, R>::post(&*self, m, n, r));
            assert(*t == *final(t) && *u == *final(u));
        }
        r
    }
}

impl<T, U, R> BiMutatingFunction<T, U, R> for ArcBiMutatingFunction<T, U, R> {
    open spec fn accepts(&self, t: T, u: U) -> bool {
        ArcBiMutatingFunction::accepts(self, t, u)
    }

    open spec fn produces(&self, m: &mut T, n: &mut U, r: R) -> bool {
        ArcBiMutatingFunction::produces(self, m, n, r)
    }

    fn apply(&self, first: &mut T, second: &mut U) -> (r: R) {
        let r = self.function.shared_call(first, second);
        proof {
            assert(exists|m: &mut T, n: &mut U|
                mut_ref_current(m) == *old(first) && mut_ref_future(m) == *first && mut_ref_current(n)
                    == *old(second) && mut_ref_future(n) == *second && #[trigger] self.function.shared_post(m, n, r));
            let (m, n) = choose|m: &mut T, n: &mut U|
                mut_ref_current(m) == *old(first) && mut_ref_future(m) == *first && mut_ref_current(n)
                    == *old(second) && mut_ref_future(n) == *second && #[trigger] self.function.shared_post(m, n, r);
            assert(BiMutatingFunction::<T, U, R>::produces(self, m, n, r));
            assert(*first == *final(first) && *second == *final(second));
        }
        r
    }

    fn into_box(self) -> (res: BoxBiMutatingFunction<T, U, R>)
        where
            Self: Sized + 'static,
            T: 'static,
            U: 'static,
            R: 'static,
        ensures
            forall|t: T, u: U| #[trigger] res.accepts(t, u) == self.accepts(t, u),
            forall|m: &mut T, n: &mut U, r: R| #[trigger] res.produces(m, n, r) == self.produces(m, n, r),
            res.spec_name() == self.spec_name(),
    {
        let name = clone_name(&self.name);
        let ghost s = self;
        let res = BoxBiMutatingFunction::from_call(self, name);
        assert forall|m: &mut T, n: &mut U, r: R| #[trigger] BoxBiMutatingFunction::produces(&res, m, n, r)
            implies exists|m2: &mut T, n2: &mut U|
            mut_ref_current(m2) == mut_ref_current(m) && mut_ref_future(m2) == mut_ref_future(m)
                && mut_ref_current(n2) == mut_ref_current(n) && mut_ref_future(n2) == mut_ref_future(n)
                && BiMutatingFunction::<T, U, R>::produces(&s, m2, n2, r) by {
            assert(BiMutatingFunction::<T, U, R>::produces(&s, m, n, r));
        }
        res
    }

    fn into_rc(self) -> (res: RcBiMutatingFunction<T, U, R>)
        where
            Self: Sized + 'static,
            T: 'static,
            U: 'static,
            R: 'static,
        ensures
            forall|t: T, u: U| #[trigger] res.accepts(t, u) == self.accepts(t, u),
            forall|m: &mut T, n: &mut U, r: R| #[trigger] res.produces(m, n, r) == self.produces(m, n, r),
            res.spec_name() == self.spec_name(),
    {
        let name = clone_name(&self.name);
        let ghost s = self;
        let res = RcBiMutatingFunction::from_call(self, name);
        assert forall|m: &mut T, n: &mut U, r: R| #[trigger] RcBiMutatingFunction::produces(&res, m, n, r)
            implies exists|m2: &mut T, n2: &mut U|
            mut_ref_current(m2) == mut_ref_current(m) && mut_ref_future(m2) == mut_ref_future(m)
                && mut_ref_current(n2) == mut_ref_current(n) && mut_ref_future(n2) == mut_ref_future(n)
                && BiMutatingFunction::<T, U, R>::produces(&s, m2, n2, r) by {
            assert(BiMutatingFunction::<T, U, R>::produces(&s, m, n, r));
        }
        res
    }

    fn into_arc(self) -> (res: ArcBiMutatingFunction<T, U, R>)
        where
            Self: Sized + Send + Sync + 'static,
            T: 'static,
            U: 'static,
            R: 'static,
        ensures
            res == self,
    {
        assert forall|m: &mut T, n: &mut U, r: R| #[trigger] ArcBiMutatingFunction::produces(&self, m, n, r)
            implies exists|m2: &mut T, n2: &mut U|
            mut_ref_current(m2) == mut_ref_current(m) && mut_ref_future(m2) == mut_ref_future(m)
                && mut_ref_current(n2) == mut_ref_current(n) && mut_ref_future(n2) == mut_ref_future(n)
                && BiMutatingFunction::<T, U, R>::produces(&self, m2, n2, r) by {
            assert(BiMutatingFunction::<T, U, R>::produces(&self, m, n, r));
        }
        self
    }

    fn into_once(self) -> (res: BoxBiMutatingFunctionOnce<T, U, R>)
        where
            Self: Sized + 'static,
            T: 'static,
            U: 'static,
            R: 'static,
        ensures
            forall|t: T, u: U| #[trigger] res.accepts(t, u) == self.accepts(t, u),
            forall|m: &mut T, n: &mut U, r: R| #[trigger] res.produces(m, n, r) == self.produces(m, n, r),
            res.spec_name() == self.spec_name(),
    {
        let name = clone_name(&self.name);
        let ghost s = self;
        let res = BoxBiMutatingFunctionOnce::from_call_once(self, name);
        assert forall|m: &mut T, n: &mut U, r: R| #[trigger] BoxBiMutatingFunctionOnce::produces(&res, m, n, r)
            implies exists|m2: &mut T, n2: &mut U|
            mut_ref_current(m2) == mut_ref_current(m) && mut_ref_future(m2) == mut_ref_future(m)
                && mut_ref_current(n2) == mut_ref_current(n) && mut_ref_future(n2) == mut_ref_future(n)
                && BiMutatingFunction::<T, U, R>::produces(&s, m2, n2, r) by {
            assert(BiMutatingFunction::<T, U, R>::produces(&s, m, n, r));
        }
        res
    }

    fn to_box(&self) -> (res: BoxBiMutatingFunction<T, U, R>)
        where
            Self: Clone + 'static,
            T: 'static,
            U: 'static,
            R: 'static,
        ensures
            forall|t: T, u: U| #[trigger] res.accepts(t, u) == self.accepts(t, u),
            forall|m: &mut T, n: &mut U, r: R| #[trigger] res.produces(m, n, r) == self.produces(m, n, r),
            res.spec_name() == self.spec_name(),
    {
        let res = BoxBiMutatingFunction::from_call(self.duplicate(), clone_name(&self.name));
        proof {
            let c = *self;
            assert(cloned::<Self>(*self, c));
            assert forall|m: &mut T, n: &mut U, r: R| #[trigger] BoxBiMutatingFunction::produces(&res, m, n, r)
                implies exists|m2: &mut T, n2: &mut U|
                mut_ref_current(m2) == mut_ref_current(m) && mut_ref_future(m2) == mut_ref_future(m)
                    && mut_ref_current(n2) == mut_ref_current(n) && mut_ref_future(n2) == mut_ref_future(n)
                    && BiMutatingFunction::<T, U, R>::produces(&c, m2, n2, r) by {
                assert(BiMutatingFunction::<T, U, R>::produces(&c, m, n, r));
            }
        }
        res
    }

    fn to_rc(&self) -> (res: RcBiMutatingFunction<T, U, R>)
        where
            Self: Clone + 'static,
            T: 'static,
            U: 'static,
            R: 'static,
        ensures
            forall|t: T, u: U| #[trigger] res.accepts(t, u) == self.accepts(t, u),
            forall|m: &mut T, n: &mut U, r: R| #[trigger] res.produces(m, n, r) == self.produces(m, n, r),
            res.spec_name() == self.spec_name(),
    {
        let res = RcBiMutatingFunction::from_call(self.duplicate(), clone_name(&self.name));
        proof {
            let c = *self;
            assert(cloned::<Self>(*self, c));
            assert forall|m: &mut T, n: &mut U, r: R| #[trigger] RcBiMutatingFunction::produces(&res, m, n, r)
                implies exists|m2: &mut T, n2: &mut U|
                mut_ref_current(m2) == mut_ref_current(m) && mut_ref_future(m2) == mut_ref_future(m)
                    && mut_ref_current(n2) == mut_ref_current(n) && mut_ref_future(n2) == mut_ref_future(n)
                    && BiMutatingFunction::<T, U, R>::produces(&c, m2, n2, r) by {
                assert(BiMutatingFunction::<T, U, R>::produces(&c, m, n, r));
            }
        }
        res
    }

    fn to_arc(&self) -> (res: ArcBiMutatingFunction<T, U, R>)
        where
            Self: Clone + Send + Sync + 'static,
            T: 'static,
            U: 'static,
            R: 'static,
        ensures
            res == *self,
    {
        let res = self.duplicate();
        proof {
            let c = *self;
            assert(cloned::<Self>(*self, c));
            assert forall|m: &mut T, n: &mut U, r: R| #[trigger] ArcBiMutatingFunction::produces(&c, m, n, r)
                implies exists|m2: &mut T, n2: &mut U|
                mut_ref_current(m2) == mut_ref_current(m) && mut_ref_future(m2) == mut_ref_future(m)
                    && mut_ref_current(n2) == mut_ref_current(n) && mut_ref_future(n2) == mut_ref_future(n)
                    && BiMutatingFunction::<T, U, R>::produces(&c, m2, n2, r) by {
                assert(BiMutatingFunction::<T, U, R>::produces(&c, m, n, r));
            }
        }
        res
    }

    fn to_once(&self) -> (res: BoxBiMutatingFunctionOnce<T, U, R>)
        where
            Self: Clone + 'static,
            T: 'static,
            U: 'static,
            R: 'static,
        ensures
            forall|t: T, u: U| #[trigger] res.accepts(t, u) == self.accepts(t, u),
            forall|m: &mut T, n: &mut U, r: R| #[trigger] res.produces(m, n, r) == self.produces(m, n, r),
            res.spec_name() == self.spec_name(),
    {
        let res = BoxBiMutatingFunctionOnce::from_call_once(self.duplicate(), clone_name(&self.name));
        proof {
            let c = *self;
            assert(cloned::<Self>(*self, c));
            assert forall|m: &mut T, n: &mut U, r: R| #[trigger] BoxBiMutatingFunctionOnce::produces(&res, m, n, r)
                implies exists|m2: &mut T, n2: &mut U|
                mut_ref_current(m2) == mut_ref_current(m) && mut_ref_future(m2) == mut_ref_future(m)
                    && mut_ref_current(n2) == mut_ref_current(n) && mut_ref_future(n2) == mut_ref_future(n)
                    && BiMutatingFunction::<T, U, R>::produces(&c, m2, n2, r) by {
                assert(BiMutatingFunction::<T, U, R>::produces(&c, m, n, r));
            }
        }
        res
    }
}

/// A [`BoxBiMutatingFunction`] restricted by a predicate on the values it is given,
/// waiting for the branch that [`BoxConditionalBiMutatingFunction::or_else`] supplies.
#[verifier::reject_recursive_types(T)]
#[verifier::reject_recursive_types(U)]
#[verifier::reject_recursive_types(R)]
pub struct BoxConditionalBiMutatingFunction<T, U, R> {
    function: BoxBiMutatingFunction<T, U, R>,
    predicate: BoxBiPredicate<T, U>,
}

impl<T: 'static, U: 'static, R: 'static> BoxConditionalBiMutatingFunction<T, U, R> {
    pub closed spec fn function(&self) -> BoxBiMutatingFunction<T, U, R> {
        self.function
    }

    pub closed spec fn predicate(&self) -> BoxBiPredicate<T, U> {
        self.predicate
    }

    /// The function that applies the guarded function where the predicate
    /// holds of the values before the call, and `else_function` elsewhere.
    pub fn or_else<F>(self, else_function: F) -> (res: BoxBiMutatingFunction<T, U, R>)
        where
            F: BiMutatingFunction<T, U, R> + 'static,
        ensures
            forall|t: T, u: U| #[trigger] res.accepts(t, u) == choice_accepts(self.predicate(), self.function(), else_function, t, u),
            forall|m: &mut T, n: &mut U, r: R| #[trigger] res.produces(m, n, r) == choice_produces(self.predicate(), self.function(), else_function, m, n, r),
            res.spec_name() is None,
    {
        BoxBiMutatingFunction::from_call(
            Choose { predicate: self.predicate, on_true: self.function, on_false: else_function },
            None,
        )
    }
}

/// A [`RcBiMutatingFunction`] restricted by a predicate on the values it is given,
/// waiting for the branch that [`RcConditionalBiMutatingFunction::or_else`] supplies.
#[verifier::reject_recursive_types(T)]
#[verifier::reject_recursive_types(U)]
#[verifier::reject_recursive_types(R)]
pub struct RcConditionalBiMutatingFunction<T, U, R> {
    function: RcBiMutatingFunction<T, U, R>,
    predicate: RcBiPredicate<T, U>,
}

impl<T: 'static, U: 'static, R: 'static> RcConditionalBiMutatingFunction<T, U, R> {
    pub closed spec fn function(&self) -> RcBiMutatingFunction<T, U, R> {
        self.function
    }

    pub closed spec fn predicate(&self) -> RcBiPredicate<T, U> {
        self.predicate
    }

    /// The function that applies the guarded function where the predicate
    /// holds of the values before the call, and `else_function` elsewhere.
    pub fn or_else<F>(&self, else_function: F) -> (res: RcBiMutatingFunction<T, U, R>)
        where
            F: BiMutatingFunction<T, U, R> + 'static,
        ensures
            forall|t: T, u: U| #[trigger] res.accepts(t, u) == choice_accepts(self.predicate(), self.function(), else_function, t, u),
            forall|m: &mut T, n: &mut U, r: R| #[trigger] res.produces(m, n, r) == choice_produces(self.predicate(), self.function(), else_function, m, n, r),
            res.spec_name() is None,
    {
        RcBiMutatingFunction::from_call(
            Choose { predicate: self.predicate.clone(), on_true: self.function.clone(), on_false: else_function },
            None,
        )
    }
}

impl<T, U, R> Clone for RcConditionalBiMutatingFunction<T, U, R> {
    fn clone(&self) -> (res: Self)
        ensures
            res == *self,
    {
        RcConditionalBiMutatingFunction { function: self.function.clone(), predicate: self.predicate.clone() }
    }
}

/// A [`ArcBiMutatingFunction`] restricted by a predicate on the values it is given,
/// waiting for the branch that [`ArcConditionalBiMutatingFunction::or_else`] supplies.
#[verifier::reject_recursive_types(T)]
#[verifier::reject_recursive_types(U)]
#[verifier::reject_recursive_types(R)]
pub struct ArcConditionalBiMutatingFunction<T, U, R> {
    function: ArcBiMutatingFunction<T, U, R>,
    predicate: ArcBiPredicate<T, U>,
}

impl<T: 'static, U: 'static, R: 'static> ArcConditionalBiMutatingFunction<T, U, R> {
    pub closed spec fn function(&self) -> ArcBiMutatingFunction<T, U, R> {
        self.function
    }

    pub closed spec fn predicate(&self) -> ArcBiPredicate<T, U> {
        self.predicate
    }

    /// The function that applies the guarded function where the predicate
    /// holds of the values before the call, and `else_function` elsewhere.
    pub fn or_else<F>(&self, else_function: F) -> (res: ArcBiMutatingFunction<T, U, R>)
        where
            F: BiMutatingFunction<T, U, R> + Send + Sync + 'static,
        ensures
            forall|t: T, u: U| #[trigger] res.accepts(t, u) == choice_accepts(self.predicate(), self.function(), else_function, t, u),
            forall|m: &mut T, n: &mut U, r: R| #[trigger] res.produces(m, n, r) == choice_produces(self.predicate(), self.function(), else_function, m, n, r),
            res.spec_name() is None,
    {
        ArcBiMutatingFunction::from_call(
            Choose { predicate: self.predicate.clone(), on_true: self.function.clone(), on_false: else_function },
            None,
        )
    }
}

impl<T, U, R> Clone for ArcConditionalBiMutatingFunction<T, U, R> {
    fn clone(&self) -> (res: Self)
        ensures
            res == *self,
    {
        ArcConditionalBiMutatingFunction { function: self.function.clone(), predicate: self.predicate.clone() }
    }
}

/// Composition and guarding for plain closures.
pub trait FnBiMutatingFunctionOps<T, U, R>: Fn(&mut T, &mut U) -> R + Sized {
    /// This closure followed by `after` on its result.
    fn and_then<S, F>(self, after: F) -> (res: BoxBiMutatingFunction<T, U, S>)
        where
            Self: 'static,
            S: 'static,
            F: Function<R, S> + 'static,
            T: 'static,
            U: 'static,
            R: 'static,
        ensures
            forall|t: T, u: U| #[trigger] res.accepts(t, u) == then_accepts(self, after, t, u),
            forall|m: &mut T, n: &mut U, s: S| #[trigger] res.produces(m, n, s) == then_produces(self, after, m, n, s),
    {
        let first = BoxBiMutatingFunction::new(self);
        let res = first.and_then(after);
        assert forall|t: T, u: U| #[trigger] res.accepts(t, u) == then_accepts(self, after, t, u) by {
            assert(forall|m: &mut T, n: &mut U, r: R|
                #![trigger BiMutatingFunction::produces(&first, m, n, r)]
                #![trigger BiMutatingFunction::produces(&self, m, n, r)]
                BiMutatingFunction::produces(&first, m, n, r) == BiMutatingFunction::produces(&self, m, n, r));
        }
        assert forall|m: &mut T, n: &mut U, s: S| #[trigger] res.produces(m, n, s) == then_produces(self, after, m, n, s) by {
            assert(forall|r: R|
                #![trigger BiMutatingFunction::produces(&first, m, n, r)]
                #![trigger BiMutatingFunction::produces(&self, m, n, r)]
                BiMutatingFunction::produces(&first, m, n, r) == BiMutatingFunction::produces(&self, m, n, r));
        }
        res
    }

    /// This closure restricted to the values on which `predicate` holds
    /// before the call.
    fn when<P>(self, predicate: P) -> (res: BoxConditionalBiMutatingFunction<T, U, R>)
        where
            Self: 'static,
            P: BiPredicate<T, U> + 'static,
            T: 'static,
            U: 'static,
            R: 'static,
        ensures
            forall|t: T, u: U| #[trigger]
                res.function().accepts(t, u) == (forall|m: &mut T, n: &mut U|
                    mut_ref_current(m) == t && mut_ref_current(n) == u ==> #[trigger] call_requires(self, (m, n))),
            forall|m: &mut T, n: &mut U, r: R| #[trigger] res.function().produces(m, n, r) == call_ensures(self, (m, n), r),
            forall|t: T, u: U| predicate.accepts(t, u) ==> #[trigger] res.predicate().accepts(t, u),
            forall|t: T, u: U, b: bool| #[trigger] res.predicate().produces(t, u, b) ==> predicate.produces(t, u, b),
    {
        BoxBiMutatingFunction::new(self).when(predicate)
    }
}

impl<T, U, R, F: Fn(&mut T, &mut U) -> R> FnBiMutatingFunctionOps<T, U, R> for F {

}

/// Following a two-argument mutating function by two functions on its
/// result is associative: `bf` followed by `g`, and `b` followed by `fg`,
/// accept the same pairs and may change them in the same ways and give the
/// same results, where `bf` behaves as `b` followed by `f` and `fg` as `f`
/// followed by `g` (as the results of `and_then` do).
pub proof fn law_then_associative<T, U, M, N, R, B, F, G, BF, FG>(b: B, f: F, g: G, bf: BF, fg: FG, t: T, u: U)
    where
        B: BiMutatingFunction<T, U, M>,
        F: Function<M, N>,
        G: Function<N, R>,
        BF: BiMutatingFunction<T, U, N>,
        FG: Function<M, R>,
    requires
        forall|x: T, y: U| #[trigger] bf.accepts(x, y) == then_accepts(b, f, x, y),
        forall|m: &mut T, n: &mut U, k: N| #[trigger] bf.produces(m, n, k) == then_produces(b, f, m, n, k),
        forall|k: M| #[trigger] fg.accepts(k) == crate::functions::function::then_accepts(f, g, k),
        forall|k: M, r: R| #[trigger] fg.produces(k, r) == crate::functions::function::then_produces(f, g, k, r),
    ensures
        then_accepts(bf, g, t, u) == then_accepts(b, fg, t, u),
        forall|m: &mut T, n: &mut U, r: R| #[trigger]
            then_produces(bf, g, m, n, r) == then_produces(b, fg, m, n, r),
{
    if then_accepts(bf, g, t, u) {
        assert forall|m: &mut T, n: &mut U, k: M|
            mut_ref_current(m) == t && mut_ref_current(n) == u && #[trigger] b.produces(m, n, k) implies fg.accepts(
            k,
        ) by {
            assert(bf.accepts(t, u));
            assert forall|j: N| #[trigger] f.produces(k, j) implies g.accepts(j) by {
                assert(bf.produces(m, n, j));
            }
        }
    }
    if then_accepts(b, fg, t, u) {
        assert forall|m: &mut T, n: &mut U, j: N|
            mut_ref_current(m) == t && mut_ref_current(n) == u && #[trigger] bf.produces(m, n, j) implies g.accepts(
            j,
        ) by {
            let k = choose|k: M| #[trigger] b.produces(m, n, k) && f.produces(k, j);
            assert(fg.accepts(k));
        }
        assert forall|m: &mut T, n: &mut U, k: M|
            mut_ref_current(m) == t && mut_ref_current(n) == u && #[trigger] b.produces(m, n, k) implies f.accepts(
            k,
        ) by {
            assert(fg.accepts(k));
        }
        assert(bf.accepts(t, u));
    }
    assert forall|m: &mut T, n: &mut U, r: R| #[trigger]
        then_produces(bf, g, m, n, r) == then_produces(b, fg, m, n, r) by {
        if then_produces(bf, g, m, n, r) {
            let j = choose|j: N| #[trigger] bf.produces(m, n, j) && g.produces(j, r);
            let k = choose|k: M| #[trigger] b.produces(m, n, k) && f.produces(k, j);
            assert(fg.produces(k, r));
        }
        if then_produces(b, fg, m, n, r) {
            let k = choose|k: M| #[trigger] b.produces(m, n, k) && fg.produces(k, r);
            let j = choose|j: N| #[trigger] f.produces(k, j) && g.produces(j, r);
            assert(bf.produces(m, n, j));
        }
    }
}

/// `first` followed by `after`: defined at `t`, `u` when `first` is, and
/// `after` is defined at each result that `first` may give for them.
pub open spec fn then_accepts<T, U, M, S, G: BiMutatingFunction<T, U, M>, F: Function<M, S>>(
    first: G,
    after: F,
    t: T,
    u: U,
) -> bool {
    &&& first.accepts(t, u)
    &&& forall|m: &mut T, n: &mut U, r: M|
        mut_ref_current(m) == t && mut_ref_current(n) == u && #[trigger] first.produces(m, n, r) ==> after.accepts(r)
}

/// `first` followed by `after`: a call may take `m` and `n` as `first` does
/// and give `s` when some result of `first` leads `after` to `s`.
pub open spec fn then_produces<T, U, M, S, G: BiMutatingFunction<T, U, M>, F: Function<M, S>>(
    first: G,
    after: F,
    m: &mut T,
    n: &mut U,
    s: S,
) -> bool {
    exists|r: M| #[trigger] first.produces(m, n, r) && after.produces(r, s)
}

/// A choice between two functions by a predicate on the values before the
/// call: defined when the predicate is, and the branch that each possible
/// answer selects is.
pub open spec fn choice_accepts<
    T,
    U,
    R,
    P: BiPredicate<T, U>,
    G: BiMutatingFunction<T, U, R>,
    E: BiMutatingFunction<T, U, R>,
>(p: P, g: G, e: E, t: T, u: U) -> bool {
    &&& p.accepts(t, u)
    &&& forall|b: bool| #[trigger] p.produces(t, u, b) ==> if b {
        g.accepts(t, u)
    } else {
        e.accepts(t, u)
    }
}

/// A choice between two functions by a predicate on the values before the
/// call: some answer of the predicate selects a branch that may behave so.
pub open spec fn choice_produces<
    T,
    U,
    R,
    P: BiPredicate<T, U>,
    G: BiMutatingFunction<T, U, R>,
    E: BiMutatingFunction<T, U, R>,
>(p: P, g: G, e: E, m: &mut T, n: &mut U, r: R) -> bool {
    exists|b: bool| #[trigger] p.produces(mut_ref_current(m), mut_ref_current(n), b) && if b {
        g.produces(m, n, r)
    } else {
        e.produces(m, n, r)
    }
}

/// `r` is a clone of the value behind `v`.
spec fn clone_of<R: Clone>(v: &R, r: R) -> bool {
    cloned::<R>(*v, r)
}

/// Calls `first`, then `after` on its result.
struct Then<G, F> {
    first: G,
    after: F,
}

impl<T, U, M, S, F: Function<M, S>> MutCall2<T, U, S> for Then<BoxBiMutatingFunction<T, U, M>, F> {
    closed spec fn pre(&self, t: T, u: U) -> bool {
        then_accepts(self.first, self.after, t, u)
    }

    closed spec fn post(&self, m: &mut T, n: &mut U, s: S) -> bool {
        then_produces(self.first, self.after, m, n, s)
    }

    fn call(&self, t: &mut T, u: &mut U) -> (s: S) {
        let r = self.first.apply(t, u);
        let ghost (m, n) = choose|m: &mut T, n: &mut U|
            mut_ref_current(m) == *old(t) && mut_ref_future(m) == *t && mut_ref_current(n) == *old(u)
                && mut_ref_future(n) == *u && #[trigger] BiMutatingFunction::<T, U, M>::produces(&self.first, m, n, r);
        proof {
            assert(exists|m: &mut T, n: &mut U|
                mut_ref_current(m) == *old(t) && mut_ref_future(m) == *t && mut_ref_current(n) == *old(u)
                    && mut_ref_future(n) == *u && #[trigger] BiMutatingFunction::<T, U, M>::produces(&self.first, m, n, r));
        }
        let s = self.after.apply(&r);
        proof {
            assert(then_produces(self.first, self.after, m, n, s));
            assert(MutCall2::<T, U, S>::post(self, m, n, s));
            assert(*t == *final(t) && *u == *final(u));
        }
        s
    }
}

impl<T, U, M, S, F: Function<M, S>> MutCall2<T, U, S> for Then<RcBiMutatingFunction<T, U, M>, F> {
    closed spec fn pre(&self, t: T, u: U) -> bool {
        then_accepts(self.first, self.after, t, u)
    }

    closed spec fn post(&self, m: &mut T, n: &mut U, s: S) -> bool {
        then_produces(self.first, self.after, m, n, s)
    }

    fn call(&self, t: &mut T, u: &mut U) -> (s: S) {
        let r = self.first.apply(t, u);
        let ghost (m, n) = choose|m: &mut T, n: &mut U|
            mut_ref_current(m) == *old(t) && mut_ref_future(m) == *t && mut_ref_current(n) == *old(u)
                && mut_ref_future(n) == *u && #[trigger] BiMutatingFunction::<T, U, M>::produces(&self.first, m, n, r);
        proof {
            assert(exists|m: &mut T, n: &mut U|
                mut_ref_current(m) == *old(t) && mut_ref_future(m) == *t && mut_ref_current(n) == *old(u)
                    && mut_ref_future(n) == *u && #[trigger] BiMutatingFunction::<T, U, M>::produces(&self.first, m, n, r));
        }
        let s = self.after.apply(&r);
        proof {
            assert(then_produces(self.first, self.after, m, n, s));
            assert(MutCall2::<T, U, S>::post(self, m, n, s));
            assert(*t == *final(t) && *u == *final(u));
        }
        s
    }
}

impl<T, U, M, S, F: Function<M, S>> MutCall2<T, U, S> for Then<ArcBiMutatingFunction<T, U, M>, F> {
    closed spec fn pre(&self, t: T, u: U) -> bool {
        then_accepts(self.first, self.after, t, u)
    }

    closed spec fn post(&self, m: &mut T, n: &mut U, s: S) -> bool {
        then_produces(self.first, self.after, m, n, s)
    }

    fn call(&self, t: &mut T, u: &mut U) -> (s: S) {
        let r = self.first.apply(t, u);
        let ghost (m, n) = choose|m: &mut T, n: &mut U|
            mut_ref_current(m) == *old(t) && mut_ref_future(m) == *t && mut_ref_current(n) == *old(u)
                && mut_ref_future(n) == *u && #[trigger] BiMutatingFunction::<T, U, M>::produces(&self.first, m, n, r);
        proof {
            assert(exists|m: &mut T, n: &mut U|
                mut_ref_current(m) == *old(t) && mut_ref_future(m) == *t && mut_ref_current(n) == *old(u)
                    && mut_ref_future(n) == *u && #[trigger] BiMutatingFunction::<T, U, M>::produces(&self.first, m, n, r));
        }
        let s = self.after.apply(&r);
        proof {
            assert(then_produces(self.first, self.after, m, n, s));
            assert(MutCall2::<T, U, S>::post(self, m, n, s));
            assert(*t == *final(t) && *u == *final(u));
        }
        s
    }
}

/// Applies `on_true` or `on_false`, as `predicate` selects.
struct Choose<P, G, E> {
    predicate: P,
    on_true: G,
    on_false: E,
}

impl<
    T,
    U,
    R,
    P: BiPredicate<T, U>,
    G: BiMutatingFunction<T, U, R>,
    E: BiMutatingFunction<T, U, R>,
> MutCall2<T, U, R> for Choose<P, G, E> {
    closed spec fn pre(&self, t: T, u: U) -> bool {
        choice_accepts(self.predicate, self.on_true, self.on_false, t, u)
    }

    closed spec fn post(&self, m: &mut T, n: &mut U, r: R) -> bool {
        choice_produces(self.predicate, self.on_true, self.on_false, m, n, r)
    }

    fn call(&self, t: &mut T, u: &mut U) -> (r: R) {
        if self.predicate.test(&*t, &*u) {
            let r = self.on_true.apply(t, u);
            proof {
                assert(exists|m: &mut T, n: &mut U|
                    mut_ref_current(m) == *old(t) && mut_ref_future(m) == *t && mut_ref_current(n) == *old(u)
                        && mut_ref_future(n) == *u && #[trigger] self.on_true.produces(m, n, r));
                let (m, n) = choose|m: &mut T, n: &mut U|
                    mut_ref_current(m) == *old(t) && mut_ref_future(m) == *t && mut_ref_current(n) == *old(u)
                        && mut_ref_future(n) == *u && #[trigger] self.on_true.produces(m, n, r);
                assert(MutCall2::<T, U, R>::post(self, m, n, r));
                assert(*t == *final(t) && *u == *final(u));
            }
            r
        } else {
            let r = self.on_false.apply(t, u);
            proof {
                assert(exists|m: &mut T, n: &mut U|
                    mut_ref_current(m) == *old(t) && mut_ref_future(m) == *t && mut_ref_current(n) == *old(u)
                        && mut_ref_future(n) == *u && #[trigger] self.on_false.produces(m, n, r));
                let (m, n) = choose|m: &mut T, n: &mut U|
                    mut_ref_current(m) == *old(t) && mut_ref_future(m) == *t && mut_ref_current(n) == *old(u)
                        && mut_ref_future(n) == *u && #[trigger] self.on_false.produces(m, n, r);
                assert(MutCall2::<T, U, R>::post(self, m, n, r));
                assert(*t == *final(t) && *u == *final(u));
            }
            r
        }
    }
}

/// A [`BoxBiMutatingFunction`] whose two arguments have the same type.
pub type BoxBinaryMutatingFunction<T, R> = BoxBiMutatingFunction<T, T, R>;

/// An [`ArcBiMutatingFunction`] whose two arguments have the same type.
pub type ArcBinaryMutatingFunction<T, R> = ArcBiMutatingFunction<T, T, R>;

/// An [`RcBiMutatingFunction`] whose two arguments have the same type.
pub type RcBinaryMutatingFunction<T, R> = RcBiMutatingFunction<T, T, R>;

} // verus!
