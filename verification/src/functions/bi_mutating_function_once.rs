//! Functions called at most once that take two arguments by mutable
//! reference, may change them, and compute a result
//! (`FnOnce(&mut T, &mut U) -> R`).
//!
//! `produces(m, n, r)` relates references `m` and `n` to a result `r`: a
//! reference stands for the value it held when the call started
//! (`mut_ref_current`) and the value it holds when the call returns
//! (`mut_ref_future`).
use vstd::prelude::*;

use crate::functions::function::Function;
use crate::mutating_call::MutCallOnce2;
use crate::names::{name_str, name_view, owned_name};
use crate::predicates::{BiPredicate, BoxBiPredicate};

verus! {

/// A single-use function that may change the two values it is given and
/// computes a result.
///
/// `accepts(t, u)` is what must hold of the values before `apply`;
/// `produces(m, n, r)` says that the call may take `m` and `n` from their
/// values before to their values after and give `r`.
pub trait BiMutatingFunctionOnce<T, U, R> {
    spec fn accepts(&self, t: T, u: U) -> bool;

    spec fn produces(&self, m: &mut T, n: &mut U, r: R) -> bool;

    fn apply(self, first: &mut T, second: &mut U) -> (r: R)
        where
            Self: Sized,
        requires
            self.accepts(*old(first), *old(second)),
        ensures
            exists|m: &mut T, n: &mut U|
                mut_ref_current(m) == *old(first) && mut_ref_future(m) == *final(first) && mut_ref_current(n)
                    == *old(second) && mut_ref_future(n) == *final(second) && #[trigger] self.produces(m, n, r),
    ;

    /// Moves this function into a [`BoxBiMutatingFunctionOnce`] that calls
    /// it.
    fn into_box(self) -> (res: BoxBiMutatingFunctionOnce<T, U, R>)
        where
            Self: Sized + 'static,
            T: 'static,
            U: 'static,
            R: 'static,
        ensures
            forall|t: T, u: U| self.accepts(t, u) ==> #[trigger] res.accepts(t, u),
            forall|m: &mut T, n: &mut U, r: R| #[trigger]
                res.produces(m, n, r) ==> exists|m2: &mut T, n2: &mut U|
                    #![trigger self.produces(m2, n2, r)]
                    mut_ref_current(m2) == mut_ref_current(m) && mut_ref_future(m2) == mut_ref_future(m)
                        && mut_ref_current(n2) == mut_ref_current(n) && mut_ref_future(n2) == mut_ref_future(n)
                        && self.produces(m2, n2, r),
    {
        let f = move |t: &mut T, u: &mut U| -> (r: R)
            requires
                self.accepts(*old(t), *old(u)),
            ensures
                exists|m: &mut T, n: &mut U|
                    mut_ref_current(m) == *old(t) && mut_ref_future(m) == *final(t) && mut_ref_current(n)
                        == *old(u) && mut_ref_future(n) == *final(u) && #[trigger] self.produces(m, n, r),
        {
            let r = self.apply(t, u);
            proof {
                assert(exists|m: &mut T, n: &mut U|
                    mut_ref_current(m) == *old(t) && mut_ref_future(m) == *t && mut_ref_current(n) == *old(u)
                        && mut_ref_future(n) == *u && #[trigger] self.produces(m, n, r));
                let (m, n) = choose|m: &mut T, n: &mut U|
                    mut_ref_current(m) == *old(t) && mut_ref_future(m) == *t && mut_ref_current(n) == *old(u)
                        && mut_ref_future(n) == *u && #[trigger] self.produces(m, n, r);
                assert(*t == *final(t) && *u == *final(u));
            }
            r
        };
        BoxBiMutatingFunctionOnce::new(f)
    }

    /// A [`BoxBiMutatingFunctionOnce`] that calls a clone of this function.
    fn to_box(&self) -> (res: BoxBiMutatingFunctionOnce<T, U, R>)
        where
            Self: Clone + 'static,
            T: 'static,
            U: 'static,
            R: 'static,
        ensures
            exists|c: Self|
                cloned::<Self>(*self, c) && (forall|t: T, u: U| c.accepts(t, u) ==> #[trigger] res.accepts(t, u))
                    && (forall|m: &mut T, n: &mut U, r: R| #[trigger]
                    res.produces(m, n, r) ==> exists|m2: &mut T, n2: &mut U|
                        #![trigger c.produces(m2, n2, r)]
                        mut_ref_current(m2) == mut_ref_current(m) && mut_ref_future(m2) == mut_ref_future(m)
                            && mut_ref_current(n2) == mut_ref_current(n) && mut_ref_future(n2) == mut_ref_future(n)
                            && c.produces(m2, n2, r)),
    {
        let c = self.clone();
        let res = c.into_box();
        assert(cloned::<Self>(*self, c));
        res
    }
}

impl<T, U, R, F: FnOnce(&mut T, &mut U) -> R> BiMutatingFunctionOnce<T, U, R> for F {
    open spec fn accepts(&self, t: T, u: U) -> bool {
        forall|m: &mut T, n: &mut U|
            mut_ref_current(m) == t && mut_ref_current(n) == u ==> #[trigger] call_requires(*self, (m, n))
    }

    open spec fn produces(&self, m: &mut T, n: &mut U, r: R) -> bool {
        call_ensures(*self, (m, n), r)
    }

    fn apply(self, first: &mut T, second: &mut U) -> (r: R) {
        let r = self(first, second);
        proof {
            assert(exists|m: &mut T, n: &mut U|
                #[trigger] call_ensures(self, (m, n), r) && mut_ref_current(m) == *old(first) && mut_ref_future(m)
                    == *first && mut_ref_current(n) == *old(second) && mut_ref_future(n) == *second);
            let (m, n) = choose|m: &mut T, n: &mut U|
                #[trigger] call_ensures(self, (m, n), r) && mut_ref_current(m) == *old(first) && mut_ref_future(m)
                    == *first && mut_ref_current(n) == *old(second) && mut_ref_future(n) == *second;
            assert(BiMutatingFunctionOnce::<T, U, R>::produces(&self, m, n, r));
            assert(*first == *final(first) && *second == *final(second));
        }
        r
    }

    fn into_box(self) -> (res: BoxBiMutatingFunctionOnce<T, U, R>)
        where
            Self: Sized + 'static,
            T: 'static,
            U: 'static,
            R: 'static,
        ensures
            forall|t: T, u: U| #[trigger] res.accepts(t, u) == self.accepts(t, u),
            forall|m: &mut T, n: &mut U, r: R| #[trigger] res.produces(m, n, r) == self.produces(m, n, r),
            res.spec_name() is None,
    {
        let res = BoxBiMutatingFunctionOnce::from_call_once(self, None);
        assert forall|m: &mut T, n: &mut U, r: R| #[trigger] res.produces(m, n, r) implies exists|m2: &mut T, n2: &mut U|
            mut_ref_current(m2) == mut_ref_current(m) && mut_ref_future(m2) == mut_ref_future(m)
                && mut_ref_current(n2) == mut_ref_current(n) && mut_ref_future(n2) == mut_ref_future(n)
                && self.produces(m2, n2, r) by {
            assert(self.produces(m, n, r));
        }
        res
    }
}

/// A single-use bi-mutating function in a box.
#[verifier::reject_recursive_types(T)]
#[verifier::reject_recursive_types(U)]
#[verifier::reject_recursive_types(R)]
pub struct BoxBiMutatingFunctionOnce<T, U, R> {
    function: Box<dyn MutCallOnce2<T, U, R>>,
    name: Option<String>,
}

impl<T, U, R> BoxBiMutatingFunctionOnce<T, U, R> {
    pub closed spec fn accepts(&self, t: T, u: U) -> bool {
        self.function.pre(t, u)
    }

    pub closed spec fn produces(&self, m: &mut T, n: &mut U, r: R) -> bool {
        self.function.post(m, n, r)
    }

    pub closed spec fn spec_name(&self) -> Option<Seq<char>> {
        name_view(self.name)
    }

    pub(crate) fn from_call_once<C: MutCallOnce2<T, U, R> + 'static>(c: C, name: Option<String>) -> (res: Self)
        ensures
            forall|t: T, u: U| #[trigger] res.accepts(t, u) == c.pre(t, u),
            forall|m: &mut T, n: &mut U, r: R| #[trigger] res.produces(m, n, r) == c.post(m, n, r),
            res.spec_name() == name_view(name),
    {
        let function: Box<dyn MutCallOnce2<T, U, R>> = Box::new(c);
        assert(forall|t: T, u: U| #[trigger] function.pre(t, u) == c.pre(t, u));
        assert(forall|m: &mut T, n: &mut U, r: R| #[trigger] function.post(m, n, r) == c.post(m, n, r));
        BoxBiMutatingFunctionOnce { function, name }
    }

    /// Wraps the closure `f`.
    pub fn new<F>(f: F) -> (res: Self)
        where
            F: FnOnce(&mut T, &mut U) -> R + 'static,
        ensures
            forall|t: T, u: U| #[trigger]
                res.accepts(t, u) == (forall|m: &mut T, n: &mut U|
                    mut_ref_current(m) == t && mut_ref_current(n) == u ==> #[trigger] call_requires(f, (m, n))),
            forall|m: &mut T, n: &mut U, r: R| #[trigger] res.produces(m, n, r) == call_ensures(f, (m, n), r),
            res.spec_name() is None,
    {
        Self::from_call_once(f, None)
    }

    /// Wraps the closure `f` under the name `name`.
    pub fn new_with_name<F>(name: &str, f: F) -> (res: Self)
        where
            F: FnOnce(&mut T, &mut U) -> R + 'static,
        ensures
            forall|t: T, u: U| #[trigger]
                res.accepts(t, u) == (forall|m: &mut T, n: &mut U|
                    mut_ref_current(m) == t && mut_ref_current(n) == u ==> #[trigger] call_requires(f, (m, n))),
            forall|m: &mut T, n: &mut U, r: R| #[trigger] res.produces(m, n, r) == call_ensures(f, (m, n), r),
            res.spec_name() == Some(name@),
    {
        Self::from_call_once(f, owned_name(name))
    }

    /// Wraps the closure `f` under the name `name`, if there is one.
    pub fn new_with_optional_name<F>(f: F, name: Option<String>) -> (res: Self)
        where
            F: FnOnce(&mut T, &mut U) -> R + 'static,
        ensures
            forall|t: T, u: U| #[trigger]
                res.accepts(t, u) == (forall|m: &mut T, n: &mut U|
                    mut_ref_current(m) == t && mut_ref_current(n) == u ==> #[trigger] call_requires(f, (m, n))),
            forall|m: &mut T, n: &mut U, r: R| #[trigger] res.produces(m, n, r) == call_ensures(f, (m, n), r),
            res.spec_name() == name_view(name),
    {
        Self::from_call_once(f, name)
    }

    /// The name of this function, if it has one.
    pub fn name(&self) -> (res: Option<&str>)
        ensures
            match res {
                Some(s) => self.spec_name() == Some(s@),
                None => self.spec_name() is None,
            },
    {
        name_str(&self.name)
    }

    /// Gives this function the name `name`; its behaviour stays the same.
    pub fn set_name(&mut self, name: &str)
        ensures
            final(self).spec_name() == Some(name@),
            forall|t: T, u: U| #[trigger] final(self).accepts(t, u) == old(self).accepts(t, u),
            forall|m: &mut T, n: &mut U, r: R| #[trigger] final(self).produces(m, n, r) == old(self).produces(m, n, r),
    {
        self.name = owned_name(name);
    }

    /// Restricts this function to the values on which `predicate` holds;
    /// [`BoxConditionalBiMutatingFunctionOnce::or_else`] then supplies the
    /// other branch.
    pub fn when<P>(self, predicate: P) -> (res: BoxConditionalBiMutatingFunctionOnce<T, U, R>)
        where
            P: BiPredicate<T, U> + 'static,
            T: 'static,
            U: 'static,
        ensures
            res.function() == self,
            forall|t: T, u: U| predicate.accepts(t, u) ==> #[trigger] res.predicate().accepts(t, u),
            forall|t: T, u: U, b: bool| #[trigger] res.predicate().produces(t, u, b) ==> predicate.produces(t, u, b),
    {
        BoxConditionalBiMutatingFunctionOnce { function: self, predicate: predicate.into_box() }
    }

    /// This function followed by `after` on its result.
    pub fn and_then<S, F>(self, after: F) -> (res: BoxBiMutatingFunctionOnce<T, U, S>)
        where
            T: 'static,
            U: 'static,
            R: 'static,
            S: 'static,
            F: Function<R, S> + 'static,
        ensures
            forall|t: T, u: U| #[trigger] res.accepts(t, u) == then_accepts(self, after, t, u),
            forall|m: &mut T, n: &mut U, s: S| #[trigger] res.produces(m, n, s) == then_produces(self, after, m, n, s),
            res.spec_name() is None,
    {
        BoxBiMutatingFunctionOnce::from_call_once(ThenOnce { first: self, after }, None)
    }

    /// This function as a plain closure.
    pub fn into_fn(self) -> (res: impl FnOnce(&mut T, &mut U) -> R)
        ensures
            forall|t: T, u: U| self.accepts(t, u) ==> res.accepts(t, u),
            forall|m: &mut T, n: &mut U, r: R| #[trigger]
                call_ensures(res, (m, n), r) ==> exists|m2: &mut T, n2: &mut U|
                    mut_ref_current(m2) == mut_ref_current(m) && mut_ref_future(m2) == mut_ref_future(m)
                        && mut_ref_current(n2) == mut_ref_current(n) && mut_ref_future(n2) == mut_ref_future(n)
                        && self.produces(m2, n2, r),
    {
        move |t: &mut T, u: &mut U| -> (r: R)
            requires
                self.accepts(*old(t), *old(u)),
            ensures
                exists|m: &mut T, n: &mut U|
                    mut_ref_current(m) == *old(t) && mut_ref_future(m) == *final(t) && mut_ref_current(n)
                        == *old(u) && mut_ref_future(n) == *final(u) && #[trigger] self.produces(m, n, r),
        {
            let r = self.function.call_once(t, u);
            proof {
                assert(exists|m: &mut T, n: &mut U|
                    mut_ref_current(m) == *old(t) && mut_ref_future(m) == *t && mut_ref_current(n) == *old(u)
                        && mut_ref_future(n) == *u && #[trigger] self.function.post(m, n, r));
                let (m, n) = choose|m: &mut T, n: &mut U|
                    mut_ref_current(m) == *old(t) && mut_ref_future(m) == *t && mut_ref_current(n) == *old(u)
                        && mut_ref_future(n) == *u && #[trigger] self.function.post(m, n, r);
                assert(self.produces(m, n, r));
                assert(*t == *final(t) && *u == *final(u));
            }
            r
        }
    }
}

impl<T: 'static, U: 'static, R: Clone + 'static> BoxBiMutatingFunctionOnce<T, U, R> {
    /// A function that leaves both values as they are and returns a clone
    /// of `value`.
    pub fn constant(value: R) -> (res: BoxBiMutatingFunctionOnce<T, U, R>)
        ensures
            forall|t: T, u: U| #[trigger] res.accepts(t, u),
            forall|m: &mut T, n: &mut U, r: R| #[trigger]
                res.produces(m, n, r) ==> cloned::<R>(value, r) && mut_ref_future(m) == mut_ref_current(m)
                    && mut_ref_future(n) == mut_ref_current(n),
            res.spec_name() is None,
    {
        let f = move |t: &mut T, u: &mut U| -> (r: R)
            ensures
                cloned::<R>(value, r),
                *final(t) == *old(t),
                *final(u) == *old(u),
        {
            value.clone()
        };
        BoxBiMutatingFunctionOnce::new(f)
    }
}

impl<T, U, R> MutCallOnce2<T, U, R> for BoxBiMutatingFunctionOnce<T, U, R> {
    closed spec fn pre(&self, t: T, u: U) -> bool {
        self.accepts(t, u)
    }

    closed spec fn post(&self, m: &mut T, n: &mut U, r: R) -> bool {
        self.produces(m, n, r)
    }

    fn call_once(self: Box<Self>, t: &mut T, u: &mut U) -> (r: R) {
        let s = *self;
        let ghost s0 = s;
        let r = s.apply(t, u);
        proof {
            assert(exists|m: &mut T, n: &mut U|
                mut_ref_current(m) == *old(t) && mut_ref_future(m) == *t && mut_ref_current(n) == *old(u)
                    && mut_ref_future(n) == *u && #[trigger] BiMutatingFunctionOnce::<T, U, R>::produces(&s0, m, n, r));
            let (m, n) = choose|m: &mut T, n: &mut U|
                mut_ref_current(m) == *old(t) && mut_ref_future(m) == *t && mut_ref_current(n) == *old(u)
                    && mut_ref_future(n) == *u && #[trigger] BiMutatingFunctionOnce::<T, U, R>::produces(&s0, m, n, r);
            assert(MutCallOnce2::<T, U, R>::post(&*self, m, n, r));
            assert(*t == *final(t) && *u == *final(u));
        }
        r
    }
}

impl<T, U, R> BiMutatingFunctionOnce<T, U, R> for BoxBiMutatingFunctionOnce<T, U, R> {
    open spec fn accepts(&self, t: T, u: U) -> bool {
        BoxBiMutatingFunctionOnce::accepts(self, t, u)
    }

    open spec fn produces(&self, m: &mut T, n: &mut U, r: R) -> bool {
        BoxBiMutatingFunctionOnce::produces(self, m, n, r)
    }

    fn apply(self, first: &mut T, second: &mut U) -> (r: R) {
        let r = self.function.call_once(first, second);
        proof {
            assert(exists|m: &mut T, n: &mut U|
                mut_ref_current(m) == *old(first) && mut_ref_future(m) == *first && mut_ref_current(n)
                    == *old(second) && mut_ref_future(n) == *second && #[trigger] self.function.post(m, n, r));
            let (m, n) = choose|m: &mut T, n: &mut U|
                mut_ref_current(m) == *old(first) && mut_ref_future(m) == *first && mut_ref_current(n)
                    == *old(second) && mut_ref_future(n) == *second && #[trigger] self.function.post(m, n, r);
            assert(BiMutatingFunctionOnce::<T, U, R>::produces(&self, m, n, r));
            assert(*first == *final(first) && *second == *final(second));
        }
        r
    }

    fn into_box(self) -> (res: BoxBiMutatingFunctionOnce<T, U, R>)
        where
            Self: Sized + 'static,
            T: 'static,
            U: 'static,
            R: 'static,
        ensures
            res == self,
    {
        assert forall|m: &mut T, n: &mut U, r: R| #[trigger] BoxBiMutatingFunctionOnce::produces(&self, m, n, r)
            implies exists|m2: &mut T, n2: &mut U|
            mut_ref_current(m2) == mut_ref_current(m) && mut_ref_future(m2) == mut_ref_future(m)
                && mut_ref_current(n2) == mut_ref_current(n) && mut_ref_future(n2) == mut_ref_future(n)
                && BiMutatingFunctionOnce::<T, U, R>::produces(&self, m2, n2, r) by {
            assert(BiMutatingFunctionOnce::<T, U, R>::produces(&self, m, n, r));
        }
        self
    }
}

/// Composition and guarding for plain single-use closures.
pub trait FnBiMutatingFunctionOnceOps<T, U, R>: FnOnce(&mut T, &mut U) -> R + Sized {
    /// This closure followed by `after` on its result.
    fn and_then<S, F>(self, after: F) -> (res: BoxBiMutatingFunctionOnce<T, U, S>)
        where
            Self: 'static,
            S: 'static,
            F: Function<R, S> + 'static,
            T: 'static,
            U: 'static,
            R: 'static,
        ensures
            forall|t: T, u: U| #[trigger] res.accepts(t, u) == then_accepts(self, after, t, u),
            forall|m: &mut T, n: &mut U, s: S| #[trigger] res.produces(m, n, s) == then_produces(self, after, m, n, s),
    {
        let first = BoxBiMutatingFunctionOnce::new(self);
        let res = first.and_then(after);
        assert forall|t: T, u: U| #[trigger] res.accepts(t, u) == then_accepts(self, after, t, u) by {
            assert(forall|m: &mut T, n: &mut U, r: R|
                #![trigger BiMutatingFunctionOnce::produces(&first, m, n, r)]
                #![trigger BiMutatingFunctionOnce::produces(&self, m, n, r)]
                BiMutatingFunctionOnce::produces(&first, m, n, r) == BiMutatingFunctionOnce::produces(&self, m, n, r));
        }
        assert forall|m: &mut T, n: &mut U, s: S| #[trigger] res.produces(m, n, s) == then_produces(self, after, m, n, s) by {
            assert(forall|r: R|
                #![trigger BiMutatingFunctionOnce::produces(&first, m, n, r)]
                #![trigger BiMutatingFunctionOnce::produces(&self, m, n, r)]
                BiMutatingFunctionOnce::produces(&first, m, n, r) == BiMutatingFunctionOnce::produces(&self, m, n, r));
        }
        res
    }

    /// This closure restricted to the values on which `predicate` holds.
    fn when<P>(self, predicate: P) -> (res: BoxConditionalBiMutatingFunctionOnce<T, U, R>)
        where
            Self: 'static,
            P: BiPredicate<T, U> + 'static,
            T: 'static,
            U: 'static,
            R: 'static,
        ensures
            forall|t: T, u: U| #[trigger] res.function().accepts(t, u) == self.accepts(t, u),
            forall|m: &mut T, n: &mut U, r: R| #[trigger] res.function().produces(m, n, r) == call_ensures(self, (m, n), r),
            forall|t: T, u: U| predicate.accepts(t, u) ==> #[trigger] res.predicate().accepts(t, u),
            forall|t: T, u: U, b: bool| #[trigger] res.predicate().produces(t, u, b) ==> predicate.produces(t, u, b),
    {
        BoxBiMutatingFunctionOnce::new(self).when(predicate)
    }
}

impl<T, U, R, F: FnOnce(&mut T, &mut U) -> R> FnBiMutatingFunctionOnceOps<T, U, R> for F {

}

/// A [`BoxBiMutatingFunctionOnce`] restricted by a predicate on the values
/// it is given, waiting for the branch that
/// [`BoxConditionalBiMutatingFunctionOnce::or_else`] supplies.
#[verifier::reject_recursive_types(T)]
#[verifier::reject_recursive_types(U)]
#[verifier::reject_recursive_types(R)]
pub struct BoxConditionalBiMutatingFunctionOnce<T, U, R> {
    function: BoxBiMutatingFunctionOnce<T, U, R>,
    predicate: BoxBiPredicate<T, U>,
}

impl<T: 'static, U: 'static, R: 'static> BoxConditionalBiMutatingFunctionOnce<T, U, R> {
    pub closed spec fn function(&self) -> BoxBiMutatingFunctionOnce<T, U, R> {
        self.function
    }

    pub closed spec fn predicate(&self) -> BoxBiPredicate<T, U> {
        self.predicate
    }

    /// The function that applies the guarded function where the predicate
    /// holds of the values before the call, and `else_function` elsewhere.
    pub fn or_else<F>(self, else_function: F) -> (res: BoxBiMutatingFunctionOnce<T, U, R>)
        where
            F: BiMutatingFunctionOnce<T, U, R> + 'static,
        ensures
            forall|t: T, u: U| #[trigger] res.accepts(t, u) == choice_accepts(self.predicate(), self.function(), else_function, t, u),
            forall|m: &mut T, n: &mut U, r: R| #[trigger] res.produces(m, n, r) == choice_produces(self.predicate(), self.function(), else_function, m, n, r),
            res.spec_name() is None,
    {
        BoxBiMutatingFunctionOnce::from_call_once(
            ChooseOnce { predicate: self.predicate, on_true: self.function, on_false: else_function },
            None,
        )
    }
}

/// Following a single-use two-argument mutating function by two functions on its
/// result is associative: `bf` followed by `g`, and `b` followed by `fg`,
/// accept the same pairs and may change them in the same ways and give the
/// same results, where `bf` behaves as `b` followed by `f` and `fg` as `f`
/// followed by `g` (as the results of `and_then` do).
pub proof fn law_then_associative<T, U, M, N, R, B, F, G, BF, FG>(b: B, f: F, g: G, bf: BF, fg: FG, t: T, u: U)
    where
        B: BiMutatingFunctionOnce<T, U, M>,
        F: Function<M, N>,
        G: Function<N, R>,
        BF: BiMutatingFunctionOnce<T, U, N>,
        FG: Function<M, R>,
    requires
        forall|x: T, y: U| #[trigger] bf.accepts(x, y) == then_accepts(b, f, x, y),
        forall|m: &mut T, n: &mut U, k: N| #[trigger] bf.produces(m, n, k) == then_produces(b, f, m, n, k),
        forall|k: M| #[trigger] fg.accepts(k) == crate::functions::function::then_accepts(f, g, k),
        forall|k: M, r: R| #[trigger] fg.produces(k, r) == crate::functions::function::then_produces(f, g, k, r),
    ensures
        then_accepts(bf, g, t, u) == then_accepts(b, fg, t, u),
        forall|m: &mut T, n: &mut U, r: R| #[trigger]
            then_produces(bf, g, m, n, r) == then_produces(b, fg, m, n, r),
{
    if then_accepts(bf, g, t, u) {
        assert forall|m: &mut T, n: &mut U, k: M|
            mut_ref_current(m) == t && mut_ref_current(n) == u && #[trigger] b.produces(m, n, k) implies fg.accepts(
            k,
        ) by {
            assert(bf.accepts(t, u));
            assert forall|j: N| #[trigger] f.produces(k, j) implies g.accepts(j) by {
                assert(bf.produces(m, n, j));
            }
        }
    }
    if then_accepts(b, fg, t, u) {
        assert forall|m: &mut T, n: &mut U, j: N|
            mut_ref_current(m) == t && mut_ref_current(n) == u && #[trigger] bf.produces(m, n, j) implies g.accepts(
            j,
        ) by {
            let k = choose|k: M| #[trigger] b.produces(m, n, k) && f.produces(k, j);
            assert(fg.accepts(k));
        }
        assert forall|m: &mut T, n: &mut U, k: M|
            mut_ref_current(m) == t && mut_ref_current(n) == u && #[trigger] b.produces(m, n, k) implies f.accepts(
            k,
        ) by {
            assert(fg.accepts(k));
        }
        assert(bf.accepts(t, u));
    }
    assert forall|m: &mut T, n: &mut U, r: R| #[trigger]
        then_produces(bf, g, m, n, r) == then_produces(b, fg, m, n, r) by {
        if then_produces(bf, g, m, n, r) {
            let j = choose|j: N| #[trigger] bf.produces(m, n, j) && g.produces(j, r);
            let k = choose|k: M| #[trigger] b.produces(m, n, k) && f.produces(k, j);
            assert(fg.produces(k, r));
        }
        if then_produces(b, fg, m, n, r) {
            let k = choose|k: M| #[trigger] b.produces(m, n, k) && fg.produces(k, r);
            let j = choose|j: N| #[trigger] f.produces(k, j) && g.produces(j, r);
            assert(bf.produces(m, n, j));
        }
    }
}

/// `first` followed by `after`: defined at `t`, `u` when `first` is, and
/// `after` is defined at each result that `first` may give for them.
pub open spec fn then_accepts<T, U, M, S, G: BiMutatingFunctionOnce<T, U, M>, F: Function<M, S>>(
    first: G,
    after: F,
    t: T,
    u: U,
) -> bool {
    &&& first.accepts(t, u)
    &&& forall|m: &mut T, n: &mut U, r: M|
        mut_ref_current(m) == t && mut_ref_current(n) == u && #[trigger] first.produces(m, n, r) ==> after.accepts(r)
}

/// `first` followed by `after`: the call may take `m` and `n` as `first` does
/// and give `s` when some result of `first` leads `after` to `s`.
pub open spec fn then_produces<T, U, M, S, G: BiMutatingFunctionOnce<T, U, M>, F: Function<M, S>>(
    first: G,
    after: F,
    m: &mut T,
    n: &mut U,
    s: S,
) -> bool {
    exists|r: M| #[trigger] first.produces(m, n, r) && after.produces(r, s)
}

/// A choice between two functions by a predicate on the values before the
/// call: defined when the predicate is, and the branch that each possible
/// answer selects is.
pub open spec fn choice_accepts<
    T,
    U,
    R,
    P: BiPredicate<T, U>,
    G: BiMutatingFunctionOnce<T, U, R>,
    E: BiMutatingFunctionOnce<T, U, R>,
>(p: P, g: G, e: E, t: T, u: U) -> bool {
    &&& p.accepts(t, u)
    &&& forall|b: bool| #[trigger] p.produces(t, u, b) ==> if b {
        g.accepts(t, u)
    } else {
        e.accepts(t, u)
    }
}

/// A choice between two functions by a predicate on the values before the
/// call: some answer of the predicate selects a branch that may behave so.
pub open spec fn choice_produces<
    T,
    U,
    R,
    P: BiPredicate<T, U>,
    G: BiMutatingFunctionOnce<T, U, R>,
    E: BiMutatingFunctionOnce<T, U, R>,
>(p: P, g: G, e: E, m: &mut T, n: &mut U, r: R) -> bool {
    exists|b: bool| #[trigger] p.produces(mut_ref_current(m), mut_ref_current(n), b) && if b {
        g.produces(m, n, r)
    } else {
        e.produces(m, n, r)
    }
}

/// Calls `first`, then `after` on its result; each at most once.
struct ThenOnce<G, F> {
    first: G,
    after: F,
}

impl<T, U, M, S, F: Function<M, S>> MutCallOnce2<T, U, S> for ThenOnce<BoxBiMutatingFunctionOnce<T, U, M>, F> {
    closed spec fn pre(&self, t: T, u: U) -> bool {
        then_accepts(self.first, self.after, t, u)
    }

    closed spec fn post(&self, m: &mut T, n: &mut U, s: S) -> bool {
        then_produces(self.first, self.after, m, n, s)
    }

    fn call_once(self: Box<Self>, t: &mut T, u: &mut U) -> (s: S) {
        let ThenOnce { first, after } = *self;
        let ghost first0 = first;
        let r = first.apply(t, u);
        assert(exists|m: &mut T, n: &mut U|
            mut_ref_current(m) == *old(t) && mut_ref_future(m) == *t && mut_ref_current(n) == *old(u)
                && mut_ref_future(n) == *u && #[trigger] first0.produces(m, n, r));
        let ghost (m, n) = choose|m: &mut T, n: &mut U|
            mut_ref_current(m) == *old(t) && mut_ref_future(m) == *t && mut_ref_current(n) == *old(u)
                && mut_ref_future(n) == *u && #[trigger] first0.produces(m, n, r);
        let s = after.apply(&r);
        proof {
            assert(BiMutatingFunctionOnce::<T, U, M>::produces(&first0, m, n, r));
            assert(after.produces(r, s));
            assert(then_produces(self.first, self.after, m, n, s));
            assert(MutCallOnce2::<T, U, S>::post(&*self, m, n, s));
            assert(*t == *final(t) && *u == *final(u));
        }
        s
    }
}

/// Applies `on_true` or `on_false`, as `predicate` selects; each at most
/// once.
struct ChooseOnce<P, G, E> {
    predicate: P,
    on_true: G,
    on_false: E,
}

impl<
    T,
    U,
    R,
    P: BiPredicate<T, U>,
    G: BiMutatingFunctionOnce<T, U, R>,
    E: BiMutatingFunctionOnce<T, U, R>,
> MutCallOnce2<T, U, R> for ChooseOnce<P, G, E> {
    closed spec fn pre(&self, t: T, u: U) -> bool {
        choice_accepts(self.predicate, self.on_true, self.on_false, t, u)
    }

    closed spec fn post(&self, m: &mut T, n: &mut U, r: R) -> bool {
        choice_produces(self.predicate, self.on_true, self.on_false, m, n, r)
    }

    fn call_once(self: Box<Self>, t: &mut T, u: &mut U) -> (r: R) {
        let ChooseOnce { predicate, on_true, on_false } = *self;
        let b = predicate.test(&*t, &*u);
        if b {
            let ghost g = on_true;
            let r = on_true.apply(t, u);
            proof {
                assert(exists|m: &mut T, n: &mut U|
                    mut_ref_current(m) == *old(t) && mut_ref_future(m) == *t && mut_ref_current(n) == *old(u)
                        && mut_ref_future(n) == *u && #[trigger] g.produces(m, n, r));
                let (m, n) = choose|m: &mut T, n: &mut U|
                    mut_ref_current(m) == *old(t) && mut_ref_future(m) == *t && mut_ref_current(n) == *old(u)
                        && mut_ref_future(n) == *u && #[trigger] g.produces(m, n, r);
                assert(choice_produces(predicate, g, on_false, m, n, r));
                assert(MutCallOnce2::<T, U, R>::post(&*self, m, n, r));
                assert(*t == *final(t) && *u == *final(u));
            }
            r
        } else {
            let ghost e = on_false;
            let r = on_false.apply(t, u);
            proof {
                assert(exists|m: &mut T, n: &mut U|
                    mut_ref_current(m) == *old(t) && mut_ref_future(m) == *t && mut_ref_current(n) == *old(u)
                        && mut_ref_future(n) == *u && #[trigger] e.produces(m, n, r));
                let (m, n) = choose|m: &mut T, n: &mut U|
                    mut_ref_current(m) == *old(t) && mut_ref_future(m) == *t && mut_ref_current(n) == *old(u)
                        && mut_ref_future(n) == *u && #[trigger] e.produces(m, n, r);
                assert(choice_produces(predicate, on_true, e, m, n, r));
                assert(MutCallOnce2::<T, U, R>::post(&*self, m, n, r));
                assert(*t == *final(t) && *u == *final(u));
            }
            r
        }
    }
}

} // verus!
