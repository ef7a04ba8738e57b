//! Functions called at most once that take two arguments by mutable
//! reference, may change them, and compute a result
//! (`FnOnce(&mut T) -> R`).
//!
//! `produces(m, r)` relates references `m` and `n` to a result `r`: a
//! reference stands for the value it held when the call started
//! (`mut_ref_current`) and the value it holds when the call returns
//! (`mut_ref_future`).
use vstd::prelude::*;

use crate::mutating_call::MutCallOnce1;
use crate::names::{name_str, name_view, owned_name};
use crate::predicates::{Predicate, BoxPredicate};

verus! {

/// A single-use function that may change the value it is given and computes
/// a result.
///
/// `accepts(t)` is what must hold of the value before `apply`;
/// `produces(m, r)` says that the call may take `m` from its value before to
/// its value after and give `r`.
pub trait MutatingFunctionOnce<T, R> {
    spec fn accepts(&self, t: T) -> bool;

    spec fn produces(&self, m: &mut T, r: R) -> bool;

    fn apply(self, t: &mut T) -> (r: R)
        where
            Self: Sized,
        requires
            self.accepts(*old(t)),
        ensures
            exists|m: &mut T|
                mut_ref_current(m) == *old(t) && mut_ref_future(m) == *final(t) && #[trigger] self.produces(m, r),
    ;

    /// Moves this function into a [`BoxMutatingFunctionOnce`] that calls
    /// it.
    fn into_box(self) -> (res: BoxMutatingFunctionOnce<T, R>)
        where
            Self: Sized + 'static,
            T: 'static,
            R: 'static,
        ensures
            forall|t: T| self.accepts(t) ==> #[trigger] res.accepts(t),
            forall|m: &mut T, r: R| #[trigger]
                res.produces(m, r) ==> exists|m2: &mut T|
                    #![trigger self.produces(m2, r)]
                    mut_ref_current(m2) == mut_ref_current(m) && mut_ref_future(m2) == mut_ref_future(m)
                        && self.produces(m2, r),
    {
        let f = move |t: &mut T| -> (r: R)
            requires
                self.accepts(*old(t)),
            ensures
                exists|m: &mut T|
                    mut_ref_current(m) == *old(t) && mut_ref_future(m) == *final(t) && #[trigger] self.produces(m, r),
        {
            let r = self.apply(t);
            proof {
                assert(exists|m: &mut T|
                    mut_ref_current(m) == *old(t) && mut_ref_future(m) == *t && #[trigger] self.produces(m, r));
                let m = choose|m: &mut T|
                    mut_ref_current(m) == *old(t) && mut_ref_future(m) == *t && #[trigger] self.produces(m, r);
                assert(*t == *final(t));
            }
            r
        };
        BoxMutatingFunctionOnce::new(f)
    }

    /// A [`BoxMutatingFunctionOnce`] that calls a clone of this function.
    fn to_box(&self) -> (res: BoxMutatingFunctionOnce<T, R>)
        where
            Self: Clone + 'static,
            T: 'static,
            R: 'static,
        ensures
            exists|c: Self|
                cloned::<Self>(*self, c) && (forall|t: T| c.accepts(t) ==> #[trigger] res.accepts(t)) && (forall|
                    m: &mut T,
                    r: R,
                | #[trigger]
                    res.produces(m, r) ==> exists|m2: &mut T|
                        #![trigger c.produces(m2, r)]
                        mut_ref_current(m2) == mut_ref_current(m) && mut_ref_future(m2) == mut_ref_future(m)
                            && c.produces(m2, r)),
    {
        let c = self.clone();
        let res = c.into_box();
        assert(cloned::<Self>(*self, c));
        res
    }
}

impl<T, R, F: FnOnce(&mut T) -> R> MutatingFunctionOnce<T, R> for F {
    open spec fn accepts(&self, t: T) -> bool {
        forall|m: &mut T|
            mut_ref_current(m) == t ==> #[trigger] call_requires(*self, (m,))
    }

    open spec fn produces(&self, m: &mut T, r: R) -> bool {
        call_ensures(*self, (m,), r)
    }

    fn apply(self, t: &mut T) -> (r: R) {
        let r = self(t);
        proof {
            assert(exists|m: &mut T|
                #[trigger] call_ensures(self, (m,), r) && mut_ref_current(m) == *old(t) && mut_ref_future(m) == *t);
            let m = choose|m: &mut T|
                #[trigger] call_ensures(self, (m,), r) && mut_ref_current(m) == *old(t) && mut_ref_future(m) == *t;
            assert(MutatingFunctionOnce::<T, R>::produces(&self, m, r));
            assert(*t == *final(t));
        }
        r
    }

    fn into_box(self) -> (res: BoxMutatingFunctionOnce<T, R>)
        where
            Self: Sized + 'static,
            T: 'static,
            R: 'static,
        ensures
            forall|t: T| #[trigger] res.accepts(t) == self.accepts(t),
            forall|m: &mut T, r: R| #[trigger] res.produces(m, r) == self.produces(m, r),
            res.spec_name() is None,
    {
        let res = BoxMutatingFunctionOnce::from_call_once(self, None);
        assert forall|m: &mut T, r: R| #[trigger] res.produces(m, r) implies exists|m2: &mut T|
            mut_ref_current(m2) == mut_ref_current(m) && mut_ref_future(m2) == mut_ref_future(m)
                && self.produces(m2, r) by {
            assert(self.produces(m, r));
        }
        res
    }
}

/// A single-use bi-mutating function in a box.
#[verifier::reject_recursive_types(T)]
#[verifier::reject_recursive_types(R)]
pub struct BoxMutatingFunctionOnce<T, R> {
    function: Box<dyn MutCallOnce1<T, R>>,
    name: Option<String>,
}

impl<T, R> BoxMutatingFunctionOnce<T, R> {
    pub closed spec fn accepts(&self, t: T) -> bool {
        self.function.pre(t)
    }

    pub closed spec fn produces(&self, m: &mut T, r: R) -> bool {
        self.function.post(m, r)
    }

    pub closed spec fn spec_name(&self) -> Option<Seq<char>> {
        name_view(self.name)
    }

    pub(crate) fn from_call_once<C: MutCallOnce1<T, R> + 'static>(c: C, name: Option<String>) -> (res: Self)
        ensures
            forall|t: T| #[trigger] res.accepts(t) == c.pre(t),
            forall|m: &mut T, r: R| #[trigger] res.produces(m, r) == c.post(m, r),
            res.spec_name() == name_view(name),
    {
        let function: Box<dyn MutCallOnce1<T, R>> = Box::new(c);
        assert(forall|t: T| #[trigger] function.pre(t) == c.pre(t));
        assert(forall|m: &mut T, r: R| #[trigger] function.post(m, r) == c.post(m, r));
        BoxMutatingFunctionOnce { function, name }
    }

    /// Wraps the closure `f`.
    pub fn new<F>(f: F) -> (res: Self)
        where
            F: FnOnce(&mut T) -> R + 'static,
        ensures
            forall|t: T| #[trigger]
                res.accepts(t) == (forall|m: &mut T|
                    mut_ref_current(m) == t ==> #[trigger] call_requires(f, (m,))),
            forall|m: &mut T, r: R| #[trigger] res.produces(m, r) == call_ensures(f, (m,), r),
            res.spec_name() is None,
    {
        Self::from_call_once(f, None)
    }

    /// Wraps the closure `f` under the name `name`.
    pub fn new_with_name<F>(name: &str, f: F) -> (res: Self)
        where
            F: FnOnce(&mut T) -> R + 'static,
        ensures
            forall|t: T| #[trigger]
                res.accepts(t) == (forall|m: &mut T|
                    mut_ref_current(m) == t ==> #[trigger] call_requires(f, (m,))),
            forall|m: &mut T, r: R| #[trigger] res.produces(m, r) == call_ensures(f, (m,), r),
            res.spec_name() == Some(name@),
    {
        Self::from_call_once(f, owned_name(name))
    }

    /// Wraps the closure `f` under the name `name`, if there is one.
    pub fn new_with_optional_name<F>(f: F, name: Option<String>) -> (res: Self)
        where
            F: FnOnce(&mut T) -> R + 'static,
        ensures
            forall|t: T| #[trigger]
                res.accepts(t) == (forall|m: &mut T|
                    mut_ref_current(m) == t ==> #[trigger] call_requires(f, (m,))),
            forall|m: &mut T, r: R| #[trigger] res.produces(m, r) == call_ensures(f, (m,), r),
            res.spec_name() == name_view(name),
    {
        Self::from_call_once(f, name)
    }

    /// The name of this function, if it has one.
    pub fn name(&self) -> (res: Option<&str>)
        ensures
            match res {
                Some(s) => self.spec_name() == Some(s@),
                None => self.spec_name() is None,
            },
    {
        name_str(&self.name)
    }

    /// Gives this function the name `name`; its behaviour stays the same.
    pub fn set_name(&mut self, name: &str)
        ensures
            final(self).spec_name() == Some(name@),
            forall|t: T| #[trigger] final(self).accepts(t) == old(self).accepts(t),
            forall|m: &mut T, r: R| #[trigger] final(self).produces(m, r) == old(self).produces(m, r),
    {
        self.name = owned_name(name);
    }

    /// Restricts this function to the values on which `predicate` holds;
    /// [`BoxConditionalMutatingFunctionOnce::or_else`] then supplies the
    /// other branch.
    pub fn when<P>(self, predicate: P) -> (res: BoxConditionalMutatingFunctionOnce<T, R>)
        where
            P: Predicate<T> + 'static,
            T: 'static,
        ensures
            res.function() == self,
            forall|t: T| predicate.accepts(t) ==> #[trigger] res.predicate().accepts(t),
            forall|t: T, b: bool| #[trigger] res.predicate().produces(t, b) ==> predicate.produces(t, b),
    {
        BoxConditionalMutatingFunctionOnce { function: self, predicate: predicate.into_box() }
    }

    /// This function, then `next` on the same value; the result is the one
    /// that `next` gives.
    pub fn and_then<R2, F>(self, next: F) -> (res: BoxMutatingFunctionOnce<T, R2>)
        where
            T: 'static,
            R: 'static,
            R2: 'static,
            F: MutatingFunctionOnce<T, R2> + 'static,
        ensures
            forall|t: T|
                self.accepts(t) && (forall|m: &mut T, r1: R|
                    mut_ref_current(m) == t && #[trigger] self.produces(m, r1) ==> next.accepts(mut_ref_future(m)))
                    ==> #[trigger] res.accepts(t),
            forall|m: &mut T, r2: R2| #[trigger]
                res.produces(m, r2) ==> exists|m1: &mut T, m2: &mut T, r1: R|
                    #![trigger self.produces(m1, r1), next.produces(m2, r2)]
                    mut_ref_current(m1) == mut_ref_current(m) && mut_ref_future(m1) == mut_ref_current(m2)
                        && mut_ref_future(m2) == mut_ref_future(m) && self.produces(m1, r1) && next.produces(m2, r2),
            res.spec_name() is None,
    {
        let f = move |t: &mut T| -> (r2: R2)
            requires
                self.accepts(*old(t)),
                forall|m: &mut T, r1: R|
                    mut_ref_current(m) == *old(t) && #[trigger] self.produces(m, r1) ==> next.accepts(mut_ref_future(m)),
            ensures
                exists|m1: &mut T, m2: &mut T, r1: R|
                    #![trigger self.produces(m1, r1), next.produces(m2, r2)]
                    mut_ref_current(m1) == *old(t) && mut_ref_future(m1) == mut_ref_current(m2) && mut_ref_future(m2)
                        == *final(t) && self.produces(m1, r1) && next.produces(m2, r2),
        {
            let ghost first = self;
            let r1 = self.apply(t);
            let ghost mid = *t;
            let ghost m1 = choose|m1: &mut T|
                mut_ref_current(m1) == *old(t) && mut_ref_future(m1) == mid && #[trigger] first.produces(m1, r1);
            proof {
                assert(exists|m1: &mut T|
                    mut_ref_current(m1) == *old(t) && mut_ref_future(m1) == mid && #[trigger] first.produces(m1, r1));
            }
            let r2 = next.apply(t);
            proof {
                assert(exists|m2: &mut T|
                    mut_ref_current(m2) == mid && mut_ref_future(m2) == *t && #[trigger] next.produces(m2, r2));
                let m2 = choose|m2: &mut T|
                    mut_ref_current(m2) == mid && mut_ref_future(m2) == *t && #[trigger] next.produces(m2, r2);
                assert(first.produces(m1, r1) && next.produces(m2, r2));
                assert(*t == *final(t));
            }
            r2
        };
        BoxMutatingFunctionOnce::new(f)
    }

    /// This function as a plain closure.
    pub fn into_fn(self) -> (res: impl FnOnce(&mut T) -> R)
        ensures
            forall|t: T| self.accepts(t) ==> res.accepts(t),
            forall|m: &mut T, r: R| #[trigger]
                call_ensures(res, (m,), r) ==> exists|m2: &mut T|
                    mut_ref_current(m2) == mut_ref_current(m) && mut_ref_future(m2) == mut_ref_future(m)
                        && self.produces(m2, r),
    {
        move |t: &mut T| -> (r: R)
            requires
                self.accepts(*old(t)),
            ensures
                exists|m: &mut T|
                    mut_ref_current(m) == *old(t) && mut_ref_future(m) == *final(t) && #[trigger] self.produces(m, r),
        {
            let r = self.function.call_once(t);
            proof {
                assert(exists|m: &mut T|
                    mut_ref_current(m) == *old(t) && mut_ref_future(m) == *t && #[trigger] self.function.post(m, r));
                let m = choose|m: &mut T|
                    mut_ref_current(m) == *old(t) && mut_ref_future(m) == *t && #[trigger] self.function.post(m, r);
                assert(self.produces(m, r));
                assert(*t == *final(t));
            }
            r
        }
    }
}

impl<T, R> MutCallOnce1<T, R> for BoxMutatingFunctionOnce<T, R> {
    closed spec fn pre(&self, t: T) -> bool {
        self.accepts(t)
    }

    closed spec fn post(&self, m: &mut T, r: R) -> bool {
        self.produces(m, r)
    }

    fn call_once(self: Box<Self>, t: &mut T) -> (r: R) {
        let s = *self;
        let ghost s0 = s;
        let r = s.apply(t);
        proof {
            assert(exists|m: &mut T|
                mut_ref_current(m) == *old(t) && mut_ref_future(m) == *t && #[trigger] MutatingFunctionOnce::<T, R>::produces(&s0, m, r));
            let m = choose|m: &mut T|
                mut_ref_current(m) == *old(t) && mut_ref_future(m) == *t && #[trigger] MutatingFunctionOnce::<T, R>::produces(&s0, m, r);
            assert(MutCallOnce1::<T, R>::post(&*self, m, r));
            assert(*t == *final(t));
        }
        r
    }
}

impl<T, R> MutatingFunctionOnce<T, R> for BoxMutatingFunctionOnce<T, R> {
    open spec fn accepts(&self, t: T) -> bool {
        BoxMutatingFunctionOnce::accepts(self, t)
    }

    open spec fn produces(&self, m: &mut T, r: R) -> bool {
        BoxMutatingFunctionOnce::produces(self, m, r)
    }

    fn apply(self, t: &mut T) -> (r: R) {
        assert(MutatingFunctionOnce::<T, R>::accepts(&self, *old(t)));
        assert(BoxMutatingFunctionOnce::accepts(&self, *old(t)));
        assert(*old(t) == *t);
        let r = self.function.call_once(t);
        proof {
            assert(exists|m: &mut T|
                mut_ref_current(m) == *old(t) && mut_ref_future(m) == *t && #[trigger] self.function.post(m, r));
            let m = choose|m: &mut T|
                mut_ref_current(m) == *old(t) && mut_ref_future(m) == *t && #[trigger] self.function.post(m, r);
            assert(MutatingFunctionOnce::<T, R>::produces(&self, m, r));
            assert(*t == *final(t));
        }
        r
    }

    fn into_box(self) -> (res: BoxMutatingFunctionOnce<T, R>)
        where
            Self: Sized + 'static,
            T: 'static,
            R: 'static,
        ensures
            res == self,
    {
        assert forall|m: &mut T, r: R| #[trigger] BoxMutatingFunctionOnce::produces(&self, m, r)
            implies exists|m2: &mut T|
            mut_ref_current(m2) == mut_ref_current(m) && mut_ref_future(m2) == mut_ref_future(m)
                && MutatingFunctionOnce::<T, R>::produces(&self, m2, r) by {
            assert(MutatingFunctionOnce::<T, R>::produces(&self, m, r));
        }
        self
    }
}

/// Composition and guarding for plain single-use closures.
pub trait FnOnceMutatingFunctionOps<T, R>: FnOnce(&mut T) -> R + Sized {
    /// This closure, then `next` on the same value; the result is the one
    /// that `next` gives.
    fn and_then<F, R2>(self, next: F) -> (res: BoxMutatingFunctionOnce<T, R2>)
        where
            Self: 'static,
            F: MutatingFunctionOnce<T, R2> + 'static,
            T: 'static,
            R: 'static,
            R2: 'static,
        ensures
            forall|t: T|
                self.accepts(t) && (forall|m: &mut T, r1: R|
                    mut_ref_current(m) == t && #[trigger] self.produces(m, r1) ==> next.accepts(mut_ref_future(m)))
                    ==> #[trigger] res.accepts(t),
            forall|m: &mut T, r2: R2| #[trigger]
                res.produces(m, r2) ==> exists|m1: &mut T, m2: &mut T, r1: R|
                    #![trigger call_ensures(self, (m1,), r1), next.produces(m2, r2)]
                    mut_ref_current(m1) == mut_ref_current(m) && mut_ref_future(m1) == mut_ref_current(m2)
                        && mut_ref_future(m2) == mut_ref_future(m) && call_ensures(self, (m1,), r1) && next.produces(m2, r2),
    {
        let first = BoxMutatingFunctionOnce::new(self);
        let res = first.and_then(next);
        proof {
            assert forall|t: T|
                self.accepts(t) && (forall|m: &mut T, r1: R|
                    mut_ref_current(m) == t && #[trigger] self.produces(m, r1) ==> next.accepts(mut_ref_future(m)))
                    implies #[trigger] res.accepts(t) by {
                assert forall|m: &mut T, r1: R|
                    mut_ref_current(m) == t && #[trigger] first.produces(m, r1) implies next.accepts(
                    mut_ref_future(m),
                ) by {
                    assert(self.produces(m, r1));
                }
            }
        }
        res
    }

    /// This closure, then `mapper` on its result.
    fn map<F, R2>(self, mapper: F) -> (res: BoxMutatingFunctionOnce<T, R2>)
        where
            Self: 'static,
            F: FnOnce(R) -> R2 + 'static,
            T: 'static,
            R: 'static,
            R2: 'static,
        ensures
            forall|t: T| #[trigger] res.accepts(t) == map_accepts(self, mapper, t),
            forall|m: &mut T, r2: R2| #[trigger] res.produces(m, r2) == map_produces(self, mapper, m, r2),
    {
        let first = BoxMutatingFunctionOnce::new(self);
        let res = BoxMutatingFunctionOnce::from_call_once(MapOnce { first, mapper }, None);
        assert forall|t: T| #[trigger] res.accepts(t) == map_accepts(self, mapper, t) by {
            assert(forall|m: &mut T, r: R|
                #![trigger MutatingFunctionOnce::produces(&first, m, r)]
                #![trigger MutatingFunctionOnce::produces(&self, m, r)]
                MutatingFunctionOnce::produces(&first, m, r) == MutatingFunctionOnce::produces(&self, m, r));
        }
        assert forall|m: &mut T, r2: R2| #[trigger] res.produces(m, r2) == map_produces(self, mapper, m, r2) by {
            assert(forall|r: R|
                #![trigger MutatingFunctionOnce::produces(&first, m, r)]
                #![trigger MutatingFunctionOnce::produces(&self, m, r)]
                MutatingFunctionOnce::produces(&first, m, r) == MutatingFunctionOnce::produces(&self, m, r));
        }
        res
    }

    /// This closure restricted to the values on which `predicate` holds.
    fn when<P>(self, predicate: P) -> (res: BoxConditionalMutatingFunctionOnce<T, R>)
        where
            Self: 'static,
            P: Predicate<T> + 'static,
            T: 'static,
            R: 'static,
        ensures
            forall|t: T| #[trigger] res.function().accepts(t) == self.accepts(t),
            forall|m: &mut T, r: R| #[trigger] res.function().produces(m, r) == call_ensures(self, (m,), r),
            forall|t: T| predicate.accepts(t) ==> #[trigger] res.predicate().accepts(t),
            forall|t: T, b: bool| #[trigger] res.predicate().produces(t, b) ==> predicate.produces(t, b),
    {
        BoxMutatingFunctionOnce::new(self).when(predicate)
    }
}

impl<T, R, F: FnOnce(&mut T) -> R> FnOnceMutatingFunctionOps<T, R> for F {

}

/// A [`BoxMutatingFunctionOnce`] restricted by a predicate on the values
/// it is given, waiting for the branch that
/// [`BoxConditionalMutatingFunctionOnce::or_else`] supplies.
#[verifier::reject_recursive_types(T)]
#[verifier::reject_recursive_types(R)]
pub struct BoxConditionalMutatingFunctionOnce<T, R> {
    function: BoxMutatingFunctionOnce<T, R>,
    predicate: BoxPredicate<T>,
}

impl<T: 'static, R: 'static> BoxConditionalMutatingFunctionOnce<T, R> {
    pub closed spec fn function(&self) -> BoxMutatingFunctionOnce<T, R> {
        self.function
    }

    pub closed spec fn predicate(&self) -> BoxPredicate<T> {
        self.predicate
    }

    /// The function that applies the guarded function where the predicate
    /// holds of the values before the call, and `else_function` elsewhere.
    pub fn or_else<F>(self, else_function: F) -> (res: BoxMutatingFunctionOnce<T, R>)
        where
            F: MutatingFunctionOnce<T, R> + 'static,
        ensures
            forall|t: T| #[trigger] res.accepts(t) == choice_accepts(self.predicate(), self.function(), else_function, t),
            forall|m: &mut T, r: R| #[trigger] res.produces(m, r) == choice_produces(self.predicate(), self.function(), else_function, m, r),
            res.spec_name() is None,
    {
        BoxMutatingFunctionOnce::from_call_once(
            ChooseOnce { predicate: self.predicate, on_true: self.function, on_false: else_function },
            None,
        )
    }
}

/// `first` followed by `mapper` on its result: defined at `t` when `first`
/// is, and `mapper` is defined at each result that `first` may give for it.
pub open spec fn map_accepts<T, M, S, G: MutatingFunctionOnce<T, M>, F: FnOnce(M) -> S>(first: G, mapper: F, t: T) -> bool {
    &&& first.accepts(t)
    &&& forall|m: &mut T, r: M| mut_ref_current(m) == t && #[trigger] first.produces(m, r) ==> call_requires(mapper, (r,))
}

/// `first` followed by `mapper` on its result: the call may take `m` as
/// `first` does and give `s` when some result of `first` leads `mapper` to
/// `s`.
pub open spec fn map_produces<T, M, S, G: MutatingFunctionOnce<T, M>, F: FnOnce(M) -> S>(
    first: G,
    mapper: F,
    m: &mut T,
    s: S,
) -> bool {
    exists|r: M| #[trigger] first.produces(m, r) && call_ensures(mapper, (r,), s)
}

/// A choice between two functions by a predicate on the values before the
/// call: defined when the predicate is, and the branch that each possible
/// answer selects is.
pub open spec fn choice_accepts<
    T,
    R,
    P: Predicate<T>,
    G: MutatingFunctionOnce<T, R>,
    E: MutatingFunctionOnce<T, R>,
>(p: P, g: G, e: E, t: T) -> bool {
    &&& p.accepts(t)
    &&& forall|b: bool| #[trigger] p.produces(t, b) ==> if b {
        g.accepts(t)
    } else {
        e.accepts(t)
    }
}

/// A choice between two functions by a predicate on the values before the
/// call: some answer of the predicate selects a branch that may behave so.
pub open spec fn choice_produces<
    T,
    R,
    P: Predicate<T>,
    G: MutatingFunctionOnce<T, R>,
    E: MutatingFunctionOnce<T, R>,
>(p: P, g: G, e: E, m: &mut T, r: R) -> bool {
    exists|b: bool| #[trigger] p.produces(mut_ref_current(m), b) && if b {
        g.produces(m, r)
    } else {
        e.produces(m, r)
    }
}

/// Calls `first`, then `mapper` on its result; each at most once.
struct MapOnce<G, F> {
    first: G,
    mapper: F,
}

impl<T, M, S, F: FnOnce(M) -> S> MutCallOnce1<T, S> for MapOnce<BoxMutatingFunctionOnce<T, M>, F> {
    closed spec fn pre(&self, t: T) -> bool {
        map_accepts(self.first, self.mapper, t)
    }

    closed spec fn post(&self, m: &mut T, s: S) -> bool {
        map_produces(self.first, self.mapper, m, s)
    }

    fn call_once(self: Box<Self>, t: &mut T) -> (s: S) {
        let MapOnce { first, mapper } = *self;
        let ghost first0 = first;
        let r = first.apply(t);
        proof {
            assert(exists|m: &mut T|
                mut_ref_current(m) == *old(t) && mut_ref_future(m) == *t && #[trigger] first0.produces(m, r));
        }
        let ghost m = choose|m: &mut T|
            mut_ref_current(m) == *old(t) && mut_ref_future(m) == *t && #[trigger] first0.produces(m, r);
        let s = mapper(r);
        proof {
            assert(MutatingFunctionOnce::<T, M>::produces(&first0, m, r));
            assert(map_produces(self.first, self.mapper, m, s));
            assert(MutCallOnce1::<T, S>::post(&*self, m, s));
            assert(*t == *final(t));
        }
        s
    }
}

/// Applies `on_true` or `on_false`, as `predicate` selects; each at most
/// once.
struct ChooseOnce<P, G, E> {
    predicate: P,
    on_true: G,
    on_false: E,
}

impl<
    T,
    R,
    P: Predicate<T>,
    G: MutatingFunctionOnce<T, R>,
    E: MutatingFunctionOnce<T, R>,
> MutCallOnce1<T, R> for ChooseOnce<P, G, E> {
    closed spec fn pre(&self, t: T) -> bool {
        choice_accepts(self.predicate, self.on_true, self.on_false, t)
    }

    closed spec fn post(&self, m: &mut T, r: R) -> bool {
        choice_produces(self.predicate, self.on_true, self.on_false, m, r)
    }

    fn call_once(self: Box<Self>, t: &mut T) -> (r: R) {
        let ChooseOnce { predicate, on_true, on_false } = *self;
        let b = predicate.test(&*t);
        if b {
            let ghost g = on_true;
            let r = on_true.apply(t);
            proof {
                assert(exists|m: &mut T|
                    mut_ref_current(m) == *old(t) && mut_ref_future(m) == *t && #[trigger] g.produces(m, r));
                let m = choose|m: &mut T|
                    mut_ref_current(m) == *old(t) && mut_ref_future(m) == *t && #[trigger] g.produces(m, r);
                assert(choice_produces(predicate, g, on_false, m, r));
                assert(MutCallOnce1::<T, R>::post(&*self, m, r));
                assert(*t == *final(t));
            }
            r
        } else {
            let ghost e = on_false;
            let r = on_false.apply(t);
            proof {
                assert(exists|m: &mut T|
                    mut_ref_current(m) == *old(t) && mut_ref_future(m) == *t && #[trigger] e.produces(m, r));
                let m = choose|m: &mut T|
                    mut_ref_current(m) == *old(t) && mut_ref_future(m) == *t && #[trigger] e.produces(m, r);
                assert(choice_produces(predicate, on_true, e, m, r));
                assert(MutCallOnce1::<T, R>::post(&*self, m, r));
                assert(*t == *final(t));
            }
            r
        }
    }
}

} // verus!
