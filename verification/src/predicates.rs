//! Predicates over one value (`Fn(&T) -> bool`) and over two values
//! (`Fn(&T, &U) -> bool`), used as the conditions of the conditional
//! functions and consumers.
use std::rc::Rc;
use std::sync::Arc;
use vstd::prelude::*;

use crate::callable::{Call1, Call2, SyncCall1, SyncCall2};

verus! {

/// A test on one value.
///
/// `accepts(t)` is what a caller must establish before `test(&t)`;
/// `produces(t, b)` says that `b` is a possible answer for `t`.
pub trait Predicate<T> {
    spec fn accepts(&self, t: T) -> bool;

    spec fn produces(&self, t: T, b: bool) -> bool;

    fn test(&self, t: &T) -> (b: bool)
        requires
            self.accepts(*t),
        ensures
            self.produces(*t, b),
    ;

    /// Moves this predicate into a [`BoxPredicate`] that tests by calling it.
    fn into_box(self) -> (res: BoxPredicate<T>)
        where
            Self: Sized + 'static,
            T: 'static,
        ensures
            forall|t: T| self.accepts(t) ==> #[trigger] res.accepts(t),
            forall|t: T, b: bool| #[trigger] res.produces(t, b) ==> self.produces(t, b),
    {
        let f = move |t: &T| -> (b: bool)
            requires
                self.accepts(*t),
            ensures
                self.produces(*t, b),
        {
            self.test(t)
        };
        BoxPredicate::new(f)
    }

    /// Moves this predicate into an [`RcPredicate`] that tests by calling it.
    fn into_rc(self) -> (res: RcPredicate<T>)
        where
            Self: Sized + 'static,
            T: 'static,
        ensures
            forall|t: T| self.accepts(t) ==> #[trigger] res.accepts(t),
            forall|t: T, b: bool| #[trigger] res.produces(t, b) ==> self.produces(t, b),
    {
        let f = move |t: &T| -> (b: bool)
            requires
                self.accepts(*t),
            ensures
                self.produces(*t, b),
        {
            self.test(t)
        };
        RcPredicate::new(f)
    }

    /// Moves this predicate into an [`ArcPredicate`] that tests by calling it.
    fn into_arc(self) -> (res: ArcPredicate<T>)
        where
            Self: Sized + Send + Sync + 'static,
            T: 'static,
        ensures
            forall|t: T| self.accepts(t) ==> #[trigger] res.accepts(t),
            forall|t: T, b: bool| #[trigger] res.produces(t, b) ==> self.produces(t, b),
    {
        let f = move |t: &T| -> (b: bool)
            requires
                self.accepts(*t),
            ensures
                self.produces(*t, b),
        {
            self.test(t)
        };
        ArcPredicate::new(f)
    }
}

impl<T, F: Fn(&T) -> bool> Predicate<T> for F {
    open spec fn accepts(&self, t: T) -> bool {
        call_requires(*self, (&t,))
    }

    open spec fn produces(&self, t: T, b: bool) -> bool {
        call_ensures(*self, (&t,), b)
    }

    fn test(&self, t: &T) -> (b: bool) {
        (self)(t)
    }
}

/// A predicate in a box: single ownership.
#[verifier::reject_recursive_types(T)]
pub struct BoxPredicate<T> {
    function: Box<dyn Call1<T, bool>>,
}

impl<T> BoxPredicate<T> {
    pub closed spec fn accepts(&self, t: T) -> bool {
        self.function.pre(t)
    }

    pub closed spec fn produces(&self, t: T, b: bool) -> bool {
        self.function.post(t, b)
    }

    fn from_call<C: Call1<T, bool> + 'static>(c: C) -> (res: Self)
        ensures
            forall|t: T| #[trigger] res.accepts(t) == c.pre(t),
            forall|t: T, b: bool| #[trigger] res.produces(t, b) == c.post(t, b),
    {
        let function: Box<dyn Call1<T, bool>> = Box::new(c);
        assert(forall|t: T| #[trigger] function.pre(t) == c.pre(t));
        assert(forall|t: T, b: bool| #[trigger] function.post(t, b) == c.post(t, b));
        BoxPredicate { function }
    }

    /// Wraps the closure `f`.
    pub fn new<F>(f: F) -> (res: Self)
        where
            F: Fn(&T) -> bool + 'static,
        ensures
            forall|t: T| #[trigger] res.accepts(t) == call_requires(f, (&t,)),
            forall|t: T, b: bool| #[trigger] res.produces(t, b) == call_ensures(f, (&t,), b),
    {
        Self::from_call(f)
    }

    /// Turns this predicate into an [`RcPredicate`] with the same behaviour.
    pub fn into_rc(self) -> (res: RcPredicate<T>)
        ensures
            forall|t: T| #[trigger] res.accepts(t) == self.accepts(t),
            forall|t: T, b: bool| #[trigger] res.produces(t, b) == self.produces(t, b),
    {
        RcPredicate { function: Rc::new(self.function) }
    }
}

impl<T> Predicate<T> for BoxPredicate<T> {
    open spec fn accepts(&self, t: T) -> bool {
        BoxPredicate::accepts(self, t)
    }

    open spec fn produces(&self, t: T, b: bool) -> bool {
        BoxPredicate::produces(self, t, b)
    }

    fn test(&self, t: &T) -> (b: bool) {
        self.function.call(t)
    }

    fn into_box(self) -> (res: BoxPredicate<T>)
        where
            Self: Sized + 'static,
            T: 'static,
    {
        self
    }
}

/// A predicate behind an `Rc`: shared, single-threaded.
#[verifier::reject_recursive_types(T)]
pub struct RcPredicate<T> {
    function: Rc<Box<dyn Call1<T, bool>>>,
}

impl<T> RcPredicate<T> {
    pub closed spec fn accepts(&self, t: T) -> bool {
        self.function.pre(t)
    }

    pub closed spec fn produces(&self, t: T, b: bool) -> bool {
        self.function.post(t, b)
    }

    /// Wraps the closure `f`.
    pub fn new<F>(f: F) -> (res: Self)
        where
            F: Fn(&T) -> bool + 'static,
        ensures
            forall|t: T| #[trigger] res.accepts(t) == call_requires(f, (&t,)),
            forall|t: T, b: bool| #[trigger] res.produces(t, b) == call_ensures(f, (&t,), b),
    {
        Self::from_call(f)
    }

    fn from_call<C: Call1<T, bool> + 'static>(c: C) -> (res: Self)
        ensures
            forall|t: T| #[trigger] res.accepts(t) == c.pre(t),
            forall|t: T, b: bool| #[trigger] res.produces(t, b) == c.post(t, b),
    {
        let function: Box<dyn Call1<T, bool>> = Box::new(c);
        assert(forall|t: T| #[trigger] function.pre(t) == c.pre(t));
        assert(forall|t: T, b: bool| #[trigger] function.post(t, b) == c.post(t, b));
        RcPredicate { function: Rc::new(function) }
    }
}

impl<T> Clone for RcPredicate<T> {
    fn clone(&self) -> (res: Self)
        ensures
            res == *self,
    {
        RcPredicate { function: self.function.clone() }
    }
}

impl<T> Call1<T, bool> for RcPredicate<T> {
    closed spec fn pre(&self, t: T) -> bool {
        self.accepts(t)
    }

    closed spec fn post(&self, t: T, b: bool) -> bool {
        self.produces(t, b)
    }

    fn call(&self, t: &T) -> (b: bool) {
        self.function.call(t)
    }
}

impl<T> Predicate<T> for RcPredicate<T> {
    open spec fn accepts(&self, t: T) -> bool {
        RcPredicate::accepts(self, t)
    }

    open spec fn produces(&self, t: T, b: bool) -> bool {
        RcPredicate::produces(self, t, b)
    }

    fn test(&self, t: &T) -> (b: bool) {
        self.function.call(t)
    }

    fn into_box(self) -> (res: BoxPredicate<T>)
        where
            Self: Sized + 'static,
            T: 'static,
        ensures
            forall|t: T| #[trigger] res.accepts(t) == self.accepts(t),
            forall|t: T, b: bool| #[trigger] res.produces(t, b) == self.produces(t, b),
    {
        BoxPredicate::from_call(self)
    }

    fn into_rc(self) -> (res: RcPredicate<T>)
        where
            Self: Sized + 'static,
            T: 'static,
    {
        self
    }
}

/// A predicate behind an `Arc`: shared, thread-safe.
#[verifier::reject_recursive_types(T)]
pub struct ArcPredicate<T> {
    function: Arc<Box<dyn SyncCall1<T, bool>>>,
}

impl<T> ArcPredicate<T> {
    pub closed spec fn accepts(&self, t: T) -> bool {
        self.function.sync_pre(t)
    }

    pub closed spec fn produces(&self, t: T, b: bool) -> bool {
        self.function.sync_post(t, b)
    }

    /// Wraps the closure `f`.
    pub fn new<F>(f: F) -> (res: Self)
        where
            F: Fn(&T) -> bool + Send + Sync + 'static,
        ensures
            forall|t: T| #[trigger] res.accepts(t) == call_requires(f, (&t,)),
            forall|t: T, b: bool| #[trigger] res.produces(t, b) == call_ensures(f, (&t,), b),
    {
        Self::from_call(f)
    }

    fn from_call<C: Call1<T, bool> + Send + Sync + 'static>(c: C) -> (res: Self)
        ensures
            forall|t: T| #[trigger] res.accepts(t) == c.pre(t),
            forall|t: T, b: bool| #[trigger] res.produces(t, b) == c.post(t, b),
    {
        assert(forall|t: T| #[trigger] SyncCall1::<T, bool>::sync_pre(&c, t) == c.pre(t));
        assert(forall|t: T, b: bool| #[trigger] SyncCall1::<T, bool>::sync_post(&c, t, b) == c.post(t, b));
        let function: Box<dyn SyncCall1<T, bool>> = Box::new(c);
        assert(forall|t: T| #[trigger] function.sync_pre(t) == c.pre(t));
        assert(forall|t: T, b: bool| #[trigger] function.sync_post(t, b) == c.post(t, b));
        ArcPredicate { function: Arc::new(function) }
    }
}

impl<T> Clone for ArcPredicate<T> {
    fn clone(&self) -> (res: Self)
        ensures
            res == *self,
    {
        ArcPredicate { function: self.function.clone() }
    }
}

impl<T> Call1<T, bool> for ArcPredicate<T> {
    closed spec fn pre(&self, t: T) -> bool {
        self.accepts(t)
    }

    closed spec fn post(&self, t: T, b: bool) -> bool {
        self.produces(t, b)
    }

    fn call(&self, t: &T) -> (b: bool) {
        self.function.sync_call(t)
    }
}

impl<T> Predicate<T> for ArcPredicate<T> {
    open spec fn accepts(&self, t: T) -> bool {
        ArcPredicate::accepts(self, t)
    }

    open spec fn produces(&self, t: T, b: bool) -> bool {
        ArcPredicate::produces(self, t, b)
    }

    fn test(&self, t: &T) -> (b: bool) {
        self.function.sync_call(t)
    }

    fn into_box(self) -> (res: BoxPredicate<T>)
        where
            Self: Sized + 'static,
            T: 'static,
        ensures
            forall|t: T| #[trigger] res.accepts(t) == self.accepts(t),
            forall|t: T, b: bool| #[trigger] res.produces(t, b) == self.produces(t, b),
    {
        BoxPredicate::from_call(self)
    }

    fn into_rc(self) -> (res: RcPredicate<T>)
        where
            Self: Sized + 'static,
            T: 'static,
        ensures
            forall|t: T| #[trigger] res.accepts(t) == self.accepts(t),
            forall|t: T, b: bool| #[trigger] res.produces(t, b) == self.produces(t, b),
    {
        RcPredicate::from_call(self)
    }

    fn into_arc(self) -> (res: ArcPredicate<T>)
        where
            Self: Sized + Send + Sync + 'static,
            T: 'static,
    {
        self
    }
}




/// A test on two values.
///
/// `accepts(t, u)` is what a caller must establish before `test(&t, &u)`;
/// `produces(t, u, b)` says that `b` is a possible answer for `t` and `u`.
pub trait BiPredicate<T, U> {
    spec fn accepts(&self, t: T, u: U) -> bool;

    spec fn produces(&self, t: T, u: U, b: bool) -> bool;

    fn test(&self, t: &T, u: &U) -> (b: bool)
        requires
            self.accepts(*t, *u),
        ensures
            self.produces(*t, *u, b),
    ;

    /// Moves this predicate into a [`BoxBiPredicate`] that tests by calling it.
    fn into_box(self) -> (res: BoxBiPredicate<T, U>)
        where
            Self: Sized + 'static,
            T: 'static,
        ensures
            forall|t: T, u: U| self.accepts(t, u) ==> #[trigger] res.accepts(t, u),
            forall|t: T, u: U, b: bool| #[trigger] res.produces(t, u, b) ==> self.produces(t, u, b),
    {
        let f = move |t: &T, u: &U| -> (b: bool)
            requires
                self.accepts(*t, *u),
            ensures
                self.produces(*t, *u, b),
        {
            self.test(t, u)
        };
        BoxBiPredicate::new(f)
    }

    /// Moves this predicate into an [`RcBiPredicate`] that tests by calling it.
    fn into_rc(self) -> (res: RcBiPredicate<T, U>)
        where
            Self: Sized + 'static,
            T: 'static,
        ensures
            forall|t: T, u: U| self.accepts(t, u) ==> #[trigger] res.accepts(t, u),
            forall|t: T, u: U, b: bool| #[trigger] res.produces(t, u, b) ==> self.produces(t, u, b),
    {
        let f = move |t: &T, u: &U| -> (b: bool)
            requires
                self.accepts(*t, *u),
            ensures
                self.produces(*t, *u, b),
        {
            self.test(t, u)
        };
        RcBiPredicate::new(f)
    }

    /// Moves this predicate into an [`ArcBiPredicate`] that tests by calling it.
    fn into_arc(self) -> (res: ArcBiPredicate<T, U>)
        where
            Self: Sized + Send + Sync + 'static,
            T: 'static,
        ensures
            forall|t: T, u: U| self.accepts(t, u) ==> #[trigger] res.accepts(t, u),
            forall|t: T, u: U, b: bool| #[trigger] res.produces(t, u, b) ==> self.produces(t, u, b),
    {
        let f = move |t: &T, u: &U| -> (b: bool)
            requires
                self.accepts(*t, *u),
            ensures
                self.produces(*t, *u, b),
        {
            self.test(t, u)
        };
        ArcBiPredicate::new(f)
    }
}

impl<T, U, F: Fn(&T, &U) -> bool> BiPredicate<T, U> for F {
    open spec fn accepts(&self, t: T, u: U) -> bool {
        call_requires(*self, (&t, &u))
    }

    open spec fn produces(&self, t: T, u: U, b: bool) -> bool {
        call_ensures(*self, (&t, &u), b)
    }

    fn test(&self, t: &T, u: &U) -> (b: bool) {
        (self)(t, u)
    }
}

/// A predicate in a box: single ownership.
#[verifier::reject_recursive_types(T)]
#[verifier::reject_recursive_types(U)]
pub struct BoxBiPredicate<T, U> {
    function: Box<dyn Call2<T, U, bool>>,
}

impl<T, U> BoxBiPredicate<T, U> {
    pub closed spec fn accepts(&self, t: T, u: U) -> bool {
        self.function.pre(t, u)
    }

    pub closed spec fn produces(&self, t: T, u: U, b: bool) -> bool {
        self.function.post(t, u, b)
    }

    fn from_call<C: Call2<T, U, bool> + 'static>(c: C) -> (res: Self)
        ensures
            forall|t: T, u: U| #[trigger] res.accepts(t, u) == c.pre(t, u),
            forall|t: T, u: U, b: bool| #[trigger] res.produces(t, u, b) == c.post(t, u, b),
    {
        let function: Box<dyn Call2<T, U, bool>> = Box::new(c);
        assert(forall|t: T, u: U| #[trigger] function.pre(t, u) == c.pre(t, u));
        assert(forall|t: T, u: U, b: bool| #[trigger] function.post(t, u, b) == c.post(t, u, b));
        BoxBiPredicate { function }
    }

    /// Wraps the closure `f`.
    pub fn new<F>(f: F) -> (res: Self)
        where
            F: Fn(&T, &U) -> bool + 'static,
        ensures
            forall|t: T, u: U| #[trigger] res.accepts(t, u) == call_requires(f, (&t, &u)),
            forall|t: T, u: U, b: bool| #[trigger] res.produces(t, u, b) == call_ensures(f, (&t, &u), b),
    {
        Self::from_call(f)
    }

    /// Turns this predicate into an [`RcBiPredicate`] with the same behaviour.
    pub fn into_rc(self) -> (res: RcBiPredicate<T, U>)
        ensures
            forall|t: T, u: U| #[trigger] res.accepts(t, u) == self.accepts(t, u),
            forall|t: T, u: U, b: bool| #[trigger] res.produces(t, u, b) == self.produces(t, u, b),
    {
        RcBiPredicate { function: Rc::new(self.function) }
    }
}

impl<T, U> BiPredicate<T, U> for BoxBiPredicate<T, U> {
    open spec fn accepts(&self, t: T, u: U) -> bool {
        BoxBiPredicate::accepts(self, t, u)
    }

    open spec fn produces(&self, t: T, u: U, b: bool) -> bool {
        BoxBiPredicate::produces(self, t, u, b)
    }

    fn test(&self, t: &T, u: &U) -> (b: bool) {
        self.function.call(t, u)
    }

    fn into_box(self) -> (res: BoxBiPredicate<T, U>)
        where
            Self: Sized + 'static,
            T: 'static,
    {
        self
    }
}

/// A predicate behind an `Rc`: shared, single-threaded.
#[verifier::reject_recursive_types(T)]
#[verifier::reject_recursive_types(U)]
pub struct RcBiPredicate<T, U> {
    function: Rc<Box<dyn Call2<T, U, bool>>>,
}

impl<T, U> RcBiPredicate<T, U> {
    pub closed spec fn accepts(&self, t: T, u: U) -> bool {
        self.function.pre(t, u)
    }

    pub closed spec fn produces(&self, t: T, u: U, b: bool) -> bool {
        self.function.post(t, u, b)
    }

    /// Wraps the closure `f`.
    pub fn new<F>(f: F) -> (res: Self)
        where
            F: Fn(&T, &U) -> bool + 'static,
        ensures
            forall|t: T, u: U| #[trigger] res.accepts(t, u) == call_requires(f, (&t, &u)),
            forall|t: T, u: U, b: bool| #[trigger] res.produces(t, u, b) == call_ensures(f, (&t, &u), b),
    {
        Self::from_call(f)
    }

    fn from_call<C: Call2<T, U, bool> + 'static>(c: C) -> (res: Self)
        ensures
            forall|t: T, u: U| #[trigger] res.accepts(t, u) == c.pre(t, u),
            forall|t: T, u: U, b: bool| #[trigger] res.produces(t, u, b) == c.post(t, u, b),
    {
        let function: Box<dyn Call2<T, U, bool>> = Box::new(c);
        assert(forall|t: T, u: U| #[trigger] function.pre(t, u) == c.pre(t, u));
        assert(forall|t: T, u: U, b: bool| #[trigger] function.post(t, u, b) == c.post(t, u, b));
        RcBiPredicate { function: Rc::new(function) }
    }
}

impl<T, U> Clone for RcBiPredicate<T, U> {
    fn clone(&self) -> (res: Self)
        ensures
            res == *self,
    {
        RcBiPredicate { function: self.function.clone() }
    }
}

impl<T, U> Call2<T, U, bool> for RcBiPredicate<T, U> {
    closed spec fn pre(&self, t: T, u: U) -> bool {
        self.accepts(t, u)
    }

    closed spec fn post(&self, t: T, u: U, b: bool) -> bool {
        self.produces(t, u, b)
    }

    fn call(&self, t: &T, u: &U) -> (b: bool) {
        self.function.call(t, u)
    }
}

impl<T, U> BiPredicate<T, U> for RcBiPredicate<T, U> {
    open spec fn accepts(&self, t: T, u: U) -> bool {
        RcBiPredicate::accepts(self, t, u)
    }

    open spec fn produces(&self, t: T, u: U, b: bool) -> bool {
        RcBiPredicate::produces(self, t, u, b)
    }

    fn test(&self, t: &T, u: &U) -> (b: bool) {
        self.function.call(t, u)
    }

    fn into_box(self) -> (res: BoxBiPredicate<T, U>)
        where
            Self: Sized + 'static,
            T: 'static,
        ensures
            forall|t: T, u: U| #[trigger] res.accepts(t, u) == self.accepts(t, u),
            forall|t: T, u: U, b: bool| #[trigger] res.produces(t, u, b) == self.produces(t, u, b),
    {
        BoxBiPredicate::from_call(self)
    }

    fn into_rc(self) -> (res: RcBiPredicate<T, U>)
        where
            Self: Sized + 'static,
            T: 'static,
    {
        self
    }
}

/// A predicate behind an `Arc`: shared, thread-safe.
#[verifier::reject_recursive_types(T)]
#[verifier::reject_recursive_types(U)]
pub struct ArcBiPredicate<T, U> {
    function: Arc<Box<dyn SyncCall2<T, U, bool>>>,
}

impl<T, U> ArcBiPredicate<T, U> {
    pub closed spec fn accepts(&self, t: T, u: U) -> bool {
        self.function.sync_pre(t, u)
    }

    pub closed spec fn produces(&self, t: T, u: U, b: bool) -> bool {
        self.function.sync_post(t, u, b)
    }

    /// Wraps the closure `f`.
    pub fn new<F>(f: F) -> (res: Self)
        where
            F: Fn(&T, &U) -> bool + Send + Sync + 'static,
        ensures
            forall|t: T, u: U| #[trigger] res.accepts(t, u) == call_requires(f, (&t, &u)),
            forall|t: T, u: U, b: bool| #[trigger] res.produces(t, u, b) == call_ensures(f, (&t, &u), b),
    {
        Self::from_call(f)
    }

    fn from_call<C: Call2<T, U, bool> + Send + Sync + 'static>(c: C) -> (res: Self)
        ensures
            forall|t: T, u: U| #[trigger] res.accepts(t, u) == c.pre(t, u),
            forall|t: T, u: U, b: bool| #[trigger] res.produces(t, u, b) == c.post(t, u, b),
    {
        assert(forall|t: T, u: U| #[trigger] SyncCall2::<T, U, bool>::sync_pre(&c, t, u) == c.pre(t, u));
        assert(forall|t: T, u: U, b: bool| #[trigger] SyncCall2::<T, U, bool>::sync_post(&c, t, u, b) == c.post(t, u, b));
        let function: Box<dyn SyncCall2<T, U, bool>> = Box::new(c);
        assert(forall|t: T, u: U| #[trigger] function.sync_pre(t, u) == c.pre(t, u));
        assert(forall|t: T, u: U, b: bool| #[trigger] function.sync_post(t, u, b) == c.post(t, u, b));
        ArcBiPredicate { function: Arc::new(function) }
    }
}

impl<T, U> Clone for ArcBiPredicate<T, U> {
    fn clone(&self) -> (res: Self)
        ensures
            res == *self,
    {
        ArcBiPredicate { function: self.function.clone() }
    }
}

impl<T, U> Call2<T, U, bool> for ArcBiPredicate<T, U> {
    closed spec fn pre(&self, t: T, u: U) -> bool {
        self.accepts(t, u)
    }

    closed spec fn post(&self, t: T, u: U, b: bool) -> bool {
        self.produces(t, u, b)
    }

    fn call(&self, t: &T, u: &U) -> (b: bool) {
        self.function.sync_call(t, u)
    }
}

impl<T, U> BiPredicate<T, U> for ArcBiPredicate<T, U> {
    open spec fn accepts(&self, t: T, u: U) -> bool {
        ArcBiPredicate::accepts(self, t, u)
    }

    open spec fn produces(&self, t: T, u: U, b: bool) -> bool {
        ArcBiPredicate::produces(self, t, u, b)
    }

    fn test(&self, t: &T, u: &U) -> (b: bool) {
        self.function.sync_call(t, u)
    }

    fn into_box(self) -> (res: BoxBiPredicate<T, U>)
        where
            Self: Sized + 'static,
            T: 'static,
        ensures
            forall|t: T, u: U| #[trigger] res.accepts(t, u) == self.accepts(t, u),
            forall|t: T, u: U, b: bool| #[trigger] res.produces(t, u, b) == self.produces(t, u, b),
    {
        BoxBiPredicate::from_call(self)
    }

    fn into_rc(self) -> (res: RcBiPredicate<T, U>)
        where
            Self: Sized + 'static,
            T: 'static,
        ensures
            forall|t: T, u: U| #[trigger] res.accepts(t, u) == self.accepts(t, u),
            forall|t: T, u: U, b: bool| #[trigger] res.produces(t, u, b) == self.produces(t, u, b),
    {
        RcBiPredicate::from_call(self)
    }

    fn into_arc(self) -> (res: ArcBiPredicate<T, U>)
        where
            Self: Sized + Send + Sync + 'static,
            T: 'static,
    {
        self
    }
}


} // verus!
