//! Callables that ignore their input (constants) or hand it back (identity).
use vstd::prelude::*;

use crate::callable::{Call1, Call2, CallMut1, CallOnce1, CallOnce2};

verus! {

/// Returns a clone of `value`, whatever the input.
pub struct Constant<R> {
    pub value: R,
}

impl<T, R: Clone> Call1<T, R> for Constant<R> {
    open spec fn pre(&self, t: T) -> bool {
        true
    }

    open spec fn post(&self, t: T, r: R) -> bool {
        cloned::<R>(self.value, r)
    }

    fn call(&self, t: &T) -> (r: R) {
        self.value.clone()
    }
}

impl<T, R: Clone> CallOnce1<T, R> for Constant<R> {
    open spec fn pre(&self, t: T) -> bool {
        true
    }

    open spec fn post(&self, t: T, r: R) -> bool {
        cloned::<R>(self.value, r)
    }

    fn call_once(self: Box<Self>, t: &T) -> (r: R) {
        self.value.clone()
    }
}

impl<T, R: Clone> CallMut1<T, R> for Constant<R> {
    open spec fn pre(&self, t: T) -> bool {
        true
    }

    open spec fn post(&self, t: T, r: R) -> bool {
        cloned::<R>(self.value, r)
    }

    fn call_mut(&mut self, t: &T) -> (r: R) {
        self.value.clone()
    }
}

impl<T, U, R: Clone> Call2<T, U, R> for Constant<R> {
    open spec fn pre(&self, t: T, u: U) -> bool {
        true
    }

    open spec fn post(&self, t: T, u: U, r: R) -> bool {
        cloned::<R>(self.value, r)
    }

    fn call(&self, t: &T, u: &U) -> (r: R) {
        self.value.clone()
    }
}

impl<T, U, R: Clone> CallOnce2<T, U, R> for Constant<R> {
    open spec fn pre(&self, t: T, u: U) -> bool {
        true
    }

    open spec fn post(&self, t: T, u: U, r: R) -> bool {
        cloned::<R>(self.value, r)
    }

    fn call_once(self: Box<Self>, t: &T, u: &U) -> (r: R) {
        self.value.clone()
    }
}

/// Returns a clone of its input.
pub struct Identity;

impl<T: Clone> Call1<T, T> for Identity {
    open spec fn pre(&self, t: T) -> bool {
        true
    }

    open spec fn post(&self, t: T, r: T) -> bool {
        cloned::<T>(t, r)
    }

    fn call(&self, t: &T) -> (r: T) {
        t.clone()
    }
}

impl<T: Clone> CallOnce1<T, T> for Identity {
    open spec fn pre(&self, t: T) -> bool {
        true
    }

    open spec fn post(&self, t: T, r: T) -> bool {
        cloned::<T>(t, r)
    }

    fn call_once(self: Box<Self>, t: &T) -> (r: T) {
        t.clone()
    }
}

impl<T: Clone> CallMut1<T, T> for Identity {
    open spec fn pre(&self, t: T) -> bool {
        true
    }

    open spec fn post(&self, t: T, r: T) -> bool {
        cloned::<T>(t, r)
    }

    fn call_mut(&mut self, t: &T) -> (r: T) {
        t.clone()
    }
}

} // verus!
