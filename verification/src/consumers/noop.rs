//! The consumer that does nothing, in every call shape.
use vstd::prelude::*;

use crate::callable::{Call1, Call2, CallMut1, CallMut2, CallOnce1, CallOnce2};

verus! {

/// Does nothing, for every input.
pub struct Noop;

impl<T> Call1<T, ()> for Noop {
    open spec fn pre(&self, t: T) -> bool {
        true
    }

    open spec fn post(&self, t: T, r: ()) -> bool {
        true
    }

    fn call(&self, t: &T) {
    }
}

impl<T> CallOnce1<T, ()> for Noop {
    open spec fn pre(&self, t: T) -> bool {
        true
    }

    open spec fn post(&self, t: T, r: ()) -> bool {
        true
    }

    fn call_once(self: Box<Self>, t: &T) {
    }
}

impl<T> CallMut1<T, ()> for Noop {
    open spec fn pre(&self, t: T) -> bool {
        true
    }

    open spec fn post(&self, t: T, r: ()) -> bool {
        true
    }

    fn call_mut(&mut self, t: &T) {
    }
}

impl<T, U> Call2<T, U, ()> for Noop {
    open spec fn pre(&self, t: T, u: U) -> bool {
        true
    }

    open spec fn post(&self, t: T, u: U, r: ()) -> bool {
        true
    }

    fn call(&self, t: &T, u: &U) {
    }
}

impl<T, U> CallOnce2<T, U, ()> for Noop {
    open spec fn pre(&self, t: T, u: U) -> bool {
        true
    }

    open spec fn post(&self, t: T, u: U, r: ()) -> bool {
        true
    }

    fn call_once(self: Box<Self>, t: &T, u: &U) {
    }
}

impl<T, U> CallMut2<T, U, ()> for Noop {
    open spec fn pre(&self, t: T, u: U) -> bool {
        true
    }

    open spec fn post(&self, t: T, u: U, r: ()) -> bool {
        true
    }

    fn call_mut(&mut self, t: &T, u: &U) {
    }
}

} // verus!
