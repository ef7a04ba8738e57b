//! Object-safe call interfaces for callables that take their arguments by
//! mutable reference.
//!
//! Such a call has a precondition on the values that the arguments hold
//! when it starts (`pre`) and a relation (`post`) between the references it
//! was given and its result. A reference stands for the pair of the value it
//! held when the call started and the value it holds when the call returns,
//! so `post` relates the values before, the values after and the result.
use vstd::prelude::*;
use vstd::rwlock::{RwLock, RwLockPredicate};

verus! {

/// A callable taking one argument by mutable reference.
pub trait MutCall1<T, R> {
    spec fn pre(&self, t: T) -> bool;

    spec fn post(&self, m: &mut T, r: R) -> bool;

    fn call(&self, t: &mut T) -> (r: R)
        requires
            self.pre(*old(t)),
        ensures
            exists|m: &mut T|
                mut_ref_current(m) == *old(t) && mut_ref_future(m) == *final(t) && #[trigger] self.post(m, r),
    ;
}

impl<T, R, F: Fn(&mut T) -> R> MutCall1<T, R> for F {
    open spec fn pre(&self, t: T) -> bool {
        forall|m: &mut T| mut_ref_current(m) == t ==> #[trigger] call_requires(*self, (m,))
    }

    open spec fn post(&self, m: &mut T, r: R) -> bool {
        call_ensures(*self, (m,), r)
    }

    fn call(&self, t: &mut T) -> (r: R) {
        let r = (self)(t);
        assert(exists|m: &mut T|
            #[trigger] call_ensures(*self, (m,), r) && mut_ref_current(m) == *old(t) && mut_ref_future(m) == *t);
        let ghost m = choose|m: &mut T|
            #[trigger] call_ensures(*self, (m,), r) && mut_ref_current(m) == *old(t) && mut_ref_future(m) == *t;
        assert(MutCall1::<T, R>::post(self, m, r));
        assert(*t == *final(t));
        r
    }
}

/// A callable taking one argument by mutable reference, called at most once.
pub trait MutCallOnce1<T, R> {
    spec fn pre(&self, t: T) -> bool;

    spec fn post(&self, m: &mut T, r: R) -> bool;

    fn call_once(self: Box<Self>, t: &mut T) -> (r: R)
        requires
            self.pre(*old(t)),
        ensures
            exists|m: &mut T|
                mut_ref_current(m) == *old(t) && mut_ref_future(m) == *final(t) && #[trigger] self.post(m, r),
    ;
}

impl<T, R, F: FnOnce(&mut T) -> R> MutCallOnce1<T, R> for F {
    open spec fn pre(&self, t: T) -> bool {
        forall|m: &mut T| mut_ref_current(m) == t ==> #[trigger] call_requires(*self, (m,))
    }

    open spec fn post(&self, m: &mut T, r: R) -> bool {
        call_ensures(*self, (m,), r)
    }

    fn call_once(self: Box<Self>, t: &mut T) -> (r: R) {
        let f = *self;
        let r = f(t);
        assert(exists|m: &mut T|
            #[trigger] call_ensures(f, (m,), r) && mut_ref_current(m) == *old(t) && mut_ref_future(m) == *t);
        let ghost m = choose|m: &mut T|
            #[trigger] call_ensures(f, (m,), r) && mut_ref_current(m) == *old(t) && mut_ref_future(m) == *t;
        assert(MutCallOnce1::<T, R>::post(&*self, m, r));
        assert(*t == *final(t));
        r
    }
}

/// A callable taking one argument by mutable reference that may change its
/// own state between calls. Its precondition and relation stay the same from
/// one call to the next.
pub trait MutCallMut1<T, R> {
    spec fn pre(&self, t: T) -> bool;

    spec fn post(&self, m: &mut T, r: R) -> bool;

    /// How many times this callable has applied each of its two parts, for
    /// a callable built from two (a sequence or a choice); `(0, 0)` for one
    /// that has none.
    open spec fn part_calls(&self) -> (nat, nat) {
        (0, 0)
    }

    /// What one call on a value `t` may do to [`MutCallMut1::part_calls`]:
    /// take it from `before` to `after`. A callable without parts leaves it
    /// as it is.
    open spec fn part_step(&self, t: T, before: (nat, nat), after: (nat, nat)) -> bool {
        after == before
    }

    fn call_mut(&mut self, t: &mut T) -> (r: R)
        requires
            old(self).pre(*old(t)),
        ensures
            exists|m: &mut T|
                mut_ref_current(m) == *old(t) && mut_ref_future(m) == *final(t) && #[trigger] old(self).post(m, r),
            old(self).part_step(*old(t), old(self).part_calls(), final(self).part_calls()),
            forall|x: T| #[trigger] final(self).pre(x) == old(self).pre(x),
            forall|x: &mut T, y: R| #[trigger] final(self).post(x, y) == old(self).post(x, y),
            forall|x: T, b: (nat, nat), a: (nat, nat)| #[trigger]
                final(self).part_step(x, b, a) == old(self).part_step(x, b, a),
    ;
}

impl<T, R, F: FnMut(&mut T) -> R> MutCallMut1<T, R> for F {
    open spec fn pre(&self, t: T) -> bool {
        forall|m: &mut T| mut_ref_current(m) == t ==> #[trigger] call_requires(*self, (m,))
    }

    open spec fn post(&self, m: &mut T, r: R) -> bool {
        call_ensures(*self, (m,), r)
    }

    open spec fn part_calls(&self) -> (nat, nat) {
        (0, 0)
    }

    open spec fn part_step(&self, t: T, before: (nat, nat), after: (nat, nat)) -> bool {
        after == before
    }

    fn call_mut(&mut self, t: &mut T) -> (r: R) {
        let r = (self)(t);
        assert(exists|m: &mut T|
            #[trigger] call_ensures(*old(self), (m,), r) && mut_ref_current(m) == *old(t) && mut_ref_future(m) == *t);
        let ghost m = choose|m: &mut T|
            #[trigger] call_ensures(*old(self), (m,), r) && mut_ref_current(m) == *old(t) && mut_ref_future(m) == *t;
        assert(MutCallMut1::<T, R>::post(&*old(self), m, r));
        assert(*t == *final(t));
        r
    }
}

/// A [`MutCallMut1`] that can be moved to, and shared with, another thread.
pub trait SyncMutCallMut1<T, R>: Send + Sync {
    spec fn shared_pre(&self, t: T) -> bool;

    spec fn shared_post(&self, m: &mut T, r: R) -> bool;

    fn shared_call_mut(&mut self, t: &mut T) -> (r: R)
        requires
            old(self).shared_pre(*old(t)),
        ensures
            exists|m: &mut T|
                mut_ref_current(m) == *old(t) && mut_ref_future(m) == *final(t) && #[trigger] old(self).shared_post(m, r),
            forall|x: T| #[trigger] final(self).shared_pre(x) == old(self).shared_pre(x),
            forall|x: &mut T, y: R| #[trigger] final(self).shared_post(x, y) == old(self).shared_post(x, y),
    ;
}

impl<T, R, F: MutCallMut1<T, R> + Send + Sync> SyncMutCallMut1<T, R> for F {
    open spec fn shared_pre(&self, t: T) -> bool {
        self.pre(t)
    }

    open spec fn shared_post(&self, m: &mut T, r: R) -> bool {
        self.post(m, r)
    }

    fn shared_call_mut(&mut self, t: &mut T) -> (r: R) {
        let r = self.call_mut(t);
        assert(exists|m: &mut T|
            mut_ref_current(m) == *old(t) && mut_ref_future(m) == *t && #[trigger] old(self).post(m, r));
        let ghost m = choose|m: &mut T|
            mut_ref_current(m) == *old(t) && mut_ref_future(m) == *t && #[trigger] old(self).post(m, r);
        assert(SyncMutCallMut1::<T, R>::shared_post(&*old(self), m, r));
        assert(*t == *final(t));
        r
    }
}

/// The callable whose precondition and relation a callable kept in a lock
/// always has.
pub struct MutArgBehaviour<C> {
    pub model: C,
}

impl<T, R> RwLockPredicate<Box<dyn MutCallMut1<T, R>>> for MutArgBehaviour<Box<dyn MutCallMut1<T, R>>> {
    open spec fn inv(self, v: Box<dyn MutCallMut1<T, R>>) -> bool {
        &&& forall|t: T| #[trigger] v.pre(t) == self.model.pre(t)
        &&& forall|m: &mut T, r: R| #[trigger] v.post(m, r) == self.model.post(m, r)
    }
}

impl<T, R> RwLockPredicate<Box<dyn SyncMutCallMut1<T, R>>> for MutArgBehaviour<Box<dyn SyncMutCallMut1<T, R>>> {
    open spec fn inv(self, v: Box<dyn SyncMutCallMut1<T, R>>) -> bool {
        &&& forall|t: T| #[trigger] v.shared_pre(t) == self.model.shared_pre(t)
        &&& forall|m: &mut T, r: R| #[trigger] v.shared_post(m, r) == self.model.shared_post(m, r)
    }
}

/// A [`MutCallMut1`] behind a lock: the owners that share it call it in
/// turn, and each call sees the state that the one before it left.
#[verifier::reject_recursive_types(T)]
#[verifier::reject_recursive_types(R)]
pub struct LockedMutCallMut1<T, R> {
    lock: RwLock<Box<dyn MutCallMut1<T, R>>, MutArgBehaviour<Box<dyn MutCallMut1<T, R>>>>,
}

impl<T, R> LockedMutCallMut1<T, R> {
    pub closed spec fn pre(&self, t: T) -> bool {
        self.lock.pred().model.pre(t)
    }

    pub closed spec fn post(&self, m: &mut T, r: R) -> bool {
        self.lock.pred().model.post(m, r)
    }

    /// Locks `c` away.
    pub fn new<C: MutCallMut1<T, R> + 'static>(c: C) -> (res: Self)
        ensures
            forall|t: T| #[trigger] res.pre(t) == c.pre(t),
            forall|m: &mut T, r: R| #[trigger] res.post(m, r) == c.post(m, r),
    {
        let f: Box<dyn MutCallMut1<T, R>> = Box::new(c);
        assert(forall|t: T| #[trigger] f.pre(t) == c.pre(t));
        assert(forall|m: &mut T, r: R| #[trigger] f.post(m, r) == c.post(m, r));
        let behaviour = Ghost(MutArgBehaviour { model: f });
        LockedMutCallMut1 { lock: RwLock::new(f, behaviour) }
    }

    /// Calls the callable under the lock.
    pub fn call(&self, t: &mut T) -> (r: R)
        requires
            self.pre(*old(t)),
        ensures
            exists|m: &mut T|
                mut_ref_current(m) == *old(t) && mut_ref_future(m) == *final(t) && #[trigger] self.post(m, r),
    {
        let (mut f, handle) = self.lock.acquire_write();
        let ghost f0 = f;
        let r = f.call_mut(t);
        handle.release_write(f);
        assert(exists|m: &mut T| mut_ref_current(m) == *old(t) && mut_ref_future(m) == *t && #[trigger] f0.post(m, r));
        let ghost m = choose|m: &mut T|
            mut_ref_current(m) == *old(t) && mut_ref_future(m) == *t && #[trigger] f0.post(m, r);
        assert(self.post(m, r));
        assert(*t == *final(t));
        r
    }
}

/// A [`SyncMutCallMut1`] behind a lock: the owners that share it, on any
/// thread, call it in turn, and each call sees the state that the one before
/// it left.
#[verifier::reject_recursive_types(T)]
#[verifier::reject_recursive_types(R)]
pub struct LockedSyncMutCallMut1<T, R> {
    lock: RwLock<Box<dyn SyncMutCallMut1<T, R>>, MutArgBehaviour<Box<dyn SyncMutCallMut1<T, R>>>>,
}

impl<T, R> LockedSyncMutCallMut1<T, R> {
    pub closed spec fn pre(&self, t: T) -> bool {
        self.lock.pred().model.shared_pre(t)
    }

    pub closed spec fn post(&self, m: &mut T, r: R) -> bool {
        self.lock.pred().model.shared_post(m, r)
    }

    /// Locks `c` away.
    pub fn new<C: MutCallMut1<T, R> + Send + Sync + 'static>(c: C) -> (res: Self)
        ensures
            forall|t: T| #[trigger] res.pre(t) == c.pre(t),
            forall|m: &mut T, r: R| #[trigger] res.post(m, r) == c.post(m, r),
    {
        assert(forall|t: T| #[trigger] SyncMutCallMut1::<T, R>::shared_pre(&c, t) == c.pre(t));
        assert(forall|m: &mut T, r: R| #[trigger] SyncMutCallMut1::<T, R>::shared_post(&c, m, r) == c.post(m, r));
        let f: Box<dyn SyncMutCallMut1<T, R>> = Box::new(c);
        assert(forall|t: T| #[trigger] f.shared_pre(t) == c.pre(t));
        assert(forall|m: &mut T, r: R| #[trigger] f.shared_post(m, r) == c.post(m, r));
        let behaviour = Ghost(MutArgBehaviour { model: f });
        LockedSyncMutCallMut1 { lock: RwLock::new(f, behaviour) }
    }

    /// Calls the callable under the lock.
    pub fn call(&self, t: &mut T) -> (r: R)
        requires
            self.pre(*old(t)),
        ensures
            exists|m: &mut T|
                mut_ref_current(m) == *old(t) && mut_ref_future(m) == *final(t) && #[trigger] self.post(m, r),
    {
        let (mut f, handle) = self.lock.acquire_write();
        let ghost f0 = f;
        let r = f.shared_call_mut(t);
        handle.release_write(f);
        assert(exists|m: &mut T|
            mut_ref_current(m) == *old(t) && mut_ref_future(m) == *t && #[trigger] f0.shared_post(m, r));
        let ghost m = choose|m: &mut T|
            mut_ref_current(m) == *old(t) && mut_ref_future(m) == *t && #[trigger] f0.shared_post(m, r);
        assert(self.post(m, r));
        assert(*t == *final(t));
        r
    }
}

/// A callable taking two arguments by mutable reference.
pub trait MutCall2<T, U, R> {
    spec fn pre(&self, t: T, u: U) -> bool;

    spec fn post(&self, m: &mut T, n: &mut U, r: R) -> bool;

    fn call(&self, t: &mut T, u: &mut U) -> (r: R)
        requires
            self.pre(*old(t), *old(u)),
        ensures
            exists|m: &mut T, n: &mut U|
                mut_ref_current(m) == *old(t) && mut_ref_future(m) == *final(t) && mut_ref_current(n) == *old(u)
                    && mut_ref_future(n) == *final(u) && #[trigger] self.post(m, n, r),
    ;
}

impl<T, U, R, F: Fn(&mut T, &mut U) -> R> MutCall2<T, U, R> for F {
    open spec fn pre(&self, t: T, u: U) -> bool {
        forall|m: &mut T, n: &mut U|
            mut_ref_current(m) == t && mut_ref_current(n) == u ==> #[trigger] call_requires(*self, (m, n))
    }

    open spec fn post(&self, m: &mut T, n: &mut U, r: R) -> bool {
        call_ensures(*self, (m, n), r)
    }

    fn call(&self, t: &mut T, u: &mut U) -> (r: R) {
        let r = (self)(t, u);
        assert(exists|m: &mut T, n: &mut U|
            #[trigger] call_ensures(*self, (m, n), r) && mut_ref_current(m) == *old(t) && mut_ref_future(m) == *t
                && mut_ref_current(n) == *old(u) && mut_ref_future(n) == *u);
        let ghost (m, n) = choose|m: &mut T, n: &mut U|
            #[trigger] call_ensures(*self, (m, n), r) && mut_ref_current(m) == *old(t) && mut_ref_future(m) == *t
                && mut_ref_current(n) == *old(u) && mut_ref_future(n) == *u;
        assert(MutCall2::<T, U, R>::post(self, m, n, r));
        assert(*t == *final(t));
        assert(*u == *final(u));
        r
    }
}

/// A [`MutCall2`] that can be shared between threads.
pub trait SyncMutCall2<T, U, R>: Send + Sync {
    spec fn shared_pre(&self, t: T, u: U) -> bool;

    spec fn shared_post(&self, m: &mut T, n: &mut U, r: R) -> bool;

    fn shared_call(&self, t: &mut T, u: &mut U) -> (r: R)
        requires
            self.shared_pre(*old(t), *old(u)),
        ensures
            exists|m: &mut T, n: &mut U|
                mut_ref_current(m) == *old(t) && mut_ref_future(m) == *final(t) && mut_ref_current(n) == *old(u)
                    && mut_ref_future(n) == *final(u) && #[trigger] self.shared_post(m, n, r),
    ;
}

impl<T, U, R, F: MutCall2<T, U, R> + Send + Sync> SyncMutCall2<T, U, R> for F {
    open spec fn shared_pre(&self, t: T, u: U) -> bool {
        self.pre(t, u)
    }

    open spec fn shared_post(&self, m: &mut T, n: &mut U, r: R) -> bool {
        self.post(m, n, r)
    }

    fn shared_call(&self, t: &mut T, u: &mut U) -> (r: R) {
        let r = self.call(t, u);
        assert(exists|m: &mut T, n: &mut U|
            mut_ref_current(m) == *old(t) && mut_ref_future(m) == *t && mut_ref_current(n) == *old(u)
                && mut_ref_future(n) == *u && #[trigger] self.post(m, n, r));
        let ghost (m, n) = choose|m: &mut T, n: &mut U|
            mut_ref_current(m) == *old(t) && mut_ref_future(m) == *t && mut_ref_current(n) == *old(u)
                && mut_ref_future(n) == *u && #[trigger] self.post(m, n, r);
        assert(SyncMutCall2::<T, U, R>::shared_post(self, m, n, r));
        assert(*t == *final(t));
        assert(*u == *final(u));
        r
    }
}

/// A callable taking two arguments by mutable reference, called at most
/// once.
pub trait MutCallOnce2<T, U, R> {
    spec fn pre(&self, t: T, u: U) -> bool;

    spec fn post(&self, m: &mut T, n: &mut U, r: R) -> bool;

    fn call_once(self: Box<Self>, t: &mut T, u: &mut U) -> (r: R)
        requires
            self.pre(*old(t), *old(u)),
        ensures
            exists|m: &mut T, n: &mut U|
                mut_ref_current(m) == *old(t) && mut_ref_future(m) == *final(t) && mut_ref_current(n) == *old(u)
                    && mut_ref_future(n) == *final(u) && #[trigger] self.post(m, n, r),
    ;
}

impl<T, U, R, F: FnOnce(&mut T, &mut U) -> R> MutCallOnce2<T, U, R> for F {
    open spec fn pre(&self, t: T, u: U) -> bool {
        forall|m: &mut T, n: &mut U|
            mut_ref_current(m) == t && mut_ref_current(n) == u ==> #[trigger] call_requires(*self, (m, n))
    }

    open spec fn post(&self, m: &mut T, n: &mut U, r: R) -> bool {
        call_ensures(*self, (m, n), r)
    }

    fn call_once(self: Box<Self>, t: &mut T, u: &mut U) -> (r: R) {
        let f = *self;
        let r = f(t, u);
        assert(exists|m: &mut T, n: &mut U|
            #[trigger] call_ensures(f, (m, n), r) && mut_ref_current(m) == *old(t) && mut_ref_future(m) == *t
                && mut_ref_current(n) == *old(u) && mut_ref_future(n) == *u);
        let ghost (m, n) = choose|m: &mut T, n: &mut U|
            #[trigger] call_ensures(f, (m, n), r) && mut_ref_current(m) == *old(t) && mut_ref_future(m) == *t
                && mut_ref_current(n) == *old(u) && mut_ref_future(n) == *u;
        assert(MutCallOnce2::<T, U, R>::post(&*self, m, n, r));
        assert(*t == *final(t));
        assert(*u == *final(u));
        r
    }
}

} // verus!
