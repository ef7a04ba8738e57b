//! Object-safe call interfaces behind the boxed, reference-counted and
//! atomically reference-counted wrappers.
//!
//! Each wrapper type of this crate keeps its callable behind one of these
//! traits. A trait here carries the callable's precondition (`pre`) and the
//! relation between its inputs and its results (`post`); closures get them
//! from `call_requires` / `call_ensures`, and the crate's combinators define
//! them exactly from the parts they are built from.
use vstd::prelude::*;
use vstd::rwlock::{RwLock, RwLockPredicate};

verus! {

/// A callable taking one argument by shared reference.
pub trait Call1<T, R> {
    spec fn pre(&self, t: T) -> bool;

    spec fn post(&self, t: T, r: R) -> bool;

    fn call(&self, t: &T) -> (r: R)
        requires
            self.pre(*t),
        ensures
            self.post(*t, r),
    ;
}

impl<T, R, F: Fn(&T) -> R> Call1<T, R> for F {
    open spec fn pre(&self, t: T) -> bool {
        call_requires(*self, (&t,))
    }

    open spec fn post(&self, t: T, r: R) -> bool {
        call_ensures(*self, (&t,), r)
    }

    fn call(&self, t: &T) -> (r: R) {
        (self)(t)
    }
}

/// A [`Call1`] that can be shared between threads.
pub trait SyncCall1<T, R>: Send + Sync {
    spec fn sync_pre(&self, t: T) -> bool;

    spec fn sync_post(&self, t: T, r: R) -> bool;

    fn sync_call(&self, t: &T) -> (r: R)
        requires
            self.sync_pre(*t),
        ensures
            self.sync_post(*t, r),
    ;
}

impl<T, R, F: Call1<T, R> + Send + Sync> SyncCall1<T, R> for F {
    open spec fn sync_pre(&self, t: T) -> bool {
        self.pre(t)
    }

    open spec fn sync_post(&self, t: T, r: R) -> bool {
        self.post(t, r)
    }

    fn sync_call(&self, t: &T) -> (r: R) {
        self.call(t)
    }
}

/// A callable taking two arguments by shared reference.
pub trait Call2<T, U, R> {
    spec fn pre(&self, t: T, u: U) -> bool;

    spec fn post(&self, t: T, u: U, r: R) -> bool;

    fn call(&self, t: &T, u: &U) -> (r: R)
        requires
            self.pre(*t, *u),
        ensures
            self.post(*t, *u, r),
    ;
}

impl<T, U, R, F: Fn(&T, &U) -> R> Call2<T, U, R> for F {
    open spec fn pre(&self, t: T, u: U) -> bool {
        call_requires(*self, (&t, &u))
    }

    open spec fn post(&self, t: T, u: U, r: R) -> bool {
        call_ensures(*self, (&t, &u), r)
    }

    fn call(&self, t: &T, u: &U) -> (r: R) {
        (self)(t, u)
    }
}

/// A [`Call2`] that can be shared between threads.
pub trait SyncCall2<T, U, R>: Send + Sync {
    spec fn sync_pre(&self, t: T, u: U) -> bool;

    spec fn sync_post(&self, t: T, u: U, r: R) -> bool;

    fn sync_call(&self, t: &T, u: &U) -> (r: R)
        requires
            self.sync_pre(*t, *u),
        ensures
            self.sync_post(*t, *u, r),
    ;
}

impl<T, U, R, F: Call2<T, U, R> + Send + Sync> SyncCall2<T, U, R> for F {
    open spec fn sync_pre(&self, t: T, u: U) -> bool {
        self.pre(t, u)
    }

    open spec fn sync_post(&self, t: T, u: U, r: R) -> bool {
        self.post(t, u, r)
    }

    fn sync_call(&self, t: &T, u: &U) -> (r: R) {
        self.call(t, u)
    }
}

/// A callable taking one argument by shared reference, called at most once.
pub trait CallOnce1<T, R> {
    spec fn pre(&self, t: T) -> bool;

    spec fn post(&self, t: T, r: R) -> bool;

    fn call_once(self: Box<Self>, t: &T) -> (r: R)
        requires
            self.pre(*t),
        ensures
            self.post(*t, r),
    ;
}

impl<T, R, F: FnOnce(&T) -> R> CallOnce1<T, R> for F {
    open spec fn pre(&self, t: T) -> bool {
        call_requires(*self, (&t,))
    }

    open spec fn post(&self, t: T, r: R) -> bool {
        call_ensures(*self, (&t,), r)
    }

    fn call_once(self: Box<Self>, t: &T) -> (r: R) {
        (*self)(t)
    }
}

/// A callable taking two arguments by shared reference, called at most once.
pub trait CallOnce2<T, U, R> {
    spec fn pre(&self, t: T, u: U) -> bool;

    spec fn post(&self, t: T, u: U, r: R) -> bool;

    fn call_once(self: Box<Self>, t: &T, u: &U) -> (r: R)
        requires
            self.pre(*t, *u),
        ensures
            self.post(*t, *u, r),
    ;
}

impl<T, U, R, F: FnOnce(&T, &U) -> R> CallOnce2<T, U, R> for F {
    open spec fn pre(&self, t: T, u: U) -> bool {
        call_requires(*self, (&t, &u))
    }

    open spec fn post(&self, t: T, u: U, r: R) -> bool {
        call_ensures(*self, (&t, &u), r)
    }

    fn call_once(self: Box<Self>, t: &T, u: &U) -> (r: R) {
        (*self)(t, u)
    }
}

/// A callable taking one argument by shared reference that may change its
/// own state between calls. Its precondition and result relation stay the
/// same from one call to the next.
pub trait CallMut1<T, R> {
    spec fn pre(&self, t: T) -> bool;

    spec fn post(&self, t: T, r: R) -> bool;

    /// How many times this callable has applied each of its two parts, for
    /// a callable built from two (a sequence or a choice); `(0, 0)` for one
    /// that has none.
    open spec fn part_calls(&self) -> (nat, nat) {
        (0, 0)
    }

    /// What one call on `t` may do to [`CallMut1::part_calls`]: take it from
    /// `before` to `after`. A callable without parts leaves it as it is.
    open spec fn part_step(&self, t: T, before: (nat, nat), after: (nat, nat)) -> bool {
        after == before
    }

    fn call_mut(&mut self, t: &T) -> (r: R)
        requires
            old(self).pre(*t),
        ensures
            old(self).post(*t, r),
            old(self).part_step(*t, old(self).part_calls(), final(self).part_calls()),
            forall|x: T| #[trigger] final(self).pre(x) == old(self).pre(x),
            forall|x: T, y: R| #[trigger] final(self).post(x, y) == old(self).post(x, y),
            forall|x: T, b: (nat, nat), a: (nat, nat)| #[trigger]
                final(self).part_step(x, b, a) == old(self).part_step(x, b, a),
    ;
}

impl<T, R, F: FnMut(&T) -> R> CallMut1<T, R> for F {
    open spec fn pre(&self, t: T) -> bool {
        call_requires(*self, (&t,))
    }

    open spec fn post(&self, t: T, r: R) -> bool {
        call_ensures(*self, (&t,), r)
    }

    open spec fn part_calls(&self) -> (nat, nat) {
        (0, 0)
    }

    open spec fn part_step(&self, t: T, before: (nat, nat), after: (nat, nat)) -> bool {
        after == before
    }

    fn call_mut(&mut self, t: &T) -> (r: R) {
        (self)(t)
    }
}

/// A callable taking two arguments by shared reference that may change its
/// own state between calls. Its precondition and result relation stay the
/// same from one call to the next.
pub trait CallMut2<T, U, R> {
    spec fn pre(&self, t: T, u: U) -> bool;

    spec fn post(&self, t: T, u: U, r: R) -> bool;

    /// How many times this callable has applied each of its two parts, for
    /// a callable built from two (a sequence or a choice); `(0, 0)` for one
    /// that has none.
    open spec fn part_calls(&self) -> (nat, nat) {
        (0, 0)
    }

    /// What one call on `t` and `u` may do to [`CallMut2::part_calls`]: take
    /// it from `before` to `after`. A callable without parts leaves it as it
    /// is.
    open spec fn part_step(&self, t: T, u: U, before: (nat, nat), after: (nat, nat)) -> bool {
        after == before
    }

    fn call_mut(&mut self, t: &T, u: &U) -> (r: R)
        requires
            old(self).pre(*t, *u),
        ensures
            old(self).post(*t, *u, r),
            old(self).part_step(*t, *u, old(self).part_calls(), final(self).part_calls()),
            forall|x: T, y: U, b: (nat, nat), a: (nat, nat)| #[trigger]
                final(self).part_step(x, y, b, a) == old(self).part_step(x, y, b, a),
            forall|x: T, y: U| #[trigger] final(self).pre(x, y) == old(self).pre(x, y),
            forall|x: T, y: U, z: R| #[trigger] final(self).post(x, y, z) == old(self).post(x, y, z),
    ;
}

impl<T, U, R, F: FnMut(&T, &U) -> R> CallMut2<T, U, R> for F {
    open spec fn pre(&self, t: T, u: U) -> bool {
        call_requires(*self, (&t, &u))
    }

    open spec fn post(&self, t: T, u: U, r: R) -> bool {
        call_ensures(*self, (&t, &u), r)
    }

    open spec fn part_calls(&self) -> (nat, nat) {
        (0, 0)
    }

    open spec fn part_step(&self, t: T, u: U, before: (nat, nat), after: (nat, nat)) -> bool {
        after == before
    }

    fn call_mut(&mut self, t: &T, u: &U) -> (r: R) {
        (self)(t, u)
    }
}

/// A [`CallMut1`] that can be moved to, and shared with, another thread.
pub trait SyncCallMut1<T, R>: Send + Sync {
    spec fn shared_pre(&self, t: T) -> bool;

    spec fn shared_post(&self, t: T, r: R) -> bool;

    fn shared_call_mut(&mut self, t: &T) -> (r: R)
        requires
            old(self).shared_pre(*t),
        ensures
            old(self).shared_post(*t, r),
            forall|x: T| #[trigger] final(self).shared_pre(x) == old(self).shared_pre(x),
            forall|x: T, y: R| #[trigger] final(self).shared_post(x, y) == old(self).shared_post(x, y),
    ;
}

impl<T, R, F: CallMut1<T, R> + Send + Sync> SyncCallMut1<T, R> for F {
    open spec fn shared_pre(&self, t: T) -> bool {
        self.pre(t)
    }

    open spec fn shared_post(&self, t: T, r: R) -> bool {
        self.post(t, r)
    }

    fn shared_call_mut(&mut self, t: &T) -> (r: R) {
        self.call_mut(t)
    }
}

/// The precondition and result relation that a callable kept in a lock
/// always has.
#[verifier::reject_recursive_types(T)]
#[verifier::reject_recursive_types(R)]
pub struct MutBehaviour<T, R> {
    pub pre: spec_fn(T) -> bool,
    pub post: spec_fn(T, R) -> bool,
}

impl<T, R> RwLockPredicate<Box<dyn CallMut1<T, R>>> for MutBehaviour<T, R> {
    open spec fn inv(self, v: Box<dyn CallMut1<T, R>>) -> bool {
        &&& forall|t: T| #[trigger] v.pre(t) == (self.pre)(t)
        &&& forall|t: T, r: R| #[trigger] v.post(t, r) == (self.post)(t, r)
    }
}

impl<T, R> RwLockPredicate<Box<dyn SyncCallMut1<T, R>>> for MutBehaviour<T, R> {
    open spec fn inv(self, v: Box<dyn SyncCallMut1<T, R>>) -> bool {
        &&& forall|t: T| #[trigger] v.shared_pre(t) == (self.pre)(t)
        &&& forall|t: T, r: R| #[trigger] v.shared_post(t, r) == (self.post)(t, r)
    }
}

/// A [`CallMut1`] behind a lock: the owners that share it call it in turn,
/// and each call sees the state that the one before it left.
#[verifier::reject_recursive_types(T)]
#[verifier::reject_recursive_types(R)]
pub struct LockedCallMut1<T, R> {
    lock: RwLock<Box<dyn CallMut1<T, R>>, MutBehaviour<T, R>>,
}

impl<T, R> LockedCallMut1<T, R> {
    pub closed spec fn pre(&self, t: T) -> bool {
        (self.lock.pred().pre)(t)
    }

    pub closed spec fn post(&self, t: T, r: R) -> bool {
        (self.lock.pred().post)(t, r)
    }

    /// Locks `c` away.
    pub fn new<C: CallMut1<T, R> + 'static>(c: C) -> (res: Self)
        ensures
            forall|t: T| #[trigger] res.pre(t) == c.pre(t),
            forall|t: T, r: R| #[trigger] res.post(t, r) == c.post(t, r),
    {
        let f: Box<dyn CallMut1<T, R>> = Box::new(c);
        assert(forall|t: T| #[trigger] f.pre(t) == c.pre(t));
        assert(forall|t: T, r: R| #[trigger] f.post(t, r) == c.post(t, r));
        let behaviour = Ghost(MutBehaviour { pre: |t: T| c.pre(t), post: |t: T, r: R| c.post(t, r) });
        LockedCallMut1 { lock: RwLock::new(f, behaviour) }
    }

    /// Calls the callable under the lock.
    pub fn call(&self, t: &T) -> (r: R)
        requires
            self.pre(*t),
        ensures
            self.post(*t, r),
    {
        let (mut f, handle) = self.lock.acquire_write();
        let r = f.call_mut(t);
        handle.release_write(f);
        r
    }
}

/// A [`SyncCallMut1`] behind a lock: the owners that share it, on any
/// thread, call it in turn, and each call sees the state that the one before
/// it left.
#[verifier::reject_recursive_types(T)]
#[verifier::reject_recursive_types(R)]
pub struct LockedSyncCallMut1<T, R> {
    lock: RwLock<Box<dyn SyncCallMut1<T, R>>, MutBehaviour<T, R>>,
}

impl<T, R> LockedSyncCallMut1<T, R> {
    pub closed spec fn pre(&self, t: T) -> bool {
        (self.lock.pred().pre)(t)
    }

    pub closed spec fn post(&self, t: T, r: R) -> bool {
        (self.lock.pred().post)(t, r)
    }

    /// Locks `c` away.
    pub fn new<C: CallMut1<T, R> + Send + Sync + 'static>(c: C) -> (res: Self)
        ensures
            forall|t: T| #[trigger] res.pre(t) == c.pre(t),
            forall|t: T, r: R| #[trigger] res.post(t, r) == c.post(t, r),
    {
        assert(forall|t: T| #[trigger] SyncCallMut1::<T, R>::shared_pre(&c, t) == c.pre(t));
        assert(forall|t: T, r: R| #[trigger] SyncCallMut1::<T, R>::shared_post(&c, t, r) == c.post(t, r));
        let f: Box<dyn SyncCallMut1<T, R>> = Box::new(c);
        assert(forall|t: T| #[trigger] f.shared_pre(t) == c.pre(t));
        assert(forall|t: T, r: R| #[trigger] f.shared_post(t, r) == c.post(t, r));
        let behaviour = Ghost(MutBehaviour { pre: |t: T| c.pre(t), post: |t: T, r: R| c.post(t, r) });
        LockedSyncCallMut1 { lock: RwLock::new(f, behaviour) }
    }

    /// Calls the callable under the lock.
    pub fn call(&self, t: &T) -> (r: R)
        requires
            self.pre(*t),
        ensures
            self.post(*t, r),
    {
        let (mut f, handle) = self.lock.acquire_write();
        let r = f.shared_call_mut(t);
        handle.release_write(f);
        r
    }
}

/// A [`CallMut2`] that can be moved to, and shared with, another thread.
pub trait SyncCallMut2<T, U, R>: Send + Sync {
    spec fn shared_pre(&self, t: T, u: U) -> bool;

    spec fn shared_post(&self, t: T, u: U, r: R) -> bool;

    fn shared_call_mut(&mut self, t: &T, u: &U) -> (r: R)
        requires
            old(self).shared_pre(*t, *u),
        ensures
            old(self).shared_post(*t, *u, r),
            forall|x: T, y: U| #[trigger] final(self).shared_pre(x, y) == old(self).shared_pre(x, y),
            forall|x: T, y: U, z: R| #[trigger] final(self).shared_post(x, y, z) == old(self).shared_post(x, y, z),
    ;
}

impl<T, U, R, F: CallMut2<T, U, R> + Send + Sync> SyncCallMut2<T, U, R> for F {
    open spec fn shared_pre(&self, t: T, u: U) -> bool {
        self.pre(t, u)
    }

    open spec fn shared_post(&self, t: T, u: U, r: R) -> bool {
        self.post(t, u, r)
    }

    fn shared_call_mut(&mut self, t: &T, u: &U) -> (r: R) {
        self.call_mut(t, u)
    }
}

/// The precondition and result relation that a callable kept in a lock
/// always has.
#[verifier::reject_recursive_types(T)]
#[verifier::reject_recursive_types(U)]
#[verifier::reject_recursive_types(R)]
pub struct MutBehaviour2<T, U, R> {
    pub pre: spec_fn(T, U) -> bool,
    pub post: spec_fn(T, U, R) -> bool,
}

impl<T, U, R> RwLockPredicate<Box<dyn CallMut2<T, U, R>>> for MutBehaviour2<T, U, R> {
    open spec fn inv(self, v: Box<dyn CallMut2<T, U, R>>) -> bool {
        &&& forall|t: T, u: U| #[trigger] v.pre(t, u) == (self.pre)(t, u)
        &&& forall|t: T, u: U, r: R| #[trigger] v.post(t, u, r) == (self.post)(t, u, r)
    }
}

impl<T, U, R> RwLockPredicate<Box<dyn SyncCallMut2<T, U, R>>> for MutBehaviour2<T, U, R> {
    open spec fn inv(self, v: Box<dyn SyncCallMut2<T, U, R>>) -> bool {
        &&& forall|t: T, u: U| #[trigger] v.shared_pre(t, u) == (self.pre)(t, u)
        &&& forall|t: T, u: U, r: R| #[trigger] v.shared_post(t, u, r) == (self.post)(t, u, r)
    }
}

/// A [`CallMut2`] behind a lock: the owners that share it call it in turn,
/// and each call sees the state that the one before it left.
#[verifier::reject_recursive_types(T)]
#[verifier::reject_recursive_types(U)]
#[verifier::reject_recursive_types(R)]
pub struct LockedCallMut2<T, U, R> {
    lock: RwLock<Box<dyn CallMut2<T, U, R>>, MutBehaviour2<T, U, R>>,
}

impl<T, U, R> LockedCallMut2<T, U, R> {
    pub closed spec fn pre(&self, t: T, u: U) -> bool {
        (self.lock.pred().pre)(t, u)
    }

    pub closed spec fn post(&self, t: T, u: U, r: R) -> bool {
        (self.lock.pred().post)(t, u, r)
    }

    /// Locks `c` away.
    pub fn new<C: CallMut2<T, U, R> + 'static>(c: C) -> (res: Self)
        ensures
            forall|t: T, u: U| #[trigger] res.pre(t, u) == c.pre(t, u),
            forall|t: T, u: U, r: R| #[trigger] res.post(t, u, r) == c.post(t, u, r),
    {
        let f: Box<dyn CallMut2<T, U, R>> = Box::new(c);
        assert(forall|t: T, u: U| #[trigger] f.pre(t, u) == c.pre(t, u));
        assert(forall|t: T, u: U, r: R| #[trigger] f.post(t, u, r) == c.post(t, u, r));
        let behaviour = Ghost(MutBehaviour2 { pre: |t: T, u: U| c.pre(t, u), post: |t: T, u: U, r: R| c.post(t, u, r) });
        LockedCallMut2 { lock: RwLock::new(f, behaviour) }
    }

    /// Calls the callable under the lock.
    pub fn call(&self, t: &T, u: &U) -> (r: R)
        requires
            self.pre(*t, *u),
        ensures
            self.post(*t, *u, r),
    {
        let (mut f, handle) = self.lock.acquire_write();
        let r = f.call_mut(t, u);
        handle.release_write(f);
        r
    }
}

/// A [`SyncCallMut2`] behind a lock: the owners that share it, on any
/// thread, call it in turn, and each call sees the state that the one before
/// it left.
#[verifier::reject_recursive_types(T)]
#[verifier::reject_recursive_types(U)]
#[verifier::reject_recursive_types(R)]
pub struct LockedSyncCallMut2<T, U, R> {
    lock: RwLock<Box<dyn SyncCallMut2<T, U, R>>, MutBehaviour2<T, U, R>>,
}

impl<T, U, R> LockedSyncCallMut2<T, U, R> {
    pub closed spec fn pre(&self, t: T, u: U) -> bool {
        (self.lock.pred().pre)(t, u)
    }

    pub closed spec fn post(&self, t: T, u: U, r: R) -> bool {
        (self.lock.pred().post)(t, u, r)
    }

    /// Locks `c` away.
    pub fn new<C: CallMut2<T, U, R> + Send + Sync + 'static>(c: C) -> (res: Self)
        ensures
            forall|t: T, u: U| #[trigger] res.pre(t, u) == c.pre(t, u),
            forall|t: T, u: U, r: R| #[trigger] res.post(t, u, r) == c.post(t, u, r),
    {
        assert(forall|t: T, u: U| #[trigger] SyncCallMut2::<T, U, R>::shared_pre(&c, t, u) == c.pre(t, u));
        assert(forall|t: T, u: U, r: R| #[trigger] SyncCallMut2::<T, U, R>::shared_post(&c, t, u, r) == c.post(t, u, r));
        let f: Box<dyn SyncCallMut2<T, U, R>> = Box::new(c);
        assert(forall|t: T, u: U| #[trigger] f.shared_pre(t, u) == c.pre(t, u));
        assert(forall|t: T, u: U, r: R| #[trigger] f.shared_post(t, u, r) == c.post(t, u, r));
        let behaviour = Ghost(MutBehaviour2 { pre: |t: T, u: U| c.pre(t, u), post: |t: T, u: U, r: R| c.post(t, u, r) });
        LockedSyncCallMut2 { lock: RwLock::new(f, behaviour) }
    }

    /// Calls the callable under the lock.
    pub fn call(&self, t: &T, u: &U) -> (r: R)
        requires
            self.pre(*t, *u),
        ensures
            self.post(*t, *u, r),
    {
        let (mut f, handle) = self.lock.acquire_write();
        let r = f.shared_call_mut(t, u);
        handle.release_write(f);
        r
    }
}

} // verus!
