//! Consumers of two values called at most once (`FnOnce(&T, &U)`).
use vstd::prelude::*;

use crate::callable::CallOnce2;
use crate::consumers::noop::Noop;
use crate::names::{name_str, name_view, owned_name};
use crate::predicates::{BoxBiPredicate, BiPredicate};

verus! {

/// A consumer of a `&T` and a `&U` value that can be called once.
///
/// `accepts(t, u)` is what a caller must establish before `accept(&t, &u)`;
/// `performs(t, u)` is what holds once `accept(&t, &u)` has returned.
pub trait BiConsumerOnce<T, U> {
    spec fn accepts(&self, t: T, u: U) -> bool;

    spec fn performs(&self, t: T, u: U) -> bool;

    fn accept(self, first: &T, second: &U)
        where
            Self: Sized,
        requires
            self.accepts(*first, *second),
        ensures
            self.performs(*first, *second),
    ;

    /// Moves this consumer into a [`BoxBiConsumerOnce`] that calls it.
    fn into_box(self) -> (res: BoxBiConsumerOnce<T, U>)
        where
            Self: Sized + 'static,
            T: 'static,
            U: 'static,
        ensures
            forall|t: T, u: U| self.accepts(t, u) ==> #[trigger] res.accepts(t, u),
            forall|t: T, u: U| #[trigger] res.performs(t, u) ==> self.performs(t, u),
    {
        let f = move |t: &T, u: &U|
            requires
                self.accepts(*t, *u),
            ensures
                self.performs(*t, *u),
        {
            self.accept(t, u)
        };
        BoxBiConsumerOnce::new(f)
    }

    /// A [`BoxBiConsumerOnce`] that calls a clone of this consumer.
    fn to_box(&self) -> (res: BoxBiConsumerOnce<T, U>)
        where
            Self: Clone + 'static,
            T: 'static,
            U: 'static,
        ensures
            exists|c: Self|
                cloned::<Self>(*self, c) && (forall|t: T, u: U| c.accepts(t, u) ==> #[trigger] res.accepts(t, u))
                    && (forall|t: T, u: U| #[trigger] res.performs(t, u) ==> c.performs(t, u)),
    {
        let c = self.clone();
        let res = c.into_box();
        assert(cloned::<Self>(*self, c));
        res
    }
}

impl<T, U, F: FnOnce(&T, &U)> BiConsumerOnce<T, U> for F {
    open spec fn accepts(&self, t: T, u: U) -> bool {
        call_requires(*self, (&t, &u))
    }

    open spec fn performs(&self, t: T, u: U) -> bool {
        call_ensures(*self, (&t, &u), ())
    }

    fn accept(self, first: &T, second: &U) {
        self(first, second)
    }

    fn into_box(self) -> (res: BoxBiConsumerOnce<T, U>)
        where
            Self: Sized + 'static,
            T: 'static,
            U: 'static,
        ensures
            forall|t: T, u: U| #[trigger] res.accepts(t, u) == call_requires(self, (&t, &u)),
            forall|t: T, u: U| #[trigger] res.performs(t, u) == call_ensures(self, (&t, &u), ()),
    {
        BoxBiConsumerOnce::new(self)
    }
}

/// A consumer built by `and_then` runs the first consumer and then the
/// second on the same pair: it takes every pair that the first accepts and
/// that the second accepts once the first has acted on it, it takes no pair
/// that the first does not, and when it has run, both have acted.
pub proof fn law_and_then_runs_first_then_second<T, U, A, B, AB>(a: A, b: B, ab: AB, t: T, u: U)
    where
        A: BiConsumerOnce<T, U>,
        B: BiConsumerOnce<T, U>,
        AB: BiConsumerOnce<T, U>,
    requires
        forall|x: T, y: U| #[trigger] ab.accepts(x, y) == once_both_accepts(a, b, x, y),
        forall|x: T, y: U| #[trigger] ab.performs(x, y) == once_both_performs(a, b, x, y),
    ensures
        a.accepts(t, u) && (a.performs(t, u) ==> b.accepts(t, u)) ==> ab.accepts(t, u),
        ab.accepts(t, u) ==> a.accepts(t, u),
        ab.performs(t, u) ==> a.performs(t, u) && b.performs(t, u),
{
}

/// Two single-use consumers in turn on the same value: defined at `t` when
/// `first` is, and `second` is once `first` has done its part.
pub open spec fn once_both_accepts<T, U, C: BiConsumerOnce<T, U>, D: BiConsumerOnce<T, U>>(first: C, second: D, t: T, u: U) -> bool {
    &&& first.accepts(t, u)
    &&& first.performs(t, u) ==> second.accepts(t, u)
}

/// Two single-use consumers in turn on the same value: both have done their
/// part.
pub open spec fn once_both_performs<T, U, C: BiConsumerOnce<T, U>, D: BiConsumerOnce<T, U>>(first: C, second: D, t: T, u: U) -> bool {
    first.performs(t, u) && second.performs(t, u)
}

/// Sequencing single-use consumers is associative: `ab` followed by `c` and `a` followed by `bc`
/// accept the same pairs and do the same, where `ab` behaves as `a` followed
/// by `b` and `bc` as `b` followed by `c` (as the result of `and_then` does).
pub proof fn law_and_then_associative<T, U, A, B, C, AB, BC>(a: A, b: B, c: C, ab: AB, bc: BC, t: T, u: U)
    where
        A: BiConsumerOnce<T, U>,
        B: BiConsumerOnce<T, U>,
        C: BiConsumerOnce<T, U>,
        AB: BiConsumerOnce<T, U>,
        BC: BiConsumerOnce<T, U>,
    requires
        forall|x: T, y: U| #[trigger] ab.accepts(x, y) == once_both_accepts(a, b, x, y),
        forall|x: T, y: U| #[trigger] ab.performs(x, y) == once_both_performs(a, b, x, y),
        forall|x: T, y: U| #[trigger] bc.accepts(x, y) == once_both_accepts(b, c, x, y),
        forall|x: T, y: U| #[trigger] bc.performs(x, y) == once_both_performs(b, c, x, y),
    ensures
        once_both_accepts(ab, c, t, u) == once_both_accepts(a, bc, t, u),
        once_both_performs(ab, c, t, u) == once_both_performs(a, bc, t, u),
{
}

/// A single-use consumer that acts only where a predicate holds.
pub open spec fn once_guarded_accepts<T, U, P: BiPredicate<T, U>, C: BiConsumerOnce<T, U>>(p: P, c: C, t: T, u: U) -> bool {
    &&& p.accepts(t, u)
    &&& forall|b: bool| #[trigger] p.produces(t, u, b) ==> (b ==> c.accepts(t, u))
}

/// A single-use consumer that acts only where a predicate holds: some answer
/// of the predicate was given, and the consumer did its part if it was `true`.
pub open spec fn once_guarded_performs<T, U, P: BiPredicate<T, U>, C: BiConsumerOnce<T, U>>(p: P, c: C, t: T, u: U) -> bool {
    exists|b: bool| #[trigger] p.produces(t, u, b) && (b ==> c.performs(t, u))
}

/// A choice between two single-use consumers by a predicate.
pub open spec fn once_choice_accepts<T, U, P: BiPredicate<T, U>, C: BiConsumerOnce<T, U>, E: BiConsumerOnce<T, U>>(
    p: P,
    c: C,
    e: E,
    t: T,
    u: U,
) -> bool {
    &&& p.accepts(t, u)
    &&& forall|b: bool| #[trigger] p.produces(t, u, b) ==> if b {
        c.accepts(t, u)
    } else {
        e.accepts(t, u)
    }
}

/// A choice between two single-use consumers by a predicate: some answer of
/// the predicate was given, and the consumer it selects did its part.
pub open spec fn once_choice_performs<T, U, P: BiPredicate<T, U>, C: BiConsumerOnce<T, U>, E: BiConsumerOnce<T, U>>(
    p: P,
    c: C,
    e: E,
    t: T,
    u: U,
) -> bool {
    exists|b: bool| #[trigger] p.produces(t, u, b) && if b {
        c.performs(t, u)
    } else {
        e.performs(t, u)
    }
}

/// A single-use consumer in a box.
#[verifier::reject_recursive_types(T)]
#[verifier::reject_recursive_types(U)]
pub struct BoxBiConsumerOnce<T, U> {
    function: Box<dyn CallOnce2<T, U, ()>>,
    name: Option<String>,
}

impl<T, U> BoxBiConsumerOnce<T, U> {
    pub closed spec fn accepts(&self, t: T, u: U) -> bool {
        self.function.pre(t, u)
    }

    pub closed spec fn performs(&self, t: T, u: U) -> bool {
        self.function.post(t, u, ())
    }

    pub closed spec fn spec_name(&self) -> Option<Seq<char>> {
        name_view(self.name)
    }

    pub(crate) fn from_call_once<C: CallOnce2<T, U, ()> + 'static>(c: C, name: Option<String>) -> (res: Self)
        ensures
            forall|t: T, u: U| #[trigger] res.accepts(t, u) == c.pre(t, u),
            forall|t: T, u: U| #[trigger] res.performs(t, u) == c.post(t, u, ()),
            res.spec_name() == name_view(name),
    {
        let function: Box<dyn CallOnce2<T, U, ()>> = Box::new(c);
        assert(forall|t: T, u: U| #[trigger] function.pre(t, u) == c.pre(t, u));
        assert(forall|t: T, u: U| #[trigger] function.post(t, u, ()) == c.post(t, u, ()));
        BoxBiConsumerOnce { function, name }
    }

    /// Wraps the closure `f`.
    pub fn new<F>(f: F) -> (res: Self)
        where
            F: FnOnce(&T, &U) + 'static,
        ensures
            forall|t: T, u: U| #[trigger] res.accepts(t, u) == call_requires(f, (&t, &u)),
            forall|t: T, u: U| #[trigger] res.performs(t, u) == call_ensures(f, (&t, &u), ()),
            res.spec_name() is None,
    {
        Self::from_call_once(f, None)
    }

    /// Wraps the closure `f` under the name `name`.
    pub fn new_with_name<F>(name: &str, f: F) -> (res: Self)
        where
            F: FnOnce(&T, &U) + 'static,
        ensures
            forall|t: T, u: U| #[trigger] res.accepts(t, u) == call_requires(f, (&t, &u)),
            forall|t: T, u: U| #[trigger] res.performs(t, u) == call_ensures(f, (&t, &u), ()),
            res.spec_name() == Some(name@),
    {
        Self::from_call_once(f, owned_name(name))
    }

    /// Wraps the closure `f` under the name `name`, if there is one.
    pub fn new_with_optional_name<F>(f: F, name: Option<String>) -> (res: Self)
        where
            F: FnOnce(&T, &U) + 'static,
        ensures
            forall|t: T, u: U| #[trigger] res.accepts(t, u) == call_requires(f, (&t, &u)),
            forall|t: T, u: U| #[trigger] res.performs(t, u) == call_ensures(f, (&t, &u), ()),
            res.spec_name() == name_view(name),
    {
        Self::from_call_once(f, name)
    }

    /// A consumer that does nothing.
    pub fn noop() -> (res: Self)
        ensures
            forall|t: T, u: U| #[trigger] res.accepts(t, u),
            forall|t: T, u: U| #[trigger] res.performs(t, u),
            res.spec_name() is None,
    {
        Self::from_call_once(Noop, None)
    }

    /// The name of this consumer, if it has one.
    pub fn name(&self) -> (res: Option<&str>)
        ensures
            match res {
                Some(s) => self.spec_name() == Some(s@),
                None => self.spec_name() is None,
            },
    {
        name_str(&self.name)
    }

    /// Gives this consumer the name `name`; its behaviour stays the same.
    pub fn set_name(&mut self, name: &str)
        ensures
            final(self).spec_name() == Some(name@),
            forall|t: T, u: U| #[trigger] final(self).accepts(t, u) == old(self).accepts(t, u),
            forall|t: T, u: U| #[trigger] final(self).performs(t, u) == old(self).performs(t, u),
    {
        self.name = owned_name(name);
    }

    /// Restricts this consumer to the values on which `predicate` holds.
    pub fn when<P>(self, predicate: P) -> (res: BoxConditionalBiConsumerOnce<T, U>)
        where
            P: BiPredicate<T, U> + 'static,
            T: 'static,
            U: 'static,
        ensures
            res.consumer() == self,
            forall|t: T, u: U| predicate.accepts(t, u) ==> #[trigger] res.predicate().accepts(t, u),
            forall|t: T, u: U, b: bool| #[trigger] res.predicate().produces(t, u, b) ==> predicate.produces(t, u, b),
    {
        BoxConditionalBiConsumerOnce { consumer: self, predicate: predicate.into_box() }
    }

    /// This consumer followed by `after`, on the same value.
    pub fn and_then<C>(self, after: C) -> (res: BoxBiConsumerOnce<T, U>)
        where
            C: BiConsumerOnce<T, U> + 'static,
            T: 'static,
            U: 'static,
        ensures
            forall|t: T, u: U| #[trigger] res.accepts(t, u) == once_both_accepts(self, after, t, u),
            forall|t: T, u: U| #[trigger] res.performs(t, u) == once_both_performs(self, after, t, u),
            res.spec_name() is None,
    {
        BoxBiConsumerOnce::from_call_once(BothOnce { first: self, second: after }, None)
    }

    /// This consumer as a plain closure.
    pub fn into_fn(self) -> (res: impl FnOnce(&T, &U))
        ensures
            forall|t: T, u: U| self.accepts(t, u) ==> call_requires(res, (&t, &u)),
            forall|t: T, u: U| call_ensures(res, (&t, &u), ()) ==> self.performs(t, u),
    {
        move |t: &T, u: &U|
            requires
                self.accepts(*t, *u),
            ensures
                self.performs(*t, *u),
        {
            self.function.call_once(t, u)
        }
    }
}

impl<T, U> BiConsumerOnce<T, U> for BoxBiConsumerOnce<T, U> {
    open spec fn accepts(&self, t: T, u: U) -> bool {
        BoxBiConsumerOnce::accepts(self, t, u)
    }

    open spec fn performs(&self, t: T, u: U) -> bool {
        BoxBiConsumerOnce::performs(self, t, u)
    }

    fn accept(self, first: &T, second: &U) {
        self.function.call_once(first, second)
    }

    fn into_box(self) -> (res: BoxBiConsumerOnce<T, U>)
        where
            Self: Sized + 'static,
            T: 'static,
            U: 'static,
    {
        self
    }
}

/// Sequencing for plain single-use closures.
pub trait FnBiConsumerOnceOps<T, U>: FnOnce(&T, &U) + Sized {
    /// This closure followed by `next`, on the same value.
    fn and_then<C>(self, next: C) -> (res: BoxBiConsumerOnce<T, U>)
        where
            Self: 'static,
            C: BiConsumerOnce<T, U> + 'static,
            T: 'static,
            U: 'static,
        ensures
            forall|t: T, u: U| #[trigger] res.accepts(t, u) == once_both_accepts(self, next, t, u),
            forall|t: T, u: U| #[trigger] res.performs(t, u) == once_both_performs(self, next, t, u),
    {
        BoxBiConsumerOnce::from_call_once(BothOnce { first: self, second: next }, None)
    }
}

impl<T, U, F: FnOnce(&T, &U)> FnBiConsumerOnceOps<T, U> for F {

}

/// A [`BoxBiConsumerOnce`] that acts only on the values that a predicate
/// accepts.
#[verifier::reject_recursive_types(T)]
#[verifier::reject_recursive_types(U)]
pub struct BoxConditionalBiConsumerOnce<T, U> {
    consumer: BoxBiConsumerOnce<T, U>,
    predicate: BoxBiPredicate<T, U>,
}

impl<T: 'static, U: 'static> BoxConditionalBiConsumerOnce<T, U> {
    pub closed spec fn consumer(&self) -> BoxBiConsumerOnce<T, U> {
        self.consumer
    }

    pub closed spec fn predicate(&self) -> BoxBiPredicate<T, U> {
        self.predicate
    }

    /// This conditional consumer followed by `next`, which acts on every
    /// value.
    pub fn and_then<C>(self, next: C) -> (res: BoxBiConsumerOnce<T, U>)
        where
            C: BiConsumerOnce<T, U> + 'static,
        ensures
            forall|t: T, u: U| #[trigger] res.accepts(t, u) == once_both_accepts(self, next, t, u),
            forall|t: T, u: U| #[trigger] res.performs(t, u) == once_both_performs(self, next, t, u),
            res.spec_name() is None,
    {
        BoxBiConsumerOnce::from_call_once(BothOnce { first: self, second: next }, None)
    }

    /// The consumer that runs the guarded consumer where the predicate
    /// holds and `else_consumer` elsewhere.
    pub fn or_else<C>(self, else_consumer: C) -> (res: BoxBiConsumerOnce<T, U>)
        where
            C: BiConsumerOnce<T, U> + 'static,
        ensures
            forall|t: T, u: U| #[trigger] res.accepts(t, u) == once_choice_accepts(self.predicate(), self.consumer(), else_consumer, t, u),
            forall|t: T, u: U| #[trigger] res.performs(t, u) == once_choice_performs(self.predicate(), self.consumer(), else_consumer, t, u),
            res.spec_name() is None,
    {
        BoxBiConsumerOnce::from_call_once(
            ChooseOnce { predicate: self.predicate, on_true: self.consumer, on_false: else_consumer },
            None,
        )
    }
}

impl<T: 'static, U: 'static> BiConsumerOnce<T, U> for BoxConditionalBiConsumerOnce<T, U> {
    open spec fn accepts(&self, t: T, u: U) -> bool {
        once_guarded_accepts(self.predicate(), self.consumer(), t, u)
    }

    open spec fn performs(&self, t: T, u: U) -> bool {
        once_guarded_performs(self.predicate(), self.consumer(), t, u)
    }

    fn accept(self, first: &T, second: &U) {
        if self.predicate.test(first, second) {
            self.consumer.accept(first, second);
        }
    }

    fn into_box(self) -> (res: BoxBiConsumerOnce<T, U>)
        where
            Self: Sized + 'static,
            T: 'static,
            U: 'static,
        ensures
            forall|t: T, u: U| #[trigger] res.accepts(t, u) == self.accepts(t, u),
            forall|t: T, u: U| #[trigger] res.performs(t, u) == self.performs(t, u),
            res.spec_name() is None,
    {
        BoxBiConsumerOnce::from_call_once(self, None)
    }
}

impl<T: 'static, U: 'static> CallOnce2<T, U, ()> for BoxConditionalBiConsumerOnce<T, U> {
    closed spec fn pre(&self, t: T, u: U) -> bool {
        self.accepts(t, u)
    }

    closed spec fn post(&self, t: T, u: U, r: ()) -> bool {
        self.performs(t, u)
    }

    fn call_once(self: Box<Self>, t: &T, u: &U) {
        let c = *self;
        c.accept(t, u)
    }
}

impl<T: 'static, U: 'static> BoxConditionalBiConsumerOnce<T, U> {
    /// This conditional consumer as a plain closure.
    pub fn into_fn(self) -> (res: impl FnOnce(&T, &U))
        ensures
            forall|t: T, u: U| self.accepts(t, u) ==> call_requires(res, (&t, &u)),
            forall|t: T, u: U| call_ensures(res, (&t, &u), ()) ==> self.performs(t, u),
    {
        move |t: &T, u: &U|
            requires
                self.accepts(*t, *u),
            ensures
                self.performs(*t, *u),
        {
            self.accept(t, u)
        }
    }
}

/// Runs `first`, then `second`, on the same value; each at most once.
struct BothOnce<C, D> {
    first: C,
    second: D,
}

impl<T, U, C: BiConsumerOnce<T, U>, D: BiConsumerOnce<T, U>> CallOnce2<T, U, ()> for BothOnce<C, D> {
    closed spec fn pre(&self, t: T, u: U) -> bool {
        once_both_accepts(self.first, self.second, t, u)
    }

    closed spec fn post(&self, t: T, u: U, r: ()) -> bool {
        once_both_performs(self.first, self.second, t, u)
    }

    fn call_once(self: Box<Self>, t: &T, u: &U) {
        let BothOnce { first, second } = *self;
        first.accept(t, u);
        second.accept(t, u);
    }
}

/// Runs `on_true` or `on_false` on the value, as `predicate` selects.
struct ChooseOnce<P, C, E> {
    predicate: P,
    on_true: C,
    on_false: E,
}

impl<T, U, P: BiPredicate<T, U>, C: BiConsumerOnce<T, U>, E: BiConsumerOnce<T, U>> CallOnce2<T, U, ()> for ChooseOnce<P, C, E> {
    closed spec fn pre(&self, t: T, u: U) -> bool {
        once_choice_accepts(self.predicate, self.on_true, self.on_false, t, u)
    }

    closed spec fn post(&self, t: T, u: U, r: ()) -> bool {
        once_choice_performs(self.predicate, self.on_true, self.on_false, t, u)
    }

    fn call_once(self: Box<Self>, t: &T, u: &U) {
        let ChooseOnce { predicate, on_true, on_false } = *self;
        if predicate.test(t, u) {
            on_true.accept(t, u);
        } else {
            on_false.accept(t, u);
        }
    }
}

} // verus!
