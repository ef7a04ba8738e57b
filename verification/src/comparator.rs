//! Comparators (`Fn(&T, &T) -> Ordering`) in boxed, `Rc` and `Arc` flavours,
//! with reversal, lexicographic chaining and key extraction.
use std::cmp::Ordering;
use std::rc::Rc;
use std::sync::Arc;
use vstd::prelude::*;

use crate::callable::{Call2, SyncCall2};
use vstd::std_specs::cmp::OrdSpec;

verus! {

/// The outcome of a comparison, as the comparators of this crate carry it.
#[derive(Clone, Copy, PartialEq, Eq, Structural, Debug)]
pub enum Order {
    Less,
    Equal,
    Greater,
}

/// The [`Order`] that a standard [`Ordering`] stands for.
pub open spec fn order_of(o: Ordering) -> Order {
    match o {
        Ordering::Less => Order::Less,
        Ordering::Equal => Order::Equal,
        Ordering::Greater => Order::Greater,
    }
}

/// The order with the two sides swapped.
pub open spec fn flipped(o: Order) -> Order {
    match o {
        Order::Less => Order::Greater,
        Order::Equal => Order::Equal,
        Order::Greater => Order::Less,
    }
}

impl Order {
    /// The [`Order`] that `o` stands for.
    pub fn from_ordering(o: Ordering) -> (res: Order)
        ensures
            res == order_of(o),
    {
        match o {
            Ordering::Less => Order::Less,
            Ordering::Equal => Order::Equal,
            Ordering::Greater => Order::Greater,
        }
    }

    /// The standard [`Ordering`] that this order stands for.
    pub fn to_ordering(self) -> (res: Ordering)
        ensures
            order_of(res) == self,
    {
        match self {
            Order::Less => Ordering::Less,
            Order::Equal => Ordering::Equal,
            Order::Greater => Ordering::Greater,
        }
    }
}

/// A comparison of two values of type `T`.
///
/// `accepts(a, b)` is what a caller must establish before comparing `a`
/// with `b`; `orders(a, b, o)` says that `o` is a possible outcome.
pub trait Comparator<T> {
    spec fn accepts(&self, a: T, b: T) -> bool;

    spec fn orders(&self, a: T, b: T, o: Order) -> bool;

    /// Compares `a` with `b`.
    fn compare_order(&self, a: &T, b: &T) -> (o: Order)
        requires
            self.accepts(*a, *b),
        ensures
            self.orders(*a, *b, o),
    ;

    /// Compares `a` with `b`, giving a standard [`Ordering`].
    fn compare(&self, a: &T, b: &T) -> (o: Ordering)
        requires
            self.accepts(*a, *b),
        ensures
            self.orders(*a, *b, order_of(o)),
    {
        self.compare_order(a, b).to_ordering()
    }

    /// Moves this comparator into a [`BoxComparator`] that calls it.
    fn into_box(self) -> (res: BoxComparator<T>)
        where
            Self: Sized + 'static,
            T: 'static,
        ensures
            forall|a: T, b: T| self.accepts(a, b) ==> #[trigger] res.accepts(a, b),
            forall|a: T, b: T, o: Order| #[trigger] res.orders(a, b, o) ==> self.orders(a, b, o),
    {
        let f = move |a: &T, b: &T| -> (o: Order)
            requires
                self.accepts(*a, *b),
            ensures
                self.orders(*a, *b, o),
        {
            self.compare_order(a, b)
        };
        BoxComparator::from_fn(f)
    }

    /// Moves this comparator into an [`ArcComparator`] that calls it.
    fn into_arc(self) -> (res: ArcComparator<T>)
        where
            Self: Sized + Send + Sync + 'static,
            T: 'static,
        ensures
            forall|a: T, b: T| self.accepts(a, b) ==> #[trigger] res.accepts(a, b),
            forall|a: T, b: T, o: Order| #[trigger] res.orders(a, b, o) ==> self.orders(a, b, o),
    {
        let f = move |a: &T, b: &T| -> (o: Order)
            requires
                self.accepts(*a, *b),
            ensures
                self.orders(*a, *b, o),
        {
            self.compare_order(a, b)
        };
        ArcComparator::from_fn(f)
    }

    /// Moves this comparator into an [`RcComparator`] that calls it.
    fn into_rc(self) -> (res: RcComparator<T>)
        where
            Self: Sized + 'static,
            T: 'static,
        ensures
            forall|a: T, b: T| self.accepts(a, b) ==> #[trigger] res.accepts(a, b),
            forall|a: T, b: T, o: Order| #[trigger] res.orders(a, b, o) ==> self.orders(a, b, o),
    {
        let f = move |a: &T, b: &T| -> (o: Order)
            requires
                self.accepts(*a, *b),
            ensures
                self.orders(*a, *b, o),
        {
            self.compare_order(a, b)
        };
        RcComparator::from_fn(f)
    }
}

/// The reversed comparator is defined at `a`, `b` when `c` is at `b`, `a`.
pub open spec fn reversed_accepts<T, C: Comparator<T>>(c: C, a: T, b: T) -> bool {
    c.accepts(b, a)
}

/// The reversed comparator may give `o` for `a`, `b` when `c` may give it
/// for `b`, `a`.
pub open spec fn reversed_orders<T, C: Comparator<T>>(c: C, a: T, b: T, o: Order) -> bool {
    c.orders(b, a, o)
}

/// `first`, then `second` on ties: defined when `first` is, and `second` is
/// wherever `first` may report a tie.
pub open spec fn chained_accepts<T, C: Comparator<T>, D: Comparator<T>>(first: C, second: D, a: T, b: T) -> bool {
    &&& first.accepts(a, b)
    &&& first.orders(a, b, Order::Equal) ==> second.accepts(a, b)
}

/// `first`, then `second` on ties: `o` is a possible outcome when `first`
/// may give `o` and `o` is not a tie, or `first` may tie and `second` may
/// give `o`.
pub open spec fn chained_orders<T, C: Comparator<T>, D: Comparator<T>>(
    first: C,
    second: D,
    a: T,
    b: T,
    o: Order,
) -> bool {
    ||| o != Order::Equal && first.orders(a, b, o)
    ||| first.orders(a, b, Order::Equal) && second.orders(a, b, o)
}

/// Reversing twice gives back the comparison: where `r` behaves as `c`
/// reversed (as the result of `reversed` does), `r` reversed accepts and
/// orders every pair as `c` does.
pub proof fn law_reversed_twice<T, C, R>(c: C, r: R, a: T, b: T, o: Order)
    where
        C: Comparator<T>,
        R: Comparator<T>,
    requires
        forall|x: T, y: T| #[trigger] r.accepts(x, y) == reversed_accepts(c, x, y),
        forall|x: T, y: T, p: Order| #[trigger] r.orders(x, y, p) == reversed_orders(c, x, y, p),
    ensures
        reversed_accepts(r, a, b) == c.accepts(a, b),
        reversed_orders(r, a, b, o) == c.orders(a, b, o),
{
}

/// Reversing an antisymmetric comparison (one that orders `b`, `a` as the
/// flip of how it orders `a`, `b`) flips each of its outcomes.
pub proof fn law_reversed_flips<T, C>(c: C, a: T, b: T, o: Order)
    where
        C: Comparator<T>,
    requires
        forall|x: T, y: T, p: Order| #[trigger] c.orders(y, x, p) == c.orders(x, y, flipped(p)),
    ensures
        reversed_orders(c, a, b, o) == c.orders(a, b, flipped(o)),
{
}

/// Chaining is associative: `ab` then `c` and `a` then `bc` accept and order
/// every pair alike, where `ab` behaves as `a` then `b` and `bc` as `b` then
/// `c` (as the result of `then_comparing` does).
pub proof fn law_then_comparing_associative<T, A, B, C, AB, BC>(
    a: A,
    b: B,
    c: C,
    ab: AB,
    bc: BC,
    x: T,
    y: T,
    o: Order,
)
    where
        A: Comparator<T>,
        B: Comparator<T>,
        C: Comparator<T>,
        AB: Comparator<T>,
        BC: Comparator<T>,
    requires
        forall|p: T, q: T| #[trigger] ab.accepts(p, q) == chained_accepts(a, b, p, q),
        forall|p: T, q: T, s: Order| #[trigger] ab.orders(p, q, s) == chained_orders(a, b, p, q, s),
        forall|p: T, q: T| #[trigger] bc.accepts(p, q) == chained_accepts(b, c, p, q),
        forall|p: T, q: T, s: Order| #[trigger] bc.orders(p, q, s) == chained_orders(b, c, p, q, s),
    ensures
        chained_accepts(ab, c, x, y) == chained_accepts(a, bc, x, y),
        chained_orders(ab, c, x, y, o) == chained_orders(a, bc, x, y, o),
{
}

/// Reversal distributes over chaining: `ab` reversed accepts and orders
/// every pair as `a` reversed then `b` reversed, where `ab` behaves as `a`
/// then `b`, and `ra` and `rb` as `a` and `b` reversed.
pub proof fn law_reversed_then_comparing<T, A, B, AB, RA, RB>(
    a: A,
    b: B,
    ab: AB,
    ra: RA,
    rb: RB,
    x: T,
    y: T,
    o: Order,
)
    where
        A: Comparator<T>,
        B: Comparator<T>,
        AB: Comparator<T>,
        RA: Comparator<T>,
        RB: Comparator<T>,
    requires
        forall|p: T, q: T| #[trigger] ab.accepts(p, q) == chained_accepts(a, b, p, q),
        forall|p: T, q: T, s: Order| #[trigger] ab.orders(p, q, s) == chained_orders(a, b, p, q, s),
        forall|p: T, q: T| #[trigger] ra.accepts(p, q) == reversed_accepts(a, p, q),
        forall|p: T, q: T, s: Order| #[trigger] ra.orders(p, q, s) == reversed_orders(a, p, q, s),
        forall|p: T, q: T| #[trigger] rb.accepts(p, q) == reversed_accepts(b, p, q),
        forall|p: T, q: T, s: Order| #[trigger] rb.orders(p, q, s) == reversed_orders(b, p, q, s),
    ensures
        reversed_accepts(ab, x, y) == chained_accepts(ra, rb, x, y),
        reversed_orders(ab, x, y, o) == chained_orders(ra, rb, x, y, o),
{
}

/// Compares with `inner`, with the two sides swapped.
struct Reversed<C> {
    inner: C,
}

impl<T, C: Comparator<T>> Call2<T, T, Order> for Reversed<C> {
    closed spec fn pre(&self, a: T, b: T) -> bool {
        reversed_accepts(self.inner, a, b)
    }

    closed spec fn post(&self, a: T, b: T, o: Order) -> bool {
        reversed_orders(self.inner, a, b, o)
    }

    fn call(&self, a: &T, b: &T) -> (o: Order) {
        self.inner.compare_order(b, a)
    }
}

/// Compares with `first`, and with `second` where `first` ties.
struct Chained<C, D> {
    first: C,
    second: D,
}

impl<T, C: Comparator<T>, D: Comparator<T>> Call2<T, T, Order> for Chained<C, D> {
    closed spec fn pre(&self, a: T, b: T) -> bool {
        chained_accepts(self.first, self.second, a, b)
    }

    closed spec fn post(&self, a: T, b: T, o: Order) -> bool {
        chained_orders(self.first, self.second, a, b, o)
    }

    fn call(&self, a: &T, b: &T) -> (o: Order) {
        match self.first.compare_order(a, b) {
            Order::Equal => self.second.compare_order(a, b),
            o => o,
        }
    }
}

/// A comparator in a box: single ownership.
#[verifier::reject_recursive_types(T)]
pub struct BoxComparator<T> {
    function: Box<dyn Call2<T, T, Order>>,
}

impl<T> BoxComparator<T> {
    pub closed spec fn accepts(&self, a: T, b: T) -> bool {
        self.function.pre(a, b)
    }

    pub closed spec fn orders(&self, a: T, b: T, o: Order) -> bool {
        self.function.post(a, b, o)
    }

    fn from_call<C: Call2<T, T, Order> + 'static>(c: C) -> (res: Self)
        ensures
            forall|a: T, b: T| #[trigger] res.accepts(a, b) == c.pre(a, b),
            forall|a: T, b: T, o: Order| #[trigger] res.orders(a, b, o) == c.post(a, b, o),
    {
        let function: Box<dyn Call2<T, T, Order>> = Box::new(c);
        assert(forall|a: T, b: T| #[trigger] function.pre(a, b) == c.pre(a, b));
        assert(forall|a: T, b: T, o: Order| #[trigger] function.post(a, b, o) == c.post(a, b, o));
        BoxComparator { function }
    }

    fn from_fn<F: Fn(&T, &T) -> Order + 'static>(f: F) -> (res: Self)
        ensures
            forall|a: T, b: T| #[trigger] res.accepts(a, b) == call_requires(f, (&a, &b)),
            forall|a: T, b: T, o: Order| #[trigger] res.orders(a, b, o) == call_ensures(f, (&a, &b), o),
    {
        Self::from_call(f)
    }

    /// Wraps the closure `f`.
    pub fn new<F>(f: F) -> (res: Self)
        where
            F: Fn(&T, &T) -> Ordering + 'static,
        ensures
            forall|a: T, b: T| call_requires(f, (&a, &b)) ==> #[trigger] res.accepts(a, b),
            forall|a: T, b: T, o: Order|
                #[trigger] res.orders(a, b, o) ==> exists|x: Ordering| call_ensures(f, (&a, &b), x) && o == order_of(x),
    {
        let g = move |a: &T, b: &T| -> (o: Order)
            requires
                call_requires(&f, (a, b)),
            ensures
                exists|x: Ordering| call_ensures(&f, (a, b), x) && o == order_of(x),
        {
            Order::from_ordering(f(a, b))
        };
        Self::from_fn(g)
    }

    /// This comparator with the two sides swapped.
    pub fn reversed(self) -> (res: Self)
        where
            T: 'static,
        ensures
            forall|a: T, b: T| #[trigger] res.accepts(a, b) == reversed_accepts(self, a, b),
            forall|a: T, b: T, o: Order| #[trigger] res.orders(a, b, o) == reversed_orders(self, a, b, o),
    {
        Self::from_call(Reversed { inner: self })
    }

    /// This comparator, and `other` where this one ties.
    pub fn then_comparing(self, other: Self) -> (res: Self)
        where
            T: 'static,
        ensures
            forall|a: T, b: T| #[trigger] res.accepts(a, b) == chained_accepts(self, other, a, b),
            forall|a: T, b: T, o: Order| #[trigger] res.orders(a, b, o) == chained_orders(self, other, a, b, o),
    {
        Self::from_call(Chained { first: self, second: other })
    }

    /// Compares the keys that `key_fn` extracts, by their natural order.
    pub fn comparing<K, F>(key_fn: F) -> (res: Self)
        where
            K: Ord,
            F: Fn(&T) -> &K + 'static,
        ensures
            forall|a: T, b: T|
                call_requires(key_fn, (&a,)) && call_requires(key_fn, (&b,)) ==> #[trigger] res.accepts(a, b),
            forall|a: T, b: T, o: Order|
                #[trigger] res.orders(a, b, o) ==> exists|ka: &K, kb: &K|
                    call_ensures(key_fn, (&a,), ka) && call_ensures(key_fn, (&b,), kb) && (K::obeys_cmp_spec()
                        ==> o == order_of((*ka).cmp_spec(kb))),
    {
        let g = move |a: &T, b: &T| -> (o: Order)
            requires
                call_requires(&key_fn, (a,)),
                call_requires(&key_fn, (b,)),
            ensures
                exists|ka: &K, kb: &K|
                    call_ensures(&key_fn, (a,), ka) && call_ensures(&key_fn, (b,), kb) && (K::obeys_cmp_spec()
                        ==> o == order_of((*ka).cmp_spec(kb))),
        {
            let ka = key_fn(a);
            let kb = key_fn(b);
            let c = ka.cmp(kb);
            let res = Order::from_ordering(c);
            assert(call_ensures(&key_fn, (a,), ka) && call_ensures(&key_fn, (b,), kb) && (K::obeys_cmp_spec()
                ==> res == order_of((*ka).cmp_spec(kb))));
            res
        };
        Self::from_fn(g)
    }

    /// This comparator as a plain closure.
    pub fn into_fn(self) -> (res: impl Fn(&T, &T) -> Ordering)
        ensures
            forall|a: T, b: T| self.accepts(a, b) ==> call_requires(res, (&a, &b)),
            forall|a: T, b: T, o: Ordering| call_ensures(res, (&a, &b), o) ==> self.orders(a, b, order_of(o)),
    {
        move |a: &T, b: &T| -> (o: Ordering)
            requires
                self.accepts(*a, *b),
            ensures
                self.orders(*a, *b, order_of(o)),
        {
            self.function.call(a, b).to_ordering()
        }
    }
}

impl<T> Comparator<T> for BoxComparator<T> {
    open spec fn accepts(&self, a: T, b: T) -> bool {
        BoxComparator::accepts(self, a, b)
    }

    open spec fn orders(&self, a: T, b: T, o: Order) -> bool {
        BoxComparator::orders(self, a, b, o)
    }

    fn compare_order(&self, a: &T, b: &T) -> (o: Order) {
        self.function.call(a, b)
    }

    fn into_box(self) -> (res: BoxComparator<T>)
        where
            Self: Sized + 'static,
            T: 'static,
    {
        self
    }

    fn into_rc(self) -> (res: RcComparator<T>)
        where
            Self: Sized + 'static,
            T: 'static,
        ensures
            forall|a: T, b: T| #[trigger] res.accepts(a, b) == self.accepts(a, b),
            forall|a: T, b: T, o: Order| #[trigger] res.orders(a, b, o) == self.orders(a, b, o),
    {
        RcComparator { function: Rc::new(self.function) }
    }
}

/// A comparator behind an `Rc`: shared, single-threaded.
#[verifier::reject_recursive_types(T)]
pub struct RcComparator<T> {
    function: Rc<Box<dyn Call2<T, T, Order>>>,
}

impl<T> RcComparator<T> {
    pub closed spec fn accepts(&self, a: T, b: T) -> bool {
        self.function.pre(a, b)
    }

    pub closed spec fn orders(&self, a: T, b: T, o: Order) -> bool {
        self.function.post(a, b, o)
    }

    fn from_call<C: Call2<T, T, Order> + 'static>(c: C) -> (res: Self)
        ensures
            forall|a: T, b: T| #[trigger] res.accepts(a, b) == c.pre(a, b),
            forall|a: T, b: T, o: Order| #[trigger] res.orders(a, b, o) == c.post(a, b, o),
    {
        let function: Box<dyn Call2<T, T, Order>> = Box::new(c);
        assert(forall|a: T, b: T| #[trigger] function.pre(a, b) == c.pre(a, b));
        assert(forall|a: T, b: T, o: Order| #[trigger] function.post(a, b, o) == c.post(a, b, o));
        RcComparator { function: Rc::new(function) }
    }

    fn from_fn<F: Fn(&T, &T) -> Order + 'static>(f: F) -> (res: Self)
        ensures
            forall|a: T, b: T| #[trigger] res.accepts(a, b) == call_requires(f, (&a, &b)),
            forall|a: T, b: T, o: Order| #[trigger] res.orders(a, b, o) == call_ensures(f, (&a, &b), o),
    {
        Self::from_call(f)
    }

    fn duplicate(&self) -> (res: Self)
        ensures
            res == *self,
    {
        RcComparator { function: self.function.clone() }
    }

    /// Wraps the closure `f`.
    pub fn new<F>(f: F) -> (res: Self)
        where
            F: Fn(&T, &T) -> Ordering + 'static,
        ensures
            forall|a: T, b: T| call_requires(f, (&a, &b)) ==> #[trigger] res.accepts(a, b),
            forall|a: T, b: T, o: Order|
                #[trigger] res.orders(a, b, o) ==> exists|x: Ordering| call_ensures(f, (&a, &b), x) && o == order_of(x),
    {
        let g = move |a: &T, b: &T| -> (o: Order)
            requires
                call_requires(&f, (a, b)),
            ensures
                exists|x: Ordering| call_ensures(&f, (a, b), x) && o == order_of(x),
        {
            Order::from_ordering(f(a, b))
        };
        Self::from_fn(g)
    }

    /// A comparator that compares as this one with the two sides swapped.
    pub fn reversed(&self) -> (res: Self)
        where
            T: 'static,
        ensures
            forall|a: T, b: T| #[trigger] res.accepts(a, b) == reversed_accepts(*self, a, b),
            forall|a: T, b: T, o: Order| #[trigger] res.orders(a, b, o) == reversed_orders(*self, a, b, o),
    {
        Self::from_call(Reversed { inner: self.duplicate() })
    }

    /// A comparator that compares as this one, and as `other` where this
    /// one ties.
    pub fn then_comparing(&self, other: &Self) -> (res: Self)
        where
            T: 'static,
        ensures
            forall|a: T, b: T| #[trigger] res.accepts(a, b) == chained_accepts(*self, *other, a, b),
            forall|a: T, b: T, o: Order| #[trigger] res.orders(a, b, o) == chained_orders(*self, *other, a, b, o),
    {
        Self::from_call(Chained { first: self.duplicate(), second: other.duplicate() })
    }

    /// Compares the keys that `key_fn` extracts, by their natural order.
    pub fn comparing<K, F>(key_fn: F) -> (res: Self)
        where
            K: Ord,
            F: Fn(&T) -> &K + 'static,
        ensures
            forall|a: T, b: T|
                call_requires(key_fn, (&a,)) && call_requires(key_fn, (&b,)) ==> #[trigger] res.accepts(a, b),
            forall|a: T, b: T, o: Order|
                #[trigger] res.orders(a, b, o) ==> exists|ka: &K, kb: &K|
                    call_ensures(key_fn, (&a,), ka) && call_ensures(key_fn, (&b,), kb) && (K::obeys_cmp_spec()
                        ==> o == order_of((*ka).cmp_spec(kb))),
    {
        let g = move |a: &T, b: &T| -> (o: Order)
            requires
                call_requires(&key_fn, (a,)),
                call_requires(&key_fn, (b,)),
            ensures
                exists|ka: &K, kb: &K|
                    call_ensures(&key_fn, (a,), ka) && call_ensures(&key_fn, (b,), kb) && (K::obeys_cmp_spec()
                        ==> o == order_of((*ka).cmp_spec(kb))),
        {
            let ka = key_fn(a);
            let kb = key_fn(b);
            let c = ka.cmp(kb);
            let res = Order::from_ordering(c);
            assert(call_ensures(&key_fn, (a,), ka) && call_ensures(&key_fn, (b,), kb) && (K::obeys_cmp_spec()
                ==> res == order_of((*ka).cmp_spec(kb))));
            res
        };
        Self::from_fn(g)
    }

    /// This comparator as a plain closure.
    pub fn into_fn(self) -> (res: impl Fn(&T, &T) -> Ordering)
        ensures
            forall|a: T, b: T| self.accepts(a, b) ==> call_requires(res, (&a, &b)),
            forall|a: T, b: T, o: Ordering| call_ensures(res, (&a, &b), o) ==> self.orders(a, b, order_of(o)),
    {
        move |a: &T, b: &T| -> (o: Ordering)
            requires
                self.accepts(*a, *b),
            ensures
                self.orders(*a, *b, order_of(o)),
        {
            self.function.call(a, b).to_ordering()
        }
    }
}

impl<T> Clone for RcComparator<T> {
    fn clone(&self) -> (res: Self)
        ensures
            res == *self,
    {
        self.duplicate()
    }
}

impl<T> Comparator<T> for RcComparator<T> {
    open spec fn accepts(&self, a: T, b: T) -> bool {
        RcComparator::accepts(self, a, b)
    }

    open spec fn orders(&self, a: T, b: T, o: Order) -> bool {
        RcComparator::orders(self, a, b, o)
    }

    fn compare_order(&self, a: &T, b: &T) -> (o: Order) {
        self.function.call(a, b)
    }

    fn into_box(self) -> (res: BoxComparator<T>)
        where
            Self: Sized + 'static,
            T: 'static,
        ensures
            forall|a: T, b: T| #[trigger] res.accepts(a, b) == self.accepts(a, b),
            forall|a: T, b: T, o: Order| #[trigger] res.orders(a, b, o) == self.orders(a, b, o),
    {
        BoxComparator::from_call(self)
    }

    fn into_rc(self) -> (res: RcComparator<T>)
        where
            Self: Sized + 'static,
            T: 'static,
    {
        self
    }
}

impl<T> Call2<T, T, Order> for RcComparator<T> {
    closed spec fn pre(&self, a: T, b: T) -> bool {
        self.accepts(a, b)
    }

    closed spec fn post(&self, a: T, b: T, o: Order) -> bool {
        self.orders(a, b, o)
    }

    fn call(&self, a: &T, b: &T) -> (o: Order) {
        self.function.call(a, b)
    }
}

/// A comparator behind an `Arc`: shared, thread-safe.
#[verifier::reject_recursive_types(T)]
pub struct ArcComparator<T> {
    function: Arc<Box<dyn SyncCall2<T, T, Order>>>,
}

impl<T> ArcComparator<T> {
    pub closed spec fn accepts(&self, a: T, b: T) -> bool {
        self.function.sync_pre(a, b)
    }

    pub closed spec fn orders(&self, a: T, b: T, o: Order) -> bool {
        self.function.sync_post(a, b, o)
    }

    fn from_call<C: Call2<T, T, Order> + Send + Sync + 'static>(c: C) -> (res: Self)
        ensures
            forall|a: T, b: T| #[trigger] res.accepts(a, b) == c.pre(a, b),
            forall|a: T, b: T, o: Order| #[trigger] res.orders(a, b, o) == c.post(a, b, o),
    {
        assert(forall|a: T, b: T| #[trigger] SyncCall2::<T, T, Order>::sync_pre(&c, a, b) == c.pre(a, b));
        assert(forall|a: T, b: T, o: Order| #[trigger] SyncCall2::<T, T, Order>::sync_post(&c, a, b, o) == c.post(a, b, o));
        let function: Box<dyn SyncCall2<T, T, Order>> = Box::new(c);
        assert(forall|a: T, b: T| #[trigger] function.sync_pre(a, b) == c.pre(a, b));
        assert(forall|a: T, b: T, o: Order| #[trigger] function.sync_post(a, b, o) == c.post(a, b, o));
        ArcComparator { function: Arc::new(function) }
    }

    fn from_fn<F: Fn(&T, &T) -> Order + Send + Sync + 'static>(f: F) -> (res: Self)
        ensures
            forall|a: T, b: T| #[trigger] res.accepts(a, b) == call_requires(f, (&a, &b)),
            forall|a: T, b: T, o: Order| #[trigger] res.orders(a, b, o) == call_ensures(f, (&a, &b), o),
    {
        Self::from_call(f)
    }

    fn duplicate(&self) -> (res: Self)
        ensures
            res == *self,
    {
        ArcComparator { function: self.function.clone() }
    }

    /// Wraps the closure `f`.
    pub fn new<F>(f: F) -> (res: Self)
        where
            F: Fn(&T, &T) -> Ordering + Send + Sync + 'static,
        ensures
            forall|a: T, b: T| call_requires(f, (&a, &b)) ==> #[trigger] res.accepts(a, b),
            forall|a: T, b: T, o: Order|
                #[trigger] res.orders(a, b, o) ==> exists|x: Ordering| call_ensures(f, (&a, &b), x) && o == order_of(x),
    {
        let g = move |a: &T, b: &T| -> (o: Order)
            requires
                call_requires(&f, (a, b)),
            ensures
                exists|x: Ordering| call_ensures(&f, (a, b), x) && o == order_of(x),
        {
            Order::from_ordering(f(a, b))
        };
        Self::from_fn(g)
    }

    /// A comparator that compares as this one with the two sides swapped.
    pub fn reversed(&self) -> (res: Self)
        where
            T: 'static,
        ensures
            forall|a: T, b: T| #[trigger] res.accepts(a, b) == reversed_accepts(*self, a, b),
            forall|a: T, b: T, o: Order| #[trigger] res.orders(a, b, o) == reversed_orders(*self, a, b, o),
    {
        Self::from_call(Reversed { inner: self.duplicate() })
    }

    /// A comparator that compares as this one, and as `other` where this
    /// one ties.
    pub fn then_comparing(&self, other: &Self) -> (res: Self)
        where
            T: 'static,
        ensures
            forall|a: T, b: T| #[trigger] res.accepts(a, b) == chained_accepts(*self, *other, a, b),
            forall|a: T, b: T, o: Order| #[trigger] res.orders(a, b, o) == chained_orders(*self, *other, a, b, o),
    {
        Self::from_call(Chained { first: self.duplicate(), second: other.duplicate() })
    }

    /// Compares the keys that `key_fn` extracts, by their natural order.
    pub fn comparing<K, F>(key_fn: F) -> (res: Self)
        where
            K: Ord,
            F: Fn(&T) -> &K + Send + Sync + 'static,
        ensures
            forall|a: T, b: T|
                call_requires(key_fn, (&a,)) && call_requires(key_fn, (&b,)) ==> #[trigger] res.accepts(a, b),
            forall|a: T, b: T, o: Order|
                #[trigger] res.orders(a, b, o) ==> exists|ka: &K, kb: &K|
                    call_ensures(key_fn, (&a,), ka) && call_ensures(key_fn, (&b,), kb) && (K::obeys_cmp_spec()
                        ==> o == order_of((*ka).cmp_spec(kb))),
    {
        let g = move |a: &T, b: &T| -> (o: Order)
            requires
                call_requires(&key_fn, (a,)),
                call_requires(&key_fn, (b,)),
            ensures
                exists|ka: &K, kb: &K|
                    call_ensures(&key_fn, (a,), ka) && call_ensures(&key_fn, (b,), kb) && (K::obeys_cmp_spec()
                        ==> o == order_of((*ka).cmp_spec(kb))),
        {
            let ka = key_fn(a);
            let kb = key_fn(b);
            let c = ka.cmp(kb);
            let res = Order::from_ordering(c);
            assert(call_ensures(&key_fn, (a,), ka) && call_ensures(&key_fn, (b,), kb) && (K::obeys_cmp_spec()
                ==> res == order_of((*ka).cmp_spec(kb))));
            res
        };
        Self::from_fn(g)
    }

    /// This comparator as a plain closure.
    pub fn into_fn(self) -> (res: impl Fn(&T, &T) -> Ordering)
        ensures
            forall|a: T, b: T| self.accepts(a, b) ==> call_requires(res, (&a, &b)),
            forall|a: T, b: T, o: Ordering| call_ensures(res, (&a, &b), o) ==> self.orders(a, b, order_of(o)),
    {
        move |a: &T, b: &T| -> (o: Ordering)
            requires
                self.accepts(*a, *b),
            ensures
                self.orders(*a, *b, order_of(o)),
        {
            self.function.sync_call(a, b).to_ordering()
        }
    }
}

impl<T> Clone for ArcComparator<T> {
    fn clone(&self) -> (res: Self)
        ensures
            res == *self,
    {
        self.duplicate()
    }
}

impl<T> Comparator<T> for ArcComparator<T> {
    open spec fn accepts(&self, a: T, b: T) -> bool {
        ArcComparator::accepts(self, a, b)
    }

    open spec fn orders(&self, a: T, b: T, o: Order) -> bool {
        ArcComparator::orders(self, a, b, o)
    }

    fn compare_order(&self, a: &T, b: &T) -> (o: Order) {
        self.function.sync_call(a, b)
    }

    fn into_box(self) -> (res: BoxComparator<T>)
        where
            Self: Sized + 'static,
            T: 'static,
        ensures
            forall|a: T, b: T| #[trigger] res.accepts(a, b) == self.accepts(a, b),
            forall|a: T, b: T, o: Order| #[trigger] res.orders(a, b, o) == self.orders(a, b, o),
    {
        BoxComparator::from_call(self)
    }

    fn into_arc(self) -> (res: ArcComparator<T>)
        where
            Self: Sized + Send + Sync + 'static,
            T: 'static,
    {
        self
    }

    fn into_rc(self) -> (res: RcComparator<T>)
        where
            Self: Sized + 'static,
            T: 'static,
        ensures
            forall|a: T, b: T| #[trigger] res.accepts(a, b) == self.accepts(a, b),
            forall|a: T, b: T, o: Order| #[trigger] res.orders(a, b, o) == self.orders(a, b, o),
    {
        RcComparator::from_call(self)
    }
}

impl<T> Call2<T, T, Order> for ArcComparator<T> {
    closed spec fn pre(&self, a: T, b: T) -> bool {
        self.accepts(a, b)
    }

    closed spec fn post(&self, a: T, b: T, o: Order) -> bool {
        self.orders(a, b, o)
    }

    fn call(&self, a: &T, b: &T) -> (o: Order) {
        self.function.sync_call(a, b)
    }
}

/// Reversal and chaining for plain comparison closures.
pub trait FnComparatorOps<T>: Sized {
    /// This closure with the two sides swapped, as a [`BoxComparator`].
    fn reversed(self) -> (res: BoxComparator<T>)
        where
            Self: Fn(&T, &T) -> Ordering + 'static,
            T: 'static,
        ensures
            forall|a: T, b: T| call_requires(self, (&b, &a)) ==> #[trigger] res.accepts(a, b),
            forall|a: T, b: T, o: Order|
                #[trigger] res.orders(a, b, o) ==> exists|x: Ordering| call_ensures(self, (&b, &a), x) && o == order_of(x),
    {
        BoxComparator::new(self).reversed()
    }

    /// This closure, and `other` where it ties, as a [`BoxComparator`].
    fn then_comparing(self, other: BoxComparator<T>) -> (res: BoxComparator<T>)
        where
            Self: Fn(&T, &T) -> Ordering + 'static,
            T: 'static,
        ensures
            forall|a: T, b: T|
                call_requires(self, (&a, &b)) && (forall|x: Ordering| call_ensures(self, (&a, &b), x) && x == Ordering::Equal
                    ==> other.accepts(a, b)) ==> #[trigger] res.accepts(a, b),
            forall|a: T, b: T, o: Order|
                #[trigger] res.orders(a, b, o) ==> exists|x: Ordering|
                    call_ensures(self, (&a, &b), x) && if x == Ordering::Equal {
                        other.orders(a, b, o)
                    } else {
                        o == order_of(x)
                    },
    {
        BoxComparator::new(self).then_comparing(other)
    }
}

impl<T, R, F: Fn(&T, &T) -> R> FnComparatorOps<T> for F {

}

} // verus!
