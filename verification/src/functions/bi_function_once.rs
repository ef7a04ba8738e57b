//! Functions of two arguments called at most once (`FnOnce(&T, &U) -> R`).
use vstd::prelude::*;

use crate::callable::CallOnce2;
use crate::functions::constant::Constant;
use crate::functions::function_once::FunctionOnce;
use crate::names::{clone_name, name_str, name_view, owned_name};
use crate::predicates::{BiPredicate, BoxBiPredicate};

verus! {

/// A function from `&T` and `&U` to `R` that can be called once.
///
/// `accepts(t, u)` is what a caller must establish before `apply(&t, &u)`;
/// `produces(t, u, r)` says that `r` is a possible result for `t` and `u`.
pub trait BiFunctionOnce<T, U, R> {
    spec fn accepts(&self, t: T, u: U) -> bool;

    spec fn produces(&self, t: T, u: U, r: R) -> bool;

    fn apply(self, t: &T, u: &U) -> (r: R)
        where
            Self: Sized,
        requires
            self.accepts(*t, *u),
        ensures
            self.produces(*t, *u, r),
    ;

    /// Moves this function into a [`BoxBiFunctionOnce`] that calls it.
    fn into_box(self) -> (res: BoxBiFunctionOnce<T, U, R>)
        where
            Self: Sized + 'static,
            T: 'static,
            U: 'static,
            R: 'static,
        ensures
            forall|t: T, u: U| self.accepts(t, u) ==> #[trigger] res.accepts(t, u),
            forall|t: T, u: U, r: R| #[trigger] res.produces(t, u, r) ==> self.produces(t, u, r),
    {
        let f = move |t: &T, u: &U| -> (r: R)
            requires
                self.accepts(*t, *u),
            ensures
                self.produces(*t, *u, r),
        {
            self.apply(t, u)
        };
        BoxBiFunctionOnce::new(f)
    }

    /// A [`BoxBiFunctionOnce`] that calls a clone of this function.
    fn to_box(&self) -> (res: BoxBiFunctionOnce<T, U, R>)
        where
            Self: Clone + 'static,
            T: 'static,
            U: 'static,
            R: 'static,
        ensures
            exists|c: Self|
                cloned::<Self>(*self, c) && (forall|t: T, u: U| c.accepts(t, u) ==> #[trigger] res.accepts(t, u))
                    && (forall|t: T, u: U, r: R| #[trigger] res.produces(t, u, r) ==> c.produces(t, u, r)),
    {
        let c = self.clone();
        let res = c.into_box();
        assert(cloned::<Self>(*self, c));
        res
    }
}

impl<T, U, R, F: FnOnce(&T, &U) -> R> BiFunctionOnce<T, U, R> for F {
    open spec fn accepts(&self, t: T, u: U) -> bool {
        call_requires(*self, (&t, &u))
    }

    open spec fn produces(&self, t: T, u: U, r: R) -> bool {
        call_ensures(*self, (&t, &u), r)
    }

    fn apply(self, t: &T, u: &U) -> (r: R) {
        self(t, u)
    }

    fn into_box(self) -> (res: BoxBiFunctionOnce<T, U, R>)
        where
            Self: Sized + 'static,
            T: 'static,
            U: 'static,
            R: 'static,
        ensures
            forall|t: T, u: U| #[trigger] res.accepts(t, u) == call_requires(self, (&t, &u)),
            forall|t: T, u: U, r: R| #[trigger] res.produces(t, u, r) == call_ensures(self, (&t, &u), r),
    {
        BoxBiFunctionOnce::new(self)
    }
}

/// `first` followed by `after`, both single-use: defined at `t` when `first`
/// is, and `after` is defined at each result that `first` may give for `t`.
pub open spec fn once_then_accepts<T, U, M, R, G: BiFunctionOnce<T, U, M>, F: FunctionOnce<M, R>>(
    g: G,
    f: F,
    t: T,
    u: U,
) -> bool {
    &&& g.accepts(t, u)
    &&& forall|m: M| #[trigger] g.produces(t, u, m) ==> f.accepts(m)
}

/// `first` followed by `after`, both single-use: `r` is a possible result
/// when some intermediate value `m` of `first` leads `after` to `r`.
pub open spec fn once_then_produces<T, U, M, R, G: BiFunctionOnce<T, U, M>, F: FunctionOnce<M, R>>(
    g: G,
    f: F,
    t: T,
    u: U,
    r: R,
) -> bool {
    exists|m: M| #[trigger] g.produces(t, u, m) && f.produces(m, r)
}

/// Sequencing a single-use two-argument function with two single-use one-argument functions is
/// associative: `bf` followed by `g`, and `b` followed by `fg`, accept the
/// same pairs and give the same results, where `bf` behaves as `b` followed
/// by `f` and `fg` as `f` followed by `g` (as the results of `and_then` do).
pub proof fn law_then_associative<T, U, M, N, R, B, F, G, BF, FG>(b: B, f: F, g: G, bf: BF, fg: FG, t: T, u: U)
    where
        B: BiFunctionOnce<T, U, M>,
        F: FunctionOnce<M, N>,
        G: FunctionOnce<N, R>,
        BF: BiFunctionOnce<T, U, N>,
        FG: FunctionOnce<M, R>,
    requires
        forall|x: T, y: U| #[trigger] bf.accepts(x, y) == once_then_accepts(b, f, x, y),
        forall|x: T, y: U, n: N| #[trigger] bf.produces(x, y, n) == once_then_produces(b, f, x, y, n),
        forall|m: M| #[trigger] fg.accepts(m) == crate::functions::function_once::once_then_accepts(f, g, m),
        forall|m: M, r: R| #[trigger] fg.produces(m, r) == crate::functions::function_once::once_then_produces(f, g, m, r),
    ensures
        once_then_accepts(bf, g, t, u) == once_then_accepts(b, fg, t, u),
        forall|r: R| #[trigger] once_then_produces(bf, g, t, u, r) == once_then_produces(b, fg, t, u, r),
{
    if once_then_accepts(bf, g, t, u) {
        assert forall|m: M| #[trigger] b.produces(t, u, m) implies fg.accepts(m) by {
            assert forall|n: N| #[trigger] f.produces(m, n) implies g.accepts(n) by {
                assert(bf.produces(t, u, n));
            }
        }
    }
    if once_then_accepts(b, fg, t, u) {
        assert forall|n: N| #[trigger] bf.produces(t, u, n) implies g.accepts(n) by {
            let m = choose|m: M| #[trigger] b.produces(t, u, m) && f.produces(m, n);
            assert(fg.accepts(m));
        }
    }
    assert forall|r: R| #[trigger] once_then_produces(bf, g, t, u, r) == once_then_produces(b, fg, t, u, r) by {
        if once_then_produces(bf, g, t, u, r) {
            let n = choose|n: N| #[trigger] bf.produces(t, u, n) && g.produces(n, r);
            let m = choose|m: M| #[trigger] b.produces(t, u, m) && f.produces(m, n);
            assert(fg.produces(m, r));
        }
        if once_then_produces(b, fg, t, u, r) {
            let m = choose|m: M| #[trigger] b.produces(t, u, m) && fg.produces(m, r);
            let n = choose|n: N| #[trigger] f.produces(m, n) && g.produces(n, r);
            assert(bf.produces(t, u, n));
        }
    }
}

/// A single-use choice between two functions by a predicate: defined at `t`
/// when the predicate is, and the branch that each possible answer selects is.
pub open spec fn once_choice_accepts<
    T,
    U,
    R,
    P: BiPredicate<T, U>,
    G: BiFunctionOnce<T, U, R>,
    E: BiFunctionOnce<T, U, R>,
>(p: P, g: G, e: E, t: T, u: U) -> bool {
    &&& p.accepts(t, u)
    &&& forall|b: bool| #[trigger] p.produces(t, u, b) ==> if b {
        g.accepts(t, u)
    } else {
        e.accepts(t, u)
    }
}

/// A single-use choice between two functions by a predicate: `r` is a
/// possible result when some answer of the predicate selects a branch that
/// may give `r`.
pub open spec fn once_choice_produces<
    T,
    U,
    R,
    P: BiPredicate<T, U>,
    G: BiFunctionOnce<T, U, R>,
    E: BiFunctionOnce<T, U, R>,
>(p: P, g: G, e: E, t: T, u: U, r: R) -> bool {
    exists|b: bool| #[trigger] p.produces(t, u, b) && if b {
        g.produces(t, u, r)
    } else {
        e.produces(t, u, r)
    }
}

/// A single-use function in a box.
#[verifier::reject_recursive_types(T)]
#[verifier::reject_recursive_types(U)]
#[verifier::reject_recursive_types(R)]
pub struct BoxBiFunctionOnce<T, U, R> {
    function: Box<dyn CallOnce2<T, U, R>>,
    name: Option<String>,
}

impl<T, U, R> BoxBiFunctionOnce<T, U, R> {
    pub closed spec fn accepts(&self, t: T, u: U) -> bool {
        self.function.pre(t, u)
    }

    pub closed spec fn produces(&self, t: T, u: U, r: R) -> bool {
        self.function.post(t, u, r)
    }

    pub closed spec fn spec_name(&self) -> Option<Seq<char>> {
        name_view(self.name)
    }

    pub(crate) fn from_call_once<C: CallOnce2<T, U, R> + 'static>(c: C, name: Option<String>) -> (res: Self)
        ensures
            forall|t: T, u: U| #[trigger] res.accepts(t, u) == c.pre(t, u),
            forall|t: T, u: U, r: R| #[trigger] res.produces(t, u, r) == c.post(t, u, r),
            res.spec_name() == name_view(name),
    {
        let function: Box<dyn CallOnce2<T, U, R>> = Box::new(c);
        assert(forall|t: T, u: U| #[trigger] function.pre(t, u) == c.pre(t, u));
        assert(forall|t: T, u: U, r: R| #[trigger] function.post(t, u, r) == c.post(t, u, r));
        BoxBiFunctionOnce { function, name }
    }

    /// Wraps the closure `f`.
    pub fn new<F>(f: F) -> (res: Self)
        where
            F: FnOnce(&T, &U) -> R + 'static,
        ensures
            forall|t: T, u: U| #[trigger] res.accepts(t, u) == call_requires(f, (&t, &u)),
            forall|t: T, u: U, r: R| #[trigger] res.produces(t, u, r) == call_ensures(f, (&t, &u), r),
            res.spec_name() is None,
    {
        Self::from_call_once(f, None)
    }

    /// Wraps the closure `f` under the name `name`.
    pub fn new_with_name<F>(name: &str, f: F) -> (res: Self)
        where
            F: FnOnce(&T, &U) -> R + 'static,
        ensures
            forall|t: T, u: U| #[trigger] res.accepts(t, u) == call_requires(f, (&t, &u)),
            forall|t: T, u: U, r: R| #[trigger] res.produces(t, u, r) == call_ensures(f, (&t, &u), r),
            res.spec_name() == Some(name@),
    {
        Self::from_call_once(f, owned_name(name))
    }

    /// Wraps the closure `f` under the name `name`, if there is one.
    pub fn new_with_optional_name<F>(f: F, name: Option<String>) -> (res: Self)
        where
            F: FnOnce(&T, &U) -> R + 'static,
        ensures
            forall|t: T, u: U| #[trigger] res.accepts(t, u) == call_requires(f, (&t, &u)),
            forall|t: T, u: U, r: R| #[trigger] res.produces(t, u, r) == call_ensures(f, (&t, &u), r),
            res.spec_name() == name_view(name),
    {
        Self::from_call_once(f, name)
    }

    /// The name of this function, if it has one.
    pub fn name(&self) -> (res: Option<&str>)
        ensures
            match res {
                Some(s) => self.spec_name() == Some(s@),
                None => self.spec_name() is None,
            },
    {
        name_str(&self.name)
    }

    /// Gives this function the name `name`; its behaviour stays the same.
    pub fn set_name(&mut self, name: &str)
        ensures
            final(self).spec_name() == Some(name@),
            forall|t: T, u: U| #[trigger] final(self).accepts(t, u) == old(self).accepts(t, u),
            forall|t: T, u: U, r: R| #[trigger] final(self).produces(t, u, r) == old(self).produces(t, u, r),
    {
        self.name = owned_name(name);
    }

    /// Restricts this function to the inputs on which `predicate` holds;
    /// [`BoxConditionalBiFunctionOnce::or_else`] then supplies the other branch.
    pub fn when<P>(self, predicate: P) -> (res: BoxConditionalBiFunctionOnce<T, U, R>)
        where
            P: BiPredicate<T, U> + 'static,
            T: 'static,
            U: 'static,
        ensures
            res.function() == self,
            forall|t: T, u: U| predicate.accepts(t, u) ==> #[trigger] res.predicate().accepts(t, u),
            forall|t: T, u: U, b: bool| #[trigger] res.predicate().produces(t, u, b) ==> predicate.produces(t, u, b),
    {
        BoxConditionalBiFunctionOnce { function: self, predicate: predicate.into_box() }
    }

    /// This function followed by `after` on its result.
    pub fn and_then<S, F>(self, after: F) -> (res: BoxBiFunctionOnce<T, U, S>)
        where
            T: 'static,
            U: 'static,
            R: 'static,
            S: 'static,
            F: FunctionOnce<R, S> + 'static,
        ensures
            forall|t: T, u: U| #[trigger] res.accepts(t, u) == once_then_accepts(self, after, t, u),
            forall|t: T, u: U, s: S| #[trigger] res.produces(t, u, s) == once_then_produces(self, after, t, u, s),
            res.spec_name() is None,
    {
        BoxBiFunctionOnce::from_call_once(ThenOnce { first: self, after }, None)
    }

    /// This function as a plain closure.
    pub fn into_fn(self) -> (res: impl FnOnce(&T, &U) -> R)
        ensures
            forall|t: T, u: U| self.accepts(t, u) ==> call_requires(res, (&t, &u)),
            forall|t: T, u: U, r: R| call_ensures(res, (&t, &u), r) ==> self.produces(t, u, r),
    {
        move |t: &T, u: &U| -> (r: R)
            requires
                self.accepts(*t, *u),
            ensures
                self.produces(*t, *u, r),
        {
            self.function.call_once(t, u)
        }
    }
}

impl<T: 'static, U: 'static, R: Clone + 'static> BoxBiFunctionOnce<T, U, R> {
    /// A function that returns a clone of `value` for every input.
    pub fn constant(value: R) -> (res: BoxBiFunctionOnce<T, U, R>)
        ensures
            forall|t: T, u: U| #[trigger] res.accepts(t, u),
            forall|t: T, u: U, r: R| #[trigger] res.produces(t, u, r) == cloned::<R>(value, r),
            res.spec_name() is None,
    {
        BoxBiFunctionOnce::from_call_once(Constant { value }, None)
    }
}

impl<T, U, R> BiFunctionOnce<T, U, R> for BoxBiFunctionOnce<T, U, R> {
    open spec fn accepts(&self, t: T, u: U) -> bool {
        BoxBiFunctionOnce::accepts(self, t, u)
    }

    open spec fn produces(&self, t: T, u: U, r: R) -> bool {
        BoxBiFunctionOnce::produces(self, t, u, r)
    }

    fn apply(self, t: &T, u: &U) -> (r: R) {
        self.function.call_once(t, u)
    }

    fn into_box(self) -> (res: BoxBiFunctionOnce<T, U, R>)
        where
            Self: Sized + 'static,
            T: 'static,
            U: 'static,
            R: 'static,
    {
        self
    }
}

/// A [`BoxBiFunctionOnce`] restricted by a predicate, waiting for the branch
/// that [`BoxConditionalBiFunctionOnce::or_else`] supplies.
#[verifier::reject_recursive_types(T)]
#[verifier::reject_recursive_types(U)]
#[verifier::reject_recursive_types(R)]
pub struct BoxConditionalBiFunctionOnce<T, U, R> {
    function: BoxBiFunctionOnce<T, U, R>,
    predicate: BoxBiPredicate<T, U>,
}

impl<T: 'static, U: 'static, R: 'static> BoxConditionalBiFunctionOnce<T, U, R> {
    pub closed spec fn function(&self) -> BoxBiFunctionOnce<T, U, R> {
        self.function
    }

    pub closed spec fn predicate(&self) -> BoxBiPredicate<T, U> {
        self.predicate
    }

    /// The function that applies the guarded function where the predicate
    /// holds and `else_function` elsewhere.
    pub fn or_else<F>(self, else_function: F) -> (res: BoxBiFunctionOnce<T, U, R>)
        where
            F: BiFunctionOnce<T, U, R> + 'static,
        ensures
            forall|t: T, u: U| #[trigger] res.accepts(t, u) == once_choice_accepts(self.predicate(), self.function(), else_function, t, u),
            forall|t: T, u: U, r: R| #[trigger] res.produces(t, u, r) == once_choice_produces(self.predicate(), self.function(), else_function, t, u, r),
            res.spec_name() is None,
    {
        BoxBiFunctionOnce::from_call_once(
            ChooseOnce { predicate: self.predicate, on_true: self.function, on_false: else_function },
            None,
        )
    }
}

/// Composition and conditioning for plain single-use two-argument closures.
pub trait FnBiFunctionOnceOps<T, U, R>: FnOnce(&T, &U) -> R + Sized {
    /// This closure followed by `after` on its result.
    fn and_then<S, F>(self, after: F) -> (res: BoxBiFunctionOnce<T, U, S>)
        where
            Self: 'static,
            S: 'static,
            F: FunctionOnce<R, S> + 'static,
            T: 'static,
            U: 'static,
            R: 'static,
        ensures
            forall|t: T, u: U| #[trigger] res.accepts(t, u) == once_then_accepts(self, after, t, u),
            forall|t: T, u: U, s: S| #[trigger] res.produces(t, u, s) == once_then_produces(self, after, t, u, s),
    {
        let first = BoxBiFunctionOnce::new(self);
        let res = first.and_then(after);
        assert forall|t: T, u: U| #[trigger] res.accepts(t, u) == once_then_accepts(self, after, t, u) by {
            assert(BiFunctionOnce::accepts(&first, t, u) == BiFunctionOnce::accepts(&self, t, u));
            assert(forall|m: R|
                #![trigger BiFunctionOnce::produces(&first, t, u, m)]
                #![trigger BiFunctionOnce::produces(&self, t, u, m)]
                BiFunctionOnce::produces(&first, t, u, m) == BiFunctionOnce::produces(&self, t, u, m));
        }
        assert forall|t: T, u: U, s: S| #[trigger] res.produces(t, u, s) == once_then_produces(self, after, t, u, s) by {
            assert(forall|m: R|
                #![trigger BiFunctionOnce::produces(&first, t, u, m)]
                #![trigger BiFunctionOnce::produces(&self, t, u, m)]
                BiFunctionOnce::produces(&first, t, u, m) == BiFunctionOnce::produces(&self, t, u, m));
        }
        res
    }

    /// This closure restricted to the inputs on which `predicate` holds.
    fn when<P>(self, predicate: P) -> (res: BoxConditionalBiFunctionOnce<T, U, R>)
        where
            Self: 'static,
            P: BiPredicate<T, U> + 'static,
            T: 'static,
            U: 'static,
            R: 'static,
        ensures
            forall|t: T, u: U| #[trigger] res.function().accepts(t, u) == call_requires(self, (&t, &u)),
            forall|t: T, u: U, r: R| #[trigger] res.function().produces(t, u, r) == call_ensures(self, (&t, &u), r),
            forall|t: T, u: U| predicate.accepts(t, u) ==> #[trigger] res.predicate().accepts(t, u),
            forall|t: T, u: U, b: bool| #[trigger] res.predicate().produces(t, u, b) ==> predicate.produces(t, u, b),
    {
        BoxBiFunctionOnce::new(self).when(predicate)
    }
}

impl<T, U, R, F: FnOnce(&T, &U) -> R> FnBiFunctionOnceOps<T, U, R> for F {

}

/// Calls `first`, then `after` on its result; both at most once.
struct ThenOnce<G, F> {
    first: G,
    after: F,
}

impl<T, U, M, R, F: FunctionOnce<M, R>> CallOnce2<T, U, R> for ThenOnce<BoxBiFunctionOnce<T, U, M>, F> {
    closed spec fn pre(&self, t: T, u: U) -> bool {
        once_then_accepts(self.first, self.after, t, u)
    }

    closed spec fn post(&self, t: T, u: U, r: R) -> bool {
        once_then_produces(self.first, self.after, t, u, r)
    }

    fn call_once(self: Box<Self>, t: &T, u: &U) -> (r: R) {
        let ThenOnce { first, after } = *self;
        let m = first.apply(t, u);
        after.apply(&m)
    }
}

/// Selects `on_true` or `on_false` by `predicate`, and calls it once.
struct ChooseOnce<P, G, E> {
    predicate: P,
    on_true: G,
    on_false: E,
}

impl<T, U, R, P: BiPredicate<T, U>, G: BiFunctionOnce<T, U, R>, E: BiFunctionOnce<T, U, R>> CallOnce2<T, U, R> for ChooseOnce<P, G, E> {
    closed spec fn pre(&self, t: T, u: U) -> bool {
        once_choice_accepts(self.predicate, self.on_true, self.on_false, t, u)
    }

    closed spec fn post(&self, t: T, u: U, r: R) -> bool {
        once_choice_produces(self.predicate, self.on_true, self.on_false, t, u, r)
    }

    fn call_once(self: Box<Self>, t: &T, u: &U) -> (r: R) {
        let ChooseOnce { predicate, on_true, on_false } = *self;
        if predicate.test(t, u) {
            on_true.apply(t, u)
        } else {
            on_false.apply(t, u)
        }
    }
}

} // verus!
