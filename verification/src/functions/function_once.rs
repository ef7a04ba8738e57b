//! Functions called at most once (`FnOnce(&T) -> R`).
use vstd::prelude::*;

use crate::callable::CallOnce1;
use crate::functions::constant::{Constant, Identity};
use crate::names::{clone_name, name_str, name_view, owned_name};
use crate::predicates::{BoxPredicate, Predicate};

verus! {

/// A function from `&T` to `R` that can be called once.
///
/// `accepts(t)` is what a caller must establish before `apply(&t)`;
/// `produces(t, r)` says that `r` is a possible result for `t`.
pub trait FunctionOnce<T, R> {
    spec fn accepts(&self, t: T) -> bool;

    spec fn produces(&self, t: T, r: R) -> bool;

    fn apply(self, t: &T) -> (r: R)
        where
            Self: Sized,
        requires
            self.accepts(*t),
        ensures
            self.produces(*t, r),
    ;

    /// Moves this function into a [`BoxFunctionOnce`] that calls it.
    fn into_box(self) -> (res: BoxFunctionOnce<T, R>)
        where
            Self: Sized + 'static,
            T: 'static,
            R: 'static,
        ensures
            forall|t: T| self.accepts(t) ==> #[trigger] res.accepts(t),
            forall|t: T, r: R| #[trigger] res.produces(t, r) ==> self.produces(t, r),
    {
        let f = move |t: &T| -> (r: R)
            requires
                self.accepts(*t),
            ensures
                self.produces(*t, r),
        {
            self.apply(t)
        };
        BoxFunctionOnce::new(f)
    }

    /// A [`BoxFunctionOnce`] that calls a clone of this function.
    fn to_box(&self) -> (res: BoxFunctionOnce<T, R>)
        where
            Self: Clone + 'static,
            T: 'static,
            R: 'static,
        ensures
            exists|c: Self|
                cloned::<Self>(*self, c) && (forall|t: T| c.accepts(t) ==> #[trigger] res.accepts(t))
                    && (forall|t: T, r: R| #[trigger] res.produces(t, r) ==> c.produces(t, r)),
    {
        let c = self.clone();
        let res = c.into_box();
        assert(cloned::<Self>(*self, c));
        res
    }
}

impl<T, R, F: FnOnce(&T) -> R> FunctionOnce<T, R> for F {
    open spec fn accepts(&self, t: T) -> bool {
        call_requires(*self, (&t,))
    }

    open spec fn produces(&self, t: T, r: R) -> bool {
        call_ensures(*self, (&t,), r)
    }

    fn apply(self, t: &T) -> (r: R) {
        self(t)
    }

    fn into_box(self) -> (res: BoxFunctionOnce<T, R>)
        where
            Self: Sized + 'static,
            T: 'static,
            R: 'static,
        ensures
            forall|t: T| #[trigger] res.accepts(t) == call_requires(self, (&t,)),
            forall|t: T, r: R| #[trigger] res.produces(t, r) == call_ensures(self, (&t,), r),
    {
        BoxFunctionOnce::new(self)
    }
}

/// `first` followed by `after`, both single-use: defined at `t` when `first`
/// is, and `after` is defined at each result that `first` may give for `t`.
pub open spec fn once_then_accepts<T, M, R, G: FunctionOnce<T, M>, F: FunctionOnce<M, R>>(
    g: G,
    f: F,
    t: T,
) -> bool {
    &&& g.accepts(t)
    &&& forall|m: M| #[trigger] g.produces(t, m) ==> f.accepts(m)
}

/// `first` followed by `after`, both single-use: `r` is a possible result
/// when some intermediate value `m` of `first` leads `after` to `r`.
pub open spec fn once_then_produces<T, M, R, G: FunctionOnce<T, M>, F: FunctionOnce<M, R>>(
    g: G,
    f: F,
    t: T,
    r: R,
) -> bool {
    exists|m: M| #[trigger] g.produces(t, m) && f.produces(m, r)
}

/// Sequencing single-use functions is associative: `fg` followed by `h` and `f` followed by `gh`
/// accept the same inputs and give the same results, where `fg` behaves as
/// `f` followed by `g` and `gh` as `g` followed by `h` (as the result of
/// `and_then` does).
pub proof fn law_then_associative<T, M, N, R, F, G, H, FG, GH>(f: F, g: G, h: H, fg: FG, gh: GH, t: T)
    where
        F: FunctionOnce<T, M>,
        G: FunctionOnce<M, N>,
        H: FunctionOnce<N, R>,
        FG: FunctionOnce<T, N>,
        GH: FunctionOnce<M, R>,
    requires
        forall|x: T| #[trigger] fg.accepts(x) == once_then_accepts(f, g, x),
        forall|x: T, n: N| #[trigger] fg.produces(x, n) == once_then_produces(f, g, x, n),
        forall|m: M| #[trigger] gh.accepts(m) == once_then_accepts(g, h, m),
        forall|m: M, r: R| #[trigger] gh.produces(m, r) == once_then_produces(g, h, m, r),
    ensures
        once_then_accepts(fg, h, t) == once_then_accepts(f, gh, t),
        forall|r: R| #[trigger] once_then_produces(fg, h, t, r) == once_then_produces(f, gh, t, r),
{
    if once_then_accepts(fg, h, t) {
        assert forall|m: M| #[trigger] f.produces(t, m) implies gh.accepts(m) by {
            assert forall|n: N| #[trigger] g.produces(m, n) implies h.accepts(n) by {
                assert(fg.produces(t, n));
            }
        }
    }
    if once_then_accepts(f, gh, t) {
        assert forall|n: N| #[trigger] fg.produces(t, n) implies h.accepts(n) by {
            let m = choose|m: M| #[trigger] f.produces(t, m) && g.produces(m, n);
            assert(gh.accepts(m));
        }
    }
    assert forall|r: R| #[trigger] once_then_produces(fg, h, t, r) == once_then_produces(f, gh, t, r) by {
        if once_then_produces(fg, h, t, r) {
            let n = choose|n: N| #[trigger] fg.produces(t, n) && h.produces(n, r);
            let m = choose|m: M| #[trigger] f.produces(t, m) && g.produces(m, n);
            assert(gh.produces(m, r));
        }
        if once_then_produces(f, gh, t, r) {
            let m = choose|m: M| #[trigger] f.produces(t, m) && gh.produces(m, r);
            let n = choose|n: N| #[trigger] g.produces(m, n) && h.produces(n, r);
            assert(fg.produces(t, n));
        }
    }
}

/// A single-use choice between two functions by a predicate: defined at `t`
/// when the predicate is, and the branch that each possible answer selects is.
pub open spec fn once_choice_accepts<
    T,
    R,
    P: Predicate<T>,
    G: FunctionOnce<T, R>,
    E: FunctionOnce<T, R>,
>(p: P, g: G, e: E, t: T) -> bool {
    &&& p.accepts(t)
    &&& forall|b: bool| #[trigger] p.produces(t, b) ==> if b {
        g.accepts(t)
    } else {
        e.accepts(t)
    }
}

/// A single-use choice between two functions by a predicate: `r` is a
/// possible result when some answer of the predicate selects a branch that
/// may give `r`.
pub open spec fn once_choice_produces<
    T,
    R,
    P: Predicate<T>,
    G: FunctionOnce<T, R>,
    E: FunctionOnce<T, R>,
>(p: P, g: G, e: E, t: T, r: R) -> bool {
    exists|b: bool| #[trigger] p.produces(t, b) && if b {
        g.produces(t, r)
    } else {
        e.produces(t, r)
    }
}

/// A single-use function in a box.
#[verifier::reject_recursive_types(T)]
#[verifier::reject_recursive_types(R)]
pub struct BoxFunctionOnce<T, R> {
    function: Box<dyn CallOnce1<T, R>>,
    name: Option<String>,
}

impl<T, R> BoxFunctionOnce<T, R> {
    pub closed spec fn accepts(&self, t: T) -> bool {
        self.function.pre(t)
    }

    pub closed spec fn produces(&self, t: T, r: R) -> bool {
        self.function.post(t, r)
    }

    pub closed spec fn spec_name(&self) -> Option<Seq<char>> {
        name_view(self.name)
    }

    pub(crate) fn from_call_once<C: CallOnce1<T, R> + 'static>(c: C, name: Option<String>) -> (res: Self)
        ensures
            forall|t: T| #[trigger] res.accepts(t) == c.pre(t),
            forall|t: T, r: R| #[trigger] res.produces(t, r) == c.post(t, r),
            res.spec_name() == name_view(name),
    {
        let function: Box<dyn CallOnce1<T, R>> = Box::new(c);
        assert(forall|t: T| #[trigger] function.pre(t) == c.pre(t));
        assert(forall|t: T, r: R| #[trigger] function.post(t, r) == c.post(t, r));
        BoxFunctionOnce { function, name }
    }

    /// Wraps the closure `f`.
    pub fn new<F>(f: F) -> (res: Self)
        where
            F: FnOnce(&T) -> R + 'static,
        ensures
            forall|t: T| #[trigger] res.accepts(t) == call_requires(f, (&t,)),
            forall|t: T, r: R| #[trigger] res.produces(t, r) == call_ensures(f, (&t,), r),
            res.spec_name() is None,
    {
        Self::from_call_once(f, None)
    }

    /// Wraps the closure `f` under the name `name`.
    pub fn new_with_name<F>(name: &str, f: F) -> (res: Self)
        where
            F: FnOnce(&T) -> R + 'static,
        ensures
            forall|t: T| #[trigger] res.accepts(t) == call_requires(f, (&t,)),
            forall|t: T, r: R| #[trigger] res.produces(t, r) == call_ensures(f, (&t,), r),
            res.spec_name() == Some(name@),
    {
        Self::from_call_once(f, owned_name(name))
    }

    /// Wraps the closure `f` under the name `name`, if there is one.
    pub fn new_with_optional_name<F>(f: F, name: Option<String>) -> (res: Self)
        where
            F: FnOnce(&T) -> R + 'static,
        ensures
            forall|t: T| #[trigger] res.accepts(t) == call_requires(f, (&t,)),
            forall|t: T, r: R| #[trigger] res.produces(t, r) == call_ensures(f, (&t,), r),
            res.spec_name() == name_view(name),
    {
        Self::from_call_once(f, name)
    }

    /// The name of this function, if it has one.
    pub fn name(&self) -> (res: Option<&str>)
        ensures
            match res {
                Some(s) => self.spec_name() == Some(s@),
                None => self.spec_name() is None,
            },
    {
        name_str(&self.name)
    }

    /// Gives this function the name `name`; its behaviour stays the same.
    pub fn set_name(&mut self, name: &str)
        ensures
            final(self).spec_name() == Some(name@),
            forall|t: T| #[trigger] final(self).accepts(t) == old(self).accepts(t),
            forall|t: T, r: R| #[trigger] final(self).produces(t, r) == old(self).produces(t, r),
    {
        self.name = owned_name(name);
    }

    /// Restricts this function to the inputs on which `predicate` holds;
    /// [`BoxConditionalFunctionOnce::or_else`] then supplies the other branch.
    pub fn when<P>(self, predicate: P) -> (res: BoxConditionalFunctionOnce<T, R>)
        where
            P: Predicate<T> + 'static,
            T: 'static,
        ensures
            res.function() == self,
            forall|t: T| predicate.accepts(t) ==> #[trigger] res.predicate().accepts(t),
            forall|t: T, b: bool| #[trigger] res.predicate().produces(t, b) ==> predicate.produces(t, b),
    {
        BoxConditionalFunctionOnce { function: self, predicate: predicate.into_box() }
    }

    /// This function followed by `after` on its result.
    pub fn and_then<S, F>(self, after: F) -> (res: BoxFunctionOnce<T, S>)
        where
            T: 'static,
            R: 'static,
            S: 'static,
            F: FunctionOnce<R, S> + 'static,
        ensures
            forall|t: T| #[trigger] res.accepts(t) == once_then_accepts(self, after, t),
            forall|t: T, s: S| #[trigger] res.produces(t, s) == once_then_produces(self, after, t, s),
            res.spec_name() is None,
    {
        BoxFunctionOnce::from_call_once(ThenOnce { first: self, after }, None)
    }

    /// This function as a plain closure.
    pub fn into_fn(self) -> (res: impl FnOnce(&T) -> R)
        ensures
            forall|t: T| self.accepts(t) ==> call_requires(res, (&t,)),
            forall|t: T, r: R| call_ensures(res, (&t,), r) ==> self.produces(t, r),
    {
        move |t: &T| -> (r: R)
            requires
                self.accepts(*t),
            ensures
                self.produces(*t, r),
        {
            self.function.call_once(t)
        }
    }
}

impl<T: 'static, R: Clone + 'static> BoxFunctionOnce<T, R> {
    /// A function that returns a clone of `value` for every input.
    pub fn constant(value: R) -> (res: BoxFunctionOnce<T, R>)
        ensures
            forall|t: T| #[trigger] res.accepts(t),
            forall|t: T, r: R| #[trigger] res.produces(t, r) == cloned::<R>(value, r),
            res.spec_name() is None,
    {
        BoxFunctionOnce::from_call_once(Constant { value }, None)
    }
}

impl<T: Clone + 'static> BoxFunctionOnce<T, T> {
    /// A function that returns a clone of its input.
    pub fn identity() -> (res: BoxFunctionOnce<T, T>)
        ensures
            forall|t: T| #[trigger] res.accepts(t),
            forall|t: T, r: T| #[trigger] res.produces(t, r) == cloned::<T>(t, r),
            res.spec_name() is None,
    {
        BoxFunctionOnce::from_call_once(Identity, None)
    }
}

impl<T, R> FunctionOnce<T, R> for BoxFunctionOnce<T, R> {
    open spec fn accepts(&self, t: T) -> bool {
        BoxFunctionOnce::accepts(self, t)
    }

    open spec fn produces(&self, t: T, r: R) -> bool {
        BoxFunctionOnce::produces(self, t, r)
    }

    fn apply(self, t: &T) -> (r: R) {
        self.function.call_once(t)
    }

    fn into_box(self) -> (res: BoxFunctionOnce<T, R>)
        where
            Self: Sized + 'static,
            T: 'static,
            R: 'static,
    {
        self
    }
}

/// `and_then` and `when` for single-use closures, giving boxed single-use functions.
pub trait FnFunctionOnceOps<T, R>: FnOnce(&T) -> R + Sized {
    /// This closure followed by `after` on its result.
    fn and_then<S, F>(self, after: F) -> (res: BoxFunctionOnce<T, S>)
        where
            Self: 'static,
            S: 'static,
            F: FunctionOnce<R, S> + 'static,
            T: 'static,
            R: 'static,
        ensures
            forall|t: T| #[trigger] res.accepts(t) == once_then_accepts(self, after, t),
            forall|t: T, s: S| #[trigger] res.produces(t, s) == once_then_produces(self, after, t, s),
    {
        let first = BoxFunctionOnce::new(self);
        let res = first.and_then(after);
        assert forall|t: T| #[trigger] res.accepts(t) == once_then_accepts(self, after, t) by {
            assert(FunctionOnce::accepts(&first, t) == FunctionOnce::accepts(&self, t));
            assert(forall|m: R|
                #![trigger FunctionOnce::produces(&first, t, m)]
                #![trigger FunctionOnce::produces(&self, t, m)]
                FunctionOnce::produces(&first, t, m) == FunctionOnce::produces(&self, t, m));
        }
        assert forall|t: T, s: S| #[trigger] res.produces(t, s) == once_then_produces(self, after, t, s) by {
            assert(forall|m: R|
                #![trigger FunctionOnce::produces(&first, t, m)]
                #![trigger FunctionOnce::produces(&self, t, m)]
                FunctionOnce::produces(&first, t, m) == FunctionOnce::produces(&self, t, m));
        }
        res
    }

    /// This closure restricted to the inputs on which `predicate` holds.
    fn when<P>(self, predicate: P) -> (res: BoxConditionalFunctionOnce<T, R>)
        where
            Self: 'static,
            P: Predicate<T> + 'static,
            T: 'static,
            R: 'static,
        ensures
            forall|t: T| #[trigger] res.function().accepts(t) == call_requires(self, (&t,)),
            forall|t: T, r: R| #[trigger] res.function().produces(t, r) == call_ensures(self, (&t,), r),
            forall|t: T| predicate.accepts(t) ==> #[trigger] res.predicate().accepts(t),
            forall|t: T, b: bool| #[trigger] res.predicate().produces(t, b) ==> predicate.produces(t, b),
    {
        BoxFunctionOnce::new(self).when(predicate)
    }
}

impl<T, R, F: FnOnce(&T) -> R> FnFunctionOnceOps<T, R> for F {
}

/// A [`BoxFunctionOnce`] restricted by a predicate, waiting for the branch
/// that [`BoxConditionalFunctionOnce::or_else`] supplies.
#[verifier::reject_recursive_types(T)]
#[verifier::reject_recursive_types(R)]
pub struct BoxConditionalFunctionOnce<T, R> {
    function: BoxFunctionOnce<T, R>,
    predicate: BoxPredicate<T>,
}

impl<T: 'static, R: 'static> BoxConditionalFunctionOnce<T, R> {
    pub closed spec fn function(&self) -> BoxFunctionOnce<T, R> {
        self.function
    }

    pub closed spec fn predicate(&self) -> BoxPredicate<T> {
        self.predicate
    }

    /// The function that applies the guarded function where the predicate
    /// holds and `else_function` elsewhere.
    pub fn or_else<F>(self, else_function: F) -> (res: BoxFunctionOnce<T, R>)
        where
            F: FunctionOnce<T, R> + 'static,
        ensures
            forall|t: T| #[trigger] res.accepts(t) == once_choice_accepts(self.predicate(), self.function(), else_function, t),
            forall|t: T, r: R| #[trigger] res.produces(t, r) == once_choice_produces(self.predicate(), self.function(), else_function, t, r),
            res.spec_name() is None,
    {
        BoxFunctionOnce::from_call_once(
            ChooseOnce { predicate: self.predicate, on_true: self.function, on_false: else_function },
            None,
        )
    }
}

/// Calls `first`, then `after` on its result; both at most once.
struct ThenOnce<G, F> {
    first: G,
    after: F,
}

impl<T, M, R, F: FunctionOnce<M, R>> CallOnce1<T, R> for ThenOnce<BoxFunctionOnce<T, M>, F> {
    closed spec fn pre(&self, t: T) -> bool {
        once_then_accepts(self.first, self.after, t)
    }

    closed spec fn post(&self, t: T, r: R) -> bool {
        once_then_produces(self.first, self.after, t, r)
    }

    fn call_once(self: Box<Self>, t: &T) -> (r: R) {
        let ThenOnce { first, after } = *self;
        let m = first.apply(t);
        after.apply(&m)
    }
}

/// Selects `on_true` or `on_false` by `predicate`, and calls it once.
struct ChooseOnce<P, G, E> {
    predicate: P,
    on_true: G,
    on_false: E,
}

impl<T, R, P: Predicate<T>, G: FunctionOnce<T, R>, E: FunctionOnce<T, R>> CallOnce1<T, R> for ChooseOnce<P, G, E> {
    closed spec fn pre(&self, t: T) -> bool {
        once_choice_accepts(self.predicate, self.on_true, self.on_false, t)
    }

    closed spec fn post(&self, t: T, r: R) -> bool {
        once_choice_produces(self.predicate, self.on_true, self.on_false, t, r)
    }

    fn call_once(self: Box<Self>, t: &T) -> (r: R) {
        let ChooseOnce { predicate, on_true, on_false } = *self;
        if predicate.test(t) {
            on_true.apply(t)
        } else {
            on_false.apply(t)
        }
    }
}

} // verus!
