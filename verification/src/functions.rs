//! Functions of one and two arguments: reusable, single-use and stateful.
pub mod bi_function;
pub mod bi_function_once;
pub mod bi_mutating_function;
pub mod bi_mutating_function_once;
mod constant;
pub mod function;
pub mod function_once;
pub mod mutating_function_once;
pub mod stateful_function;
pub mod stateful_mutating_function;

pub use bi_function::{
    ArcBinaryFunction, BoxBinaryFunction, RcBinaryFunction, ArcBiFunction, ArcConditionalBiFunction, BiFunction, BoxBiFunction, BoxConditionalBiFunction,
    FnBiFunctionOps, RcBiFunction, RcConditionalBiFunction,
};
pub use bi_function_once::{BiFunctionOnce, BoxBiFunctionOnce, BoxConditionalBiFunctionOnce, FnBiFunctionOnceOps};
pub use bi_mutating_function::{
    ArcBinaryMutatingFunction, BoxBinaryMutatingFunction, RcBinaryMutatingFunction, ArcBiMutatingFunction, ArcConditionalBiMutatingFunction, BiMutatingFunction, BoxBiMutatingFunction,
    BoxConditionalBiMutatingFunction, FnBiMutatingFunctionOps, RcBiMutatingFunction, RcConditionalBiMutatingFunction,
};
pub use bi_mutating_function_once::{
    BiMutatingFunctionOnce, BoxBiMutatingFunctionOnce, BoxConditionalBiMutatingFunctionOnce,
    FnBiMutatingFunctionOnceOps,
};
pub use function::{
    ArcConditionalFunction, ArcFunction, BoxConditionalFunction, BoxFunction, FnFunctionOps, Function,
    RcConditionalFunction, RcFunction,
};
pub use function_once::{BoxConditionalFunctionOnce, BoxFunctionOnce, FnFunctionOnceOps, FunctionOnce};
pub use stateful_function::{
    ArcConditionalStatefulFunction, ArcStatefulFunction, BoxConditionalStatefulFunction, BoxStatefulFunction,
    FnStatefulFunctionOps, RcConditionalStatefulFunction, RcStatefulFunction, StatefulFunction,
};
pub use mutating_function_once::{
    BoxConditionalMutatingFunctionOnce, BoxMutatingFunctionOnce, FnOnceMutatingFunctionOps, MutatingFunctionOnce,
};
pub use stateful_mutating_function::{
    ArcConditionalStatefulMutatingFunction, ArcStatefulMutatingFunction, BoxConditionalStatefulMutatingFunction,
    BoxStatefulMutatingFunction, FnStatefulMutatingFunctionOps, RcConditionalStatefulMutatingFunction,
    RcStatefulMutatingFunction, StatefulMutatingFunction,
};
