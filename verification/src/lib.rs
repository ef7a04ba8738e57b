//! Functional abstractions (functions, consumers, predicates and
//! comparators) in boxed, `Rc` and `Arc` flavours, with their behaviour
//! stated as relations that every composition preserves.
mod callable;
mod counted;
mod mutating_call;
pub mod comparator;
pub mod consumers;
pub mod functions;
mod names;
pub mod predicates;

pub use comparator::{ArcComparator, BoxComparator, Comparator, FnComparatorOps, Order, RcComparator};
pub use consumers::{
    ArcBiConsumer, ArcConditionalBiConsumer, ArcConditionalConsumer, ArcConditionalStatefulBiConsumer,
    ArcConditionalStatefulConsumer, ArcConsumer, ArcStatefulBiConsumer, ArcStatefulConsumer, BiConsumer,
    BiConsumerOnce, BoxBiConsumer, BoxBiConsumerOnce, BoxConditionalBiConsumer, BoxConditionalBiConsumerOnce,
    BoxConditionalConsumer, BoxConditionalConsumerOnce, BoxConditionalStatefulBiConsumer,
    BoxConditionalStatefulConsumer, BoxConsumer, BoxConsumerOnce, BoxStatefulBiConsumer, BoxStatefulConsumer,
    Consumer, ConsumerOnce, FnBiConsumerOnceOps, FnBiConsumerOps, FnConsumerOnceOps, FnConsumerOps,
    FnStatefulBiConsumerOps, FnStatefulConsumerOps, RcBiConsumer, RcConditionalBiConsumer, RcConditionalConsumer,
    RcConditionalStatefulBiConsumer, RcConditionalStatefulConsumer, RcConsumer, RcStatefulBiConsumer,
    RcStatefulConsumer, StatefulBiConsumer, StatefulConsumer,
};
pub use functions::{
    ArcBinaryFunction, ArcBinaryMutatingFunction, BoxBinaryFunction, BoxBinaryMutatingFunction, RcBinaryFunction,
    RcBinaryMutatingFunction, ArcBiFunction, ArcConditionalBiFunction, ArcConditionalFunction, ArcConditionalStatefulFunction, ArcFunction,
    ArcStatefulFunction, BiFunction, BiFunctionOnce, BoxBiFunction, BoxBiFunctionOnce, BoxConditionalBiFunction,
    BoxConditionalBiFunctionOnce, BoxConditionalFunction, BoxConditionalFunctionOnce,
    BoxConditionalStatefulFunction, BoxFunction, BoxFunctionOnce, BoxStatefulFunction, FnBiFunctionOnceOps,
    FnBiFunctionOps, FnFunctionOnceOps, FnFunctionOps, FnStatefulFunctionOps, Function, FunctionOnce, RcBiFunction, RcConditionalBiFunction,
    RcConditionalFunction, RcConditionalStatefulFunction, RcFunction, RcStatefulFunction, StatefulFunction,
};
pub use functions::{
    ArcBiMutatingFunction, ArcConditionalBiMutatingFunction, ArcConditionalStatefulMutatingFunction,
    ArcStatefulMutatingFunction, BiMutatingFunction, BiMutatingFunctionOnce, BoxBiMutatingFunction,
    BoxBiMutatingFunctionOnce, BoxConditionalBiMutatingFunction, BoxConditionalBiMutatingFunctionOnce,
    BoxConditionalMutatingFunctionOnce, BoxConditionalStatefulMutatingFunction, BoxMutatingFunctionOnce,
    BoxStatefulMutatingFunction, FnBiMutatingFunctionOnceOps, FnBiMutatingFunctionOps, FnOnceMutatingFunctionOps,
    FnStatefulMutatingFunctionOps, MutatingFunctionOnce, RcBiMutatingFunction, RcConditionalBiMutatingFunction,
    RcConditionalStatefulMutatingFunction, RcStatefulMutatingFunction, StatefulMutatingFunction,
};
pub use predicates::{
    ArcBiPredicate, ArcPredicate, BiPredicate, BoxBiPredicate, BoxPredicate, Predicate, RcBiPredicate, RcPredicate,
};
