//! Consumers of one and two values: reusable, single-use and stateful.
pub mod bi_consumer;
pub mod bi_consumer_once;
pub mod consumer;
pub mod consumer_once;
pub mod stateful_bi_consumer;
pub mod stateful_consumer;
mod noop;

pub use bi_consumer::{
    ArcBiConsumer, ArcConditionalBiConsumer, BiConsumer, BoxBiConsumer, BoxConditionalBiConsumer,
    FnBiConsumerOps, RcBiConsumer, RcConditionalBiConsumer,
};
pub use bi_consumer_once::{BiConsumerOnce, BoxBiConsumerOnce, BoxConditionalBiConsumerOnce, FnBiConsumerOnceOps};
pub use consumer::{
    ArcConditionalConsumer, ArcConsumer, BoxConditionalConsumer, BoxConsumer, Consumer, FnConsumerOps,
    RcConditionalConsumer, RcConsumer,
};
pub use consumer_once::{BoxConditionalConsumerOnce, BoxConsumerOnce, ConsumerOnce, FnConsumerOnceOps};
pub use stateful_bi_consumer::{
    ArcConditionalStatefulBiConsumer, ArcStatefulBiConsumer, BoxConditionalStatefulBiConsumer,
    BoxStatefulBiConsumer, FnStatefulBiConsumerOps, RcConditionalStatefulBiConsumer, RcStatefulBiConsumer,
    StatefulBiConsumer,
};
pub use stateful_consumer::{
    ArcConditionalStatefulConsumer, ArcStatefulConsumer, BoxConditionalStatefulConsumer, BoxStatefulConsumer,
    FnStatefulConsumerOps, RcConditionalStatefulConsumer, RcStatefulConsumer, StatefulConsumer,
};
