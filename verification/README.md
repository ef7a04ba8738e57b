# qubit_function

Functional abstractions for Rust — functions, mutating functions, consumers,
predicates and comparators — each in a boxed, `Rc` and `Arc` flavour, with
composition (`and_then`, `when`/`or_else`, `reversed`, `then_comparing`, ...)
and conversions between the flavours. The library is written in Verus and
every function in it is verified.

## How behaviour is stated

Every abstraction carries two spec predicates instead of an opaque closure:

- `accepts(..)`: what must hold of the arguments before a call;
- `produces(..)` / `performs(..)` / `orders(..)`: the outcomes a call may have.
  For mutating functions the outcome relates the value behind each `&mut`
  before and after the call (`mut_ref_current` / `mut_ref_future`).

Constructors relate these predicates to the wrapped closure's
`call_requires` / `call_ensures`; combinators state the predicates of the
result exactly in terms of their parts (for example `then_accepts` and
`then_produces`); conversions (`into_box`, `into_rc`, `to_arc`, ...) keep
every accepted input accepted and every outcome an outcome of the value they
convert.

The stateful (`FnMut`) flavours that are shared (`Rc`, `Arc`) keep their
closure behind a lock from `vstd`, so clones share one state.

## Layout

- `src/callable.rs`, `src/mutating_call.rs`: the call traits that the boxed
  and shared types store, and the locked cells of the stateful ones.
- `src/functions/`: `Function`, `BiFunction`, their single-use and stateful
  variants, and the mutating families.
- `src/consumers/`: `Consumer`, `BiConsumer`, single-use and stateful.
- `src/predicates.rs`, `src/comparator.rs`, `src/names.rs`.
- Laws (associativity of sequencing, neutral elements, reversal) are public
  proof functions named `law_*` beside the types they speak of.
- `tests/`: executable tests of the same behaviour on concrete values.
