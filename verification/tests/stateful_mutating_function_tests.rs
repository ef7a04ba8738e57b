use qubit_function::{
    ArcStatefulMutatingFunction, BoxStatefulMutatingFunction, FnStatefulMutatingFunctionOps, MutatingFunctionOnce,
    RcStatefulMutatingFunction, StatefulMutatingFunction,
};

fn doubling_counter() -> impl FnMut(&mut i32) -> i32 {
    let mut count = 0;
    move |x: &mut i32| {
        count += 1;
        *x *= 2;
        count
    }
}

#[test]
fn box_stateful_mutating_function_counts_calls() {
    let mut counter = {
        let mut call_count = 0;
        BoxStatefulMutatingFunction::new(move |x: &mut i32| {
            call_count += 1;
            *x += 1;
            call_count
        })
    };
    let mut value = 5;
    assert_eq!(counter.apply(&mut value), 1);
    assert_eq!(value, 6);
    assert_eq!(counter.apply(&mut value), 2);
    assert_eq!(value, 7);
}

#[test]
fn box_stateful_mutating_function_accumulates() {
    let mut accumulator = {
        let mut sum = 0;
        BoxStatefulMutatingFunction::new(move |x: &mut i32| {
            *x *= 2;
            sum += *x;
            sum
        })
    };
    let mut value = 5;
    assert_eq!(accumulator.apply(&mut value), 10);
    assert_eq!(value, 10);
    assert_eq!(accumulator.apply(&mut value), 30);
    assert_eq!(value, 20);
}

#[test]
fn box_stateful_mutating_function_returns_old_value_and_count() {
    let mut counter = {
        let mut count = 0;
        BoxStatefulMutatingFunction::new(move |x: &mut i32| {
            count += 1;
            let old = *x;
            *x += 1;
            (old, count)
        })
    };
    let mut value = 5;
    let (old_value, call_count) = counter.apply(&mut value);
    assert_eq!(old_value, 5);
    assert_eq!(call_count, 1);
    assert_eq!(value, 6);
}

#[test]
fn closure_conversions_keep_behaviour() {
    let mut boxed = StatefulMutatingFunction::into_box(doubling_counter());
    let mut value = 5;
    assert_eq!(boxed.apply(&mut value), 1);
    assert_eq!(value, 10);

    let mut rc = doubling_counter().into_rc();
    let mut value = 5;
    assert_eq!(rc.apply(&mut value), 1);
    assert_eq!(rc.apply(&mut value), 2);
    assert_eq!(value, 20);

    let mut arc = doubling_counter().into_arc();
    let mut value = 5;
    assert_eq!(arc.apply(&mut value), 1);
    assert_eq!(value, 10);
}

#[test]
fn box_stateful_mutating_function_into_fn_and_once() {
    let func = {
        let mut sum = 0;
        BoxStatefulMutatingFunction::new(move |x: &mut i32| {
            *x *= 2;
            sum += *x;
            sum
        })
    };
    let mut closure = func.into_fn();
    let mut value = 5;
    assert_eq!(closure(&mut value), 10);
    assert_eq!(closure(&mut value), 30);

    let func = BoxStatefulMutatingFunction::new(|x: &mut i32| {
        *x *= 2;
        *x
    });
    let once = func.into_once();
    let mut value = 5;
    assert_eq!(once.apply(&mut value), 10);
    assert_eq!(value, 10);
}

#[test]
fn rc_stateful_mutating_function_clones_share_state() {
    let mut f = RcStatefulMutatingFunction::new(doubling_counter());
    let mut g = f.clone();
    let mut value = 1;
    assert_eq!(f.apply(&mut value), 1);
    assert_eq!(g.apply(&mut value), 2);
    assert_eq!(f.apply(&mut value), 3);
    assert_eq!(value, 8);
}

#[test]
fn arc_stateful_mutating_function_clones_share_state() {
    let mut f = ArcStatefulMutatingFunction::new(doubling_counter());
    let mut g = f.clone();
    let mut value = 1;
    assert_eq!(f.apply(&mut value), 1);
    assert_eq!(g.apply(&mut value), 2);
    assert_eq!(value, 4);
    let mut h = f.to_fn();
    assert_eq!(h(&mut value), 3);
    assert_eq!(value, 8);
}

#[test]
fn stateful_mutating_function_and_then_maps_result() {
    let mut f = BoxStatefulMutatingFunction::new(doubling_counter()).and_then(|c: &i32| c * 100);
    let mut value = 3;
    assert_eq!(f.apply(&mut value), 100);
    assert_eq!(f.apply(&mut value), 200);
    assert_eq!(value, 12);

    let mut g = doubling_counter().and_then(|c: &i32| c + 1);
    let mut value = 1;
    assert_eq!(g.apply(&mut value), 2);
    assert_eq!(value, 2);

    let rc = RcStatefulMutatingFunction::new(doubling_counter());
    let mut h = rc.and_then(|c: &i32| -c);
    let mut value = 1;
    assert_eq!(h.apply(&mut value), -1);
}

#[test]
fn stateful_mutating_function_when_or_else() {
    let mut f = BoxStatefulMutatingFunction::new(doubling_counter())
        .when(|x: &i32| *x > 0)
        .or_else(|x: &mut i32| {
            *x = 0;
            -1
        });
    let mut value = 4;
    assert_eq!(f.apply(&mut value), 1);
    assert_eq!(value, 8);
    let mut value = -4;
    assert_eq!(f.apply(&mut value), -1);
    assert_eq!(value, 0);
    let mut value = 1;
    assert_eq!(f.apply(&mut value), 2);

    let rc = RcStatefulMutatingFunction::new(doubling_counter());
    let mut g = rc.when(|x: &i32| *x % 2 == 0).or_else(|_x: &mut i32| 0);
    let mut value = 3;
    assert_eq!(g.apply(&mut value), 0);
    assert_eq!(value, 3);
    let mut value = 2;
    assert_eq!(g.apply(&mut value), 1);
    assert_eq!(value, 4);
}

#[test]
fn stateful_mutating_identity_and_names() {
    let mut id = BoxStatefulMutatingFunction::<i32, i32>::identity();
    let mut value = 7;
    assert_eq!(id.apply(&mut value), 7);
    assert_eq!(value, 7);

    let mut f = RcStatefulMutatingFunction::new_with_name("counter", doubling_counter());
    assert_eq!(f.name(), Some("counter"));
    f.set_name("doubler");
    assert_eq!(f.name(), Some("doubler"));
    let g = ArcStatefulMutatingFunction::new(doubling_counter());
    assert_eq!(g.name(), None);
}

#[test]
fn stateful_mutating_and_then_is_associative_on_examples() {
    let mut left = BoxStatefulMutatingFunction::new(doubling_counter())
        .and_then(|c: &i32| c + 1)
        .and_then(|c: &i32| c * 10);
    let mut right = BoxStatefulMutatingFunction::new(doubling_counter())
        .and_then(qubit_function::BoxFunction::new(|c: &i32| c + 1).and_then(|c: &i32| c * 10));
    let mut a = 1;
    let mut b = 1;
    for _ in 0..3 {
        assert_eq!(left.apply(&mut a), right.apply(&mut b));
        assert_eq!(a, b);
    }
    assert_eq!(a, 8);
}
