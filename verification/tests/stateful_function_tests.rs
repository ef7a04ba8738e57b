use qubit_function::{
    ArcStatefulFunction, BoxStatefulFunction, FnStatefulFunctionOps, RcStatefulFunction, StatefulFunction,
};

fn counter() -> impl FnMut(&i32) -> i32 {
    let mut calls = 0;
    move |x: &i32| {
        calls += 1;
        x * calls
    }
}

#[test]
fn box_stateful_function_keeps_state() {
    let mut f = BoxStatefulFunction::new(counter());
    assert_eq!(f.apply(&10), 10);
    assert_eq!(f.apply(&10), 20);
    assert_eq!(f.apply(&10), 30);
}

#[test]
fn box_stateful_function_and_then() {
    let mut total = 0;
    let mut f = BoxStatefulFunction::new(move |x: &i32| {
        total += x;
        total
    })
    .and_then(|t: &i32| t * 100);
    assert_eq!(f.apply(&1), 100);
    assert_eq!(f.apply(&2), 300);
    assert_eq!(f.apply(&3), 600);
}

#[test]
fn stateful_and_then_is_associative_on_examples() {
    let mut left = BoxStatefulFunction::new(counter())
        .and_then(|y: &i32| y + 1)
        .and_then(|z: &i32| z * 2);
    let mut right = BoxStatefulFunction::new(counter())
        .and_then(BoxStatefulFunction::new(|y: &i32| y + 1).and_then(|z: &i32| z * 2));
    for x in [1, 2, 3] {
        assert_eq!(left.apply(&x), right.apply(&x));
    }
}

#[test]
fn box_stateful_function_when_or_else() {
    let mut f = BoxStatefulFunction::new(counter())
        .when(|x: &i32| *x >= 0)
        .or_else(|x: &i32| -x);
    assert_eq!(f.apply(&5), 5);
    assert_eq!(f.apply(&-5), 5);
    assert_eq!(f.apply(&5), 10);
}

#[test]
fn box_stateful_function_constant_identity_names() {
    let mut c = BoxStatefulFunction::<i32, u8>::constant(9);
    assert_eq!(c.apply(&1), 9);
    assert_eq!(c.apply(&2), 9);
    let mut id = BoxStatefulFunction::<i32, i32>::identity();
    assert_eq!(id.apply(&4), 4);
    let mut named = BoxStatefulFunction::new_with_name("count", counter());
    assert_eq!(named.name(), Some("count"));
    named.set_name("counter");
    assert_eq!(named.name(), Some("counter"));
    assert_eq!(named.apply(&3), 3);
    let unnamed = BoxStatefulFunction::new_with_optional_name(counter(), None);
    assert_eq!(unnamed.name(), None);
}

#[test]
fn box_stateful_function_into_fn_keeps_state() {
    let mut f = BoxStatefulFunction::new(counter()).into_fn();
    assert_eq!(f(&2), 2);
    assert_eq!(f(&2), 4);
}

#[test]
fn rc_stateful_function_clones_share_state() {
    let mut f = RcStatefulFunction::new(counter());
    let mut g = f.clone();
    assert_eq!(f.apply(&1), 1);
    assert_eq!(g.apply(&1), 2);
    assert_eq!(f.apply(&1), 3);
    let mut h = f.and_then(|x: &i32| x * 10);
    assert_eq!(h.apply(&1), 40);
    assert_eq!(g.apply(&1), 5);
}

#[test]
fn rc_stateful_function_conversions_share_state() {
    let f = RcStatefulFunction::new_with_name("c", counter());
    let mut boxed = f.to_box();
    assert_eq!(boxed.apply(&1), 1);
    let mut again = f.clone();
    assert_eq!(again.apply(&1), 2);
    let mut closure = f.to_fn();
    assert_eq!(closure(&1), 3);
    assert_eq!(f.name(), Some("c"));
    let mut sel = f.when(|x: &i32| *x > 0).or_else(|_x: &i32| 0);
    assert_eq!(sel.apply(&1), 4);
    assert_eq!(sel.apply(&-1), 0);
    assert_eq!(RcStatefulFunction::<i32, i32>::constant(1).apply(&0), 1);
    assert_eq!(RcStatefulFunction::<i32, i32>::identity().apply(&6), 6);
}

#[test]
fn arc_stateful_function_clones_share_state() {
    let mut f = ArcStatefulFunction::new(counter());
    let mut g = f.clone();
    assert_eq!(f.apply(&3), 3);
    assert_eq!(g.apply(&3), 6);
    let mut rc = g.to_rc();
    assert_eq!(rc.apply(&3), 9);
    let mut sel = f.when(|x: &i32| *x % 2 == 0).or_else(|x: &i32| x + 1000);
    assert_eq!(sel.apply(&2), 8);
    assert_eq!(sel.apply(&3), 1003);
    let mut chained = f.and_then(|x: &i32| -x);
    assert_eq!(chained.apply(&1), -5);
    assert_eq!(ArcStatefulFunction::<i32, i32>::constant(2).apply(&0), 2);
}

#[test]
fn closure_stateful_function_ops() {
    let mut f = counter().and_then(|x: &i32| x + 1);
    assert_eq!(f.apply(&5), 6);
    assert_eq!(f.apply(&5), 11);
    let mut g = counter().compose(|s: &String| s.len() as i32);
    assert_eq!(g.apply(&"abc".to_string()), 3);
    assert_eq!(g.apply(&"abc".to_string()), 6);
    let mut h = counter().when(|x: &i32| *x > 0).or_else(|_x: &i32| 0);
    assert_eq!(h.apply(&2), 2);
    assert_eq!(h.apply(&-2), 0);
    let mut boxed = counter().into_box();
    assert_eq!(boxed.apply(&7), 7);
    let mut rc = counter().into_rc();
    assert_eq!(rc.apply(&7), 7);
    let mut arc = counter().into_arc();
    assert_eq!(arc.apply(&7), 7);
}
