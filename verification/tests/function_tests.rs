use qubit_function::{ArcFunction, BoxConditionalFunction, BoxFunction, FnFunctionOps, Function, RcFunction};

#[test]
fn box_function_formats_value() {
    let to_string = BoxFunction::new(|x: &i32| format!("Value: {}", x));
    assert_eq!(to_string.apply(&42), "Value: 42");
}

#[test]
fn box_function_and_then_applies_in_order() {
    let f = BoxFunction::new(|x: &i32| x + 1).and_then(|y: &i32| y * 2);
    assert_eq!(f.apply(&5), 12);
    assert_eq!(f.apply(&-1), 0);
}

#[test]
fn and_then_is_associative_on_examples() {
    let left = BoxFunction::new(|x: &i32| x + 1)
        .and_then(|y: &i32| y * 3)
        .and_then(|z: &i32| z - 2);
    let right = BoxFunction::new(|x: &i32| x + 1)
        .and_then(BoxFunction::new(|y: &i32| y * 3).and_then(|z: &i32| z - 2));
    for x in [-3, 0, 1, 7, 100] {
        assert_eq!(left.apply(&x), right.apply(&x));
        assert_eq!(left.apply(&x), (x + 1) * 3 - 2);
    }
}

#[test]
fn identity_is_neutral_for_and_then() {
    let f = BoxFunction::new(|x: &i32| x * x).and_then(BoxFunction::<i32, i32>::identity());
    let g = BoxFunction::<i32, i32>::identity().and_then(|x: &i32| x * x);
    for x in [-2, 0, 3] {
        assert_eq!(f.apply(&x), x * x);
        assert_eq!(g.apply(&x), x * x);
    }
}

#[test]
fn box_function_constant_ignores_input() {
    let f = BoxFunction::<i32, String>::constant("fixed".to_string());
    assert_eq!(f.apply(&1), "fixed");
    assert_eq!(f.apply(&-99), "fixed");
}

#[test]
fn box_function_identity_returns_input() {
    let f = BoxFunction::<String, String>::identity();
    assert_eq!(f.apply(&"abc".to_string()), "abc");
}

#[test]
fn box_function_when_or_else_selects_branch() {
    let conditional: BoxConditionalFunction<i32, String> =
        BoxFunction::new(|x: &i32| format!("positive {}", x)).when(|x: &i32| *x > 0);
    let f = conditional.or_else(|x: &i32| format!("other {}", x));
    assert_eq!(f.apply(&5), "positive 5");
    assert_eq!(f.apply(&0), "other 0");
    assert_eq!(f.apply(&-3), "other -3");
}

#[test]
fn box_function_names() {
    let mut f = BoxFunction::new_with_name("double", |x: &i32| x * 2);
    assert_eq!(f.name(), Some("double"));
    f.set_name("twice");
    assert_eq!(f.name(), Some("twice"));
    assert_eq!(f.apply(&4), 8);
    let g = BoxFunction::new(|x: &i32| *x);
    assert_eq!(g.name(), None);
    let h = BoxFunction::new_with_optional_name(|x: &i32| *x, Some("id".to_string()));
    assert_eq!(h.name(), Some("id"));
    let k = BoxFunction::new_with_optional_name(|x: &i32| *x, None);
    assert_eq!(k.name(), None);
}

#[test]
fn box_function_conversions_keep_behaviour() {
    let f = BoxFunction::new_with_name("inc", |x: &i32| x + 1);
    let rc = f.into_rc();
    assert_eq!(rc.apply(&1), 2);
    assert_eq!(rc.name(), Some("inc"));
    let boxed = rc.to_box();
    assert_eq!(boxed.apply(&2), 3);
    assert_eq!(boxed.name(), Some("inc"));
    let once = rc.into_once();
    assert_eq!(qubit_function::FunctionOnce::apply(once, &3), 4);
}

#[test]
fn box_function_into_fn() {
    let f = BoxFunction::new(|x: &i32| x * 10).into_fn();
    assert_eq!(f(&3), 30);
    let v: Vec<i32> = [1, 2, 3].iter().map(|x| f(x)).collect();
    assert_eq!(v, vec![10, 20, 30]);
}

#[test]
fn closure_function_conversions() {
    let f = (|x: &i32| x - 1).into_box();
    assert_eq!(f.apply(&10), 9);
    let g = (|x: &i32| x - 2).into_rc();
    assert_eq!(g.apply(&10), 8);
    let h = (|x: &i32| x - 3).into_arc();
    assert_eq!(h.apply(&10), 7);
}

#[test]
fn rc_function_clone_and_compose() {
    let f = RcFunction::new(|x: &i32| x + 10);
    let g = f.clone();
    let h = f.and_then(|y: &i32| y * 2);
    assert_eq!(f.apply(&1), 11);
    assert_eq!(g.apply(&2), 12);
    assert_eq!(h.apply(&3), 26);
    let sel = f.when(|x: &i32| *x % 2 == 0).or_else(|x: &i32| -x);
    assert_eq!(sel.apply(&4), 14);
    assert_eq!(sel.apply(&5), -5);
    assert_eq!(RcFunction::<i32, i32>::constant(7).apply(&0), 7);
    assert_eq!(RcFunction::<i32, i32>::identity().apply(&8), 8);
    let closure = h.into_fn();
    assert_eq!(closure(&0), 20);
}

#[test]
fn arc_function_clone_and_compose() {
    let f = ArcFunction::new_with_name("square", |x: &i64| x * x);
    let g = f.clone();
    assert_eq!(g.name(), Some("square"));
    let h = f.and_then(|y: &i64| y + 1);
    assert_eq!(h.apply(&4), 17);
    let sel = f.when(|x: &i64| *x < 0).or_else(|x: &i64| *x);
    assert_eq!(sel.apply(&-3), 9);
    assert_eq!(sel.apply(&3), 3);
    assert_eq!(ArcFunction::<i64, i64>::constant(5).apply(&100), 5);
    assert_eq!(ArcFunction::<i64, i64>::identity().apply(&-6), -6);
    let rc = f.to_rc();
    assert_eq!(rc.apply(&5), 25);
    let closure = f.into_fn();
    assert_eq!(closure(&6), 36);
}


#[test]
fn shared_functions_to_fn_stay_usable() {
    let rc = RcFunction::new(|x: &i32| x + 1);
    let f = rc.to_fn();
    assert_eq!(f(&1), 2);
    assert_eq!(rc.apply(&2), 3);
    let arc = ArcFunction::new(|x: &i32| x * 3);
    let g = arc.to_fn();
    assert_eq!(g(&2), 6);
    assert_eq!(arc.apply(&3), 9);
}

#[test]
fn closure_function_ops_and_then_and_when() {
    let double = |x: &i32| x * 2;
    let composed = double.and_then(|x: &i32| x + 1);
    assert_eq!(composed.apply(&5), 11);
    let conditional = (|x: &i32| x * 2).when(|x: &i32| *x > 0).or_else(|x: &i32| -x);
    assert_eq!(conditional.apply(&5), 10);
    assert_eq!(conditional.apply(&-5), 5);
}
