use qubit_function::{BoxFunctionOnce, FnFunctionOnceOps, FunctionOnce};

#[test]
fn box_function_once_applies_once() {
    let s = String::from("owned");
    let f = BoxFunctionOnce::new(move |x: &i32| format!("{} {}", s, x));
    assert_eq!(f.apply(&1), "owned 1");
}

#[test]
fn box_function_once_composition() {
    let f = BoxFunctionOnce::new(|x: &i32| x * 2).and_then(|y: &i32| y + 1);
    assert_eq!(f.apply(&5), 11);
    let g = BoxFunctionOnce::new(|x: &i32| x * 2).when(|x: &i32| *x > 0).or_else(|x: &i32| x - 100);
    assert_eq!(g.apply(&-1), -101);
    let h = BoxFunctionOnce::new(|x: &i32| x * 2).when(|x: &i32| *x > 0).or_else(|x: &i32| x - 100);
    assert_eq!(h.apply(&4), 8);
    assert_eq!(BoxFunctionOnce::<i32, &str>::constant("c").apply(&0), "c");
    assert_eq!(BoxFunctionOnce::<i32, i32>::identity().apply(&3), 3);
    let mut named = BoxFunctionOnce::new_with_name("neg", |x: &i32| -x);
    assert_eq!(named.name(), Some("neg"));
    named.set_name("negate");
    assert_eq!(named.name(), Some("negate"));
    let closure = named.into_fn();
    assert_eq!(closure(&9), -9);
}

#[test]
fn function_once_and_then_is_associative_on_examples() {
    for x in [0, 4, -7] {
        let left = BoxFunctionOnce::new(|v: &i32| v + 1)
            .and_then(|v: &i32| v * 2)
            .and_then(|v: &i32| v - 3);
        let right = BoxFunctionOnce::new(|v: &i32| v + 1)
            .and_then(BoxFunctionOnce::new(|v: &i32| v * 2).and_then(|v: &i32| v - 3));
        assert_eq!(left.apply(&x), right.apply(&x));
    }
}

#[test]
fn closure_function_once_ops_and_then_and_when() {
    let owned = String::from("id-");
    let tag = move |x: &i32| format!("{}{}", owned, x);
    let composed = tag.and_then(|s: &String| s.len());
    assert_eq!(composed.apply(&42), 5);
    let conditional = (|x: &i32| x * 2).when(|x: &i32| *x > 0).or_else(|x: &i32| -x);
    assert_eq!(conditional.apply(&-4), 4);
}
