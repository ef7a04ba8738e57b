use qubit_function::{
    ArcBiFunction, BiFunction, BiFunctionOnce, BoxBiFunction, BoxBiFunctionOnce, BoxFunction, FnBiFunctionOps,
    RcBiFunction,
};

#[test]
fn box_bi_function_adds() {
    let add = BoxBiFunction::new(|a: &i32, b: &i32| a + b);
    assert_eq!(add.apply(&10, &20), 30);
}

#[test]
fn box_bi_function_and_then() {
    let f = BoxBiFunction::new(|a: &i32, b: &i32| a * b).and_then(|p: &i32| format!("product={}", p));
    assert_eq!(f.apply(&6, &7), "product=42");
}

#[test]
fn bi_function_and_then_is_associative_on_examples() {
    let left = BoxBiFunction::new(|a: &i32, b: &i32| a - b)
        .and_then(|d: &i32| d * 2)
        .and_then(|x: &i32| x + 5);
    let right = BoxBiFunction::new(|a: &i32, b: &i32| a - b)
        .and_then(BoxFunction::new(|d: &i32| d * 2).and_then(|x: &i32| x + 5));
    for (a, b) in [(1, 2), (10, 3), (-4, -4)] {
        assert_eq!(left.apply(&a, &b), right.apply(&a, &b));
        assert_eq!(left.apply(&a, &b), (a - b) * 2 + 5);
    }
}

#[test]
fn box_bi_function_when_or_else() {
    let f = BoxBiFunction::new(|a: &i32, b: &i32| a / b)
        .when(|_a: &i32, b: &i32| *b != 0)
        .or_else(|_a: &i32, _b: &i32| 0);
    assert_eq!(f.apply(&10, &2), 5);
    assert_eq!(f.apply(&10, &0), 0);
}

#[test]
fn box_bi_function_constant_and_names() {
    let c = BoxBiFunction::<i32, i32, &str>::constant("k");
    assert_eq!(c.apply(&1, &2), "k");
    let mut named = BoxBiFunction::new_with_name("max", |a: &i32, b: &i32| if a > b { *a } else { *b });
    assert_eq!(named.name(), Some("max"));
    named.set_name("maximum");
    assert_eq!(named.name(), Some("maximum"));
    assert_eq!(named.apply(&3, &9), 9);
    let closure = named.into_fn();
    assert_eq!(closure(&8, &2), 8);
}

#[test]
fn rc_bi_function_shares_and_composes() {
    let f = RcBiFunction::new(|a: &String, b: &String| format!("{}{}", a, b));
    let g = f.clone();
    let h = f.and_then(|s: &String| s.len());
    assert_eq!(g.apply(&"ab".to_string(), &"cd".to_string()), "abcd");
    assert_eq!(h.apply(&"ab".to_string(), &"cde".to_string()), 5);
    let sel = f
        .when(|a: &String, _b: &String| !a.is_empty())
        .or_else(|_a: &String, b: &String| b.clone());
    assert_eq!(sel.apply(&"x".to_string(), &"y".to_string()), "xy");
    assert_eq!(sel.apply(&String::new(), &"y".to_string()), "y");
    assert_eq!(RcBiFunction::<i32, i32, i32>::constant(3).apply(&0, &0), 3);
}

#[test]
fn arc_bi_function_shares_and_composes() {
    let f = ArcBiFunction::new(|a: &u32, b: &u32| a.max(b).clone());
    let h = f.and_then(|m: &u32| m * 10);
    assert_eq!(h.apply(&3, &4), 40);
    let boxed = f.to_box();
    assert_eq!(boxed.apply(&9, &1), 9);
    let closure = f.into_fn();
    assert_eq!(closure(&2, &5), 5);
}

#[test]
fn closure_bi_function_ops() {
    let f = (|a: &i32, b: &i32| a + b).and_then(|s: &i32| s * s);
    assert_eq!(f.apply(&1, &2), 9);
    let g = (|a: &i32, b: &i32| a + b).when(|a: &i32, _b: &i32| *a > 0).or_else(|_a: &i32, _b: &i32| -1);
    assert_eq!(g.apply(&1, &1), 2);
    assert_eq!(g.apply(&-1, &1), -1);
}

#[test]
fn box_bi_function_once_applies_once() {
    let prefix = String::from("sum");
    let f = BoxBiFunctionOnce::new(move |a: &i32, b: &i32| format!("{}={}", prefix, a + b));
    assert_eq!(f.apply(&2, &3), "sum=5");
    let g = BoxBiFunctionOnce::new(|a: &i32, b: &i32| a * b).and_then(|p: &i32| p + 1);
    assert_eq!(g.apply(&3, &4), 13);
    let h = BoxBiFunctionOnce::new(|a: &i32, b: &i32| a - b)
        .when(|a: &i32, b: &i32| a > b)
        .or_else(|a: &i32, b: &i32| b - a);
    assert_eq!(h.apply(&2, &7), 5);
    assert_eq!(BoxBiFunctionOnce::<i32, i32, i32>::constant(1).apply(&5, &5), 1);
}

#[test]
fn shared_bi_functions_to_fn_stay_usable() {
    let rc = RcBiFunction::new(|x: &i32, y: &i32| x - y);
    let f = rc.to_fn();
    assert_eq!(f(&5, &2), 3);
    assert_eq!(rc.apply(&2, &5), -3);
    let arc = ArcBiFunction::new(|x: &i32, y: &i32| x * y);
    let g = arc.to_fn();
    assert_eq!(g(&4, &2), 8);
    assert_eq!(arc.apply(&3, &3), 9);
}

#[test]
fn bi_function_once_and_then_is_associative_on_examples() {
    for (x, y) in [(1, 2), (7, -3)] {
        let left = BoxBiFunctionOnce::new(|a: &i32, b: &i32| a + b)
            .and_then(|s: &i32| s * 2)
            .and_then(|s: &i32| s - 1);
        let right = BoxBiFunctionOnce::new(|a: &i32, b: &i32| a + b)
            .and_then(qubit_function::BoxFunctionOnce::new(|s: &i32| s * 2).and_then(|s: &i32| s - 1));
        assert_eq!(left.apply(&x, &y), right.apply(&x, &y));
    }
}
