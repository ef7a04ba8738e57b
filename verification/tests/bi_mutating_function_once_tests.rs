use qubit_function::{BiMutatingFunctionOnce, BoxBiMutatingFunctionOnce, BoxFunction, FnBiMutatingFunctionOnceOps};

fn swap_and_sum(x: &mut i32, y: &mut i32) -> i32 {
    let temp = *x;
    *x = *y;
    *y = temp;
    *x + *y
}

#[test]
fn bi_mutating_function_once_swaps_and_sums() {
    let mut a = 20;
    let mut b = 22;
    assert_eq!(swap_and_sum.apply(&mut a, &mut b), 42);
    assert_eq!(a, 22);
    assert_eq!(b, 20);
}

#[test]
fn bi_mutating_function_once_to_box_leaves_function_usable() {
    let func = swap_and_sum.to_box();
    let mut a = 20;
    let mut b = 22;
    assert_eq!(func.apply(&mut a, &mut b), 42);
    assert_eq!((a, b), (22, 20));
    assert_eq!(swap_and_sum.apply(&mut a, &mut b), 42);
}

#[test]
fn bi_mutating_function_once_and_then() {
    let composed = swap_and_sum.and_then(|x: &i32| x * 2);
    let mut a = 3;
    let mut b = 5;
    assert_eq!(composed.apply(&mut a, &mut b), 16);

    let to_string = BoxFunction::new(|x: &i32| x.to_string());
    let composed = BoxBiMutatingFunctionOnce::new(swap_and_sum).and_then(to_string);
    let mut a = 20;
    let mut b = 22;
    assert_eq!(composed.apply(&mut a, &mut b), "42");
}

#[test]
fn bi_mutating_function_once_when_or_else() {
    let multiply = |x: &mut i32, y: &mut i32| {
        *x *= *y;
        *x
    };
    let conditional = swap_and_sum.when(|x: &i32, y: &i32| *x > 0 && *y > 0).or_else(multiply);
    let mut a = 5;
    let mut b = 3;
    assert_eq!(conditional.apply(&mut a, &mut b), 8);
    let conditional2 = swap_and_sum.when(|x: &i32, y: &i32| *x > 0 && *y > 0).or_else(multiply);
    let mut a = -5;
    let mut b = 3;
    assert_eq!(conditional2.apply(&mut a, &mut b), -15);
    assert_eq!(a, -15);
}

#[test]
fn box_bi_mutating_function_once_constant_and_names() {
    let c = BoxBiMutatingFunctionOnce::<i32, i32, u8>::constant(4);
    let mut a = 1;
    let mut b = 2;
    assert_eq!(c.apply(&mut a, &mut b), 4);
    assert_eq!((a, b), (1, 2));
    let mut f = BoxBiMutatingFunctionOnce::new_with_name("swap", swap_and_sum);
    assert_eq!(f.name(), Some("swap"));
    f.set_name("other");
    assert_eq!(f.name(), Some("other"));
    let g = f.into_fn();
    assert_eq!(g(&mut a, &mut b), 3);
    assert_eq!((a, b), (2, 1));
}

#[test]
fn bi_mutating_function_once_and_then_is_associative_on_examples() {
    for (x, y) in [(1, 2), (-3, 8)] {
        let left = BoxBiMutatingFunctionOnce::new(swap_and_sum)
            .and_then(|s: &i32| s + 1)
            .and_then(|s: &i32| s * 5);
        let right = BoxBiMutatingFunctionOnce::new(swap_and_sum)
            .and_then(BoxFunction::new(|s: &i32| s + 1).and_then(|s: &i32| s * 5));
        let (mut a1, mut b1) = (x, y);
        let (mut a2, mut b2) = (x, y);
        assert_eq!(left.apply(&mut a1, &mut b1), right.apply(&mut a2, &mut b2));
        assert_eq!((a1, b1), (a2, b2));
    }
}
