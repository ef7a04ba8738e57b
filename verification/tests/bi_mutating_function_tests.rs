use qubit_function::{
    ArcBinaryMutatingFunction, BiMutatingFunction, BoxBiMutatingFunction, BoxBinaryMutatingFunction,
    FnBiMutatingFunctionOps, RcBiMutatingFunction, RcBinaryMutatingFunction,
};

fn swap_and_sum(x: &mut i32, y: &mut i32) -> i32 {
    let temp = *x;
    *x = *y;
    *y = temp;
    *x + *y
}

#[test]
fn box_binary_mutating_function_swaps_and_sums() {
    let f: BoxBinaryMutatingFunction<i32, i32> = BoxBinaryMutatingFunction::new(swap_and_sum);
    let mut a = 5;
    let mut b = 10;
    assert_eq!(f.apply(&mut a, &mut b), 15);
    assert_eq!(a, 10);
    assert_eq!(b, 5);
}

#[test]
fn arc_binary_mutating_function_clone_shares_behaviour() {
    let f: ArcBinaryMutatingFunction<i32, i32> = ArcBinaryMutatingFunction::new(swap_and_sum);
    let g = f.clone();
    let mut a = 5;
    let mut b = 10;
    assert_eq!(f.apply(&mut a, &mut b), 15);
    assert_eq!(g.apply(&mut a, &mut b), 15);
    assert_eq!((a, b), (5, 10));
}

#[test]
fn rc_binary_mutating_function_clone_shares_behaviour() {
    let f: RcBinaryMutatingFunction<i32, i32> = RcBinaryMutatingFunction::new(swap_and_sum);
    let g = f.clone();
    let mut a = 1;
    let mut b = 2;
    assert_eq!(f.apply(&mut a, &mut b), 3);
    assert_eq!((a, b), (2, 1));
    assert_eq!(g.apply(&mut a, &mut b), 3);
    assert_eq!((a, b), (1, 2));
}

#[test]
fn closure_and_then_applies_function_to_result() {
    let composed = swap_and_sum.and_then(|x: &i32| x * 2);
    let mut a = 3;
    let mut b = 5;
    assert_eq!(composed.apply(&mut a, &mut b), 16);
    assert_eq!((a, b), (5, 3));
}

#[test]
fn closure_when_or_else_picks_branch_on_values_before_call() {
    let multiply = |x: &mut i32, y: &mut i32| {
        *x *= *y;
        *x
    };
    let conditional = swap_and_sum.when(|x: &i32, y: &i32| *x > 0 && *y > 0).or_else(multiply);
    let mut a = 5;
    let mut b = 3;
    assert_eq!(conditional.apply(&mut a, &mut b), 8);
    assert_eq!((a, b), (3, 5));
    let mut a = -5;
    let mut b = 3;
    assert_eq!(conditional.apply(&mut a, &mut b), -15);
    assert_eq!((a, b), (-15, 3));
}

#[test]
fn rc_bi_mutating_function_and_then_and_when() {
    let f = RcBiMutatingFunction::new(swap_and_sum);
    let doubled = f.and_then(|s: &i32| s * 2);
    let mut a = 1;
    let mut b = 2;
    assert_eq!(doubled.apply(&mut a, &mut b), 6);
    let guarded = f.when(|x: &i32, _y: &i32| *x == 0).or_else(|_x: &mut i32, _y: &mut i32| -1);
    let mut a = 0;
    let mut b = 4;
    assert_eq!(guarded.apply(&mut a, &mut b), 4);
    assert_eq!((a, b), (4, 0));
    assert_eq!(guarded.apply(&mut a, &mut b), -1);
    assert_eq!((a, b), (4, 0));
}

#[test]
fn bi_mutating_constant_and_names() {
    let c = BoxBiMutatingFunction::<i32, i32, &str>::constant("same");
    let mut a = 1;
    let mut b = 2;
    assert_eq!(c.apply(&mut a, &mut b), "same");
    assert_eq!((a, b), (1, 2));

    let mut f = BoxBiMutatingFunction::new_with_name("swap", swap_and_sum);
    assert_eq!(f.name(), Some("swap"));
    f.set_name("swap2");
    assert_eq!(f.name(), Some("swap2"));
    let g = RcBiMutatingFunction::new(swap_and_sum);
    assert_eq!(g.name(), None);
}

#[test]
fn bi_mutating_conversions_keep_behaviour() {
    let boxed = swap_and_sum.into_box();
    let mut a = 1;
    let mut b = 2;
    assert_eq!(boxed.apply(&mut a, &mut b), 3);
    assert_eq!((a, b), (2, 1));
    let rc = RcBiMutatingFunction::new(swap_and_sum);
    let as_box = rc.to_box();
    assert_eq!(as_box.apply(&mut a, &mut b), 3);
    assert_eq!((a, b), (1, 2));
    let f = rc.into_fn();
    assert_eq!(f(&mut a, &mut b), 3);
    assert_eq!((a, b), (2, 1));
}

#[test]
fn bi_mutating_and_then_is_associative_on_examples() {
    let left = BoxBiMutatingFunction::new(swap_and_sum)
        .and_then(|s: &i32| s + 1)
        .and_then(|s: &i32| s * 3);
    let right = BoxBiMutatingFunction::new(swap_and_sum)
        .and_then(qubit_function::BoxFunction::new(|s: &i32| s + 1).and_then(|s: &i32| s * 3));
    for (x, y) in [(1, 2), (-4, 9), (0, 0)] {
        let (mut a1, mut b1) = (x, y);
        let (mut a2, mut b2) = (x, y);
        assert_eq!(left.apply(&mut a1, &mut b1), right.apply(&mut a2, &mut b2));
        assert_eq!((a1, b1), (a2, b2));
    }
}

#[test]
fn shared_bi_mutating_functions_to_fn_stay_usable() {
    let rc = RcBiMutatingFunction::new(swap_and_sum);
    let f = rc.to_fn();
    let mut a = 1;
    let mut b = 2;
    assert_eq!(f(&mut a, &mut b), 3);
    assert_eq!((a, b), (2, 1));
    assert_eq!(rc.apply(&mut a, &mut b), 3);
    assert_eq!((a, b), (1, 2));
    let arc = ArcBinaryMutatingFunction::new(swap_and_sum);
    let g = arc.to_fn();
    assert_eq!(g(&mut a, &mut b), 3);
    assert_eq!((a, b), (2, 1));
}
