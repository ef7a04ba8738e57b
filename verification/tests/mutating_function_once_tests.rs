use qubit_function::{BoxMutatingFunctionOnce, FnOnceMutatingFunctionOps, MutatingFunctionOnce};

struct Data {
    value: i32,
}

#[test]
fn box_mutating_function_once_extends_target() {
    let data = vec![1, 2, 3];
    let func = BoxMutatingFunctionOnce::new(move |x: &mut Vec<i32>| {
        let old_len = x.len();
        x.extend(data);
        old_len
    });
    let mut target = vec![0];
    let old_len = func.apply(&mut target);
    assert_eq!(old_len, 1);
    assert_eq!(target, vec![0, 1, 2, 3]);
}

#[test]
fn box_mutating_function_once_and_then_runs_both_on_same_value() {
    let data1 = vec![1, 2];
    let data2 = vec![3, 4];
    let chained = BoxMutatingFunctionOnce::new(move |x: &mut Vec<i32>| {
        x.extend(data1);
        x.len()
    })
    .and_then(move |x: &mut Vec<i32>| {
        x.extend(data2);
        x.len()
    });
    let mut target = vec![0];
    let final_len = chained.apply(&mut target);
    assert_eq!(final_len, 5);
    assert_eq!(target, vec![0, 1, 2, 3, 4]);
}

#[test]
fn closure_and_then_and_map() {
    let data1 = vec![1, 2];
    let data2 = vec![3, 4];
    let chained = (move |x: &mut Vec<i32>| {
        x.extend(data1);
        x.len()
    })
    .and_then(move |x: &mut Vec<i32>| {
        x.extend(data2);
        x.len()
    });
    let mut target = vec![0];
    assert_eq!(chained.apply(&mut target), 5);

    let data = vec![1, 2, 3];
    let mapped = (move |x: &mut Vec<i32>| {
        let old_len = x.len();
        x.extend(data);
        old_len
    })
    .map(|old_len: usize| format!("Old length: {}", old_len));
    let mut target = vec![0];
    assert_eq!(mapped.apply(&mut target), "Old length: 1");
    assert_eq!(target, vec![0, 1, 2, 3]);
}

#[test]
fn mutating_function_once_reports_error_after_fixing_value() {
    let validator = BoxMutatingFunctionOnce::new(|data: &mut Data| {
        if data.value < 0 {
            data.value = 0;
            Err("Fixed negative value")
        } else {
            Ok("Valid")
        }
    });
    let mut data = Data { value: -5 };
    let result = validator.apply(&mut data);
    assert_eq!(data.value, 0);
    assert!(result.is_err());
}

#[test]
fn box_mutating_function_once_when_or_else() {
    let double = BoxMutatingFunctionOnce::new(|x: &mut i32| {
        *x *= 2;
        *x
    });
    let negate = BoxMutatingFunctionOnce::new(|x: &mut i32| {
        *x = -*x;
        *x
    });
    let conditional = double.when(|x: &i32| *x > 0).or_else(negate);
    let mut v = 5;
    assert_eq!(conditional.apply(&mut v), 10);
    assert_eq!(v, 10);

    let double2 = BoxMutatingFunctionOnce::new(|x: &mut i32| {
        *x *= 2;
        *x
    });
    let negate2 = BoxMutatingFunctionOnce::new(|x: &mut i32| {
        *x = -*x;
        *x
    });
    let conditional2 = double2.when(|x: &i32| *x > 0).or_else(negate2);
    let mut w = -5;
    assert_eq!(conditional2.apply(&mut w), 5);
    assert_eq!(w, 5);
}

#[test]
fn box_mutating_function_once_names() {
    let mut f = BoxMutatingFunctionOnce::new_with_name("grow", |x: &mut i32| {
        *x += 1;
        *x
    });
    assert_eq!(f.name(), Some("grow"));
    f.set_name("inc");
    assert_eq!(f.name(), Some("inc"));
    let g = BoxMutatingFunctionOnce::new(|x: &mut i32| *x);
    assert_eq!(g.name(), None);
    let mut v = 1;
    assert_eq!(f.into_fn()(&mut v), 2);
    assert_eq!(v, 2);
}

#[test]
fn closure_into_box_keeps_behaviour() {
    let data = vec![7];
    let closure = move |x: &mut Vec<i32>| {
        let old_len = x.len();
        x.extend(data);
        old_len
    };
    let boxed = closure.into_box();
    let mut target = vec![];
    assert_eq!(boxed.apply(&mut target), 0);
    assert_eq!(target, vec![7]);
}

#[test]
fn mutating_function_once_and_then_next_sees_changed_value() {
    let f = BoxMutatingFunctionOnce::new(|x: &mut i32| {
        *x += 10;
        *x
    })
    .and_then(|x: &mut i32| {
        let seen = *x;
        *x = 0;
        seen * 2
    });
    let mut v = 1;
    assert_eq!(f.apply(&mut v), 22);
    assert_eq!(v, 0);
}
