use std::cell::RefCell;
use std::rc::Rc;

use qubit_function::{BiConsumerOnce, BoxBiConsumerOnce, BoxConsumerOnce, ConsumerOnce};

#[test]
fn box_consumer_once_accepts_once() {
    let seen = Rc::new(RefCell::new(Vec::new()));
    let s = seen.clone();
    let owned = String::from("item");
    let c = BoxConsumerOnce::new(move |x: &i32| s.borrow_mut().push(format!("{}{}", owned, x)));
    c.accept(&1);
    assert_eq!(*seen.borrow(), vec!["item1"]);
}

#[test]
fn box_consumer_once_chaining() {
    let seen = Rc::new(RefCell::new(Vec::new()));
    let (s1, s2, s3) = (seen.clone(), seen.clone(), seen.clone());
    let chained = BoxConsumerOnce::new(move |x: &i32| s1.borrow_mut().push(x * 2))
        .and_then(move |x: &i32| s2.borrow_mut().push(x + 10))
        .and_then(move |x: &i32| s3.borrow_mut().push(x - 1));
    chained.accept(&5);
    assert_eq!(*seen.borrow(), vec![10, 15, 4]);
}

#[test]
fn box_consumer_once_conditional_and_noop() {
    let seen = Rc::new(RefCell::new(Vec::new()));
    let (s1, s2) = (seen.clone(), seen.clone());
    let c = BoxConsumerOnce::new(move |x: &i32| s1.borrow_mut().push(*x))
        .when(|x: &i32| *x > 0)
        .or_else(move |x: &i32| s2.borrow_mut().push(-x));
    c.accept(&-4);
    let s3 = seen.clone();
    let d = BoxConsumerOnce::new(move |x: &i32| s3.borrow_mut().push(*x)).when(|x: &i32| *x > 0);
    d.accept(&-4);
    assert_eq!(*seen.borrow(), vec![4]);
    BoxConsumerOnce::<i32>::noop().accept(&0);
    let mut named = BoxConsumerOnce::new_with_name("once", |_x: &i32| {});
    assert_eq!(named.name(), Some("once"));
    named.set_name("single");
    assert_eq!(named.name(), Some("single"));
    let f = named.into_fn();
    f(&1);
}

#[test]
fn box_bi_consumer_once_accepts_once() {
    let seen = Rc::new(RefCell::new(Vec::new()));
    let (s1, s2) = (seen.clone(), seen.clone());
    let c = BoxBiConsumerOnce::new(move |a: &i32, b: &i32| s1.borrow_mut().push(a + b))
        .and_then(move |a: &i32, b: &i32| s2.borrow_mut().push(a * b));
    c.accept(&3, &4);
    assert_eq!(*seen.borrow(), vec![7, 12]);
    let s3 = seen.clone();
    let s4 = seen.clone();
    let d = BoxBiConsumerOnce::new(move |a: &i32, _b: &i32| s3.borrow_mut().push(*a))
        .when(|a: &i32, b: &i32| a > b)
        .or_else(move |_a: &i32, b: &i32| s4.borrow_mut().push(*b));
    d.accept(&1, &2);
    assert_eq!(*seen.borrow(), vec![7, 12, 2]);
    BoxBiConsumerOnce::<i32, i32>::noop().accept(&0, &0);
}

#[test]
fn consumer_once_and_then_is_associative_on_examples() {
    let run = |grouped_left: bool| {
        let log = Rc::new(RefCell::new(Vec::new()));
        let (l1, l2, l3) = (log.clone(), log.clone(), log.clone());
        let a = BoxConsumerOnce::new(move |x: &i32| l1.borrow_mut().push(*x));
        let b = move |x: &i32| l2.borrow_mut().push(x * 10);
        let c = move |x: &i32| l3.borrow_mut().push(x * 100);
        let all = if grouped_left { a.and_then(b).and_then(c) } else { a.and_then(BoxConsumerOnce::new(b).and_then(c)) };
        all.accept(&2);
        let v = log.borrow().clone();
        v
    };
    assert_eq!(run(true), vec![2, 20, 200]);
    assert_eq!(run(true), run(false));
}

#[test]
fn bi_consumer_once_and_then_is_associative_on_examples() {
    let run = |grouped_left: bool| {
        let log = Rc::new(RefCell::new(Vec::new()));
        let (l1, l2, l3) = (log.clone(), log.clone(), log.clone());
        let a = BoxBiConsumerOnce::new(move |x: &i32, y: &i32| l1.borrow_mut().push(x + y));
        let b = move |x: &i32, y: &i32| l2.borrow_mut().push(x * y);
        let c = move |x: &i32, y: &i32| l3.borrow_mut().push(x - y);
        let all = if grouped_left { a.and_then(b).and_then(c) } else { a.and_then(BoxBiConsumerOnce::new(b).and_then(c)) };
        all.accept(&5, &3);
        let v = log.borrow().clone();
        v
    };
    assert_eq!(run(true), vec![8, 15, 2]);
    assert_eq!(run(true), run(false));
}
