use std::cell::RefCell;
use std::rc::Rc;
use std::sync::{Arc, Mutex};

use qubit_function::{ArcConsumer, BoxConsumer, Consumer, FnConsumerOps, RcConsumer};

fn log() -> Rc<RefCell<Vec<String>>> {
    Rc::new(RefCell::new(Vec::new()))
}

fn push(log: &Rc<RefCell<Vec<String>>>, tag: &'static str) -> impl Fn(&i32) + 'static {
    let log = log.clone();
    move |x: &i32| log.borrow_mut().push(format!("{}:{}", tag, x))
}

#[test]
fn box_consumer_accepts() {
    let l = log();
    let c = BoxConsumer::new(push(&l, "a"));
    c.accept(&42);
    c.accept(&7);
    assert_eq!(*l.borrow(), vec!["a:42", "a:7"]);
}

#[test]
fn box_consumer_and_then_runs_in_order() {
    let l = log();
    let c = BoxConsumer::new(push(&l, "first")).and_then(push(&l, "second"));
    c.accept(&1);
    assert_eq!(*l.borrow(), vec!["first:1", "second:1"]);
}

#[test]
fn consumer_and_then_is_associative_on_examples() {
    let l1 = log();
    let left = BoxConsumer::new(push(&l1, "a")).and_then(push(&l1, "b")).and_then(push(&l1, "c"));
    let l2 = log();
    let right = BoxConsumer::new(push(&l2, "a")).and_then(BoxConsumer::new(push(&l2, "b")).and_then(push(&l2, "c")));
    left.accept(&3);
    right.accept(&3);
    assert_eq!(*l1.borrow(), *l2.borrow());
    assert_eq!(*l1.borrow(), vec!["a:3", "b:3", "c:3"]);
}

#[test]
fn noop_is_neutral_for_and_then() {
    let l = log();
    let c = BoxConsumer::noop().and_then(push(&l, "x")).and_then(BoxConsumer::noop());
    c.accept(&5);
    assert_eq!(*l.borrow(), vec!["x:5"]);
    let nothing = BoxConsumer::<i32>::noop();
    nothing.accept(&1);
}

#[test]
fn box_consumer_when_acts_only_where_predicate_holds() {
    let l = log();
    let c = BoxConsumer::new(push(&l, "pos")).when(|x: &i32| *x > 0);
    c.accept(&3);
    c.accept(&-3);
    assert_eq!(*l.borrow(), vec!["pos:3"]);
}

#[test]
fn box_conditional_consumer_or_else_and_and_then() {
    let l = log();
    let c = BoxConsumer::new(push(&l, "even")).when(|x: &i32| x % 2 == 0).or_else(push(&l, "odd"));
    c.accept(&2);
    c.accept(&3);
    assert_eq!(*l.borrow(), vec!["even:2", "odd:3"]);
    let l2 = log();
    let d = BoxConsumer::new(push(&l2, "big")).when(|x: &i32| *x > 10).and_then(push(&l2, "all"));
    d.accept(&11);
    d.accept(&1);
    assert_eq!(*l2.borrow(), vec!["big:11", "all:11", "all:1"]);
}

#[test]
fn box_consumer_names_and_into_fn() {
    let l = log();
    let mut c = BoxConsumer::new_with_name("logger", push(&l, "n"));
    assert_eq!(c.name(), Some("logger"));
    c.set_name("printer");
    assert_eq!(c.name(), Some("printer"));
    let f = c.into_fn();
    f(&9);
    assert_eq!(*l.borrow(), vec!["n:9"]);
}

#[test]
fn consumer_conversions_keep_behaviour() {
    let l = log();
    let rc = BoxConsumer::new(push(&l, "r")).into_rc();
    rc.accept(&1);
    let boxed = rc.to_box();
    boxed.accept(&2);
    let once = rc.into_once();
    qubit_function::ConsumerOnce::accept(once, &3);
    assert_eq!(*l.borrow(), vec!["r:1", "r:2", "r:3"]);
}

#[test]
fn rc_consumer_clone_when_and_then() {
    let l = log();
    let c = RcConsumer::new(push(&l, "c"));
    let copy = c.clone();
    copy.accept(&1);
    let chained = c.and_then(push(&l, "d"));
    chained.accept(&2);
    let guarded = c.when(|x: &i32| *x < 0).or_else(push(&l, "e"));
    guarded.accept(&-1);
    guarded.accept(&1);
    assert_eq!(*l.borrow(), vec!["c:1", "c:2", "d:2", "c:-1", "e:1"]);
    RcConsumer::<i32>::noop().accept(&0);
}

#[test]
fn arc_consumer_shared() {
    let seen = Arc::new(Mutex::new(Vec::new()));
    let s = seen.clone();
    let c = ArcConsumer::new(move |x: &i32| s.lock().unwrap().push(*x));
    let copy = c.clone();
    c.accept(&1);
    copy.accept(&2);
    let s2 = seen.clone();
    let doubled = c.and_then(move |x: &i32| s2.lock().unwrap().push(x * 2));
    doubled.accept(&3);
    let guarded = c.when(|x: &i32| *x > 100);
    guarded.accept(&4);
    guarded.accept(&101);
    assert_eq!(*seen.lock().unwrap(), vec![1, 2, 3, 6, 101]);
}

#[test]
fn closure_consumer_ops() {
    let l = log();
    let c = push(&l, "p").and_then(push(&l, "q"));
    c.accept(&8);
    assert_eq!(*l.borrow(), vec!["p:8", "q:8"]);
}

#[test]
fn shared_consumers_to_fn_stay_usable() {
    let log = Arc::new(Mutex::new(Vec::new()));
    let l = log.clone();
    let arc = ArcConsumer::new(move |x: &i32| l.lock().unwrap().push(*x));
    let f = arc.to_fn();
    f(&1);
    arc.accept(&2);
    assert_eq!(*log.lock().unwrap(), vec![1, 2]);

    let seen = Rc::new(RefCell::new(Vec::new()));
    let s = seen.clone();
    let rc = RcConsumer::new(move |x: &i32| s.borrow_mut().push(*x * 10));
    let g = rc.to_fn();
    g(&1);
    rc.accept(&2);
    assert_eq!(*seen.borrow(), vec![10, 20]);
}
