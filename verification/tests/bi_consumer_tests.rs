use std::cell::RefCell;
use std::rc::Rc;
use std::sync::{Arc, Mutex};

use qubit_function::{ArcBiConsumer, BiConsumer, BoxBiConsumer, FnBiConsumerOps, RcBiConsumer};

fn recorder(log: &Rc<RefCell<Vec<String>>>, tag: &'static str) -> impl Fn(&i32, &i32) + 'static {
    let log = log.clone();
    move |a: &i32, b: &i32| log.borrow_mut().push(format!("{}:{}+{}", tag, a, b))
}

#[test]
fn box_bi_consumer_accepts_pairs() {
    let total = Rc::new(RefCell::new(0));
    let t = total.clone();
    let sum = BoxBiConsumer::new(move |x: &i32, y: &i32| *t.borrow_mut() += x + y);
    sum.accept(&10, &20);
    sum.accept(&1, &2);
    assert_eq!(*total.borrow(), 33);
}

#[test]
fn box_bi_consumer_and_then_and_noop() {
    let l = Rc::new(RefCell::new(Vec::new()));
    let c = BoxBiConsumer::new(recorder(&l, "a"))
        .and_then(recorder(&l, "b"))
        .and_then(BoxBiConsumer::noop());
    c.accept(&1, &2);
    assert_eq!(*l.borrow(), vec!["a:1+2", "b:1+2"]);
}

#[test]
fn box_bi_consumer_when_or_else() {
    let l = Rc::new(RefCell::new(Vec::new()));
    let c = BoxBiConsumer::new(recorder(&l, "lt"))
        .when(|a: &i32, b: &i32| a < b)
        .or_else(recorder(&l, "ge"));
    c.accept(&1, &2);
    c.accept(&2, &1);
    let guarded = BoxBiConsumer::new(recorder(&l, "eq")).when(|a: &i32, b: &i32| a == b);
    guarded.accept(&3, &3);
    guarded.accept(&3, &4);
    assert_eq!(*l.borrow(), vec!["lt:1+2", "ge:2+1", "eq:3+3"]);
}

#[test]
fn rc_bi_consumer_shared() {
    let l = Rc::new(RefCell::new(Vec::new()));
    let c = RcBiConsumer::new_with_name("r", recorder(&l, "r"));
    assert_eq!(c.name(), Some("r"));
    let copy = c.clone();
    copy.accept(&0, &1);
    let chained = c.and_then(recorder(&l, "s"));
    chained.accept(&2, &3);
    let boxed = c.to_box();
    boxed.accept(&4, &5);
    assert_eq!(*l.borrow(), vec!["r:0+1", "r:2+3", "s:2+3", "r:4+5"]);
}

#[test]
fn arc_bi_consumer_shared() {
    let seen = Arc::new(Mutex::new(Vec::new()));
    let s = seen.clone();
    let c = ArcBiConsumer::new(move |a: &i32, b: &i32| s.lock().unwrap().push(a * b));
    let copy = c.clone();
    copy.accept(&2, &3);
    let f = c.into_fn();
    f(&4, &5);
    assert_eq!(*seen.lock().unwrap(), vec![6, 20]);
}

#[test]
fn closure_bi_consumer_ops() {
    let l = Rc::new(RefCell::new(Vec::new()));
    let c = recorder(&l, "x").and_then(recorder(&l, "y"));
    c.accept(&1, &1);
    assert_eq!(*l.borrow(), vec!["x:1+1", "y:1+1"]);
}

#[test]
fn shared_bi_consumers_to_fn_stay_usable() {
    let log = Arc::new(Mutex::new(Vec::new()));
    let l = log.clone();
    let arc = ArcBiConsumer::new(move |x: &i32, y: &i32| l.lock().unwrap().push(x + y));
    let f = arc.to_fn();
    f(&1, &2);
    arc.accept(&3, &4);
    assert_eq!(*log.lock().unwrap(), vec![3, 7]);

    let seen = Rc::new(RefCell::new(Vec::new()));
    let s = seen.clone();
    let rc = RcBiConsumer::new(move |x: &i32, y: &i32| s.borrow_mut().push(x * y));
    let g = rc.to_fn();
    g(&2, &3);
    rc.accept(&4, &5);
    assert_eq!(*seen.borrow(), vec![6, 20]);
}
