use std::cell::RefCell;
use std::rc::Rc;
use std::sync::{Arc, Mutex};

use qubit_function::{
    ArcStatefulBiConsumer, ArcStatefulConsumer, BoxStatefulBiConsumer, BoxStatefulConsumer, FnStatefulBiConsumerOps,
    FnStatefulConsumerOps, RcStatefulBiConsumer, RcStatefulConsumer, StatefulBiConsumer, StatefulConsumer,
};

fn summing(total: &Rc<RefCell<i32>>) -> impl FnMut(&i32) + 'static {
    let total = total.clone();
    let mut calls = 0;
    move |x: &i32| {
        calls += 1;
        *total.borrow_mut() += x * calls;
    }
}

#[test]
fn box_stateful_consumer_keeps_state() {
    let total = Rc::new(RefCell::new(0));
    let mut c = BoxStatefulConsumer::new(summing(&total));
    c.accept(&10);
    c.accept(&10);
    assert_eq!(*total.borrow(), 30);
}

#[test]
fn box_stateful_consumer_and_then_when_or_else() {
    let log = Rc::new(RefCell::new(Vec::new()));
    let (l1, l2, l3) = (log.clone(), log.clone(), log.clone());
    let mut count = 0;
    let mut c = BoxStatefulConsumer::new(move |x: &i32| {
        count += 1;
        l1.borrow_mut().push(format!("{}#{}", x, count));
    })
    .and_then(move |x: &i32| l2.borrow_mut().push(format!("then {}", x)));
    c.accept(&1);
    c.accept(&2);
    let mut d = BoxStatefulConsumer::new(move |x: &i32| l3.borrow_mut().push(format!("pos {}", x)))
        .when(|x: &i32| *x > 0);
    d.accept(&5);
    d.accept(&-5);
    assert_eq!(*log.borrow(), vec!["1#1", "then 1", "2#2", "then 2", "pos 5"]);
    let seen = Rc::new(RefCell::new(Vec::new()));
    let (s1, s2) = (seen.clone(), seen.clone());
    let mut e = BoxStatefulConsumer::new(move |x: &i32| s1.borrow_mut().push(*x))
        .when(|x: &i32| x % 2 == 0)
        .or_else(move |x: &i32| s2.borrow_mut().push(-x));
    e.accept(&2);
    e.accept(&3);
    assert_eq!(*seen.borrow(), vec![2, -3]);
}

#[test]
fn stateful_consumer_noop_and_names() {
    let total = Rc::new(RefCell::new(0));
    let mut c = BoxStatefulConsumer::noop().and_then(summing(&total)).and_then(BoxStatefulConsumer::noop());
    c.accept(&4);
    c.accept(&4);
    assert_eq!(*total.borrow(), 12);
    let mut named = BoxStatefulConsumer::new_with_name("sum", summing(&total));
    assert_eq!(named.name(), Some("sum"));
    named.set_name("adder");
    assert_eq!(named.name(), Some("adder"));
    let mut f = named.into_fn();
    f(&1);
    assert_eq!(*total.borrow(), 13);
}

#[test]
fn rc_stateful_consumer_clones_share_state() {
    let total = Rc::new(RefCell::new(0));
    let mut c = RcStatefulConsumer::new(summing(&total));
    let mut copy = c.clone();
    c.accept(&1);
    copy.accept(&1);
    c.accept(&1);
    assert_eq!(*total.borrow(), 6);
    let mut boxed = c.to_box();
    boxed.accept(&1);
    assert_eq!(*total.borrow(), 10);
    let mut once = c.to_once();
    qubit_function::ConsumerOnce::accept(once, &1);
    assert_eq!(*total.borrow(), 15);
    let mut guarded = c.when(|x: &i32| *x > 0);
    guarded.accept(&0);
    guarded.accept(&1);
    assert_eq!(*total.borrow(), 21);
}

#[test]
fn arc_stateful_consumer_clones_share_state() {
    let total = Arc::new(Mutex::new(0));
    let t = total.clone();
    let mut calls = 0;
    let mut c = ArcStatefulConsumer::new(move |x: &i32| {
        calls += 1;
        *t.lock().unwrap() += x * calls;
    });
    let mut copy = c.clone();
    c.accept(&2);
    copy.accept(&2);
    assert_eq!(*total.lock().unwrap(), 6);
    let mut rc = c.to_rc();
    rc.accept(&2);
    assert_eq!(*total.lock().unwrap(), 12);
    let mut f = c.to_fn();
    f(&1);
    assert_eq!(*total.lock().unwrap(), 16);
}

#[test]
fn closure_stateful_consumer_ops() {
    let total = Rc::new(RefCell::new(0));
    let mut c = summing(&total).and_then(summing(&total));
    c.accept(&1);
    c.accept(&1);
    assert_eq!(*total.borrow(), 6);
    let mut b = summing(&total).into_box();
    b.accept(&1);
    assert_eq!(*total.borrow(), 7);
}

#[test]
fn stateful_bi_consumer_keeps_state() {
    let log = Rc::new(RefCell::new(Vec::new()));
    let l1 = log.clone();
    let mut calls = 0;
    let mut c = BoxStatefulBiConsumer::new(move |a: &i32, b: &i32| {
        calls += 1;
        l1.borrow_mut().push((a + b) * calls);
    });
    c.accept(&1, &2);
    c.accept(&1, &2);
    assert_eq!(*log.borrow(), vec![3, 6]);
    let l2 = log.clone();
    let l3 = log.clone();
    let mut d = BoxStatefulBiConsumer::new(move |a: &i32, _b: &i32| l2.borrow_mut().push(*a))
        .when(|a: &i32, b: &i32| a > b)
        .or_else(move |_a: &i32, b: &i32| l3.borrow_mut().push(*b));
    d.accept(&5, &1);
    d.accept(&1, &5);
    assert_eq!(*log.borrow(), vec![3, 6, 5, 5]);
}

#[test]
fn shared_stateful_bi_consumers() {
    let log = Rc::new(RefCell::new(Vec::new()));
    let l = log.clone();
    let mut n = 0;
    let mut c = RcStatefulBiConsumer::new(move |a: &i32, b: &i32| {
        n += 1;
        l.borrow_mut().push(n * 100 + a * b);
    });
    let mut copy = c.clone();
    c.accept(&2, &3);
    copy.accept(&2, &3);
    assert_eq!(*log.borrow(), vec![106, 206]);
    let seen = Arc::new(Mutex::new(Vec::new()));
    let s = seen.clone();
    let mut m = 0;
    let mut arc = ArcStatefulBiConsumer::new(move |a: &i32, b: &i32| {
        m += 1;
        s.lock().unwrap().push(m + a - b);
    });
    let mut other = arc.clone();
    arc.accept(&5, &5);
    other.accept(&5, &5);
    assert_eq!(*seen.lock().unwrap(), vec![1, 2]);
    let l4 = log.clone();
    let mut chained = (move |a: &i32, _b: &i32| l4.borrow_mut().push(*a)).and_then(BoxStatefulBiConsumer::noop());
    chained.accept(&9, &0);
    assert_eq!(*log.borrow(), vec![106, 206, 9]);
}

#[test]
fn stateful_consumer_and_then_is_associative_on_examples() {
    let run = |grouped_left: bool| {
        let log = Rc::new(RefCell::new(Vec::new()));
        let (l1, l2, l3) = (log.clone(), log.clone(), log.clone());
        let a = BoxStatefulConsumer::new(move |x: &i32| l1.borrow_mut().push(*x));
        let b = move |x: &i32| l2.borrow_mut().push(x + 1);
        let c = move |x: &i32| l3.borrow_mut().push(x + 2);
        let mut all = if grouped_left {
            a.and_then(b).and_then(c)
        } else {
            a.and_then(BoxStatefulConsumer::new(b).and_then(c))
        };
        all.accept(&10);
        all.accept(&20);
        let v = log.borrow().clone();
        v
    };
    assert_eq!(run(true), vec![10, 11, 12, 20, 21, 22]);
    assert_eq!(run(true), run(false));
}

#[test]
fn stateful_bi_consumer_and_then_is_associative_on_examples() {
    let run = |grouped_left: bool| {
        let log = Rc::new(RefCell::new(Vec::new()));
        let (l1, l2, l3) = (log.clone(), log.clone(), log.clone());
        let a = BoxStatefulBiConsumer::new(move |x: &i32, y: &i32| l1.borrow_mut().push(x + y));
        let b = move |x: &i32, y: &i32| l2.borrow_mut().push(x * y);
        let c = move |x: &i32, y: &i32| l3.borrow_mut().push(x - y);
        let mut all = if grouped_left {
            a.and_then(b).and_then(c)
        } else {
            a.and_then(BoxStatefulBiConsumer::new(b).and_then(c))
        };
        all.accept(&4, &1);
        let v = log.borrow().clone();
        v
    };
    assert_eq!(run(true), vec![5, 4, 3]);
    assert_eq!(run(true), run(false));
}
