use std::cmp::Ordering;

use qubit_function::{ArcComparator, BoxComparator, Comparator, FnComparatorOps, Order, RcComparator};

#[derive(Debug, Clone)]
struct Person {
    name: String,
    age: u32,
}

fn people() -> (Person, Person, Person) {
    (
        Person { name: "Alice".to_string(), age: 30 },
        Person { name: "Bob".to_string(), age: 25 },
        Person { name: "Carol".to_string(), age: 30 },
    )
}

#[test]
fn box_comparator_compares_naturally() {
    let cmp = BoxComparator::new(|a: &i32, b: &i32| a.cmp(b));
    assert_eq!(cmp.compare(&5, &3), Ordering::Greater);
    assert_eq!(cmp.compare(&3, &5), Ordering::Less);
    assert_eq!(cmp.compare(&4, &4), Ordering::Equal);
}

#[test]
fn compare_order_matches_compare() {
    let cmp = BoxComparator::new(|a: &i32, b: &i32| a.cmp(b));
    assert_eq!(cmp.compare_order(&5, &3), Order::Greater);
    assert_eq!(cmp.compare_order(&3, &5), Order::Less);
    assert_eq!(cmp.compare_order(&7, &7), Order::Equal);
}

#[test]
fn order_round_trips_through_ordering() {
    for o in [Ordering::Less, Ordering::Equal, Ordering::Greater] {
        assert_eq!(Order::from_ordering(o).to_ordering(), o);
    }
    assert_eq!(Order::from_ordering(Ordering::Less), Order::Less);
    assert_eq!(Order::Greater.to_ordering(), Ordering::Greater);
}

#[test]
fn box_comparator_reversed_swaps_sides() {
    let rev = BoxComparator::new(|a: &i32, b: &i32| a.cmp(b)).reversed();
    assert_eq!(rev.compare(&5, &3), Ordering::Less);
    assert_eq!(rev.compare(&3, &5), Ordering::Greater);
    assert_eq!(rev.compare(&5, &5), Ordering::Equal);
}

#[test]
fn reversed_twice_is_same_order() {
    let cmp = BoxComparator::new(|a: &i32, b: &i32| a.cmp(b)).reversed().reversed();
    for (a, b) in [(1, 2), (2, 1), (3, 3), (-4, 9)] {
        assert_eq!(cmp.compare(&a, &b), a.cmp(&b));
    }
}

#[test]
fn box_comparator_then_comparing_breaks_ties() {
    let (alice, bob, carol) = people();
    let by_age = BoxComparator::new(|a: &Person, b: &Person| a.age.cmp(&b.age));
    let by_name = BoxComparator::new(|a: &Person, b: &Person| a.name.cmp(&b.name));
    let cmp = by_age.then_comparing(by_name);
    assert_eq!(cmp.compare(&alice, &bob), Ordering::Greater);
    assert_eq!(cmp.compare(&alice, &carol), Ordering::Less);
    assert_eq!(cmp.compare(&carol, &alice), Ordering::Greater);
    assert_eq!(cmp.compare(&alice, &alice.clone()), Ordering::Equal);
}

#[test]
fn then_comparing_is_associative_on_examples() {
    let first = |a: &(i32, i32, i32), b: &(i32, i32, i32)| a.0.cmp(&b.0);
    let second = |a: &(i32, i32, i32), b: &(i32, i32, i32)| a.1.cmp(&b.1);
    let third = |a: &(i32, i32, i32), b: &(i32, i32, i32)| a.2.cmp(&b.2);
    let left = BoxComparator::new(first)
        .then_comparing(BoxComparator::new(second))
        .then_comparing(BoxComparator::new(third));
    let right = BoxComparator::new(first)
        .then_comparing(BoxComparator::new(second).then_comparing(BoxComparator::new(third)));
    let values = [(1, 2, 3), (1, 2, 4), (1, 3, 0), (0, 9, 9), (1, 2, 3)];
    for a in values.iter() {
        for b in values.iter() {
            assert_eq!(left.compare(a, b), right.compare(a, b));
            assert_eq!(left.compare(a, b), a.cmp(b));
        }
    }
}

#[test]
fn reversal_distributes_over_chaining_on_examples() {
    let by_first = |a: &(i32, i32), b: &(i32, i32)| a.0.cmp(&b.0);
    let by_second = |a: &(i32, i32), b: &(i32, i32)| a.1.cmp(&b.1);
    let left = BoxComparator::new(by_first).then_comparing(BoxComparator::new(by_second)).reversed();
    let right = BoxComparator::new(by_first).reversed().then_comparing(BoxComparator::new(by_second).reversed());
    let values = [(1, 2), (1, 3), (0, 5), (2, 0), (1, 2)];
    for a in values.iter() {
        for b in values.iter() {
            assert_eq!(left.compare(a, b), right.compare(a, b));
            assert_eq!(left.compare(a, b), b.cmp(a));
        }
    }
}

#[test]
fn box_comparator_comparing_by_key() {
    let (alice, bob, carol) = people();
    let by_age = BoxComparator::comparing(|p: &Person| &p.age);
    assert_eq!(by_age.compare(&alice, &bob), Ordering::Greater);
    assert_eq!(by_age.compare(&bob, &alice), Ordering::Less);
    assert_eq!(by_age.compare(&alice, &carol), Ordering::Equal);
}

#[test]
fn box_comparator_into_fn_sorts() {
    let f = BoxComparator::new(|a: &i32, b: &i32| a.cmp(b)).reversed().into_fn();
    let mut v = vec![3, 1, 4, 1, 5, 9, 2, 6];
    v.sort_by(|a, b| f(a, b));
    assert_eq!(v, vec![9, 6, 5, 4, 3, 2, 1, 1]);
}

#[test]
fn rc_comparator_stays_usable_when_reversing() {
    let cmp = RcComparator::new(|a: &i32, b: &i32| a.cmp(b));
    let rev = cmp.reversed();
    assert_eq!(cmp.compare(&1, &2), Ordering::Less);
    assert_eq!(rev.compare(&1, &2), Ordering::Greater);
    let copy = cmp.clone();
    assert_eq!(copy.compare(&2, &1), Ordering::Greater);
}

#[test]
fn rc_comparator_then_comparing_and_comparing() {
    let (alice, bob, carol) = people();
    let by_age = RcComparator::comparing(|p: &Person| &p.age);
    let by_name = RcComparator::comparing(|p: &Person| &p.name);
    let cmp = by_age.then_comparing(&by_name);
    assert_eq!(cmp.compare(&alice, &carol), Ordering::Less);
    assert_eq!(cmp.compare(&bob, &carol), Ordering::Less);
    assert_eq!(by_age.compare(&alice, &carol), Ordering::Equal);
    let f = cmp.into_fn();
    assert_eq!(f(&carol, &bob), Ordering::Greater);
}

#[test]
fn arc_comparator_reversed_then_comparing_comparing() {
    let (alice, bob, carol) = people();
    let by_age = ArcComparator::comparing(|p: &Person| &p.age);
    let by_name_desc = ArcComparator::comparing(|p: &Person| &p.name).reversed();
    let cmp = by_age.then_comparing(&by_name_desc);
    assert_eq!(cmp.compare(&alice, &carol), Ordering::Greater);
    assert_eq!(cmp.compare(&bob, &alice), Ordering::Less);
    let shared = cmp.clone();
    assert_eq!(shared.compare(&carol, &alice), Ordering::Less);
    let f = ArcComparator::new(|a: &i32, b: &i32| b.cmp(a)).into_fn();
    assert_eq!(f(&1, &2), Ordering::Greater);
}

#[test]
fn closure_reversed_and_then_comparing() {
    let rev = (|a: &i32, b: &i32| a.cmp(b)).reversed();
    assert_eq!(rev.compare(&1, &2), Ordering::Greater);
    let by_abs = (|a: &i32, b: &i32| a.abs().cmp(&b.abs()))
        .then_comparing(BoxComparator::new(|a: &i32, b: &i32| a.cmp(b)));
    assert_eq!(by_abs.compare(&-3, &3), Ordering::Less);
    assert_eq!(by_abs.compare(&-4, &3), Ordering::Greater);
}

#[test]
fn comparator_conversions_keep_behaviour() {
    let boxed = RcComparator::new(|a: &i32, b: &i32| a.cmp(b)).into_box();
    assert_eq!(boxed.compare(&1, &2), Ordering::Less);
    let rc = ArcComparator::new(|a: &i32, b: &i32| a.cmp(b)).into_rc();
    assert_eq!(rc.compare(&2, &1), Ordering::Greater);
    let arc = RcComparator::new(|a: &i32, b: &i32| a.cmp(b)).into_box();
    assert_eq!(arc.compare(&2, &2), Ordering::Equal);
}
