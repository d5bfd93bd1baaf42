use gcollections::ops::Bounded;
use gcollections::ops::Empty;
use gcollections::ops::IsEmpty;
use interval::ops::Range;
use interval::Interval;
use pcp::domain::bounds;
use pcp::domain::domain;
use pcp::domain::empty_domain;
use pcp::domain::intersect;
use pcp::domain::lower_upper;
use pcp::domain::raise_lower;
use pcp::domain::remove_value;
use pcp::propagation::events::FDEvent;

#[test]
fn domain_holds_the_bounds_given() {
    let d = domain(3, 8).unwrap();
    assert_eq!(d.lower(), 3);
    assert_eq!(d.upper(), 8);
    assert_eq!(d, Interval::new(3, 8));
    assert_eq!(bounds(&d), (3, 8));
}

#[test]
fn domain_of_one_value() {
    assert_eq!(domain(5, 5), Some(Interval::new(5, 5)));
    assert_eq!(domain(i32::MAX, i32::MAX), Some(Interval::new(i32::MAX, i32::MAX)));
}

#[test]
fn domain_refuses_an_empty_range() {
    assert_eq!(domain(4, 3), None);
    assert_eq!(domain(i32::MAX, 0), None);
}

#[test]
fn domain_refuses_the_least_integer() {
    assert_eq!(domain(i32::MIN, 0), None);
    assert_eq!(domain(i32::MIN + 1, 0), Some(Interval::new(i32::MIN + 1, 0)));
}

#[test]
fn empty_domain_is_empty() {
    assert!(empty_domain().is_empty());
    assert_eq!(empty_domain(), Interval::empty());
}

#[test]
fn intersect_keeps_the_shared_values() {
    assert_eq!(intersect(&Interval::new(0, 10), &Interval::new(5, 15)), Interval::new(5, 10));
    assert_eq!(intersect(&Interval::new(5, 15), &Interval::new(0, 10)), Interval::new(5, 10));
    assert_eq!(intersect(&Interval::new(0, 10), &Interval::new(10, 20)), Interval::new(10, 10));
    assert_eq!(intersect(&Interval::new(0, 10), &Interval::new(2, 3)), Interval::new(2, 3));
    assert!(intersect(&Interval::new(0, 10), &Interval::new(11, 20)).is_empty());
}

#[test]
fn remove_value_moves_a_bound() {
    assert_eq!(remove_value(&Interval::new(0, 10), 0), Interval::new(1, 10));
    assert_eq!(remove_value(&Interval::new(0, 10), 10), Interval::new(0, 9));
}

#[test]
fn remove_value_leaves_an_inner_value() {
    assert_eq!(remove_value(&Interval::new(0, 10), 5), Interval::new(0, 10));
    assert_eq!(remove_value(&Interval::new(0, 10), 11), Interval::new(0, 10));
    assert_eq!(remove_value(&Interval::new(0, 10), -1), Interval::new(0, 10));
}

#[test]
fn remove_value_of_the_only_value_gives_an_empty_domain() {
    assert!(remove_value(&Interval::new(7, 7), 7).is_empty());
    assert!(remove_value(&Interval::new(i32::MAX, i32::MAX), i32::MAX).is_empty());
    assert!(remove_value(&Interval::new(i32::MIN + 1, i32::MIN + 1), i32::MIN + 1).is_empty());
}

#[test]
fn remove_value_at_the_limits() {
    assert_eq!(
        remove_value(&Interval::new(0, i32::MAX), i32::MAX),
        Interval::new(0, i32::MAX - 1)
    );
    assert_eq!(
        remove_value(&Interval::new(i32::MIN + 1, 0), i32::MIN + 1),
        Interval::new(i32::MIN + 2, 0)
    );
}

#[test]
fn raise_lower_removes_what_is_below() {
    assert_eq!(raise_lower(&Interval::new(5, 9), 7), Interval::new(7, 9));
    assert_eq!(raise_lower(&Interval::new(5, 9), 9), Interval::new(9, 9));
    assert_eq!(raise_lower(&Interval::new(5, 9), 4), Interval::new(5, 9));
    assert!(raise_lower(&Interval::new(5, 9), 10).is_empty());
}

#[test]
fn raise_lower_beyond_the_range_of_a_bound() {
    assert!(raise_lower(&Interval::new(5, 9), i32::MAX as i64 + 1).is_empty());
    assert!(raise_lower(&Interval::new(5, i32::MAX), i64::MAX).is_empty());
    assert_eq!(raise_lower(&Interval::new(5, 9), i32::MIN as i64 - 1), Interval::new(5, 9));
    assert_eq!(raise_lower(&Interval::new(5, 9), i64::MIN), Interval::new(5, 9));
    assert_eq!(
        raise_lower(&Interval::new(5, i32::MAX), i32::MAX as i64),
        Interval::new(i32::MAX, i32::MAX)
    );
}

#[test]
fn lower_upper_removes_what_is_above() {
    assert_eq!(lower_upper(&Interval::new(5, 9), 8), Interval::new(5, 8));
    assert_eq!(lower_upper(&Interval::new(5, 9), 5), Interval::new(5, 5));
    assert_eq!(lower_upper(&Interval::new(5, 9), 12), Interval::new(5, 9));
    assert!(lower_upper(&Interval::new(5, 9), 3).is_empty());
}

#[test]
fn lower_upper_beyond_the_range_of_a_bound() {
    assert!(lower_upper(&Interval::new(5, 9), i32::MIN as i64 - 1).is_empty());
    assert!(lower_upper(&Interval::new(5, 9), i64::MIN).is_empty());
    assert!(lower_upper(&Interval::new(5, 9), i32::MIN as i64).is_empty());
    assert_eq!(lower_upper(&Interval::new(5, 9), i32::MAX as i64 + 1), Interval::new(5, 9));
    assert_eq!(lower_upper(&Interval::new(5, 9), i64::MAX), Interval::new(5, 9));
}

#[test]
fn event_of_a_narrowing() {
    let big = Interval::new(0, 10);
    assert_eq!(FDEvent::new(&Interval::new(0, 10), &big), FDEvent::NoChange);
    assert_eq!(FDEvent::new(&Interval::new(1, 10), &big), FDEvent::Bound);
    assert_eq!(FDEvent::new(&Interval::new(0, 9), &big), FDEvent::Bound);
    assert_eq!(FDEvent::new(&Interval::new(3, 4), &big), FDEvent::Bound);
    assert_eq!(FDEvent::new(&Interval::new(4, 4), &big), FDEvent::Assignment);
    assert_eq!(FDEvent::new(&Interval::new(0, 0), &big), FDEvent::Assignment);
    assert_eq!(FDEvent::new(&Interval::empty(), &big), FDEvent::Failure);
    assert_eq!(FDEvent::new(&Interval::new(11, 10), &big), FDEvent::Failure);
}

#[test]
fn event_of_a_narrowing_of_one_value() {
    let one = Interval::new(4, 4);
    assert_eq!(FDEvent::new(&Interval::new(4, 4), &one), FDEvent::NoChange);
    assert_eq!(FDEvent::new(&Interval::empty(), &one), FDEvent::Failure);
}
