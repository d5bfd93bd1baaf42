use interval::ops::Range;
use interval::Interval;
use pcp::kernel::DeepClone;
use pcp::kernel::Trilean::False;
use pcp::kernel::Trilean::True;
use pcp::kernel::Trilean::Unknown;
use pcp::propagation::events::FDEvent::Assignment;
use pcp::propagation::events::FDEvent::Bound;
use pcp::propagation::propagator::Propagator;
use pcp::propagators::formula::Formula;
use pcp::propagators::x_eq_y_plus_z::XEqYPlusZ;
use pcp::propagators::x_eq_y::XEqY;
use pcp::propagators::x_geq_y_plus_z::x_geq_y_plus_z;
use pcp::propagators::x_leq_y_plus_z::x_leq_y_plus_z;
use pcp::propagators::x_neq_y::XNeqY;
use pcp::variable::delta_store::DeltaStore;

fn store_of(domains: Vec<(i32, i32)>) -> DeltaStore {
    let mut store = DeltaStore::empty();
    for (lb, ub) in domains {
        store.allocate(Interval::new(lb, ub));
    }
    store
}

#[test]
fn equality_of_equal_domains_stays_unknown() {
    let mut store = store_of(vec![(0, 10), (0, 10)]);
    let mut x_eq_y = XEqY::new(0, 1);
    assert_eq!(x_eq_y.is_subsumed(&store), Unknown);
    assert!(x_eq_y.propagate(&mut store));
    assert_eq!(store.read(0), Interval::new(0, 10));
    assert_eq!(store.read(1), Interval::new(0, 10));
    assert_eq!(store.consume_delta(), vec![]);
    assert_eq!(x_eq_y.is_subsumed(&store), Unknown);
}

#[test]
fn equality_of_domains_that_touch_assigns_both() {
    let mut store = store_of(vec![(0, 10), (10, 20)]);
    let mut x_eq_y = XEqY::new(0, 1);
    assert_eq!(x_eq_y.is_subsumed(&store), Unknown);
    assert!(x_eq_y.propagate(&mut store));
    assert_eq!(store.read(0), Interval::new(10, 10));
    assert_eq!(store.read(1), Interval::new(10, 10));
    assert_eq!(x_eq_y.is_subsumed(&store), True);
    assert_eq!(store.consume_delta(), vec![(0, Assignment), (1, Assignment)]);
}

#[test]
fn equality_of_disjoint_domains_fails() {
    let mut store = store_of(vec![(0, 10), (11, 20)]);
    let mut x_eq_y = XEqY::new(0, 1);
    assert_eq!(x_eq_y.is_subsumed(&store), False);
    assert!(!x_eq_y.propagate(&mut store));
    assert_eq!(store.read(0), Interval::new(0, 10));
    assert_eq!(store.read(1), Interval::new(11, 20));
    assert_eq!(x_eq_y.is_subsumed(&store), False);
}

#[test]
fn a_sum_as_two_inequalities_assigns_both_terms() {
    let mut store = store_of(vec![(12, 12), (0, 6), (0, 6)]);
    let mut geq = x_geq_y_plus_z(0, 1, 2);
    let mut leq = x_leq_y_plus_z(0, 1, 2);
    assert_eq!(geq.dependencies(), leq.dependencies());
    assert_eq!(geq.is_subsumed(&store).and(leq.is_subsumed(&store)), Unknown);
    assert!(geq.propagate(&mut store));
    assert!(leq.propagate(&mut store));
    assert_eq!(store.read(0), Interval::new(12, 12));
    assert_eq!(store.read(1), Interval::new(6, 6));
    assert_eq!(store.read(2), Interval::new(6, 6));
    assert_eq!(geq.is_subsumed(&store).and(leq.is_subsumed(&store)), True);
    assert_eq!(store.consume_delta(), vec![(1, Assignment), (2, Assignment)]);
}

#[test]
fn disequality_removes_the_assigned_value_at_a_bound() {
    let mut store = store_of(vec![(0, 0), (0, 10)]);
    let mut x_neq_y = XNeqY::new(0, 1);
    assert_eq!(x_neq_y.is_subsumed(&store), Unknown);
    assert!(x_neq_y.propagate(&mut store));
    assert_eq!(store.read(0), Interval::new(0, 0));
    assert_eq!(store.read(1), Interval::new(1, 10));
    assert_eq!(store.consume_delta(), vec![(1, Bound)]);
    assert_eq!(x_neq_y.is_subsumed(&store), True);
}

#[test]
fn disequality_of_the_same_value_fails_and_changes_nothing() {
    let mut store = store_of(vec![(1, 1), (1, 1)]);
    let mut x_neq_y = XNeqY::new(0, 1);
    assert_eq!(x_neq_y.is_subsumed(&store), False);
    assert!(!x_neq_y.propagate(&mut store));
    assert_eq!(store.read(0), Interval::new(1, 1));
    assert_eq!(store.read(1), Interval::new(1, 1));
    assert_eq!(x_neq_y.is_subsumed(&store), False);
}

#[test]
fn disequality_at_the_greatest_integer() {
    let mut store = store_of(vec![(i32::MAX, i32::MAX), (i32::MAX, i32::MAX), (0, i32::MAX)]);
    assert!(!XNeqY::new(0, 1).propagate(&mut store));
    assert!(XNeqY::new(0, 2).propagate(&mut store));
    assert_eq!(store.read(2), Interval::new(0, i32::MAX - 1));
}

#[test]
fn disequality_looks_at_the_right_variable_too() {
    let mut store = store_of(vec![(0, 10), (10, 10)]);
    let mut x_neq_y = XNeqY::new(0, 1);
    assert!(x_neq_y.propagate(&mut store));
    assert_eq!(store.read(0), Interval::new(0, 9));
    assert_eq!(store.consume_delta(), vec![(0, Bound)]);
    assert_eq!(x_neq_y.is_subsumed(&store), True);
}

#[test]
fn the_opposite_of_a_disequality_is_the_equality() {
    let mut store = store_of(vec![(0, 10), (5, 15)]);
    let mut x_eq_y = XNeqY::new(0, 1).not();
    assert_eq!(x_eq_y.dependencies(), XEqY::new(0, 1).dependencies());
    assert!(x_eq_y.propagate(&mut store));
    assert_eq!(store.read(0), Interval::new(5, 10));
    assert_eq!(store.read(1), Interval::new(5, 10));
}

#[test]
fn clones_of_propagators_do_the_same() {
    let mut store = store_of(vec![(0, 0), (0, 10)]);
    let first = XNeqY::new(0, 1);
    let mut copy = first.clone();
    assert!(copy.propagate(&mut store));
    assert_eq!(store.read(1), Interval::new(1, 10));
    let mut other = store_of(vec![(0, 10), (5, 15)]);
    let mut deep = XEqY::new(0, 1).deep_clone();
    assert!(deep.propagate(&mut other));
    assert_eq!(other.read(0), Interval::new(5, 10));
}

#[test]
fn deep_clones_watch_the_same_variables() {
    assert_eq!(XEqY::new(3, 1).deep_clone().dependencies(), XEqY::new(3, 1).dependencies());
    assert_eq!(XNeqY::new(3, 1).deep_clone().dependencies(), XNeqY::new(3, 1).dependencies());
    assert_eq!(
        x_geq_y_plus_z(2, 0, 1).deep_clone().dependencies(),
        x_geq_y_plus_z(2, 0, 1).dependencies()
    );
    assert_eq!(
        x_leq_y_plus_z(2, 0, 1).deep_clone().dependencies(),
        x_leq_y_plus_z(2, 0, 1).dependencies()
    );
    let sum = Formula::Sum(XEqYPlusZ::new(2, 0, 1));
    assert_eq!(sum.deep_clone().dependencies(), sum.dependencies());
    let mut store = store_of(vec![(0, 6), (0, 6), (12, 12)]);
    assert!(sum.deep_clone().propagate(&mut store));
    assert_eq!(store.read(0), Interval::new(6, 6));
    assert_eq!(store.read(1), Interval::new(6, 6));
}

#[test]
fn an_inequality_narrows_all_three_variables() {
    let mut store = store_of(vec![(0, 10), (3, 20), (4, 20)]);
    let mut geq = x_geq_y_plus_z(0, 1, 2);
    assert_eq!(geq.is_subsumed(&store), Unknown);
    assert!(geq.propagate(&mut store));
    assert_eq!(store.read(0), Interval::new(7, 10));
    assert_eq!(store.read(1), Interval::new(3, 6));
    assert_eq!(store.read(2), Interval::new(4, 7));
    assert_eq!(store.consume_delta(), vec![(0, Bound), (1, Bound), (2, Bound)]);
    assert_eq!(geq.is_subsumed(&store), Unknown);
}

#[test]
fn the_other_inequality_narrows_the_other_bounds() {
    let mut store = store_of(vec![(0, 30), (3, 8), (4, 9)]);
    let mut leq = x_leq_y_plus_z(0, 1, 2);
    assert_eq!(leq.is_subsumed(&store), Unknown);
    assert!(leq.propagate(&mut store));
    assert_eq!(store.read(0), Interval::new(0, 17));
    assert_eq!(store.read(1), Interval::new(3, 8));
    assert_eq!(store.read(2), Interval::new(4, 9));
    assert_eq!(store.consume_delta(), vec![(0, Bound)]);
    let mut high = store_of(vec![(15, 30), (3, 8), (4, 9)]);
    assert!(leq.propagate(&mut high));
    assert_eq!(high.read(0), Interval::new(15, 17));
    assert_eq!(high.read(1), Interval::new(6, 8));
    assert_eq!(high.read(2), Interval::new(7, 9));
    assert_eq!(high.consume_delta(), vec![(0, Bound), (1, Bound), (2, Bound)]);
}

#[test]
fn an_inequality_that_cannot_hold_fails() {
    let mut store = store_of(vec![(0, 5), (3, 20), (4, 20)]);
    let mut geq = x_geq_y_plus_z(0, 1, 2);
    assert_eq!(geq.is_subsumed(&store), False);
    assert!(!geq.propagate(&mut store));
    assert_eq!(store.read(0), Interval::new(0, 5));
    assert_eq!(store.read(1), Interval::new(3, 20));
    assert_eq!(store.read(2), Interval::new(4, 20));
    let mut leq = x_leq_y_plus_z(0, 1, 2);
    assert_eq!(leq.is_subsumed(&store), True);
    assert!(leq.propagate(&mut store));
    assert_eq!(store.consume_delta(), vec![]);
}

#[test]
fn an_inequality_that_holds_anyway_is_entailed() {
    let store = store_of(vec![(20, 30), (3, 8), (4, 9)]);
    assert_eq!(x_geq_y_plus_z(0, 1, 2).is_subsumed(&store), True);
    assert_eq!(x_leq_y_plus_z(0, 1, 2).is_subsumed(&store), False);
    let exact = store_of(vec![(17, 30), (3, 8), (4, 9)]);
    assert_eq!(x_geq_y_plus_z(0, 1, 2).is_subsumed(&exact), True);
    assert_eq!(x_leq_y_plus_z(0, 1, 2).is_subsumed(&exact), Unknown);
}
