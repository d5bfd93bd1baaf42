use interval::interval::ToInterval;
use interval::Interval;
use pcp::kernel::Trilean;
use pcp::kernel::Trilean::False;
use pcp::kernel::Trilean::True;
use pcp::kernel::Trilean::Unknown;
use pcp::propagation::events::FDEvent;
use pcp::propagation::events::FDEvent::Assignment;
use pcp::propagation::events::FDEvent::Bound;
use pcp::propagation::propagator::Propagator;
use pcp::propagators::x_eq_y::XEqY;
use pcp::propagators::x_eq_y_plus_z::XEqYPlusZ;
use pcp::propagators::x_neq_y::XNeqY;
use pcp::variable::delta_store::DeltaStore;

fn consume_delta(store: &mut DeltaStore, delta_expected: Vec<(usize, FDEvent)>) {
    assert_eq!(store.consume_delta(), delta_expected);
}

fn subsumption_propagate<P: Propagator>(
    test_num: u32,
    mut prop: P,
    store: &mut DeltaStore,
    before: Trilean,
    after: Trilean,
    delta_expected: Vec<(usize, FDEvent)>,
    propagate_success: bool,
) {
    println!("Test number {}", test_num);
    assert_eq!(prop.is_subsumed(store), before);
    assert_eq!(prop.propagate(store), propagate_success);
    if propagate_success {
        consume_delta(store, delta_expected);
    }
    assert_eq!(prop.is_subsumed(store), after);
}

fn binary_propagator_test<P: Propagator, FnProp: FnOnce(usize, usize) -> P>(
    test_num: u32,
    make_prop: FnProp,
    x: Interval<i32>,
    y: Interval<i32>,
    before: Trilean,
    after: Trilean,
    delta_expected: Vec<(usize, FDEvent)>,
    propagate_success: bool,
) {
    let mut store = DeltaStore::empty();
    let x = store.allocate(x);
    let y = store.allocate(y);
    let propagator = make_prop(x, y);
    subsumption_propagate(
        test_num,
        propagator,
        &mut store,
        before,
        after,
        delta_expected,
        propagate_success,
    );
}

fn trinary_propagator_test<P: Propagator, FnProp: FnOnce(usize, usize, usize) -> P>(
    test_num: u32,
    make_prop: FnProp,
    x: Interval<i32>,
    y: Interval<i32>,
    z: Interval<i32>,
    before: Trilean,
    after: Trilean,
    delta_expected: Vec<(usize, FDEvent)>,
    propagate_success: bool,
) {
    let mut store = DeltaStore::empty();
    let x = store.allocate(x);
    let y = store.allocate(y);
    let z = store.allocate(z);
    let propagator = make_prop(x, y, z);
    subsumption_propagate(
        test_num,
        propagator,
        &mut store,
        before,
        after,
        delta_expected,
        propagate_success,
    );
}

fn x_eq_y_test_one(
    x: Interval<i32>,
    y: Interval<i32>,
    before: Trilean,
    after: Trilean,
    delta_expected: Vec<(usize, FDEvent)>,
    propagate_success: bool,
) {
    binary_propagator_test(0, XEqY::new, x, y, before, after, delta_expected, propagate_success);
}

#[test]
fn x_eq_y_test() {
    let dom0_10 = (0, 10).to_interval();
    let dom10_20 = (10, 20).to_interval();
    let dom5_15 = (5, 15).to_interval();
    let dom11_20 = (11, 20).to_interval();
    let dom1_1 = (1, 1).to_interval();

    x_eq_y_test_one(dom0_10, dom0_10, Unknown, Unknown, vec![], true);
    x_eq_y_test_one(dom0_10, dom10_20, Unknown, True, vec![(0, Assignment), (1, Assignment)], true);
    x_eq_y_test_one(dom5_15, dom10_20, Unknown, Unknown, vec![(0, Bound), (1, Bound)], true);
    x_eq_y_test_one(dom5_15, dom0_10, Unknown, Unknown, vec![(0, Bound), (1, Bound)], true);
    x_eq_y_test_one(dom0_10, dom11_20, False, False, vec![], false);
    x_eq_y_test_one(dom11_20, dom0_10, False, False, vec![], false);
    x_eq_y_test_one(dom1_1, dom0_10, Unknown, True, vec![(1, Assignment)], true);
}

fn x_neq_y_test_one(
    test_num: u32,
    x: Interval<i32>,
    y: Interval<i32>,
    before: Trilean,
    after: Trilean,
    delta_expected: Vec<(usize, FDEvent)>,
    propagate_success: bool,
) {
    binary_propagator_test(
        test_num,
        XNeqY::new,
        x,
        y,
        before,
        after,
        delta_expected,
        propagate_success,
    );
}

#[test]
fn x_neq_y_test() {
    let dom0_10 = (0, 10).to_interval();
    let dom10_20 = (10, 20).to_interval();
    let dom5_15 = (5, 15).to_interval();
    let dom11_20 = (11, 20).to_interval();
    let one = (1, 1).to_interval();
    let zero = (0, 0).to_interval();
    let ten = (10, 10).to_interval();

    x_neq_y_test_one(1, dom0_10, dom0_10, Unknown, Unknown, vec![], true);
    x_neq_y_test_one(2, dom0_10, dom10_20, Unknown, Unknown, vec![], true);
    x_neq_y_test_one(3, dom5_15, dom10_20, Unknown, Unknown, vec![], true);
    x_neq_y_test_one(4, dom0_10, dom11_20, True, True, vec![], true);
    x_neq_y_test_one(5, one, dom0_10, Unknown, Unknown, vec![], true);
    x_neq_y_test_one(6, zero, dom0_10, Unknown, True, vec![(1, Bound)], true);
    x_neq_y_test_one(7, ten, dom0_10, Unknown, True, vec![(1, Bound)], true);
    x_neq_y_test_one(8, one, one, False, False, vec![], false);
    x_neq_y_test_one(9, zero, one, True, True, vec![], true);
}

fn x_eq_y_plus_z_test_one(
    test_num: u32,
    x: Interval<i32>,
    y: Interval<i32>,
    z: Interval<i32>,
    before: Trilean,
    after: Trilean,
    delta_expected: Vec<(usize, FDEvent)>,
    propagate_success: bool,
) {
    trinary_propagator_test(
        test_num,
        XEqYPlusZ::new,
        x,
        y,
        z,
        before,
        after,
        delta_expected,
        propagate_success,
    );
}

#[test]
fn x_eq_y_plus_z_test() {
    let dom0_10 = (0, 10).to_interval();
    let dom10_20 = (10, 20).to_interval();
    let dom12_12 = (12, 12).to_interval();
    let dom0_6 = (0, 6).to_interval();
    let dom0_5 = (0, 5).to_interval();
    let dom0_1 = (0, 1).to_interval();
    let dom1_1 = (1, 1).to_interval();
    let dom2_2 = (2, 2).to_interval();

    x_eq_y_plus_z_test_one(1, dom0_10, dom0_10, dom0_10, Unknown, Unknown, vec![], true);
    x_eq_y_plus_z_test_one(
        2,
        dom12_12,
        dom0_6,
        dom0_6,
        Unknown,
        True,
        vec![(1, Assignment), (2, Assignment)],
        true,
    );
    x_eq_y_plus_z_test_one(3, dom10_20, dom1_1, dom1_1, False, False, vec![], false);
    x_eq_y_plus_z_test_one(4, dom2_2, dom1_1, dom1_1, True, True, vec![], true);
    x_eq_y_plus_z_test_one(5, dom1_1, dom2_2, dom2_2, False, False, vec![], false);
    x_eq_y_plus_z_test_one(6, dom0_6, dom0_5, dom0_1, Unknown, Unknown, vec![], true);
}
