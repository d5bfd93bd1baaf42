use gcollections::ops::Bounded;
use gcollections::ops::Subset;
use interval::ops::Range;
use interval::Interval;
use pcp::kernel::Trilean;
use pcp::propagation::events::FDEvent;
use pcp::propagation::propagator::Propagator;
use pcp::propagation::store::Store;
use pcp::propagators::formula::Formula;
use pcp::propagators::x_eq_y::XEqY;
use pcp::propagators::x_eq_y_plus_z::XEqYPlusZ;
use pcp::propagators::x_geq_y_plus_z::x_geq_y_plus_z;
use pcp::propagators::x_leq_y_plus_z::x_leq_y_plus_z;
use pcp::propagators::x_neq_y::XNeqY;
use pcp::variable::delta_store::DeltaStore;

fn store_of(domains: &[Interval<i32>]) -> DeltaStore {
    let mut store = DeltaStore::empty();
    for dom in domains {
        store.allocate(*dom);
    }
    store
}

fn domains_of(store: &DeltaStore) -> Vec<Interval<i32>> {
    (0..store.size()).map(|var| store.read(var)).collect()
}

fn formulas() -> Vec<Formula> {
    vec![
        Formula::Eq(XEqY::new(0, 1)),
        Formula::Eq(XEqY::new(2, 0)),
        Formula::Neq(XNeqY::new(0, 1)),
        Formula::Neq(XNeqY::new(1, 2)),
        Formula::GreaterEq(x_geq_y_plus_z(0, 1, 2)),
        Formula::LessEq(x_leq_y_plus_z(0, 1, 2)),
        Formula::Sum(XEqYPlusZ::new(0, 1, 2)),
        Formula::Sum(XEqYPlusZ::new(2, 0, 1)),
    ]
}

fn small_intervals() -> Vec<Interval<i32>> {
    let mut all = vec![];
    for lb in -1..4 {
        for ub in lb..4 {
            all.push(Interval::new(lb, ub));
        }
    }
    all
}

fn all_stores() -> Vec<Vec<Interval<i32>>> {
    let mut all = vec![];
    for x in small_intervals() {
        for y in small_intervals() {
            for z in small_intervals() {
                all.push(vec![x, y, z]);
            }
        }
    }
    all
}

fn holds(formula: &Formula, a: &[i32]) -> bool {
    match formula {
        Formula::Eq(_) | Formula::Neq(_) => {
            let deps = formula.dependencies();
            let same = a[deps[0].0] == a[deps[1].0];
            if matches!(formula, Formula::Eq(_)) {
                same
            } else {
                !same
            }
        }
        Formula::GreaterEq(_) | Formula::LessEq(_) | Formula::Sum(_) => {
            let deps = formula.dependencies();
            let (x, sum) = (a[deps[0].0], a[deps[1].0] + a[deps[2].0]);
            match formula {
                Formula::GreaterEq(_) => x >= sum,
                Formula::LessEq(_) => x <= sum,
                _ => x == sum,
            }
        }
    }
}

fn assignments(domains: &[Interval<i32>]) -> Vec<Vec<i32>> {
    let mut all = vec![];
    for x in domains[0].lower()..=domains[0].upper() {
        for y in domains[1].lower()..=domains[1].upper() {
            for z in domains[2].lower()..=domains[2].upper() {
                all.push(vec![x, y, z]);
            }
        }
    }
    all
}

fn inside(a: &[i32], domains: &[Interval<i32>]) -> bool {
    (0..a.len()).all(|i| domains[i].lower() <= a[i] && a[i] <= domains[i].upper())
}

#[test]
fn propagation_is_contracting() {
    for mut formula in formulas() {
        for before in all_stores() {
            let mut store = store_of(&before);
            formula.propagate(&mut store);
            let after = domains_of(&store);
            for var in 0..3 {
                assert!(after[var].is_subset(&before[var]));
                assert!(after[var].lower() <= after[var].upper());
            }
        }
    }
}

#[test]
fn propagation_is_idempotent() {
    for mut formula in formulas() {
        for before in all_stores() {
            let mut store = store_of(&before);
            let first = formula.propagate(&mut store);
            let once = domains_of(&store);
            let status = formula.is_subsumed(&store);
            store.consume_delta();
            let second = formula.propagate(&mut store);
            assert_eq!(domains_of(&store), once);
            assert_eq!(second, first);
            assert_eq!(formula.is_subsumed(&store), status);
            assert_eq!(store.consume_delta(), vec![]);
        }
    }
}

#[test]
fn a_decided_status_stays_under_narrowing() {
    let stores = all_stores();
    for formula in formulas() {
        for before in stores.iter().step_by(7) {
            let status = formula.is_subsumed(&store_of(before));
            if status == Trilean::Unknown {
                continue;
            }
            for after in stores.iter().step_by(5) {
                if (0..3).all(|var| after[var].is_subset(&before[var])) {
                    assert_eq!(formula.is_subsumed(&store_of(after)), status);
                }
            }
        }
    }
}

#[test]
fn propagation_fails_exactly_when_the_status_becomes_false() {
    for mut formula in formulas() {
        for before in all_stores() {
            let mut store = store_of(&before);
            let ok = formula.propagate(&mut store);
            assert_eq!(ok, formula.is_subsumed(&store) != Trilean::False);
        }
    }
}

#[test]
fn an_entailed_constraint_changes_nothing() {
    for mut formula in formulas() {
        for before in all_stores() {
            let mut store = store_of(&before);
            if formula.is_subsumed(&store) == Trilean::True {
                assert!(formula.propagate(&mut store));
                assert_eq!(domains_of(&store), before);
            }
        }
    }
}

#[test]
fn the_status_tells_the_truth() {
    for formula in formulas() {
        for domains in all_stores().iter().step_by(3) {
            let status = formula.is_subsumed(&store_of(domains));
            for a in assignments(domains) {
                match status {
                    Trilean::True => assert!(holds(&formula, &a)),
                    Trilean::False => assert!(!holds(&formula, &a)),
                    Trilean::Unknown => {}
                }
            }
        }
    }
}

#[test]
fn propagation_loses_no_solution() {
    for mut formula in formulas() {
        for before in all_stores().iter().step_by(3) {
            let mut store = store_of(before);
            let ok = formula.propagate(&mut store);
            let after = domains_of(&store);
            for a in assignments(before) {
                if holds(&formula, &a) {
                    assert!(ok);
                    assert!(inside(&a, &after));
                }
            }
        }
    }
}

#[test]
fn the_delta_reports_exactly_what_changed() {
    for mut formula in formulas() {
        for before in all_stores() {
            let mut store = store_of(&before);
            formula.propagate(&mut store);
            let after = domains_of(&store);
            let mut expected = vec![];
            for var in 0..3 {
                if after[var] != before[var] {
                    let event = if after[var].lower() == after[var].upper() {
                        FDEvent::Assignment
                    } else {
                        FDEvent::Bound
                    };
                    expected.push((var, event));
                }
            }
            assert_eq!(store.consume_delta(), expected);
        }
    }
}

#[test]
fn the_fixpoint_loses_no_solution_and_is_at_rest() {
    let formulas_a = vec![
        Formula::Sum(XEqYPlusZ::new(0, 1, 2)),
        Formula::Neq(XNeqY::new(1, 2)),
        Formula::GreaterEq(x_geq_y_plus_z(1, 2, 0)),
    ];
    let mut constraints = Store::new();
    constraints.register(Formula::Sum(XEqYPlusZ::new(0, 1, 2)));
    constraints.register(Formula::Neq(XNeqY::new(1, 2)));
    constraints.register(Formula::GreaterEq(x_geq_y_plus_z(1, 2, 0)));
    for before in all_stores() {
        let mut store = store_of(&before);
        let result = constraints.consistency(&mut store);
        let after = domains_of(&store);
        let solutions: Vec<Vec<i32>> = assignments(&before)
            .into_iter()
            .filter(|a| formulas_a.iter().all(|formula| holds(formula, a)))
            .collect();
        for a in &solutions {
            assert!(inside(a, &after));
        }
        if result == Trilean::False {
            assert!(solutions.is_empty());
        } else {
            for mut formula in vec![
                Formula::Sum(XEqYPlusZ::new(0, 1, 2)),
                Formula::Neq(XNeqY::new(1, 2)),
                Formula::GreaterEq(x_geq_y_plus_z(1, 2, 0)),
            ] {
                assert!(formula.propagate(&mut store));
                assert_eq!(domains_of(&store), after);
            }
        }
        if result == Trilean::True {
            assert_eq!(solutions.len(), assignments(&after).len());
        }
    }
}

#[test]
fn the_fixpoint_is_the_same_in_any_order() {
    let mut forwards = Store::new();
    forwards.register(Formula::Sum(XEqYPlusZ::new(0, 1, 2)));
    forwards.register(Formula::Neq(XNeqY::new(1, 2)));
    forwards.register(Formula::Eq(XEqY::new(0, 2)));
    let mut backwards = Store::new();
    backwards.register(Formula::Eq(XEqY::new(0, 2)));
    backwards.register(Formula::Neq(XNeqY::new(1, 2)));
    backwards.register(Formula::Sum(XEqYPlusZ::new(0, 1, 2)));
    for before in all_stores() {
        let mut first = store_of(&before);
        let mut second = store_of(&before);
        let result = forwards.consistency(&mut first);
        assert_eq!(backwards.consistency(&mut second), result);
        if result != Trilean::False {
            assert_eq!(domains_of(&first), domains_of(&second));
        }
    }
}
