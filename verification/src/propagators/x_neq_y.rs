//! The constraint `x != y`.

use crate::domain::interval_is_singleton;
use crate::domain::interval_lower;
use crate::domain::remove_value;
use crate::domain::Bounds;
use crate::kernel::DeepClone;
use crate::kernel::Trilean;
use crate::propagation::events::FDEvent;
use crate::propagation::propagator::Propagator;
use crate::propagators::x_eq_y::equality_status;
use crate::propagators::x_eq_y::XEqY;
use crate::variable::delta_store::DeltaStore;
use vstd::prelude::*;

verus! {

/// The propagator of `x != y`: once one variable has a single value, that value leaves the
/// other variable's domain, as far as an interval can express it.
#[derive(Debug)]
pub struct XNeqY {
    x: usize,
    y: usize,
}

impl XNeqY {
    /// The variable on the left.
    pub closed spec fn x(&self) -> usize {
        self.x
    }

    /// The variable on the right.
    pub closed spec fn y(&self) -> usize {
        self.y
    }

    /// The propagator of `x != y` for the variables with the handles `x` and `y`.
    pub fn new(x: usize, y: usize) -> (p: XNeqY)
        ensures
            p.x() == x,
            p.y() == y,
    {
        XNeqY { x: x, y: y }
    }

    /// The propagator of the opposite constraint, `x = y`, on the same variables.
    pub fn not(self) -> (p: XEqY)
        ensures
            p.x() == self.x(),
            p.y() == self.y(),
    {
        XEqY::new(self.x, self.y)
    }
}

impl Clone for XNeqY {
    fn clone(&self) -> (p: XNeqY)
        ensures
            p == *self,
    {
        XNeqY::new(self.x, self.y)
    }
}

impl DeepClone for XNeqY {
    fn deep_clone(&self) -> (copy: XNeqY) {
        XNeqY::new(self.x, self.y)
    }
}

impl Propagator for XNeqY {
    open spec fn valid(&self, nvars: nat) -> bool {
        self.x() < nvars && self.y() < nvars
    }

    open spec fn holds(&self, assignment: Seq<int>) -> bool {
        assignment[self.x() as int] != assignment[self.y() as int]
    }

    open spec fn status(&self, domains: Seq<Bounds>) -> Trilean {
        equality_status(domains[self.x() as int], domains[self.y() as int]).spec_not()
    }

    open spec fn succeeds(&self, domains: Seq<Bounds>) -> bool {
        let x = domains[self.x() as int];
        let y = domains[self.y() as int];
        if x.is_singleton() {
            !y.without(x.lb).is_empty()
        } else if y.is_singleton() {
            !x.without(y.lb).is_empty()
        } else {
            true
        }
    }

    open spec fn outcome(&self, domains: Seq<Bounds>) -> Seq<Bounds> {
        let x = domains[self.x() as int];
        let y = domains[self.y() as int];
        if !self.succeeds(domains) {
            domains
        } else if x.is_singleton() {
            domains.update(self.y() as int, y.without(x.lb))
        } else if y.is_singleton() {
            domains.update(self.x() as int, x.without(y.lb))
        } else {
            domains
        }
    }

    open spec fn watched(&self) -> Seq<(usize, FDEvent)> {
        seq![(self.x(), FDEvent::Inner), (self.y(), FDEvent::Inner)]
    }

    fn is_subsumed(&self, store: &DeltaStore) -> (status: Trilean) {
        XEqY::new(self.x, self.y).is_subsumed(store).not()
    }

    fn propagate(&mut self, store: &mut DeltaStore) -> (ok: bool) {
        let x = store.read(self.x);
        let y = store.read(self.y);
        if interval_is_singleton(&x) {
            store.update(self.y, remove_value(&y, interval_lower(&x)))
        } else if interval_is_singleton(&y) {
            store.update(self.x, remove_value(&x, interval_lower(&y)))
        } else {
            true
        }
    }

    fn dependencies(&self) -> (deps: Vec<(usize, FDEvent)>) {
        XEqY::new(self.x, self.y).dependencies()
    }

    proof fn lemma_watched_in_range(&self, nvars: nat) {
    }

    proof fn lemma_contracting(&self, domains: Seq<Bounds>) {
    }

    proof fn lemma_idempotent(&self, domains: Seq<Bounds>) {
    }

    proof fn lemma_status_monotonic(&self, before: Seq<Bounds>, after: Seq<Bounds>) {
    }

    proof fn lemma_failure(&self, domains: Seq<Bounds>) {
    }

    proof fn lemma_entailed(&self, domains: Seq<Bounds>) {
    }

    proof fn lemma_asleep(&self, before: Seq<Bounds>, after: Seq<Bounds>) {
    }

    proof fn lemma_keeps_fixpoints(&self, inner: Seq<Bounds>, outer: Seq<Bounds>) {
    }

    proof fn lemma_sound(&self, domains: Seq<Bounds>, assignment: Seq<int>) {
    }
}

} // verus!
