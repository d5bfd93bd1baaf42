//! The constraint `x = y`.

use crate::domain::bounds;
use crate::domain::bounds_of;
use crate::domain::interval_is_disjoint;
use crate::domain::intersect;
use crate::domain::proper;
use crate::domain::Bounds;
use crate::kernel::DeepClone;
use crate::kernel::Trilean;
use crate::propagation::events::FDEvent;
use crate::propagation::propagator::Propagator;
use crate::variable::delta_store::DeltaStore;
use interval::Interval;
use vstd::prelude::*;

verus! {

/// The status of `x = y` under the domains of the two variables: `False` where they share no
/// value, `True` where both are the same single value, `Unknown` otherwise.
pub open spec fn equality_status(x: Bounds, y: Bounds) -> Trilean {
    if x.disjoint(y) {
        Trilean::False
    } else if x.lb == y.ub && x.ub == y.lb {
        Trilean::True
    } else {
        Trilean::Unknown
    }
}

/// The status of `x = y` under the domains of the two variables.
pub fn status_of_equality(x: &Interval<i32>, y: &Interval<i32>) -> (status: Trilean)
    requires
        proper(*x),
        proper(*y),
    ensures
        status == equality_status(bounds_of(*x), bounds_of(*y)),
{
    if interval_is_disjoint(x, y) {
        Trilean::False
    } else {
        let (x_lb, x_ub) = bounds(x);
        let (y_lb, y_ub) = bounds(y);
        if x_lb == y_ub && x_ub == y_lb {
            Trilean::True
        } else {
            Trilean::Unknown
        }
    }
}

/// The propagator of `x = y`: both variables keep the values that they share.
#[derive(Clone, Copy, Debug)]
pub struct XEqY {
    x: usize,
    y: usize,
}

impl XEqY {
    /// The variable on the left.
    pub closed spec fn x(&self) -> usize {
        self.x
    }

    /// The variable on the right.
    pub closed spec fn y(&self) -> usize {
        self.y
    }

    /// The propagator of `x = y` for the variables with the handles `x` and `y`.
    pub fn new(x: usize, y: usize) -> (p: XEqY)
        ensures
            p.x() == x,
            p.y() == y,
    {
        XEqY { x: x, y: y }
    }
}

impl DeepClone for XEqY {
    fn deep_clone(&self) -> (copy: XEqY) {
        *self
    }
}

impl Propagator for XEqY {
    open spec fn valid(&self, nvars: nat) -> bool {
        self.x() < nvars && self.y() < nvars
    }

    open spec fn holds(&self, assignment: Seq<int>) -> bool {
        assignment[self.x() as int] == assignment[self.y() as int]
    }

    open spec fn status(&self, domains: Seq<Bounds>) -> Trilean {
        equality_status(domains[self.x() as int], domains[self.y() as int])
    }

    open spec fn succeeds(&self, domains: Seq<Bounds>) -> bool {
        !domains[self.x() as int].meet(domains[self.y() as int]).is_empty()
    }

    open spec fn outcome(&self, domains: Seq<Bounds>) -> Seq<Bounds> {
        let shared = domains[self.x() as int].meet(domains[self.y() as int]);
        if shared.is_empty() {
            domains
        } else {
            domains.update(self.x() as int, shared).update(self.y() as int, shared)
        }
    }

    open spec fn watched(&self) -> Seq<(usize, FDEvent)> {
        seq![(self.x(), FDEvent::Inner), (self.y(), FDEvent::Inner)]
    }

    fn is_subsumed(&self, store: &DeltaStore) -> (status: Trilean) {
        let x = store.read(self.x);
        let y = store.read(self.y);
        status_of_equality(&x, &y)
    }

    fn propagate(&mut self, store: &mut DeltaStore) -> (ok: bool) {
        let x = store.read(self.x);
        let y = store.read(self.y);
        let shared = intersect(&x, &y);
        store.update(self.x, shared) && store.update(self.y, shared)
    }

    fn dependencies(&self) -> (deps: Vec<(usize, FDEvent)>) {
        let mut deps: Vec<(usize, FDEvent)> = Vec::new();
        deps.push((self.x, FDEvent::Inner));
        deps.push((self.y, FDEvent::Inner));
        deps
    }

    proof fn lemma_watched_in_range(&self, nvars: nat) {
    }

    proof fn lemma_contracting(&self, domains: Seq<Bounds>) {
    }

    proof fn lemma_idempotent(&self, domains: Seq<Bounds>) {
    }

    proof fn lemma_status_monotonic(&self, before: Seq<Bounds>, after: Seq<Bounds>) {
    }

    proof fn lemma_failure(&self, domains: Seq<Bounds>) {
    }

    proof fn lemma_entailed(&self, domains: Seq<Bounds>) {
    }

    proof fn lemma_asleep(&self, before: Seq<Bounds>, after: Seq<Bounds>) {
    }

    proof fn lemma_keeps_fixpoints(&self, inner: Seq<Bounds>, outer: Seq<Bounds>) {
    }

    proof fn lemma_sound(&self, domains: Seq<Bounds>, assignment: Seq<int>) {
    }
}

} // verus!
