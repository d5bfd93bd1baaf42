//! The constraint `x >= y + z`.

use crate::domain::bounds;
use crate::domain::lower_upper;
use crate::domain::raise_lower;
use crate::domain::Bounds;
use crate::kernel::DeepClone;
use crate::kernel::Trilean;
use crate::propagation::events::FDEvent;
use crate::propagation::propagator::Propagator;
use crate::variable::delta_store::DeltaStore;
use vstd::prelude::*;

verus! {

/// The propagator of `x >= y + z` over three different variables: `x` is at least the sum of
/// the lower bounds, and each of `y` and `z` is at most what `x` leaves beside the other.
#[derive(Clone, Copy, Debug)]
pub struct XGreaterEqYPlusZ {
    x: usize,
    y: usize,
    z: usize,
}

/// The propagator of `x >= y + z` for the variables with the handles `x`, `y` and `z`.
pub fn x_geq_y_plus_z(x: usize, y: usize, z: usize) -> (p: XGreaterEqYPlusZ)
    ensures
        p.x() == x,
        p.y() == y,
        p.z() == z,
{
    XGreaterEqYPlusZ { x: x, y: y, z: z }
}

impl XGreaterEqYPlusZ {
    /// The variable that bounds the sum from above.
    pub closed spec fn x(&self) -> usize {
        self.x
    }

    /// The first term of the sum.
    pub closed spec fn y(&self) -> usize {
        self.y
    }

    /// The second term of the sum.
    pub closed spec fn z(&self) -> usize {
        self.z
    }

    /// The domain that the constraint leaves to `x`.
    pub open spec fn x_narrowed(&self, domains: Seq<Bounds>) -> Bounds {
        domains[self.x() as int].raised_to(
            domains[self.y() as int].lb + domains[self.z() as int].lb,
        )
    }

    /// The domain that the constraint leaves to `y`.
    pub open spec fn y_narrowed(&self, domains: Seq<Bounds>) -> Bounds {
        domains[self.y() as int].lowered_to(
            domains[self.x() as int].ub - domains[self.z() as int].lb,
        )
    }

    /// The domain that the constraint leaves to `z`.
    pub open spec fn z_narrowed(&self, domains: Seq<Bounds>) -> Bounds {
        domains[self.z() as int].lowered_to(
            domains[self.x() as int].ub - domains[self.y() as int].lb,
        )
    }
}

impl DeepClone for XGreaterEqYPlusZ {
    fn deep_clone(&self) -> (copy: XGreaterEqYPlusZ) {
        *self
    }
}

impl Propagator for XGreaterEqYPlusZ {
    open spec fn valid(&self, nvars: nat) -> bool {
        &&& self.x() < nvars
        &&& self.y() < nvars
        &&& self.z() < nvars
        &&& self.x() != self.y()
        &&& self.x() != self.z()
        &&& self.y() != self.z()
    }

    open spec fn holds(&self, assignment: Seq<int>) -> bool {
        assignment[self.x() as int] >= assignment[self.y() as int] + assignment[self.z() as int]
    }

    open spec fn status(&self, domains: Seq<Bounds>) -> Trilean {
        let x = domains[self.x() as int];
        let y = domains[self.y() as int];
        let z = domains[self.z() as int];
        if x.lb >= y.ub + z.ub {
            Trilean::True
        } else if x.ub < y.lb + z.lb {
            Trilean::False
        } else {
            Trilean::Unknown
        }
    }

    open spec fn succeeds(&self, domains: Seq<Bounds>) -> bool {
        &&& !self.x_narrowed(domains).is_empty()
        &&& !self.y_narrowed(domains).is_empty()
        &&& !self.z_narrowed(domains).is_empty()
    }

    open spec fn outcome(&self, domains: Seq<Bounds>) -> Seq<Bounds> {
        if self.succeeds(domains) {
            domains.update(self.x() as int, self.x_narrowed(domains)).update(
                self.y() as int,
                self.y_narrowed(domains),
            ).update(self.z() as int, self.z_narrowed(domains))
        } else {
            domains
        }
    }

    open spec fn watched(&self) -> Seq<(usize, FDEvent)> {
        seq![(self.x(), FDEvent::Bound), (self.y(), FDEvent::Bound), (self.z(), FDEvent::Bound)]
    }

    fn is_subsumed(&self, store: &DeltaStore) -> (status: Trilean) {
        let (x_lb, x_ub) = bounds(&store.read(self.x));
        let (y_lb, y_ub) = bounds(&store.read(self.y));
        let (z_lb, z_ub) = bounds(&store.read(self.z));
        if x_lb as i64 >= y_ub as i64 + z_ub as i64 {
            Trilean::True
        } else if (x_ub as i64) < y_lb as i64 + z_lb as i64 {
            Trilean::False
        } else {
            Trilean::Unknown
        }
    }

    fn propagate(&mut self, store: &mut DeltaStore) -> (ok: bool) {
        let x = store.read(self.x);
        let y = store.read(self.y);
        let z = store.read(self.z);
        let (_, x_ub) = bounds(&x);
        let (y_lb, _) = bounds(&y);
        let (z_lb, _) = bounds(&z);
        let x_new = raise_lower(&x, y_lb as i64 + z_lb as i64);
        let y_new = lower_upper(&y, x_ub as i64 - z_lb as i64);
        let z_new = lower_upper(&z, x_ub as i64 - y_lb as i64);
        store.update(self.x, x_new) && store.update(self.y, y_new) && store.update(self.z, z_new)
    }

    fn dependencies(&self) -> (deps: Vec<(usize, FDEvent)>) {
        let mut deps: Vec<(usize, FDEvent)> = Vec::new();
        deps.push((self.x, FDEvent::Bound));
        deps.push((self.y, FDEvent::Bound));
        deps.push((self.z, FDEvent::Bound));
        deps
    }

    proof fn lemma_watched_in_range(&self, nvars: nat) {
    }

    proof fn lemma_contracting(&self, domains: Seq<Bounds>) {
    }

    proof fn lemma_idempotent(&self, domains: Seq<Bounds>) {
    }

    proof fn lemma_status_monotonic(&self, before: Seq<Bounds>, after: Seq<Bounds>) {
    }

    proof fn lemma_failure(&self, domains: Seq<Bounds>) {
    }

    proof fn lemma_entailed(&self, domains: Seq<Bounds>) {
    }

    proof fn lemma_asleep(&self, before: Seq<Bounds>, after: Seq<Bounds>) {
    }

    proof fn lemma_keeps_fixpoints(&self, inner: Seq<Bounds>, outer: Seq<Bounds>) {
    }

    proof fn lemma_sound(&self, domains: Seq<Bounds>, assignment: Seq<int>) {
    }
}

} // verus!
