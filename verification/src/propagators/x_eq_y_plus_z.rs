//! The constraint `x = y + z`, as the two constraints `x >= y + z` and `x <= y + z`.

use crate::domain::Bounds;
use crate::kernel::lemma_trilean_refinement;
use crate::kernel::DeepClone;
use crate::kernel::Trilean;
use crate::propagation::events::FDEvent;
use crate::propagation::propagator::Propagator;
use crate::propagators::x_geq_y_plus_z::x_geq_y_plus_z;
use crate::propagators::x_geq_y_plus_z::XGreaterEqYPlusZ;
use crate::propagators::x_leq_y_plus_z::x_leq_y_plus_z;
use crate::propagators::x_leq_y_plus_z::XLessEqYPlusZ;
use crate::variable::delta_store::DeltaStore;
use vstd::prelude::*;

verus! {

/// The propagator of `x = y + z` over three different variables. It holds one propagator for
/// each of the two inequalities and runs them one after the other.
#[derive(Clone, Copy, Debug)]
pub struct XEqYPlusZ {
    geq: XGreaterEqYPlusZ,
    leq: XLessEqYPlusZ,
}

impl XEqYPlusZ {
    /// Both halves speak of the same three variables.
    #[verifier::type_invariant]
    spec fn same_variables(&self) -> bool {
        &&& self.geq.x() == self.leq.x()
        &&& self.geq.y() == self.leq.y()
        &&& self.geq.z() == self.leq.z()
    }

    /// The half `x >= y + z`.
    pub closed spec fn geq(&self) -> XGreaterEqYPlusZ {
        self.geq
    }

    /// The half `x <= y + z`.
    pub closed spec fn leq(&self) -> XLessEqYPlusZ {
        self.leq
    }

    /// Whether both halves speak of the three variables `x`, `y` and `z`.
    pub open spec fn over(&self, x: usize, y: usize, z: usize) -> bool {
        &&& self.geq().x() == x
        &&& self.geq().y() == y
        &&& self.geq().z() == z
        &&& self.leq().x() == x
        &&& self.leq().y() == y
        &&& self.leq().z() == z
    }

    /// The propagator of `x = y + z` for the variables with the handles `x`, `y` and `z`.
    pub fn new(x: usize, y: usize, z: usize) -> (p: XEqYPlusZ)
        ensures
            p.over(x, y, z),
    {
        XEqYPlusZ { geq: x_geq_y_plus_z(x, y, z), leq: x_leq_y_plus_z(x, y, z) }
    }
}

impl DeepClone for XEqYPlusZ {
    fn deep_clone(&self) -> (copy: XEqYPlusZ) {
        *self
    }
}

impl Propagator for XEqYPlusZ {
    open spec fn valid(&self, nvars: nat) -> bool {
        &&& self.geq().valid(nvars)
        &&& self.leq().valid(nvars)
        &&& self.over(self.geq().x(), self.geq().y(), self.geq().z())
    }

    open spec fn holds(&self, assignment: Seq<int>) -> bool {
        self.geq().holds(assignment) && self.leq().holds(assignment)
    }

    open spec fn status(&self, domains: Seq<Bounds>) -> Trilean {
        self.geq().status(domains).spec_and(self.leq().status(domains))
    }

    open spec fn succeeds(&self, domains: Seq<Bounds>) -> bool {
        self.geq().succeeds(domains) && self.leq().succeeds(self.geq().outcome(domains))
    }

    open spec fn outcome(&self, domains: Seq<Bounds>) -> Seq<Bounds> {
        if self.geq().succeeds(domains) {
            self.leq().outcome(self.geq().outcome(domains))
        } else {
            domains
        }
    }

    open spec fn watched(&self) -> Seq<(usize, FDEvent)> {
        self.geq().watched()
    }

    fn is_subsumed(&self, store: &DeltaStore) -> (status: Trilean) {
        self.geq.is_subsumed(store).and(self.leq.is_subsumed(store))
    }

    fn propagate(&mut self, store: &mut DeltaStore) -> (ok: bool) {
        let mut geq = self.geq;
        let mut leq = self.leq;
        geq.propagate(store) && leq.propagate(store)
    }

    /// The dependencies of the two halves are the same, so those of the first are given.
    fn dependencies(&self) -> (deps: Vec<(usize, FDEvent)>)
        ensures
            deps@ == self.leq().watched(),
    {
        proof {
            use_type_invariant(self);
        }
        self.geq.dependencies()
    }

    proof fn lemma_watched_in_range(&self, nvars: nat) {
        self.geq().lemma_watched_in_range(nvars);
    }

    proof fn lemma_contracting(&self, domains: Seq<Bounds>) {
        self.geq().lemma_contracting(domains);
        self.leq().lemma_contracting(self.geq().outcome(domains));
    }

    proof fn lemma_idempotent(&self, domains: Seq<Bounds>) {
    }

    proof fn lemma_status_monotonic(&self, before: Seq<Bounds>, after: Seq<Bounds>) {
        self.geq().lemma_status_monotonic(before, after);
        self.leq().lemma_status_monotonic(before, after);
        lemma_trilean_refinement(
            self.geq().status(before),
            self.geq().status(after),
            self.leq().status(before),
            self.leq().status(after),
        );
    }

    proof fn lemma_failure(&self, domains: Seq<Bounds>) {
    }

    proof fn lemma_entailed(&self, domains: Seq<Bounds>) {
        self.geq().lemma_entailed(domains);
        self.leq().lemma_entailed(domains);
    }

    proof fn lemma_asleep(&self, before: Seq<Bounds>, after: Seq<Bounds>) {
    }

    proof fn lemma_keeps_fixpoints(&self, inner: Seq<Bounds>, outer: Seq<Bounds>) {
        let between = self.geq().outcome(inner);
        self.geq().lemma_contracting(inner);
        self.leq().lemma_contracting(between);
        assert forall|i: int| 0 <= i < inner.len() implies between[i] == inner[i] by {
            assert(between[i].subset_of(inner[i]));
            assert(self.leq().outcome(between)[i].subset_of(between[i]));
        }
        assert(between =~= inner);
        self.geq().lemma_keeps_fixpoints(inner, outer);
        self.geq().lemma_contracting(outer);
        self.leq().lemma_keeps_fixpoints(inner, self.geq().outcome(outer));
    }

    proof fn lemma_sound(&self, domains: Seq<Bounds>, assignment: Seq<int>) {
        self.geq().lemma_sound(domains, assignment);
        self.geq().lemma_contracting(domains);
        self.leq().lemma_sound(domains, assignment);
        if self.holds(assignment) {
            self.leq().lemma_sound(self.geq().outcome(domains), assignment);
        }
    }
}

} // verus!
