//! One type for all the constraints, so that propagators of different kinds can share a store.

use crate::domain::Bounds;
use crate::kernel::DeepClone;
use crate::kernel::Trilean;
use crate::propagation::events::FDEvent;
use crate::propagation::propagator::Propagator;
use crate::propagators::x_eq_y::XEqY;
use crate::propagators::x_neq_y::XNeqY;
use crate::propagators::x_geq_y_plus_z::XGreaterEqYPlusZ;
use crate::propagators::x_leq_y_plus_z::XLessEqYPlusZ;
use crate::propagators::x_eq_y_plus_z::XEqYPlusZ;
use crate::variable::delta_store::DeltaStore;
use vstd::prelude::*;

verus! {

/// A constraint of any of the kinds that the library offers.
#[derive(Debug)]
pub enum Formula {
    /// `x = y`
    Eq(XEqY),
    /// `x != y`
    Neq(XNeqY),
    /// `x >= y + z`
    GreaterEq(XGreaterEqYPlusZ),
    /// `x <= y + z`
    LessEq(XLessEqYPlusZ),
    /// `x = y + z`
    Sum(XEqYPlusZ),
}

impl DeepClone for Formula {
    fn deep_clone(&self) -> (copy: Formula) {
        match self {
            Formula::Eq(p) => Formula::Eq(p.deep_clone()),
            Formula::Neq(p) => Formula::Neq(p.deep_clone()),
            Formula::GreaterEq(p) => Formula::GreaterEq(p.deep_clone()),
            Formula::LessEq(p) => Formula::LessEq(p.deep_clone()),
            Formula::Sum(p) => Formula::Sum(p.deep_clone()),
        }
    }
}

impl Propagator for Formula {
    open spec fn valid(&self, nvars: nat) -> bool {
        match *self {
            Formula::Eq(p) => p.valid(nvars),
            Formula::Neq(p) => p.valid(nvars),
            Formula::GreaterEq(p) => p.valid(nvars),
            Formula::LessEq(p) => p.valid(nvars),
            Formula::Sum(p) => p.valid(nvars),
        }
    }

    open spec fn holds(&self, assignment: Seq<int>) -> bool {
        match *self {
            Formula::Eq(p) => p.holds(assignment),
            Formula::Neq(p) => p.holds(assignment),
            Formula::GreaterEq(p) => p.holds(assignment),
            Formula::LessEq(p) => p.holds(assignment),
            Formula::Sum(p) => p.holds(assignment),
        }
    }

    open spec fn status(&self, domains: Seq<Bounds>) -> Trilean {
        match *self {
            Formula::Eq(p) => p.status(domains),
            Formula::Neq(p) => p.status(domains),
            Formula::GreaterEq(p) => p.status(domains),
            Formula::LessEq(p) => p.status(domains),
            Formula::Sum(p) => p.status(domains),
        }
    }

    open spec fn succeeds(&self, domains: Seq<Bounds>) -> bool {
        match *self {
            Formula::Eq(p) => p.succeeds(domains),
            Formula::Neq(p) => p.succeeds(domains),
            Formula::GreaterEq(p) => p.succeeds(domains),
            Formula::LessEq(p) => p.succeeds(domains),
            Formula::Sum(p) => p.succeeds(domains),
        }
    }

    open spec fn outcome(&self, domains: Seq<Bounds>) -> Seq<Bounds> {
        match *self {
            Formula::Eq(p) => p.outcome(domains),
            Formula::Neq(p) => p.outcome(domains),
            Formula::GreaterEq(p) => p.outcome(domains),
            Formula::LessEq(p) => p.outcome(domains),
            Formula::Sum(p) => p.outcome(domains),
        }
    }

    open spec fn watched(&self) -> Seq<(usize, FDEvent)> {
        match *self {
            Formula::Eq(p) => p.watched(),
            Formula::Neq(p) => p.watched(),
            Formula::GreaterEq(p) => p.watched(),
            Formula::LessEq(p) => p.watched(),
            Formula::Sum(p) => p.watched(),
        }
    }

    fn is_subsumed(&self, store: &DeltaStore) -> (status: Trilean) {
        match self {
            Formula::Eq(p) => p.is_subsumed(store),
            Formula::Neq(p) => p.is_subsumed(store),
            Formula::GreaterEq(p) => p.is_subsumed(store),
            Formula::LessEq(p) => p.is_subsumed(store),
            Formula::Sum(p) => p.is_subsumed(store),
        }
    }

    fn propagate(&mut self, store: &mut DeltaStore) -> (ok: bool) {
        match self {
            Formula::Eq(p) => p.propagate(store),
            Formula::Neq(p) => p.propagate(store),
            Formula::GreaterEq(p) => p.propagate(store),
            Formula::LessEq(p) => p.propagate(store),
            Formula::Sum(p) => p.propagate(store),
        }
    }

    fn dependencies(&self) -> (deps: Vec<(usize, FDEvent)>) {
        match self {
            Formula::Eq(p) => p.dependencies(),
            Formula::Neq(p) => p.dependencies(),
            Formula::GreaterEq(p) => p.dependencies(),
            Formula::LessEq(p) => p.dependencies(),
            Formula::Sum(p) => p.dependencies(),
        }
    }

    proof fn lemma_watched_in_range(&self, nvars: nat) {
        match *self {
            Formula::Eq(p) => p.lemma_watched_in_range(nvars),
            Formula::Neq(p) => p.lemma_watched_in_range(nvars),
            Formula::GreaterEq(p) => p.lemma_watched_in_range(nvars),
            Formula::LessEq(p) => p.lemma_watched_in_range(nvars),
            Formula::Sum(p) => p.lemma_watched_in_range(nvars),
        }
    }

    proof fn lemma_contracting(&self, domains: Seq<Bounds>) {
        match *self {
            Formula::Eq(p) => p.lemma_contracting(domains),
            Formula::Neq(p) => p.lemma_contracting(domains),
            Formula::GreaterEq(p) => p.lemma_contracting(domains),
            Formula::LessEq(p) => p.lemma_contracting(domains),
            Formula::Sum(p) => p.lemma_contracting(domains),
        }
    }

    proof fn lemma_idempotent(&self, domains: Seq<Bounds>) {
        match *self {
            Formula::Eq(p) => p.lemma_idempotent(domains),
            Formula::Neq(p) => p.lemma_idempotent(domains),
            Formula::GreaterEq(p) => p.lemma_idempotent(domains),
            Formula::LessEq(p) => p.lemma_idempotent(domains),
            Formula::Sum(p) => p.lemma_idempotent(domains),
        }
    }

    proof fn lemma_status_monotonic(&self, before: Seq<Bounds>, after: Seq<Bounds>) {
        match *self {
            Formula::Eq(p) => p.lemma_status_monotonic(before, after),
            Formula::Neq(p) => p.lemma_status_monotonic(before, after),
            Formula::GreaterEq(p) => p.lemma_status_monotonic(before, after),
            Formula::LessEq(p) => p.lemma_status_monotonic(before, after),
            Formula::Sum(p) => p.lemma_status_monotonic(before, after),
        }
    }

    proof fn lemma_failure(&self, domains: Seq<Bounds>) {
        match *self {
            Formula::Eq(p) => p.lemma_failure(domains),
            Formula::Neq(p) => p.lemma_failure(domains),
            Formula::GreaterEq(p) => p.lemma_failure(domains),
            Formula::LessEq(p) => p.lemma_failure(domains),
            Formula::Sum(p) => p.lemma_failure(domains),
        }
    }

    proof fn lemma_entailed(&self, domains: Seq<Bounds>) {
        match *self {
            Formula::Eq(p) => p.lemma_entailed(domains),
            Formula::Neq(p) => p.lemma_entailed(domains),
            Formula::GreaterEq(p) => p.lemma_entailed(domains),
            Formula::LessEq(p) => p.lemma_entailed(domains),
            Formula::Sum(p) => p.lemma_entailed(domains),
        }
    }

    proof fn lemma_asleep(&self, before: Seq<Bounds>, after: Seq<Bounds>) {
        match *self {
            Formula::Eq(p) => p.lemma_asleep(before, after),
            Formula::Neq(p) => p.lemma_asleep(before, after),
            Formula::GreaterEq(p) => p.lemma_asleep(before, after),
            Formula::LessEq(p) => p.lemma_asleep(before, after),
            Formula::Sum(p) => p.lemma_asleep(before, after),
        }
    }

    proof fn lemma_keeps_fixpoints(&self, inner: Seq<Bounds>, outer: Seq<Bounds>) {
        match *self {
            Formula::Eq(p) => p.lemma_keeps_fixpoints(inner, outer),
            Formula::Neq(p) => p.lemma_keeps_fixpoints(inner, outer),
            Formula::GreaterEq(p) => p.lemma_keeps_fixpoints(inner, outer),
            Formula::LessEq(p) => p.lemma_keeps_fixpoints(inner, outer),
            Formula::Sum(p) => p.lemma_keeps_fixpoints(inner, outer),
        }
    }

    proof fn lemma_sound(&self, domains: Seq<Bounds>, assignment: Seq<int>) {
        match *self {
            Formula::Eq(p) => p.lemma_sound(domains, assignment),
            Formula::Neq(p) => p.lemma_sound(domains, assignment),
            Formula::GreaterEq(p) => p.lemma_sound(domains, assignment),
            Formula::LessEq(p) => p.lemma_sound(domains, assignment),
            Formula::Sum(p) => p.lemma_sound(domains, assignment),
        }
    }
}

} // verus!
