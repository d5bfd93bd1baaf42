//! What the kernel asks of every constraint.

use crate::domain::Bounds;
use crate::kernel::Trilean;
use crate::propagation::events::FDEvent;
use crate::variable::delta_store::domains_ok;
use crate::variable::delta_store::narrows;
use crate::variable::delta_store::DeltaStore;
use vstd::prelude::*;

verus! {

/// Whether a change of the domains from `before` to `after` leaves a propagator with the
/// dependencies `watched` asleep: on each variable it watches, either nothing changed or the
/// event is weaker than the one it asked for.
pub open spec fn quiet_for(
    watched: Seq<(usize, FDEvent)>,
    before: Seq<Bounds>,
    after: Seq<Bounds>,
) -> bool {
    forall|k: int|
        0 <= k < watched.len() ==> {
            let var = (#[trigger] watched[k]).0 as int;
            let event = FDEvent::of_narrowing(before[var], after[var]);
            event == FDEvent::NoChange || !watched[k].1.spec_le(event)
        }
}

/// Whether every value of `assignment` lies in the domain of its variable.
pub open spec fn within(assignment: Seq<int>, domains: Seq<Bounds>) -> bool {
    &&& assignment.len() == domains.len()
    &&& forall|i: int| 0 <= i < domains.len() ==> (#[trigger] domains[i]).contains(assignment[i])
}

/// A propagator: the executable form of one constraint.
///
/// The spec functions say what the constraint means and what its three operations compute on
/// the ranges of the variables. The proof functions are the laws that the kernel relies on;
/// whoever implements the trait proves them.
pub trait Propagator: Sized {
    /// Whether the propagator can work on a store of `nvars` variables.
    spec fn valid(&self, nvars: nat) -> bool;

    /// Whether the constraint holds of an assignment of one value to each variable.
    spec fn holds(&self, assignment: Seq<int>) -> bool;

    /// The status of the constraint under the domains.
    spec fn status(&self, domains: Seq<Bounds>) -> Trilean;

    /// Whether propagation succeeds on the domains: no domain would become empty.
    spec fn succeeds(&self, domains: Seq<Bounds>) -> bool;

    /// The domains after propagation.
    spec fn outcome(&self, domains: Seq<Bounds>) -> Seq<Bounds>;

    /// The variables that the propagator watches, each with the weakest event that it wants
    /// to be woken up for.
    spec fn watched(&self) -> Seq<(usize, FDEvent)>;

    /// `True` if the constraint is entailed by the domains, `False` if they cannot satisfy it,
    /// `Unknown` otherwise.
    fn is_subsumed(&self, store: &DeltaStore) -> (status: Trilean)
        requires
            store.wf(),
            self.valid(store.len()),
        ensures
            status == self.status(store.domains()),
    ;

    /// Narrows the domains by what the constraint rules out. The result is `false` if a domain
    /// would become empty; the store then keeps the narrowings made before that was found.
    fn propagate(&mut self, store: &mut DeltaStore) -> (ok: bool)
        requires
            old(store).wf(),
            old(self).valid(old(store).len()),
        ensures
            *final(self) == *old(self),
            final(store).wf(),
            final(store).baseline() == old(store).baseline(),
            ok == old(self).succeeds(old(store).domains()),
            final(store).domains() == old(self).outcome(old(store).domains()),
    ;

    /// The variables that the propagator watches, each with the weakest event that it wants
    /// to be woken up for. They are the same for the propagator's lifetime.
    fn dependencies(&self) -> (deps: Vec<(usize, FDEvent)>)
        ensures
            deps@ == self.watched(),
    ;

    /// Every watched variable is a variable of the store.
    proof fn lemma_watched_in_range(&self, nvars: nat)
        requires
            self.valid(nvars),
        ensures
            forall|k: int| 0 <= k < self.watched().len() ==> (#[trigger] self.watched()[k]).0 < nvars,
    ;

    /// Contracting: propagation leaves each variable a non-empty part of the domain it had.
    proof fn lemma_contracting(&self, domains: Seq<Bounds>)
        requires
            self.valid(domains.len()),
            domains_ok(domains),
        ensures
            narrows(self.outcome(domains), domains),
            domains_ok(self.outcome(domains)),
    ;

    /// Idempotent: propagating again, right away, changes nothing, succeeds or fails as the
    /// first time, and leaves the status as it was after the first time.
    proof fn lemma_idempotent(&self, domains: Seq<Bounds>)
        requires
            self.valid(domains.len()),
            domains_ok(domains),
        ensures
            self.outcome(self.outcome(domains)) == self.outcome(domains),
            self.succeeds(self.outcome(domains)) == self.succeeds(domains),
            self.status(self.outcome(self.outcome(domains))) == self.status(self.outcome(domains)),
    ;

    /// The status is monotonic: once decided, it stays under any further narrowing.
    proof fn lemma_status_monotonic(&self, before: Seq<Bounds>, after: Seq<Bounds>)
        requires
            self.valid(before.len()),
            domains_ok(before),
            domains_ok(after),
            narrows(after, before),
        ensures
            self.status(before).refined_by(self.status(after)),
    ;

    /// Propagation fails exactly when the constraint has become unsatisfiable.
    proof fn lemma_failure(&self, domains: Seq<Bounds>)
        requires
            self.valid(domains.len()),
            domains_ok(domains),
        ensures
            !self.succeeds(domains) <==> self.status(self.outcome(domains)) == Trilean::False,
    ;

    /// An entailed constraint has nothing left to do.
    proof fn lemma_entailed(&self, domains: Seq<Bounds>)
        requires
            self.valid(domains.len()),
            domains_ok(domains),
            self.status(domains) == Trilean::True,
        ensures
            self.succeeds(domains),
            self.outcome(domains) == domains,
    ;

    /// A propagator that has nothing to do still has nothing to do after a narrowing that its
    /// dependencies do not wake it up for.
    proof fn lemma_asleep(&self, before: Seq<Bounds>, after: Seq<Bounds>)
        requires
            self.valid(before.len()),
            domains_ok(before),
            domains_ok(after),
            narrows(after, before),
            quiet_for(self.watched(), before, after),
            self.succeeds(before),
            self.outcome(before) == before,
        ensures
            self.succeeds(after),
            self.outcome(after) == after,
    ;

    /// Domains on which the propagator has nothing to do are never lost: on any wider domains
    /// propagation succeeds, and what it leaves still includes them.
    proof fn lemma_keeps_fixpoints(&self, inner: Seq<Bounds>, outer: Seq<Bounds>)
        requires
            self.valid(outer.len()),
            domains_ok(inner),
            domains_ok(outer),
            narrows(inner, outer),
            self.succeeds(inner),
            self.outcome(inner) == inner,
        ensures
            self.succeeds(outer),
            narrows(inner, self.outcome(outer)),
    ;

    /// Sound: the status says the truth about the assignments within the domains, and
    /// propagation removes no value of an assignment that satisfies the constraint.
    proof fn lemma_sound(&self, domains: Seq<Bounds>, assignment: Seq<int>)
        requires
            self.valid(domains.len()),
            domains_ok(domains),
            within(assignment, domains),
        ensures
            self.status(domains) == Trilean::True ==> self.holds(assignment),
            self.status(domains) == Trilean::False ==> !self.holds(assignment),
            self.holds(assignment) ==> self.succeeds(domains) && within(
                assignment,
                self.outcome(domains),
            ),
    ;
}

} // verus!
