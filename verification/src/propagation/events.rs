//! How much a domain changed: the events that wake propagators up.

use crate::domain::bounds_of;
use crate::domain::interval_is_empty;
use crate::domain::interval_is_singleton;
use crate::domain::interval_lower;
use crate::domain::interval_upper;
use crate::domain::proper;
use crate::domain::within_limits;
use crate::domain::Bounds;
use interval::Interval;
use vstd::prelude::*;

verus! {

/// The magnitude of a change to one variable's domain, from the weakest to the strongest.
///
/// `Inner` stands for a value removed strictly between the bounds. An interval cannot express
/// that, so no narrowing of an interval produces it; a propagator may still name it as the
/// weakest event it wants to hear of.
#[derive(Clone, Copy, Debug, PartialEq, Eq, Structural)]
pub enum FDEvent {
    /// The domain is what it was.
    NoChange,
    /// A value strictly inside the domain was removed.
    Inner,
    /// A bound moved.
    Bound,
    /// The domain became a single value.
    Assignment,
    /// The domain became empty.
    Failure,
}

impl FDEvent {
    /// The rank of the event in the order of strength.
    pub open spec fn strength(self) -> nat {
        match self {
            FDEvent::NoChange => 0,
            FDEvent::Inner => 1,
            FDEvent::Bound => 2,
            FDEvent::Assignment => 3,
            FDEvent::Failure => 4,
        }
    }

    /// The order of strength: `self` is at most as strong as `other`.
    pub open spec fn spec_le(self, other: FDEvent) -> bool {
        self.strength() <= other.strength()
    }

    /// The stronger of two events.
    pub open spec fn spec_merge(self, other: FDEvent) -> FDEvent {
        if self.strength() >= other.strength() {
            self
        } else {
            other
        }
    }

    /// The event of a domain going from `old` to `new`, where `new` is included in `old`.
    pub open spec fn of_narrowing(old: Bounds, new: Bounds) -> FDEvent {
        if new.is_empty() {
            FDEvent::Failure
        } else if new == old {
            FDEvent::NoChange
        } else if new.is_singleton() {
            FDEvent::Assignment
        } else {
            FDEvent::Bound
        }
    }

    fn rank(self) -> (r: u8)
        ensures
            r == self.strength(),
    {
        match self {
            FDEvent::NoChange => 0,
            FDEvent::Inner => 1,
            FDEvent::Bound => 2,
            FDEvent::Assignment => 3,
            FDEvent::Failure => 4,
        }
    }

    /// Whether `self` is at most as strong as `other`.
    #[verifier::when_used_as_spec(spec_le)]
    pub fn le(self, other: FDEvent) -> (b: bool)
        ensures
            b == self.spec_le(other),
    {
        self.rank() <= other.rank()
    }

    /// Folds two events on one variable into the stronger one.
    #[verifier::when_used_as_spec(spec_merge)]
    pub fn merge(self, other: FDEvent) -> (e: FDEvent)
        ensures
            e == self.spec_merge(other),
    {
        if self.rank() >= other.rank() {
            self
        } else {
            other
        }
    }

    /// Whether the event reports a change.
    pub fn is_change(self) -> (b: bool)
        ensures
            b == (self != FDEvent::NoChange),
    {
        !matches!(self, FDEvent::NoChange)
    }

    /// The event of a domain going from `big` to `little`.
    pub fn new(little: &Interval<i32>, big: &Interval<i32>) -> (e: FDEvent)
        requires
            within_limits(*little),
            proper(*big),
            bounds_of(*little).subset_of(bounds_of(*big)),
        ensures
            e == FDEvent::of_narrowing(bounds_of(*big), bounds_of(*little)),
    {
        if interval_is_empty(little) {
            FDEvent::Failure
        } else if interval_lower(little) == interval_lower(big) && interval_upper(little)
            == interval_upper(big) {
            FDEvent::NoChange
        } else if interval_is_singleton(little) {
            FDEvent::Assignment
        } else {
            FDEvent::Bound
        }
    }
}

/// The order of strength is total, with `NoChange` at the bottom and `Failure` at the top.
pub proof fn lemma_event_order(a: FDEvent, b: FDEvent, c: FDEvent)
    ensures
        a.spec_le(a),
        a.spec_le(b) || b.spec_le(a),
        a.spec_le(b) && b.spec_le(a) ==> a == b,
        a.spec_le(b) && b.spec_le(c) ==> a.spec_le(c),
        FDEvent::NoChange.spec_le(a),
        a.spec_le(FDEvent::Failure),
{
}

/// Merging is commutative, associative and idempotent; `NoChange` is its neutral element and
/// `Failure` absorbs.
pub proof fn lemma_merge_algebra(a: FDEvent, b: FDEvent, c: FDEvent)
    ensures
        a.spec_merge(b) == b.spec_merge(a),
        a.spec_merge(b).spec_merge(c) == a.spec_merge(b.spec_merge(c)),
        a.spec_merge(a) == a,
        a.spec_merge(FDEvent::NoChange) == a,
        a.spec_merge(FDEvent::Failure) == FDEvent::Failure,
{
}

/// Merging gives the least event that is at least as strong as both.
pub proof fn lemma_merge_is_least_upper_bound(a: FDEvent, b: FDEvent, c: FDEvent)
    ensures
        a.spec_le(a.spec_merge(b)),
        b.spec_le(a.spec_merge(b)),
        a.spec_le(c) && b.spec_le(c) ==> a.spec_merge(b).spec_le(c),
{
}

/// An empty domain reports `Failure` whatever it was before, an unchanged one `NoChange`, and
/// a domain that shrank without becoming empty reports at least `Bound`.
pub proof fn lemma_event_of_narrowing(old: Bounds, new: Bounds)
    requires
        !old.is_empty(),
        new.subset_of(old),
    ensures
        new.is_empty() <==> FDEvent::of_narrowing(old, new) == FDEvent::Failure,
        new == old <==> FDEvent::of_narrowing(old, new) == FDEvent::NoChange,
        !new.is_empty() && new != old ==> FDEvent::Bound.spec_le(FDEvent::of_narrowing(old, new)),
        FDEvent::of_narrowing(old, new) == FDEvent::Assignment ==> new.is_singleton(),
{
}

/// Two narrowings in a row merge into the event of the net narrowing: nothing is lost and
/// nothing is overstated.
pub proof fn lemma_events_compose(a: Bounds, b: Bounds, c: Bounds)
    requires
        !c.is_empty(),
        c.subset_of(b),
        b.subset_of(a),
    ensures
        FDEvent::of_narrowing(a, b).spec_merge(FDEvent::of_narrowing(b, c))
            == FDEvent::of_narrowing(a, c),
{
}

} // verus!
