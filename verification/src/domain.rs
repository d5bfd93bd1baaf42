//! Integer interval domains.
//!
//! A domain is an `Interval<i32>` of the `interval` library. Such a value is opaque here: what
//! it holds is named by [`interval_lb`] and [`interval_ub`], and every operation on it is a call
//! into that library whose effect on the two bounds is stated, not proved. [`Bounds`] is the
//! mathematical view of a domain that the rest of the crate reasons about.

use gcollections::ops::Bounded;
use gcollections::ops::Difference;
use gcollections::ops::Disjoint;
use gcollections::ops::Intersection;
use gcollections::ops::IsEmpty;
use gcollections::ops::IsSingleton;
use gcollections::ops::ShrinkLeft;
use gcollections::ops::ShrinkRight;
use interval::ops::Range;
use interval::Interval;
use vstd::prelude::*;

verus! {

/// The closed range of integers `lb..=ub`; empty when `lb > ub`.
pub struct Bounds {
    pub lb: int,
    pub ub: int,
}

impl Bounds {
    pub open spec fn is_empty(self) -> bool {
        self.lb > self.ub
    }

    pub open spec fn is_singleton(self) -> bool {
        self.lb == self.ub
    }

    pub open spec fn contains(self, v: int) -> bool {
        self.lb <= v <= self.ub
    }

    /// The set of integers in the range.
    pub open spec fn values(self) -> Set<int> {
        Set::new(|v: int| self.contains(v))
    }

    /// The number of integers in the range.
    pub open spec fn size(self) -> nat {
        if self.lb > self.ub {
            0
        } else {
            (self.ub - self.lb + 1) as nat
        }
    }

    /// Set inclusion: the empty range is included in every range.
    pub open spec fn subset_of(self, other: Bounds) -> bool {
        self.is_empty() || (other.lb <= self.lb && self.ub <= other.ub)
    }

    /// Whether both ranges hold the same integers.
    pub open spec fn same_values(self, other: Bounds) -> bool {
        (self.is_empty() && other.is_empty()) || self == other
    }

    /// Whether the two ranges share no integer.
    pub open spec fn disjoint(self, other: Bounds) -> bool {
        self.is_empty() || other.is_empty() || self.lb > other.ub || other.lb > self.ub
    }

    /// The intersection of the two ranges.
    pub open spec fn meet(self, other: Bounds) -> Bounds {
        Bounds {
            lb: if self.lb >= other.lb { self.lb } else { other.lb },
            ub: if self.ub <= other.ub { self.ub } else { other.ub },
        }
    }

    /// The range with its lower bound raised to `lb`, if that is higher.
    pub open spec fn raised_to(self, lb: int) -> Bounds {
        Bounds { lb: if lb > self.lb { lb } else { self.lb }, ub: self.ub }
    }

    /// The range with its upper bound lowered to `ub`, if that is lower.
    pub open spec fn lowered_to(self, ub: int) -> Bounds {
        Bounds { lb: self.lb, ub: if ub < self.ub { ub } else { self.ub } }
    }

    /// The range without `v` where `v` is one of its bounds, the lower one first; a value
    /// strictly inside cannot be taken out of a range and stays.
    pub open spec fn without(self, v: int) -> Bounds {
        if v == self.lb {
            Bounds { lb: self.lb + 1, ub: self.ub }
        } else if v == self.ub {
            Bounds { lb: self.lb, ub: self.ub - 1 }
        } else {
            self
        }
    }
}

#[verifier::external_type_specification]
#[verifier::external_body]
#[verifier::reject_recursive_types(Bound)]
pub struct ExInterval<Bound>(Interval<Bound>);

/// The lower bound that an interval holds.
pub uninterp spec fn interval_lb(d: Interval<i32>) -> i32;

/// The upper bound that an interval holds.
pub uninterp spec fn interval_ub(d: Interval<i32>) -> i32;

/// The range of integers that a domain stands for.
pub open spec fn bounds_of(d: Interval<i32>) -> Bounds {
    Bounds { lb: interval_lb(d) as int, ub: interval_ub(d) as int }
}

/// The `interval` library keeps `i32::MIN` out of its intervals, so that the size of each fits
/// in a `u32`. Its operations are only called on intervals within that limit.
pub open spec fn within_limits(d: Interval<i32>) -> bool {
    interval_lb(d) > i32::MIN
}

/// A domain that a variable can have: within the library's limits, and not empty.
pub open spec fn proper(d: Interval<i32>) -> bool {
    within_limits(d) && !bounds_of(d).is_empty()
}

/// `Range::new` of `Interval`: the interval that holds the two bounds as given. The library
/// refuses `i32::MIN` as a lower bound.
#[verifier::external_body]
pub(crate) fn interval_new(lb: i32, ub: i32) -> (d: Interval<i32>)
    requires
        lb > i32::MIN,
    ensures
        interval_lb(d) == lb,
        interval_ub(d) == ub,
{
    Interval::new(lb, ub)
}

/// `IsEmpty::is_empty` of `Interval`: the interval's size is zero, which within the limits is
/// the case exactly when the lower bound lies above the upper one.
#[verifier::external_body]
pub(crate) fn interval_is_empty(d: &Interval<i32>) -> (b: bool)
    requires
        within_limits(*d),
    ensures
        b == bounds_of(*d).is_empty(),
{
    d.is_empty()
}

/// `IsSingleton::is_singleton` of `Interval`: the interval's size is one, which within the
/// limits is the case exactly when the two bounds are equal.
#[verifier::external_body]
pub(crate) fn interval_is_singleton(d: &Interval<i32>) -> (b: bool)
    requires
        within_limits(*d),
    ensures
        b == bounds_of(*d).is_singleton(),
{
    d.is_singleton()
}

/// `Bounded::lower` of `Interval`: the lower bound. The library refuses an empty interval.
#[verifier::external_body]
pub(crate) fn interval_lower(d: &Interval<i32>) -> (lb: i32)
    requires
        proper(*d),
    ensures
        lb == interval_lb(*d),
{
    d.lower()
}

/// `Bounded::upper` of `Interval`: the upper bound. The library refuses an empty interval.
#[verifier::external_body]
pub(crate) fn interval_upper(d: &Interval<i32>) -> (ub: i32)
    requires
        proper(*d),
    ensures
        ub == interval_ub(*d),
{
    d.upper()
}

/// `Disjoint::is_disjoint` of two intervals: one of them is empty, or one lies wholly above the
/// other.
#[verifier::external_body]
pub(crate) fn interval_is_disjoint(a: &Interval<i32>, b: &Interval<i32>) -> (r: bool)
    requires
        within_limits(*a),
        within_limits(*b),
    ensures
        r == bounds_of(*a).disjoint(bounds_of(*b)),
{
    a.is_disjoint(b)
}

/// `Intersection::intersection` of two intervals: the greater of the lower bounds and the
/// lesser of the upper bounds.
#[verifier::external_body]
pub(crate) fn interval_intersection(a: &Interval<i32>, b: &Interval<i32>) -> (r: Interval<i32>)
    requires
        within_limits(*a),
        within_limits(*b),
    ensures
        bounds_of(r) == bounds_of(*a).meet(bounds_of(*b)),
{
    a.intersection(b)
}

/// `Difference::difference` of an interval and a value: a lower bound equal to the value moves
/// up by one, else an upper bound equal to it moves down by one, else nothing changes. The
/// bound that moves must have room to move.
#[verifier::external_body]
pub(crate) fn interval_difference(d: &Interval<i32>, v: i32) -> (r: Interval<i32>)
    requires
        v == interval_lb(*d) ==> v < i32::MAX,
        v != interval_lb(*d) && v == interval_ub(*d) ==> v > i32::MIN,
    ensures
        bounds_of(r) == bounds_of(*d).without(v as int),
{
    d.difference(&v)
}

/// `ShrinkLeft::shrink_left` of `Interval`: the lower bound becomes `lb` if that is higher.
#[verifier::external_body]
pub(crate) fn interval_shrink_left(d: &Interval<i32>, lb: i32) -> (r: Interval<i32>)
    ensures
        bounds_of(r) == bounds_of(*d).raised_to(lb as int),
{
    d.shrink_left(lb)
}

/// `ShrinkRight::shrink_right` of `Interval`: the upper bound becomes `ub` if that is lower.
#[verifier::external_body]
pub(crate) fn interval_shrink_right(d: &Interval<i32>, ub: i32) -> (r: Interval<i32>)
    ensures
        bounds_of(r) == bounds_of(*d).lowered_to(ub as int),
{
    d.shrink_right(ub)
}

/// The text that the `interval` library writes for an interval.
pub uninterp spec fn interval_text(d: Interval<i32>) -> Seq<char>;

/// `Display` of `Interval`, through `format!`: the text that the library writes for the
/// interval.
#[verifier::external_body]
pub(crate) fn interval_to_string(d: &Interval<i32>) -> (text: String)
    requires
        within_limits(*d),
    ensures
        text@ == interval_text(*d),
{
    format!("{}", d)
}

/// The domain `lb..=ub`, where that is a domain a variable can have: `None` when the range is
/// empty or starts at `i32::MIN`.
pub fn domain(lb: i32, ub: i32) -> (r: Option<Interval<i32>>)
    ensures
        r.is_some() == (i32::MIN < lb <= ub),
        r matches Some(d) ==> proper(d) && bounds_of(d) == (Bounds { lb: lb as int, ub: ub as int }),
{
    if lb > i32::MIN && lb <= ub {
        Some(interval_new(lb, ub))
    } else {
        None
    }
}

/// An empty domain.
pub fn empty_domain() -> (d: Interval<i32>)
    ensures
        within_limits(d),
        bounds_of(d).is_empty(),
{
    interval_new(1, 0)
}

/// The bounds of a domain.
pub fn bounds(d: &Interval<i32>) -> (r: (i32, i32))
    requires
        proper(*d),
    ensures
        r.0 == interval_lb(*d),
        r.1 == interval_ub(*d),
{
    (interval_lower(d), interval_upper(d))
}

/// The intersection of two domains.
pub fn intersect(a: &Interval<i32>, b: &Interval<i32>) -> (r: Interval<i32>)
    requires
        within_limits(*a),
        within_limits(*b),
    ensures
        within_limits(r),
        bounds_of(r) == bounds_of(*a).meet(bounds_of(*b)),
        bounds_of(r).subset_of(bounds_of(*a)),
        bounds_of(r).subset_of(bounds_of(*b)),
{
    interval_intersection(a, b)
}

/// The domain without the value `v`, as far as a range can express it: see
/// [`Bounds::without`].
pub fn remove_value(d: &Interval<i32>, v: i32) -> (r: Interval<i32>)
    requires
        proper(*d),
    ensures
        within_limits(r),
        bounds_of(r).same_values(bounds_of(*d).without(v as int)),
        bounds_of(r).subset_of(bounds_of(*d)),
{
    let lb = interval_lower(d);
    if v == lb && lb == i32::MAX {
        empty_domain()
    } else {
        interval_difference(d, v)
    }
}

/// The domain with every value below `lb` removed. The bound is a wide integer, so that a
/// caller can compute it from `i32` bounds without overflow.
pub fn raise_lower(d: &Interval<i32>, lb: i64) -> (r: Interval<i32>)
    requires
        proper(*d),
    ensures
        within_limits(r),
        bounds_of(r).same_values(bounds_of(*d).raised_to(lb as int)),
        bounds_of(r).subset_of(bounds_of(*d)),
{
    if lb > i32::MAX as i64 {
        empty_domain()
    } else if lb < i32::MIN as i64 {
        *d
    } else {
        interval_shrink_left(d, lb as i32)
    }
}

/// The domain with every value above `ub` removed. The bound is a wide integer, so that a
/// caller can compute it from `i32` bounds without overflow.
pub fn lower_upper(d: &Interval<i32>, ub: i64) -> (r: Interval<i32>)
    requires
        proper(*d),
    ensures
        within_limits(r),
        bounds_of(r).same_values(bounds_of(*d).lowered_to(ub as int)),
        bounds_of(r).subset_of(bounds_of(*d)),
{
    if ub < i32::MIN as i64 {
        empty_domain()
    } else if ub > i32::MAX as i64 {
        *d
    } else {
        interval_shrink_right(d, ub as i32)
    }
}

} // verus!
