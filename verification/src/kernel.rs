//! Three-valued logic for the status of a constraint, and duplication without sharing.

use vstd::prelude::*;

verus! {

/// Whether a constraint is entailed (`True`), unsatisfiable (`False`) or still undetermined
/// (`Unknown`) under the current domains.
#[derive(Clone, Copy, Debug, PartialEq, Eq, Structural)]
pub enum Trilean {
    False,
    True,
    Unknown,
}

impl Trilean {
    /// Conjunction: `False` absorbs, `True` is neutral.
    pub open spec fn spec_and(self, other: Trilean) -> Trilean {
        if self == Trilean::False || other == Trilean::False {
            Trilean::False
        } else if self == Trilean::True && other == Trilean::True {
            Trilean::True
        } else {
            Trilean::Unknown
        }
    }

    /// Negation: swaps `True` and `False`, keeps `Unknown`.
    pub open spec fn spec_not(self) -> Trilean {
        match self {
            Trilean::False => Trilean::True,
            Trilean::True => Trilean::False,
            Trilean::Unknown => Trilean::Unknown,
        }
    }

    /// Whether knowing `self` is compatible with later learning `later`: a decided status stays,
    /// `Unknown` may become anything.
    pub open spec fn refined_by(self, later: Trilean) -> bool {
        self == Trilean::Unknown || self == later
    }

    #[verifier::when_used_as_spec(spec_and)]
    pub fn and(self, other: Trilean) -> (r: Trilean)
        ensures
            r == self.spec_and(other),
    {
        match (self, other) {
            (Trilean::False, _) => Trilean::False,
            (_, Trilean::False) => Trilean::False,
            (Trilean::True, Trilean::True) => Trilean::True,
            _ => Trilean::Unknown,
        }
    }

    #[verifier::when_used_as_spec(spec_not)]
    pub fn not(self) -> (r: Trilean)
        ensures
            r == self.spec_not(),
    {
        match self {
            Trilean::False => Trilean::True,
            Trilean::True => Trilean::False,
            Trilean::Unknown => Trilean::Unknown,
        }
    }

    /// Whether the status is `True`.
    pub fn is_true(self) -> (b: bool)
        ensures
            b == (self == Trilean::True),
    {
        matches!(self, Trilean::True)
    }

    /// Whether the status is `False`.
    pub fn is_false(self) -> (b: bool)
        ensures
            b == (self == Trilean::False),
    {
        matches!(self, Trilean::False)
    }

    /// Whether the status is `Unknown`.
    pub fn is_unknown(self) -> (b: bool)
        ensures
            b == (self == Trilean::Unknown),
    {
        matches!(self, Trilean::Unknown)
    }
}

/// Values that can be duplicated for a branch of their own: the copy equals the value and
/// shares no state with it.
pub trait DeepClone: Sized {
    /// A copy that shares nothing with `self`.
    fn deep_clone(&self) -> (copy: Self)
        ensures
            copy == *self,
    ;
}

/// Conjunction is commutative and associative, and negation is an involution that obeys
/// De Morgan's law with respect to it.
pub proof fn lemma_trilean_algebra(a: Trilean, b: Trilean, c: Trilean)
    ensures
        a.spec_and(b) == b.spec_and(a),
        a.spec_and(b).spec_and(c) == a.spec_and(b.spec_and(c)),
        a.spec_and(a) == a,
        a.spec_and(Trilean::True) == a,
        a.spec_and(Trilean::False) == Trilean::False,
        a.spec_not().spec_not() == a,
{
}

/// Conjunction and negation respect refinement: once the operands are decided, so is the
/// result, and it no longer changes.
pub proof fn lemma_trilean_refinement(a: Trilean, a2: Trilean, b: Trilean, b2: Trilean)
    requires
        a.refined_by(a2),
        b.refined_by(b2),
    ensures
        a.spec_and(b).refined_by(a2.spec_and(b2)),
        a.spec_not().refined_by(a2.spec_not()),
{
}

} // verus!
