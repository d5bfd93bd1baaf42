//! A finite-domain constraint propagation kernel over integer intervals.
//!
//! Given variables with interval domains and constraints over them, the kernel narrows the
//! domains until no constraint can narrow them further, or until a constraint is found to be
//! unsatisfiable. A search procedure calls it at every node of its search tree, and uses the
//! snapshots of the variable store to come back to a node.
//!
//! - [`domain`]: the interval domains, an outside type with its operations.
//! - [`kernel`]: three-valued logic and duplication.
//! - [`variable`]: the variable store, with the events pending on each variable, and the
//!   memory behind it that can be frozen and restored.
//! - [`propagation`]: the events, what a propagator owes the kernel, the dependency index,
//!   the scheduler, and the constraint store with the fixpoint loop.
//! - [`propagators`]: equality, disequality and sums over the variables of a store.

pub mod domain;
pub mod kernel;
pub mod propagation;
pub mod propagators;
pub mod variable;
