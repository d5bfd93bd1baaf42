//! Events, the propagator contract, the dependency index, the scheduler and the fixpoint loop.

pub mod events;
pub mod propagator;
pub mod reactors;
pub mod schedulers;
pub mod store;
