//! The variable store: its memory, and the domains with their pending events.

pub mod delta_store;
pub mod memory;
