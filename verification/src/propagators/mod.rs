//! Propagators: equality, disequality, and sums of two variables.

pub mod formula;
pub mod x_eq_y;
pub mod x_eq_y_plus_z;
pub mod x_geq_y_plus_z;
pub mod x_leq_y_plus_z;
pub mod x_neq_y;
