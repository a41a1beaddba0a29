//! Auxiliary tools shared by the optimization algorithms.

pub mod logging;
pub mod statistics;
pub mod stopchecker;
