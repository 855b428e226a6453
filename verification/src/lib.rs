//! Verified decision logic of a self-adaptive rotationally invariant particle
//! swarm optimiser: the run settings, the per-generation statistics that steer
//! the choice of the search radius, the search-angle histogram and the order
//! in which a run performs its steps.

pub mod mode;
pub mod late_info;
mod random;
pub mod selection;
pub mod search_angle;
pub mod schedule;
