//! Routing: path steering, balancing, route and rule management, and the
//! safe apply flow.

pub mod balancer;
pub mod engine;
pub mod path_steering;
pub mod safe_apply;
