//! Routing decisions for a fleet of model-serving workers.

pub mod config;
pub mod overload;
pub mod policies;
pub mod random;
pub mod rate_monitor;
pub mod routers;
pub mod text;
pub mod worker;
pub mod worker_registry;
