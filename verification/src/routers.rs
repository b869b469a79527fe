//! Routing of requests to workers.

pub mod http;
