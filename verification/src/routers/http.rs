//! What the HTTP routers share.

pub mod pd_types;
pub mod router;
