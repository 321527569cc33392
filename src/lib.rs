//! Tenant and backend resolution for a multi-tenant reverse proxy: startup
//! validation of the configuration, path routing inside one tenant, and the
//! choice of an upstream server by a load-balancing policy.

pub mod backend;
pub mod bytes;
pub mod config;
pub mod upstream;
