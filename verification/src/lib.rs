//! Service discovery for a reverse proxy: a declared list of upstreams is
//! resolved into an ordered set of backends and a table of routes.

pub mod address;
pub mod config;
pub mod discovery;
pub mod error;
pub mod laws;
