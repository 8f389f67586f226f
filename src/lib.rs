//! A session registry for a local intercepting proxy: the session table with
//! its upsert, paging and retention rules, the session manager and its route
//! cache, the per-session route resolver, and the decisions taken along one
//! proxied connection.
mod clock;
pub mod config;
pub mod connection;
pub mod laws;
pub mod log_utils;
pub mod manager;
pub mod ordering;
pub mod route;
pub mod session;
pub mod store;
pub mod types;
pub mod usage;
