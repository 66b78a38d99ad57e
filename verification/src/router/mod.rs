//! The HTTP layer's own logic: authentication, errors, envelopes, caching, rate limiting,
//! configuration, pool synchronization and the decisions behind each route.
pub mod auth;
pub mod cache;
pub mod config;
pub mod error;
pub mod extract;
pub mod pool_sync;
pub mod pools;
pub mod ratelimit;
pub mod response;
pub mod state;
pub mod routes;
