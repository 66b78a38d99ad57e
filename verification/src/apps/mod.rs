//! Application management: the `app` table is the only truth, the memory copy a cache.
pub mod channel;
pub mod error;
pub mod instance;
pub mod manager;
