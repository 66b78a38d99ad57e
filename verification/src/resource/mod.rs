//! Storage abstraction: object keys, pool registry, health table, credentials and path rules.
pub mod digest;
pub mod error;
pub mod ftp;
pub mod health;
pub mod local;
pub mod key;
pub mod pool;
pub mod s3;
pub mod secret;
