//! The database layer's own logic: configuration, errors, migrations and row shapes.
pub mod config;
pub mod error;
pub mod migrations;
pub mod repo;
