//! The decisions behind each route. Public endpoints live in `app` (clients) and
//! `resources` (downloads); the administration endpoints all live under `admin`.
pub mod app;
pub mod resources;
pub mod admin;
