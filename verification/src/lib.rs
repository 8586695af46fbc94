//! Readsmith, a small self-hosted RSS reader: its feed-pulling policy,
//! URL guard, sessions, OPML handling, feed mapping and refresh decisions.
pub mod domain;
pub mod clock;
pub mod config;
pub mod error;
pub mod routes;
pub mod services;
pub mod text;
