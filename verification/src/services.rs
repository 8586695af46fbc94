//! The reader's business logic.
pub mod auth;
pub mod feed_discovery;
pub mod feed_fetcher;
pub mod feed_parser;
pub mod opml;
pub mod pull_policy;
pub mod sanitizer;
pub mod url_guard;
