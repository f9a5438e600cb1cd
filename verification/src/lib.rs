//! Incremental build core for a blog-shaped static site.
//!
//! The library discovers which source files changed since the last run,
//! turns content, asset and static-file entries into typed outputs,
//! parses an in-content shortcode mini-language, and maintains a persisted
//! fingerprint store and post index used for change detection and
//! cross-page queries.

mod strutil;

pub mod asset;
pub mod config;
pub mod datetime;
pub mod entry;
pub mod fingerprint;
pub mod fonts;
pub mod index;
pub mod json;
pub mod markdown;
pub mod page;
pub mod paths;
pub mod postindex;
pub mod render;
pub mod shortcode;
pub mod site;
pub mod sql;
pub mod static_file;
pub mod summary;
