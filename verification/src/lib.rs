//! A small personal-blog content server: a content cache with TTL-driven
//! refresh, path validation for untrusted identifiers, HTTP conditional-request
//! evaluation, and a delta-capable syndication feed built from the cache.

pub mod db;
pub mod error;
pub mod feed;
pub mod headers;
pub mod markdown;
pub mod metadata;
pub mod paths;
pub mod routes;
pub mod settings;
pub mod text;
pub mod time;
pub mod urlutil;
pub mod yaml;
