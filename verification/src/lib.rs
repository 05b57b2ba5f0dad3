//! Verified core of a web-search and page-content extraction service.
//!
//! The library holds the logic that is worth proving: search-parameter
//! clamping, redirect-URL resolution, result parsing and ad filtering,
//! pagination, challenge-page detection, rate-limit window arithmetic,
//! main-content selection and text cleaning, and the request-routing
//! decisions.  Network transport and JSON envelope plumbing stay outside.

pub mod content;
pub mod dispatch;
pub mod engine;
pub mod format;
pub mod limiter;
pub mod models;
pub mod parser;
pub mod text;
pub mod urls;
