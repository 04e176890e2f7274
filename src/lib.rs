//! An HTTP redirect router: redirect rules compiled from a flat key/value
//! configuration, and a request matcher that picks the first rule whose
//! pattern matches `host + uri` and rewrites the subject with it.

pub mod config;
pub mod pattern;
pub mod rule;
pub mod router;
pub mod laws;
