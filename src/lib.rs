//! Mirrors the artifacts of a CI build into a local directory tree and
//! decides how a static server answers requests that miss a file.

pub mod error;
pub mod job;
pub mod paths;
pub mod plan;
pub mod prefix;
pub mod router;
