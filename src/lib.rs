//! Typed model of a CI server's REST resources: percent-encoded names, the
//! bidirectional URL codec for resource paths, and the tagged decoder for
//! server JSON payloads.

pub mod encoding;
pub mod number;
pub mod error;
pub mod json;
pub mod job;
pub mod maven;
pub mod path;
