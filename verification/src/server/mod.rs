//! The HTTP API's decisions: which requests pass authentication, the codes
//! of errors, database file names, and values to and from JSON.

pub mod metrics;
pub mod json;
pub mod api;
