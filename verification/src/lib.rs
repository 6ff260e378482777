//! RustMinidb: a lightweight embedded relational database.

use vstd::prelude::*;

pub mod strutil;
pub mod error;
pub mod types;
pub mod float;
pub mod schema;
pub mod encoding;
pub mod text;
pub mod storage;
pub mod sql;
pub mod migration;
pub mod monitor;
pub mod banner;
pub mod config;
pub mod watcher;
pub mod cli;
pub mod server;
pub mod database;

pub use database::Database;

verus! {

/// The crate's version string.
pub fn version() -> (r: &'static str)
    ensures
        r@ == "0.2.0"@,
{
    "0.2.0"
}

} // verus!
