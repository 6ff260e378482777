//! SQL statements, planning and execution.

pub mod rank;
pub mod compare;
pub mod order;
pub mod ast;
pub mod syntax;
pub mod front;
pub mod parser;
pub mod like;
pub mod predicate;
pub mod planner;
pub mod laws;
pub mod rows;
pub mod aggregate;
pub mod coerce;
pub mod eval;
pub mod executor;
pub mod guard;
pub mod read_write;
