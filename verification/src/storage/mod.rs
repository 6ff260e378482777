//! Storage: the engine interface and the primary-key encoding.

pub mod engine;
