//! A chunked text-search engine: pattern matching over raw bytes, line
//! resolution, per-file scanning and the aggregation of per-file results.

pub mod cli;
pub mod discovery;
pub mod engine;
pub mod lines;
pub mod matcher;
pub mod output;
pub mod reader;
pub mod scan;
pub mod text;
pub mod utf8;
