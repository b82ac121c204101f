//! Content-addressed snapshots of source trees: the snapshot engine without
//! its input and output. Every function here computes on plain values; the
//! caller reads and writes the repository.

pub mod cli;
pub mod commands;
pub mod config;
pub mod error;
pub mod ignore;
pub mod path_resolver;
pub mod storage;
pub mod text;
pub mod timestamp;
