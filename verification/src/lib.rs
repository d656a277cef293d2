//! The decisions of an HTTP server whose handlers are Nushell scripts.
//!
//! What waits, reads, sends or evaluates is left to the program around this
//! library. The library takes what came of it as plain values and says what is
//! to be done next: how the command line is carried out ([`cli`], [`engine`],
//! [`steps`]), where scripts come from and when they are loaded again
//! ([`command_source`], [`file_source`], [`stdin_source`], [`store`]), and how a
//! server starts, runs and stops ([`server`], [`shutdown`]).

pub mod cli;
pub mod command_source;
pub mod encoding;
pub mod engine;
pub mod file_source;
pub mod fs_path;
pub mod operations;
pub mod server;
pub mod shutdown;
pub mod stdin_source;
pub mod steps;
pub mod store;
pub mod text;
pub mod trace;
