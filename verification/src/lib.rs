//! Decisions of a stdio upstream that speaks the Model Context Protocol.
//!
//! A stdio upstream is a child process that reads JSON-RPC messages on its
//! standard input and writes them on its standard output. This crate holds what
//! such an upstream decides and remembers: the bounded log of recent output, the
//! table of requests that wait for a response, the event loop between the two
//! sides, and the error that a failed `initialize` request is reported with.
//! Channels, tasks and the child process itself are the caller's.
pub mod driver;
pub mod laws;
pub mod logs;
pub mod operations;
pub mod pending;
pub mod process;
pub mod text;
pub mod wire;
