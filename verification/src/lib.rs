//! Connection-capture engine of a multi-port network decoy.
//!
//! The library holds the decisions of the engine: how connections are
//! numbered, what is said to a peer and what is kept of its answer, and how one
//! interaction becomes one line of the log. Sockets, tasks and files belong to
//! the program around it, which feeds the library events and carries out the
//! actions it returns.

pub mod capture;
pub mod clock;
pub mod connection;
pub mod engine;
pub mod error;
pub mod json;
pub mod listener;
pub mod logger;
pub mod reader;
pub mod record;
pub mod roundtrip;
pub mod sink;
pub mod state;
pub mod text;
