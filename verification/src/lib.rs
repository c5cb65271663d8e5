//! A minimal static-file HTTP server library.
//!
//! The verified core covers the per-connection request/response logic
//! (parsing, routing against the static file set, response rendering),
//! the leaf collection of a directory tree, the request counters, and
//! the decision logic of the accept loop, the worker loop, the shutdown
//! coordinator and the telemetry flush policy.  The surrounding process
//! (sockets, threads, signals, telemetry providers) performs the I/O and
//! feeds plain values into these functions.

pub mod bytes;
pub mod counters;
pub mod dispatch;
pub mod fileset;
pub mod pipeline;
pub mod request;
pub mod response;
pub mod telemetry;
pub mod walk;
