//! A verified pool of long-lived worker processes, keyed by a fingerprint of
//! their startup configuration, together with the command-routing logic that
//! splits a JVM-style command line into a server half and a client half,
//! parses the worker's port handshake, and rewrites client invocations to
//! target a pooled server.
//!
//! Process spawning, liveness polling and killing are operating-system work
//! and stay outside this library: the pool is a verified state machine whose
//! caller observes a process and hands the observation in, and which hands
//! evicted entries back out for teardown.

pub mod args;
pub mod text;
pub mod handshake;
pub mod request;
pub mod fingerprint;
pub mod pool;
pub mod router;
pub mod loglevel;
