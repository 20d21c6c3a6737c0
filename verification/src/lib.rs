//! A bounded, reusable connection pool for a byte-level TCP proxy.
//!
//! The pool caps the number of simultaneous backend connections with an
//! admission gate, prefers reusing idle connections over dialing new ones,
//! and guarantees that every borrowed connection is returned exactly once.
//! The asynchronous runtime (socket I/O, waiting for admission) lives outside
//! this crate; here the pool is a verified state machine whose transitions
//! the runtime drives.

pub mod config;
pub mod model;
pub mod pool;
