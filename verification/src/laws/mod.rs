//! What the operations are for, stated across them.
//!
//! Each law speaks of what goes into an operation and what comes out of it, by
//! fields, positions and counts, or of how the results of two operations
//! belong together.
pub mod answers;
pub mod arrivals;
pub mod calls;
pub mod decisions;
pub mod dumps;
pub mod interfaces;
pub mod keeping;
pub mod links;
pub mod local;
pub mod ports;
pub mod raw;
pub mod routes;
pub mod streams;
pub mod tcp;
pub mod udp;
