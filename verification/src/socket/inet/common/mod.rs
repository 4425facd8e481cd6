//! What the IP sockets share.
pub mod address;
pub mod bound;
pub mod port;
