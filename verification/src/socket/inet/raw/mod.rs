//! Raw sockets over IP.
pub mod checksum;
pub mod raw;
