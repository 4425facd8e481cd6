//! IP sockets.
pub mod common;
pub mod datagram;
pub mod raw;
pub mod stream;
