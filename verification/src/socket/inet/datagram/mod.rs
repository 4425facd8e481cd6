//! Datagram sockets over IP.
pub mod udp;
