//! The socket system calls.
//!
//! A call takes what was read of user memory and what the kernel knows of the
//! program and its sockets, and returns what is written back and what the
//! kernel does.
pub mod accept;
pub mod bind;
pub mod common;
pub mod connect;
pub mod getpeername;
pub mod getsockname;
pub mod getsockopt;
pub mod listen;
pub mod receive;
pub mod recvfrom;
pub mod recvmsg;
pub mod sendmmsg;
pub mod sendmsg;
pub mod sendto;
pub mod setsockopt;
pub mod shutdown;
pub mod socket;
pub mod socketpair;
pub mod wait;
