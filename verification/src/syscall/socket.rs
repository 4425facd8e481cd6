//! `socket`.
use vstd::prelude::*;
use crate::error::SyscallErr;
use crate::posix::{PosixArgsSocketType, SOCK_CLOEXEC, SOCK_KNOWN_BITS, SOCK_NONBLOCK};
use crate::socket;
use crate::socket::{SocketKind, PSOCK};

verus! {

/// The socket that a call asks for, and the flags of its descriptor.
#[derive(Clone, Copy, Debug, PartialEq, Eq, Structural)]
pub struct NewSocket {
    pub kind: SocketKind,
    pub nonblock: bool,
    pub cloexec: bool,
}

/// The socket that a domain and a type with flags ask for.
pub open spec fn new_socket(domain: u32, socket_type: u32) -> Result<NewSocket, SyscallErr> {
    match socket::psock_of((socket_type & SOCK_KNOWN_BITS) % 16) {
        Err(e) => Err(e),
        Ok(psock) => match socket::spec_alloc_socket(domain, psock) {
            Err(e) => Err(e),
            Ok(kind) => Ok(
                NewSocket {
                    kind,
                    nonblock: (socket_type & SOCK_KNOWN_BITS) & SOCK_NONBLOCK == SOCK_NONBLOCK,
                    cloexec: (socket_type & SOCK_KNOWN_BITS) & SOCK_CLOEXEC == SOCK_CLOEXEC,
                },
            ),
        },
    }
}

/// The socket that a call asks for.
pub fn sys_socket(domain: u32, socket_type: u32) -> (r: Result<NewSocket, SyscallErr>)
    ensures
        r == new_socket(domain, socket_type),
{
    let arg = PosixArgsSocketType::from_bits_truncate(socket_type);
    let psock = match PSOCK::try_from(arg) {
        Ok(p) => p,
        Err(e) => return Err(e),
    };
    match socket::alloc_socket(domain, psock) {
        Ok(kind) => Ok(
            NewSocket { kind, nonblock: arg.is_nonblock(), cloexec: arg.is_cloexec() },
        ),
        Err(e) => Err(e),
    }
}

} // verus!
