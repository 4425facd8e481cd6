//! `getpeername`.
use vstd::prelude::*;
use crate::error::SyscallErr;
use crate::socket;
use crate::socket::{Endpoint, SockaddrOut};

verus! {

/// What is written for the address of a socket's peer, `remote`. `socklen` is
/// what was read at `addrlen`, if that could be read, and `writable` says
/// whether the buffer could be.
pub fn sys_getpeername(
    remote: Option<Endpoint>,
    addr: usize,
    addrlen: usize,
    socklen: Option<u32>,
    writable: bool,
) -> (r: Result<SockaddrOut, SyscallErr>)
    ensures
        socket::out_model(r) == socket::peer_address(
            socket::opt_model(remote),
            addr,
            addrlen,
            socklen,
            writable,
        ),
{
    socket::peer_addr(remote, addr, addrlen, socklen, writable)
}

} // verus!
