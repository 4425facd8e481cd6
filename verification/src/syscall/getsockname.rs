//! `getsockname`.
use vstd::prelude::*;
use crate::error::SyscallErr;
use crate::socket;
use crate::socket::{Endpoint, SockaddrOut};

verus! {

/// What is written for the address of a socket, `local`. `socklen` is what was
/// read at `addrlen`, if that could be read.
pub fn sys_getsockname(local: Option<Endpoint>, addr: usize, addrlen: usize, socklen: Option<u32>) -> (r:
    Result<SockaddrOut, SyscallErr>)
    ensures
        socket::out_model(r) == socket::own_address(
            socket::opt_model(local),
            addr,
            addrlen,
            socklen,
        ),
{
    socket::addr(local, addr, addrlen, socklen)
}

} // verus!
