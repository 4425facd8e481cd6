//! `connect`.
use vstd::prelude::*;
use vstd::string::StrSliceExecFns;
use crate::error::SyscallErr;
use crate::socket;
use crate::socket::unix::ns;
use crate::socket::unix::{UnixEndpoint, UnixName};
use crate::socket::{Endpoint, EndpointModel};
use crate::syscall::common;
use crate::syscall::wait::CallStep;

verus! {

/// A path from the root, for one that may be relative to `cwd`.
pub open spec fn absolute_path(cwd: Seq<char>, path: Seq<char>) -> Seq<char> {
    if path.len() > 0 && path[0] == '/' {
        path
    } else {
        ns::joined_path(cwd, path)
    }
}

/// The endpoint that a `connect` is about; a relative path is relative to the
/// working directory.
pub open spec fn connect_endpoint(
    addr: usize,
    addrlen: u32,
    copied: Option<Seq<u8>>,
    cwd: Seq<char>,
) -> Result<EndpointModel, SyscallErr> {
    match common::sockaddr_bytes(addr, addrlen, copied) {
        Err(e) => Err(e),
        Ok(b) => match socket::sockaddr_endpoint(b) {
            Ok(EndpointModel::Unix(UnixName::Path(p))) => Ok(
                EndpointModel::Unix(UnixName::Path(absolute_path(cwd, p))),
            ),
            other => other,
        },
    }
}

/// The endpoint that a `connect` is about. `copied` is what could be read of
/// the address.
pub fn sys_connect(addr: usize, addrlen: u32, copied: Option<Vec<u8>>, cwd: &str) -> (r: Result<
    Endpoint,
    SyscallErr,
>)
    ensures
        match (r, connect_endpoint(addr, addrlen, common::opt_bytes(copied), cwd@)) {
            (Ok(ep), Ok(m)) => ep@ == m,
            (Err(e), Err(x)) => e == x,
            _ => false,
        },
{
    let bytes = match common::read_sockaddr(addr, addrlen, copied) {
        Ok(b) => b,
        Err(e) => return Err(e),
    };
    match Endpoint::from_sockaddr(bytes.as_slice()) {
        Err(e) => Err(e),
        Ok(Endpoint::Unix(UnixEndpoint::Path(path))) => {
            if path.as_str().unicode_len() > 0 && path.as_str().get_char(0) == '/' {
                Ok(Endpoint::Unix(UnixEndpoint::Path(path)))
            } else {
                let full = ns::join_path(cwd, path.as_str());
                Ok(Endpoint::Unix(UnixEndpoint::Path(full)))
            }
        },
        Ok(ep) => Ok(ep),
    }
}

/// How a `connect` goes on after the socket began to connect.
#[derive(Clone, Copy, Debug, PartialEq, Eq, Structural)]
pub enum ConnectStep {
    Done(CallStep),
    /// The socket cannot be waited for: it is asked again and again.
    Yield,
}

pub open spec fn connect_begun(
    result: Result<isize, SyscallErr>,
    can_wait: bool,
    nonblock: bool,
) -> ConnectStep {
    match result {
        Ok(n) => ConnectStep::Done(CallStep::Return(n)),
        Err(e) => if e != SyscallErr::EAGAIN {
            ConnectStep::Done(CallStep::Return(e.spec_ret() as isize))
        } else if !can_wait {
            ConnectStep::Yield
        } else if nonblock {
            ConnectStep::Done(CallStep::Return(SyscallErr::EINPROGRESS.spec_ret() as isize))
        } else {
            ConnectStep::Done(CallStep::Wait)
        },
    }
}

/// How a `connect` goes on: a handshake that is under way answers
/// `EINPROGRESS` to a call that must not wait.
pub fn after_connect(result: Result<isize, SyscallErr>, can_wait: bool, nonblock: bool) -> (r:
    ConnectStep)
    ensures
        r == connect_begun(result, can_wait, nonblock),
{
    match result {
        Ok(n) => ConnectStep::Done(CallStep::Return(n)),
        Err(e) => {
            if e != SyscallErr::EAGAIN {
                ConnectStep::Done(CallStep::Return(e.ret()))
            } else if !can_wait {
                ConnectStep::Yield
            } else if nonblock {
                ConnectStep::Done(CallStep::Return(SyscallErr::EINPROGRESS.ret()))
            } else {
                ConnectStep::Done(CallStep::Wait)
            }
        },
    }
}

} // verus!
