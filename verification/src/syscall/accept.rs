//! `accept` and `accept4`.
use vstd::prelude::*;
use crate::error::SyscallErr;
use crate::posix::{SOCK_CLOEXEC, SOCK_NONBLOCK};
use crate::socket;
use crate::socket::{Endpoint, EndpointModel, SockaddrOut};
use crate::syscall::recvfrom;
use crate::syscall::wait;
use crate::syscall::wait::CallStep;

verus! {

/// What a call of `accept` sees.
#[derive(Clone, Copy, Debug)]
pub enum AcceptEvent {
    /// The socket was asked for a connection: the file descriptor of one.
    Tried(Result<isize, SyscallErr>),
    Interrupted,
    TimedOut,
}

/// What a call of `accept` does: it goes on waiting when the wait just took
/// long.
pub open spec fn accept_step(nonblock: bool, event: AcceptEvent) -> CallStep {
    match event {
        AcceptEvent::Tried(r) => wait::tried(r, nonblock),
        AcceptEvent::Interrupted => CallStep::Return(SyscallErr::ERESTART.spec_ret() as isize),
        AcceptEvent::TimedOut => CallStep::Wait,
    }
}

pub fn sys_accept(nonblock: bool, event: AcceptEvent) -> (r: CallStep)
    ensures
        r == accept_step(nonblock, event),
{
    match event {
        AcceptEvent::Tried(result) => wait::after_try(result, nonblock),
        AcceptEvent::Interrupted => CallStep::Return(SyscallErr::ERESTART.ret()),
        AcceptEvent::TimedOut => CallStep::Wait,
    }
}

/// Which kind of socket accepts.
#[derive(Clone, Copy, Debug, PartialEq, Eq, Structural)]
pub enum AcceptKind {
    Tcp,
    UnixStream,
}

/// Whether the new descriptor is closed when the program runs another: that of a
/// TCP connection has the flag of the listening one, that of a Unix one starts
/// without it.
pub fn accepted_cloexec(kind: AcceptKind, listener_cloexec: bool) -> (r: bool)
    ensures
        r == (kind is Tcp && listener_cloexec),
{
    match kind {
        AcceptKind::Tcp => listener_cloexec,
        AcceptKind::UnixStream => false,
    }
}

/// What is written for the peer of a new connection, or why it cannot be. A TCP
/// socket reports an address that does not fit; a Unix one then writes none,
/// and writes none either where `addrlen` is below two or the peer has no
/// name.
pub open spec fn peer_written(
    kind: AcceptKind,
    peer: Option<EndpointModel>,
    addr: usize,
    addrlen: usize,
    socklen: Option<u32>,
) -> Result<Option<(Seq<u8>, u32)>, SyscallErr> {
    if addr == 0 || peer is None {
        Ok(None)
    } else {
        match (kind, socket::sockaddr_out(peer->0, addr, addrlen, socklen)) {
            (AcceptKind::Tcp, Ok(out)) => Ok(Some(out)),
            (AcceptKind::Tcp, Err(e)) => Err(e),
            (AcceptKind::UnixStream, Ok(out)) if addrlen >= 2 => Ok(Some(out)),
            (AcceptKind::UnixStream, _) => Ok(None),
        }
    }
}

/// What is written for the peer of a new connection, or why it cannot be.
pub fn peer_out(
    kind: AcceptKind,
    peer: &Option<Endpoint>,
    addr: usize,
    addrlen: usize,
    socklen: Option<u32>,
) -> (r: Result<Option<SockaddrOut>, SyscallErr>)
    ensures
        peer_written(kind, socket::opt_model(*peer), addr, addrlen, socklen) == match r {
            Ok(out) => Ok::<Option<(Seq<u8>, u32)>, SyscallErr>(recvfrom::opt_out(out)),
            Err(e) => Err(e),
        },
{
    if addr == 0 {
        return Ok(None);
    }
    let ep = match peer {
        Some(ep) => ep,
        None => return Ok(None),
    };
    match kind {
        AcceptKind::Tcp => match ep.fill_sockaddr(addr, addrlen, socklen) {
            Ok(out) => Ok(Some(out)),
            Err(e) => Err(e),
        },
        AcceptKind::UnixStream => {
            if addrlen < 2 {
                return Ok(None);
            }
            match ep.fill_sockaddr(addr, addrlen, socklen) {
                Ok(out) => Ok(Some(out)),
                Err(_) => Ok(None),
            }
        },
    }
}

/// How an accept of one connection ends. `fd` is the new descriptor, if one was
/// free, and `address` says whether the peer's address could be written; only
/// a TCP socket reports that it could not, and the descriptor is there all the
/// same.
pub open spec fn accept_end(
    kind: AcceptKind,
    fd: Option<u32>,
    address: Result<(), SyscallErr>,
) -> Result<isize, SyscallErr> {
    match (kind, fd, address) {
        (AcceptKind::Tcp, None, _) => Err(SyscallErr::EMFILE),
        (AcceptKind::UnixStream, None, _) => Err(SyscallErr::ENFILE),
        (AcceptKind::Tcp, Some(_), Err(e)) => Err(e),
        (_, Some(fd), _) => Ok(fd as isize),
    }
}

/// How an accept of one connection ends. The address is written after the
/// descriptor was made.
pub fn finish_accept(kind: AcceptKind, fd: Option<u32>, address: Result<(), SyscallErr>) -> (r:
    Result<isize, SyscallErr>)
    ensures
        r == accept_end(kind, fd, address),
{
    match fd {
        None => match kind {
            AcceptKind::Tcp => Err(SyscallErr::EMFILE),
            AcceptKind::UnixStream => Err(SyscallErr::ENFILE),
        },
        Some(n) => match (kind, address) {
            (AcceptKind::Tcp, Err(e)) => Err(e),
            _ => Ok(n as isize),
        },
    }
}

/// The answer of `accept4`: what `accept` returned, and which flags the new
/// descriptor gets.
#[derive(Clone, Copy, Debug, PartialEq, Eq, Structural)]
pub struct Accepted {
    pub ret: isize,
    pub cloexec: bool,
    pub nonblock: bool,
}

pub fn sys_accept4(ret: isize, flags: u32) -> (r: Accepted)
    ensures
        r.ret == ret,
        r.cloexec == (ret >= 0 && flags & SOCK_CLOEXEC != 0),
        r.nonblock == (ret >= 0 && flags & SOCK_NONBLOCK != 0),
{
    Accepted {
        ret,
        cloexec: ret >= 0 && flags & SOCK_CLOEXEC != 0,
        nonblock: ret >= 0 && flags & SOCK_NONBLOCK != 0,
    }
}

} // verus!
