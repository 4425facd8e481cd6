//! `setsockopt`.
use vstd::prelude::*;
use crate::error::SyscallErr;
use crate::syscall::common::{
    SOL_SOCKET,
    SOL_TCP,
    SO_DONTROUTE,
    SO_KEEPALIVE,
    SO_RCVBUF,
    SO_RCVTIMEO,
    SO_REUSEADDR,
    SO_SNDBUF,
    SO_SNDTIMEO,
    TCP_NODELAY,
};

verus! {

/// The size of a `struct timeval`.
pub const TIMEVAL_SIZE: usize = 16;

/// What an option changes of a socket.
#[derive(Clone, Copy, Debug, PartialEq, Eq, Structural)]
pub enum OptionChange {
    SendBuf(usize),
    RecvBuf(usize),
    Nagle(bool),
    KeepAlive(bool),
    ReuseAddr(bool),
    /// The option is taken and changes nothing.
    Nothing,
}

/// What an option changes. `optval` is the number at `optval_ptr` and
/// `readable_timeval` says whether a `struct timeval` can be read there.
pub open spec fn option_change(
    level: u32,
    optname: u32,
    optval_ptr: usize,
    optlen: u32,
    optval: Option<u32>,
    readable_timeval: bool,
) -> Result<OptionChange, SyscallErr> {
    if optval_ptr == 0 {
        Err(SyscallErr::EFAULT)
    } else if optlen == 0 {
        Err(SyscallErr::EINVAL)
    } else if optval is None {
        Err(SyscallErr::EFAULT)
    } else {
        let v = optval->0;
        if level == SOL_SOCKET && optname == SO_SNDBUF {
            Ok(OptionChange::SendBuf(v as usize))
        } else if level == SOL_SOCKET && optname == SO_RCVBUF {
            Ok(OptionChange::RecvBuf(v as usize))
        } else if level == SOL_TCP && optname == TCP_NODELAY {
            Ok(OptionChange::Nagle(v == 0))
        } else if level == SOL_SOCKET && optname == SO_KEEPALIVE {
            Ok(OptionChange::KeepAlive(v == 1))
        } else if level == SOL_SOCKET && optname == SO_REUSEADDR {
            Ok(OptionChange::ReuseAddr(v != 0))
        } else if level == SOL_SOCKET && optname == SO_DONTROUTE {
            Ok(OptionChange::Nothing)
        } else if level == SOL_SOCKET && (optname == SO_RCVTIMEO || optname == SO_SNDTIMEO) {
            if optlen < TIMEVAL_SIZE {
                Err(SyscallErr::EINVAL)
            } else if !readable_timeval {
                Err(SyscallErr::EFAULT)
            } else {
                Ok(OptionChange::Nothing)
            }
        } else {
            Err(SyscallErr::ENOPROTOOPT)
        }
    }
}

/// What an option changes.
pub fn sys_setsockopt(
    level: u32,
    optname: u32,
    optval_ptr: usize,
    optlen: u32,
    optval: Option<u32>,
    readable_timeval: bool,
) -> (r: Result<OptionChange, SyscallErr>)
    ensures
        r == option_change(level, optname, optval_ptr, optlen, optval, readable_timeval),
{
    if optval_ptr == 0 {
        return Err(SyscallErr::EFAULT);
    }
    if optlen == 0 {
        return Err(SyscallErr::EINVAL);
    }
    let v: u32 = match optval {
        Some(v) => v,
        None => return Err(SyscallErr::EFAULT),
    };
    if level == SOL_TCP {
        if optname == TCP_NODELAY {
            return Ok(OptionChange::Nagle(v == 0));
        }
        return Err(SyscallErr::ENOPROTOOPT);
    }
    if level != SOL_SOCKET {
        return Err(SyscallErr::ENOPROTOOPT);
    }
    if optname == SO_SNDBUF {
        Ok(OptionChange::SendBuf(v as usize))
    } else if optname == SO_RCVBUF {
        Ok(OptionChange::RecvBuf(v as usize))
    } else if optname == SO_KEEPALIVE {
        Ok(OptionChange::KeepAlive(v == 1))
    } else if optname == SO_REUSEADDR {
        Ok(OptionChange::ReuseAddr(v != 0))
    } else if optname == SO_DONTROUTE {
        Ok(OptionChange::Nothing)
    } else if optname == SO_RCVTIMEO || optname == SO_SNDTIMEO {
        if (optlen as usize) < TIMEVAL_SIZE {
            return Err(SyscallErr::EINVAL);
        }
        if !readable_timeval {
            return Err(SyscallErr::EFAULT);
        }
        Ok(OptionChange::Nothing)
    } else {
        Err(SyscallErr::ENOPROTOOPT)
    }
}

} // verus!
