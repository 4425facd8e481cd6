//! `socketpair`.
use vstd::prelude::*;
use crate::error::SyscallErr;
use crate::posix::{PosixArgsSocketType, SOCK_CLOEXEC, SOCK_KNOWN_BITS, SOCK_NONBLOCK};
use crate::socket;
use crate::socket::unix;
use crate::socket::unix::UnixKind;
use crate::socket::{AF_UNIX, AF_UNSPEC, PSOCK};

verus! {

/// The pair that a call asks for, and the flags of its descriptors.
#[derive(Clone, Copy, Debug, PartialEq, Eq, Structural)]
pub struct NewPair {
    pub kind: UnixKind,
    pub nonblock: bool,
    pub cloexec: bool,
}

/// The pair that a domain and a type with flags ask for: bits that mean
/// nothing are refused, and only Unix sockets of streams and of datagrams come
/// in pairs.
pub open spec fn new_pair(domain: u32, socket_type: u32) -> Result<NewPair, SyscallErr> {
    match socket::psock_of((socket_type & SOCK_KNOWN_BITS) % 16) {
        Err(e) => Err(e),
        Ok(psock) => if socket_type & SOCK_KNOWN_BITS != socket_type {
            Err(SyscallErr::EINVAL)
        } else if domain % 65536 != AF_UNIX && domain % 65536 != AF_UNSPEC {
            Err(SyscallErr::EPROTONOSUPPORT)
        } else {
            let nonblock = (socket_type & SOCK_KNOWN_BITS) & SOCK_NONBLOCK == SOCK_NONBLOCK;
            let cloexec = (socket_type & SOCK_KNOWN_BITS) & SOCK_CLOEXEC == SOCK_CLOEXEC;
            match psock {
                PSOCK::Stream => Ok(NewPair { kind: UnixKind::Stream, nonblock, cloexec }),
                PSOCK::Datagram => Ok(NewPair { kind: UnixKind::Datagram, nonblock, cloexec }),
                _ => Err(SyscallErr::ESOCKTNOSUPPORT),
            }
        },
    }
}

/// The pair that a call asks for.
pub fn sys_socketpair(domain: u32, socket_type: u32) -> (r: Result<NewPair, SyscallErr>)
    ensures
        r == new_pair(domain, socket_type),
{
    let arg = PosixArgsSocketType::from_bits_truncate(socket_type);
    let psock = match PSOCK::try_from(arg) {
        Ok(p) => p,
        Err(e) => return Err(e),
    };
    if arg.bits() != socket_type {
        return Err(SyscallErr::EINVAL);
    }
    let family: u32 = domain % 65536;
    if family != 1 && family != 0 {
        return Err(SyscallErr::EPROTONOSUPPORT);
    }
    if let PSOCK::SeqPacket = psock {
        return Err(SyscallErr::ESOCKTNOSUPPORT);
    }
    match unix::unix_pair_kind(psock) {
        Ok(kind) => Ok(NewPair { kind, nonblock: arg.is_nonblock(), cloexec: arg.is_cloexec() }),
        Err(e) => Err(e),
    }
}

/// How a `socketpair` ends: what it returns, and which of its descriptors are
/// dropped again.
#[derive(Clone, Copy, Debug, PartialEq, Eq, Structural)]
pub struct PairEnd {
    pub ret: isize,
    pub drop_first: bool,
    pub drop_second: bool,
}

/// A pair is handed out whole or not at all.
pub open spec fn pair_end(first: Result<u32, SyscallErr>, second: Result<u32, SyscallErr>, written: bool) -> PairEnd {
    match (first, second) {
        (Err(e), _) => PairEnd {
            ret: e.spec_ret() as isize,
            drop_first: false,
            drop_second: false,
        },
        (Ok(_), Err(e)) => PairEnd {
            ret: e.spec_ret() as isize,
            drop_first: true,
            drop_second: false,
        },
        (Ok(_), Ok(_)) => if written {
            PairEnd { ret: 0, drop_first: false, drop_second: false }
        } else {
            PairEnd {
                ret: SyscallErr::EFAULT.spec_ret() as isize,
                drop_first: true,
                drop_second: true,
            }
        },
    }
}

/// Ends a `socketpair`. The second descriptor is asked for only after the
/// first, and `written` says whether the user's memory took both.
pub fn finish_pair(first: Result<u32, SyscallErr>, second: Result<u32, SyscallErr>, written: bool) -> (r:
    PairEnd)
    ensures
        r == pair_end(first, second, written),
{
    match first {
        Err(e) => PairEnd { ret: e.ret(), drop_first: false, drop_second: false },
        Ok(_) => match second {
            Err(e) => PairEnd { ret: e.ret(), drop_first: true, drop_second: false },
            Ok(_) => {
                if written {
                    PairEnd { ret: 0, drop_first: false, drop_second: false }
                } else {
                    PairEnd { ret: SyscallErr::EFAULT.ret(), drop_first: true, drop_second: true }
                }
            },
        },
    }
}

/// A call that fails leaves no descriptor behind.
pub proof fn law_pair_is_whole_or_not(
    first: Result<u32, SyscallErr>,
    second: Result<u32, SyscallErr>,
    written: bool,
)
    ensures
        ({
            let end = pair_end(first, second, written);
            &&& end.ret == 0 ==> first is Ok && second is Ok && !end.drop_first && !end.drop_second
            &&& end.ret != 0 && first is Ok ==> end.drop_first
            &&& end.ret != 0 && first is Ok && second is Ok ==> end.drop_second
        }),
{
    assert(SyscallErr::EFAULT.spec_ret() == -14);
    match (first, second) {
        (Ok(_), Err(e)) => {
            assert(e.spec_ret() < 0);
        },
        (Err(e), _) => {
            assert(e.spec_ret() < 0);
        },
        _ => {},
    }
}

} // verus!
