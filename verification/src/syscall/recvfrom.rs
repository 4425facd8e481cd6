//! `recvfrom`.
use vstd::prelude::*;
use crate::error::SyscallErr;
use crate::socket;
use crate::socket::{Endpoint, EndpointModel, SockaddrOut, PSOCK};
use crate::syscall::common::{MsgFlags, MAX_ADDR_LEN, MSG_DONTWAIT, MSG_ERRQUEUE, MSG_OOB, MSG_PEEK};
use crate::syscall::sendto;

verus! {

/// The shortest buffer for the address of a sender.
pub const MIN_SOURCE_LEN: u32 = 12;

/// How a call takes data from its socket.
#[derive(Clone, Copy, Debug, PartialEq, Eq, Structural)]
pub enum RecvVia {
    /// Bytes of a stream, straight into the user's memory.
    User,
    /// Bytes of a stream.
    Stream,
    /// A message with its sender.
    Message,
    /// Data with its sender, if it has one, which stays in the queue.
    Peek,
}

/// What a `recvfrom` asks of its socket.
#[derive(Clone, Copy, Debug, PartialEq, Eq, Structural)]
pub struct RecvPlan {
    pub len: usize,
    pub flags: MsgFlags,
    pub nonblock: bool,
    pub via: RecvVia,
}

/// Why the flags of a call that receives are refused.
pub open spec fn recv_flags_error(flags: MsgFlags) -> Option<SyscallErr> {
    if flags.has(MSG_OOB) {
        Some(SyscallErr::EINVAL)
    } else if flags.has(MSG_ERRQUEUE) {
        Some(SyscallErr::EAGAIN)
    } else {
        None
    }
}

/// Why the room for a sender's address is refused.
pub open spec fn source_len_error(src_addr: usize, socklen: Option<u32>) -> Option<SyscallErr> {
    if src_addr == 0 {
        None
    } else {
        match socklen {
            None => Some(SyscallErr::EFAULT),
            Some(l) => if l < MIN_SOURCE_LEN || l > MAX_ADDR_LEN {
                Some(SyscallErr::EINVAL)
            } else {
                None
            },
        }
    }
}

/// How a call takes data from a socket of that type.
pub open spec fn recv_via(t: PSOCK, nonblock: bool, peek: bool) -> Option<RecvVia> {
    match t {
        PSOCK::Stream => Some(
            if peek {
                RecvVia::Peek
            } else if nonblock {
                RecvVia::User
            } else {
                RecvVia::Stream
            },
        ),
        PSOCK::Datagram | PSOCK::Raw => Some(
            if peek {
                RecvVia::Peek
            } else {
                RecvVia::Message
            },
        ),
        _ => None,
    }
}

/// What a `recvfrom` asks of a socket of that type.
pub open spec fn recvfrom_plan(
    t: PSOCK,
    nonblock: bool,
    len: u32,
    flags: u32,
    src_addr: usize,
    socklen: Option<u32>,
) -> Result<RecvPlan, SyscallErr> {
    let f = sendto::flags_of(flags);
    let nb = nonblock || f.has(MSG_DONTWAIT);
    match (recv_flags_error(f), source_len_error(src_addr, socklen), recv_via(t, nb, f.has(MSG_PEEK))) {
        (Some(e), _, _) => Err(e),
        (None, Some(e), _) => Err(e),
        (None, None, None) => Err(SyscallErr::EOPNOTSUPP),
        (None, None, Some(via)) => Ok(
            RecvPlan { len: sendto::transfer_of(len as usize), flags: f, nonblock: nb, via },
        ),
    }
}

/// What a `recvfrom` asks of its socket. `nonblock` says whether the
/// descriptor must not wait, `socklen` is the room for the sender's address,
/// if that could be read.
pub fn sys_recvfrom(
    t: PSOCK,
    nonblock: bool,
    len: u32,
    flags: u32,
    src_addr: usize,
    socklen: Option<u32>,
) -> (r: Result<RecvPlan, SyscallErr>)
    ensures
        r == recvfrom_plan(t, nonblock, len, flags, src_addr, socklen),
{
    let msg_flags = MsgFlags::from_bits_truncate(flags);
    let peek = msg_flags.contains(MSG_PEEK);
    let dontwait = match msg_flags.validate_for_recv() {
        Ok(d) => d,
        Err(e) => return Err(e),
    };
    if src_addr != 0 {
        match socklen {
            None => return Err(SyscallErr::EFAULT),
            Some(l) => {
                if l < MIN_SOURCE_LEN || l as usize > MAX_ADDR_LEN {
                    return Err(SyscallErr::EINVAL);
                }
            },
        }
    }
    let nb = nonblock || dontwait;
    let via = match t {
        PSOCK::Stream => {
            if peek {
                RecvVia::Peek
            } else if nb {
                RecvVia::User
            } else {
                RecvVia::Stream
            }
        },
        PSOCK::Datagram | PSOCK::Raw => {
            if peek {
                RecvVia::Peek
            } else {
                RecvVia::Message
            }
        },
        _ => return Err(SyscallErr::EOPNOTSUPP),
    };
    Ok(RecvPlan { len: sendto::transfer_len(len as usize), flags: msg_flags, nonblock: nb, via })
}

/// What is written for the sender of a message that came: nothing where it was
/// not asked for, where there is none or where it does not fit. A message can
/// be empty and still have a sender.
pub open spec fn source_written(
    result: isize,
    source: Option<EndpointModel>,
    src_addr: usize,
    addrlen: usize,
    socklen: Option<u32>,
) -> Option<(Seq<u8>, u32)> {
    if result < 0 || src_addr == 0 || source is None {
        None
    } else {
        match socket::sockaddr_out(source->0, src_addr, addrlen, socklen) {
            Ok(out) => Some(out),
            Err(_) => None,
        }
    }
}

/// What an optional [`SockaddrOut`] says.
pub open spec fn opt_out(out: Option<SockaddrOut>) -> Option<(Seq<u8>, u32)> {
    match out {
        Some(o) => Some((o.bytes@, o.len)),
        None => None,
    }
}

/// What is written for the sender of a message that came.
pub fn source_out(
    result: isize,
    source: &Option<Endpoint>,
    src_addr: usize,
    addrlen: usize,
    socklen: Option<u32>,
) -> (r: Option<SockaddrOut>)
    ensures
        opt_out(r) == source_written(
            result,
            socket::opt_model(*source),
            src_addr,
            addrlen,
            socklen,
        ),
{
    if result < 0 || src_addr == 0 {
        return None;
    }
    match source {
        None => None,
        Some(ep) => match ep.fill_sockaddr(src_addr, addrlen, socklen) {
            Ok(out) => Some(out),
            Err(_) => None,
        },
    }
}

/// What a call returns that received `result` bytes, or failed; `copied` says
/// whether the user's memory took them.
pub open spec fn recvfrom_end(via: RecvVia, result: isize, copied: bool) -> isize {
    if !(via is User) && result > 0 && !copied {
        SyscallErr::EFAULT.spec_ret() as isize
    } else {
        result
    }
}

/// What a call returns that received `result` bytes, or failed.
pub fn finish_recvfrom(plan: &RecvPlan, result: isize, copied: bool) -> (r: isize)
    ensures
        r == recvfrom_end(plan.via, result, copied),
{
    match plan.via {
        RecvVia::User => result,
        _ => {
            if result > 0 && !copied {
                SyscallErr::EFAULT.ret()
            } else {
                result
            }
        },
    }
}

/// A call that looks asks for as much as the same call without the look, and
/// for nothing to be taken away, whatever the socket that it may be asked of.
/// It is refused where that one is.
pub proof fn law_peek_asks_for_the_same(
    t: PSOCK,
    nonblock: bool,
    len: u32,
    flags: u32,
    other: u32,
    src_addr: usize,
    socklen: Option<u32>,
)
    requires
        sendto::flags_of(flags).has(MSG_PEEK),
        !sendto::flags_of(other).has(MSG_PEEK),
        sendto::flags_of(flags).has(MSG_OOB) == sendto::flags_of(other).has(MSG_OOB),
        sendto::flags_of(flags).has(MSG_ERRQUEUE) == sendto::flags_of(other).has(MSG_ERRQUEUE),
        sendto::flags_of(flags).has(MSG_DONTWAIT) == sendto::flags_of(other).has(MSG_DONTWAIT),
    ensures
        match (
            recvfrom_plan(t, nonblock, len, flags, src_addr, socklen),
            recvfrom_plan(t, nonblock, len, other, src_addr, socklen),
        ) {
            (Ok(a), Ok(b)) => a.via is Peek && !(b.via is Peek) && a.len == b.len && a.nonblock
                == b.nonblock,
            (Err(a), Err(b)) => a == b,
            _ => false,
        },
{
}

} // verus!
