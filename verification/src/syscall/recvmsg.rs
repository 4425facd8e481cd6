//! `recvmsg`.
use vstd::prelude::*;
use crate::error::SyscallErr;
use crate::posix::MsgHdr;
use crate::socket;
use crate::socket::{Endpoint, EndpointModel, SockaddrOut, PSOCK};
use crate::syscall::common::{MsgFlags, MSG_DONTWAIT, MSG_PEEK, MSG_TRUNC};
use crate::syscall::recvfrom;
use crate::syscall::recvfrom::MIN_SOURCE_LEN;
use crate::syscall::sendto;

verus! {

/// How a `recvmsg` takes a message from its socket.
#[derive(Clone, Copy, Debug, PartialEq, Eq, Structural)]
pub struct RecvmsgPlan {
    /// The most that is received.
    pub cap: usize,
    pub flags: MsgFlags,
    pub nonblock: bool,
    pub peek: bool,
    /// Whether the socket writes straight into the user's memory.
    pub user: bool,
}

/// How a `recvmsg` takes a message from a socket of that type. `iov` is how
/// much room the header describes, or why that could not be found out.
pub open spec fn recvmsg_plan(
    t: PSOCK,
    nonblock: bool,
    flags: u32,
    msg: Option<MsgHdr>,
    iov: Result<usize, SyscallErr>,
    chunk: usize,
) -> Result<RecvmsgPlan, SyscallErr> {
    let f = sendto::flags_of(flags);
    let nb = nonblock || f.has(MSG_DONTWAIT);
    match (recvfrom::recv_flags_error(f), msg, iov) {
        (Some(e), _, _) => Err(e),
        (None, None, _) => Err(SyscallErr::EFAULT),
        (None, Some(_), Err(e)) => Err(e),
        (None, Some(_), Ok(total)) => Ok(
            RecvmsgPlan {
                cap: if total < chunk {
                    total
                } else {
                    chunk
                },
                flags: f,
                nonblock: nb,
                peek: f.has(MSG_PEEK),
                user: nb && !f.has(MSG_PEEK) && t == PSOCK::Stream,
            },
        ),
    }
}

/// How a `recvmsg` takes a message from its socket.
pub fn sys_recvmsg(
    t: PSOCK,
    nonblock: bool,
    flags: u32,
    msg: Option<MsgHdr>,
    iov: Result<usize, SyscallErr>,
    chunk: usize,
) -> (r: Result<RecvmsgPlan, SyscallErr>)
    ensures
        r == recvmsg_plan(t, nonblock, flags, msg, iov, chunk),
{
    let msg_flags = MsgFlags::from_bits_truncate(flags);
    let peek = msg_flags.contains(MSG_PEEK);
    let dontwait = match msg_flags.validate_for_recv() {
        Ok(d) => d,
        Err(e) => return Err(e),
    };
    if msg.is_none() {
        return Err(SyscallErr::EFAULT);
    }
    let total: usize = match iov {
        Ok(t) => t,
        Err(e) => return Err(e),
    };
    let nb = nonblock || dontwait;
    let cap: usize = if total < chunk {
        total
    } else {
        chunk
    };
    let user = nb && !peek && matches!(t, PSOCK::Stream);
    Ok(RecvmsgPlan { cap, flags: msg_flags, nonblock: nb, peek, user })
}

/// What a `recvmsg` writes back.
#[derive(Debug)]
pub struct RecvmsgOut {
    /// How much of the kernel's buffer is copied to the user.
    pub copy: usize,
    pub name: Option<SockaddrOut>,
    pub controllen: usize,
    pub flags: i32,
    /// What the call returns once all that is written.
    pub ret: isize,
}

/// What a [`RecvmsgOut`] says.
pub struct RecvmsgModel {
    pub copy: usize,
    pub name: Option<(Seq<u8>, u32)>,
    pub controllen: usize,
    pub flags: i32,
    pub ret: isize,
}

impl RecvmsgOut {
    pub open spec fn model(self) -> RecvmsgModel {
        RecvmsgModel {
            copy: self.copy,
            name: recvfrom::opt_out(self.name),
            controllen: self.controllen,
            flags: self.flags,
            ret: self.ret,
        }
    }
}

/// What is written when the socket answered `result`: what fits of the
/// message, its sender where the header asks for it, and whether something was
/// cut off.
pub open spec fn received(
    plan: RecvmsgPlan,
    msg: MsgHdr,
    result: isize,
    source: Option<EndpointModel>,
    namelen_at: usize,
    socklen: Option<u32>,
) -> Result<RecvmsgModel, isize> {
    if result < 0 && !plan.user {
        Err(result)
    } else {
        let n = if result < 0 {
            0
        } else {
            result as int
        };
        Ok(
            RecvmsgModel {
                copy: if plan.user {
                    0
                } else if n < plan.cap {
                    n as usize
                } else {
                    plan.cap
                },
                name: if msg.msg_namelen >= MIN_SOURCE_LEN {
                    recvfrom::source_written(0, source, msg.msg_name, namelen_at, socklen)
                } else {
                    None
                },
                controllen: 0,
                flags: if n > plan.cap {
                    MSG_TRUNC as i32
                } else {
                    0
                },
                ret: n as isize,
            },
        )
    }
}

/// What is written when the socket answered `result`; an error with which the
/// socket failed on the direct way is returned before this. `namelen_at` is
/// where the header holds the length of the name, and `socklen` what is there.
pub fn after_recvmsg(
    plan: &RecvmsgPlan,
    msg: &MsgHdr,
    result: isize,
    source: &Option<Endpoint>,
    namelen_at: usize,
    socklen: Option<u32>,
) -> (r: Result<RecvmsgOut, isize>)
    ensures
        match (r, received(
            *plan,
            *msg,
            result,
            socket::opt_model(*source),
            namelen_at,
            socklen,
        )) {
            (Ok(o), Ok(m)) => o.model() == m,
            (Err(e), Err(x)) => e == x,
            _ => false,
        },
{
    if result < 0 && !plan.user {
        return Err(result);
    }
    let n: usize = if result < 0 {
        0
    } else {
        result as usize
    };
    let copy: usize = if plan.user {
        0
    } else if n < plan.cap {
        n
    } else {
        plan.cap
    };
    let name = if msg.msg_namelen >= MIN_SOURCE_LEN {
        recvfrom::source_out(0, source, msg.msg_name, namelen_at, socklen)
    } else {
        None
    };
    let flags: i32 = if n > plan.cap {
        0x20
    } else {
        0
    };
    Ok(RecvmsgOut { copy, name, controllen: 0, flags, ret: n as isize })
}

/// A program is told that a message was cut exactly where it gets less than
/// the socket received.
pub proof fn law_a_cut_is_told(
    plan: RecvmsgPlan,
    msg: MsgHdr,
    result: isize,
    source: Option<EndpointModel>,
    namelen_at: usize,
    socklen: Option<u32>,
)
    requires
        !plan.user,
        result >= 0,
    ensures
        ({
            let out = received(plan, msg, result, source, namelen_at, socklen);
            &&& out is Ok
            &&& out->Ok_0.ret == result
            &&& (out->Ok_0.flags == MSG_TRUNC as i32) == (out->Ok_0.copy < result)
        }),
{
}

/// What a call returns when its header was written back, or could not be.
pub fn finish_recvmsg(ret: isize, written: bool) -> (r: isize)
    ensures
        r == if written {
            ret as int
        } else {
            SyscallErr::EFAULT.spec_ret()
        },
{
    if written {
        ret
    } else {
        SyscallErr::EFAULT.ret()
    }
}

} // verus!
