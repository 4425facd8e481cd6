//! `sendmsg`.
use vstd::prelude::*;
use crate::error::SyscallErr;
use crate::posix::MsgHdr;
use crate::socket;
use crate::socket::{Endpoint, EndpointModel, PSOCK};
use crate::syscall::common;
use crate::syscall::common::{MsgFlags, MSG_DONTWAIT};
use crate::syscall::sendto;
use crate::syscall::sendto::SenderFacts;

verus! {

/// How much of a destination is read.
pub const MAX_NAME_LEN: usize = 128;

/// How the data of a message goes to the socket.
#[derive(Clone, Copy, Debug, PartialEq, Eq, Structural)]
pub enum SendShape {
    /// There is none; one empty message is sent.
    Empty,
    /// In pieces of at most so many bytes.
    Chunked(usize),
    /// As one message of so many bytes.
    Single(usize),
}

/// What a `sendmsg` hands to its socket.
#[derive(Debug)]
pub struct MessagePlan {
    pub flags: MsgFlags,
    pub dest: Option<Endpoint>,
    pub nonblock: bool,
    pub shape: SendShape,
    /// How large a buffer the kernel needs for the data.
    pub reserve: usize,
}

/// What a [`MessagePlan`] says.
pub struct MessageModel {
    pub flags: MsgFlags,
    pub dest: Option<EndpointModel>,
    pub nonblock: bool,
    pub shape: SendShape,
    pub reserve: usize,
}

impl MessagePlan {
    pub open spec fn model(self) -> MessageModel {
        MessageModel {
            flags: self.flags,
            dest: socket::opt_model(self.dest),
            nonblock: self.nonblock,
            shape: self.shape,
            reserve: self.reserve,
        }
    }
}

/// Whether the call gives its socket a port first, by binding it to
/// [`sendto::auto_bind_endpoint`], and what it then hands to the socket. Where
/// that binding fails the call goes on as if it had not been tried.
#[derive(Debug)]
pub struct MessageStep {
    pub auto_bind: bool,
    pub plan: Result<MessagePlan, SyscallErr>,
}

/// The destination of a message; one that cannot be read or makes no sense
/// counts as none.
pub open spec fn message_dest(msg: MsgHdr, name: Option<Seq<u8>>) -> Option<EndpointModel> {
    if msg.msg_name == 0 || msg.msg_namelen < 16 || name is None {
        None
    } else {
        match socket::sockaddr_endpoint(name->0) {
            Ok(ep) => Some(ep),
            Err(_) => None,
        }
    }
}

/// How many bytes of a destination are read.
pub fn name_len(msg: &MsgHdr) -> (r: usize)
    ensures
        r == if msg.msg_namelen < MAX_NAME_LEN {
            msg.msg_namelen as usize
        } else {
            MAX_NAME_LEN
        },
{
    if (msg.msg_namelen as usize) < MAX_NAME_LEN {
        msg.msg_namelen as usize
    } else {
        MAX_NAME_LEN
    }
}

/// The destination of a message. `name` are the first bytes at `msg_name`, as
/// many as [`name_len`] says, if they can be read.
pub fn resolve_dest(msg: &MsgHdr, name: Option<Vec<u8>>) -> (r: Option<Endpoint>)
    ensures
        socket::opt_model(r) == message_dest(*msg, common::opt_bytes(name)),
{
    if msg.msg_name == 0 || msg.msg_namelen < 16 {
        return None;
    }
    match name {
        None => None,
        Some(b) => match Endpoint::from_sockaddr(b.as_slice()) {
            Ok(ep) => Some(ep),
            Err(_) => None,
        },
    }
}

/// How `total` bytes go to a socket of that type: a stream takes them in
/// pieces of at most `chunk` bytes, any other socket as one message that is no
/// longer than that.
pub open spec fn shape_of(t: PSOCK, total: usize, chunk: usize) -> Result<SendShape, SyscallErr> {
    if total == 0 {
        Ok(SendShape::Empty)
    } else if t == PSOCK::Stream {
        Ok(
            SendShape::Chunked(
                if total < chunk {
                    total
                } else {
                    chunk
                },
            ),
        )
    } else if total > chunk {
        Err(SyscallErr::EMSGSIZE)
    } else {
        Ok(SendShape::Single(total))
    }
}

/// How large a buffer the kernel needs; a stream that does not wait reads the
/// user's memory itself.
pub open spec fn reserve_of(shape: SendShape, nonblock: bool) -> usize {
    match shape {
        SendShape::Empty => 0,
        SendShape::Chunked(cap) => if nonblock {
            0
        } else {
            cap
        },
        SendShape::Single(len) => len,
    }
}

/// What a `sendmsg` hands to its socket once the header has been read.
pub open spec fn message_plan(
    f: SenderFacts,
    flags: u32,
    msg: MsgHdr,
    total: usize,
    name: Option<Seq<u8>>,
    chunk: usize,
) -> Result<MessageModel, SyscallErr> {
    let dest = message_dest(msg, name);
    let nonblock = f.nonblock || sendto::flags_of(flags).has(MSG_DONTWAIT);
    if total > 0 && f.socket_type == PSOCK::Datagram && dest is None && !f.connected {
        Err(SyscallErr::EDESTADDRREQ)
    } else {
        match shape_of(f.socket_type, total, chunk) {
            Err(e) => Err(e),
            Ok(shape) => Ok(
                MessageModel {
                    flags: sendto::flags_of(flags),
                    dest,
                    nonblock,
                    shape,
                    reserve: reserve_of(shape, nonblock),
                },
            ),
        }
    }
}

/// Whether a `sendmsg` gives its socket a port, and what it hands to the
/// socket. `iov` is how much data the header describes, or why that could not
/// be found out.
pub open spec fn sendmsg_step(
    f: SenderFacts,
    flags: u32,
    msg: Option<MsgHdr>,
    iov: Result<usize, SyscallErr>,
    name: Option<Seq<u8>>,
    chunk: usize,
) -> (bool, Result<MessageModel, SyscallErr>) {
    if sendto::unsendable(sendto::flags_of(flags)) {
        (false, Err(SyscallErr::EOPNOTSUPP))
    } else {
        match (msg, iov) {
            (None, _) => (false, Err(SyscallErr::EFAULT)),
            (Some(_), Err(e)) => (false, Err(e)),
            (Some(m), Ok(total)) => (
                total > 0 && f.wants_port(),
                message_plan(f, flags, m, total, name, chunk),
            ),
        }
    }
}

/// What a step of that kind says.
pub open spec fn message_step_model(s: MessageStep) -> (bool, Result<MessageModel, SyscallErr>) {
    (
        s.auto_bind,
        match s.plan {
            Ok(p) => Ok(p.model()),
            Err(e) => Err(e),
        },
    )
}

fn choose_shape(t: PSOCK, total: usize, chunk: usize) -> (r: Result<SendShape, SyscallErr>)
    ensures
        r == shape_of(t, total, chunk),
{
    if total == 0 {
        return Ok(SendShape::Empty);
    }
    match t {
        PSOCK::Stream => {
            if total < chunk {
                Ok(SendShape::Chunked(total))
            } else {
                Ok(SendShape::Chunked(chunk))
            }
        },
        _ => {
            if total > chunk {
                Err(SyscallErr::EMSGSIZE)
            } else {
                Ok(SendShape::Single(total))
            }
        },
    }
}

/// Whether a `sendmsg` gives its socket a port first, and what it hands to the
/// socket; see [`sendmsg_step`].
pub fn sys_sendmsg(
    f: &SenderFacts,
    flags: u32,
    msg: Option<MsgHdr>,
    iov: Result<usize, SyscallErr>,
    name: Option<Vec<u8>>,
    chunk: usize,
) -> (r: MessageStep)
    ensures
        message_step_model(r) == sendmsg_step(
            *f,
            flags,
            msg,
            iov,
            common::opt_bytes(name),
            chunk,
        ),
{
    let msg_flags = MsgFlags::from_bits_truncate(flags);
    let dontwait = match msg_flags.validate_for_send() {
        Ok(d) => d,
        Err(e) => return MessageStep { auto_bind: false, plan: Err(e) },
    };
    let nonblock = f.nonblock || dontwait;
    let header = match msg {
        Some(m) => m,
        None => return MessageStep { auto_bind: false, plan: Err(SyscallErr::EFAULT) },
    };
    let total: usize = match iov {
        Ok(t) => t,
        Err(e) => return MessageStep { auto_bind: false, plan: Err(e) },
    };
    let dest = resolve_dest(&header, name);
    let auto_bind = total > 0 && f.needs_port();
    if total > 0 && matches!(f.socket_type, PSOCK::Datagram) && dest.is_none() && !f.connected {
        return MessageStep { auto_bind, plan: Err(SyscallErr::EDESTADDRREQ) };
    }
    let shape = match choose_shape(f.socket_type, total, chunk) {
        Ok(s) => s,
        Err(e) => return MessageStep { auto_bind, plan: Err(e) },
    };
    let reserve: usize = match shape {
        SendShape::Empty => 0,
        SendShape::Chunked(cap) => if nonblock {
            0
        } else {
            cap
        },
        SendShape::Single(len) => len,
    };
    MessageStep {
        auto_bind,
        plan: Ok(MessagePlan { flags: msg_flags, dest, nonblock, shape, reserve }),
    }
}

/// What follows when the kernel's buffer was asked for.
pub fn after_reserve(reserved: bool) -> (r: Result<(), SyscallErr>)
    ensures
        r == if reserved {
            Ok::<(), SyscallErr>(())
        } else {
            Err(SyscallErr::ENOBUFS)
        },
{
    if reserved {
        Ok(())
    } else {
        Err(SyscallErr::ENOBUFS)
    }
}

/// How far a stream has got with the data of a message.
#[derive(Clone, Copy, Debug, PartialEq, Eq, Structural)]
pub struct ChunkedSend {
    pub total: usize,
    pub cap: usize,
    pub done: usize,
}

/// What comes next.
#[derive(Clone, Copy, Debug, PartialEq, Eq, Structural)]
pub enum ChunkStep {
    /// So many bytes, from where the call has got to, are handed to the socket.
    Send(usize),
    /// The call looks at the next piece.
    Next,
    Return(isize),
}

impl ChunkedSend {
    pub open spec fn wf(self) -> bool {
        0 < self.cap && self.done <= self.total <= isize::MAX
    }

    /// How much the next piece would hold.
    pub open spec fn next_want(self) -> int {
        if self.total - self.done < self.cap {
            self.total - self.done
        } else {
            self.cap as int
        }
    }

    /// What the call returns where the socket took no more, for that reason:
    /// what went through counts first.
    pub open spec fn stopped(self, reason: isize) -> isize {
        if self.done > 0 {
            self.done as isize
        } else {
            reason
        }
    }

    /// What follows when so many bytes of the next piece can be read.
    pub open spec fn ready(self, accessible: usize) -> ChunkStep {
        if self.done >= self.total {
            ChunkStep::Return(self.done as isize)
        } else if accessible == 0 {
            ChunkStep::Return(self.stopped(SyscallErr::EFAULT.spec_ret() as isize))
        } else {
            ChunkStep::Send(accessible)
        }
    }

    /// What follows when the socket took `result` bytes of those that could be
    /// read, or failed.
    pub open spec fn sent(self, accessible: usize, result: isize, signal: bool) -> (
        ChunkedSend,
        ChunkStep,
    ) {
        if result <= 0 {
            (self, ChunkStep::Return(self.stopped(result)))
        } else {
            let after = ChunkedSend { done: (self.done + result) as usize, ..self };
            (
                after,
                if result < accessible || accessible < self.next_want() || signal || after.done
                    >= self.total {
                    ChunkStep::Return(after.done as isize)
                } else {
                    ChunkStep::Next
                },
            )
        }
    }

    /// The start of a call that sends `total` bytes in pieces.
    pub fn new(total: usize, cap: usize) -> (r: ChunkedSend)
        requires
            0 < cap,
            total <= isize::MAX,
        ensures
            r == (ChunkedSend { total, cap, done: 0 }),
            r.wf(),
    {
        ChunkedSend { total, cap, done: 0 }
    }

    /// How much the next piece would hold.
    pub fn want(&self) -> (r: usize)
        requires
            self.wf(),
        ensures
            r == self.next_want(),
    {
        if self.total - self.done < self.cap {
            self.total - self.done
        } else {
            self.cap
        }
    }

    fn stop(&self, reason: isize) -> (r: isize)
        requires
            self.wf(),
        ensures
            r == self.stopped(reason),
    {
        if self.done > 0 {
            self.done as isize
        } else {
            reason
        }
    }

    /// What follows when so many bytes of the next piece can be read.
    pub fn chunk_ready(&self, accessible: usize) -> (r: ChunkStep)
        requires
            self.wf(),
        ensures
            r == self.ready(accessible),
    {
        if self.done >= self.total {
            ChunkStep::Return(self.done as isize)
        } else if accessible == 0 {
            ChunkStep::Return(self.stop(SyscallErr::EFAULT.ret()))
        } else {
            ChunkStep::Send(accessible)
        }
    }

    /// What follows when the socket took `result` bytes of those that could be
    /// read, or failed with a negative result; `signal` says whether a signal
    /// waits for the program.
    pub fn chunk_sent(&mut self, accessible: usize, result: isize, signal: bool) -> (r: ChunkStep)
        requires
            old(self).wf(),
            accessible <= old(self).next_want(),
            result <= accessible,
        ensures
            (*final(self), r) == old(self).sent(accessible, result, signal),
            final(self).wf(),
    {
        if result <= 0 {
            return ChunkStep::Return(self.stop(result));
        }
        let want: usize = self.want();
        self.done = self.done + result as usize;
        if (result as usize) < accessible || accessible < want || signal || self.done
            >= self.total {
            ChunkStep::Return(self.done as isize)
        } else {
            ChunkStep::Next
        }
    }
}

/// One round of a stream's sending: what could be read, what the socket
/// answered and whether a signal came.
pub struct ChunkRound {
    pub accessible: usize,
    pub result: isize,
    pub signal: bool,
}

/// The state and the answer after some rounds, if the call has ended by then.
pub open spec fn chunk_run(s: ChunkedSend, rounds: Seq<ChunkRound>) -> (ChunkedSend, Option<isize>)
    decreases rounds.len(),
{
    if rounds.len() == 0 {
        (s, None)
    } else {
        let r = rounds[0];
        match s.ready(r.accessible) {
            ChunkStep::Return(v) => (s, Some(v)),
            _ => {
                let (after, step) = s.sent(r.accessible, r.result, r.signal);
                match step {
                    ChunkStep::Return(v) => (after, Some(v)),
                    _ => chunk_run(after, rounds.skip(1)),
                }
            },
        }
    }
}

/// Whether those rounds can happen: no more is read than the piece holds, and
/// the socket takes no more than it was given.
pub open spec fn chunk_possible(s: ChunkedSend, rounds: Seq<ChunkRound>) -> bool
    decreases rounds.len(),
{
    rounds.len() > 0 ==> {
        &&& rounds[0].accessible <= s.next_want()
        &&& rounds[0].result <= rounds[0].accessible
        &&& s.sent(rounds[0].accessible, rounds[0].result, rounds[0].signal).1 is Next
            ==> chunk_possible(
            s.sent(rounds[0].accessible, rounds[0].result, rounds[0].signal).0,
            rounds.skip(1),
        )
    }
}

/// A call that sends on a stream says what the socket took, no less and no
/// more: once something went through it returns exactly that, whatever
/// happened next.
pub proof fn law_stream_send_counts_what_was_taken(s: ChunkedSend, rounds: Seq<ChunkRound>)
    requires
        s.wf(),
        chunk_possible(s, rounds),
    ensures
        ({
            let (end, answer) = chunk_run(s, rounds);
            &&& s.done <= end.done <= s.total
            &&& answer is Some && end.done > 0 ==> answer->0 == end.done
            &&& answer is Some && end.done == 0 ==> answer->0 <= 0
        }),
    decreases rounds.len(),
{
    assert(SyscallErr::EFAULT.spec_ret() == -14);
    if rounds.len() > 0 {
        let r = rounds[0];
        let (after, step) = s.sent(r.accessible, r.result, r.signal);
        if s.ready(r.accessible) is Send && step is Next {
            law_stream_send_counts_what_was_taken(after, rounds.skip(1));
        }
    }
}

} // verus!
