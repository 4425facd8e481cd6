//! Sending and receiving on a TCP socket.
use vstd::prelude::*;
use crate::error::SyscallErr;
use crate::socket::inet::stream::inner;
use crate::socket::inet::stream::inner::{Inner, InnerModel, TcpStatus};

verus! {

pub open spec fn as_isize(r: Result<usize, SyscallErr>) -> Result<isize, SyscallErr> {
    match r {
        Ok(n) => Ok(n as isize),
        Err(e) => Err(e),
    }
}

/// What a send does. `status` is the stack's word on the connection, and
/// `taken` how many bytes it took, where there is a connection with room.
pub open spec fn stream_sent(
    m: InnerModel,
    data: Seq<u8>,
    status: Option<TcpStatus>,
    taken: Option<usize>,
) -> (InnerModel, Result<isize, SyscallErr>) {
    match m {
        InnerModel::Init(_) | InnerModel::Closed(_) => (m, Err(SyscallErr::EPIPE)),
        InnerModel::Connecting(_) => (m, Err(SyscallErr::EAGAIN)),
        InnerModel::Listening(_) => (m, Err(SyscallErr::EINVAL)),
        InnerModel::Established(_) => (m, as_isize(inner::send_answer(status, taken))),
        InnerModel::SelfConnected(s) => {
            let (next, n) = inner::self_sent(s, data);
            (InnerModel::SelfConnected(next), as_isize(n))
        },
    }
}

/// What a receive on a connection answers. `got` is how many bytes the stack
/// gave, where some waited.
pub open spec fn recv_answer(status: Option<TcpStatus>, got: Option<usize>) -> Result<
    isize,
    SyscallErr,
> {
    match status {
        None => Err(SyscallErr::EAGAIN),
        Some(s) => if s.can_recv {
            match got {
                Some(n) => Ok(n as isize),
                None => Err(SyscallErr::ENOTCONN),
            }
        } else if s.state.spec_peer_finished() {
            Ok(0)
        } else if s.state is Closed {
            Err(SyscallErr::ECONNRESET)
        } else if !s.may_recv {
            Ok(0)
        } else {
            Err(SyscallErr::EAGAIN)
        },
    }
}

/// What a receive into a buffer of `room` bytes does: the bytes that come out
/// of the socket itself, the socket after, the answer. The bytes of a
/// connection come from the stack, which says in `got` how many it gave.
pub open spec fn stream_received(
    m: InnerModel,
    room: int,
    peek: bool,
    status: Option<TcpStatus>,
    got: Option<usize>,
) -> (Seq<u8>, InnerModel, Result<isize, SyscallErr>) {
    match m {
        InnerModel::Init(_) | InnerModel::Listening(_) => (
            Seq::empty(),
            m,
            Err(SyscallErr::EINVAL),
        ),
        InnerModel::Connecting(_) => (Seq::empty(), m, Err(SyscallErr::EAGAIN)),
        InnerModel::Established(_) => (Seq::empty(), m, recv_answer(status, got)),
        InnerModel::SelfConnected(s) => {
            let (data, next, n) = inner::self_received(s, room, peek);
            (data, InnerModel::SelfConnected(next), as_isize(n))
        },
        InnerModel::Closed(_) => (Seq::empty(), m, Ok(0)),
    }
}

/// Answers a receive on a connection.
pub fn answer_recv(status: Option<TcpStatus>, got: Option<usize>) -> (r: Result<isize, SyscallErr>)
    requires
        got matches Some(n) ==> n <= isize::MAX,
    ensures
        r == recv_answer(status, got),
{
    let s = match status {
        Some(s) => s,
        None => return Err(SyscallErr::EAGAIN),
    };
    if s.can_recv {
        return match got {
            Some(n) => Ok(n as isize),
            None => Err(SyscallErr::ENOTCONN),
        };
    }
    if s.state.peer_finished() {
        return Ok(0);
    }
    if matches!(s.state, inner::TcpState::Closed) {
        return Err(SyscallErr::ECONNRESET);
    }
    if !s.may_recv {
        Ok(0)
    } else {
        Err(SyscallErr::EAGAIN)
    }
}

/// The answer of a system call that moves bytes.
pub fn answer_of(r: Result<usize, SyscallErr>) -> (a: Result<isize, SyscallErr>)
    requires
        r matches Ok(n) ==> n <= isize::MAX,
    ensures
        a == as_isize(r),
{
    match r {
        Ok(n) => Ok(n as isize),
        Err(e) => Err(e),
    }
}

impl Inner {
    /// Sends without waiting.
    pub fn try_send(&mut self, buf: &[u8], status: Option<TcpStatus>, taken: Option<usize>) -> (r:
        Result<isize, SyscallErr>)
        requires
            buf@.len() <= isize::MAX,
            taken matches Some(n) ==> n <= isize::MAX,
        ensures
            (final(self)@, r) == stream_sent(old(self)@, buf@, status, taken),
    {
        match self {
            Inner::Init(_) | Inner::Closed(_) => Err(SyscallErr::EPIPE),
            Inner::Connecting(_) => Err(SyscallErr::EAGAIN),
            Inner::Listening(_) => Err(SyscallErr::EINVAL),
            Inner::Established(e) => answer_of(e.send_slice(status, taken)),
            Inner::SelfConnected(sc) => answer_of(sc.send_slice(buf)),
        }
    }

    /// Receives without waiting. The bytes of a connection stand in the
    /// buffer already.
    pub fn try_recv(&mut self, buf: &mut [u8], status: Option<TcpStatus>, got: Option<usize>) -> (r:
        Result<isize, SyscallErr>)
        requires
            old(buf)@.len() <= isize::MAX,
            got matches Some(n) ==> n <= isize::MAX,
        ensures
            ({
                let (data, m, answer) = stream_received(
                    old(self)@,
                    old(buf)@.len() as int,
                    false,
                    status,
                    got,
                );
                &&& final(self)@ == m
                &&& r == answer
                &&& final(buf)@ == data + old(buf)@.skip(data.len() as int)
            }),
    {
        assert(Seq::<u8>::empty() + buf@.skip(0) =~= buf@);
        match self {
            Inner::Init(_) | Inner::Listening(_) => Err(SyscallErr::EINVAL),
            Inner::Connecting(_) => Err(SyscallErr::EAGAIN),
            Inner::Established(_) => answer_recv(status, got),
            Inner::SelfConnected(sc) => match sc.recv_into(buf, false) {
                Ok(n) => Ok(n as isize),
                Err(e) => Err(e),
            },
            Inner::Closed(_) => Ok(0),
        }
    }

    /// Receives without taking away. The bytes of a connection stand in the
    /// buffer already, and the stack still has them too.
    pub fn try_recv_peek(&mut self, buf: &mut [u8], status: Option<TcpStatus>, got: Option<usize>) -> (r:
        Result<isize, SyscallErr>)
        requires
            old(buf)@.len() <= isize::MAX,
            got matches Some(n) ==> n <= isize::MAX,
        ensures
            ({
                let (data, m, answer) = stream_received(
                    old(self)@,
                    old(buf)@.len() as int,
                    true,
                    status,
                    got,
                );
                &&& final(self)@ == m
                &&& r == answer
                &&& final(buf)@ == data + old(buf)@.skip(data.len() as int)
            }),
    {
        match self {
            Inner::SelfConnected(sc) => match sc.recv_into(buf, true) {
                Ok(n) => Ok(n as isize),
                Err(e) => Err(e),
            },
            _ => self.try_recv(buf, status, got),
        }
    }
}

} // verus!
