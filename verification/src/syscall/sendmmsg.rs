//! `sendmmsg`.
use vstd::prelude::*;
use crate::error::SyscallErr;
use crate::posix::{MMSGHDR_LEN_OFFSET, MMSGHDR_SIZE};

verus! {

/// The most messages that one call sends.
pub const UIO_MAXIOV: u32 = 1024;

/// What a call that sends several messages does next.
#[derive(Clone, Copy, Debug, PartialEq, Eq, Structural)]
pub enum BatchStep {
    /// It sends the message whose header lies there.
    Send(usize),
    /// It writes there how much of the message was sent.
    Write(usize, u32),
    Return(isize),
}

/// What a call returns for an error: a number of messages that were sent
/// counts first.
pub open spec fn short_batch(sent: u32, error: isize) -> isize {
    if sent > 0 {
        sent as isize
    } else {
        error
    }
}

/// What a call returns for an error.
pub fn batch_error(sent: u32, error: SyscallErr) -> (r: isize)
    requires
        sent <= UIO_MAXIOV,
    ensures
        r == short_batch(sent, error.spec_ret() as isize),
{
    if sent > 0 {
        sent as isize
    } else {
        error.ret()
    }
}

/// What follows when `sent` messages of a vector have been sent: the next one,
/// as long as there is one and its address is one.
pub open spec fn batch_next(msgvec: usize, vlen: u32, sent: u32) -> BatchStep {
    if sent >= vlen {
        BatchStep::Return(sent as isize)
    } else if msgvec + sent * MMSGHDR_SIZE > usize::MAX {
        BatchStep::Return(short_batch(sent, SyscallErr::EFAULT.spec_ret() as isize))
    } else {
        BatchStep::Send((msgvec + sent * MMSGHDR_SIZE) as usize)
    }
}

/// What follows when `sent` messages of a vector have been sent.
pub fn next_message(msgvec: usize, vlen: u32, sent: u32) -> (r: BatchStep)
    requires
        vlen <= UIO_MAXIOV,
        sent <= vlen,
    ensures
        r == batch_next(msgvec, vlen, sent),
{
    if sent >= vlen {
        return BatchStep::Return(sent as isize);
    }
    let offset: usize = sent as usize * MMSGHDR_SIZE;
    match msgvec.checked_add(offset) {
        Some(entry) => BatchStep::Send(entry),
        None => BatchStep::Return(batch_error(sent, SyscallErr::EFAULT)),
    }
}

/// How a call that is to send `vlen` messages starts.
pub open spec fn batch_start(msgvec: usize, vlen: u32) -> BatchStep {
    if vlen == 0 {
        BatchStep::Return(0)
    } else if vlen > UIO_MAXIOV {
        BatchStep::Return(SyscallErr::EINVAL.spec_ret() as isize)
    } else {
        batch_next(msgvec, vlen, 0)
    }
}

/// How a call that is to send `vlen` messages starts.
pub fn sys_sendmmsg(msgvec: usize, vlen: u32) -> (r: BatchStep)
    ensures
        r == batch_start(msgvec, vlen),
{
    if vlen == 0 {
        return BatchStep::Return(0);
    }
    if vlen > UIO_MAXIOV {
        return BatchStep::Return(SyscallErr::EINVAL.ret());
    }
    next_message(msgvec, vlen, 0)
}

/// What follows when the message at `entry` was sent, or was not.
pub open spec fn batch_sent(entry: usize, sent: u32, result: isize) -> BatchStep {
    if result < 0 {
        BatchStep::Return(short_batch(sent, result))
    } else if entry + MMSGHDR_LEN_OFFSET > usize::MAX {
        BatchStep::Return(short_batch(sent, SyscallErr::EFAULT.spec_ret() as isize))
    } else {
        BatchStep::Write((entry + MMSGHDR_LEN_OFFSET) as usize, result as u32)
    }
}

/// What follows when the message at `entry` was sent, or was not.
pub fn message_sent(entry: usize, sent: u32, result: isize) -> (r: BatchStep)
    requires
        sent <= UIO_MAXIOV,
    ensures
        r == batch_sent(entry, sent, result),
{
    if result < 0 {
        return if sent > 0 {
            BatchStep::Return(sent as isize)
        } else {
            BatchStep::Return(result)
        };
    }
    match entry.checked_add(MMSGHDR_LEN_OFFSET) {
        Some(place) => BatchStep::Write(place, result as u32),
        None => BatchStep::Return(batch_error(sent, SyscallErr::EFAULT)),
    }
}

/// What follows when the length was written, or could not be: `sent` messages
/// were sent before this one.
pub open spec fn batch_written(msgvec: usize, vlen: u32, sent: u32, written: bool) -> BatchStep {
    if written {
        batch_next(msgvec, vlen, (sent + 1) as u32)
    } else {
        BatchStep::Return(short_batch(sent, SyscallErr::EFAULT.spec_ret() as isize))
    }
}

/// What follows when the length was written, or could not be.
pub fn length_written(msgvec: usize, vlen: u32, sent: u32, written: bool) -> (r: BatchStep)
    requires
        vlen <= UIO_MAXIOV,
        sent < vlen,
    ensures
        r == batch_written(msgvec, vlen, sent, written),
{
    if written {
        next_message(msgvec, vlen, sent + 1)
    } else {
        BatchStep::Return(batch_error(sent, SyscallErr::EFAULT))
    }
}

/// Once a message was sent, no error hides it: the call returns how many were
/// sent, whatever stops it.
pub proof fn law_short_batch_is_reported(msgvec: usize, vlen: u32, sent: u32, entry: usize, result: isize)
    requires
        0 < sent < vlen <= UIO_MAXIOV,
    ensures
        batch_next(msgvec, vlen, sent) matches BatchStep::Return(v) ==> v == sent,
        batch_sent(entry, sent, result) matches BatchStep::Return(v) ==> v == sent,
        batch_written(msgvec, vlen, sent, false) == BatchStep::Return(sent as isize),
{
}

} // verus!
