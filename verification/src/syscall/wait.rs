//! How a system call that may have to wait goes on.
use vstd::prelude::*;
use crate::error::SyscallErr;

verus! {

/// What a system call does after an attempt.
#[derive(Clone, Copy, Debug, PartialEq, Eq, Structural)]
pub enum CallStep {
    Return(isize),
    /// It waits for an event and tries again.
    Wait,
}

/// Why a wait ended without the event.
#[derive(Clone, Copy, Debug, PartialEq, Eq, Structural)]
pub enum WaitEnd {
    Interrupted,
    TimedOut,
}

/// The value that a system call returns.
pub open spec fn returned(r: Result<isize, SyscallErr>) -> isize {
    match r {
        Ok(n) => n,
        Err(e) => e.spec_ret() as isize,
    }
}

pub fn return_value(r: Result<isize, SyscallErr>) -> (v: isize)
    ensures
        v == returned(r),
{
    match r {
        Ok(n) => n,
        Err(e) => e.ret(),
    }
}

/// What follows an attempt: only a call that may wait does so, and only where
/// trying again can help.
pub open spec fn tried(r: Result<isize, SyscallErr>, nonblock: bool) -> CallStep {
    if r == Err::<isize, SyscallErr>(SyscallErr::EAGAIN) && !nonblock {
        CallStep::Wait
    } else {
        CallStep::Return(returned(r))
    }
}

pub fn after_try(r: Result<isize, SyscallErr>, nonblock: bool) -> (s: CallStep)
    ensures
        s == tried(r, nonblock),
{
    match r {
        Ok(n) => CallStep::Return(n),
        Err(e) => {
            if e == SyscallErr::EAGAIN && !nonblock {
                CallStep::Wait
            } else {
                CallStep::Return(e.ret())
            }
        },
    }
}

/// What a call returns when its wait ended without the event: it is started
/// again after a signal.
pub open spec fn wait_ended(end: WaitEnd) -> isize {
    match end {
        WaitEnd::Interrupted => SyscallErr::ERESTART.spec_ret() as isize,
        WaitEnd::TimedOut => SyscallErr::EAGAIN.spec_ret() as isize,
    }
}

pub fn after_wait(end: WaitEnd) -> (v: isize)
    ensures
        v == wait_ended(end),
{
    match end {
        WaitEnd::Interrupted => SyscallErr::ERESTART.ret(),
        WaitEnd::TimedOut => SyscallErr::EAGAIN.ret(),
    }
}

} // verus!
