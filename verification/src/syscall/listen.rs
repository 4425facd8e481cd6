//! `listen`.
use vstd::prelude::*;
use crate::error::SyscallErr;
use crate::socket::inet::stream::inner::BACKLOG_SIZE;

verus! {

/// How many connections a socket is to keep waiting. `bound` says whether the
/// socket has an address, or could be given one.
pub fn sys_listen(bound: Result<(), SyscallErr>, backlog: u32) -> (r: Result<u32, SyscallErr>)
    ensures
        r == match bound {
            Err(e) => Err(e),
            Ok(_) => Ok::<u32, SyscallErr>(
                if backlog < BACKLOG_SIZE {
                    backlog
                } else {
                    BACKLOG_SIZE
                },
            ),
        },
{
    match bound {
        Err(e) => Err(e),
        Ok(_) => {
            if backlog < BACKLOG_SIZE {
                Ok(backlog)
            } else {
                Ok(BACKLOG_SIZE)
            }
        },
    }
}

} // verus!
