//! `shutdown`.
use vstd::prelude::*;
use crate::error::SyscallErr;

verus! {

/// What `shutdown` returns for what the socket answered.
pub fn sys_sock_shutdown(answer: Result<(), SyscallErr>) -> (r: isize)
    ensures
        r == match answer {
            Ok(_) => 0,
            Err(e) => e.spec_ret(),
        },
{
    match answer {
        Ok(_) => 0,
        Err(e) => e.ret(),
    }
}

} // verus!
