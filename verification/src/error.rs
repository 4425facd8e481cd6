//! Error numbers returned by the socket layer.
use vstd::prelude::*;

verus! {

/// The error numbers that the network subsystem reports.
#[derive(Clone, Copy, Debug, PartialEq, Eq, Structural)]
pub enum SyscallErr {
    ESRCH,
    EIO,
    ENXIO,
    EAGAIN,
    ENOMEM,
    EACCES,
    EFAULT,
    EBUSY,
    EEXIST,
    ENODEV,
    ENOTDIR,
    EINVAL,
    ENFILE,
    EMFILE,
    ENOTTY,
    ENOSPC,
    EPIPE,
    EDESTADDRREQ,
    EMSGSIZE,
    ENOPROTOOPT,
    EPROTONOSUPPORT,
    ESOCKTNOSUPPORT,
    EOPNOTSUPP,
    EAFNOSUPPORT,
    EADDRINUSE,
    EADDRNOTAVAIL,
    ENETDOWN,
    ENETUNREACH,
    ECONNABORTED,
    ECONNRESET,
    ENOBUFS,
    EISCONN,
    ENOTCONN,
    ECONNREFUSED,
    EINPROGRESS,
    ERESTART,
}

impl SyscallErr {
    /// The Linux number of the error.
    pub open spec fn spec_errno(self) -> int {
        match self {
            SyscallErr::ESRCH => 3,
            SyscallErr::EIO => 5,
            SyscallErr::ENXIO => 6,
            SyscallErr::EAGAIN => 11,
            SyscallErr::ENOMEM => 12,
            SyscallErr::EACCES => 13,
            SyscallErr::EFAULT => 14,
            SyscallErr::EBUSY => 16,
            SyscallErr::EEXIST => 17,
            SyscallErr::ENODEV => 19,
            SyscallErr::ENOTDIR => 20,
            SyscallErr::EINVAL => 22,
            SyscallErr::ENFILE => 23,
            SyscallErr::EMFILE => 24,
            SyscallErr::ENOTTY => 25,
            SyscallErr::ENOSPC => 28,
            SyscallErr::EPIPE => 32,
            SyscallErr::ERESTART => 85,
            SyscallErr::EDESTADDRREQ => 89,
            SyscallErr::EMSGSIZE => 90,
            SyscallErr::ENOPROTOOPT => 92,
            SyscallErr::EPROTONOSUPPORT => 93,
            SyscallErr::ESOCKTNOSUPPORT => 94,
            SyscallErr::EOPNOTSUPP => 95,
            SyscallErr::EAFNOSUPPORT => 97,
            SyscallErr::EADDRINUSE => 98,
            SyscallErr::EADDRNOTAVAIL => 99,
            SyscallErr::ENETDOWN => 100,
            SyscallErr::ENETUNREACH => 101,
            SyscallErr::ECONNABORTED => 103,
            SyscallErr::ECONNRESET => 104,
            SyscallErr::ENOBUFS => 105,
            SyscallErr::EISCONN => 106,
            SyscallErr::ENOTCONN => 107,
            SyscallErr::ECONNREFUSED => 111,
            SyscallErr::EINPROGRESS => 115,
        }
    }

    /// The Linux number of the error.
    pub fn errno(self) -> (r: i32)
        ensures
            r == self.spec_errno(),
            0 < r < 4096,
    {
        match self {
            SyscallErr::ESRCH => 3,
            SyscallErr::EIO => 5,
            SyscallErr::ENXIO => 6,
            SyscallErr::EAGAIN => 11,
            SyscallErr::ENOMEM => 12,
            SyscallErr::EACCES => 13,
            SyscallErr::EFAULT => 14,
            SyscallErr::EBUSY => 16,
            SyscallErr::EEXIST => 17,
            SyscallErr::ENODEV => 19,
            SyscallErr::ENOTDIR => 20,
            SyscallErr::EINVAL => 22,
            SyscallErr::ENFILE => 23,
            SyscallErr::EMFILE => 24,
            SyscallErr::ENOTTY => 25,
            SyscallErr::ENOSPC => 28,
            SyscallErr::EPIPE => 32,
            SyscallErr::ERESTART => 85,
            SyscallErr::EDESTADDRREQ => 89,
            SyscallErr::EMSGSIZE => 90,
            SyscallErr::ENOPROTOOPT => 92,
            SyscallErr::EPROTONOSUPPORT => 93,
            SyscallErr::ESOCKTNOSUPPORT => 94,
            SyscallErr::EOPNOTSUPP => 95,
            SyscallErr::EAFNOSUPPORT => 97,
            SyscallErr::EADDRINUSE => 98,
            SyscallErr::EADDRNOTAVAIL => 99,
            SyscallErr::ENETDOWN => 100,
            SyscallErr::ENETUNREACH => 101,
            SyscallErr::ECONNABORTED => 103,
            SyscallErr::ECONNRESET => 104,
            SyscallErr::ENOBUFS => 105,
            SyscallErr::EISCONN => 106,
            SyscallErr::ENOTCONN => 107,
            SyscallErr::ECONNREFUSED => 111,
            SyscallErr::EINPROGRESS => 115,
        }
    }

    /// The value that a system call returns for the error: its number, negated.
    pub open spec fn spec_ret(self) -> int {
        -self.spec_errno()
    }

    /// The value that a system call returns for the error: its number, negated.
    pub fn ret(self) -> (r: isize)
        ensures
            r == self.spec_ret(),
            -4096 < r < 0,
    {
        let e: i32 = self.errno();
        -(e as isize)
    }
}

} // verus!
