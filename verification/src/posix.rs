//! Structures of the socket system calls.
use vstd::prelude::*;

verus! {

/// The type bits of the `type` argument of `socket`.
pub const SOCK_TYPE_BITS: u32 = 0xF;

pub const SOCK_NONBLOCK: u32 = 0x800;

pub const SOCK_CLOEXEC: u32 = 0x80000;

/// Every bit that the `type` argument can carry.
pub const SOCK_KNOWN_BITS: u32 = 0x8080F;

/// The `type` argument of `socket`: a type in the low four bits, beside the
/// flags `SOCK_NONBLOCK` and `SOCK_CLOEXEC`.
#[derive(Debug, Clone, Copy, PartialEq, Eq, Structural)]
pub struct PosixArgsSocketType {
    pub bits: u32,
}

impl PosixArgsSocketType {
    /// The argument without the bits that mean nothing.
    pub fn from_bits_truncate(bits: u32) -> (r: PosixArgsSocketType)
        ensures
            r.bits == bits & SOCK_KNOWN_BITS,
    {
        PosixArgsSocketType { bits: bits & SOCK_KNOWN_BITS }
    }

    pub fn bits(&self) -> (r: u32)
        ensures
            r == self.bits,
    {
        self.bits
    }

    /// The type alone, without the flags.
    pub fn types(&self) -> (r: PosixArgsSocketType)
        ensures
            r.bits == self.bits & SOCK_TYPE_BITS,
            r.bits == self.bits % 16,
    {
        let b: u32 = self.bits;
        assert(b & 0xF == b % 16) by (bit_vector);
        PosixArgsSocketType { bits: b & SOCK_TYPE_BITS }
    }

    pub fn is_nonblock(&self) -> (r: bool)
        ensures
            r == (self.bits & SOCK_NONBLOCK == SOCK_NONBLOCK),
    {
        self.bits & SOCK_NONBLOCK == SOCK_NONBLOCK
    }

    pub fn is_cloexec(&self) -> (r: bool)
        ensures
            r == (self.bits & SOCK_CLOEXEC == SOCK_CLOEXEC),
    {
        self.bits & SOCK_CLOEXEC == SOCK_CLOEXEC
    }
}

/// Dropping unknown bits changes neither the type nor the flags.
pub proof fn law_truncate_keeps_type_and_flags(bits: u32)
    ensures
        (bits & SOCK_KNOWN_BITS) & SOCK_TYPE_BITS == bits & SOCK_TYPE_BITS,
        (bits & SOCK_KNOWN_BITS) & SOCK_NONBLOCK == bits & SOCK_NONBLOCK,
        (bits & SOCK_KNOWN_BITS) & SOCK_CLOEXEC == bits & SOCK_CLOEXEC,
{
    assert((bits & 0x8080F) & 0xF == bits & 0xF) by (bit_vector);
    assert((bits & 0x8080F) & 0x800 == bits & 0x800) by (bit_vector);
    assert((bits & 0x8080F) & 0x80000 == bits & 0x80000) by (bit_vector);
}

/// Linux `struct msghdr` on 64-bit machines; pointers are user addresses.
#[derive(Debug, Clone, Copy, PartialEq, Eq, Structural)]
pub struct MsgHdr {
    pub msg_name: usize,
    pub msg_namelen: u32,
    pub _pad0: u32,
    pub msg_iov: usize,
    pub msg_iovlen: usize,
    pub msg_control: usize,
    pub msg_controllen: usize,
    pub msg_flags: i32,
    pub _pad1: i32,
}

/// Linux `struct mmsghdr`, used by batched message system calls.
#[derive(Debug, Clone, Copy, PartialEq, Eq, Structural)]
pub struct MMsgHdr {
    pub msg_hdr: MsgHdr,
    pub msg_len: u32,
    pub _pad: u32,
}

/// The size of a [`MMsgHdr`] in user memory.
pub const MMSGHDR_SIZE: usize = 64;

/// Where `msg_len` stands in a [`MMsgHdr`].
pub const MMSGHDR_LEN_OFFSET: usize = 56;

} // verus!
