//! What a bound IP socket is bound to.
use vstd::prelude::*;
use crate::iface::NetDeviceEntry;
use crate::net_core;
use crate::net_core::NetNamespace;
use crate::seqs;
use crate::wire::IpAddress;

verus! {

/// The stack's socket, the interface, the address and the port of a socket.
#[derive(Clone, Copy, Debug, PartialEq, Eq, Structural)]
pub struct BoundInner {
    pub socket_handle: Option<usize>,
    pub ifindex: u32,
    pub bound_addr: Option<IpAddress>,
    pub bound_port: u16,
}

impl BoundInner {
    pub fn new() -> (r: BoundInner)
        ensures
            r == (BoundInner { socket_handle: None, ifindex: 0, bound_addr: None, bound_port: 0 }),
    {
        BoundInner { socket_handle: None, ifindex: 0, bound_addr: None, bound_port: 0 }
    }

    pub fn with_iface(ifindex: u32) -> (r: BoundInner)
        ensures
            r == (BoundInner { socket_handle: None, ifindex, bound_addr: None, bound_port: 0 }),
    {
        BoundInner { socket_handle: None, ifindex, bound_addr: None, bound_port: 0 }
    }

    pub fn bind(&mut self, handle: usize, ifindex: u32, addr: Option<IpAddress>, port: u16)
        ensures
            *final(self) == (BoundInner {
                socket_handle: Some(handle),
                ifindex,
                bound_addr: addr,
                bound_port: port,
            }),
    {
        self.socket_handle = Some(handle);
        self.ifindex = ifindex;
        self.bound_addr = addr;
        self.bound_port = port;
    }

    /// The interface that the socket is bound to.
    pub fn bound_iface<'a>(&self, ns: &'a NetNamespace) -> (r: Option<&'a NetDeviceEntry>)
        ensures
            match r {
                Some(d) => seqs::find_first(ns.devs(), net_core::indexed(self.ifindex)) == Some(d@),
                None => seqs::find_first(ns.devs(), net_core::indexed(self.ifindex)) is None,
            },
    {
        ns.device_by_index(self.ifindex)
    }

    pub fn is_bound(&self) -> (r: bool)
        ensures
            r == (self.socket_handle is Some),
    {
        self.socket_handle.is_some()
    }
}

} // verus!
