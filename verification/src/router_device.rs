//! Devices that pass packets on.
use vstd::prelude::*;
use crate::iface::NetDeviceEntry;
use crate::wire::{IpAddress, Ipv4Address};

verus! {

/// Why a packet could not be passed on.
#[derive(Clone, Copy, Debug, PartialEq, Eq, Structural)]
pub enum NetError {
    NoRoute,
    TtlExceeded,
    SendFailed,
    ParseError,
}

/// Whether an address is one of the device's own.
pub fn is_my_ip(device: &NetDeviceEntry, addr: Ipv4Address) -> (r: bool)
    ensures
        r == device@.owns(IpAddress::Ipv4(addr)),
{
    device.owns(IpAddress::Ipv4(addr))
}

} // verus!
