//! The protocol stacks of the interfaces and the sockets on them.
pub mod dhcp;
pub mod directory;
pub mod interface;
pub mod poll;
pub mod removal;

use vstd::prelude::*;
use crate::error::SyscallErr;
use crate::iface::DeviceModel;
use crate::net_core::{NetGlobals, NetNamespace};
use crate::routing;
use crate::routing::RouteEntry;
use crate::wire::IpAddress;

verus! {

/// The source address of packets to `dest`, all zeros without a route.
pub open spec fn source_ip(devs: Seq<DeviceModel>, entries: Seq<RouteEntry>, dest: IpAddress) -> IpAddress {
    match routing::spec_route_output(devs, entries, dest) {
        Ok(d) => d.source,
        Err(_) => IpAddress::spec_unspecified(dest.spec_version()),
    }
}

/// Chooses the source address of packets to a destination.
pub fn lookup_source_ip(ns: &mut NetNamespace, globals: &NetGlobals, dest_ip: IpAddress) -> (r:
    IpAddress)
    requires
        old(ns).wf(),
        globals.wf(),
    ensures
        final(ns).wf(),
        final(ns).devices == old(ns).devices,
        final(ns).router.table.entries@ == routing::filled(*old(ns), *globals),
        r == source_ip(old(ns).devs(), routing::filled(*old(ns), *globals), dest_ip),
{
    match routing::route_output(ns, globals, dest_ip) {
        Ok(d) => d.source,
        Err(_) => IpAddress::unspecified(dest_ip.version()),
    }
}

/// Whether there is a route to a destination.
pub fn route_check(ns: &mut NetNamespace, globals: &NetGlobals, dest: IpAddress) -> (r: Result<
    (),
    SyscallErr,
>)
    requires
        old(ns).wf(),
        globals.wf(),
    ensures
        final(ns).wf(),
        final(ns).devices == old(ns).devices,
        final(ns).router.table.entries@ == routing::filled(*old(ns), *globals),
        r == match routing::spec_route_output(
            old(ns).devs(),
            routing::filled(*old(ns), *globals),
            dest,
        ) {
            Ok(_) => Ok::<(), SyscallErr>(()),
            Err(e) => Err(e),
        },
{
    match routing::route_output(ns, globals, dest) {
        Ok(_) => Ok(()),
        Err(e) => Err(e),
    }
}

} // verus!
