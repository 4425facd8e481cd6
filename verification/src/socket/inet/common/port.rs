//! How sockets come by their ports.
use vstd::prelude::*;
use crate::error::SyscallErr;
use crate::socket::inet::common::port::registry::{
    BindIntent,
    PortRegistry,
    PortReservation,
    TransportProtocol,
};
use crate::socket::PSOCK;
use crate::wire::{IpAddress, Ipv4Address};

pub mod registry;

verus! {

/// Why a socket that has no port gets one.
#[derive(Clone, Copy, Debug, PartialEq, Eq, Structural)]
pub enum AutoBindPurpose {
    Connect,
    Listen,
    Send,
}

/// Binding as a transaction over the registry of ports.
pub struct PortManager;

impl PortManager {
    /// The first half of binding: a stream or datagram socket gets its port
    /// reserved; others are bound without one.
    pub fn bind_port(
        ports: &mut PortRegistry,
        kind: PSOCK,
        intent: BindIntent,
        socket: u64,
        live: &Vec<u64>,
    ) -> (r: Result<Option<PortReservation>, SyscallErr>)
        requires
            old(ports)@.wf(),
        ensures
            final(ports)@.wf(),
            match kind {
                PSOCK::Stream | PSOCK::Datagram => {
                    let (after, result) = registry::reserved(old(ports)@, intent, socket, live@);
                    &&& final(ports)@ == after
                    &&& r == match result {
                        Ok(res) => Ok::<Option<PortReservation>, SyscallErr>(Some(res)),
                        Err(e) => Err(e),
                    }
                },
                _ => r == Ok::<Option<PortReservation>, SyscallErr>(None) && *final(ports) == *old(
                    ports,
                ),
            },
    {
        match kind {
            PSOCK::Stream | PSOCK::Datagram => match ports.reserve(intent, socket, live) {
                Ok(res) => Ok(Some(res)),
                Err(e) => Err(e),
            },
            _ => Ok(None),
        }
    }

    /// The second half: once the socket was bound, or was not, the reservation
    /// is made permanent or given up.
    pub fn finish_bind(
        ports: &mut PortRegistry,
        reservation: PortReservation,
        socket: u64,
        outcome: Result<usize, SyscallErr>,
    ) -> (r: Result<(usize, PortReservation), SyscallErr>)
        requires
            old(ports)@.wf(),
        ensures
            final(ports)@.wf(),
            ({
                let found = registry::owner_of(old(ports)@.owners, reservation) is Some
                    && reservation.owner == socket;
                match outcome {
                    Ok(v) if found => {
                        &&& r == Ok::<(usize, PortReservation), SyscallErr>((v, reservation))
                        &&& final(ports)@ == (registry::committed(old(ports)@, reservation))
                    },
                    Ok(_) => {
                        &&& r == Err::<(usize, PortReservation), SyscallErr>(
                            SyscallErr::EADDRNOTAVAIL,
                        )
                        &&& final(ports)@ == (registry::released(old(ports)@, reservation))
                    },
                    Err(e) => {
                        &&& r == Err::<(usize, PortReservation), SyscallErr>(e)
                        &&& final(ports)@ == (registry::released(old(ports)@, reservation))
                    },
                }
            }),
    {
        match outcome {
            Ok(v) => match ports.commit(&reservation, socket) {
                Ok(_) => Ok((v, reservation)),
                Err(e) => {
                    ports.abort(&reservation);
                    Err(e)
                },
            },
            Err(e) => {
                ports.abort(&reservation);
                Err(e)
            },
        }
    }

    /// Gives a socket a port where it asks for one: `wanted` is what the socket
    /// answered when it was asked. A socket that wants none is left as it is.
    pub fn ensure_auto_bound(
        ports: &mut PortRegistry,
        kind: PSOCK,
        wanted: Result<Option<BindIntent>, SyscallErr>,
        socket: u64,
        live: &Vec<u64>,
    ) -> (r: Result<Option<PortReservation>, SyscallErr>)
        requires
            old(ports)@.wf(),
        ensures
            final(ports)@.wf(),
            match wanted {
                Ok(Some(intent)) if kind == PSOCK::Stream || kind == PSOCK::Datagram => {
                    let (after, result) = registry::reserved(old(ports)@, intent, socket, live@);
                    &&& final(ports)@ == after
                    &&& r == match result {
                        Ok(res) => Ok::<Option<PortReservation>, SyscallErr>(Some(res)),
                        Err(e) => Err(e),
                    }
                },
                Ok(_) => r == Ok::<Option<PortReservation>, SyscallErr>(None) && *final(ports)
                    == *old(ports),
                Err(e) => r == Err::<Option<PortReservation>, SyscallErr>(e) && *final(ports)
                    == *old(ports),
            },
    {
        match wanted {
            Ok(Some(intent)) => Self::bind_port(ports, kind, intent, socket, live),
            Ok(None) => Ok(None),
            Err(e) => Err(e),
        }
    }

    /// Takes one owner of a TCP port out.
    pub fn unregister_tcp_bind(ports: &mut PortRegistry, port: u16)
        requires
            old(ports)@.wf(),
        ensures
            final(ports)@.wf(),
            final(ports)@ == (registry::released_one(old(ports)@, TransportProtocol::Tcp, port)),
    {
        ports.release_one(TransportProtocol::Tcp, port);
    }

    /// Takes one owner of a UDP port out.
    pub fn unregister_udp_bind(ports: &mut PortRegistry, port: u16)
        requires
            old(ports)@.wf(),
        ensures
            final(ports)@.wf(),
            final(ports)@ == (registry::released_one(old(ports)@, TransportProtocol::Udp, port)),
    {
        ports.release_one(TransportProtocol::Udp, port);
    }

    /// Whether a UDP port could be had.
    pub fn check_udp_conflict(
        ports: &PortRegistry,
        port: u16,
        addr: Option<Ipv4Address>,
        reuse_addr: bool,
    ) -> (r: Result<(), SyscallErr>)
        ensures
            r == if registry::is_free(
                ports@.owners,
                registry::legacy_intent(TransportProtocol::Udp, port, addr, reuse_addr),
            ) {
                Ok::<(), SyscallErr>(())
            } else {
                Err(SyscallErr::EADDRINUSE)
            },
    {
        let address = match addr {
            Some(a) => Some(IpAddress::Ipv4(a)),
            None => None,
        };
        ports.check_conflict(&BindIntent::legacy_udp(port, address, reuse_addr))
    }

    /// Whether a TCP port is taken.
    pub fn check_tcp_conflict(ports: &PortRegistry, port: u16, addr: Option<Ipv4Address>) -> (r: bool)
        ensures
            r == !registry::is_free(
                ports@.owners,
                registry::legacy_intent(TransportProtocol::Tcp, port, addr, false),
            ),
    {
        let address = match addr {
            Some(a) => Some(IpAddress::Ipv4(a)),
            None => None,
        };
        ports.check_conflict(&BindIntent::legacy_tcp(port, address)).is_err()
    }
}

/// A bind that fails leaves no owner behind: the registry holds what it held
/// before, without the owners whose sockets are gone.
pub proof fn law_failed_bind_leaves_nothing(
    before: registry::RegistryModel,
    intent: BindIntent,
    socket: u64,
    live: Seq<u64>,
)
    requires
        before.wf(),
        registry::reserved(before, intent, socket, live).1 is Ok,
    ensures
        ({
            let (after, result) = registry::reserved(before, intent, socket, live);
            registry::released(after, result->Ok_0).owners == before.owners.filter(
                registry::is_live(live),
            )
        }),
{
    registry::law_release_undoes_reserve(before, intent, socket, live);
}

} // verus!
