//! The protocol stacks as a whole: their directory, the requests for them to
//! run, and the sockets that wait to be removed.
use vstd::prelude::*;
use crate::config::directory;
use crate::config::directory::{
    DeviceStackCell,
    DirectoryModel,
    NetDirectory,
    RebindStep,
    RoutedSocket,
    StackState,
};
use crate::config::poll;
use crate::config::poll::{NetPollControl, WorkerAction, WorkerEvent};
use crate::config::removal::TcpSocketRemoval;
use crate::error::SyscallErr;
use crate::iface;
use crate::net_core;
use crate::net_core::NetNamespace;
use crate::routing::{InetProtocol, RouteSocketHandle};
use crate::seqs;
use crate::wire::IpCidr;

verus! {

/// How many addresses a stack has room for.
pub const MAX_STACK_ADDRS: usize = 2;

/// The protocol stacks. There is no directory before [`NetInterface::init`].
#[derive(Debug)]
pub struct NetInterface {
    pub directory: Option<NetDirectory>,
    pub poll: NetPollControl,
    pub udp_removals: Vec<RouteSocketHandle>,
    pub tcp_removals: Vec<TcpSocketRemoval>,
}

/// What a [`NetInterface`] holds.
#[verifier::ext_equal]
pub struct InterfaceModel {
    pub directory: Option<DirectoryModel>,
    pub poll: NetPollControl,
    pub udp_removals: Seq<RouteSocketHandle>,
    pub tcp_removals: Seq<TcpSocketRemoval>,
}

impl View for NetInterface {
    type V = InterfaceModel;

    open spec fn view(&self) -> InterfaceModel {
        InterfaceModel {
            directory: match self.directory {
                Some(d) => Some(d@),
                None => None,
            },
            poll: self.poll,
            udp_removals: self.udp_removals@,
            tcp_removals: self.tcp_removals@,
        }
    }
}

impl InterfaceModel {
    /// Whether an interface has a stack.
    pub open spec fn has_stack(self, ifindex: u32) -> bool {
        self.directory matches Some(d) && d.stack_at(ifindex) is Some
    }
}

/// The directory of the first stacks.
pub open spec fn first_directory() -> DirectoryModel {
    DirectoryModel {
        stacks: seq![
            DeviceStackCell { ifindex: 1, serial: 0, state: StackState::Active },
            DeviceStackCell { ifindex: 2, serial: 1, state: StackState::Active },
        ],
        routes: Seq::empty(),
        bindings: Seq::empty(),
        next_route_id: 1,
        next_serial: 2,
    }
}

impl NetInterface {
    pub open spec fn wf(self) -> bool {
        self.directory matches Some(d) ==> d.wf()
    }

    pub fn new() -> (r: NetInterface)
        ensures
            r.wf(),
            r@ == (InterfaceModel {
                directory: None,
                poll: poll::fresh_control(),
                udp_removals: Seq::empty(),
                tcp_removals: Seq::empty(),
            }),
    {
        NetInterface {
            directory: None,
            poll: NetPollControl::new(),
            udp_removals: Vec::new(),
            tcp_removals: Vec::new(),
        }
    }

    /// Makes the first stacks, and asks for them to run; says whether to wake
    /// the worker.
    pub fn init(&mut self) -> (r: bool)
        ensures
            final(self).wf(),
            final(self)@ == (InterfaceModel {
                directory: Some(first_directory()),
                poll: poll::requested(old(self)@.poll).0,
                ..old(self)@
            }),
            r == poll::requested(old(self)@.poll).1,
    {
        self.directory = Some(NetDirectory::new());
        self.request_poll()
    }

    /// Asks for the stacks to run; says whether to wake the worker.
    pub fn request_poll(&mut self) -> (r: bool)
        ensures
            final(self)@ == (InterfaceModel {
                poll: poll::requested(old(self)@.poll).0,
                ..old(self)@
            }),
            r == poll::requested(old(self)@.poll).1,
            final(self).directory == old(self).directory,
    {
        self.poll.request_poll()
    }

    pub fn run_deferred_net_wake(&mut self) -> (r: bool)
        ensures
            final(self)@ == (InterfaceModel {
                poll: poll::woken(old(self)@.poll).0,
                ..old(self)@
            }),
            r == poll::woken(old(self)@.poll).1,
            final(self).directory == old(self).directory,
    {
        self.poll.run_deferred_net_wake()
    }

    /// Tries the busy stacks again; says whether to wake the worker.
    pub fn run_deferred_poll_retry(&mut self) -> (r: bool)
        ensures
            old(self)@.poll.retry_armed ==> (final(self)@.poll, r) == poll::requested(
                NetPollControl { retry_armed: false, ..old(self)@.poll },
            ),
            !old(self)@.poll.retry_armed ==> final(self)@.poll == old(self)@.poll && !r,
            final(self)@ == (InterfaceModel { poll: final(self)@.poll, ..old(self)@ }),
            final(self).directory == old(self).directory,
    {
        self.poll.run_deferred_poll_retry()
    }

    pub fn try_poll_irq(&mut self) -> (r: bool)
        ensures
            r,
            final(self)@ == (InterfaceModel { poll: poll::kicked(old(self)@.poll), ..old(self)@ }),
            final(self).directory == old(self).directory,
    {
        self.poll.try_poll_irq()
    }

    pub fn notify_rx_interrupt(&mut self)
        ensures
            final(self)@ == (InterfaceModel { poll: poll::kicked(old(self)@.poll), ..old(self)@ }),
            final(self).directory == old(self).directory,
    {
        self.poll.notify_rx_interrupt();
    }

    /// One step of the worker.
    pub fn net_poll_worker(&mut self, event: WorkerEvent) -> (r: WorkerAction)
        ensures
            (final(self)@.poll, r) == poll::worker_step(old(self)@.poll, event),
            final(self)@ == (InterfaceModel { poll: final(self)@.poll, ..old(self)@ }),
            final(self).directory == old(self).directory,
    {
        self.poll.net_poll_worker(event)
    }

    /// The timer for connections that close went off. Says whether it still
    /// counts, and whether to wake the worker.
    pub fn run_tcp_cleanup_timer(&mut self, generation: usize) -> (r: (bool, bool))
        ensures
            ({
                let counts = old(self)@.poll.tcp_cleanup_generation == generation && old(
                    self,
                )@.tcp_removals.len() > 0;
                &&& r.0 == counts
                &&& counts ==> (final(self)@.poll, r.1) == poll::requested(old(self)@.poll)
                &&& !counts ==> final(self)@.poll == old(self)@.poll && !r.1
            }),
            final(self)@ == (InterfaceModel { poll: final(self)@.poll, ..old(self)@ }),
            final(self).directory == old(self).directory,
    {
        let empty = self.tcp_removals.len() == 0;
        self.poll.run_tcp_cleanup_timer(generation, empty)
    }

    /// The stack of an interface.
    pub fn stack_arc(&self, ifindex: u32) -> (r: Option<DeviceStackCell>)
        ensures
            r == match self@.directory {
                Some(d) => d.stack_at(ifindex),
                None => None,
            },
    {
        match &self.directory {
            Some(d) => d.stack_arc(ifindex),
            None => None,
        }
    }

    /// Whether to run the stack of an interface now. `free` says whether
    /// nobody holds it; one that is held is tried again later.
    pub fn try_poll_stack(&mut self, ifindex: u32, free: bool) -> (r: bool)
        ensures
            ({
                let known = match old(self)@.directory {
                    Some(d) => d.stack_at(ifindex) is Some,
                    None => false,
                };
                &&& r == (known && free)
                &&& final(self)@ == if known && !free {
                    InterfaceModel {
                        poll: NetPollControl { retry_armed: true, ..old(self)@.poll },
                        ..old(self)@
                    }
                } else {
                    old(self)@
                }
            }),
            final(self).directory == old(self).directory,
    {
        if self.stack_arc(ifindex).is_none() {
            return false;
        }
        if !free {
            self.poll.arm_retry();
            return false;
        }
        true
    }

    /// Which stacks a round of the worker runs, in order.
    pub fn poll_now(&self) -> (r: Vec<u32>)
        ensures
            r@ == match self@.directory {
                Some(d) => active_ifindexes(d.stacks),
                None => Seq::empty(),
            },
    {
        let mut out: Vec<u32> = Vec::new();
        match &self.directory {
            None => {},
            Some(d) => {
                let mut i: usize = 0;
                assert(d.stacks@.take(0) =~= Seq::<DeviceStackCell>::empty());
                while i < d.stacks.len()
                    invariant
                        i <= d.stacks@.len(),
                        out@ == active_ifindexes(d.stacks@.take(i as int)),
                    decreases d.stacks@.len() - i,
                {
                    assert(d.stacks@.take(i + 1).drop_last() =~= d.stacks@.take(i as int));
                    if d.stacks[i].state == StackState::Active {
                        out.push(d.stacks[i].ifindex);
                    }
                    i += 1;
                }
                assert(d.stacks@.take(i as int) =~= d.stacks@);
            },
        }
        out
    }

    /// One round of the worker: which stacks it runs, in order. `closing` says
    /// whether connections are still being closed; where none is, the timers
    /// that were set for that are no longer current.
    pub fn poll_each_stack_bounded(&mut self, closing: bool) -> (r: Vec<u32>)
        ensures
            r@ == match old(self)@.directory {
                Some(d) => active_ifindexes(d.stacks),
                None => Seq::empty(),
            },
            final(self)@ == if closing {
                old(self)@
            } else {
                InterfaceModel {
                    poll: NetPollControl {
                        tcp_cleanup_generation: old(
                            self,
                        )@.poll.tcp_cleanup_generation.wrapping_add(1),
                        ..old(self)@.poll
                    },
                    ..old(self)@
                }
            },
            final(self).directory == old(self).directory,
    {
        let stacks = self.poll_now();
        if !closing {
            let _ = self.poll.next_cleanup_generation();
        }
        stacks
    }

    /// Whether the stack of an interface takes a socket.
    pub fn add_socket(&self, ifindex: u32) -> (r: bool)
        ensures
            r == match self@.directory {
                Some(d) => match d.stack_at(ifindex) {
                    Some(s) => s.state == StackState::Active,
                    None => false,
                },
                None => false,
            },
    {
        match &self.directory {
            Some(d) => d.add_socket(ifindex),
            None => false,
        }
    }

    /// Adds a stack for one end of a veth pair; says whether it was added.
    pub fn add_veth_stack(&mut self, ifindex: u32) -> (r: bool)
        requires
            old(self).wf(),
        ensures
            final(self).wf(),
            match old(self)@.directory {
                Some(d) => {
                    &&& r == (d.next_serial < u64::MAX)
                    &&& final(self)@ == (InterfaceModel {
                        directory: Some(
                            if r {
                                d.with_stack(ifindex)
                            } else {
                                d
                            },
                        ),
                        ..old(self)@
                    })
                },
                None => !r && final(self)@ == old(self)@,
            },
    {
        match &mut self.directory {
            Some(d) => d.add_veth_stack(ifindex),
            None => false,
        }
    }

    /// Drops the stack of one end of a veth pair, with everything on it.
    pub fn remove_veth_stack(&mut self, ifindex: u32)
        requires
            old(self).wf(),
        ensures
            final(self).wf(),
            final(self)@ == (InterfaceModel {
                directory: match old(self)@.directory {
                    Some(d) => Some(d.without_stack(ifindex)),
                    None => None,
                },
                ..old(self)@
            }),
    {
        match &mut self.directory {
            Some(d) => d.remove_veth_stack(ifindex),
            None => {},
        }
    }

    /// Answers a transmission of `len` bytes. `taken` says whether the device
    /// of the stack took them.
    pub fn transmit_on_stack(&self, ifindex: u32, len: usize, taken: bool) -> (r: Result<
        isize,
        SyscallErr,
    >)
        requires
            len <= isize::MAX,
        ensures
            ({
                let known = match self@.directory {
                    Some(d) => d.stack_at(ifindex) is Some,
                    None => false,
                };
                r == if known && taken {
                    Ok(len as isize)
                } else {
                    Err::<isize, SyscallErr>(SyscallErr::ENETDOWN)
                }
            }),
    {
        if self.stack_arc(ifindex).is_none() || !taken {
            return Err(SyscallErr::ENETDOWN);
        }
        Ok(len as isize)
    }

    pub fn stack_ifindexes(&self) -> (r: Vec<u32>)
        ensures
            r@ == match self@.directory {
                Some(d) => Seq::new(d.stacks.len(), |i: int| d.stacks[i].ifindex),
                None => Seq::empty(),
            },
    {
        match &self.directory {
            Some(d) => d.stack_ifindexes(),
            None => Vec::new(),
        }
    }

    /// How many sockets there are: TCP, UDP, raw, and those that wait for
    /// their removal. `udp` is the number of UDP sockets of each stack.
    pub fn socket_stats(&self, tcp: usize, udp: &Vec<usize>, raw: usize) -> (r: (
        usize,
        usize,
        usize,
        usize,
    ))
        requires
            directory::total(udp@) <= usize::MAX,
            self@.tcp_removals.len() + self@.udp_removals.len() <= usize::MAX,
        ensures
            r == (
                tcp,
                directory::total(udp@) as usize,
                raw,
                (self@.tcp_removals.len() + self@.udp_removals.len()) as usize,
            ),
    {
        directory::socket_stats(
            tcp,
            udp,
            raw,
            self.tcp_removals.len(),
            self.udp_removals.len(),
        )
    }

    /// Records a socket that the stack of an interface has taken as `handle`.
    pub fn add_routed_socket_on(&mut self, proto: InetProtocol, ifindex: u32, handle: usize) -> (r:
        Option<RouteSocketHandle>)
        requires
            old(self).wf(),
        ensures
            final(self).wf(),
            match old(self)@.directory {
                Some(d) => {
                    let (next, route) = d.with_socket(proto, ifindex, handle);
                    &&& r == route
                    &&& final(self)@ == (InterfaceModel { directory: Some(next), ..old(self)@ })
                },
                None => r is None && final(self)@ == old(self)@,
            },
    {
        match &mut self.directory {
            Some(d) => d.add_routed_socket_on(proto, ifindex, handle),
            None => None,
        }
    }

    /// The same for a socket that is bound to no interface.
    pub fn add_routed_socket(&mut self, ns: &NetNamespace, proto: InetProtocol, handle: usize) -> (r:
        Option<RouteSocketHandle>)
        requires
            old(self).wf(),
        ensures
            final(self).wf(),
            match old(self)@.directory {
                Some(d) => {
                    let ifindex = match net_core::spec_default_iface(ns.devs()) {
                        Some(dev) => dev.nic_id,
                        None => 1,
                    };
                    let (next, route) = d.with_socket(proto, ifindex, handle);
                    &&& r == route
                    &&& final(self)@ == (InterfaceModel { directory: Some(next), ..old(self)@ })
                },
                None => r is None && final(self)@ == old(self)@,
            },
    {
        match &mut self.directory {
            Some(d) => d.add_routed_socket(ns, proto, handle),
            None => None,
        }
    }

    fn routed(&self, route: RouteSocketHandle, protocol: InetProtocol) -> (r: Option<RoutedSocket>)
        ensures
            r == match self@.directory {
                Some(d) => d.routed(route, protocol),
                None => None,
            },
    {
        match &self.directory {
            Some(d) => match protocol {
                InetProtocol::Tcp => d.tcp_routed_socket(route),
                InetProtocol::Udp => d.udp_routed_socket(route),
                InetProtocol::Raw => d.raw_routed_socket(route),
            },
            None => None,
        }
    }

    /// Gives the stack of an interface one more address, as long as it has
    /// room; `addrs` are the addresses of that stack.
    pub fn add_ip_to_stack(&self, ifindex: u32, addrs: &mut Vec<IpCidr>, cidr: IpCidr)
        ensures
            final(addrs)@ == if self@.has_stack(ifindex) && old(addrs)@.len() < MAX_STACK_ADDRS {
                old(addrs)@.push(cidr)
            } else {
                old(addrs)@
            },
    {
        if self.stack_arc(ifindex).is_none() {
            return;
        }
        if addrs.len() < MAX_STACK_ADDRS {
            addrs.push(cidr);
        }
    }

    /// Takes an address from the stack of an interface.
    pub fn remove_ip_from_stack(&self, ifindex: u32, addrs: &mut Vec<IpCidr>, cidr: IpCidr)
        ensures
            final(addrs)@ == if self@.has_stack(ifindex) {
                old(addrs)@.filter(iface::other_than(cidr))
            } else {
                old(addrs)@
            },
    {
        if self.stack_arc(ifindex).is_none() {
            return;
        }
        let ghost before = addrs@;
        let mut left: Vec<IpCidr> = Vec::new();
        let mut i: usize = 0;
        proof {
            reveal(Seq::filter);
        }
        while i < addrs.len()
            invariant
                addrs@ == before,
                i <= addrs@.len(),
                left@ == before.take(i as int).filter(iface::other_than(cidr)),
            decreases addrs@.len() - i,
        {
            proof {
                seqs::lemma_filter_step(before, iface::other_than(cidr), i as int);
            }
            if addrs[i] != cidr {
                left.push(addrs[i]);
            }
            i = i + 1;
        }
        assert(before.take(i as int) =~= before);
        *addrs = left;
    }

    /// Leaves the stack of an interface that one address.
    pub fn replace_ip_addrs_on_stack(&self, ifindex: u32, addrs: &mut Vec<IpCidr>, cidr: IpCidr)
        ensures
            final(addrs)@ == if self@.has_stack(ifindex) {
                seq![cidr]
            } else {
                old(addrs)@
            },
    {
        if self.stack_arc(ifindex).is_none() {
            return;
        }
        let mut only: Vec<IpCidr> = Vec::new();
        only.push(cidr);
        assert(only@ =~= seq![cidr]);
        *addrs = only;
    }

    /// The largest packet that the stack of an interface is to send, where
    /// there is such a stack.
    pub fn set_stack_mtu(&self, ifindex: u32, mtu: usize) -> (r: Option<usize>)
        ensures
            r == if self@.has_stack(ifindex) {
                Some(mtu)
            } else {
                None
            },
    {
        match self.stack_arc(ifindex) {
            Some(_) => Some(mtu),
            None => None,
        }
    }

    /// The socket that opens a connection on a route.
    pub fn tcp_connect(&self, route: RouteSocketHandle) -> (r: Option<RoutedSocket>)
        ensures
            r == match self@.directory {
                Some(d) => d.routed(route, InetProtocol::Tcp),
                None => None,
            },
    {
        self.tcp_routed_socket(route)
    }

    pub fn tcp_routed_socket(&self, route: RouteSocketHandle) -> (r: Option<RoutedSocket>)
        ensures
            r == match self@.directory {
                Some(d) => d.routed(route, InetProtocol::Tcp),
                None => None,
            },
    {
        self.routed(route, InetProtocol::Tcp)
    }

    pub fn udp_routed_socket(&self, route: RouteSocketHandle) -> (r: Option<RoutedSocket>)
        ensures
            r == match self@.directory {
                Some(d) => d.routed(route, InetProtocol::Udp),
                None => None,
            },
    {
        self.routed(route, InetProtocol::Udp)
    }

    pub fn raw_routed_socket(&self, route: RouteSocketHandle) -> (r: Option<RoutedSocket>)
        ensures
            r == match self@.directory {
                Some(d) => d.routed(route, InetProtocol::Raw),
                None => None,
            },
    {
        self.routed(route, InetProtocol::Raw)
    }

    /// Forgets a route; returns the socket that its stack has to drop.
    pub fn remove_routed(&mut self, route: RouteSocketHandle) -> (r: Option<RoutedSocket>)
        requires
            old(self).wf(),
        ensures
            final(self).wf(),
            match old(self)@.directory {
                Some(d) => {
                    let (next, socket) = d.without_route(route);
                    &&& r == socket
                    &&& final(self)@ == (InterfaceModel { directory: Some(next), ..old(self)@ })
                },
                None => r is None && final(self)@ == old(self)@,
            },
    {
        match &mut self.directory {
            Some(d) => d.remove_routed(route),
            None => None,
        }
    }

    /// Begins to move a UDP socket to the stack of another interface.
    pub fn rebind_routed_udp(&mut self, route: RouteSocketHandle, new_ifindex: u32) -> (r: RebindStep)
        requires
            old(self).wf(),
        ensures
            final(self).wf(),
            match old(self)@.directory {
                Some(d) => {
                    let (next, step) = d.moving(route, new_ifindex);
                    &&& r == step
                    &&& final(self)@ == (InterfaceModel { directory: Some(next), ..old(self)@ })
                },
                None => r is Refused && final(self)@ == old(self)@,
            },
    {
        match &mut self.directory {
            Some(d) => d.rebind_routed_udp(route, new_ifindex),
            None => RebindStep::Refused,
        }
    }

    /// Ends the move: `handle` is the new socket on the other stack.
    pub fn finish_rebind(&mut self, route: RouteSocketHandle, new_ifindex: u32, handle: usize) -> (r:
        Option<RouteSocketHandle>)
        requires
            old(self).wf(),
        ensures
            final(self).wf(),
            match old(self)@.directory {
                Some(d) => {
                    let (next, moved) = d.moved(route, new_ifindex, handle);
                    &&& r == moved
                    &&& final(self)@ == (InterfaceModel { directory: Some(next), ..old(self)@ })
                },
                None => r is None && final(self)@ == old(self)@,
            },
    {
        match &mut self.directory {
            Some(d) => d.finish_rebind(route, new_ifindex, handle),
            None => None,
        }
    }
}

/// The interfaces whose stacks are active.
pub open spec fn active_ifindexes(stacks: Seq<DeviceStackCell>) -> Seq<u32>
    decreases stacks.len(),
{
    if stacks.len() == 0 {
        Seq::empty()
    } else {
        let rest = active_ifindexes(stacks.drop_last());
        if stacks.last().state == StackState::Active {
            rest.push(stacks.last().ifindex)
        } else {
            rest
        }
    }
}

} // verus!
