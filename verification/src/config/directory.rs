//! The directory of the protocol stacks and of the sockets on them.
//!
//! Each interface has a stack of its own. A socket on a stack is known by a
//! route, a number that is never given twice, so that a stale route cannot
//! lead to a socket that came later.
use vstd::prelude::*;
use crate::net_core;
use crate::net_core::NetNamespace;
use crate::routing::{InetProtocol, RouteSocketHandle};
use crate::seqs;

verus! {

/// Whether a stack takes sockets.
#[derive(Clone, Copy, Debug, PartialEq, Eq, Structural)]
pub enum StackState {
    Active,
    Draining,
    Dead,
}

/// Whether a route leads to its socket.
#[derive(Clone, Copy, Debug, PartialEq, Eq, Structural)]
pub enum RouteState {
    Active,
    /// The socket is on its way to another stack.
    Migrating,
    Draining,
}

/// The stack of an interface. A stack that takes another's place has another
/// serial number.
#[derive(Clone, Copy, Debug, PartialEq, Eq, Structural)]
pub struct DeviceStackCell {
    pub ifindex: u32,
    pub serial: u64,
    pub state: StackState,
}

/// Where a route leads.
#[derive(Clone, Copy, Debug, PartialEq, Eq, Structural)]
pub struct RouteDirectoryEntry {
    pub route: RouteSocketHandle,
    pub stack: u64,
    pub protocol: InetProtocol,
    pub state: RouteState,
}

/// Which socket of a stack a route stands for.
#[derive(Clone, Copy, Debug, PartialEq, Eq, Structural)]
pub struct LocalSocketBinding {
    pub route: RouteSocketHandle,
    pub stack: u64,
    /// The number by which the stack knows the socket.
    pub handle: usize,
    pub protocol: InetProtocol,
}

/// The stacks, by ascending interface, and the routes and bindings.
#[derive(Debug)]
pub struct NetDirectory {
    pub stacks: Vec<DeviceStackCell>,
    pub routes: Vec<RouteDirectoryEntry>,
    pub bindings: Vec<LocalSocketBinding>,
    pub next_route_id: usize,
    pub next_serial: u64,
}

/// What a [`NetDirectory`] holds.
#[verifier::ext_equal]
pub struct DirectoryModel {
    pub stacks: Seq<DeviceStackCell>,
    pub routes: Seq<RouteDirectoryEntry>,
    pub bindings: Seq<LocalSocketBinding>,
    pub next_route_id: usize,
    pub next_serial: u64,
}

impl View for NetDirectory {
    type V = DirectoryModel;

    open spec fn view(&self) -> DirectoryModel {
        DirectoryModel {
            stacks: self.stacks@,
            routes: self.routes@,
            bindings: self.bindings@,
            next_route_id: self.next_route_id,
            next_serial: self.next_serial,
        }
    }
}

/// Where the socket of a route is, and how its stack knows it.
#[derive(Clone, Copy, Debug, PartialEq, Eq, Structural)]
pub struct RoutedSocket {
    pub ifindex: u32,
    pub handle: usize,
}

/// How the move of a UDP socket to another stack begins.
#[derive(Clone, Copy, Debug, PartialEq, Eq, Structural)]
pub enum RebindStep {
    /// There is no such socket, or no stack to move it to.
    Refused,
    /// It is there already.
    There,
    /// The old socket is dropped, and a new one is made on the other stack.
    Move { from: Option<RoutedSocket> },
}

pub open spec fn at_interface(ifindex: u32) -> spec_fn(DeviceStackCell) -> bool {
    |s: DeviceStackCell| s.ifindex == ifindex
}

pub open spec fn with_serial(serial: u64) -> spec_fn(DeviceStackCell) -> bool {
    |s: DeviceStackCell| s.serial == serial
}

pub open spec fn entry_of(route: RouteSocketHandle) -> spec_fn(RouteDirectoryEntry) -> bool {
    |e: RouteDirectoryEntry| e.route == route
}

pub open spec fn binding_of(route: RouteSocketHandle) -> spec_fn(LocalSocketBinding) -> bool {
    |b: LocalSocketBinding| b.route == route
}

pub open spec fn other_route(route: RouteSocketHandle) -> spec_fn(RouteDirectoryEntry) -> bool {
    |e: RouteDirectoryEntry| e.route != route
}

pub open spec fn unbound_from(route: RouteSocketHandle) -> spec_fn(LocalSocketBinding) -> bool {
    |b: LocalSocketBinding| b.route != route
}

pub open spec fn off_stack(serial: u64) -> spec_fn(RouteDirectoryEntry) -> bool {
    |e: RouteDirectoryEntry| e.stack != serial
}

pub open spec fn bound_off(serial: u64) -> spec_fn(LocalSocketBinding) -> bool {
    |b: LocalSocketBinding| b.stack != serial
}

pub open spec fn other_interface(ifindex: u32) -> spec_fn(DeviceStackCell) -> bool {
    |s: DeviceStackCell| s.ifindex != ifindex
}

/// The stacks with one more in its place, instead of what had its interface.
pub open spec fn placed(stacks: Seq<DeviceStackCell>, s: DeviceStackCell) -> Seq<DeviceStackCell>
    decreases stacks.len(),
{
    if stacks.len() == 0 {
        seq![s]
    } else if stacks.last().ifindex < s.ifindex {
        stacks.push(s)
    } else if stacks.last().ifindex == s.ifindex {
        stacks.drop_last().push(s)
    } else {
        placed(stacks.drop_last(), s).push(stacks.last())
    }
}

pub open spec fn stacks_ordered(stacks: Seq<DeviceStackCell>) -> bool {
    forall|i: int, j: int|
        #![trigger stacks[i], stacks[j]]
        0 <= i < j < stacks.len() ==> stacks[i].ifindex < stacks[j].ifindex && stacks[i].serial
            != stacks[j].serial
}

pub open spec fn serials_given(stacks: Seq<DeviceStackCell>, next: u64) -> bool {
    forall|i: int| 0 <= i < stacks.len() ==> (#[trigger] stacks[i]).serial < next
}

pub open spec fn routes_ordered(routes: Seq<RouteDirectoryEntry>) -> bool {
    forall|i: int, j: int|
        #![trigger routes[i], routes[j]]
        0 <= i < j < routes.len() ==> routes[i].route.0 < routes[j].route.0
}

/// A stack with a new serial number keeps the order.
proof fn lemma_placed(stacks: Seq<DeviceStackCell>, s: DeviceStackCell, next: u64)
    requires
        stacks_ordered(stacks),
        serials_given(stacks, next),
        s.serial == next,
        next < u64::MAX,
    ensures
        stacks_ordered(placed(stacks, s)),
        serials_given(placed(stacks, s), (next + 1) as u64),
        forall|k: int|
            0 <= k < placed(stacks, s).len() ==> (#[trigger] placed(stacks, s)[k] == s
                || stacks.contains(placed(stacks, s)[k])),
    decreases stacks.len(),
{
    let r = placed(stacks, s);
    if stacks.len() > 0 {
        let t = stacks.drop_last();
        let last = stacks.last();
        assert(stacks[stacks.len() - 1] == last);
        assert forall|k: int| 0 <= k < t.len() implies stacks[k] == t[k] by {}
        if last.ifindex < s.ifindex {
            assert forall|k: int| 0 <= k < r.len() implies (#[trigger] r[k] == s
                || stacks.contains(r[k])) by {
                if k < stacks.len() {
                    assert(r[k] == stacks[k]);
                }
            }
        } else if last.ifindex == s.ifindex {
            assert forall|k: int| 0 <= k < r.len() implies (#[trigger] r[k] == s
                || stacks.contains(r[k])) by {
                if k < t.len() {
                    assert(r[k] == stacks[k]);
                }
            }
        } else {
            lemma_placed(t, s, next);
            let q = placed(t, s);
            assert forall|k: int| 0 <= k < r.len() implies (#[trigger] r[k] == s
                || stacks.contains(r[k])) by {
                if k < q.len() {
                    assert(r[k] == q[k]);
                    if q[k] != s {
                        let m = choose|m: int| 0 <= m < t.len() && t[m] == q[k];
                        assert(stacks[m] == q[k]);
                    }
                } else {
                    assert(r[k] == stacks[stacks.len() - 1]);
                }
            }
            assert forall|i: int, j: int| 0 <= i < j < r.len() implies #[trigger] r[i].ifindex
                < #[trigger] r[j].ifindex && r[i].serial != r[j].serial by {
                if j < q.len() {
                    assert(r[i] == q[i] && r[j] == q[j]);
                } else {
                    assert(r[i] == q[i]);
                    assert(r[j] == last);
                    if q[i] != s {
                        let m = choose|m: int| 0 <= m < t.len() && t[m] == q[i];
                        assert(stacks[m] == q[i]);
                    }
                }
            }
        }
    }
}

proof fn lemma_filter_stacks(stacks: Seq<DeviceStackCell>, p: spec_fn(DeviceStackCell) -> bool, next: u64)
    requires
        stacks_ordered(stacks),
        serials_given(stacks, next),
    ensures
        stacks_ordered(stacks.filter(p)),
        serials_given(stacks.filter(p), next),
    decreases stacks.len(),
{
    reveal(Seq::filter);
    if stacks.len() > 0 {
        let t = stacks.drop_last();
        lemma_filter_stacks(t, p, next);
        seqs::lemma_filter_elements(t, p);
        let f = stacks.filter(p);
        let g = t.filter(p);
        assert forall|i: int, j: int| 0 <= i < j < f.len() implies #[trigger] f[i].ifindex
            < #[trigger] f[j].ifindex && f[i].serial != f[j].serial by {
            assert(f[i] == g[i]);
            if j < g.len() {
                assert(f[j] == g[j]);
            } else {
                let m = choose|m: int| 0 <= m < t.len() && t[m] == g[i];
                assert(stacks[m] == g[i]);
                assert(f[j] == stacks[stacks.len() - 1]);
            }
        }
        assert forall|i: int| 0 <= i < f.len() implies (#[trigger] f[i]).serial < next by {
            if i < g.len() {
                assert(f[i] == g[i]);
            } else {
                assert(f[i] == stacks[stacks.len() - 1]);
            }
        }
    }
}

proof fn lemma_filter_routes(routes: Seq<RouteDirectoryEntry>, p: spec_fn(RouteDirectoryEntry) -> bool)
    requires
        routes_ordered(routes),
    ensures
        routes_ordered(routes.filter(p)),
    decreases routes.len(),
{
    reveal(Seq::filter);
    if routes.len() > 0 {
        let t = routes.drop_last();
        lemma_filter_routes(t, p);
        seqs::lemma_filter_elements(t, p);
        let f = routes.filter(p);
        let g = t.filter(p);
        assert forall|i: int, j: int| 0 <= i < j < f.len() implies #[trigger] f[i].route.0
            < #[trigger] f[j].route.0 by {
            assert(f[i] == g[i]);
            if j < g.len() {
                assert(f[j] == g[j]);
            } else {
                let m = choose|m: int| 0 <= m < t.len() && t[m] == g[i];
                assert(routes[m] == g[i]);
                assert(f[j] == routes[routes.len() - 1]);
            }
        }
    }
}

/// Puts a stack in its place.
fn place_stack(stacks: &mut Vec<DeviceStackCell>, s: DeviceStackCell)
    ensures
        final(stacks)@ == placed(old(stacks)@, s),
{
    let ghost all = stacks@;
    let mut i: usize = stacks.len();
    proof {
        assert(all.take(all.len() as int) =~= all);
        assert(placed(all, s) + all.skip(all.len() as int) =~= placed(all, s));
    }
    while i > 0 && stacks[i - 1].ifindex > s.ifindex
        invariant
            i <= all.len(),
            stacks@ == all,
            placed(all, s) == placed(all.take(i as int), s) + all.skip(i as int),
        decreases i,
    {
        proof {
            let t = all.take(i as int);
            assert(t.drop_last() =~= all.take(i - 1));
            assert(t.last() == all[i - 1]);
            assert(placed(all.take(i - 1), s) + all.skip(i - 1) =~= placed(t, s) + all.skip(
                i as int,
            ));
        }
        i -= 1;
    }
    let ghost t = all.take(i as int);
    if i > 0 && stacks[i - 1].ifindex == s.ifindex {
        stacks.set(i - 1, s);
        proof {
            assert(t.last() == all[i - 1]);
            assert(stacks@ =~= t.drop_last().push(s) + all.skip(i as int));
        }
    } else {
        stacks.insert(i, s);
        proof {
            if i > 0 {
                assert(t.last() == all[i - 1]);
                assert(placed(t, s) == t.push(s));
            } else {
                assert(t =~= Seq::<DeviceStackCell>::empty());
                assert(placed(t, s) =~= t.push(s));
            }
            assert(stacks@ =~= t.push(s) + all.skip(i as int));
        }
    }
}

impl DirectoryModel {
    /// Stacks stand in the order of their interfaces, routes in the order in
    /// which they were given, and every number in use was given.
    pub open spec fn wf(self) -> bool {
        &&& stacks_ordered(self.stacks)
        &&& serials_given(self.stacks, self.next_serial)
        &&& routes_ordered(self.routes)
        &&& forall|i: int|
            0 <= i < self.routes.len() ==> 0 < (#[trigger] self.routes[i]).route.0
                < self.next_route_id
        &&& forall|i: int|
            0 <= i < self.bindings.len() ==> (#[trigger] self.bindings[i]).route.0
                < self.next_route_id
        &&& self.next_route_id > 0
    }

    pub open spec fn stack_at(self, ifindex: u32) -> Option<DeviceStackCell> {
        seqs::find_first(self.stacks, at_interface(ifindex))
    }

    pub open spec fn stack_by_serial(self, serial: u64) -> Option<DeviceStackCell> {
        seqs::find_first(self.stacks, with_serial(serial))
    }

    pub open spec fn entry(self, route: RouteSocketHandle) -> Option<RouteDirectoryEntry> {
        seqs::find_first(self.routes, entry_of(route))
    }

    pub open spec fn binding(self, route: RouteSocketHandle) -> Option<LocalSocketBinding> {
        seqs::find_first(self.bindings, binding_of(route))
    }

    /// The stack that an active route of that protocol leads to.
    pub open spec fn active_stack(self, route: RouteSocketHandle, protocol: InetProtocol) -> Option<
        DeviceStackCell,
    > {
        match self.entry(route) {
            Some(e) => if e.state == RouteState::Active && e.protocol == protocol {
                self.stack_by_serial(e.stack)
            } else {
                None
            },
            None => None,
        }
    }

    /// The socket that a route of that protocol leads to.
    pub open spec fn routed(self, route: RouteSocketHandle, protocol: InetProtocol) -> Option<
        RoutedSocket,
    > {
        match (self.active_stack(route, protocol), self.binding(route)) {
            (Some(s), Some(b)) => if b.stack == s.serial && b.protocol == protocol {
                Some(RoutedSocket { ifindex: s.ifindex, handle: b.handle })
            } else {
                None
            },
            _ => None,
        }
    }

    /// The directory with a new stack for an interface.
    pub open spec fn with_stack(self, ifindex: u32) -> DirectoryModel {
        DirectoryModel {
            stacks: placed(
                self.stacks,
                DeviceStackCell { ifindex, serial: self.next_serial, state: StackState::Active },
            ),
            bindings: match self.stack_at(ifindex) {
                Some(old) => self.bindings.filter(bound_off(old.serial)),
                None => self.bindings,
            },
            next_serial: (self.next_serial + 1) as u64,
            ..self
        }
    }

    /// The directory without the stack of an interface, and without
    /// everything on it.
    pub open spec fn without_stack(self, ifindex: u32) -> DirectoryModel {
        match self.stack_at(ifindex) {
            None => self,
            Some(s) => DirectoryModel {
                stacks: self.stacks.filter(other_interface(ifindex)),
                routes: self.routes.filter(off_stack(s.serial)),
                bindings: self.bindings.filter(bound_off(s.serial)),
                ..self
            },
        }
    }

    /// The directory with a new socket on the stack of an interface, and the
    /// route to it. The number of a route is used up even if the stack takes
    /// no sockets any more.
    pub open spec fn with_socket(self, protocol: InetProtocol, ifindex: u32, handle: usize) -> (
        DirectoryModel,
        Option<RouteSocketHandle>,
    ) {
        match self.stack_at(ifindex) {
            None => (self, None),
            Some(s) => if self.next_route_id == usize::MAX {
                (self, None)
            } else {
                let route = RouteSocketHandle(self.next_route_id);
                let counted = DirectoryModel {
                    next_route_id: (self.next_route_id + 1) as usize,
                    ..self
                };
                if s.state != StackState::Active {
                    (counted, None)
                } else {
                    (
                        DirectoryModel {
                            routes: self.routes.push(
                                RouteDirectoryEntry {
                                    route,
                                    stack: s.serial,
                                    protocol,
                                    state: RouteState::Active,
                                },
                            ),
                            bindings: self.bindings.push(
                                LocalSocketBinding { route, stack: s.serial, handle, protocol },
                            ),
                            ..counted
                        },
                        Some(route),
                    )
                }
            },
        }
    }

    /// The directory without a route, and the socket to drop.
    pub open spec fn without_route(self, route: RouteSocketHandle) -> (
        DirectoryModel,
        Option<RoutedSocket>,
    ) {
        match self.entry(route) {
            None => (self, None),
            Some(e) => {
                let gone = DirectoryModel {
                    routes: self.routes.filter(other_route(route)),
                    ..self
                };
                match (self.stack_by_serial(e.stack), self.binding(route)) {
                    (Some(s), Some(b)) => if b.stack == s.serial {
                        (
                            DirectoryModel {
                                bindings: self.bindings.filter(unbound_from(route)),
                                ..gone
                            },
                            Some(RoutedSocket { ifindex: s.ifindex, handle: b.handle }),
                        )
                    } else {
                        (gone, None)
                    },
                    _ => (gone, None),
                }
            },
        }
    }

    /// The directory with an entry in another state.
    pub open spec fn with_entry(self, e: RouteDirectoryEntry) -> DirectoryModel {
        DirectoryModel { routes: replaced(self.routes, e), ..self }
    }

    /// How the move of a UDP socket begins: its route leads nowhere until the
    /// move is over. A route without a UDP socket on its stack stays there.
    pub open spec fn moving(self, route: RouteSocketHandle, ifindex: u32) -> (
        DirectoryModel,
        RebindStep,
    ) {
        match (self.entry(route), self.active_stack(route, InetProtocol::Udp)) {
            (Some(e), Some(source)) => if source.ifindex == ifindex {
                (self, RebindStep::There)
            } else {
                match self.stack_at(ifindex) {
                    Some(target) => if target.state == StackState::Active {
                        let between = self.with_entry(
                            RouteDirectoryEntry { state: RouteState::Migrating, ..e },
                        );
                        let unbound = DirectoryModel {
                            bindings: self.bindings.filter(unbound_from(route)),
                            ..between
                        };
                        match self.binding(route) {
                            Some(b) => if b.stack != source.serial {
                                (between, RebindStep::Refused)
                            } else if b.protocol != InetProtocol::Udp {
                                (unbound, RebindStep::Refused)
                            } else {
                                (
                                    unbound,
                                    RebindStep::Move {
                                        from: Some(
                                            RoutedSocket {
                                                ifindex: source.ifindex,
                                                handle: b.handle,
                                            },
                                        ),
                                    },
                                )
                            },
                            None => (between, RebindStep::Refused),
                        }
                    } else {
                        (self, RebindStep::Refused)
                    },
                    None => (self, RebindStep::Refused),
                }
            },
            _ => (self, RebindStep::Refused),
        }
    }

    /// How the move ends: with a new socket on the other stack, if that still
    /// takes sockets.
    pub open spec fn moved(self, route: RouteSocketHandle, ifindex: u32, handle: usize) -> (
        DirectoryModel,
        Option<RouteSocketHandle>,
    ) {
        match (self.entry(route), self.stack_at(ifindex)) {
            (Some(e), Some(target)) => if e.state == RouteState::Migrating && target.state
                == StackState::Active {
                (
                    DirectoryModel {
                        bindings: self.bindings.filter(unbound_from(route)).push(
                            LocalSocketBinding {
                                route,
                                stack: target.serial,
                                handle,
                                protocol: InetProtocol::Udp,
                            },
                        ),
                        ..self.with_entry(
                            RouteDirectoryEntry {
                                stack: target.serial,
                                state: RouteState::Active,
                                ..e
                            },
                        )
                    },
                    Some(route),
                )
            } else {
                (self, None)
            },
            _ => (self, None),
        }
    }
}

/// The entries with `e` instead of what had its route.
pub open spec fn replaced(routes: Seq<RouteDirectoryEntry>, e: RouteDirectoryEntry) -> Seq<
    RouteDirectoryEntry,
> {
    Seq::new(
        routes.len(),
        |i: int|
            if routes[i].route == e.route {
                e
            } else {
                routes[i]
            },
    )
}

impl NetDirectory {
    pub open spec fn wf(self) -> bool {
        self@.wf()
    }

    /// A directory with the stacks of the loopback interface and of the first
    /// network card.
    pub fn new() -> (r: NetDirectory)
        ensures
            r.wf(),
            r@ == (DirectoryModel {
                stacks: seq![
                    DeviceStackCell { ifindex: 1, serial: 0, state: StackState::Active },
                    DeviceStackCell { ifindex: 2, serial: 1, state: StackState::Active },
                ],
                routes: Seq::empty(),
                bindings: Seq::empty(),
                next_route_id: 1,
                next_serial: 2,
            }),
    {
        let mut stacks: Vec<DeviceStackCell> = Vec::new();
        stacks.push(DeviceStackCell { ifindex: 1, serial: 0, state: StackState::Active });
        stacks.push(DeviceStackCell { ifindex: 2, serial: 1, state: StackState::Active });
        let r = NetDirectory {
            stacks,
            routes: Vec::new(),
            bindings: Vec::new(),
            next_route_id: 1,
            next_serial: 2,
        };
        assert(r@.stacks =~= seq![
            DeviceStackCell { ifindex: 1, serial: 0, state: StackState::Active },
            DeviceStackCell { ifindex: 2, serial: 1, state: StackState::Active },
        ]);
        r
    }

    /// The stack of an interface.
    pub fn stack_arc(&self, ifindex: u32) -> (r: Option<DeviceStackCell>)
        ensures
            r == self@.stack_at(ifindex),
    {
        let ghost p = at_interface(ifindex);
        let mut i: usize = 0;
        while i < self.stacks.len()
            invariant
                i <= self.stacks@.len(),
                p == at_interface(ifindex),
                forall|j: int| 0 <= j < i ==> !p(#[trigger] self.stacks@[j]),
            decreases self.stacks@.len() - i,
        {
            if self.stacks[i].ifindex == ifindex {
                proof {
                    seqs::lemma_find_first(self.stacks@, p, i as int);
                }
                return Some(self.stacks[i]);
            }
            i += 1;
        }
        proof {
            seqs::lemma_find_none(self.stacks@, p);
        }
        None
    }

    fn stack_of(&self, serial: u64) -> (r: Option<DeviceStackCell>)
        ensures
            r == self@.stack_by_serial(serial),
    {
        let ghost p = with_serial(serial);
        let mut i: usize = 0;
        while i < self.stacks.len()
            invariant
                i <= self.stacks@.len(),
                p == with_serial(serial),
                forall|j: int| 0 <= j < i ==> !p(#[trigger] self.stacks@[j]),
            decreases self.stacks@.len() - i,
        {
            if self.stacks[i].serial == serial {
                proof {
                    seqs::lemma_find_first(self.stacks@, p, i as int);
                }
                return Some(self.stacks[i]);
            }
            i += 1;
        }
        proof {
            seqs::lemma_find_none(self.stacks@, p);
        }
        None
    }

    fn entry_position(&self, route: RouteSocketHandle) -> (r: Option<usize>)
        ensures
            match r {
                Some(i) => i < self.routes@.len() && self.routes@[i as int].route == route
                    && self@.entry(route) == Some(self.routes@[i as int]),
                None => self@.entry(route) is None && forall|j: int|
                    0 <= j < self.routes@.len() ==> (#[trigger] self.routes@[j]).route != route,
            },
    {
        let ghost p = entry_of(route);
        let mut i: usize = 0;
        while i < self.routes.len()
            invariant
                i <= self.routes@.len(),
                p == entry_of(route),
                forall|j: int| 0 <= j < i ==> !p(#[trigger] self.routes@[j]),
            decreases self.routes@.len() - i,
        {
            if self.routes[i].route == route {
                proof {
                    seqs::lemma_find_first(self.routes@, p, i as int);
                }
                return Some(i);
            }
            i += 1;
        }
        proof {
            seqs::lemma_find_none(self.routes@, p);
            assert forall|j: int| 0 <= j < self.routes@.len() implies (
            #[trigger] self.routes@[j]).route != route by {
                assert(!p(self.routes@[j]));
            }
        }
        None
    }

    fn find_binding(&self, route: RouteSocketHandle) -> (r: Option<LocalSocketBinding>)
        ensures
            r == self@.binding(route),
    {
        let ghost p = binding_of(route);
        let mut i: usize = 0;
        while i < self.bindings.len()
            invariant
                i <= self.bindings@.len(),
                p == binding_of(route),
                forall|j: int| 0 <= j < i ==> !p(#[trigger] self.bindings@[j]),
            decreases self.bindings@.len() - i,
        {
            if self.bindings[i].route == route {
                proof {
                    seqs::lemma_find_first(self.bindings@, p, i as int);
                }
                return Some(self.bindings[i]);
            }
            i += 1;
        }
        proof {
            seqs::lemma_find_none(self.bindings@, p);
        }
        None
    }

    /// The stack that an active route of that protocol leads to.
    pub fn active_route_stack(&self, route: RouteSocketHandle, protocol: InetProtocol) -> (r: Option<
        DeviceStackCell,
    >)
        ensures
            r == self@.active_stack(route, protocol),
    {
        let i = match self.entry_position(route) {
            Some(i) => i,
            None => return None,
        };
        let e = self.routes[i];
        if e.state != RouteState::Active || e.protocol != protocol {
            return None;
        }
        self.stack_of(e.stack)
    }

    /// The interface that an active route leads to.
    pub fn routed_ifindex(&self, route: RouteSocketHandle) -> (r: Option<u32>)
        ensures
            r == match self@.entry(route) {
                Some(e) => if e.state == RouteState::Active {
                    match self@.stack_by_serial(e.stack) {
                        Some(s) => Some(s.ifindex),
                        None => None,
                    }
                } else {
                    None
                },
                None => None,
            },
    {
        let i = match self.entry_position(route) {
            Some(i) => i,
            None => return None,
        };
        let e = self.routes[i];
        if e.state != RouteState::Active {
            return None;
        }
        match self.stack_of(e.stack) {
            Some(s) => Some(s.ifindex),
            None => None,
        }
    }

    fn routed_socket(&self, route: RouteSocketHandle, protocol: InetProtocol) -> (r: Option<
        RoutedSocket,
    >)
        ensures
            r == self@.routed(route, protocol),
    {
        let s = match self.active_route_stack(route, protocol) {
            Some(s) => s,
            None => return None,
        };
        let b = match self.find_binding(route) {
            Some(b) => b,
            None => return None,
        };
        if b.stack != s.serial || b.protocol != protocol {
            return None;
        }
        Some(RoutedSocket { ifindex: s.ifindex, handle: b.handle })
    }

    /// The TCP socket that a route leads to.
    pub fn tcp_routed_socket(&self, route: RouteSocketHandle) -> (r: Option<RoutedSocket>)
        ensures
            r == self@.routed(route, InetProtocol::Tcp),
    {
        self.routed_socket(route, InetProtocol::Tcp)
    }

    /// The UDP socket that a route leads to.
    pub fn udp_routed_socket(&self, route: RouteSocketHandle) -> (r: Option<RoutedSocket>)
        ensures
            r == self@.routed(route, InetProtocol::Udp),
    {
        self.routed_socket(route, InetProtocol::Udp)
    }

    /// The raw socket that a route leads to.
    pub fn raw_routed_socket(&self, route: RouteSocketHandle) -> (r: Option<RoutedSocket>)
        ensures
            r == self@.routed(route, InetProtocol::Raw),
    {
        self.routed_socket(route, InetProtocol::Raw)
    }

    /// Whether the stack of an interface takes a socket.
    pub fn add_socket(&self, ifindex: u32) -> (r: bool)
        ensures
            r == match self@.stack_at(ifindex) {
                Some(s) => s.state == StackState::Active,
                None => false,
            },
    {
        match self.stack_arc(ifindex) {
            Some(s) => s.state == StackState::Active,
            None => false,
        }
    }

    /// Adds a stack for an interface; one that was there is dropped with its
    /// sockets. Nothing happens once the serial numbers are used up.
    pub fn add_veth_stack(&mut self, ifindex: u32) -> (r: bool)
        requires
            old(self).wf(),
        ensures
            final(self).wf(),
            r == (old(self)@.next_serial < u64::MAX),
            final(self)@ == if r {
                old(self)@.with_stack(ifindex)
            } else {
                old(self)@
            },
    {
        if self.next_serial == u64::MAX {
            return false;
        }
        let ghost before = self@;
        match self.stack_arc(ifindex) {
            Some(old_stack) => {
                self.drop_bindings(old_stack.serial);
            },
            None => {},
        }
        let s = DeviceStackCell { ifindex, serial: self.next_serial, state: StackState::Active };
        self.next_serial = self.next_serial + 1;
        proof {
            lemma_placed(self.stacks@, s, before.next_serial);
        }
        place_stack(&mut self.stacks, s);
        assert(self@ =~= before.with_stack(ifindex));
        true
    }

    fn drop_bindings(&mut self, serial: u64)
        ensures
            final(self)@ == (DirectoryModel {
                bindings: old(self)@.bindings.filter(bound_off(serial)),
                ..old(self)@
            }),
            old(self).wf() ==> final(self).wf(),
    {
        let ghost p = bound_off(serial);
        let mut kept: Vec<LocalSocketBinding> = Vec::new();
        let mut i: usize = 0;
        proof {
            reveal(Seq::filter);
        }
        while i < self.bindings.len()
            invariant
                i <= self.bindings@.len(),
                p == bound_off(serial),
                kept@ == self.bindings@.take(i as int).filter(p),
            decreases self.bindings@.len() - i,
        {
            proof {
                seqs::lemma_filter_step(self.bindings@, p, i as int);
            }
            if self.bindings[i].stack != serial {
                kept.push(self.bindings[i]);
            }
            i += 1;
        }
        proof {
            assert(self.bindings@.take(i as int) =~= self.bindings@);
            seqs::lemma_filter_elements(self.bindings@, p);
        }
        self.bindings = kept;
    }

    fn unbind(&mut self, route: RouteSocketHandle)
        ensures
            final(self)@ == (DirectoryModel {
                bindings: old(self)@.bindings.filter(unbound_from(route)),
                ..old(self)@
            }),
            old(self).wf() ==> final(self).wf(),
    {
        let ghost p = unbound_from(route);
        let mut kept: Vec<LocalSocketBinding> = Vec::new();
        let mut i: usize = 0;
        proof {
            reveal(Seq::filter);
        }
        while i < self.bindings.len()
            invariant
                i <= self.bindings@.len(),
                p == unbound_from(route),
                kept@ == self.bindings@.take(i as int).filter(p),
            decreases self.bindings@.len() - i,
        {
            proof {
                seqs::lemma_filter_step(self.bindings@, p, i as int);
            }
            if self.bindings[i].route != route {
                kept.push(self.bindings[i]);
            }
            i += 1;
        }
        proof {
            assert(self.bindings@.take(i as int) =~= self.bindings@);
            seqs::lemma_filter_elements(self.bindings@, p);
        }
        self.bindings = kept;
    }

    /// Drops the stack of an interface, with every socket on it and every
    /// route to them.
    pub fn remove_veth_stack(&mut self, ifindex: u32)
        requires
            old(self).wf(),
        ensures
            final(self).wf(),
            final(self)@ == old(self)@.without_stack(ifindex),
    {
        let s = match self.stack_arc(ifindex) {
            Some(s) => s,
            None => return,
        };
        let ghost before = self@;
        self.drop_bindings(s.serial);
        self.drop_routes(s.serial);
        let ghost p = other_interface(ifindex);
        let mut kept: Vec<DeviceStackCell> = Vec::new();
        let mut i: usize = 0;
        proof {
            reveal(Seq::filter);
        }
        while i < self.stacks.len()
            invariant
                i <= self.stacks@.len(),
                p == other_interface(ifindex),
                kept@ == self.stacks@.take(i as int).filter(p),
            decreases self.stacks@.len() - i,
        {
            proof {
                seqs::lemma_filter_step(self.stacks@, p, i as int);
            }
            if self.stacks[i].ifindex != ifindex {
                kept.push(self.stacks[i]);
            }
            i += 1;
        }
        proof {
            assert(self.stacks@.take(i as int) =~= self.stacks@);
            lemma_filter_stacks(self.stacks@, p, before.next_serial);
        }
        self.stacks = kept;
    }

    fn drop_routes(&mut self, serial: u64)
        requires
            old(self).wf(),
        ensures
            final(self).wf(),
            final(self)@ == (DirectoryModel {
                routes: old(self)@.routes.filter(off_stack(serial)),
                ..old(self)@
            }),
    {
        let ghost p = off_stack(serial);
        let mut kept: Vec<RouteDirectoryEntry> = Vec::new();
        let mut i: usize = 0;
        proof {
            reveal(Seq::filter);
        }
        while i < self.routes.len()
            invariant
                i <= self.routes@.len(),
                p == off_stack(serial),
                kept@ == self.routes@.take(i as int).filter(p),
            decreases self.routes@.len() - i,
        {
            proof {
                seqs::lemma_filter_step(self.routes@, p, i as int);
            }
            if self.routes[i].stack != serial {
                kept.push(self.routes[i]);
            }
            i += 1;
        }
        proof {
            assert(self.routes@.take(i as int) =~= self.routes@);
            seqs::lemma_filter_elements(self.routes@, p);
            lemma_filter_routes(self.routes@, p);
        }
        self.routes = kept;
    }

    /// The interfaces that have a stack, in ascending order.
    pub fn stack_ifindexes(&self) -> (r: Vec<u32>)
        ensures
            r@ == Seq::new(self@.stacks.len(), |i: int| self@.stacks[i].ifindex),
    {
        let mut out: Vec<u32> = Vec::new();
        let mut i: usize = 0;
        while i < self.stacks.len()
            invariant
                i <= self.stacks@.len(),
                out@ == Seq::new(i as nat, |j: int| self.stacks@[j].ifindex),
            decreases self.stacks@.len() - i,
        {
            out.push(self.stacks[i].ifindex);
            i += 1;
            assert(out@ =~= Seq::new(i as nat, |j: int| self.stacks@[j].ifindex));
        }
        out
    }

    /// Records a socket that the stack of an interface has taken as `handle`,
    /// and gives it a route.
    pub fn add_routed_socket_on(&mut self, proto: InetProtocol, ifindex: u32, handle: usize) -> (r:
        Option<RouteSocketHandle>)
        requires
            old(self).wf(),
        ensures
            final(self).wf(),
            (final(self)@, r) == old(self)@.with_socket(proto, ifindex, handle),
    {
        let s = match self.stack_arc(ifindex) {
            Some(s) => s,
            None => return None,
        };
        if self.next_route_id == usize::MAX {
            return None;
        }
        let route = RouteSocketHandle(self.next_route_id);
        self.next_route_id = self.next_route_id + 1;
        if s.state != StackState::Active {
            return None;
        }
        self.bindings.push(
            LocalSocketBinding { route, stack: s.serial, handle, protocol: proto },
        );
        self.routes.push(
            RouteDirectoryEntry {
                route,
                stack: s.serial,
                protocol: proto,
                state: RouteState::Active,
            },
        );
        Some(route)
    }

    /// The interface whose stack takes the sockets that are bound to none.
    pub fn default_ifindex(ns: &NetNamespace) -> (r: u32)
        ensures
            r == match net_core::spec_default_iface(ns.devs()) {
                Some(d) => d.nic_id,
                None => 1,
            },
    {
        match net_core::default_iface(ns) {
            Some(d) => d.nic_id,
            None => 1,
        }
    }

    /// The same for a socket that is bound to no interface.
    pub fn add_routed_socket(&mut self, ns: &NetNamespace, proto: InetProtocol, handle: usize) -> (r:
        Option<RouteSocketHandle>)
        requires
            old(self).wf(),
        ensures
            final(self).wf(),
            (final(self)@, r) == old(self)@.with_socket(
                proto,
                match net_core::spec_default_iface(ns.devs()) {
                    Some(d) => d.nic_id,
                    None => 1,
                },
                handle,
            ),
    {
        let ifindex = Self::default_ifindex(ns);
        self.add_routed_socket_on(proto, ifindex, handle)
    }

    /// Forgets a route; returns the socket that its stack has to drop.
    pub fn remove_routed(&mut self, route: RouteSocketHandle) -> (r: Option<RoutedSocket>)
        requires
            old(self).wf(),
        ensures
            final(self).wf(),
            (final(self)@, r) == old(self)@.without_route(route),
    {
        let i = match self.entry_position(route) {
            Some(i) => i,
            None => return None,
        };
        let e = self.routes[i];
        let stack = self.stack_of(e.stack);
        let bound = self.find_binding(route);
        self.drop_route(route);
        match (stack, bound) {
            (Some(s), Some(b)) => {
                if b.stack == s.serial {
                    self.unbind(route);
                    return Some(RoutedSocket { ifindex: s.ifindex, handle: b.handle });
                }
                None
            },
            _ => None,
        }
    }

    fn drop_route(&mut self, route: RouteSocketHandle)
        requires
            old(self).wf(),
        ensures
            final(self).wf(),
            final(self)@ == (DirectoryModel {
                routes: old(self)@.routes.filter(other_route(route)),
                ..old(self)@
            }),
    {
        let ghost p = other_route(route);
        let mut kept: Vec<RouteDirectoryEntry> = Vec::new();
        let mut i: usize = 0;
        proof {
            reveal(Seq::filter);
        }
        while i < self.routes.len()
            invariant
                i <= self.routes@.len(),
                p == other_route(route),
                kept@ == self.routes@.take(i as int).filter(p),
            decreases self.routes@.len() - i,
        {
            proof {
                seqs::lemma_filter_step(self.routes@, p, i as int);
            }
            if self.routes[i].route != route {
                kept.push(self.routes[i]);
            }
            i += 1;
        }
        proof {
            assert(self.routes@.take(i as int) =~= self.routes@);
            seqs::lemma_filter_elements(self.routes@, p);
            lemma_filter_routes(self.routes@, p);
        }
        self.routes = kept;
    }

    fn set_entry(&mut self, i: usize, e: RouteDirectoryEntry)
        requires
            old(self).wf(),
            i < old(self)@.routes.len(),
            old(self)@.routes[i as int].route == e.route,
        ensures
            final(self).wf(),
            final(self)@ == old(self)@.with_entry(e),
    {
        let ghost before = self.routes@;
        self.routes.set(i, e);
        proof {
            assert forall|j: int| 0 <= j < before.len() implies (j != i ==> (
            #[trigger] before[j]).route != e.route) by {
                if j < i {
                    assert(before[j].route.0 < before[i as int].route.0);
                } else if j > i {
                    assert(before[i as int].route.0 < before[j].route.0);
                }
            }
            assert(self.routes@ =~= replaced(before, e));
        }
    }

    /// Begins to move a UDP socket to the stack of another interface.
    pub fn rebind_routed_udp(&mut self, route: RouteSocketHandle, new_ifindex: u32) -> (r: RebindStep)
        requires
            old(self).wf(),
        ensures
            final(self).wf(),
            (final(self)@, r) == old(self)@.moving(route, new_ifindex),
    {
        let i = match self.entry_position(route) {
            Some(i) => i,
            None => return RebindStep::Refused,
        };
        let source = match self.active_route_stack(route, InetProtocol::Udp) {
            Some(s) => s,
            None => return RebindStep::Refused,
        };
        if source.ifindex == new_ifindex {
            return RebindStep::There;
        }
        let target = match self.stack_arc(new_ifindex) {
            Some(t) => t,
            None => return RebindStep::Refused,
        };
        if target.state != StackState::Active {
            return RebindStep::Refused;
        }
        let binding = self.find_binding(route);
        let mut e = self.routes[i];
        e.state = RouteState::Migrating;
        self.set_entry(i, e);
        let b = match binding {
            Some(b) => b,
            None => return RebindStep::Refused,
        };
        if b.stack != source.serial {
            return RebindStep::Refused;
        }
        self.unbind(route);
        if b.protocol != InetProtocol::Udp {
            return RebindStep::Refused;
        }
        RebindStep::Move {
            from: Some(RoutedSocket { ifindex: source.ifindex, handle: b.handle }),
        }
    }

    /// Ends the move: `handle` is the new socket on the other stack.
    pub fn finish_rebind(&mut self, route: RouteSocketHandle, new_ifindex: u32, handle: usize) -> (r:
        Option<RouteSocketHandle>)
        requires
            old(self).wf(),
        ensures
            final(self).wf(),
            (final(self)@, r) == old(self)@.moved(route, new_ifindex, handle),
    {
        let i = match self.entry_position(route) {
            Some(i) => i,
            None => return None,
        };
        let target = match self.stack_arc(new_ifindex) {
            Some(t) => t,
            None => return None,
        };
        let mut e = self.routes[i];
        if e.state != RouteState::Migrating || target.state != StackState::Active {
            return None;
        }
        e.stack = target.serial;
        e.state = RouteState::Active;
        self.set_entry(i, e);
        self.unbind(route);
        self.bindings.push(
            LocalSocketBinding {
                route,
                stack: target.serial,
                handle,
                protocol: InetProtocol::Udp,
            },
        );
        Some(route)
    }
}

/// How many sockets there are: TCP, UDP, raw, and those that wait for their
/// removal. `udp` is the number of UDP sockets of each stack.
pub fn socket_stats(
    tcp: usize,
    udp: &Vec<usize>,
    raw: usize,
    tcp_removals: usize,
    udp_removals: usize,
) -> (r: (usize, usize, usize, usize))
    requires
        total(udp@) <= usize::MAX,
        tcp_removals + udp_removals <= usize::MAX,
    ensures
        r == (tcp, total(udp@) as usize, raw, (tcp_removals + udp_removals) as usize),
{
    let mut sum: usize = 0;
    let mut i: usize = 0;
    assert(udp@.take(0) =~= Seq::<usize>::empty());
    while i < udp.len()
        invariant
            i <= udp@.len(),
            sum == total(udp@.take(i as int)),
            total(udp@) <= usize::MAX,
        decreases udp@.len() - i,
    {
        proof {
            assert(udp@.take(i + 1).drop_last() =~= udp@.take(i as int));
            lemma_total_prefix(udp@, i + 1);
        }
        sum = sum + udp[i];
        i += 1;
    }
    assert(udp@.take(i as int) =~= udp@);
    (tcp, sum, raw, tcp_removals + udp_removals)
}

pub open spec fn total(s: Seq<usize>) -> int
    decreases s.len(),
{
    if s.len() == 0 {
        0
    } else {
        total(s.drop_last()) + s.last()
    }
}

proof fn lemma_total_prefix(s: Seq<usize>, n: int)
    requires
        0 <= n <= s.len(),
    ensures
        0 <= total(s.take(n)) <= total(s),
    decreases s.len(),
{
    if n < s.len() {
        assert(s.drop_last().take(n) =~= s.take(n));
        lemma_total_prefix(s.drop_last(), n);
    } else {
        assert(s.take(n) =~= s);
        if n > 0 {
            assert(s.drop_last().take(n - 1) =~= s.drop_last());
            lemma_total_prefix(s.drop_last(), n - 1);
        }
    }
}

/// The stack that was found at an interface is the one with its serial number.
proof fn lemma_serial_is_unique(m: DirectoryModel, ifindex: u32)
    requires
        m.wf(),
        m.stack_at(ifindex) is Some,
    ensures
        m.stack_by_serial(m.stack_at(ifindex)->0.serial) == m.stack_at(ifindex),
        m.stack_at(ifindex)->0.ifindex == ifindex,
{
    let s = m.stack_at(ifindex)->0;
    let p = with_serial(s.serial);
    seqs::lemma_found(m.stacks, at_interface(ifindex));
    let i = choose|i: int| 0 <= i < m.stacks.len() && m.stacks[i] == s;
    assert forall|j: int| 0 <= j < i implies !p(#[trigger] m.stacks[j]) by {
        assert(m.stacks[j].serial != m.stacks[i].serial);
    }
    seqs::lemma_find_first(m.stacks, p, i);
}

/// A new socket gets a route that was never given, the route leads to it, and
/// the other routes lead where they led.
pub proof fn law_route_leads_to_its_socket(
    m: DirectoryModel,
    protocol: InetProtocol,
    ifindex: u32,
    handle: usize,
    other: RouteSocketHandle,
    p: InetProtocol,
)
    requires
        m.wf(),
        m.with_socket(protocol, ifindex, handle).1 is Some,
    ensures
        ({
            let (after, r) = m.with_socket(protocol, ifindex, handle);
            let route = r->0;
            &&& m.entry(route) is None
            &&& after.routed(route, protocol) == Some(RoutedSocket { ifindex, handle })
            &&& other != route ==> after.routed(other, p) == m.routed(other, p)
        }),
{
    let (after, r) = m.with_socket(protocol, ifindex, handle);
    let route = r->0;
    lemma_serial_is_unique(m, ifindex);
    assert forall|j: int| 0 <= j < m.routes.len() implies !entry_of(route)(#[trigger] m.routes[j]) by {
        assert(m.routes[j].route.0 < m.next_route_id);
    }
    seqs::lemma_find_none(m.routes, entry_of(route));
    let n = m.routes.len() as int;
    assert forall|j: int| 0 <= j < n implies !entry_of(route)(#[trigger] after.routes[j]) by {
        assert(after.routes[j] == m.routes[j]);
    }
    assert(entry_of(route)(after.routes[n]));
    seqs::lemma_find_first(after.routes, entry_of(route), n);
    let k = m.bindings.len() as int;
    assert forall|j: int| 0 <= j < k implies !binding_of(route)(#[trigger] after.bindings[j]) by {
        assert(after.bindings[j] == m.bindings[j]);
        assert(m.bindings[j].route.0 < m.next_route_id);
    }
    assert(binding_of(route)(after.bindings[k]));
    seqs::lemma_find_first(after.bindings, binding_of(route), k);
    if other != route {
        lemma_find_in_push(m.routes, after.routes[n], entry_of(other));
        lemma_find_in_push(m.bindings, after.bindings[k], binding_of(other));
    }
}

proof fn lemma_find_in_push<T>(s: Seq<T>, x: T, p: spec_fn(T) -> bool)
    requires
        !p(x),
    ensures
        seqs::find_first(s.push(x), p) == seqs::find_first(s, p),
{
    let t = s.push(x);
    seqs::lemma_first_index_found(s, p);
    match seqs::first_index(s, p) {
        Some(i) => {
            seqs::lemma_find_first(s, p, i);
            assert(t[i] == s[i]);
            assert forall|j: int| 0 <= j < i implies !p(#[trigger] t[j]) by {
                assert(t[j] == s[j]);
            }
            seqs::lemma_find_first(t, p, i);
        },
        None => {
            seqs::lemma_find_none(s, p);
            assert forall|j: int| 0 <= j < t.len() implies !p(#[trigger] t[j]) by {
                if j < s.len() {
                    assert(t[j] == s[j]);
                }
            }
            seqs::lemma_find_none(t, p);
        },
    }
}

proof fn lemma_find_after_filter<T>(s: Seq<T>, keep: spec_fn(T) -> bool, p: spec_fn(T) -> bool)
    requires
        forall|x: T| #[trigger] p(x) ==> !keep(x),
    ensures
        seqs::find_first(s.filter(keep), p) is None,
{
    seqs::lemma_filter_elements(s, keep);
    let f = s.filter(keep);
    assert forall|j: int| 0 <= j < f.len() implies !p(#[trigger] f[j]) by {
        assert(keep(f[j]));
    }
    seqs::lemma_find_none(f, p);
}

/// A route that was removed leads nowhere.
pub proof fn law_removed_route_is_gone(m: DirectoryModel, route: RouteSocketHandle, protocol: InetProtocol)
    requires
        m.wf(),
    ensures
        m.without_route(route).0.entry(route) is None,
        m.without_route(route).0.routed(route, protocol) is None,
{
    lemma_find_after_filter(m.routes, other_route(route), entry_of(route));
}

/// Once the stack of an interface is removed, no route leads to a socket that
/// was on it.
pub proof fn law_removed_stack_leads_nowhere(
    m: DirectoryModel,
    ifindex: u32,
    route: RouteSocketHandle,
    protocol: InetProtocol,
)
    requires
        m.wf(),
        m.routed(route, protocol) is Some,
        m.routed(route, protocol)->0.ifindex == ifindex,
    ensures
        m.without_stack(ifindex).routed(route, protocol) is None,
        m.without_stack(ifindex).stack_at(ifindex) is None,
{
    let e = m.entry(route)->0;
    let s = m.stack_by_serial(e.stack)->0;
    seqs::lemma_found(m.stacks, with_serial(e.stack));
    let i = choose|i: int| 0 <= i < m.stacks.len() && m.stacks[i] == s;
    let q = at_interface(ifindex);
    assert forall|j: int| 0 <= j < i implies !q(#[trigger] m.stacks[j]) by {
        assert(m.stacks[j].ifindex < m.stacks[i].ifindex);
    }
    seqs::lemma_find_first(m.stacks, q, i);
    let after = m.without_stack(ifindex);
    lemma_find_after_filter(m.stacks, other_interface(ifindex), q);
    seqs::lemma_filter_elements(m.routes, off_stack(s.serial));
    seqs::lemma_found(m.routes, entry_of(route));
    let k = choose|k: int| 0 <= k < m.routes.len() && m.routes[k] == e;
    assert forall|j: int| 0 <= j < after.routes.len() implies !entry_of(route)(
        #[trigger] after.routes[j],
    ) by {
        let x = after.routes[j];
        assert(off_stack(s.serial)(x));
        let n = choose|n: int| 0 <= n < m.routes.len() && m.routes[n] == x;
        if x.route == route {
            if n < k {
                assert(m.routes[n].route.0 < m.routes[k].route.0);
            } else if k < n {
                assert(m.routes[k].route.0 < m.routes[n].route.0);
            }
        }
    }
    seqs::lemma_find_none(after.routes, entry_of(route));
}

/// While a UDP socket moves to another stack its route leads nowhere; then it
/// leads to the new socket. Refusing to move a socket that is there changes
/// nothing.
pub proof fn law_rebind_moves_the_route(
    m: DirectoryModel,
    route: RouteSocketHandle,
    ifindex: u32,
    handle: usize,
    protocol: InetProtocol,
)
    requires
        m.wf(),
    ensures
        ({
            let (between, step) = m.moving(route, ifindex);
            let (after, r) = between.moved(route, ifindex, handle);
            &&& step is There ==> between == m
            &&& step is Refused && m.routed(route, InetProtocol::Udp) is Some ==> between == m
            &&& step is Move ==> {
                &&& between.routed(route, protocol) is None
                &&& r == Some(route)
                &&& after.routed(route, InetProtocol::Udp) == Some(
                    RoutedSocket { ifindex, handle },
                )
            }
        }),
{
    let (between, step) = m.moving(route, ifindex);
    let (after, r) = between.moved(route, ifindex, handle);
    if step is Move {
        let e = m.entry(route)->0;
        let mid = RouteDirectoryEntry { state: RouteState::Migrating, ..e };
        seqs::lemma_found(m.routes, entry_of(route));
        assert(e.route == route);
        lemma_serial_is_unique(m, ifindex);
        lemma_entry_replaced(m, mid);
        let target = m.stack_at(ifindex)->0;
        let end = RouteDirectoryEntry {
            stack: target.serial,
            state: RouteState::Active,
            ..mid
        };
        lemma_entry_of_replaced(between.routes, end);
        let kept = between.bindings.filter(unbound_from(route));
        seqs::lemma_filter_elements(between.bindings, unbound_from(route));
        let n = kept.len() as int;
        assert forall|j: int| 0 <= j < n implies !binding_of(route)(#[trigger] after.bindings[j]) by {
            assert(after.bindings[j] == kept[j]);
            assert(unbound_from(route)(kept[j]));
        }
        assert(binding_of(route)(after.bindings[n]));
        seqs::lemma_find_first(after.bindings, binding_of(route), n);
    }
}

proof fn lemma_entry_replaced(m: DirectoryModel, e: RouteDirectoryEntry)
    requires
        m.entry(e.route) is Some,
    ensures
        m.with_entry(e).entry(e.route) == Some(e),
{
    lemma_entry_of_replaced(m.routes, e);
}

proof fn lemma_entry_of_replaced(routes: Seq<RouteDirectoryEntry>, e: RouteDirectoryEntry)
    requires
        seqs::find_first(routes, entry_of(e.route)) is Some,
    ensures
        seqs::find_first(replaced(routes, e), entry_of(e.route)) == Some(e),
{
    let p = entry_of(e.route);
    seqs::lemma_first_index_found(routes, p);
    if seqs::first_index(routes, p) is None {
        seqs::lemma_find_none(routes, p);
    }
    let i = seqs::first_index(routes, p)->0;
    let t = replaced(routes, e);
    assert(t[i] == e);
    assert forall|j: int| 0 <= j < i implies !p(#[trigger] t[j]) by {
        assert(!p(routes[j]));
        assert(t[j] == routes[j]);
    }
    seqs::lemma_find_first(t, p, i);
}

} // verus!
