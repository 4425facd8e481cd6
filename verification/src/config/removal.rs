//! Sockets that wait to be removed from their stacks.
//!
//! A TCP connection takes a while to close. Until it has closed, or its time
//! is up, it waits in a queue.
use vstd::prelude::*;
use crate::routing::RouteSocketHandle;
use crate::socket::inet::stream::inner::{TcpOp, TcpOrder, TcpState};

verus! {

/// How long a connection may take to close, in microseconds.
pub const TCP_REMOVAL_GRACE: u64 = 15_000_000;

/// A connection that closes.
#[derive(Clone, Copy, Debug, PartialEq, Eq, Structural)]
pub struct TcpSocketRemoval {
    pub route: RouteSocketHandle,
    /// When its time is up, in microseconds.
    pub deadline: u64,
    pub close_started: bool,
    /// Whether it is aborted rather than closed, if there is a connection.
    pub abort_if_active: bool,
}

/// What becomes of a connection that closes.
#[derive(Clone, Copy, Debug, PartialEq, Eq, Structural)]
pub enum RemovalStep {
    /// It has closed, or nobody knows it any more.
    Remove(RouteSocketHandle),
    /// Its time is up.
    AbortAndRemove(RouteSocketHandle),
}

pub open spec fn holds_route(q: Seq<TcpSocketRemoval>, route: RouteSocketHandle) -> bool {
    exists|i: int| 0 <= i < q.len() && (#[trigger] q[i]).route == route
}

/// The queue with one more removal. One of the same route takes the earlier
/// deadline and the stricter end.
pub open spec fn joined(q: Seq<TcpSocketRemoval>, r: TcpSocketRemoval) -> Seq<TcpSocketRemoval>
    decreases q.len(),
{
    if q.len() == 0 {
        seq![r]
    } else if q[0].route == r.route {
        seq![
            TcpSocketRemoval {
                deadline: if q[0].deadline < r.deadline {
                    q[0].deadline
                } else {
                    r.deadline
                },
                abort_if_active: q[0].abort_if_active || r.abort_if_active,
                ..q[0]
            },
        ] + q.drop_first()
    } else {
        seq![q[0]] + joined(q.drop_first(), r)
    }
}

/// Queues the removal of a UDP socket, unless it is queued.
pub fn enqueue_udp_socket_removal(queue: &mut Vec<RouteSocketHandle>, route: RouteSocketHandle) -> (r:
    bool)
    ensures
        r == !old(queue)@.contains(route),
        final(queue)@ == if r {
            old(queue)@.push(route)
        } else {
            old(queue)@
        },
{
    let mut i: usize = 0;
    while i < queue.len()
        invariant
            i <= queue@.len(),
            *queue == *old(queue),
            forall|j: int| 0 <= j < i ==> queue@[j] != route,
        decreases queue@.len() - i,
    {
        if queue[i] == route {
            assert(queue@[i as int] == route);
            return false;
        }
        i += 1;
    }
    queue.push(route);
    true
}

/// Adds a removal to the queue; says whether its route is new there.
fn join_removal(queue: &mut Vec<TcpSocketRemoval>, removal: TcpSocketRemoval) -> (r: bool)
    ensures
        final(queue)@ == joined(old(queue)@, removal),
        r == !holds_route(old(queue)@, removal.route),
{
    let ghost q = queue@;
    let mut i: usize = 0;
    assert(q.skip(0) =~= q);
    assert(q.take(0) + joined(q, removal) =~= joined(q, removal));
    while i < queue.len()
        invariant
            i <= queue@.len(),
            queue@ == q,
            q == old(queue)@,
            forall|j: int| 0 <= j < i ==> (#[trigger] q[j]).route != removal.route,
            joined(q, removal) == q.take(i as int) + joined(q.skip(i as int), removal),
        decreases queue@.len() - i,
    {
        let ghost rest = q.skip(i as int);
        assert(rest[0] == q[i as int]);
        assert(rest.drop_first() =~= q.skip(i + 1));
        if queue[i].route == removal.route {
            let mut existing = queue[i];
            if removal.deadline < existing.deadline {
                existing.deadline = removal.deadline;
            }
            existing.abort_if_active = existing.abort_if_active || removal.abort_if_active;
            queue.set(i, existing);
            assert(queue@ =~= q.take(i as int) + (seq![existing] + rest.drop_first()));
            assert(q[i as int].route == removal.route);
            return false;
        }
        assert(q.take(i as int) + (seq![rest[0]] + joined(q.skip(i + 1), removal)) =~= q.take(i + 1)
            + joined(q.skip(i + 1), removal));
        i += 1;
    }
    assert(q.skip(i as int) =~= Seq::<TcpSocketRemoval>::empty());
    assert(q.take(i as int) =~= q);
    queue.push(removal);
    assert(queue@ =~= q + seq![removal]);
    true
}

/// Queues the removal of a TCP socket. The earliest deadline counts.
pub fn enqueue_tcp_socket_removal(
    queue: &mut Vec<TcpSocketRemoval>,
    route: RouteSocketHandle,
    abort_if_active: bool,
    now: u64,
) -> (r: bool)
    requires
        now + TCP_REMOVAL_GRACE <= u64::MAX,
    ensures
        r == !holds_route(old(queue)@, route),
        final(queue)@ == joined(
            old(queue)@,
            TcpSocketRemoval {
                route,
                deadline: (now + TCP_REMOVAL_GRACE) as u64,
                close_started: false,
                abort_if_active,
            },
        ),
{
    join_removal(
        queue,
        TcpSocketRemoval {
            route,
            deadline: now + TCP_REMOVAL_GRACE,
            close_started: false,
            abort_if_active,
        },
    )
}

/// The removal once its close has begun; a connection that the stack does not
/// know stays as it is.
pub open spec fn begun(r: TcpSocketRemoval, state: Option<TcpState>) -> TcpSocketRemoval {
    TcpSocketRemoval { close_started: r.close_started || state is Some, ..r }
}

/// What the stack does to begin the close of each connection.
pub open spec fn begin_orders(q: Seq<TcpSocketRemoval>, states: Seq<Option<TcpState>>) -> Seq<TcpOrder>
    decreases q.len(),
{
    if q.len() == 0 {
        Seq::empty()
    } else {
        let rest = begin_orders(q.drop_last(), states);
        let r = q.last();
        match states[q.len() - 1] {
            Some(s) => if r.close_started {
                rest
            } else {
                rest.push(
                    TcpOrder {
                        handle: r.route,
                        op: if r.abort_if_active && s.spec_is_active() {
                            TcpOp::Abort
                        } else {
                            TcpOp::Close
                        },
                    },
                )
            },
            None => rest,
        }
    }
}

/// Begins the close of every connection in the queue. `states` is the stack's
/// word on each.
pub fn begin_socket_removals(queue: &mut Vec<TcpSocketRemoval>, states: &Vec<Option<TcpState>>) -> (r:
    Vec<TcpOrder>)
    requires
        states@.len() == old(queue)@.len(),
    ensures
        r@ == begin_orders(old(queue)@, states@),
        final(queue)@ == Seq::new(old(queue)@.len(), |i: int| begun(old(queue)@[i], states@[i])),
{
    let ghost q = queue@;
    let mut orders: Vec<TcpOrder> = Vec::new();
    let mut i: usize = 0;
    assert(q.take(0) =~= Seq::<TcpSocketRemoval>::empty());
    while i < queue.len()
        invariant
            i <= queue@.len(),
            queue@.len() == q.len(),
            states@.len() == q.len(),
            forall|j: int| 0 <= j < i ==> #[trigger] queue@[j] == begun(q[j], states@[j]),
            forall|j: int| i <= j < q.len() ==> #[trigger] queue@[j] == q[j],
            orders@ == begin_orders(q.take(i as int), states@),
        decreases queue@.len() - i,
    {
        assert(q.take(i + 1).drop_last() =~= q.take(i as int));
        assert(q.take(i + 1).last() == q[i as int]);
        let mut removal = queue[i];
        match &states[i] {
            Some(s) => {
                if !removal.close_started {
                    let op = if removal.abort_if_active && s.is_active() {
                        TcpOp::Abort
                    } else {
                        TcpOp::Close
                    };
                    orders.push(TcpOrder { handle: removal.route, op });
                    removal.close_started = true;
                }
            },
            None => {},
        }
        queue.set(i, removal);
        i += 1;
    }
    assert(q.take(i as int) =~= q);
    assert(queue@ =~= Seq::new(q.len(), |i: int| begun(q[i], states@[i])));
    orders
}

/// What becomes of a connection: nothing, while it closes and has time left.
pub open spec fn removal_end(r: TcpSocketRemoval, state: Option<TcpState>, now: u64) -> Option<RemovalStep> {
    if state is None || state->0 is Closed {
        Some(RemovalStep::Remove(r.route))
    } else if now >= r.deadline {
        Some(RemovalStep::AbortAndRemove(r.route))
    } else {
        None
    }
}

/// The connections that go on closing.
pub open spec fn still_closing(q: Seq<TcpSocketRemoval>, states: Seq<Option<TcpState>>, now: u64) -> Seq<
    TcpSocketRemoval,
>
    decreases q.len(),
{
    if q.len() == 0 {
        Seq::empty()
    } else {
        let rest = still_closing(q.drop_last(), states, now);
        if removal_end(q.last(), states[q.len() - 1], now) is None {
            joined(rest, q.last())
        } else {
            rest
        }
    }
}

/// The connections that are over, in turn.
pub open spec fn removal_steps(q: Seq<TcpSocketRemoval>, states: Seq<Option<TcpState>>, now: u64) -> Seq<
    RemovalStep,
>
    decreases q.len(),
{
    if q.len() == 0 {
        Seq::empty()
    } else {
        let rest = removal_steps(q.drop_last(), states, now);
        match removal_end(q.last(), states[q.len() - 1], now) {
            Some(step) => rest.push(step),
            None => rest,
        }
    }
}

/// Takes the connections that are over out of the queue. `states` is the
/// stack's word on each, once their close has begun. Says what to do with
/// them, and whether any go on closing.
pub fn drain_pending_socket_removals(
    queue: &mut Vec<TcpSocketRemoval>,
    states: &Vec<Option<TcpState>>,
    now: u64,
) -> (r: (Vec<RemovalStep>, bool))
    requires
        states@.len() == old(queue)@.len(),
    ensures
        r.0@ == removal_steps(old(queue)@, states@, now),
        final(queue)@ == still_closing(old(queue)@, states@, now),
        r.1 == (final(queue)@.len() > 0),
{
    let ghost q = queue@;
    let mut steps: Vec<RemovalStep> = Vec::new();
    let mut kept: Vec<TcpSocketRemoval> = Vec::new();
    let mut i: usize = 0;
    assert(q.take(0) =~= Seq::<TcpSocketRemoval>::empty());
    while i < queue.len()
        invariant
            i <= queue@.len(),
            queue@ == q,
            states@.len() == q.len(),
            steps@ == removal_steps(q.take(i as int), states@, now),
            kept@ == still_closing(q.take(i as int), states@, now),
        decreases queue@.len() - i,
    {
        assert(q.take(i + 1).drop_last() =~= q.take(i as int));
        assert(q.take(i + 1).last() == q[i as int]);
        let removal = queue[i];
        let closed = match &states[i] {
            Some(s) => matches!(s, TcpState::Closed),
            None => true,
        };
        if closed {
            steps.push(RemovalStep::Remove(removal.route));
        } else if now >= removal.deadline {
            steps.push(RemovalStep::AbortAndRemove(removal.route));
        } else {
            let _ = join_removal(&mut kept, removal);
        }
        i += 1;
    }
    assert(q.take(i as int) =~= q);
    *queue = kept;
    let pending = queue.len() > 0;
    (steps, pending)
}

/// The earliest of some times.
pub open spec fn earliest(s: Seq<u64>) -> Option<u64>
    decreases s.len(),
{
    if s.len() == 0 {
        None
    } else {
        match earliest(s.drop_last()) {
            Some(t) => Some(
                if t < s.last() {
                    t
                } else {
                    s.last()
                },
            ),
            None => Some(s.last()),
        }
    }
}

pub open spec fn deadlines(q: Seq<TcpSocketRemoval>) -> Seq<u64> {
    Seq::new(q.len(), |i: int| q[i].deadline)
}

/// When the stacks have to run again for the connections that close: when the
/// stacks themselves want to, or when the first connection's time is up, and
/// not before now.
pub open spec fn next_cleanup(q: Seq<TcpSocketRemoval>, protocol: Seq<u64>, now: u64) -> Option<u64> {
    match earliest(deadlines(q)) {
        None => None,
        Some(forced) => {
            let first = match earliest(protocol) {
                Some(t) => if t < forced {
                    t
                } else {
                    forced
                },
                None => forced,
            };
            Some(
                if first < now {
                    now
                } else {
                    first
                },
            )
        },
    }
}

fn earliest_of(times: &Vec<u64>) -> (r: Option<u64>)
    ensures
        r == earliest(times@),
{
    let mut best: Option<u64> = None;
    let mut i: usize = 0;
    assert(times@.take(0) =~= Seq::<u64>::empty());
    while i < times.len()
        invariant
            i <= times@.len(),
            best == earliest(times@.take(i as int)),
        decreases times@.len() - i,
    {
        assert(times@.take(i + 1).drop_last() =~= times@.take(i as int));
        let t = times[i];
        best =
        match best {
            Some(b) => if b < t {
                Some(b)
            } else {
                Some(t)
            },
            None => Some(t),
        };
        i += 1;
    }
    assert(times@.take(i as int) =~= times@);
    best
}

/// When the stacks have to run again; nothing if no connection closes.
/// `protocol` is when each stack wants to.
pub fn rearm_tcp_cleanup_poll(queue: &Vec<TcpSocketRemoval>, protocol: &Vec<u64>, now: u64) -> (r: Option<
    u64,
>)
    ensures
        r == next_cleanup(queue@, protocol@, now),
{
    let mut times: Vec<u64> = Vec::new();
    let mut i: usize = 0;
    while i < queue.len()
        invariant
            i <= queue@.len(),
            times@ == deadlines(queue@).take(i as int),
        decreases queue@.len() - i,
    {
        times.push(queue[i].deadline);
        i += 1;
        assert(times@ =~= deadlines(queue@).take(i as int));
    }
    assert(times@ =~= deadlines(queue@));
    let forced = match earliest_of(&times) {
        Some(t) => t,
        None => return None,
    };
    let first: u64 = match earliest_of(protocol) {
        Some(t) => if t < forced {
            t
        } else {
            forced
        },
        None => forced,
    };
    Some(
        if first < now {
            now
        } else {
            first
        },
    )
}

/// No route stands in the queue twice.
pub open spec fn distinct_routes(q: Seq<TcpSocketRemoval>) -> bool {
    forall|i: int, j: int|
        #![trigger q[i], q[j]]
        0 <= i < j < q.len() ==> q[i].route != q[j].route
}

proof fn lemma_joined_routes(q: Seq<TcpSocketRemoval>, r: TcpSocketRemoval)
    ensures
        forall|k: int|
            0 <= k < joined(q, r).len() ==> (#[trigger] joined(q, r)[k]).route == r.route
                || holds_route(q, joined(q, r)[k].route),
        holds_route(joined(q, r), r.route),
    decreases q.len(),
{
    let t = joined(q, r);
    if q.len() == 0 {
        assert(t[0].route == r.route);
    } else if q[0].route == r.route {
        assert(t[0].route == r.route);
        assert forall|k: int| 0 <= k < t.len() implies (#[trigger] t[k]).route == r.route
            || holds_route(q, t[k].route) by {
            if k > 0 {
                assert(t[k] == q[k]);
            }
        }
    } else {
        let rest = q.drop_first();
        lemma_joined_routes(rest, r);
        let u = joined(rest, r);
        assert forall|k: int| 0 <= k < t.len() implies (#[trigger] t[k]).route == r.route
            || holds_route(q, t[k].route) by {
            if k == 0 {
                assert(t[0] == q[0]);
            } else {
                assert(t[k] == u[k - 1]);
                if u[k - 1].route != r.route {
                    let m = choose|m: int| 0 <= m < rest.len() && (#[trigger] rest[m]).route
                        == u[k - 1].route;
                    assert(q[m + 1] == rest[m]);
                }
            }
        }
        let m = choose|m: int| 0 <= m < u.len() && (#[trigger] u[m]).route == r.route;
        assert(t[m + 1] == u[m]);
    }
}

/// However often a socket is closed, it waits for its removal once.
pub proof fn law_removal_is_queued_once(q: Seq<TcpSocketRemoval>, r: TcpSocketRemoval)
    requires
        distinct_routes(q),
    ensures
        distinct_routes(joined(q, r)),
        holds_route(joined(q, r), r.route),
    decreases q.len(),
{
    let t = joined(q, r);
    lemma_joined_routes(q, r);
    if q.len() > 0 && q[0].route != r.route {
        let rest = q.drop_first();
        assert forall|i: int, j: int| 0 <= i < j < rest.len() implies #[trigger] rest[i].route
            != #[trigger] rest[j].route by {
            assert(rest[i] == q[i + 1] && rest[j] == q[j + 1]);
        }
        law_removal_is_queued_once(rest, r);
        lemma_joined_routes(rest, r);
        let u = joined(rest, r);
        assert forall|i: int, j: int| 0 <= i < j < t.len() implies #[trigger] t[i].route
            != #[trigger] t[j].route by {
            assert(t[j] == u[j - 1]);
            if i == 0 {
                if u[j - 1].route != r.route {
                    let m = choose|m: int| 0 <= m < rest.len() && (#[trigger] rest[m]).route
                        == u[j - 1].route;
                    assert(q[m + 1] == rest[m]);
                }
            } else {
                assert(t[i] == u[i - 1]);
            }
        }
    } else if q.len() > 0 {
        assert forall|i: int, j: int| 0 <= i < j < t.len() implies #[trigger] t[i].route
            != #[trigger] t[j].route by {
            assert(t[j] == q[j]);
            if i > 0 {
                assert(t[i] == q[i]);
            } else {
                assert(q[0].route != q[j].route);
            }
        }
    }
}

/// A connection is removed at the latest when its time is up.
pub proof fn law_removal_ends(r: TcpSocketRemoval, state: Option<TcpState>, now: u64)
    requires
        now >= r.deadline,
    ensures
        removal_end(r, state, now) is Some,
{
}

} // verus!
