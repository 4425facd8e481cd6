//! What keeps the stacks going: the removal of sockets, the worker that runs the
//! stacks, and the directory of sockets.
use vstd::prelude::*;
use crate::config::directory;
use crate::config::directory::{DeviceStackCell, DirectoryModel, RoutedSocket, StackState};
use crate::config::interface;
use crate::config::poll;
use crate::config::poll::{NetPollControl, PollPerf, WorkerEvent};
use crate::config::removal;
use crate::config::removal::{RemovalStep, TcpSocketRemoval};
use crate::routing::{InetProtocol, RouteSocketHandle};
use crate::seqs;
use crate::socket::inet::stream;
use crate::socket::inet::stream::inner::{TcpOp, TcpState};

verus! {

/// A connection that is being closed is removed once it has closed or nobody knows
/// it, is broken off and removed once its time is up, and else stays.
pub proof fn law_removal(r: TcpSocketRemoval, state: Option<TcpState>, now: u64)
    ensures
        ({
            let end = removal::removal_end(r, state, now);
            let over = state is None || state == Some(TcpState::Closed);
            &&& over ==> end == Some(RemovalStep::Remove(r.route))
            &&& !over && now >= r.deadline ==> end == Some(RemovalStep::AbortAndRemove(r.route))
            &&& !over && now < r.deadline ==> end is None
        }),
{
}

/// A removal that is asked for again keeps the earlier time and breaks off where
/// either asked for that; one that is not waiting yet waits last.
pub proof fn law_removals_are_joined(
    q: Seq<TcpSocketRemoval>,
    r: TcpSocketRemoval,
    i: int,
)
    requires
        0 <= i <= q.len(),
        forall|j: int| 0 <= j < i ==> (#[trigger] q[j]).route != r.route,
        i < q.len() ==> q[i].route == r.route,
    ensures
        ({
            let after = removal::joined(q, r);
            &&& i == q.len() ==> after == q.push(r)
            &&& i < q.len() ==> {
                &&& after.len() == q.len()
                &&& after[i].route == r.route
                &&& after[i].deadline <= q[i].deadline && after[i].deadline <= r.deadline
                &&& after[i].deadline == q[i].deadline || after[i].deadline == r.deadline
                &&& after[i].abort_if_active == (q[i].abort_if_active || r.abort_if_active)
                &&& after[i].close_started == q[i].close_started
                &&& forall|j: int| 0 <= j < q.len() && j != i ==> #[trigger] after[j] == q[j]
            }
        }),
    decreases q.len(),
{
    if q.len() == 0 {
        assert(removal::joined(q, r) =~= q.push(r));
    } else if i > 0 {
        let t = q.drop_first();
        assert forall|j: int| 0 <= j < i - 1 implies (#[trigger] t[j]).route != r.route by {
            assert(t[j] == q[j + 1]);
        }
        assert(q[0].route != r.route);
        law_removals_are_joined(t, r, i - 1);
        let rest = removal::joined(t, r);
        let after = removal::joined(q, r);
        if i == q.len() {
            assert(seq![q[0]] + t.push(r) =~= q.push(r));
        } else {
            assert forall|j: int| 0 <= j < q.len() && j != i implies #[trigger] after[j] == q[j] by {
                if j > 0 {
                    assert(rest[j - 1] == t[j - 1]);
                }
            }
        }
    }
}

/// The next look at the removals is not in the past, not before anything is due,
/// and not after the first that is; without removals there is none.
pub proof fn law_next_cleanup(
    q: Seq<TcpSocketRemoval>,
    protocol: Seq<u64>,
    now: u64,
    early: u64,
    k: int,
    p: int,
)
    requires
        0 <= k < q.len(),
    ensures
        removal::next_cleanup(q, protocol, now) matches Some(t) && now <= t && (t <= q[k].deadline
            || t == now),
        0 <= p < protocol.len() ==> {
            &&& removal::next_cleanup(q, protocol, now) matches Some(t)
            &&& t <= protocol[p] || t == now
        },
        (forall|i: int| 0 <= i < q.len() ==> early <= (#[trigger] q[i]).deadline) && (forall|i: int|
            0 <= i < protocol.len() ==> early <= #[trigger] protocol[i]) ==> {
            &&& removal::next_cleanup(q, protocol, now) matches Some(t)
            &&& early <= t
        },
        removal::next_cleanup(Seq::empty(), protocol, now) is None,
{
    let due = removal::deadlines(q);
    lemma_earliest(due, k);
    lemma_earliest(protocol, p);
    assert(due[k] == q[k].deadline);
    lemma_not_before(due, early);
    lemma_not_before(protocol, early);
    if forall|i: int| 0 <= i < q.len() ==> early <= (#[trigger] q[i]).deadline {
        assert forall|i: int| 0 <= i < due.len() implies early <= #[trigger] due[i] by {
            assert(due[i] == q[i].deadline);
        }
    }
    assert(removal::deadlines(Seq::empty()) =~= Seq::<u64>::empty());
}

proof fn lemma_earliest(s: Seq<u64>, k: int)
    ensures
        0 <= k < s.len() ==> (removal::earliest(s) matches Some(t) && t <= s[k]),
    decreases s.len(),
{
    if s.len() > 0 {
        lemma_earliest(s.drop_last(), k);
        if 0 <= k < s.len() - 1 {
            assert(s.drop_last()[k] == s[k]);
        }
    }
}

proof fn lemma_not_before(s: Seq<u64>, early: u64)
    ensures
        (forall|i: int| 0 <= i < s.len() ==> early <= #[trigger] s[i]) ==> (removal::earliest(
            s,
        ) is Some ==> early <= removal::earliest(s)->0),
    decreases s.len(),
{
    if s.len() > 0 && (forall|i: int| 0 <= i < s.len() ==> early <= #[trigger] s[i]) {
        let t = s.drop_last();
        assert forall|i: int| 0 <= i < t.len() implies early <= #[trigger] t[i] by {
            assert(t[i] == s[i]);
        }
        lemma_not_before(t, early);
    }
}

/// At each look a waiting removal either goes on waiting or is carried out: over at
/// once where the connection has closed or is unknown, by force where its time is up.
pub proof fn law_each_removal_waits_or_ends(
    q: Seq<TcpSocketRemoval>,
    states: Seq<Option<TcpState>>,
    now: u64,
    k: int,
)
    requires
        0 <= k < q.len() == states.len(),
    ensures
        ({
            let waiting = removal::still_closing(q, states, now);
            let steps = removal::removal_steps(q, states, now);
            let over = states[k] is None || states[k] == Some(TcpState::Closed);
            &&& over ==> steps.contains(RemovalStep::Remove(q[k].route))
            &&& !over && now >= q[k].deadline ==> steps.contains(
                RemovalStep::AbortAndRemove(q[k].route),
            )
            &&& !over && now < q[k].deadline ==> exists|i: int|
                0 <= i < waiting.len() && (#[trigger] waiting[i]).route == q[k].route
        }),
    decreases q.len(),
{
    let front = q.drop_last();
    let known = states.drop_last();
    let steps = removal::removal_steps(front, states, now);
    let waiting = removal::still_closing(front, states, now);
    let end = removal::removal_end(q.last(), states[q.len() - 1], now);
    lemma_same_states(front, states, known, now);
    let after = removal::still_closing(q, states, now);
    let all = removal::removal_steps(q, states, now);
    if k < q.len() - 1 {
        law_each_removal_waits_or_ends(front, known, now, k);
        assert(front[k] == q[k] && known[k] == states[k]);
        if end is Some {
            assert(all == steps.push(end->0) && after == waiting);
            assert forall|x: RemovalStep| steps.contains(x) implies #[trigger] all.contains(x) by {
                let i = choose|i: int| 0 <= i < steps.len() && steps[i] == x;
                assert(all[i] == x);
            }
        } else {
            assert(all == steps && after == removal::joined(waiting, q.last()));
            if removal::removal_end(q[k], states[k], now) is None {
                let i = choose|i: int|
                    0 <= i < waiting.len() && (#[trigger] waiting[i]).route == q[k].route;
                lemma_joined_holds(waiting, q.last(), i);
            }
        }
    } else if end is Some {
        assert(all == steps.push(end->0));
        assert(all[steps.len() as int] == end->0);
    } else {
        assert(after == removal::joined(waiting, q.last()));
        lemma_joined_holds(waiting, q.last(), 0);
    }
}

proof fn lemma_same_states(
    q: Seq<TcpSocketRemoval>,
    a: Seq<Option<TcpState>>,
    b: Seq<Option<TcpState>>,
    now: u64,
)
    requires
        q.len() <= a.len(),
        q.len() <= b.len(),
        forall|i: int| 0 <= i < q.len() ==> #[trigger] a[i] == b[i],
    ensures
        removal::still_closing(q, a, now) == removal::still_closing(q, b, now),
        removal::removal_steps(q, a, now) == removal::removal_steps(q, b, now),
    decreases q.len(),
{
    if q.len() > 0 {
        lemma_same_states(q.drop_last(), a, b, now);
        assert(a[q.len() - 1] == b[q.len() - 1]);
    }
}

/// What joins a queue is in it, and what was in it stays.
proof fn lemma_joined_holds(q: Seq<TcpSocketRemoval>, r: TcpSocketRemoval, i: int)
    ensures
        ({
            let after = removal::joined(q, r);
            &&& exists|j: int| 0 <= j < after.len() && (#[trigger] after[j]).route == r.route
            &&& 0 <= i < q.len() ==> exists|j: int|
                0 <= j < after.len() && (#[trigger] after[j]).route == q[i].route
        }),
    decreases q.len(),
{
    let after = removal::joined(q, r);
    if q.len() == 0 {
        assert(after[0].route == r.route);
    } else if q[0].route == r.route {
        assert(after[0].route == r.route);
        if 0 < i < q.len() {
            assert(after[i] == q.drop_first()[i - 1]);
            assert(after[i].route == q[i].route);
        }
    } else {
        let t = q.drop_first();
        let rest = removal::joined(t, r);
        lemma_joined_holds(t, r, i - 1);
        let j = choose|j: int| 0 <= j < rest.len() && (#[trigger] rest[j]).route == r.route;
        assert(after[j + 1] == rest[j]);
        assert(after[0] == q[0]);
        if 0 < i < q.len() {
            assert(t[i - 1] == q[i]);
            let h = choose|h: int| 0 <= h < rest.len() && (#[trigger] rest[h]).route == t[i - 1].route;
            assert(after[h + 1] == rest[h]);
        }
    }
}

/// A socket that is to go is told so once: closed, or broken off where that was
/// asked for and there is a connection.
pub proof fn law_begin_removal(r: TcpSocketRemoval, s: TcpState)
    ensures
        ({
            let orders = removal::begin_orders(seq![r], seq![Some(s)]);
            let idle = s == TcpState::Closed || s == TcpState::TimeWait || s == TcpState::Listen;
            &&& r.close_started ==> orders.len() == 0
            &&& !r.close_started ==> {
                &&& orders.len() == 1
                &&& orders[0].handle == r.route
                &&& orders[0].op == TcpOp::Abort <==> r.abort_if_active && !idle
                &&& orders[0].op == TcpOp::Close <==> !(r.abort_if_active && !idle)
            }
            &&& removal::begin_orders(seq![r], seq![None::<TcpState>]).len() == 0
            &&& removal::begun(r, Some(s)).close_started
            &&& removal::begun(r, None).close_started == r.close_started
            &&& removal::begun(r, Some(s)).route == r.route
            &&& removal::begun(r, Some(s)).deadline == r.deadline
        }),
{
    assert(seq![r].drop_last() =~= Seq::<TcpSocketRemoval>::empty());
    reveal_with_fuel(removal::begin_orders, 2);
}

/// The worker runs the stacks where there is a request, which it takes, twice in a
/// row at most; it waits where there is none, and ends where its task ends.
pub proof fn law_worker(c: NetPollControl)
    ensures
        ({
            let (n, a) = poll::worker_step(c, WorkerEvent::Ready);
            let (m, b) = poll::worker_step(c, WorkerEvent::Polled);
            let (k, x) = poll::worker_step(c, WorkerEvent::Interrupted { stopping: true });
            &&& c.pending ==> a is Poll && !n.pending && n.rounds == 1
            &&& !c.pending ==> a is Wait && b is Wait
            &&& c.pending && c.rounds == 1 ==> b is Poll && m.rounds == 2
            &&& c.pending && c.rounds == 2 ==> b is Wait && m.pending && m.rounds == 0
            &&& x is Exit
            &&& n.worker_started && m.worker_started
        }),
{
}

/// A request is kept until the worker takes it, and wakes the worker where it is
/// the first and there is one; one from an interrupt wakes it later, once.
pub proof fn law_requests(c: NetPollControl)
    ensures
        ({
            let (n, wake) = poll::requested(c);
            &&& n.pending
            &&& wake <==> !c.pending && c.worker_started
            &&& n.deferred_wake == c.deferred_wake
            &&& poll::kicked(c).pending
            &&& poll::kicked(c).deferred_wake <==> c.deferred_wake || !c.pending
            &&& poll::woken(c).1 <==> c.deferred_wake && c.worker_started
            &&& !poll::woken(c).0.deferred_wake
            &&& poll::woken(c).0.pending == c.pending
        }),
{
}

/// Running the stacks is counted by its kind, with the time that it took and the
/// longest time so far.
pub proof fn law_poll_is_counted(p: PollPerf, progressed: bool, busy: bool, ticks: usize)
    requires
        p.samples < usize::MAX,
        p.full_polls < usize::MAX,
        p.stack_polls < usize::MAX,
        p.full_progress < usize::MAX,
        p.stack_progress < usize::MAX,
        p.lock_busy < usize::MAX,
        p.poll_ticks + ticks <= usize::MAX,
    ensures
        ({
            let full = poll::sampled(p, false, progressed, busy, ticks);
            let one = poll::sampled(p, true, progressed, busy, ticks);
            &&& full.samples == p.samples + 1 && one.samples == p.samples + 1
            &&& full.full_polls == p.full_polls + 1 && full.stack_polls == p.stack_polls
            &&& one.stack_polls == p.stack_polls + 1 && one.full_polls == p.full_polls
            &&& full.full_progress == p.full_progress + (if progressed {
                1int
            } else {
                0
            })
            &&& one.stack_progress == p.stack_progress + (if progressed {
                1int
            } else {
                0
            })
            &&& full.lock_busy == p.lock_busy + (if busy {
                1int
            } else {
                0
            })
            &&& one.lock_busy == full.lock_busy
            &&& full.poll_ticks == p.poll_ticks + ticks
            &&& full.poll_ticks_max >= ticks && full.poll_ticks_max >= p.poll_ticks_max
            &&& full.poll_ticks_max == ticks || full.poll_ticks_max == p.poll_ticks_max
        }),
{
}

/// A socket that is added on an interface is found under a new route, with its
/// protocol only, on that interface and by its own number; every other route
/// leads where it led. Without a stack there none is added.
pub proof fn law_added_socket(
    m: DirectoryModel,
    protocol: InetProtocol,
    ifindex: u32,
    handle: usize,
    other: InetProtocol,
    old: RouteSocketHandle,
)
    requires
        m.wf(),
    ensures
        ({
            let (n, r) = m.with_socket(protocol, ifindex, handle);
            &&& r matches Some(route) ==> {
                &&& n.routed(route, protocol) == Some(RoutedSocket { ifindex, handle })
                &&& other != protocol ==> n.routed(route, other) is None
                &&& forall|j: int| 0 <= j < m.routes.len() ==> (#[trigger] m.routes[j]).route != route
                &&& old != route ==> n.routed(old, other) == m.routed(old, other)
                &&& n.stacks == m.stacks
            }
            &&& (forall|j: int| 0 <= j < m.stacks.len() ==> (#[trigger] m.stacks[j]).ifindex != ifindex)
                ==> r is None && n == m
        }),
{
    let (n, r) = m.with_socket(protocol, ifindex, handle);
    if r is Some {
        directory::law_route_leads_to_its_socket(
            m,
            protocol,
            ifindex,
            handle,
            old,
            other,
        );
        let route = r->0;
        assert forall|j: int| 0 <= j < m.routes.len() implies (#[trigger] m.routes[j]).route
            != route by {
            assert(m.routes[j].route.0 < m.next_route_id);
        }
        let p = directory::entry_of(route);
        let k = m.routes.len() as int;
        assert forall|j: int| 0 <= j < k implies !p(#[trigger] n.routes[j]) by {
            assert(n.routes[j] == m.routes[j]);
        }
        seqs::lemma_find_first(n.routes, p, k);
    }
    if forall|j: int| 0 <= j < m.stacks.len() ==> (#[trigger] m.stacks[j]).ifindex != ifindex {
        let p = directory::at_interface(ifindex);
        assert forall|j: int| 0 <= j < m.stacks.len() implies !p(#[trigger] m.stacks[j]) by {
            assert(m.stacks[j].ifindex != ifindex);
        }
        seqs::lemma_find_none(m.stacks, p);
    }
}

/// Two sockets that are added have different routes, and each is found.
pub proof fn law_routes_differ(
    m: DirectoryModel,
    a: InetProtocol,
    b: InetProtocol,
    i: u32,
    j: u32,
    x: usize,
    y: usize,
)
    requires
        m.wf(),
        m.with_socket(a, i, x).1 is Some,
        m.with_socket(a, i, x).0.wf(),
        m.with_socket(a, i, x).0.with_socket(b, j, y).1 is Some,
    ensures
        ({
            let (n, r) = m.with_socket(a, i, x);
            let (k, s) = n.with_socket(b, j, y);
            &&& r->0 != s->0
            &&& k.routed(r->0, a) == Some(RoutedSocket { ifindex: i, handle: x })
            &&& k.routed(s->0, b) == Some(RoutedSocket { ifindex: j, handle: y })
        }),
{
    let (n, r) = m.with_socket(a, i, x);
    law_added_socket(m, a, i, x, a, r->0);
    law_added_socket(n, b, j, y, a, r->0);
}

/// What receives are counted as: calls, bytes asked for and got, ends and waits.
pub proof fn law_receives_are_counted(p: stream::RecvPerf, asked: usize, n: isize)
    requires
        p.calls < usize::MAX,
        p.zero < usize::MAX,
        p.eagain < usize::MAX,
        p.requested + asked <= usize::MAX,
        n >= 0,
        p.bytes + n <= usize::MAX,
    ensures
        ({
            let got = stream::counted(p, asked, Ok(n));
            let none = stream::counted(p, asked, Err(crate::error::SyscallErr::EAGAIN));
            &&& got.calls == p.calls + 1 && none.calls == p.calls + 1
            &&& got.requested == p.requested + asked
            &&& got.bytes == p.bytes + n
            &&& got.zero == p.zero + (if n == 0 {
                1int
            } else {
                0
            })
            &&& got.eagain == p.eagain
            &&& none.eagain == p.eagain + 1 && none.bytes == p.bytes && none.zero == p.zero
        }),
{
}

/// There are two stacks at first, for the loopback interface and for the card; both
/// run, and nobody has a socket.
pub proof fn law_first_directory()
    ensures
        ({
            let d = interface::first_directory();
            &&& d.wf()
            &&& d.stacks.len() == 2
            &&& d.stacks[0].ifindex == 1 && d.stacks[1].ifindex == 2
            &&& d.stacks[0].state == StackState::Active && d.stacks[1].state == StackState::Active
            &&& d.stacks[0].serial != d.stacks[1].serial
            &&& d.routes.len() == 0 && d.bindings.len() == 0
        }),
{
}

/// An interface is run where it has an active stack, and only there.
pub proof fn law_active_stacks_run(stacks: Seq<DeviceStackCell>, ifindex: u32)
    ensures
        interface::active_ifindexes(stacks).contains(ifindex) <==> exists|i: int|
            0 <= i < stacks.len() && (#[trigger] stacks[i]).ifindex == ifindex && stacks[i].state
                == StackState::Active,
    decreases stacks.len(),
{
    if stacks.len() > 0 {
        let front = stacks.drop_last();
        law_active_stacks_run(front, ifindex);
        let rest = interface::active_ifindexes(front);
        let all = interface::active_ifindexes(stacks);
        let last = stacks.last();
        if rest.contains(ifindex) {
            let i = choose|i: int|
                0 <= i < front.len() && (#[trigger] front[i]).ifindex == ifindex && front[i].state
                    == StackState::Active;
            assert(stacks[i] == front[i]);
            let h = choose|h: int| 0 <= h < rest.len() && rest[h] == ifindex;
            assert(all[h] == ifindex);
        }
        if last.ifindex == ifindex && last.state == StackState::Active {
            assert(all[rest.len() as int] == ifindex);
            assert(stacks[stacks.len() - 1] == last);
        }
        if all.contains(ifindex) && !rest.contains(ifindex) {
            let h = choose|h: int| 0 <= h < all.len() && all[h] == ifindex;
            if h < rest.len() {
                assert(rest[h] == ifindex);
            }
        }
        if exists|i: int|
            0 <= i < stacks.len() && (#[trigger] stacks[i]).ifindex == ifindex && stacks[i].state
                == StackState::Active {
            let i = choose|i: int|
                0 <= i < stacks.len() && (#[trigger] stacks[i]).ifindex == ifindex
                    && stacks[i].state == StackState::Active;
            if i < front.len() {
                assert(front[i] == stacks[i]);
            }
        }
    }
}

/// A new stack of an interface takes the place of the old one, with a number that
/// none had; the stacks of the other interfaces stay.
pub proof fn law_added_stack(m: DirectoryModel, ifindex: u32, other: u32)
    requires
        m.wf(),
        m.next_serial < u64::MAX,
    ensures
        ({
            let n = m.with_stack(ifindex);
            &&& n.stack_at(ifindex) matches Some(s)
            &&& s.ifindex == ifindex && s.state == StackState::Active
            &&& forall|j: int| 0 <= j < m.stacks.len() ==> (#[trigger] m.stacks[j]).serial
                != s.serial
            &&& other != ifindex ==> n.stack_at(other) == m.stack_at(other)
            &&& n.routes == m.routes
        }),
{
    let s = DeviceStackCell { ifindex, serial: m.next_serial, state: StackState::Active };
    lemma_placed(m.stacks, s, other);
    assert forall|j: int| 0 <= j < m.stacks.len() implies (#[trigger] m.stacks[j]).serial
        != s.serial by {}
}

proof fn lemma_placed(stacks: Seq<DeviceStackCell>, s: DeviceStackCell, other: u32)
    requires
        forall|i: int, j: int|
            0 <= i < j < stacks.len() ==> (#[trigger] stacks[i]).ifindex < (
            #[trigger] stacks[j]).ifindex,
    ensures
        ({
            let after = directory::placed(stacks, s);
            &&& seqs::find_first(after, directory::at_interface(s.ifindex)) == Some(s)
            &&& other != s.ifindex ==> seqs::find_first(after, directory::at_interface(other))
                == seqs::find_first(stacks, directory::at_interface(other))
        }),
    decreases stacks.len(),
{
    let here = directory::at_interface(s.ifindex);
    let there = directory::at_interface(other);
    let after = directory::placed(stacks, s);
    if stacks.len() == 0 {
        lemma_find_pushed(stacks, s, here);
        lemma_find_pushed(stacks, s, there);
        assert(after =~= stacks.push(s));
    } else {
        let front = stacks.drop_last();
        let last = stacks.last();
        assert(stacks =~= front.push(last));
        assert forall|i: int, j: int| 0 <= i < j < front.len() implies (
        #[trigger] front[i]).ifindex < (#[trigger] front[j]).ifindex by {
            assert(stacks[i].ifindex < stacks[j].ifindex);
        }
        assert forall|i: int| 0 <= i < front.len() implies (#[trigger] front[i]).ifindex
            < last.ifindex by {
            assert(stacks[i].ifindex < stacks[stacks.len() - 1].ifindex);
        }
        lemma_find_pushed(front, last, there);
        lemma_find_pushed(front, last, here);
        if last.ifindex < s.ifindex {
            lemma_find_pushed(stacks, s, there);
            lemma_find_pushed(stacks, s, here);
            seqs::lemma_find_none(front, here);
        } else if last.ifindex == s.ifindex {
            lemma_find_pushed(front, s, there);
            lemma_find_pushed(front, s, here);
            seqs::lemma_find_none(front, here);
        } else {
            lemma_placed(front, s, other);
            let before = directory::placed(front, s);
            lemma_find_pushed(before, last, there);
            lemma_find_pushed(before, last, here);
        }
    }
}

/// The first that is found stays the first when another is put behind.
proof fn lemma_find_pushed(
    stacks: Seq<DeviceStackCell>,
    s: DeviceStackCell,
    p: spec_fn(DeviceStackCell) -> bool,
)
    ensures
        seqs::find_first(stacks.push(s), p) == match seqs::find_first(stacks, p) {
            Some(x) => Some(x),
            None => if p(s) {
                Some(s)
            } else {
                None
            },
        },
    decreases stacks.len(),
{
    let all = stacks.push(s);
    if stacks.len() == 0 {
        assert(all.drop_first() =~= stacks);
    } else {
        assert(all.drop_first() =~= stacks.drop_first().push(s));
        lemma_find_pushed(stacks.drop_first(), s, p);
    }
}

} // verus!
