//! When the stacks run.
//!
//! Everyone who wants the stacks to run leaves a request; requests that nobody
//! has taken yet are one. A single worker takes them.
use vstd::prelude::*;
use crate::socket::inet::stream;

verus! {

/// How often the worker runs the stacks before it waits again.
pub const ROUNDS_PER_WAKE: u8 = 2;

/// The requests for the stacks to run.
#[derive(Clone, Copy, Debug, PartialEq, Eq, Structural)]
pub struct NetPollControl {
    /// A request that the worker has not taken.
    pub pending: bool,
    /// An interrupt left a request; the worker is woken at the next chance.
    pub deferred_wake: bool,
    /// A stack was busy; it is tried again at the next tick.
    pub retry_armed: bool,
    pub tick_fallback: bool,
    /// Which of the timers for connections that close still counts.
    pub tcp_cleanup_generation: usize,
    /// Whether there is a worker to wake.
    pub worker_started: bool,
    /// How often the worker has run the stacks since it woke.
    pub rounds: u8,
}

/// What the worker sees.
#[derive(Clone, Copy, Debug, PartialEq, Eq, Structural)]
pub enum WorkerEvent {
    /// It was woken.
    Ready,
    /// A signal came; `stopping` if the task has to end.
    Interrupted { stopping: bool },
    TimedOut,
    /// The stacks have run.
    Polled,
}

/// What the worker does.
#[derive(Clone, Copy, Debug, PartialEq, Eq, Structural)]
pub enum WorkerAction {
    /// Waits until there is a request.
    Wait,
    /// Runs the stacks.
    Poll,
    Exit,
}

pub open spec fn fresh_control() -> NetPollControl {
    NetPollControl {
        pending: false,
        deferred_wake: false,
        retry_armed: false,
        tick_fallback: true,
        tcp_cleanup_generation: 0,
        worker_started: false,
        rounds: 0,
    }
}

/// The request is there, and the worker is woken if it is the first.
pub open spec fn requested(c: NetPollControl) -> (NetPollControl, bool) {
    (NetPollControl { pending: true, ..c }, !c.pending && c.worker_started)
}

/// The request of an interrupt: waking has to wait.
pub open spec fn kicked(c: NetPollControl) -> NetPollControl {
    NetPollControl { pending: true, deferred_wake: c.deferred_wake || !c.pending, ..c }
}

pub open spec fn woken(c: NetPollControl) -> (NetPollControl, bool) {
    (NetPollControl { deferred_wake: false, ..c }, c.deferred_wake && c.worker_started)
}

/// One step of the worker: it takes the request before it runs the stacks, so
/// that one that comes in the meantime stays.
pub open spec fn worker_step(c: NetPollControl, e: WorkerEvent) -> (NetPollControl, WorkerAction) {
    let started = NetPollControl { worker_started: true, ..c };
    if e == (WorkerEvent::Interrupted { stopping: true }) {
        (started, WorkerAction::Exit)
    } else {
        let done = if e == WorkerEvent::Polled {
            c.rounds
        } else {
            0
        };
        if done < ROUNDS_PER_WAKE && c.pending {
            (
                NetPollControl { pending: false, rounds: (done + 1) as u8, ..started },
                WorkerAction::Poll,
            )
        } else {
            (NetPollControl { rounds: 0, ..started }, WorkerAction::Wait)
        }
    }
}

impl NetPollControl {
    pub fn new() -> (r: NetPollControl)
        ensures
            r == fresh_control(),
    {
        NetPollControl {
            pending: false,
            deferred_wake: false,
            retry_armed: false,
            tick_fallback: true,
            tcp_cleanup_generation: 0,
            worker_started: false,
            rounds: 0,
        }
    }

    /// Asks for the stacks to run; says whether to wake the worker.
    pub fn request_poll(&mut self) -> (r: bool)
        ensures
            (*final(self), r) == requested(*old(self)),
    {
        let first = !self.pending;
        self.pending = true;
        first && self.worker_started
    }

    /// Whether there is a request that the worker has not taken.
    pub fn poll_request_pending(&self) -> (r: bool)
        ensures
            r == self.pending,
    {
        self.pending
    }

    pub fn tcp_cleanup_timer_is_current(&self, generation: usize) -> (r: bool)
        ensures
            r == (self.tcp_cleanup_generation == generation),
    {
        self.tcp_cleanup_generation == generation
    }

    /// The timer for connections that close went off. Says whether it still
    /// counts, and whether to wake the worker.
    pub fn run_tcp_cleanup_timer(&mut self, generation: usize, queue_empty: bool) -> (r: (bool, bool))
        ensures
            ({
                let counts = old(self).tcp_cleanup_generation == generation && !queue_empty;
                &&& r.0 == counts
                &&& counts ==> (*final(self), r.1) == requested(*old(self))
                &&& !counts ==> *final(self) == *old(self) && !r.1
            }),
    {
        if !self.tcp_cleanup_timer_is_current(generation) || queue_empty {
            return (false, false);
        }
        let wake = self.request_poll();
        (true, wake)
    }

    /// Makes every timer that was set so far count no more; returns the
    /// number of the next.
    pub fn next_cleanup_generation(&mut self) -> (r: usize)
        ensures
            r == old(self).tcp_cleanup_generation.wrapping_add(1),
            *final(self) == (NetPollControl { tcp_cleanup_generation: r, ..*old(self) }),
    {
        self.tcp_cleanup_generation = self.tcp_cleanup_generation.wrapping_add(1);
        self.tcp_cleanup_generation
    }

    fn kick_from_irq(&mut self)
        ensures
            *final(self) == kicked(*old(self)),
    {
        if !self.pending {
            self.deferred_wake = true;
        }
        self.pending = true;
    }

    /// An interrupt asks for the stacks to run.
    pub fn try_poll_irq(&mut self) -> (r: bool)
        ensures
            r,
            *final(self) == kicked(*old(self)),
    {
        self.kick_from_irq();
        true
    }

    /// A network card has received something.
    pub fn notify_rx_interrupt(&mut self)
        ensures
            *final(self) == kicked(*old(self)),
    {
        let _ = self.try_poll_irq();
    }

    /// Makes up for the wake that an interrupt had to leave; says whether to
    /// wake the worker.
    pub fn run_deferred_net_wake(&mut self) -> (r: bool)
        ensures
            (*final(self), r) == woken(*old(self)),
    {
        let deferred = self.deferred_wake;
        self.deferred_wake = false;
        deferred && self.worker_started
    }

    /// Switches the request at each tick; returns how it was.
    pub fn set_scheduler_tick_net_fallback_enabled_for_test(&mut self, enabled: bool) -> (r: bool)
        ensures
            r == old(self).tick_fallback,
            *final(self) == (NetPollControl { tick_fallback: enabled, ..*old(self) }),
    {
        let before = self.tick_fallback;
        self.tick_fallback = enabled;
        before
    }

    pub fn scheduler_tick_net_fallback_enabled(&self) -> (r: bool)
        ensures
            r == self.tick_fallback,
    {
        self.tick_fallback
    }

    /// A tick asks for the stacks to run; says whether to wake the worker.
    pub fn run_scheduler_tick_net_fallback(&mut self) -> (r: bool)
        ensures
            old(self).tick_fallback ==> (*final(self), r) == woken(kicked(*old(self))),
            !old(self).tick_fallback ==> *final(self) == *old(self) && !r,
    {
        if self.scheduler_tick_net_fallback_enabled() {
            let _ = self.try_poll_irq();
            self.run_deferred_net_wake()
        } else {
            false
        }
    }

    /// A stack was busy and has to be tried again.
    pub fn arm_retry(&mut self)
        ensures
            *final(self) == (NetPollControl { retry_armed: true, ..*old(self) }),
    {
        self.retry_armed = true;
    }

    /// A tick tries the busy stacks again; says whether to wake the worker.
    pub fn run_deferred_poll_retry(&mut self) -> (r: bool)
        ensures
            old(self).retry_armed ==> (*final(self), r) == requested(
                NetPollControl { retry_armed: false, ..*old(self) },
            ),
            !old(self).retry_armed ==> *final(self) == *old(self) && !r,
    {
        let armed = self.retry_armed;
        self.retry_armed = false;
        if armed {
            self.request_poll()
        } else {
            false
        }
    }

    /// One step of the worker.
    pub fn net_poll_worker(&mut self, event: WorkerEvent) -> (r: WorkerAction)
        ensures
            (*final(self), r) == worker_step(*old(self), event),
    {
        self.worker_started = true;
        match event {
            WorkerEvent::Interrupted { stopping } => {
                if stopping {
                    return WorkerAction::Exit;
                }
                self.rounds = 0;
            },
            WorkerEvent::Ready | WorkerEvent::TimedOut => {
                self.rounds = 0;
            },
            WorkerEvent::Polled => {},
        }
        if self.rounds < ROUNDS_PER_WAKE && self.pending {
            self.pending = false;
            self.rounds = self.rounds + 1;
            return WorkerAction::Poll;
        }
        self.rounds = 0;
        WorkerAction::Wait
    }
}

/// One step of the worker that runs the stacks.
pub fn net_poll_worker(control: &mut NetPollControl, event: WorkerEvent) -> (r: WorkerAction)
    ensures
        (*final(control), r) == worker_step(*old(control), event),
{
    control.net_poll_worker(event)
}

/// A request stays until the worker takes it, and the worker takes it only to
/// run the stacks; a worker that waits is woken by the first request.
pub proof fn law_no_request_is_lost(c: NetPollControl, e: WorkerEvent)
    ensures
        requested(c).0.pending,
        kicked(c).pending,
        ({
            let (next, action) = worker_step(c, e);
            &&& c.pending ==> (next.pending && !(action is Poll)) || action is Poll
            &&& !c.pending ==> !(action is Poll) && !next.pending
            &&& action is Wait && !next.pending ==> requested(next).1
        }),
{
}

/// Requests that nobody has taken wake the worker once; one that an interrupt
/// left wakes it at the next chance.
pub proof fn law_requests_are_merged(c: NetPollControl)
    ensures
        !requested(requested(c).0).1,
        requested(requested(c).0).0 == requested(c).0,
        c.worker_started && !c.pending ==> woken(kicked(c)).1,
        !woken(woken(c).0).1,
{
}

/// What running the stacks costs, since the last report.
#[derive(Clone, Copy, Debug, PartialEq, Eq, Structural)]
pub struct PollPerf {
    pub samples: usize,
    pub last_report: usize,
    pub full_polls: usize,
    pub full_progress: usize,
    pub stack_polls: usize,
    pub stack_progress: usize,
    pub lock_busy: usize,
    pub poll_ticks: usize,
    pub poll_ticks_max: usize,
}

/// A report on a stretch of time.
#[derive(Clone, Copy, Debug, PartialEq, Eq, Structural)]
pub struct PollReport {
    pub elapsed_ms: usize,
    pub full_progress: usize,
    pub full_polls: usize,
    pub stack_progress: usize,
    pub stack_polls: usize,
    pub lock_busy: usize,
    /// The share of the time, in thousandths.
    pub poll_permille: usize,
    pub poll_ticks_avg: usize,
    pub poll_ticks_max: usize,
}

pub const NET_PERF_REPORT_INTERVAL_SECS: usize = 2;

/// How many samples go by between two looks at the clock.
pub const NET_PERF_TIME_CHECK_SAMPLES: usize = 256;

/// The sums with one more sample.
pub open spec fn sampled(
    p: PollPerf,
    stack_only: bool,
    progressed: bool,
    lock_busy: bool,
    elapsed_ticks: usize,
) -> PollPerf {
    PollPerf {
        samples: p.samples.wrapping_add(1),
        stack_polls: if stack_only {
            p.stack_polls.wrapping_add(1)
        } else {
            p.stack_polls
        },
        stack_progress: if stack_only && progressed {
            p.stack_progress.wrapping_add(1)
        } else {
            p.stack_progress
        },
        full_polls: if stack_only {
            p.full_polls
        } else {
            p.full_polls.wrapping_add(1)
        },
        full_progress: if !stack_only && progressed {
            p.full_progress.wrapping_add(1)
        } else {
            p.full_progress
        },
        lock_busy: if lock_busy {
            p.lock_busy.wrapping_add(1)
        } else {
            p.lock_busy
        },
        poll_ticks: p.poll_ticks.wrapping_add(elapsed_ticks),
        poll_ticks_max: if p.poll_ticks_max < elapsed_ticks {
            elapsed_ticks
        } else {
            p.poll_ticks_max
        },
        ..p
    }
}

/// Whether the sums are due for a report.
pub open spec fn poll_report_due(p: PollPerf, now: usize, frequency: usize) -> bool {
    &&& p.samples % NET_PERF_TIME_CHECK_SAMPLES == 0
    &&& p.last_report != 0
    &&& now.wrapping_sub(p.last_report) >= stream::capped_product(
        stream::at_least_one(frequency),
        NET_PERF_REPORT_INTERVAL_SECS,
    )
}

/// The sum, or the largest number that there is.
pub open spec fn capped_sum(a: usize, b: usize) -> usize {
    if a + b > usize::MAX {
        usize::MAX
    } else {
        (a + b) as usize
    }
}

/// The report that the sums give.
pub open spec fn poll_report(p: PollPerf, now: usize, frequency: usize) -> PollReport {
    let elapsed = now.wrapping_sub(p.last_report);
    PollReport {
        elapsed_ms: stream::capped_product(elapsed, 1000) / stream::at_least_one(frequency),
        full_progress: p.full_progress,
        full_polls: p.full_polls,
        stack_progress: p.stack_progress,
        stack_polls: p.stack_polls,
        lock_busy: p.lock_busy,
        poll_permille: stream::capped_product(p.poll_ticks, 1000) / stream::at_least_one(elapsed),
        poll_ticks_avg: p.poll_ticks / stream::at_least_one(
            capped_sum(p.full_polls, p.stack_polls),
        ),
        poll_ticks_max: p.poll_ticks_max,
    }
}

fn or_one(n: usize) -> (r: usize)
    ensures
        r == stream::at_least_one(n),
        r > 0,
{
    if n == 0 {
        1
    } else {
        n
    }
}

/// Adds a sample to the sums, and makes a report when one is due. `now` is the
/// clock and `frequency` how often it ticks in a second.
pub fn record_poll_perf(
    perf: &mut PollPerf,
    stack_only: bool,
    progressed: bool,
    lock_busy: bool,
    elapsed_ticks: usize,
    now: usize,
    frequency: usize,
) -> (r: Option<PollReport>)
    ensures
        ({
            let p = sampled(*old(perf), stack_only, progressed, lock_busy, elapsed_ticks);
            &&& r == if poll_report_due(p, now, frequency) {
                Some(poll_report(p, now, frequency))
            } else {
                None
            }
            &&& *final(perf) == if poll_report_due(p, now, frequency) {
                PollPerf {
                    samples: p.samples,
                    last_report: now,
                    full_polls: 0,
                    full_progress: 0,
                    stack_polls: 0,
                    stack_progress: 0,
                    lock_busy: 0,
                    poll_ticks: 0,
                    poll_ticks_max: 0,
                }
            } else if p.samples % NET_PERF_TIME_CHECK_SAMPLES == 0 && p.last_report == 0 {
                PollPerf { last_report: now, ..p }
            } else {
                p
            }
        }),
{
    if stack_only {
        perf.stack_polls = perf.stack_polls.wrapping_add(1);
        if progressed {
            perf.stack_progress = perf.stack_progress.wrapping_add(1);
        }
    } else {
        perf.full_polls = perf.full_polls.wrapping_add(1);
        if progressed {
            perf.full_progress = perf.full_progress.wrapping_add(1);
        }
    }
    if lock_busy {
        perf.lock_busy = perf.lock_busy.wrapping_add(1);
    }
    perf.poll_ticks = perf.poll_ticks.wrapping_add(elapsed_ticks);
    if perf.poll_ticks_max < elapsed_ticks {
        perf.poll_ticks_max = elapsed_ticks;
    }
    perf.samples = perf.samples.wrapping_add(1);
    assert(*perf == sampled(*old(perf), stack_only, progressed, lock_busy, elapsed_ticks));
    if perf.samples % NET_PERF_TIME_CHECK_SAMPLES != 0 {
        return None;
    }
    let frequency: usize = or_one(frequency);
    if perf.last_report == 0 {
        perf.last_report = now;
        return None;
    }
    let elapsed: usize = now.wrapping_sub(perf.last_report);
    if elapsed < stream::saturating_product(frequency, NET_PERF_REPORT_INTERVAL_SECS) {
        return None;
    }
    let polls: usize = match perf.full_polls.checked_add(perf.stack_polls) {
        Some(n) => n,
        None => usize::MAX,
    };
    let report = PollReport {
        elapsed_ms: stream::saturating_product(elapsed, 1000) / frequency,
        full_progress: perf.full_progress,
        full_polls: perf.full_polls,
        stack_progress: perf.stack_progress,
        stack_polls: perf.stack_polls,
        lock_busy: perf.lock_busy,
        poll_permille: stream::saturating_product(perf.poll_ticks, 1000) / or_one(elapsed),
        poll_ticks_avg: perf.poll_ticks / or_one(polls),
        poll_ticks_max: perf.poll_ticks_max,
    };
    *perf =
    PollPerf {
        samples: perf.samples,
        last_report: now,
        full_polls: 0,
        full_progress: 0,
        stack_polls: 0,
        stack_progress: 0,
        lock_busy: 0,
        poll_ticks: 0,
        poll_ticks_max: 0,
    };
    Some(report)
}

} // verus!
