//! A bounded queue with a flag for each end.
use vstd::prelude::*;
use std::collections::VecDeque;

verus! {

/// A queue of at most `capacity` items. One flag says that its reader has
/// stopped reading, the other that its writer has stopped writing.
#[derive(Debug)]
pub struct RingBuffer<T> {
    pub deque: VecDeque<T>,
    pub capacity: usize,
    pub recv_shutdown: bool,
    pub send_shutdown: bool,
}

impl<T> View for RingBuffer<T> {
    type V = Seq<T>;

    open spec fn view(&self) -> Seq<T> {
        self.deque@
    }
}

impl<T> RingBuffer<T> {
    pub open spec fn wf(self) -> bool {
        self@.len() <= self.capacity
    }

    /// All but the contents is the same.
    pub open spec fn same_frame(self, other: RingBuffer<T>) -> bool {
        &&& self.capacity == other.capacity
        &&& self.recv_shutdown == other.recv_shutdown
        &&& self.send_shutdown == other.send_shutdown
    }

    /// An empty queue, which is counted.
    pub fn new(capacity: usize, stats: &mut RingStats) -> (r: RingBuffer<T>)
        ensures
            r.wf(),
            r@ == Seq::<T>::empty(),
            r.capacity == capacity,
            !r.recv_shutdown,
            !r.send_shutdown,
            *final(stats) == old(stats).made(capacity),
    {
        stats.ring_made(capacity);
        RingBuffer {
            deque: VecDeque::with_capacity(capacity),
            capacity,
            recv_shutdown: false,
            send_shutdown: false,
        }
    }

    /// Gives the queue and what is left in it up, and takes it out of the count.
    pub fn release(self, stats: &mut RingStats)
        ensures
            *final(stats) == old(stats).gone(self.capacity),
    {
        stats.ring_gone(self.capacity);
    }

    /// Adds an item at the end; nothing happens where there is no room.
    pub fn push(&mut self, item: T) -> (r: Option<()>)
        requires
            old(self).wf(),
        ensures
            final(self).wf(),
            final(self).same_frame(*old(self)),
            r is Some <==> old(self)@.len() < old(self).capacity,
            final(self)@ == if r is Some {
                old(self)@.push(item)
            } else {
                old(self)@
            },
    {
        if self.deque.len() >= self.capacity {
            return None;
        }
        self.deque.push_back(item);
        Some(())
    }

    /// Adds clones of all items at the end, or none where not all fit. Where a
    /// clone is equal to its original, the items themselves are added.
    pub fn push_slice(&mut self, items: &[T]) -> (r: Option<()>) where T: Clone
        requires
            old(self).wf(),
        ensures
            final(self).wf(),
            final(self).same_frame(*old(self)),
            r is Some <==> old(self)@.len() + items@.len() <= old(self).capacity,
            r is None ==> final(self)@ == old(self)@,
            r is Some ==> {
                &&& final(self)@.len() == old(self)@.len() + items@.len()
                &&& final(self)@.take(old(self)@.len() as int) == old(self)@
                &&& all_cloned(items@, final(self)@.skip(old(self)@.len() as int))
            },
            r is Some && clones_are_equal::<T>() ==> final(self)@ == old(self)@ + items@,
    {
        if items.len() > self.capacity - self.deque.len() {
            return None;
        }
        let ghost before = self@;
        let mut i: usize = 0;
        while i < items.len()
            invariant
                i <= items@.len(),
                before == old(self)@,
                before.len() + items@.len() <= self.capacity,
                self.same_frame(*old(self)),
                self@.len() == before.len() + i,
                self@.take(before.len() as int) =~= before,
                forall|j: int|
                    0 <= j < i ==> cloned(#[trigger] items@[j], self@[before.len() + j]),
            decreases items@.len() - i,
        {
            let ghost so_far = self@;
            self.deque.push_back(items[i].clone());
            proof {
                assert(forall|j: int| 0 <= j < so_far.len() ==> #[trigger] self@[j] == so_far[j]);
                assert(self@.take(before.len() as int) =~= so_far.take(before.len() as int));
            }
            i = i + 1;
        }
        proof {
            let added = self@.skip(before.len() as int);
            assert forall|j: int| 0 <= j < items@.len() implies cloned(
                #[trigger] items@[j],
                added[j],
            ) by {
                assert(added[j] == self@[before.len() + j]);
            }
            if clones_are_equal::<T>() {
                assert forall|j: int| 0 <= j < self@.len() implies self@[j] == (before + items@)[j] by {
                    if j < before.len() {
                        assert(self@[j] == self@.take(before.len() as int)[j]);
                    } else {
                        assert(cloned(items@[j - before.len()], added[j - before.len()]));
                    }
                }
                assert(self@ =~= before + items@);
            }
        }
        Some(())
    }

    /// Takes the first item.
    pub fn pop(&mut self) -> (r: Option<T>)
        requires
            old(self).wf(),
        ensures
            final(self).wf(),
            final(self).same_frame(*old(self)),
            match r {
                Some(x) => old(self)@.len() > 0 && x == old(self)@[0] && final(self)@
                    == old(self)@.drop_first(),
                None => old(self)@.len() == 0 && final(self)@ == old(self)@,
            },
    {
        let r = self.deque.pop_front();
        proof {
            if old(self)@.len() > 0 {
                assert(self@ =~= old(self)@.drop_first());
            }
        }
        r
    }

    /// Moves items to the front of `buf`, as many as there are and fit.
    pub fn pop_slice(&mut self, buf: &mut [T]) -> (r: usize)
        requires
            old(self).wf(),
        ensures
            final(self).wf(),
            final(self).same_frame(*old(self)),
            r == if old(buf)@.len() <= old(self)@.len() {
                old(buf)@.len()
            } else {
                old(self)@.len()
            },
            final(buf)@ == old(self)@.take(r as int) + old(buf)@.skip(r as int),
            final(self)@ == old(self)@.skip(r as int),
    {
        let n: usize = if buf.len() < self.deque.len() {
            buf.len()
        } else {
            self.deque.len()
        };
        let ghost q = self@;
        let ghost b = buf@;
        let mut i: usize = 0;
        assert(q.skip(0) =~= q);
        while i < n
            invariant
                i <= n,
                n <= q.len(),
                n <= b.len(),
                buf@.len() == b.len(),
                self.wf(),
                self.same_frame(*old(self)),
                self@ == q.skip(i as int),
                buf@ =~= q.take(i as int) + b.skip(i as int),
            decreases n - i,
        {
            match self.pop() {
                Some(x) => {
                    proof {
                        assert(q.skip(i as int).drop_first() =~= q.skip(i + 1));
                        assert(q.skip(i as int)[0] == q[i as int]);
                    }
                    buf[i] = x;
                },
                None => {},
            }
            i = i + 1;
        }
        n
    }

    /// Copies items to the front of `buf`, as many as there are and fit. The
    /// items stay in the queue.
    pub fn peek_slice(&self, buf: &mut [T]) -> (r: usize) where T: Copy
        ensures
            r == if old(buf)@.len() <= self@.len() {
                old(buf)@.len()
            } else {
                self@.len()
            },
            final(buf)@ == self@.take(r as int) + old(buf)@.skip(r as int),
    {
        let n: usize = if buf.len() < self.deque.len() {
            buf.len()
        } else {
            self.deque.len()
        };
        let ghost b = buf@;
        let mut i: usize = 0;
        while i < n
            invariant
                i <= n,
                n <= self@.len(),
                n <= b.len(),
                buf@.len() == b.len(),
                buf@ =~= self@.take(i as int) + b.skip(i as int),
            decreases n - i,
        {
            buf[i] = self.deque[i];
            i = i + 1;
        }
        n
    }

    pub fn is_empty(&self) -> (r: bool)
        ensures
            r == (self@.len() == 0),
    {
        self.deque.len() == 0
    }

    pub fn is_full(&self) -> (r: bool)
        ensures
            r == (self@.len() >= self.capacity),
    {
        self.deque.len() >= self.capacity
    }

    pub fn len(&self) -> (r: usize)
        ensures
            r == self@.len(),
    {
        self.deque.len()
    }

    /// How many items there is room for.
    pub fn free_len(&self) -> (r: usize)
        requires
            self.wf(),
        ensures
            r == self.capacity - self@.len(),
    {
        self.capacity - self.deque.len()
    }

    pub fn cap(&self) -> (r: usize)
        ensures
            r == self.capacity,
    {
        self.capacity
    }

    /// The reader has stopped reading.
    pub fn set_recv_shutdown(&mut self)
        ensures
            *final(self) == (RingBuffer { recv_shutdown: true, ..*old(self) }),
    {
        self.recv_shutdown = true;
    }

    pub fn is_recv_shutdown(&self) -> (r: bool)
        ensures
            r == self.recv_shutdown,
    {
        self.recv_shutdown
    }

    /// The writer has stopped writing.
    pub fn set_send_shutdown(&mut self)
        ensures
            *final(self) == (RingBuffer { send_shutdown: true, ..*old(self) }),
    {
        self.send_shutdown = true;
    }

    pub fn is_send_shutdown(&self) -> (r: bool)
        ensures
            r == self.send_shutdown,
    {
        self.send_shutdown
    }
}

/// Each item of `b` is a clone of the item of `a` at its place.
pub open spec fn all_cloned<T: Clone>(a: Seq<T>, b: Seq<T>) -> bool {
    &&& a.len() == b.len()
    &&& forall|i: int| 0 <= i < a.len() ==> cloned(#[trigger] a[i], b[i])
}

/// The clone of a value of this type is equal to it.
pub open spec fn clones_are_equal<T: Clone>() -> bool {
    forall|x: T, y: T| #[trigger] cloned(x, y) ==> x == y
}

/// How many queues there are, and how many items they can hold together.
#[derive(Clone, Copy, Debug, PartialEq, Eq, Structural)]
pub struct RingStats {
    pub count: usize,
    pub bytes: usize,
}

impl RingStats {
    pub fn new() -> (r: RingStats)
        ensures
            r == (RingStats { count: 0, bytes: 0 }),
    {
        RingStats { count: 0, bytes: 0 }
    }

    /// The counters after a queue was made.
    pub open spec fn made(self, capacity: usize) -> RingStats {
        RingStats {
            count: self.count.wrapping_add(1),
            bytes: self.bytes.wrapping_add(capacity),
        }
    }

    /// The counters after a queue is gone.
    pub open spec fn gone(self, capacity: usize) -> RingStats {
        RingStats {
            count: self.count.wrapping_sub(1),
            bytes: self.bytes.wrapping_sub(capacity),
        }
    }

    /// A queue was made.
    pub fn ring_made(&mut self, capacity: usize)
        ensures
            *final(self) == old(self).made(capacity),
    {
        self.count = self.count.wrapping_add(1);
        self.bytes = self.bytes.wrapping_add(capacity);
    }

    /// A queue is gone.
    pub fn ring_gone(&mut self, capacity: usize)
        ensures
            *final(self) == old(self).gone(capacity),
    {
        self.count = self.count.wrapping_sub(1);
        self.bytes = self.bytes.wrapping_sub(capacity);
    }
}

/// How many queues there are.
pub fn rb_alive(stats: &RingStats) -> (r: usize)
    ensures
        r == stats.count,
{
    stats.count
}

/// How many items the queues can hold together.
pub fn rb_bytes(stats: &RingStats) -> (r: usize)
    ensures
        r == stats.bytes,
{
    stats.bytes
}

/// A queue that was made and given up again leaves the counters as they were,
/// and while it is there they say one queue more, with its capacity.
pub proof fn law_count_is_restored(stats: RingStats, capacity: usize)
    ensures
        stats.made(capacity).gone(capacity) == stats,
        stats.gone(capacity).made(capacity) == stats,
        stats.count < usize::MAX ==> stats.made(capacity).count == stats.count + 1,
        stats.bytes + capacity <= usize::MAX ==> stats.made(capacity).bytes == stats.bytes
            + capacity,
{
}

/// What is written in two pieces comes out as one, in order, however it is
/// read: what was taken out and what is left make up what was put in.
pub proof fn law_ring_is_fifo<T>(q: Seq<T>, a: Seq<T>, b: Seq<T>, n: int)
    requires
        0 <= n <= q.len() + a.len() + b.len(),
    ensures
        ((q + a) + b).take(n) + ((q + a) + b).skip(n) == q + (a + b),
{
    assert(((q + a) + b).take(n) + ((q + a) + b).skip(n) =~= q + (a + b));
}

} // verus!
