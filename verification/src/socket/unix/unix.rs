//! A socket over two pipes.
use vstd::prelude::*;
use crate::arena::Arena;
use crate::error::SyscallErr;
use crate::socket;
use crate::socket::unix::ring_buffer;
use crate::socket::unix::ring_buffer::{RingBuffer, RingStats};

verus! {

/// Pipes of `N` bytes each, which are known by their numbers. No one waits for
/// a pipe: what cannot be done at once is refused. That a pipe holds `N` bytes,
/// answers `EAGAIN` where it is full or empty and `EIO` where there is no such
/// pipe is this module's own choice; the pipes of a file system may do
/// otherwise.
pub struct Pipes<const N: usize> {
    pub pipes: Arena<RingBuffer<u8>>,
    pub stats: RingStats,
}

/// What [`Pipes`] hold.
#[verifier::ext_equal]
pub struct PipesModel {
    pub data: Map<u64, Seq<u8>>,
    pub next: u64,
}

impl<const N: usize> View for Pipes<N> {
    type V = PipesModel;

    open spec fn view(&self) -> PipesModel {
        PipesModel {
            data: Map::new(|id: u64| self.pipes@.contains_key(id), |id: u64| self.pipes@[id]@),
            next: self.pipes.next_id(),
        }
    }
}

/// What a write of `x` to a pipe does: as much as fits goes to its end.
pub open spec fn pipe_written(m: PipesModel, id: u64, size: usize, x: Seq<u8>) -> (
    PipesModel,
    isize,
) {
    if !m.data.contains_key(id) {
        (m, SyscallErr::EIO.spec_ret() as isize)
    } else {
        let n = socket::unix::min_int(x.len() as int, size - m.data[id].len());
        if n == 0 && x.len() > 0 {
            (m, SyscallErr::EAGAIN.spec_ret() as isize)
        } else {
            (
                PipesModel { data: m.data.insert(id, m.data[id] + x.take(n)), ..m },
                n as isize,
            )
        }
    }
}

/// What a read of at most `k` bytes from a pipe does: as many as there are come
/// from its front.
pub open spec fn pipe_read(m: PipesModel, id: u64, k: int) -> (PipesModel, Seq<u8>, isize) {
    if !m.data.contains_key(id) {
        (m, Seq::empty(), SyscallErr::EIO.spec_ret() as isize)
    } else {
        let n = socket::unix::min_int(k, m.data[id].len() as int);
        if n == 0 && k > 0 {
            (m, Seq::empty(), SyscallErr::EAGAIN.spec_ret() as isize)
        } else {
            (
                PipesModel { data: m.data.insert(id, m.data[id].skip(n)), ..m },
                m.data[id].take(n),
                n as isize,
            )
        }
    }
}

impl<const N: usize> Pipes<N> {
    pub open spec fn wf(self) -> bool {
        &&& self.pipes.wf()
        &&& forall|id: u64|
            self.pipes@.contains_key(id) ==> (#[trigger] self.pipes@[id]).wf()
                && self.pipes@[id].capacity == N
    }

    pub fn new() -> (r: Pipes<N>)
        ensures
            r.wf(),
            r@ == (PipesModel { data: Map::empty(), next: 0 }),
    {
        let r = Pipes { pipes: Arena::new(), stats: RingStats::new() };
        assert(r@.data =~= Map::<u64, Seq<u8>>::empty());
        r
    }

    /// Makes an empty pipe; nothing once the numbers are used up.
    pub fn make_pipe(&mut self) -> (r: Option<u64>)
        requires
            old(self).wf(),
        ensures
            final(self).wf(),
            match r {
                Some(id) => id == old(self)@.next && final(self)@ == (PipesModel {
                    data: old(self)@.data.insert(id, Seq::empty()),
                    next: (id + 1) as u64,
                }),
                None => old(self)@.next == u64::MAX && final(self)@ == old(self)@,
            },
    {
        if self.pipes.next_number() == u64::MAX {
            return None;
        }
        let pipe = RingBuffer::new(N, &mut self.stats);
        let r = self.pipes.insert(pipe);
        proof {
            if let Some(id) = r {
                assert(self@.data =~= old(self)@.data.insert(id, Seq::empty()));
            }
        }
        r
    }

    /// Writes to a pipe: the number of bytes that it took, or a negative error
    /// number.
    pub fn write(&mut self, id: u64, buf: &[u8]) -> (r: isize)
        requires
            old(self).wf(),
            buf@.len() <= isize::MAX,
        ensures
            final(self).wf(),
            (final(self)@, r) == pipe_written(old(self)@, id, N, buf@),
    {
        let ghost m = self@;
        let mut pipe = match self.pipes.take(id) {
            Some(p) => p,
            None => {
                assert(self@.data =~= m.data);
                return SyscallErr::EIO.ret();
            },
        };
        let ghost before = pipe@;
        assert(before == m.data[id]);
        let free: usize = pipe.free_len();
        let n: usize = if buf.len() < free {
            buf.len()
        } else {
            free
        };
        let part = vstd::slice::slice_subrange(buf, 0, n);
        assert(ring_buffer::clones_are_equal::<u8>());
        let _ = pipe.push_slice(part);
        proof {
            assert(part@ =~= buf@.take(n as int));
            if n == 0 {
                assert(pipe@ =~= before);
            }
        }
        let ghost after = pipe@;
        self.pipes.put(id, pipe);
        assert(self@.data =~= m.data.insert(id, after));
        if n == 0 && buf.len() > 0 {
            assert(self@.data =~= m.data);
            return SyscallErr::EAGAIN.ret();
        }
        n as isize
    }

    /// Reads from a pipe into the front of `buf`: the number of bytes that came,
    /// or a negative error number.
    pub fn read(&mut self, id: u64, buf: &mut [u8]) -> (r: isize)
        requires
            old(self).wf(),
            old(buf)@.len() <= isize::MAX,
        ensures
            final(self).wf(),
            ({
                let (m, got, n) = pipe_read(old(self)@, id, old(buf)@.len() as int);
                &&& final(self)@ == m
                &&& r == n
                &&& final(buf)@ == got + old(buf)@.skip(got.len() as int)
            }),
    {
        let ghost m = self@;
        let ghost b = buf@;
        assert(Seq::<u8>::empty() + b.skip(0) =~= b);
        let mut pipe = match self.pipes.take(id) {
            Some(p) => p,
            None => {
                assert(self@.data =~= m.data);
                return SyscallErr::EIO.ret();
            },
        };
        let ghost before = pipe@;
        assert(before == m.data[id]);
        let n: usize = pipe.pop_slice(buf);
        let ghost after = pipe@;
        self.pipes.put(id, pipe);
        proof {
            assert(self@.data =~= m.data.insert(id, after));
            assert(n == socket::unix::min_int(b.len() as int, before.len() as int));
            if n == 0 {
                assert(before.skip(0) =~= before);
                assert(before.take(0) =~= Seq::<u8>::empty());
            }
        }
        if n == 0 && buf.len() > 0 {
            assert(self@.data =~= m.data);
            return SyscallErr::EAGAIN.ret();
        }
        n as isize
    }
}

/// One end of a two-way connection over two pipes.
#[derive(Clone, Copy, Debug)]
pub struct UnixSocket<const N: usize> {
    /// The pipe that this end reads.
    pub read_end: u64,
    /// The pipe that this end writes.
    pub write_end: u64,
}

/// What the answer of a pipe means: a number of bytes, that it is not ready,
/// or that it failed.
pub open spec fn pipe_answer(n: isize) -> Result<isize, SyscallErr> {
    if n >= 0 {
        Ok(n)
    } else if n == SyscallErr::EAGAIN.spec_ret() {
        Err(SyscallErr::EAGAIN)
    } else {
        Err(SyscallErr::EIO)
    }
}

/// What the answer of a pipe means.
pub fn answer_of(n: isize) -> (r: Result<isize, SyscallErr>)
    ensures
        r == pipe_answer(n),
{
    if n >= 0 {
        Ok(n)
    } else if n == SyscallErr::EAGAIN.ret() {
        Err(SyscallErr::EAGAIN)
    } else {
        Err(SyscallErr::EIO)
    }
}

/// What an end does that writes `x`.
pub open spec fn sent<const N: usize>(m: PipesModel, s: UnixSocket<N>, x: Seq<u8>) -> (
    PipesModel,
    Result<isize, SyscallErr>,
) {
    let (m2, n) = pipe_written(m, s.write_end, N, x);
    (m2, pipe_answer(n))
}

/// What an end does that reads at most `k` bytes.
pub open spec fn received<const N: usize>(m: PipesModel, s: UnixSocket<N>, k: int) -> (
    PipesModel,
    Seq<u8>,
    Result<isize, SyscallErr>,
) {
    let (m2, got, n) = pipe_read(m, s.read_end, k);
    (m2, got, pipe_answer(n))
}

impl<const N: usize> UnixSocket<N> {
    pub fn new(read_end: u64, write_end: u64) -> (r: UnixSocket<N>)
        ensures
            r == (UnixSocket::<N> { read_end, write_end }),
    {
        UnixSocket { read_end, write_end }
    }

    /// Reads what the other end wrote.
    pub fn try_recv(&self, pipes: &mut Pipes<N>, buf: &mut [u8]) -> (r: Result<isize, SyscallErr>)
        requires
            old(pipes).wf(),
            old(buf)@.len() <= isize::MAX,
        ensures
            final(pipes).wf(),
            ({
                let (m, got, result) = received(old(pipes)@, *self, old(buf)@.len() as int);
                &&& final(pipes)@ == m
                &&& r == result
                &&& final(buf)@ == got + old(buf)@.skip(got.len() as int)
            }),
    {
        let n: isize = pipes.read(self.read_end, buf);
        answer_of(n)
    }

    /// Writes what the other end is to read.
    pub fn try_send(&self, pipes: &mut Pipes<N>, buf: &[u8]) -> (r: Result<isize, SyscallErr>)
        requires
            old(pipes).wf(),
            buf@.len() <= isize::MAX,
        ensures
            final(pipes).wf(),
            (final(pipes)@, r) == sent(old(pipes)@, *self, buf@),
    {
        let n: isize = pipes.write(self.write_end, buf);
        answer_of(n)
    }

    /// Nothing is shut down, and that is no error.
    pub fn shutdown(&self, _how: u32) -> (r: Result<(), SyscallErr>)
        ensures
            r == Ok::<(), SyscallErr>(()),
    {
        Ok(())
    }
}

/// The pipes with two more, and the two sockets over them.
pub open spec fn pair_made<const N: usize>(m: PipesModel) -> (
    PipesModel,
    UnixSocket<N>,
    UnixSocket<N>,
) {
    let a = m.next;
    let b = (a + 1) as u64;
    (
        PipesModel {
            data: m.data.insert(a, Seq::empty()).insert(b, Seq::empty()),
            next: (b + 1) as u64,
        },
        UnixSocket { read_end: a, write_end: b },
        UnixSocket { read_end: b, write_end: a },
    )
}

/// Makes two sockets over two new pipes: what one writes the other reads.
/// Nothing where the numbers for two pipes are not left.
pub fn make_unix_socket_pair<const N: usize>(pipes: &mut Pipes<N>) -> (r: Option<
    (UnixSocket<N>, UnixSocket<N>),
>)
    requires
        old(pipes).wf(),
    ensures
        final(pipes).wf(),
        match r {
            Some((s, t)) => (final(pipes)@, s, t) == pair_made::<N>(old(pipes)@)
                && old(pipes)@.next < u64::MAX - 1,
            None => old(pipes)@.next >= u64::MAX - 1 && final(pipes)@ == old(pipes)@,
        },
{
    if pipes.pipes.next_number() >= u64::MAX - 1 {
        return None;
    }
    let a: u64 = match pipes.make_pipe() {
        Some(id) => id,
        None => return None,
    };
    let b: u64 = match pipes.make_pipe() {
        Some(id) => id,
        None => return None,
    };
    Some((UnixSocket::new(a, b), UnixSocket::new(b, a)))
}

/// Two sockets over the same two pipes, crosswise.
pub open spec fn are_ends<const N: usize>(m: PipesModel, s: UnixSocket<N>, t: UnixSocket<N>) -> bool {
    &&& s.read_end == t.write_end
    &&& s.write_end == t.read_end
    &&& s.read_end != s.write_end
    &&& m.data.contains_key(s.read_end)
    &&& m.data.contains_key(s.write_end)
}

/// A new pair is two ends of a connection on which nothing waits. What one end
/// writes the other reads from the first byte on, and the writer itself finds
/// nothing to read.
pub proof fn law_pair_is_a_two_way_pipe<const N: usize>(m: PipesModel, x: Seq<u8>, k: int)
    requires
        m.next < u64::MAX - 1,
        0 < x.len() <= isize::MAX,
        0 < k <= isize::MAX,
    ensures
        ({
            let (pair, s, t) = pair_made::<N>(m);
            &&& are_ends(pair, s, t)
            &&& are_ends(pair, t, s)
            &&& reads_back(pair, s, t, x, k)
            &&& reads_back(pair, t, s, x, k)
        }),
{
    let (pair, s, t) = pair_made::<N>(m);
    lemma_reads_back(pair, s, t, x, k);
    lemma_reads_back(pair, t, s, x, k);
}

/// Both ends of a new pair can write before either reads: each then reads what
/// the other wrote, from the first byte on, and nothing of its own.
pub proof fn law_pair_carries_both_ways<const N: usize>(
    m: PipesModel,
    x: Seq<u8>,
    y: Seq<u8>,
    k: int,
)
    requires
        m.next < u64::MAX - 1,
        N > 0,
        0 < x.len() <= isize::MAX,
        0 < y.len() <= isize::MAX,
        0 < k <= isize::MAX,
    ensures
        ({
            let (pair, s, t) = pair_made::<N>(m);
            let (m1, r1) = sent(pair, s, x);
            let (m2, r2) = sent(m1, t, y);
            let (_, at_t, _) = received(m2, t, k);
            let (_, at_s, _) = received(m2, s, k);
            &&& r1 == Ok::<isize, SyscallErr>(
                socket::unix::min_int(x.len() as int, N as int) as isize,
            )
            &&& r2 == Ok::<isize, SyscallErr>(
                socket::unix::min_int(y.len() as int, N as int) as isize,
            )
            &&& at_t == x.take(
                socket::unix::min_int(k, socket::unix::min_int(x.len() as int, N as int)),
            )
            &&& at_s == y.take(
                socket::unix::min_int(k, socket::unix::min_int(y.len() as int, N as int)),
            )
        }),
{
    assert(SyscallErr::EAGAIN.spec_ret() == -11);
    let n = socket::unix::min_int(x.len() as int, N as int);
    let p = socket::unix::min_int(y.len() as int, N as int);
    assert(Seq::<u8>::empty() + x.take(n) =~= x.take(n));
    assert(Seq::<u8>::empty() + y.take(p) =~= y.take(p));
    assert(x.take(n).take(socket::unix::min_int(k, n)) =~= x.take(socket::unix::min_int(k, n)));
    assert(y.take(p).take(socket::unix::min_int(k, p)) =~= y.take(socket::unix::min_int(k, p)));
}

/// What `s` writes over an empty connection, `t` reads back and `s` does not
/// see: the first bytes, as many as the pipe takes, and then nothing more.
pub open spec fn reads_back<const N: usize>(
    m: PipesModel,
    s: UnixSocket<N>,
    t: UnixSocket<N>,
    x: Seq<u8>,
    k: int,
) -> bool {
    let (written, r) = sent(m, s, x);
    let (_, own, own_r) = received(written, s, k);
    let (rest, got, got_r) = received(written, t, k);
    match r {
        Ok(n) => {
            &&& n == socket::unix::min_int(x.len() as int, N as int)
            &&& got == x.take(socket::unix::min_int(k, n as int))
            &&& got_r == Ok::<isize, SyscallErr>(socket::unix::min_int(k, n as int) as isize)
            &&& rest.data[t.read_end] == x.take(n as int).skip(socket::unix::min_int(k, n as int))
            &&& own == Seq::<u8>::empty()
            &&& own_r == Err::<isize, SyscallErr>(SyscallErr::EAGAIN)
        },
        Err(e) => N == 0 && e == SyscallErr::EAGAIN,
    }
}

proof fn lemma_reads_back<const N: usize>(
    m: PipesModel,
    s: UnixSocket<N>,
    t: UnixSocket<N>,
    x: Seq<u8>,
    k: int,
)
    requires
        are_ends(m, s, t),
        m.data[s.read_end].len() == 0,
        m.data[s.write_end].len() == 0,
        0 < x.len() <= isize::MAX,
        0 < k <= isize::MAX,
    ensures
        reads_back(m, s, t, x, k),
{
    assert(SyscallErr::EAGAIN.spec_ret() == -11);
    let n = socket::unix::min_int(x.len() as int, N as int);
    assert(m.data[s.write_end] + x.take(n) =~= x.take(n));
    assert(x.take(n).take(socket::unix::min_int(k, n)) =~= x.take(socket::unix::min_int(k, n)));
}

/// The two directions never mix, whatever is under way: what one end writes
/// goes behind what it wrote before, what the other end reads comes from the
/// front of that, and neither touches the bytes of the other direction.
pub proof fn law_directions_do_not_mix<const N: usize>(
    m: PipesModel,
    s: UnixSocket<N>,
    t: UnixSocket<N>,
    x: Seq<u8>,
    k: int,
)
    requires
        are_ends(m, s, t),
        m.data[s.write_end].len() <= N,
        x.len() <= isize::MAX,
        0 <= k <= isize::MAX,
    ensures
        ({
            let (written, r) = sent(m, s, x);
            let (left, got, q) = received(m, t, k);
            &&& are_ends(written, s, t)
            &&& are_ends(left, s, t)
            &&& written.data[s.read_end] == m.data[s.read_end]
            &&& left.data[s.read_end] == m.data[s.read_end]
            &&& r matches Ok(n) ==> 0 <= n <= x.len() && written.data[t.read_end]
                == m.data[t.read_end] + x.take(n as int)
            &&& r is Err ==> written == m
            &&& q matches Ok(n) ==> n == got.len() && got + left.data[t.read_end]
                == m.data[t.read_end]
            &&& q is Err ==> left == m
        }),
{
    assert(SyscallErr::EAGAIN.spec_ret() == -11);
    let n = socket::unix::min_int(k, m.data[t.read_end].len() as int);
    assert(m.data[t.read_end].take(n) + m.data[t.read_end].skip(n) =~= m.data[t.read_end]);
}

} // verus!
