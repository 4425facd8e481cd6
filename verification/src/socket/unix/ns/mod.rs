//! Names of Unix domain sockets and the sockets that have them.
use vstd::prelude::*;
use vstd::string::{StrSliceExecFns, StringExecFns};
use crate::arena::Arena;
use crate::bytes;
use crate::error::SyscallErr;
use crate::seqs;
use crate::socket::unix::{UnixEndpointBound, UnixName};

verus! {

/// The most bytes of a path, the final zero counted.
pub const UNIX_PATH_MAX: usize = 108;

/// A path below a directory.
pub open spec fn joined_path(dir: Seq<char>, name: Seq<char>) -> Seq<char> {
    if dir == "/"@ || dir.len() == 0 {
        "/"@ + name
    } else {
        dir + "/"@ + name
    }
}

/// The path of a file of a directory.
pub fn join_path(dir: &str, name: &str) -> (r: String)
    ensures
        r@ == joined_path(dir@, name@),
{
    let mut out = String::new();
    if seqs::str_eq(dir, "/") || dir.unicode_len() == 0 {
        out.append("/");
        out.append(name);
        assert(out@ =~= "/"@ + name@);
    } else {
        out.append(dir);
        out.append("/");
        out.append(name);
        assert(out@ =~= dir@ + "/"@ + name@);
    }
    out
}

/// A name and the number of the socket that has it.
pub struct NameRow {
    pub name: UnixEndpointBound,
    pub socket: u64,
}

/// Which socket has which name.
pub struct NameTable {
    pub rows: Vec<NameRow>,
}

/// What rows say; of two with one name the later counts.
pub open spec fn rows_map(rows: Seq<NameRow>) -> Map<UnixName, u64>
    decreases rows.len(),
{
    if rows.len() == 0 {
        Map::empty()
    } else {
        rows_map(rows.drop_last()).insert(rows.last().name@, rows.last().socket)
    }
}

impl View for NameTable {
    type V = Map<UnixName, u64>;

    open spec fn view(&self) -> Map<UnixName, u64> {
        rows_map(self.rows@)
    }
}

proof fn lemma_rows_skip(rows: Seq<NameRow>, i: int, name: UnixName)
    requires
        0 <= i <= rows.len(),
        forall|j: int| i <= j < rows.len() ==> (#[trigger] rows[j]).name@ != name,
    ensures
        rows_map(rows).contains_key(name) == rows_map(rows.take(i)).contains_key(name),
        rows_map(rows).contains_key(name) ==> rows_map(rows)[name] == rows_map(
            rows.take(i),
        )[name],
    decreases rows.len(),
{
    if i < rows.len() {
        let t = rows.drop_last();
        assert(rows.last() == rows[rows.len() - 1]);
        assert forall|j: int| i <= j < t.len() implies (#[trigger] t[j]).name@ != name by {
            assert(t[j] == rows[j]);
        }
        lemma_rows_skip(t, i, name);
        assert(t.take(i) =~= rows.take(i));
    } else {
        assert(rows.take(i) =~= rows);
    }
}

proof fn lemma_rows_remove(rows: Seq<NameRow>, i: int)
    requires
        0 <= i < rows.len(),
        forall|j: int| 0 <= j < rows.len() && j != i ==> (#[trigger] rows[j]).name@ != rows[i].name@,
    ensures
        rows_map(rows.remove(i)) == rows_map(rows).remove(rows[i].name@),
    decreases rows.len(),
{
    let t = rows.drop_last();
    let last = rows.last();
    let name = rows[i].name@;
    if i == rows.len() - 1 {
        assert(rows.remove(i) =~= t);
        assert forall|j: int| 0 <= j < t.len() implies (#[trigger] t[j]).name@ != name by {
            assert(t[j] == rows[j]);
        }
        lemma_rows_skip(t, 0, name);
        assert(t.take(0) =~= Seq::<NameRow>::empty());
        assert(rows_map(rows).remove(name) =~= rows_map(t));
    } else {
        assert(t[i] == rows[i]);
        assert forall|j: int| 0 <= j < t.len() && j != i implies (#[trigger] t[j]).name@
            != t[i].name@ by {
            assert(t[j] == rows[j]);
        }
        lemma_rows_remove(t, i);
        assert(rows.remove(i).drop_last() =~= t.remove(i));
        assert(rows.remove(i).last() == last);
        assert(rows[rows.len() - 1] == last);
        assert(rows_map(rows.remove(i)) =~= rows_map(rows).remove(name));
    }
}

impl NameTable {
    /// No name stands twice.
    pub open spec fn wf(self) -> bool {
        forall|i: int, j: int|
            0 <= i < j < self.rows@.len() ==> self.rows@[i].name@ != self.rows@[j].name@
    }

    pub fn new() -> (r: NameTable)
        ensures
            r.wf(),
            r@ == Map::<UnixName, u64>::empty(),
    {
        NameTable { rows: Vec::new() }
    }

    fn position(&self, name: &UnixEndpointBound) -> (r: Option<usize>)
        requires
            self.wf(),
        ensures
            match r {
                Some(i) => {
                    &&& i < self.rows@.len()
                    &&& self.rows@[i as int].name@ == name@
                    &&& self@.contains_key(name@)
                    &&& self@[name@] == self.rows@[i as int].socket
                },
                None => !self@.contains_key(name@) && forall|j: int|
                    0 <= j < self.rows@.len() ==> (#[trigger] self.rows@[j]).name@ != name@,
            },
    {
        let mut i: usize = self.rows.len();
        while i > 0
            invariant
                i <= self.rows@.len(),
                self.wf(),
                forall|j: int| i <= j < self.rows@.len() ==> (#[trigger] self.rows@[j]).name@ != name@,
            decreases i,
        {
            i = i - 1;
            if self.rows[i].name.same(name) {
                proof {
                    lemma_rows_skip(self.rows@, i + 1, name@);
                    assert(self.rows@.take(i + 1).last() == self.rows@[i as int]);
                }
                return Some(i);
            }
        }
        proof {
            lemma_rows_skip(self.rows@, 0, name@);
            assert(self.rows@.take(0) =~= Seq::<NameRow>::empty());
        }
        None
    }

    /// The socket that has a name.
    pub fn get(&self, name: &UnixEndpointBound) -> (r: Option<u64>)
        requires
            self.wf(),
        ensures
            r == if self@.contains_key(name@) {
                Some(self@[name@])
            } else {
                None
            },
    {
        match self.position(name) {
            Some(i) => Some(self.rows[i].socket),
            None => None,
        }
    }

    /// Takes a name out.
    pub fn remove(&mut self, name: &UnixEndpointBound)
        requires
            old(self).wf(),
        ensures
            final(self).wf(),
            final(self)@ == old(self)@.remove(name@),
    {
        match self.position(name) {
            Some(i) => {
                proof {
                    lemma_rows_remove(self.rows@, i as int);
                }
                let _ = self.rows.remove(i);
            },
            None => {
                assert(self@ =~= self@.remove(name@));
            },
        }
    }

    /// Gives a name to a socket; who had it before has it no more.
    pub fn insert(&mut self, name: UnixEndpointBound, socket: u64)
        requires
            old(self).wf(),
        ensures
            final(self).wf(),
            final(self)@ == old(self)@.insert(name@, socket),
    {
        let ghost n = name@;
        self.remove(&name);
        let ghost kept = self.rows@;
        proof {
            assert forall|j: int| 0 <= j < kept.len() implies (#[trigger] kept[j]).name@ != n by {
                lemma_row_in_map(kept, j);
            }
        }
        self.rows.push(NameRow { name, socket });
        proof {
            assert(self.rows@.drop_last() =~= kept);
            assert(self@ =~= old(self)@.insert(n, socket));
        }
    }
}

proof fn lemma_row_in_map(rows: Seq<NameRow>, j: int)
    requires
        0 <= j < rows.len(),
    ensures
        rows_map(rows).contains_key(rows[j].name@),
    decreases rows.len(),
{
    if j < rows.len() - 1 {
        lemma_row_in_map(rows.drop_last(), j);
        assert(rows.drop_last()[j] == rows[j]);
    }
}

/// The names of the abstract namespace.
pub struct UnixAbstractTable {
    pub names: NameTable,
    /// The number that the next made-up name spells.
    pub next_id: u64,
}

/// The name made up for a number: its eight bytes, the highest first.
pub open spec fn ephemeral_name(id: u64) -> Seq<u8> {
    bytes::be32((id / 0x1_0000_0000) as u32) + bytes::be32((id % 0x1_0000_0000) as u32)
}

fn ephemeral_bytes(id: u64) -> (r: Vec<u8>)
    ensures
        r@ == ephemeral_name(id),
        r@.len() == 8,
{
    let mut out: Vec<u8> = Vec::new();
    bytes::put_u32_be(&mut out, (id / 0x1_0000_0000) as u32);
    bytes::put_u32_be(&mut out, (id % 0x1_0000_0000) as u32);
    assert(out@ =~= ephemeral_name(id));
    out
}

impl UnixAbstractTable {
    pub open spec fn wf(self) -> bool {
        self.names.wf()
    }

    pub fn new() -> (r: UnixAbstractTable)
        ensures
            r.wf(),
            r.names@ == Map::<UnixName, u64>::empty(),
            r.next_id == 0,
    {
        UnixAbstractTable { names: NameTable::new(), next_id: 0 }
    }

    /// Gives an abstract name to a socket. A name whose socket is gone is free.
    pub fn create_abstract_name_bytes<T>(
        &mut self,
        name: &[u8],
        socket: u64,
        sockets: &Arena<T>,
    ) -> (r: Result<usize, SyscallErr>)
        requires
            old(self).wf(),
        ensures
            final(self).wf(),
            final(self).next_id == old(self).next_id,
            ({
                let key = UnixName::Abstract(name@);
                let held = old(self).names@.contains_key(key) && sockets@.contains_key(
                    old(self).names@[key],
                );
                &&& r == if name@.len() == 0 || name@.len() > UNIX_PATH_MAX {
                    Err::<usize, SyscallErr>(SyscallErr::EINVAL)
                } else if held {
                    Err(SyscallErr::EADDRINUSE)
                } else {
                    Ok(0)
                }
                &&& final(self).names@ == if r is Ok {
                    old(self).names@.insert(key, socket)
                } else {
                    old(self).names@
                }
            }),
    {
        if name.len() == 0 || name.len() > UNIX_PATH_MAX {
            return Err(SyscallErr::EINVAL);
        }
        let copy = bytes::copy_range(name, 0, name.len());
        assert(copy@ =~= name@);
        let key = UnixEndpointBound::Abstract(copy);
        if let Some(id) = self.names.get(&key) {
            if sockets.contains(id) {
                return Err(SyscallErr::EADDRINUSE);
            }
        }
        self.names.insert(key, socket);
        Ok(0)
    }

    /// Gives a socket a name that is made up.
    pub fn alloc_ephemeral_abstract_name<T>(&mut self, socket: u64, sockets: &Arena<T>) -> (r: Result<
        usize,
        SyscallErr,
    >)
        requires
            old(self).wf(),
        ensures
            final(self).wf(),
            final(self).next_id == old(self).next_id.wrapping_add(1),
            ({
                let key = UnixName::Abstract(ephemeral_name(old(self).next_id));
                let held = old(self).names@.contains_key(key) && sockets@.contains_key(
                    old(self).names@[key],
                );
                &&& r == if held {
                    Err::<usize, SyscallErr>(SyscallErr::EADDRINUSE)
                } else {
                    Ok(0)
                }
                &&& final(self).names@ == if r is Ok {
                    old(self).names@.insert(key, socket)
                } else {
                    old(self).names@
                }
            }),
    {
        let id: u64 = self.next_id;
        self.next_id = id.wrapping_add(1);
        let name = ephemeral_bytes(id);
        self.create_abstract_name_bytes(&name, socket, sockets)
    }

    /// The socket that has an abstract name, while it lives.
    pub fn lookup_abstract_name_bytes<T>(&self, name: &[u8], sockets: &Arena<T>) -> (r: Option<u64>)
        requires
            self.wf(),
        ensures
            r == live_socket(self.names@, UnixName::Abstract(name@), sockets@.dom()),
    {
        let copy = bytes::copy_range(name, 0, name.len());
        assert(copy@ =~= name@);
        match self.names.get(&UnixEndpointBound::Abstract(copy)) {
            Some(id) => if sockets.contains(id) {
                Some(id)
            } else {
                None
            },
            None => None,
        }
    }

    /// Takes an abstract name out.
    pub fn remove_abstract_name_bytes(&mut self, name: &[u8])
        requires
            old(self).wf(),
        ensures
            final(self).wf(),
            final(self).next_id == old(self).next_id,
            final(self).names@ == old(self).names@.remove(UnixName::Abstract(name@)),
    {
        let copy = bytes::copy_range(name, 0, name.len());
        assert(copy@ =~= name@);
        self.names.remove(&UnixEndpointBound::Abstract(copy));
    }
}

/// The socket that has a name, if it is one of those that live.
pub open spec fn live_socket(names: Map<UnixName, u64>, name: UnixName, live: Set<u64>) -> Option<
    u64,
> {
    if names.contains_key(name) && live.contains(names[name]) {
        Some(names[name])
    } else {
        None
    }
}

/// A name that was given is found again while its socket lives, is refused to
/// others, and is free once taken out.
pub proof fn law_name_lifecycle(names: Map<UnixName, u64>, name: UnixName, id: u64, live: Set<u64>)
    requires
        live.contains(id),
    ensures
        live_socket(names.insert(name, id), name, live) == Some(id),
        live_socket(names.insert(name, id).remove(name), name, live) is None,
        live_socket(names.insert(name, id), name, live.remove(id)) is None,
{
}

} // verus!
