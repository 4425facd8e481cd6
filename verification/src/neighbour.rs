//! The neighbour table: which hardware address answers for which IP address on
//! which interface.
//!
//! Entries come from ARP replies that the devices receive and from netlink
//! requests, and stand in the order of interface index, then of address.
use vstd::prelude::*;
use crate::bytes;
use crate::wire::{EthernetAddress, IpAddress, Ipv4Address};

verus! {

pub const NDA_UNSPEC: u16 = 0;

pub const NDA_DST: u16 = 1;

pub const NDA_LLADDR: u16 = 2;

pub const NUD_REACHABLE: u16 = 0x02;

pub const NUD_STALE: u16 = 0x04;

pub const NUD_PERMANENT: u16 = 0x80;

/// The Ethernet type of ARP.
pub const ETHERTYPE_ARP: u16 = 0x0806;

/// The ARP operation of a reply.
pub const ARP_REPLY: u16 = 2;

/// What is known of a neighbour.
#[derive(Clone, Copy, Debug)]
pub struct NeighbourEntry {
    pub mac: EthernetAddress,
    pub state: u16,
}

/// One row of the table.
#[derive(Clone, Copy, Debug)]
pub struct NeighbourRow {
    pub ifindex: u32,
    pub ip: IpAddress,
    pub entry: NeighbourEntry,
}

/// The neighbour table, its rows in ascending order of interface and address.
pub struct NeighbourTable {
    pub rows: Vec<NeighbourRow>,
}

/// An entry by what it says.
#[verifier::ext_equal]
pub struct EntryModel {
    pub mac: Seq<u8>,
    pub state: u16,
}

pub type NeighbourKey = (u32, IpAddress);

/// IPv4 addresses come before IPv6 addresses, and each family in the order of
/// its octets.
pub open spec fn addr_lt(a: IpAddress, b: IpAddress) -> bool {
    match (a, b) {
        (IpAddress::Ipv4(x), IpAddress::Ipv4(y)) => x.bits < y.bits,
        (IpAddress::Ipv4(_), IpAddress::Ipv6(_)) => true,
        (IpAddress::Ipv6(_), IpAddress::Ipv4(_)) => false,
        (IpAddress::Ipv6(x), IpAddress::Ipv6(y)) => x.bits < y.bits,
    }
}

pub open spec fn key_lt(a: NeighbourKey, b: NeighbourKey) -> bool {
    a.0 < b.0 || (a.0 == b.0 && addr_lt(a.1, b.1))
}

impl NeighbourRow {
    pub open spec fn key(self) -> NeighbourKey {
        (self.ifindex, self.ip)
    }

    pub open spec fn model(self) -> EntryModel {
        EntryModel { mac: self.entry.mac.octets@, state: self.entry.state }
    }
}

/// The map that a list of rows describes.
pub open spec fn rows_map(rows: Seq<NeighbourRow>) -> Map<NeighbourKey, EntryModel>
    decreases rows.len(),
{
    if rows.len() == 0 {
        Map::empty()
    } else {
        rows_map(rows.drop_last()).insert(rows.last().key(), rows.last().model())
    }
}

pub open spec fn rows_ordered(rows: Seq<NeighbourRow>) -> bool {
    forall|i: int, j: int|
        0 <= i < j < rows.len() ==> key_lt((#[trigger] rows[i]).key(), (#[trigger] rows[j]).key())
}

/// A key is in the map when a row has it, and rows with distinct keys map each
/// key to what its row says.
pub proof fn lemma_rows_map(rows: Seq<NeighbourRow>)
    requires
        rows_ordered(rows),
    ensures
        forall|k: NeighbourKey|
            #[trigger] rows_map(rows).contains_key(k) <==> exists|i: int|
                0 <= i < rows.len() && (#[trigger] rows[i]).key() == k,
        forall|i: int|
            0 <= i < rows.len() ==> #[trigger] rows_map(rows)[rows[i].key()] == rows[i].model(),
    decreases rows.len(),
{
    if rows.len() > 0 {
        let t = rows.drop_last();
        let n = rows.len() - 1;
        assert(rows_ordered(t)) by {
            assert forall|i: int, j: int| 0 <= i < j < t.len() implies key_lt(
                (#[trigger] t[i]).key(),
                (#[trigger] t[j]).key(),
            ) by {
                assert(t[i] == rows[i] && t[j] == rows[j]);
            }
        }
        lemma_rows_map(t);
        assert forall|k: NeighbourKey|
            #[trigger] rows_map(rows).contains_key(k) <==> exists|i: int|
                0 <= i < rows.len() && (#[trigger] rows[i]).key() == k by {
            if rows_map(t).contains_key(k) {
                let i = choose|i: int| 0 <= i < t.len() && (#[trigger] t[i]).key() == k;
                assert(rows[i].key() == k);
            }
            if exists|i: int| 0 <= i < rows.len() && (#[trigger] rows[i]).key() == k {
                let i = choose|i: int| 0 <= i < rows.len() && (#[trigger] rows[i]).key() == k;
                if i < n {
                    assert(t[i].key() == k);
                }
            }
            assert(rows[n] == rows.last());
        }
        assert forall|i: int| 0 <= i < rows.len() implies #[trigger] rows_map(rows)[rows[i].key()]
            == rows[i].model() by {
            if i < n {
                assert(t[i] == rows[i]);
                assert(key_lt(rows[i].key(), rows[n].key()));
                assert(rows_map(t)[t[i].key()] == t[i].model());
            }
        }
    }
}

fn key_less(a_if: u32, a: IpAddress, b_if: u32, b: IpAddress) -> (r: bool)
    ensures
        r == key_lt((a_if, a), (b_if, b)),
{
    if a_if != b_if {
        return a_if < b_if;
    }
    match (a, b) {
        (IpAddress::Ipv4(x), IpAddress::Ipv4(y)) => x.bits < y.bits,
        (IpAddress::Ipv4(_), IpAddress::Ipv6(_)) => true,
        (IpAddress::Ipv6(_), IpAddress::Ipv4(_)) => false,
        (IpAddress::Ipv6(x), IpAddress::Ipv6(y)) => x.bits < y.bits,
    }
}

impl View for NeighbourTable {
    type V = Map<NeighbourKey, EntryModel>;

    open spec fn view(&self) -> Map<NeighbourKey, EntryModel> {
        rows_map(self.rows@)
    }
}

impl NeighbourTable {
    pub open spec fn wf(self) -> bool {
        rows_ordered(self.rows@)
    }

    pub fn new() -> (r: NeighbourTable)
        ensures
            r.wf(),
            r@ == Map::<NeighbourKey, EntryModel>::empty(),
    {
        NeighbourTable { rows: Vec::new() }
    }

    /// Where the row of a key stands, or where it would have to stand.
    fn locate(&self, ifindex: u32, ip: IpAddress) -> (r: (usize, bool))
        requires
            self.wf(),
        ensures
            r.0 <= self.rows@.len(),
            forall|i: int| 0 <= i < r.0 ==> key_lt((#[trigger] self.rows@[i]).key(), (ifindex, ip)),
            r.1 ==> r.0 < self.rows@.len() && self.rows@[r.0 as int].key() == (ifindex, ip),
            !r.1 ==> forall|i: int|
                r.0 <= i < self.rows@.len() ==> key_lt(
                    (ifindex, ip),
                    (#[trigger] self.rows@[i]).key(),
                ),
    {
        let mut p: usize = 0;
        while p < self.rows.len() && key_less(self.rows[p].ifindex, self.rows[p].ip, ifindex, ip)
            invariant
                p <= self.rows@.len(),
                forall|i: int| 0 <= i < p ==> key_lt((#[trigger] self.rows@[i]).key(), (ifindex, ip)),
            decreases self.rows@.len() - p,
        {
            p = p + 1;
        }
        let hit = p < self.rows.len() && self.rows[p].ifindex == ifindex && self.rows[p].ip == ip;
        proof {
            if !hit {
                assert forall|i: int| p <= i < self.rows@.len() implies key_lt(
                    (ifindex, ip),
                    (#[trigger] self.rows@[i]).key(),
                ) by {
                    assert(key_lt((ifindex, ip), self.rows@[p as int].key()));
                    if i > p {
                        assert(key_lt(self.rows@[p as int].key(), self.rows@[i].key()));
                    }
                }
            }
        }
        (p, hit)
    }

    /// Puts an entry in the table, instead of what the key had.
    fn put(&mut self, ifindex: u32, ip: IpAddress, entry: NeighbourEntry)
        requires
            old(self).wf(),
        ensures
            final(self).wf(),
            final(self)@ == old(self)@.insert(
                (ifindex, ip),
                (EntryModel { mac: entry.mac.octets@, state: entry.state }),
            ),
    {
        let ghost before = self.rows@;
        let row = NeighbourRow { ifindex, ip, entry };
        let (p, hit) = self.locate(ifindex, ip);
        if hit {
            let _ = self.rows.remove(p);
        }
        self.rows.insert(p, row);
        proof {
            let after = self.rows@;
            let shift: int = if hit {
                0
            } else {
                1
            };
            assert(after.len() == before.len() + shift);
            assert forall|i: int| 0 <= i < after.len() implies #[trigger] after[i] == (if i < p {
                before[i]
            } else if i == p {
                row
            } else {
                before[i - shift]
            }) by {}
            assert(rows_ordered(after)) by {
                assert forall|i: int, j: int| 0 <= i < j < after.len() implies key_lt(
                    (#[trigger] after[i]).key(),
                    (#[trigger] after[j]).key(),
                ) by {
                    if j == p {
                        assert(key_lt(before[i].key(), row.key()));
                    } else if i == p {
                        if hit {
                            assert(key_lt(before[p as int].key(), before[j].key()));
                        } else {
                            assert(key_lt(row.key(), before[j - 1].key()));
                        }
                    }
                }
            }
            lemma_rows_map(before);
            lemma_rows_map(after);
            let expected = rows_map(before).insert(row.key(), row.model());
            assert forall|k: NeighbourKey| #[trigger] rows_map(after).contains_key(k) <==> expected.contains_key(k) by {
                if rows_map(after).contains_key(k) {
                    let i = choose|i: int| 0 <= i < after.len() && (#[trigger] after[i]).key() == k;
                    if i < p {
                        assert(before[i].key() == k);
                    } else if i > p {
                        assert(before[i - shift].key() == k);
                    }
                }
                if rows_map(before).contains_key(k) {
                    let i = choose|i: int| 0 <= i < before.len() && (#[trigger] before[i]).key() == k;
                    if i < p {
                        assert(after[i].key() == k);
                    } else if hit && i == p {
                        assert(after[p as int].key() == k);
                    } else {
                        assert(after[i + shift].key() == k);
                    }
                }
                assert(after[p as int].key() == row.key());
            }
            assert forall|k: NeighbourKey| rows_map(after).contains_key(k) implies #[trigger] rows_map(after)[k]
                == expected[k] by {
                let i = choose|i: int| 0 <= i < after.len() && (#[trigger] after[i]).key() == k;
                assert(rows_map(after)[after[i].key()] == after[i].model());
                if i < p {
                    assert(rows_map(before)[before[i].key()] == before[i].model());
                    assert(key_lt(before[i].key(), row.key()));
                } else if i > p {
                    assert(rows_map(before)[before[i - shift].key()] == before[i - shift].model());
                    assert(key_lt(after[p as int].key(), after[i].key()));
                }
            }
            assert(rows_map(after) =~= expected);
        }
    }

    /// Records that `ip` answers at `mac` on the interface, as reachable.
    /// Only unicast addresses are recorded.
    pub fn neighbour_record(&mut self, ifindex: u32, ip: IpAddress, mac: EthernetAddress)
        requires
            old(self).wf(),
        ensures
            final(self).wf(),
            final(self)@ == if ip.spec_is_unicast() {
                old(self)@.insert(
                    (ifindex, ip),
                    EntryModel { mac: mac.octets@, state: NUD_REACHABLE },
                )
            } else {
                old(self)@
            },
    {
        if !ip.is_unicast() {
            return;
        }
        self.put(ifindex, ip, NeighbourEntry { mac, state: NUD_REACHABLE });
    }

    /// Deletes the entry of a neighbour and says whether there was one.
    pub fn neighbour_delete(&mut self, ifindex: u32, ip: IpAddress) -> (r: bool)
        requires
            old(self).wf(),
        ensures
            final(self).wf(),
            final(self)@ == old(self)@.remove((ifindex, ip)),
            r == old(self)@.contains_key((ifindex, ip)),
    {
        let ghost before = self.rows@;
        let (p, hit) = self.locate(ifindex, ip);
        proof {
            lemma_rows_map(before);
        }
        if !hit {
            proof {
                assert forall|i: int| 0 <= i < before.len() implies (#[trigger] before[i]).key() != (ifindex, ip) by {
                    if i < p {
                        assert(key_lt(before[i].key(), (ifindex, ip)));
                    } else {
                        assert(key_lt((ifindex, ip), before[i].key()));
                    }
                }
                assert(self@.remove((ifindex, ip)) =~= self@);
            }
            return false;
        }
        assert(before[p as int].key() == (ifindex, ip));
        let _ = self.rows.remove(p);
        proof {
            let after = self.rows@;
            assert forall|i: int| 0 <= i < after.len() implies #[trigger] after[i] == (if i < p {
                before[i]
            } else {
                before[i + 1]
            }) by {}
            lemma_rows_map(after);
            let expected = rows_map(before).remove((ifindex, ip));
            assert forall|k: NeighbourKey| #[trigger] rows_map(after).contains_key(k) <==> expected.contains_key(k) by {
                if rows_map(after).contains_key(k) {
                    let i = choose|i: int| 0 <= i < after.len() && (#[trigger] after[i]).key() == k;
                    if i < p {
                        assert(before[i].key() == k);
                        assert(key_lt(before[i].key(), before[p as int].key()));
                    } else {
                        assert(before[i + 1].key() == k);
                        assert(key_lt(before[p as int].key(), before[i + 1].key()));
                    }
                }
                if expected.contains_key(k) {
                    let i = choose|i: int| 0 <= i < before.len() && (#[trigger] before[i]).key() == k;
                    if i < p {
                        assert(after[i].key() == k);
                    } else {
                        assert(after[i - 1].key() == k);
                    }
                }
            }
            assert forall|k: NeighbourKey| rows_map(after).contains_key(k) implies #[trigger] rows_map(after)[k]
                == expected[k] by {
                let i = choose|i: int| 0 <= i < after.len() && (#[trigger] after[i]).key() == k;
                assert(rows_map(after)[after[i].key()] == after[i].model());
                if i < p {
                    assert(rows_map(before)[before[i].key()] == before[i].model());
                } else {
                    assert(rows_map(before)[before[i + 1].key()] == before[i + 1].model());
                }
            }
            assert(rows_map(after) =~= expected);
        }
        true
    }

    /// The entry of a neighbour.
    pub fn get(&self, ifindex: u32, ip: IpAddress) -> (r: Option<NeighbourEntry>)
        requires
            self.wf(),
        ensures
            match r {
                Some(e) => self@.contains_key((ifindex, ip)) && self@[(ifindex, ip)] == (EntryModel {
                    mac: e.mac.octets@,
                    state: e.state,
                }),
                None => !self@.contains_key((ifindex, ip)),
            },
    {
        let (p, hit) = self.locate(ifindex, ip);
        proof {
            lemma_rows_map(self.rows@);
        }
        if hit {
            assert(self@[self.rows@[p as int].key()] == self.rows@[p as int].model());
            Some(self.rows[p].entry)
        } else {
            proof {
                assert forall|i: int| 0 <= i < self.rows@.len() implies (#[trigger] self.rows@[i]).key() != (ifindex, ip) by {
                    if i < p {
                        assert(key_lt(self.rows@[i].key(), (ifindex, ip)));
                    } else {
                        assert(key_lt((ifindex, ip), self.rows@[i].key()));
                    }
                }
            }
            None
        }
    }

    /// Every row, in ascending order of interface and address.
    pub fn neighbour_dump(&self) -> (r: Vec<NeighbourRow>)
        requires
            self.wf(),
        ensures
            rows_ordered(r@),
            rows_map(r@) == self@,
            r@ == self.rows@,
    {
        let mut out: Vec<NeighbourRow> = Vec::new();
        let mut i: usize = 0;
        while i < self.rows.len()
            invariant
                i <= self.rows@.len(),
                out@ =~= self.rows@.take(i as int),
            decreases self.rows@.len() - i,
        {
            out.push(self.rows[i]);
            i = i + 1;
        }
        assert(self.rows@.take(i as int) =~= self.rows@);
        out
    }

    /// Records the sender of an ARP reply that arrived in an Ethernet frame.
    /// Anything else leaves the table as it is.
    pub fn try_capture_arp_reply(&mut self, frame_buf: &[u8], ifindex: u32)
        requires
            old(self).wf(),
        ensures
            final(self).wf(),
            final(self)@ == match arp_reply_sender(frame_buf@) {
                Some((ip, mac)) => if IpAddress::Ipv4(ip).spec_is_unicast() {
                    old(self)@.insert(
                        (ifindex, IpAddress::Ipv4(ip)),
                        EntryModel { mac, state: NUD_REACHABLE },
                    )
                } else {
                    old(self)@
                },
                None => old(self)@,
            },
    {
        let ethertype: u16 = match ethernet_ethertype(frame_buf) {
            Some(t) => t,
            None => return ,
        };
        if ethertype != ETHERTYPE_ARP {
            return;
        }
        let payload = vstd::slice::slice_subrange(frame_buf, 14, frame_buf.len());
        let (op, hw, proto): (u16, Vec<u8>, Vec<u8>) = match arp_operation_and_source(payload) {
            Some(t) => t,
            None => return ,
        };
        if op != ARP_REPLY {
            return;
        }
        if hw.len() < 6 || proto.len() < 4 {
            return;
        }
        let mac = EthernetAddress::from_bytes_at(&hw, 0);
        let ip = Ipv4Address::from_bytes_at(&proto, 0);
        proof {
            let p = frame_buf@.skip(14);
            assert(payload@ =~= p);
            assert(hw@.subrange(0, 6) =~= p.subrange(8, 14));
            assert(proto@[0] == p[8 + p[4]]);
        }
        self.neighbour_record(ifindex, IpAddress::Ipv4(ip), mac);
    }
}

/// The addresses of the sender of an ARP reply: the frame carries the type of
/// ARP, the packet is complete, it is a reply, and it has room for an Ethernet
/// and an IPv4 address.
pub open spec fn arp_reply_sender(frame: Seq<u8>) -> Option<(Ipv4Address, Seq<u8>)> {
    let p = frame.skip(14);
    if frame.len() < 14 || bytes::u16_be_at(frame, 12) != ETHERTYPE_ARP {
        None
    } else if !arp_complete(p) || bytes::u16_be_at(p, 6) != ARP_REPLY || p[4] < 6 || p[5] < 4 {
        None
    } else {
        let at = 8 + p[4];
        Some((Ipv4Address::of(p[at], p[at + 1], p[at + 2], p[at + 3]), p.subrange(8, 14)))
    }
}

/// An ARP packet that holds both pairs of addresses of the lengths it states.
pub open spec fn arp_complete(p: Seq<u8>) -> bool {
    p.len() >= 8 && p.len() >= 8 + 2 * p[4] + 2 * p[5]
}

/// `EthernetFrame::new_checked` and `ethertype` of smoltcp: a frame of at least
/// fourteen octets has a type, the big-endian number at offset twelve.
#[verifier::external_body]
fn ethernet_ethertype(frame: &[u8]) -> (r: Option<u16>)
    ensures
        r == if frame@.len() >= 14 {
            Some(bytes::u16_be_at(frame@, 12))
        } else {
            None
        },
{
    smoltcp::wire::EthernetFrame::new_checked(frame).ok().map(|f| u16::from(f.ethertype()))
}

/// `ArpPacket::new_checked`, `operation`, `source_hardware_addr` and
/// `source_protocol_addr` of smoltcp: a packet that holds both pairs of
/// addresses of the lengths in its octets four and five gives the big-endian
/// operation at offset six and the sender's two addresses, which start at
/// offset eight.
#[verifier::external_body]
fn arp_operation_and_source(packet: &[u8]) -> (r: Option<(u16, Vec<u8>, Vec<u8>)>)
    ensures
        match r {
            Some((op, hw, proto)) => {
                &&& arp_complete(packet@)
                &&& op == bytes::u16_be_at(packet@, 6)
                &&& hw@ == packet@.subrange(8, 8 + packet@[4])
                &&& proto@ == packet@.subrange(8 + packet@[4], 8 + packet@[4] + packet@[5])
            },
            None => !arp_complete(packet@),
        },
{
    let p = smoltcp::wire::ArpPacket::new_checked(packet).ok()?;
    Some((u16::from(p.operation()), p.source_hardware_addr().to_vec(), p.source_protocol_addr().to_vec()))
}

/// What was recorded of a neighbour is found again, deleting it takes it out,
/// and neither touches what is known of others.
pub proof fn law_neighbour_record_then_delete(
    table: Map<NeighbourKey, EntryModel>,
    key: NeighbourKey,
    other: NeighbourKey,
    entry: EntryModel,
)
    requires
        other != key,
    ensures
        table.insert(key, entry)[key] == entry,
        !table.insert(key, entry).remove(key).contains_key(key),
        !table.contains_key(key) ==> table.insert(key, entry).remove(key) == table,
        table.insert(key, entry).remove(key).contains_key(other) == table.contains_key(other),
        table.contains_key(other) ==> table.insert(key, entry).remove(key)[other] == table[other],
{
    if !table.contains_key(key) {
        assert(table.insert(key, entry).remove(key) =~= table);
    }
}

} // verus!
