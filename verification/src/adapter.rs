//! The devices under the protocol stacks.
use vstd::prelude::*;

verus! {

/// The most packets that wait for interrupts to be on again.
pub const DEFERRED_TX_MAX_PACKETS: usize = 64;

/// The most bytes that a card hands over at once.
pub const RX_BUFFER: usize = 2048;

pub const ETHERNET_MTU: usize = 1500;

/// The device of a machine without a network card: it receives nothing, and
/// what it is to transmit is lost.
#[derive(Clone, Copy, Debug, PartialEq, Eq, Structural)]
pub struct NullNetDevice;

impl NullNetDevice {
    pub fn receive(&self) -> (r: Option<usize>)
        ensures
            r is None,
    {
        None
    }

    /// An address that nobody else has been given.
    pub fn mac_address(&self) -> (r: [u8; 6])
        ensures
            r@ == seq![2u8, 0, 0, 0, 0, 1],
    {
        let mac: [u8; 6] = [2, 0, 0, 0, 0, 1];
        assert(mac@ =~= seq![2u8, 0, 0, 0, 0, 1]);
        mac
    }
}

/// A network card under a protocol stack.
#[derive(Debug)]
pub struct SmoltcpDeviceAdapter<D> {
    pub inner: D,
}

impl<D> SmoltcpDeviceAdapter<D> {
    pub fn new(inner: D) -> (r: SmoltcpDeviceAdapter<D>)
        ensures
            r.inner == inner,
    {
        SmoltcpDeviceAdapter { inner }
    }
}

/// A packet that was received.
#[derive(Debug)]
pub struct NetRxToken {
    pub buf: Vec<u8>,
}

impl NetRxToken {
    /// The packet in the first `len` bytes of what the card handed over.
    pub fn new(buf: &[u8], len: usize) -> (r: NetRxToken)
        requires
            len <= buf@.len(),
        ensures
            r.buf@ == buf@.take(len as int),
    {
        let copy = crate::bytes::copy_range(buf, 0, len);
        assert(copy@ =~= buf@.take(len as int));
        NetRxToken { buf: copy }
    }
}

/// The leave to transmit a packet over a device.
#[derive(Debug)]
pub struct NetTxToken<D> {
    pub inner: D,
}

/// What becomes of a packet that is to be transmitted.
#[derive(Clone, Copy, Debug, PartialEq, Eq, Structural)]
pub enum TxStep {
    /// An empty packet goes nowhere.
    Drop,
    /// The device transmits it.
    Transmit,
    /// It waits until interrupts are on.
    Defer,
}

pub open spec fn tx_step(len: usize, irq_enabled: bool) -> TxStep {
    if len == 0 {
        TxStep::Drop
    } else if irq_enabled {
        TxStep::Transmit
    } else {
        TxStep::Defer
    }
}

impl<D> NetTxToken<D> {
    /// What becomes of a packet of `len` bytes.
    pub fn step(&self, len: usize, irq_enabled: bool) -> (r: TxStep)
        ensures
            r == tx_step(len, irq_enabled),
    {
        if len == 0 {
            TxStep::Drop
        } else if irq_enabled {
            TxStep::Transmit
        } else {
            TxStep::Defer
        }
    }
}

/// A packet that waits, and the number of its device.
#[derive(Debug)]
pub struct DeferredPacket {
    pub device: u64,
    pub packet: Vec<u8>,
}

/// The packets that wait until interrupts are on, the oldest first.
#[derive(Debug)]
pub struct DeferredTxQueue {
    pub packets: Vec<DeferredPacket>,
}

pub open spec fn deferred(s: Seq<DeferredPacket>) -> Seq<(u64, Seq<u8>)> {
    Seq::new(s.len(), |i: int| (s[i].device, s[i].packet@))
}

impl View for DeferredTxQueue {
    type V = Seq<(u64, Seq<u8>)>;

    open spec fn view(&self) -> Seq<(u64, Seq<u8>)> {
        deferred(self.packets@)
    }
}

/// The queue with one packet more: when it is full, the oldest is lost.
pub open spec fn deferred_push(q: Seq<(u64, Seq<u8>)>, device: u64, packet: Seq<u8>) -> Seq<
    (u64, Seq<u8>),
> {
    if q.len() >= DEFERRED_TX_MAX_PACKETS {
        q.skip(1).push((device, packet))
    } else {
        q.push((device, packet))
    }
}

impl DeferredTxQueue {
    pub fn new() -> (r: DeferredTxQueue)
        ensures
            r@ == Seq::<(u64, Seq<u8>)>::empty(),
    {
        let r = DeferredTxQueue { packets: Vec::new() };
        assert(r@ =~= Seq::<(u64, Seq<u8>)>::empty());
        r
    }

    /// Adds a packet; says whether another was lost for it.
    pub fn push(&mut self, device: u64, packet: Vec<u8>) -> (r: bool)
        ensures
            final(self)@ == deferred_push(old(self)@, device, packet@),
            r == (old(self)@.len() >= DEFERRED_TX_MAX_PACKETS),
    {
        let ghost before = self@;
        let ghost data = packet@;
        let full = self.packets.len() >= DEFERRED_TX_MAX_PACKETS;
        if full {
            let _ = self.packets.remove(0);
            assert(self@ =~= before.skip(1));
        }
        self.packets.push(DeferredPacket { device, packet });
        assert(self@ =~= deferred_push(before, device, data));
        full
    }

    /// Takes every packet, if interrupts are on.
    pub fn drain_deferred_tx(&mut self, irq_enabled: bool) -> (r: Vec<DeferredPacket>)
        ensures
            irq_enabled ==> deferred(r@) == old(self)@ && final(self)@.len() == 0,
            !irq_enabled ==> r@.len() == 0 && final(self)@ == old(self)@,
    {
        let mut taken: Vec<DeferredPacket> = Vec::new();
        if !irq_enabled {
            return taken;
        }
        std::mem::swap(&mut taken, &mut self.packets);
        taken
    }
}

/// However many packets are put off, no more than the limit wait, the newest
/// among them, in their order.
pub proof fn law_deferred_queue_is_bounded(q: Seq<(u64, Seq<u8>)>, device: u64, packet: Seq<u8>)
    requires
        q.len() <= DEFERRED_TX_MAX_PACKETS,
    ensures
        deferred_push(q, device, packet).len() <= DEFERRED_TX_MAX_PACKETS,
        deferred_push(q, device, packet).last() == (device, packet),
        deferred_push(q, device, packet).drop_last() == q || deferred_push(
            q,
            device,
            packet,
        ).drop_last() == q.skip(1),
{
    let r = deferred_push(q, device, packet);
    if q.len() >= DEFERRED_TX_MAX_PACKETS {
        assert(r.drop_last() =~= q.skip(1));
    } else {
        assert(r.drop_last() =~= q);
    }
}

} // verus!
