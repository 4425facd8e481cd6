//! What `TCP_INFO` reports of a connection.
use vstd::prelude::*;
use crate::bytes;

verus! {

/// Linux `struct tcp_info`. Programs read the state from it; everything that
/// is not known is zero.
#[derive(Clone, Copy, Debug, PartialEq, Eq, Structural)]
pub struct TcpInfo {
    pub tcpi_state: u8,
    pub tcpi_ca_state: u8,
    pub tcpi_retransmits: u8,
    pub tcpi_probes: u8,
    pub tcpi_backoff: u8,
    pub tcpi_options: u8,
    pub tcpi_snd_wscale: u8,
    pub tcpi_rcv_wscale: u8,
    pub tcpi_rto: u32,
    pub tcpi_ato: u32,
    pub tcpi_snd_mss: u32,
    pub tcpi_rcv_mss: u32,
    pub tcpi_unacked: u32,
    pub tcpi_sacked: u32,
    pub tcpi_lost: u32,
    pub tcpi_retrans: u32,
    pub tcpi_fackets: u32,
    pub tcpi_last_data_sent: u32,
    pub tcpi_last_ack_sent: u32,
    pub tcpi_last_data_recv: u32,
    pub tcpi_last_ack_recv: u32,
    pub tcpi_pmtu: u32,
    pub tcpi_rcv_ssthresh: u32,
    pub tcpi_rtt: u32,
    pub tcpi_rttvar: u32,
    pub tcpi_snd_ssthresh: u32,
    pub tcpi_snd_cwnd: u32,
    pub tcpi_advmss: u32,
    pub tcpi_reordering: u32,
    pub tcpi_rcv_rtt: u32,
    pub tcpi_rcv_space: u32,
    pub tcpi_total_retrans: u32,
    pub tcpi_pacing_rate: u64,
    pub tcpi_max_pacing_rate: u64,
    pub tcpi_bytes_acked: u64,
    pub tcpi_bytes_received: u64,
    pub tcpi_segs_out: u32,
    pub tcpi_segs_in: u32,
    pub tcpi_notsent_bytes: u32,
    pub tcpi_min_rtt: u32,
    pub tcpi_data_segs_in: u32,
    pub tcpi_data_segs_out: u32,
    pub tcpi_delivery_rate: u64,
    pub tcpi_busy_time: u64,
    pub tcpi_rwnd_limited: u64,
    pub tcpi_sndbuf_limited: u64,
    pub tcpi_delivered: u32,
    pub tcpi_delivered_ce: u32,
    pub tcpi_bytes_sent: u64,
    pub tcpi_bytes_retrans: u64,
    pub tcpi_dsack_dups: u32,
    pub tcpi_reord_seen: u32,
    pub tcpi_rcv_ooopack: u32,
    pub tcpi_snd_wnd: u32,
}

impl TcpInfo {
    pub open spec fn of(state: u8, mss: u32) -> TcpInfo {
        TcpInfo {
            tcpi_state: state,
            tcpi_ca_state: 0,
            tcpi_retransmits: 0,
            tcpi_probes: 0,
            tcpi_backoff: 0,
            tcpi_options: 0,
            tcpi_snd_wscale: 0,
            tcpi_rcv_wscale: 0,
            tcpi_rto: 0,
            tcpi_ato: 0,
            tcpi_snd_mss: mss,
            tcpi_rcv_mss: mss,
            tcpi_unacked: 0,
            tcpi_sacked: 0,
            tcpi_lost: 0,
            tcpi_retrans: 0,
            tcpi_fackets: 0,
            tcpi_last_data_sent: 0,
            tcpi_last_ack_sent: 0,
            tcpi_last_data_recv: 0,
            tcpi_last_ack_recv: 0,
            tcpi_pmtu: 0,
            tcpi_rcv_ssthresh: 0,
            tcpi_rtt: 0,
            tcpi_rttvar: 0,
            tcpi_snd_ssthresh: 0,
            tcpi_snd_cwnd: 0,
            tcpi_advmss: mss,
            tcpi_reordering: 0,
            tcpi_rcv_rtt: 0,
            tcpi_rcv_space: 0,
            tcpi_total_retrans: 0,
            tcpi_pacing_rate: 0,
            tcpi_max_pacing_rate: 0,
            tcpi_bytes_acked: 0,
            tcpi_bytes_received: 0,
            tcpi_segs_out: 0,
            tcpi_segs_in: 0,
            tcpi_notsent_bytes: 0,
            tcpi_min_rtt: 0,
            tcpi_data_segs_in: 0,
            tcpi_data_segs_out: 0,
            tcpi_delivery_rate: 0,
            tcpi_busy_time: 0,
            tcpi_rwnd_limited: 0,
            tcpi_sndbuf_limited: 0,
            tcpi_delivered: 0,
            tcpi_delivered_ce: 0,
            tcpi_bytes_sent: 0,
            tcpi_bytes_retrans: 0,
            tcpi_dsack_dups: 0,
            tcpi_reord_seen: 0,
            tcpi_rcv_ooopack: 0,
            tcpi_snd_wnd: 0,
        }
    }

    /// The report of a connection in that state with segments of that size.
    pub fn new(state: u8, mss: u32) -> (r: TcpInfo)
        ensures
            r == TcpInfo::of(state, mss),
    {
        TcpInfo {
            tcpi_state: state,
            tcpi_ca_state: 0,
            tcpi_retransmits: 0,
            tcpi_probes: 0,
            tcpi_backoff: 0,
            tcpi_options: 0,
            tcpi_snd_wscale: 0,
            tcpi_rcv_wscale: 0,
            tcpi_rto: 0,
            tcpi_ato: 0,
            tcpi_snd_mss: mss,
            tcpi_rcv_mss: mss,
            tcpi_unacked: 0,
            tcpi_sacked: 0,
            tcpi_lost: 0,
            tcpi_retrans: 0,
            tcpi_fackets: 0,
            tcpi_last_data_sent: 0,
            tcpi_last_ack_sent: 0,
            tcpi_last_data_recv: 0,
            tcpi_last_ack_recv: 0,
            tcpi_pmtu: 0,
            tcpi_rcv_ssthresh: 0,
            tcpi_rtt: 0,
            tcpi_rttvar: 0,
            tcpi_snd_ssthresh: 0,
            tcpi_snd_cwnd: 0,
            tcpi_advmss: mss,
            tcpi_reordering: 0,
            tcpi_rcv_rtt: 0,
            tcpi_rcv_space: 0,
            tcpi_total_retrans: 0,
            tcpi_pacing_rate: 0,
            tcpi_max_pacing_rate: 0,
            tcpi_bytes_acked: 0,
            tcpi_bytes_received: 0,
            tcpi_segs_out: 0,
            tcpi_segs_in: 0,
            tcpi_notsent_bytes: 0,
            tcpi_min_rtt: 0,
            tcpi_data_segs_in: 0,
            tcpi_data_segs_out: 0,
            tcpi_delivery_rate: 0,
            tcpi_busy_time: 0,
            tcpi_rwnd_limited: 0,
            tcpi_sndbuf_limited: 0,
            tcpi_delivered: 0,
            tcpi_delivered_ce: 0,
            tcpi_bytes_sent: 0,
            tcpi_bytes_retrans: 0,
            tcpi_dsack_dups: 0,
            tcpi_reord_seen: 0,
            tcpi_rcv_ooopack: 0,
            tcpi_snd_wnd: 0,
        }
    }

    /// The structure as it lies in memory. There is no gap between the fields.
    pub open spec fn bytes(self) -> Seq<u8> {
        self.part0() + self.part1() + self.part2() + self.part3() + self.part4() + self.part5() + self.part6()
    }

    #[verifier::opaque]
    pub open spec fn part0(self) -> Seq<u8> {
        seq![
            self.tcpi_state,
            self.tcpi_ca_state,
            self.tcpi_retransmits,
            self.tcpi_probes,
            self.tcpi_backoff,
            self.tcpi_options,
            self.tcpi_snd_wscale,
            self.tcpi_rcv_wscale,
        ]
    }

    #[verifier::opaque]
    pub open spec fn part1(self) -> Seq<u8> {
        bytes::le32(self.tcpi_rto)
            + bytes::le32(self.tcpi_ato)
            + bytes::le32(self.tcpi_snd_mss)
            + bytes::le32(self.tcpi_rcv_mss)
            + bytes::le32(self.tcpi_unacked)
            + bytes::le32(self.tcpi_sacked)
            + bytes::le32(self.tcpi_lost)
            + bytes::le32(self.tcpi_retrans)
    }

    #[verifier::opaque]
    pub open spec fn part2(self) -> Seq<u8> {
        bytes::le32(self.tcpi_fackets)
            + bytes::le32(self.tcpi_last_data_sent)
            + bytes::le32(self.tcpi_last_ack_sent)
            + bytes::le32(self.tcpi_last_data_recv)
            + bytes::le32(self.tcpi_last_ack_recv)
            + bytes::le32(self.tcpi_pmtu)
            + bytes::le32(self.tcpi_rcv_ssthresh)
            + bytes::le32(self.tcpi_rtt)
    }

    #[verifier::opaque]
    pub open spec fn part3(self) -> Seq<u8> {
        bytes::le32(self.tcpi_rttvar)
            + bytes::le32(self.tcpi_snd_ssthresh)
            + bytes::le32(self.tcpi_snd_cwnd)
            + bytes::le32(self.tcpi_advmss)
            + bytes::le32(self.tcpi_reordering)
            + bytes::le32(self.tcpi_rcv_rtt)
            + bytes::le32(self.tcpi_rcv_space)
            + bytes::le32(self.tcpi_total_retrans)
    }

    #[verifier::opaque]
    pub open spec fn part4(self) -> Seq<u8> {
        le64(self.tcpi_pacing_rate)
            + le64(self.tcpi_max_pacing_rate)
            + le64(self.tcpi_bytes_acked)
            + le64(self.tcpi_bytes_received)
            + bytes::le32(self.tcpi_segs_out)
            + bytes::le32(self.tcpi_segs_in)
            + bytes::le32(self.tcpi_notsent_bytes)
            + bytes::le32(self.tcpi_min_rtt)
    }

    #[verifier::opaque]
    pub open spec fn part5(self) -> Seq<u8> {
        bytes::le32(self.tcpi_data_segs_in)
            + bytes::le32(self.tcpi_data_segs_out)
            + le64(self.tcpi_delivery_rate)
            + le64(self.tcpi_busy_time)
            + le64(self.tcpi_rwnd_limited)
            + le64(self.tcpi_sndbuf_limited)
            + bytes::le32(self.tcpi_delivered)
            + bytes::le32(self.tcpi_delivered_ce)
    }

    #[verifier::opaque]
    pub open spec fn part6(self) -> Seq<u8> {
        le64(self.tcpi_bytes_sent)
            + le64(self.tcpi_bytes_retrans)
            + bytes::le32(self.tcpi_dsack_dups)
            + bytes::le32(self.tcpi_reord_seen)
            + bytes::le32(self.tcpi_rcv_ooopack)
            + bytes::le32(self.tcpi_snd_wnd)
    }

    fn put_part0(&self, out: &mut Vec<u8>)
        ensures
            final(out)@ == old(out)@ + self.part0(),
    {
        let ghost before = out@;
        out.push(self.tcpi_state);
        out.push(self.tcpi_ca_state);
        out.push(self.tcpi_retransmits);
        out.push(self.tcpi_probes);
        out.push(self.tcpi_backoff);
        out.push(self.tcpi_options);
        out.push(self.tcpi_snd_wscale);
        out.push(self.tcpi_rcv_wscale);
        proof {
            reveal(TcpInfo::part0);
        }
        assert(out@ =~= before + self.part0());
    }

    fn put_part1(&self, out: &mut Vec<u8>)
        ensures
            final(out)@ == old(out)@ + self.part1(),
    {
        let ghost before = out@;
        bytes::put_u32_le(out, self.tcpi_rto);
        bytes::put_u32_le(out, self.tcpi_ato);
        bytes::put_u32_le(out, self.tcpi_snd_mss);
        bytes::put_u32_le(out, self.tcpi_rcv_mss);
        bytes::put_u32_le(out, self.tcpi_unacked);
        bytes::put_u32_le(out, self.tcpi_sacked);
        bytes::put_u32_le(out, self.tcpi_lost);
        bytes::put_u32_le(out, self.tcpi_retrans);
        proof {
            reveal(TcpInfo::part1);
        }
        assert(out@ =~= before + self.part1());
    }

    fn put_part2(&self, out: &mut Vec<u8>)
        ensures
            final(out)@ == old(out)@ + self.part2(),
    {
        let ghost before = out@;
        bytes::put_u32_le(out, self.tcpi_fackets);
        bytes::put_u32_le(out, self.tcpi_last_data_sent);
        bytes::put_u32_le(out, self.tcpi_last_ack_sent);
        bytes::put_u32_le(out, self.tcpi_last_data_recv);
        bytes::put_u32_le(out, self.tcpi_last_ack_recv);
        bytes::put_u32_le(out, self.tcpi_pmtu);
        bytes::put_u32_le(out, self.tcpi_rcv_ssthresh);
        bytes::put_u32_le(out, self.tcpi_rtt);
        proof {
            reveal(TcpInfo::part2);
        }
        assert(out@ =~= before + self.part2());
    }

    fn put_part3(&self, out: &mut Vec<u8>)
        ensures
            final(out)@ == old(out)@ + self.part3(),
    {
        let ghost before = out@;
        bytes::put_u32_le(out, self.tcpi_rttvar);
        bytes::put_u32_le(out, self.tcpi_snd_ssthresh);
        bytes::put_u32_le(out, self.tcpi_snd_cwnd);
        bytes::put_u32_le(out, self.tcpi_advmss);
        bytes::put_u32_le(out, self.tcpi_reordering);
        bytes::put_u32_le(out, self.tcpi_rcv_rtt);
        bytes::put_u32_le(out, self.tcpi_rcv_space);
        bytes::put_u32_le(out, self.tcpi_total_retrans);
        proof {
            reveal(TcpInfo::part3);
        }
        assert(out@ =~= before + self.part3());
    }

    fn put_part4(&self, out: &mut Vec<u8>)
        ensures
            final(out)@ == old(out)@ + self.part4(),
    {
        let ghost before = out@;
        put_u64_le(out, self.tcpi_pacing_rate);
        put_u64_le(out, self.tcpi_max_pacing_rate);
        put_u64_le(out, self.tcpi_bytes_acked);
        put_u64_le(out, self.tcpi_bytes_received);
        bytes::put_u32_le(out, self.tcpi_segs_out);
        bytes::put_u32_le(out, self.tcpi_segs_in);
        bytes::put_u32_le(out, self.tcpi_notsent_bytes);
        bytes::put_u32_le(out, self.tcpi_min_rtt);
        proof {
            reveal(TcpInfo::part4);
        }
        assert(out@ =~= before + self.part4());
    }

    fn put_part5(&self, out: &mut Vec<u8>)
        ensures
            final(out)@ == old(out)@ + self.part5(),
    {
        let ghost before = out@;
        bytes::put_u32_le(out, self.tcpi_data_segs_in);
        bytes::put_u32_le(out, self.tcpi_data_segs_out);
        put_u64_le(out, self.tcpi_delivery_rate);
        put_u64_le(out, self.tcpi_busy_time);
        put_u64_le(out, self.tcpi_rwnd_limited);
        put_u64_le(out, self.tcpi_sndbuf_limited);
        bytes::put_u32_le(out, self.tcpi_delivered);
        bytes::put_u32_le(out, self.tcpi_delivered_ce);
        proof {
            reveal(TcpInfo::part5);
        }
        assert(out@ =~= before + self.part5());
    }

    fn put_part6(&self, out: &mut Vec<u8>)
        ensures
            final(out)@ == old(out)@ + self.part6(),
    {
        let ghost before = out@;
        put_u64_le(out, self.tcpi_bytes_sent);
        put_u64_le(out, self.tcpi_bytes_retrans);
        bytes::put_u32_le(out, self.tcpi_dsack_dups);
        bytes::put_u32_le(out, self.tcpi_reord_seen);
        bytes::put_u32_le(out, self.tcpi_rcv_ooopack);
        bytes::put_u32_le(out, self.tcpi_snd_wnd);
        proof {
            reveal(TcpInfo::part6);
        }
        assert(out@ =~= before + self.part6());
    }

    /// The structure as it lies in memory.
    pub fn to_bytes(&self) -> (r: Vec<u8>)
        ensures
            r@ == self.bytes(),
    {
        let mut out: Vec<u8> = Vec::new();
        self.put_part0(&mut out);
        self.put_part1(&mut out);
        self.put_part2(&mut out);
        self.put_part3(&mut out);
        self.put_part4(&mut out);
        self.put_part5(&mut out);
        self.put_part6(&mut out);
        assert(out@ =~= self.bytes());
        out
    }
}

/// The eight bytes of a number, the lowest first.
pub open spec fn le64(v: u64) -> Seq<u8> {
    bytes::le32((v % 0x1_0000_0000) as u32) + bytes::le32((v / 0x1_0000_0000) as u32)
}

fn put_u64_le(out: &mut Vec<u8>, v: u64)
    ensures
        final(out)@ == old(out)@ + le64(v),
{
    let ghost before = out@;
    bytes::put_u32_le(out, (v % 0x1_0000_0000) as u32);
    bytes::put_u32_le(out, (v / 0x1_0000_0000) as u32);
    assert(out@ =~= before + le64(v));
}

} // verus!
