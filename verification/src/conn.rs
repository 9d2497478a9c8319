use vstd::prelude::*;

use crate::health::Health;

verus! {

/// TCP connection state, as numbered by the kernel (`TCP_ESTABLISHED` = 1, ...).
#[derive(Debug, Clone, Copy, PartialEq, Eq, Structural)]
pub enum TcpState {
    Established,
    SynSent,
    SynRecv,
    FinWait1,
    FinWait2,
    TimeWait,
    Close,
    CloseWait,
    LastAck,
    Listen,
    Closing,
    Unknown(u8),
}

/// The state that the kernel's state number `v` denotes.
pub open spec fn state_of(v: u8) -> TcpState {
    if v == 1 {
        TcpState::Established
    } else if v == 2 {
        TcpState::SynSent
    } else if v == 3 {
        TcpState::SynRecv
    } else if v == 4 {
        TcpState::FinWait1
    } else if v == 5 {
        TcpState::FinWait2
    } else if v == 6 {
        TcpState::TimeWait
    } else if v == 7 {
        TcpState::Close
    } else if v == 8 {
        TcpState::CloseWait
    } else if v == 9 {
        TcpState::LastAck
    } else if v == 10 {
        TcpState::Listen
    } else if v == 11 {
        TcpState::Closing
    } else {
        TcpState::Unknown(v)
    }
}

/// Short label of a state, as shown in the table.
pub open spec fn state_label(s: TcpState) -> Seq<char> {
    match s {
        TcpState::Established => "ESTAB"@,
        TcpState::SynSent => "SYN-S"@,
        TcpState::SynRecv => "SYN-R"@,
        TcpState::FinWait1 => "FIN-1"@,
        TcpState::FinWait2 => "FIN-2"@,
        TcpState::TimeWait => "T-WAIT"@,
        TcpState::Close => "CLOSE"@,
        TcpState::CloseWait => "C-WAIT"@,
        TcpState::LastAck => "L-ACK"@,
        TcpState::Listen => "LISTEN"@,
        TcpState::Closing => "CLOSNG"@,
        TcpState::Unknown(_) => "?"@,
    }
}

impl TcpState {
    pub fn from_u8(v: u8) -> (s: TcpState)
        ensures s == state_of(v),
    {
        match v {
            1 => TcpState::Established,
            2 => TcpState::SynSent,
            3 => TcpState::SynRecv,
            4 => TcpState::FinWait1,
            5 => TcpState::FinWait2,
            6 => TcpState::TimeWait,
            7 => TcpState::Close,
            8 => TcpState::CloseWait,
            9 => TcpState::LastAck,
            10 => TcpState::Listen,
            11 => TcpState::Closing,
            _ => TcpState::Unknown(v),
        }
    }

    pub fn short(&self) -> (l: &'static str)
        ensures l@ == state_label(*self),
    {
        match self {
            TcpState::Established => "ESTAB",
            TcpState::SynSent => "SYN-S",
            TcpState::SynRecv => "SYN-R",
            TcpState::FinWait1 => "FIN-1",
            TcpState::FinWait2 => "FIN-2",
            TcpState::TimeWait => "T-WAIT",
            TcpState::Close => "CLOSE",
            TcpState::CloseWait => "C-WAIT",
            TcpState::LastAck => "L-ACK",
            TcpState::Listen => "LISTEN",
            TcpState::Closing => "CLOSNG",
            TcpState::Unknown(_) => "?",
        }
    }
}

/// One TCP connection with the kernel's `tcp_info` metrics and the history
/// gathered across samples.
#[derive(Debug, Clone)]
pub struct ConnInfo {
    /// Identity of the connection: `src` + "→" + `dst`.
    pub key: String,
    pub src: String,
    pub dst: String,
    pub state: TcpState,
    /// Smoothed round-trip time (µs).
    pub rtt_us: u32,
    /// Round-trip time variance, the jitter (µs).
    pub rttvar_us: u32,
    /// Kernel-tracked minimum round-trip time (µs, 0 when unavailable).
    pub min_rtt_us: u32,
    /// Cumulative retransmit count.
    pub total_retrans: u32,
    /// Retransmits currently in flight.
    pub retrans_in_flight: u32,
    /// Segments the kernel currently considers lost.
    pub lost: u32,
    /// Segments sent.
    pub segs_out: u32,
    /// Segments received.
    pub segs_in: u32,
    /// Bytes sent.
    pub bytes_sent: u64,
    /// Bytes retransmitted.
    pub bytes_retrans: u64,
    /// Congestion window (segments).
    pub cwnd: u32,
    /// Congestion-avoidance state (0 Open, 1 Disorder, 2 CWR, 3 Recovery, 4 Loss).
    pub ca_state: u8,
    /// Retransmission timeout (µs).
    pub rto_us: u32,
    /// Unacknowledged segments.
    pub unacked: u32,
    /// Delivery rate (bytes per second).
    pub delivery_rate_bps: u64,
    pub pmtu: u32,
    pub snd_mss: u32,
    /// Retransmits since the previous sample.
    pub retrans_delta: u32,
    /// Number of samples with a non-zero RTT.
    pub samples: u64,
    /// Smallest sampled RTT (`u32::MAX` before the first sample).
    pub rtt_min_us: u32,
    /// Largest sampled RTT.
    pub rtt_max_us: u32,
    /// Sum of the sampled RTTs.
    pub rtt_sum_us: u64,
    /// Slow-start threshold.
    pub snd_ssthresh: u32,
    /// Receiver slow-start threshold.
    pub rcv_ssthresh: u32,
    /// Receiver-side RTT estimate (µs).
    pub rcv_rtt_us: u32,
    /// Receive buffer space (bytes).
    pub rcv_space: u32,
    /// Bytes queued but not yet sent.
    pub notsent_bytes: u32,
    /// Data segments sent.
    pub data_segs_out: u32,
    /// Data segments received.
    pub data_segs_in: u32,
    /// Time the connection was busy (µs).
    pub busy_time_us: u64,
    /// Busy time limited by the receive window (µs).
    pub rwnd_limited_us: u64,
    /// Busy time limited by the send buffer (µs).
    pub sndbuf_limited_us: u64,
    /// Segments delivered.
    pub delivered: u32,
    /// Segments delivered with an ECN CE mark.
    pub delivered_ce: u32,
    /// DSACK blocks received.
    pub dsack_dups: u32,
    /// Reordering events.
    pub reord_seen: u32,
    /// Out-of-order packets received.
    pub rcv_ooopack: u32,
}

// ── Grading rules, one per metric ────────────────────────────────────────────

/// Smoothed RTT: below 10 ms good, below 100 ms warning (0 = no sample).
pub open spec fn rtt_grade(rtt_us: u32) -> Health {
    if rtt_us < 10_000 {
        Health::Good
    } else if rtt_us < 100_000 {
        Health::Warn
    } else {
        Health::Bad
    }
}

/// Jitter as a share of the RTT: below 25% good, below 75% warning.
pub open spec fn jitter_grade(rttvar_us: u32, rtt_us: u32) -> Health {
    if rttvar_us == 0 || rtt_us == 0 {
        Health::Good
    } else if 4 * rttvar_us < rtt_us {
        Health::Good
    } else if 4 * rttvar_us < 3 * rtt_us {
        Health::Warn
    } else {
        Health::Bad
    }
}

/// Loss share `lost / (segs_out + lost)`: 0% good, below 0.1% warning.
pub open spec fn loss_grade(lost: u32, segs_out: u32) -> Health {
    if lost == 0 {
        Health::Good
    } else if 1000 * lost < segs_out + lost {
        Health::Warn
    } else {
        Health::Bad
    }
}

/// Retransmit share `total_retrans / segs_out`: 0% good, below 1% warning.
pub open spec fn retrans_grade(total_retrans: u32, segs_out: u32) -> Health {
    if segs_out == 0 || total_retrans == 0 {
        Health::Good
    } else if 100 * total_retrans < segs_out {
        Health::Warn
    } else {
        Health::Bad
    }
}

/// Congestion-avoidance state: Open good, Disorder and CWR warning.
pub open spec fn ca_grade(ca_state: u8) -> Health {
    if ca_state == 0 {
        Health::Good
    } else if ca_state <= 2 {
        Health::Warn
    } else {
        Health::Bad
    }
}

/// Retransmission timeout: below 500 ms good, below 3 s warning.
pub open spec fn rto_grade(rto_us: u32) -> Health {
    if rto_us < 500_000 {
        Health::Good
    } else if rto_us < 3_000_000 {
        Health::Warn
    } else {
        Health::Bad
    }
}

/// A counter that is good at zero and a warning up to `warn_max`.
pub open spec fn count_grade(n: u32, warn_max: u32) -> Health {
    if n == 0 {
        Health::Good
    } else if n <= warn_max {
        Health::Warn
    } else {
        Health::Bad
    }
}

/// Unsent backlog: below 64 KiB good, below 1 MiB warning.
pub open spec fn notsent_grade(notsent_bytes: u32) -> Health {
    if notsent_bytes < 65_536 {
        Health::Good
    } else if notsent_bytes < 1_048_576 {
        Health::Warn
    } else {
        Health::Bad
    }
}

/// Share of busy time spent limited: below 5% good, below 25% warning
/// (no busy time counts as 0%).
pub open spec fn limited_grade(limited_us: u64, busy_us: u64) -> Health {
    if busy_us == 0 || 20 * limited_us < busy_us {
        Health::Good
    } else if 4 * limited_us < busy_us {
        Health::Warn
    } else {
        Health::Bad
    }
}

/// Label of a congestion-avoidance state.
pub open spec fn ca_label(ca_state: u8) -> Seq<char> {
    if ca_state == 0 {
        "Open"@
    } else if ca_state == 1 {
        "Disord"@
    } else if ca_state == 2 {
        "CWR"@
    } else if ca_state == 3 {
        "Recov"@
    } else if ca_state == 4 {
        "Loss"@
    } else {
        "?"@
    }
}

impl ConnInfo {
    /// Worst grade over every metric of the connection.
    pub open spec fn overall_grade(self) -> Health {
        rtt_grade(self.rtt_us)
            .spec_worse(jitter_grade(self.rttvar_us, self.rtt_us))
            .spec_worse(loss_grade(self.lost, self.segs_out))
            .spec_worse(retrans_grade(self.total_retrans, self.segs_out))
            .spec_worse(ca_grade(self.ca_state))
            .spec_worse(rto_grade(self.rto_us))
            .spec_worse(count_grade(self.dsack_dups, 5))
            .spec_worse(count_grade(self.reord_seen, 3))
            .spec_worse(count_grade(self.rcv_ooopack, 10))
            .spec_worse(notsent_grade(self.notsent_bytes))
            .spec_worse(limited_grade(self.rwnd_limited_us, self.busy_time_us))
            .spec_worse(limited_grade(self.sndbuf_limited_us, self.busy_time_us))
    }

    /// The grades of all twelve metrics, in the order of `overall_grade`.
    pub open spec fn grades(self) -> Seq<Health> {
        seq![
            rtt_grade(self.rtt_us),
            jitter_grade(self.rttvar_us, self.rtt_us),
            loss_grade(self.lost, self.segs_out),
            retrans_grade(self.total_retrans, self.segs_out),
            ca_grade(self.ca_state),
            rto_grade(self.rto_us),
            count_grade(self.dsack_dups, 5),
            count_grade(self.reord_seen, 3),
            count_grade(self.rcv_ooopack, 10),
            notsent_grade(self.notsent_bytes),
            limited_grade(self.rwnd_limited_us, self.busy_time_us),
            limited_grade(self.sndbuf_limited_us, self.busy_time_us),
        ]
    }

    /// Whether `update` can add `fresh`'s sample without its counters overflowing.
    pub open spec fn can_absorb(self, fresh: ConnInfo) -> bool {
        fresh.rtt_us > 0 ==> self.samples < u64::MAX && self.rtt_sum_us + fresh.rtt_us <= u64::MAX
    }

    /// The connection after merging the fresh measurement `fresh` into `old`:
    /// the current metrics are taken from `fresh`, the identity from `old`,
    /// and a non-zero RTT extends the sample history.
    pub open spec fn updated(old: ConnInfo, fresh: ConnInfo) -> ConnInfo {
        ConnInfo {
        key: old.key,
        src: old.src,
        dst: old.dst,
        state: fresh.state,
        rtt_us: fresh.rtt_us,
        rttvar_us: fresh.rttvar_us,
        min_rtt_us: fresh.min_rtt_us,
        total_retrans: fresh.total_retrans,
        retrans_in_flight: fresh.retrans_in_flight,
        lost: fresh.lost,
        segs_out: fresh.segs_out,
        segs_in: fresh.segs_in,
        bytes_sent: fresh.bytes_sent,
        bytes_retrans: fresh.bytes_retrans,
        cwnd: fresh.cwnd,
        ca_state: fresh.ca_state,
        rto_us: fresh.rto_us,
        unacked: fresh.unacked,
        delivery_rate_bps: fresh.delivery_rate_bps,
        pmtu: fresh.pmtu,
        snd_mss: fresh.snd_mss,
        retrans_delta: if fresh.total_retrans >= old.total_retrans { (fresh.total_retrans - old.total_retrans) as u32 } else { 0 },
        samples: if fresh.rtt_us > 0 { (old.samples + 1) as u64 } else { old.samples },
        rtt_min_us: if fresh.rtt_us > 0 && fresh.rtt_us < old.rtt_min_us { fresh.rtt_us } else { old.rtt_min_us },
        rtt_max_us: if fresh.rtt_us > 0 && fresh.rtt_us > old.rtt_max_us { fresh.rtt_us } else { old.rtt_max_us },
        rtt_sum_us: if fresh.rtt_us > 0 { (old.rtt_sum_us + fresh.rtt_us) as u64 } else { old.rtt_sum_us },
        snd_ssthresh: fresh.snd_ssthresh,
        rcv_ssthresh: fresh.rcv_ssthresh,
        rcv_rtt_us: fresh.rcv_rtt_us,
        rcv_space: fresh.rcv_space,
        notsent_bytes: fresh.notsent_bytes,
        data_segs_out: fresh.data_segs_out,
        data_segs_in: fresh.data_segs_in,
        busy_time_us: fresh.busy_time_us,
        rwnd_limited_us: fresh.rwnd_limited_us,
        sndbuf_limited_us: fresh.sndbuf_limited_us,
        delivered: fresh.delivered,
        delivered_ce: fresh.delivered_ce,
        dsack_dups: fresh.dsack_dups,
        reord_seen: fresh.reord_seen,
        rcv_ooopack: fresh.rcv_ooopack,
        }
    }

    /// A field-for-field copy of `self`.
    pub fn duplicate(&self) -> (r: ConnInfo)
        ensures r == *self,
    {
        ConnInfo {
            key: self.key.clone(),
            src: self.src.clone(),
            dst: self.dst.clone(),
            state: self.state,
            rtt_us: self.rtt_us,
            rttvar_us: self.rttvar_us,
            min_rtt_us: self.min_rtt_us,
            total_retrans: self.total_retrans,
            retrans_in_flight: self.retrans_in_flight,
            lost: self.lost,
            segs_out: self.segs_out,
            segs_in: self.segs_in,
            bytes_sent: self.bytes_sent,
            bytes_retrans: self.bytes_retrans,
            cwnd: self.cwnd,
            ca_state: self.ca_state,
            rto_us: self.rto_us,
            unacked: self.unacked,
            delivery_rate_bps: self.delivery_rate_bps,
            pmtu: self.pmtu,
            snd_mss: self.snd_mss,
            retrans_delta: self.retrans_delta,
            samples: self.samples,
            rtt_min_us: self.rtt_min_us,
            rtt_max_us: self.rtt_max_us,
            rtt_sum_us: self.rtt_sum_us,
            snd_ssthresh: self.snd_ssthresh,
            rcv_ssthresh: self.rcv_ssthresh,
            rcv_rtt_us: self.rcv_rtt_us,
            rcv_space: self.rcv_space,
            notsent_bytes: self.notsent_bytes,
            data_segs_out: self.data_segs_out,
            data_segs_in: self.data_segs_in,
            busy_time_us: self.busy_time_us,
            rwnd_limited_us: self.rwnd_limited_us,
            sndbuf_limited_us: self.sndbuf_limited_us,
            delivered: self.delivered,
            delivered_ce: self.delivered_ce,
            dsack_dups: self.dsack_dups,
            reord_seen: self.reord_seen,
            rcv_ooopack: self.rcv_ooopack
        }
    }

    pub fn ca_state_str(&self) -> (l: &'static str)
        ensures l@ == ca_label(self.ca_state),
    {
        match self.ca_state {
            0 => "Open",
            1 => "Disord",
            2 => "CWR",
            3 => "Recov",
            4 => "Loss",
            _ => "?",
        }
    }

    /// True if the congestion-avoidance state is Recovery, Loss or beyond.
    pub fn ca_is_bad(&self) -> (b: bool)
        ensures b == (self.ca_state >= 3),
    {
        self.ca_state >= 3
    }

    pub fn rtt_health(&self) -> (h: Health)
        ensures h == rtt_grade(self.rtt_us),
    {
        if self.rtt_us == 0 {
            return Health::Good;
        }
        if self.rtt_us < 10_000 {
            Health::Good
        } else if self.rtt_us < 100_000 {
            Health::Warn
        } else {
            Health::Bad
        }
    }

    pub fn jitter_health(&self) -> (h: Health)
        ensures h == jitter_grade(self.rttvar_us, self.rtt_us),
    {
        if self.rttvar_us == 0 || self.rtt_us == 0 {
            return Health::Good;
        }
        let var4 = 4 * (self.rttvar_us as u64);
        let rtt = self.rtt_us as u64;
        if var4 < rtt {
            Health::Good
        } else if var4 < 3 * rtt {
            Health::Warn
        } else {
            Health::Bad
        }
    }

    pub fn loss_health(&self) -> (h: Health)
        ensures h == loss_grade(self.lost, self.segs_out),
    {
        if self.lost == 0 {
            Health::Good
        } else if 1000 * (self.lost as u64) < self.segs_out as u64 + self.lost as u64 {
            Health::Warn
        } else {
            Health::Bad
        }
    }

    pub fn retrans_health(&self) -> (h: Health)
        ensures h == retrans_grade(self.total_retrans, self.segs_out),
    {
        if self.segs_out == 0 || self.total_retrans == 0 {
            Health::Good
        } else if 100 * (self.total_retrans as u64) < self.segs_out as u64 {
            Health::Warn
        } else {
            Health::Bad
        }
    }

    pub fn ca_health(&self) -> (h: Health)
        ensures h == ca_grade(self.ca_state),
    {
        match self.ca_state {
            0 => Health::Good,
            1 | 2 => Health::Warn,
            _ => Health::Bad,
        }
    }

    pub fn rto_health(&self) -> (h: Health)
        ensures h == rto_grade(self.rto_us),
    {
        if self.rto_us == 0 {
            return Health::Good;
        }
        if self.rto_us < 500_000 {
            Health::Good
        } else if self.rto_us < 3_000_000 {
            Health::Warn
        } else {
            Health::Bad
        }
    }

    pub fn dsack_health(&self) -> (h: Health)
        ensures h == count_grade(self.dsack_dups, 5),
    {
        if self.dsack_dups == 0 {
            Health::Good
        } else if self.dsack_dups <= 5 {
            Health::Warn
        } else {
            Health::Bad
        }
    }

    pub fn reorder_health(&self) -> (h: Health)
        ensures h == count_grade(self.reord_seen, 3),
    {
        if self.reord_seen == 0 {
            Health::Good
        } else if self.reord_seen <= 3 {
            Health::Warn
        } else {
            Health::Bad
        }
    }

    pub fn ooo_health(&self) -> (h: Health)
        ensures h == count_grade(self.rcv_ooopack, 10),
    {
        if self.rcv_ooopack == 0 {
            Health::Good
        } else if self.rcv_ooopack <= 10 {
            Health::Warn
        } else {
            Health::Bad
        }
    }

    pub fn notsent_health(&self) -> (h: Health)
        ensures h == notsent_grade(self.notsent_bytes),
    {
        if self.notsent_bytes < 65_536 {
            Health::Good
        } else if self.notsent_bytes < 1_048_576 {
            Health::Warn
        } else {
            Health::Bad
        }
    }

    pub fn rwnd_health(&self) -> (h: Health)
        ensures h == limited_grade(self.rwnd_limited_us, self.busy_time_us),
    {
        grade_limited(self.rwnd_limited_us, self.busy_time_us)
    }

    pub fn sndbuf_health(&self) -> (h: Health)
        ensures h == limited_grade(self.sndbuf_limited_us, self.busy_time_us),
    {
        grade_limited(self.sndbuf_limited_us, self.busy_time_us)
    }

    /// Overall connection health: the worst of all metric grades.
    pub fn overall_health(&self) -> (h: Health)
        ensures h == self.overall_grade(),
    {
        self.rtt_health()
            .worse(self.jitter_health())
            .worse(self.loss_health())
            .worse(self.retrans_health())
            .worse(self.ca_health())
            .worse(self.rto_health())
            .worse(self.dsack_health())
            .worse(self.reorder_health())
            .worse(self.ooo_health())
            .worse(self.notsent_health())
            .worse(self.rwnd_health())
            .worse(self.sndbuf_health())
    }

    /// Merge fresh data from a new query, keeping the identity and extending
    /// the sample history.
    pub fn update(&mut self, fresh: &ConnInfo)
        requires old(self).can_absorb(*fresh),
        ensures *final(self) == ConnInfo::updated(*old(self), *fresh),
    {
        self.retrans_delta = fresh.total_retrans.saturating_sub(self.total_retrans);
        self.total_retrans = fresh.total_retrans;
        self.state = fresh.state;
        self.rtt_us = fresh.rtt_us;
        self.rttvar_us = fresh.rttvar_us;
        self.min_rtt_us = fresh.min_rtt_us;
        self.retrans_in_flight = fresh.retrans_in_flight;
        self.lost = fresh.lost;
        self.segs_out = fresh.segs_out;
        self.segs_in = fresh.segs_in;
        self.bytes_sent = fresh.bytes_sent;
        self.bytes_retrans = fresh.bytes_retrans;
        self.cwnd = fresh.cwnd;
        self.ca_state = fresh.ca_state;
        self.rto_us = fresh.rto_us;
        self.unacked = fresh.unacked;
        self.delivery_rate_bps = fresh.delivery_rate_bps;
        self.pmtu = fresh.pmtu;
        self.snd_mss = fresh.snd_mss;
        self.snd_ssthresh = fresh.snd_ssthresh;
        self.rcv_ssthresh = fresh.rcv_ssthresh;
        self.rcv_rtt_us = fresh.rcv_rtt_us;
        self.rcv_space = fresh.rcv_space;
        self.notsent_bytes = fresh.notsent_bytes;
        self.data_segs_out = fresh.data_segs_out;
        self.data_segs_in = fresh.data_segs_in;
        self.busy_time_us = fresh.busy_time_us;
        self.rwnd_limited_us = fresh.rwnd_limited_us;
        self.sndbuf_limited_us = fresh.sndbuf_limited_us;
        self.delivered = fresh.delivered;
        self.delivered_ce = fresh.delivered_ce;
        self.dsack_dups = fresh.dsack_dups;
        self.reord_seen = fresh.reord_seen;
        self.rcv_ooopack = fresh.rcv_ooopack;
        if fresh.rtt_us > 0 {
            self.samples = self.samples + 1;
            self.rtt_sum_us = self.rtt_sum_us + fresh.rtt_us as u64;
            if fresh.rtt_us < self.rtt_min_us {
                self.rtt_min_us = fresh.rtt_us;
            }
            if fresh.rtt_us > self.rtt_max_us {
                self.rtt_max_us = fresh.rtt_us;
            }
        }
    }
}

/// Grade of a share of busy time, computed without overflow.
fn grade_limited(limited_us: u64, busy_us: u64) -> (h: Health)
    ensures h == limited_grade(limited_us, busy_us),
{
    let limited = limited_us as u128;
    let busy = busy_us as u128;
    if busy_us == 0 || 20 * limited < busy {
        Health::Good
    } else if 4 * limited < busy {
        Health::Warn
    } else {
        Health::Bad
    }
}

} // verus!
