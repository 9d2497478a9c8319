use vstd::prelude::*;

use crate::addr::{decode_addr, dotted, endpoint_text, format_addr, ipv6_text, is_v4_mapped, IpAddr};
use crate::conn::{state_of, ConnInfo, TcpState};
use crate::text::{dec, push_char, push_str};

verus! {

// ── Netlink constants ────────────────────────────────────────────────────────

/// Netlink protocol number of the socket-diagnostics family.
pub const NETLINK_SOCK_DIAG: i32 = 4;
/// Message type of an `INET_DIAG` request and of its answers.
pub const SOCK_DIAG_BY_FAMILY: u16 = 20;
pub const NLM_F_REQUEST: u16 = 0x0001;
pub const NLM_F_DUMP: u16 = 0x0300;
pub const NLMSG_DONE: u16 = 3;
pub const NLMSG_ERROR: u16 = 2;
/// Attribute type that carries `struct tcp_info`.
pub const INET_DIAG_INFO: u16 = 2;
/// Address family of IPv4 sockets.
pub const AF_INET: u8 = 2;
/// Address family of IPv6 sockets.
pub const AF_INET6: u8 = 10;
pub const IPPROTO_TCP: u8 = 6;

/// Size of `struct nlmsghdr`.
pub const NLMSG_HDR_LEN: usize = 16;
/// Size of `struct inet_diag_msg`.
pub const DIAG_MSG_LEN: usize = 72;
/// Size of `struct rtattr`.
pub const RTATTR_LEN: usize = 4;
/// Size of the request: `nlmsghdr` followed by `inet_diag_req_v2`.
pub const REQUEST_LEN: usize = 72;
/// Bytes of `tcp_info` that every kernel provides (through `total_retrans`).
pub const TCP_INFO_MIN_SIZE: usize = 104;
/// Bytes of `tcp_info` that are read (through `rcv_ooopack`).
pub const TCP_INFO_LEN: usize = 228;

// ── Integers in byte sequences (the host is little-endian) ───────────────────

pub open spec fn le16(b: Seq<u8>, o: int) -> nat {
    (b[o] + 256 * b[o + 1]) as nat
}

pub open spec fn le32(b: Seq<u8>, o: int) -> nat {
    (le16(b, o) + 65536 * le16(b, o + 2)) as nat
}

pub open spec fn le64(b: Seq<u8>, o: int) -> nat {
    (le32(b, o) + 4294967296 * le32(b, o + 4)) as nat
}

/// A 16-bit integer in network (big-endian) byte order.
pub open spec fn be16(b: Seq<u8>, o: int) -> nat {
    (256 * b[o] + b[o + 1]) as nat
}

pub open spec fn le16_bytes(v: nat) -> Seq<u8> {
    seq![(v % 256) as u8, ((v / 256) % 256) as u8]
}

pub open spec fn le32_bytes(v: nat) -> Seq<u8> {
    le16_bytes(v % 65536) + le16_bytes(v / 65536)
}

/// `len` rounded up to a multiple of four (`NLMSG_ALIGN`).
pub open spec fn align4(len: nat) -> nat {
    ((len + 3) / 4 * 4) as nat
}

fn read_u16_le(b: &[u8], o: usize) -> (v: u16)
    requires
        o + 2 <= b.len(),
    ensures
        v == le16(b@, o as int),
{
    b[o] as u16 + b[o + 1] as u16 * 256
}

fn read_u32_le(b: &[u8], o: usize) -> (v: u32)
    requires
        o + 4 <= b.len(),
    ensures
        v == le32(b@, o as int),
{
    read_u16_le(b, o) as u32 + read_u16_le(b, o + 2) as u32 * 65536
}

fn read_u64_le(b: &[u8], o: usize) -> (v: u64)
    requires
        o + 8 <= b.len(),
    ensures
        v == le64(b@, o as int),
{
    read_u32_le(b, o) as u64 + read_u32_le(b, o + 4) as u64 * 4294967296
}

fn read_u16_be(b: &[u8], o: usize) -> (v: u16)
    requires
        o + 2 <= b.len(),
    ensures
        v == be16(b@, o as int),
{
    b[o] as u16 * 256 + b[o + 1] as u16
}

/// Rounds `len` up to a multiple of four.
pub fn nlmsg_align(len: usize) -> (r: usize)
    requires
        len <= usize::MAX - 3,
    ensures
        r == align4(len as nat),
{
    let x = len + 3;
    assert((x & !3usize) == x / 4 * 4) by (bit_vector);
    x & !3usize
}

// ── The dump request ─────────────────────────────────────────────────────────

/// The bytes of an `INET_DIAG` dump request for `family`: a netlink header
/// (length, type `SOCK_DIAG_BY_FAMILY`, flags `REQUEST | DUMP`, sequence 1,
/// port 0) followed by `inet_diag_req_v2` asking for TCP sockets of every
/// state with the `INET_DIAG_INFO` extension and a zero socket id.
pub open spec fn request_bytes(family: u8) -> Seq<u8> {
    le32_bytes(REQUEST_LEN as nat) + le16_bytes(SOCK_DIAG_BY_FAMILY as nat) + le16_bytes(0x0301)
        + le32_bytes(1) + le32_bytes(0) + seq![family, IPPROTO_TCP, 2u8, 0u8] + le32_bytes(
        0xffff_ffff,
    ) + Seq::new(48, |i: int| 0u8)
}

fn push_bytes(out: &mut Vec<u8>, bytes: &[u8])
    ensures
        final(out)@ == old(out)@ + bytes@,
{
    let ghost start = out@;
    let mut i: usize = 0;
    while i < bytes.len()
        invariant
            i <= bytes@.len(),
            out@ == start + bytes@.subrange(0, i as int),
        decreases bytes@.len() - i,
    {
        out.push(bytes[i]);
        i = i + 1;
        assert(out@ =~= start + bytes@.subrange(0, i as int));
    }
    assert(bytes@.subrange(0, i as int) =~= bytes@);
}

/// Builds the dump request for one address family.
pub fn build_request(family: u8) -> (req: Vec<u8>)
    ensures
        req@ == request_bytes(family),
{
    let flags: u16 = NLM_F_REQUEST | NLM_F_DUMP;
    assert(flags == 0x0301) by (bit_vector)
        requires flags == 1u16 | 0x0300u16;
    let ext: u8 = 1u8 << (INET_DIAG_INFO - 1) as u8;
    assert(ext == 2) by (bit_vector)
        requires ext == 1u8 << 1u8;
    let mut req: Vec<u8> = Vec::new();
    push_bytes(&mut req, &[REQUEST_LEN as u8, 0, 0, 0]);
    push_bytes(&mut req, &[SOCK_DIAG_BY_FAMILY as u8, 0]);
    push_bytes(&mut req, &[(flags % 256) as u8, (flags / 256) as u8]);
    push_bytes(&mut req, &[1, 0, 0, 0]);
    push_bytes(&mut req, &[0, 0, 0, 0]);
    push_bytes(&mut req, &[family, IPPROTO_TCP, ext, 0]);
    push_bytes(&mut req, &[0xff, 0xff, 0xff, 0xff]);
    let mut i: usize = 0;
    let ghost head = req@;
    while i < 48
        invariant
            i <= 48,
            req@ == head + Seq::new(i as nat, |k: int| 0u8),
        decreases 48 - i,
    {
        req.push(0);
        i = i + 1;
        assert(req@ =~= head + Seq::new(i as nat, |k: int| 0u8));
    }
    assert(req@ =~= request_bytes(family));
    req
}

// ── tcp_info ─────────────────────────────────────────────────────────────────

/// The fields of the kernel's `struct tcp_info` that the monitor reads.
#[derive(Debug, Clone, Copy, PartialEq, Eq)]
pub struct TcpInfo {
    pub ca_state: u8,   // offset 1
    pub rto: u32,   // offset 8
    pub snd_mss: u32,   // offset 16
    pub unacked: u32,   // offset 24
    pub lost: u32,   // offset 32
    pub retrans: u32,   // offset 36
    pub pmtu: u32,   // offset 60
    pub rcv_ssthresh: u32,   // offset 64
    pub rtt: u32,   // offset 68
    pub rttvar: u32,   // offset 72
    pub snd_ssthresh: u32,   // offset 76
    pub snd_cwnd: u32,   // offset 80
    pub rcv_rtt: u32,   // offset 92
    pub rcv_space: u32,   // offset 96
    pub total_retrans: u32,   // offset 100
    pub segs_out: u32,   // offset 136
    pub segs_in: u32,   // offset 140
    pub notsent_bytes: u32,   // offset 144
    pub min_rtt: u32,   // offset 148
    pub data_segs_in: u32,   // offset 152
    pub data_segs_out: u32,   // offset 156
    pub delivery_rate: u64,   // offset 160
    pub busy_time: u64,   // offset 168
    pub rwnd_limited: u64,   // offset 176
    pub sndbuf_limited: u64,   // offset 184
    pub delivered: u32,   // offset 192
    pub delivered_ce: u32,   // offset 196
    pub bytes_sent: u64,   // offset 200
    pub bytes_retrans: u64,   // offset 208
    pub dsack_dups: u32,   // offset 216
    pub reord_seen: u32,   // offset 220
    pub rcv_ooopack: u32,   // offset 224
}

/// `tcp_info` as laid out in the first `TCP_INFO_LEN` bytes of `raw`.
pub open spec fn tcp_info_of(raw: Seq<u8>) -> TcpInfo {
    TcpInfo {
        ca_state: raw[1],
        rto: le32(raw, 8) as u32,
        snd_mss: le32(raw, 16) as u32,
        unacked: le32(raw, 24) as u32,
        lost: le32(raw, 32) as u32,
        retrans: le32(raw, 36) as u32,
        pmtu: le32(raw, 60) as u32,
        rcv_ssthresh: le32(raw, 64) as u32,
        rtt: le32(raw, 68) as u32,
        rttvar: le32(raw, 72) as u32,
        snd_ssthresh: le32(raw, 76) as u32,
        snd_cwnd: le32(raw, 80) as u32,
        rcv_rtt: le32(raw, 92) as u32,
        rcv_space: le32(raw, 96) as u32,
        total_retrans: le32(raw, 100) as u32,
        segs_out: le32(raw, 136) as u32,
        segs_in: le32(raw, 140) as u32,
        notsent_bytes: le32(raw, 144) as u32,
        min_rtt: le32(raw, 148) as u32,
        data_segs_in: le32(raw, 152) as u32,
        data_segs_out: le32(raw, 156) as u32,
        delivery_rate: le64(raw, 160) as u64,
        busy_time: le64(raw, 168) as u64,
        rwnd_limited: le64(raw, 176) as u64,
        sndbuf_limited: le64(raw, 184) as u64,
        delivered: le32(raw, 192) as u32,
        delivered_ce: le32(raw, 196) as u32,
        bytes_sent: le64(raw, 200) as u64,
        bytes_retrans: le64(raw, 208) as u64,
        dsack_dups: le32(raw, 216) as u32,
        reord_seen: le32(raw, 220) as u32,
        rcv_ooopack: le32(raw, 224) as u32,
    }
}

/// All fields zero: what a socket without a `tcp_info` attribute reports.
pub open spec fn zero_tcp_info() -> TcpInfo {
    TcpInfo {
        ca_state: 0,
        rto: 0,
        snd_mss: 0,
        unacked: 0,
        lost: 0,
        retrans: 0,
        pmtu: 0,
        rcv_ssthresh: 0,
        rtt: 0,
        rttvar: 0,
        snd_ssthresh: 0,
        snd_cwnd: 0,
        rcv_rtt: 0,
        rcv_space: 0,
        total_retrans: 0,
        segs_out: 0,
        segs_in: 0,
        notsent_bytes: 0,
        min_rtt: 0,
        data_segs_in: 0,
        data_segs_out: 0,
        delivery_rate: 0,
        busy_time: 0,
        rwnd_limited: 0,
        sndbuf_limited: 0,
        delivered: 0,
        delivered_ce: 0,
        bytes_sent: 0,
        bytes_retrans: 0,
        dsack_dups: 0,
        reord_seen: 0,
        rcv_ooopack: 0,
    }
}

/// `payload` cut or zero-filled to `TCP_INFO_LEN` bytes; fields that an older
/// kernel does not send read as zero.
pub open spec fn zero_filled(payload: Seq<u8>) -> Seq<u8> {
    Seq::new(TCP_INFO_LEN as nat, |i: int| if i < payload.len() { payload[i] } else { 0u8 })
}

impl TcpInfo {
    pub fn zeroed() -> (t: TcpInfo)
        ensures
            t == zero_tcp_info(),
    {
        TcpInfo {
        ca_state: 0,
        rto: 0,
        snd_mss: 0,
        unacked: 0,
        lost: 0,
        retrans: 0,
        pmtu: 0,
        rcv_ssthresh: 0,
        rtt: 0,
        rttvar: 0,
        snd_ssthresh: 0,
        snd_cwnd: 0,
        rcv_rtt: 0,
        rcv_space: 0,
        total_retrans: 0,
        segs_out: 0,
        segs_in: 0,
        notsent_bytes: 0,
        min_rtt: 0,
        data_segs_in: 0,
        data_segs_out: 0,
        delivery_rate: 0,
        busy_time: 0,
        rwnd_limited: 0,
        sndbuf_limited: 0,
        delivered: 0,
        delivered_ce: 0,
        bytes_sent: 0,
        bytes_retrans: 0,
        dsack_dups: 0,
        reord_seen: 0,
        rcv_ooopack: 0,
        }
    }
}

fn decode_tcp_info(raw: &[u8]) -> (t: TcpInfo)
    requires
        raw.len() >= TCP_INFO_LEN,
    ensures
        t == tcp_info_of(raw@),
{
    TcpInfo {
        ca_state: raw[1],
        rto: read_u32_le(raw, 8),
        snd_mss: read_u32_le(raw, 16),
        unacked: read_u32_le(raw, 24),
        lost: read_u32_le(raw, 32),
        retrans: read_u32_le(raw, 36),
        pmtu: read_u32_le(raw, 60),
        rcv_ssthresh: read_u32_le(raw, 64),
        rtt: read_u32_le(raw, 68),
        rttvar: read_u32_le(raw, 72),
        snd_ssthresh: read_u32_le(raw, 76),
        snd_cwnd: read_u32_le(raw, 80),
        rcv_rtt: read_u32_le(raw, 92),
        rcv_space: read_u32_le(raw, 96),
        total_retrans: read_u32_le(raw, 100),
        segs_out: read_u32_le(raw, 136),
        segs_in: read_u32_le(raw, 140),
        notsent_bytes: read_u32_le(raw, 144),
        min_rtt: read_u32_le(raw, 148),
        data_segs_in: read_u32_le(raw, 152),
        data_segs_out: read_u32_le(raw, 156),
        delivery_rate: read_u64_le(raw, 160),
        busy_time: read_u64_le(raw, 168),
        rwnd_limited: read_u64_le(raw, 176),
        sndbuf_limited: read_u64_le(raw, 184),
        delivered: read_u32_le(raw, 192),
        delivered_ce: read_u32_le(raw, 196),
        bytes_sent: read_u64_le(raw, 200),
        bytes_retrans: read_u64_le(raw, 208),
        dsack_dups: read_u32_le(raw, 216),
        reord_seen: read_u32_le(raw, 220),
        rcv_ooopack: read_u32_le(raw, 224),
    }
}

/// The payload of the first `INET_DIAG_INFO` attribute at or after `pos`
/// that is long enough to hold `tcp_info`, walking the attribute list
/// (`rtattr` headers, lengths rounded up to four) until it ends or an
/// attribute's length is out of range.
pub open spec fn info_payload(buf: Seq<u8>, pos: int) -> Option<Seq<u8>>
    decreases buf.len() - pos,
{
    if pos < 0 || pos + 4 > buf.len() {
        None
    } else {
        let len = le16(buf, pos);
        if len < 4 || pos + len > buf.len() {
            None
        } else if le16(buf, pos + 2) == INET_DIAG_INFO && len - 4 >= TCP_INFO_MIN_SIZE {
            Some(buf.subrange(pos + 4, pos + len))
        } else if pos + align4(len) > buf.len() {
            None
        } else {
            info_payload(buf, pos + align4(len))
        }
    }
}

/// The `tcp_info` that an attribute list carries, if any.
pub open spec fn tcp_info_in(attrs: Seq<u8>) -> Option<TcpInfo> {
    match info_payload(attrs, 0) {
        Some(p) => Some(tcp_info_of(zero_filled(p))),
        None => None,
    }
}

/// Walks the attributes that follow an `inet_diag_msg`, finds
/// `INET_DIAG_INFO` and decodes it as `tcp_info`.
pub fn parse_tcp_info_nla(buf: &[u8]) -> (r: Option<TcpInfo>)
    ensures
        r == tcp_info_in(buf@),
{
    let n = buf.len();
    let mut pos: usize = 0;
    while RTATTR_LEN <= n - pos
        invariant
            n == buf@.len(),
            pos <= n,
            info_payload(buf@, pos as int) == info_payload(buf@, 0),
        decreases n - pos,
    {
        let len = read_u16_le(buf, pos) as usize;
        let ty = read_u16_le(buf, pos + 2);
        if len < RTATTR_LEN || len > n - pos {
            return None;
        }
        if ty == INET_DIAG_INFO && len - RTATTR_LEN >= TCP_INFO_MIN_SIZE {
            let payload = vstd::slice::slice_subrange(buf, pos + 4, pos + len);
            let mut raw: Vec<u8> = Vec::new();
            let mut i: usize = 0;
            while i < TCP_INFO_LEN
                invariant
                    i <= TCP_INFO_LEN,
                    raw@ == zero_filled(payload@).subrange(0, i as int),
                decreases TCP_INFO_LEN - i,
            {
                if i < payload.len() {
                    raw.push(payload[i]);
                } else {
                    raw.push(0);
                }
                i = i + 1;
                assert(raw@ =~= zero_filled(payload@).subrange(0, i as int));
            }
            assert(raw@ =~= zero_filled(payload@));
            return Some(decode_tcp_info(raw.as_slice()));
        }
        let adv = nlmsg_align(len);
        if adv > n - pos {
            return None;
        }
        pos = pos + adv;
    }
    None
}

// ── inet_diag_msg ────────────────────────────────────────────────────────────

/// The fields of `struct inet_diag_msg` that the monitor reads; ports in host
/// order, addresses as the octets in network order.
#[derive(Debug, Clone, Copy, PartialEq, Eq)]
pub struct DiagMsg {
    pub family: u8,
    pub state: u8,
    pub sport: u16,
    pub dport: u16,
    pub src: [u8; 16],
    pub dst: [u8; 16],
}

/// Decodes the first `DIAG_MSG_LEN` bytes of a diagnostics message.
pub fn decode_diag_msg(data: &[u8]) -> (m: DiagMsg)
    requires
        data.len() >= DIAG_MSG_LEN,
    ensures
        m.family == data@[0],
        m.state == data@[1],
        m.sport == be16(data@, 4),
        m.dport == be16(data@, 6),
        m.src@ == data@.subrange(8, 24),
        m.dst@ == data@.subrange(24, 40),
{
    let src = [
        data[8], data[9], data[10], data[11], data[12], data[13], data[14], data[15],
        data[16], data[17], data[18], data[19], data[20], data[21], data[22], data[23],
    ];
    let dst = [
        data[24], data[25], data[26], data[27], data[28], data[29], data[30], data[31],
        data[32], data[33], data[34], data[35], data[36], data[37], data[38], data[39],
    ];
    assert(src@ =~= data@.subrange(8, 24));
    assert(dst@ =~= data@.subrange(24, 40));
    DiagMsg {
        family: data[0],
        state: data[1],
        sport: read_u16_be(data, 4),
        dport: read_u16_be(data, 6),
        src,
        dst,
    }
}

/// Text of the address `raw` of a socket of `family` with `port`.
pub open spec fn addr_text(family: u8, raw: Seq<u8>, port: nat) -> Seq<char> {
    if family == AF_INET {
        dotted(raw.subrange(0, 4)) + seq![':'] + dec(port)
    } else if is_v4_mapped(raw) {
        dotted(raw.subrange(12, 16)) + seq![':'] + dec(port)
    } else {
        seq!['['] + ipv6_text(raw) + seq![']', ':'] + dec(port)
    }
}

/// The current metrics of `c` are those of `t`.
pub open spec fn metrics_from(c: ConnInfo, t: TcpInfo) -> bool {
    &&& c.rtt_us == t.rtt
    &&& c.rttvar_us == t.rttvar
    &&& c.total_retrans == t.total_retrans
    &&& c.cwnd == t.snd_cwnd
    &&& c.ca_state == t.ca_state
    &&& c.rto_us == t.rto
    &&& c.unacked == t.unacked
    &&& c.lost == t.lost
    &&& c.retrans_in_flight == t.retrans
    &&& c.segs_out == t.segs_out
    &&& c.segs_in == t.segs_in
    &&& c.min_rtt_us == t.min_rtt
    &&& c.delivery_rate_bps == t.delivery_rate
    &&& c.bytes_sent == t.bytes_sent
    &&& c.bytes_retrans == t.bytes_retrans
    &&& c.pmtu == t.pmtu
    &&& c.snd_mss == t.snd_mss
    &&& c.snd_ssthresh == t.snd_ssthresh
    &&& c.rcv_ssthresh == t.rcv_ssthresh
    &&& c.rcv_rtt_us == t.rcv_rtt
    &&& c.rcv_space == t.rcv_space
    &&& c.notsent_bytes == t.notsent_bytes
    &&& c.data_segs_out == t.data_segs_out
    &&& c.data_segs_in == t.data_segs_in
    &&& c.busy_time_us == t.busy_time
    &&& c.rwnd_limited_us == t.rwnd_limited
    &&& c.sndbuf_limited_us == t.sndbuf_limited
    &&& c.delivered == t.delivered
    &&& c.delivered_ce == t.delivered_ce
    &&& c.dsack_dups == t.dsack_dups
    &&& c.reord_seen == t.reord_seen
    &&& c.rcv_ooopack == t.rcv_ooopack
}

/// `c` is the connection described by a diagnostics message with the given
/// state, ports and addresses and the optional `tcp_info`: endpoints as text,
/// key `src→dst`, metrics from `tcp_info` (all zero without it), and a
/// history holding the one RTT sample if it is non-zero.
pub open spec fn conn_built(
    c: ConnInfo,
    state: u8,
    sport: nat,
    dport: nat,
    src: Seq<u8>,
    dst: Seq<u8>,
    info: Option<TcpInfo>,
    family: u8,
) -> bool {
    let t = match info {
        Some(t) => t,
        None => zero_tcp_info(),
    };
    &&& c.src@ == addr_text(family, src, sport)
    &&& c.dst@ == addr_text(family, dst, dport)
    &&& c.key@ == c.src@ + seq!['→'] + c.dst@
    &&& c.state == state_of(state)
    &&& metrics_from(c, t)
    &&& c.retrans_delta == 0
    &&& c.samples == (if t.rtt > 0 { 1u64 } else { 0u64 })
    &&& c.rtt_min_us == (if t.rtt > 0 { t.rtt } else { u32::MAX })
    &&& c.rtt_max_us == t.rtt
    &&& c.rtt_sum_us == t.rtt
}

proof fn lemma_addr_text(family: u8, raw: Seq<u8>, ip: IpAddr, port: u16)
    requires
        raw.len() == 16,
        match ip {
            IpAddr::V4(a) => family == AF_INET && a@ == raw.subrange(0, 4),
            IpAddr::V6(a) => family != AF_INET && a@ == raw,
        },
    ensures
        endpoint_text(ip, port) == addr_text(family, raw, port as nat),
{
}

/// The connection that a diagnostics message describes; `None` for listening
/// and unconnected sockets (destination port 0).
pub fn build_conn_info(msg: &DiagMsg, tcp_info: Option<TcpInfo>, family: u8) -> (r: Option<ConnInfo>)
    ensures
        r is None <==> msg.dport == 0,
        r matches Some(c) ==> conn_built(
            c,
            msg.state,
            msg.sport as nat,
            msg.dport as nat,
            msg.src@,
            msg.dst@,
            tcp_info,
            family,
        ),
{
    if msg.dport == 0 {
        return None;
    }
    let src_ip = decode_addr(family, &msg.src);
    let dst_ip = decode_addr(family, &msg.dst);
    let src = format_addr(&src_ip, msg.sport);
    let dst = format_addr(&dst_ip, msg.dport);
    proof {
        lemma_addr_text(family, msg.src@, src_ip, msg.sport);
        lemma_addr_text(family, msg.dst@, dst_ip, msg.dport);
    }
    let mut key = src.clone();
    push_char(&mut key, '→');
    push_str(&mut key, dst.as_str());
    assert(key@ =~= src@ + seq!['→'] + dst@);
    let state = TcpState::from_u8(msg.state);
    let t = match tcp_info {
        Some(t) => t,
        None => TcpInfo::zeroed(),
    };
    Some(ConnInfo {
        key,
        src,
        dst,
        state,
        rtt_us: t.rtt,
        rttvar_us: t.rttvar,
        min_rtt_us: t.min_rtt,
        total_retrans: t.total_retrans,
        retrans_in_flight: t.retrans,
        lost: t.lost,
        segs_out: t.segs_out,
        segs_in: t.segs_in,
        bytes_sent: t.bytes_sent,
        bytes_retrans: t.bytes_retrans,
        cwnd: t.snd_cwnd,
        ca_state: t.ca_state,
        rto_us: t.rto,
        unacked: t.unacked,
        delivery_rate_bps: t.delivery_rate,
        pmtu: t.pmtu,
        snd_mss: t.snd_mss,
        retrans_delta: 0,
        samples: if t.rtt > 0 { 1 } else { 0 },
        rtt_min_us: if t.rtt > 0 { t.rtt } else { u32::MAX },
        rtt_max_us: t.rtt,
        rtt_sum_us: t.rtt as u64,
        snd_ssthresh: t.snd_ssthresh,
        rcv_ssthresh: t.rcv_ssthresh,
        rcv_rtt_us: t.rcv_rtt,
        rcv_space: t.rcv_space,
        notsent_bytes: t.notsent_bytes,
        data_segs_out: t.data_segs_out,
        data_segs_in: t.data_segs_in,
        busy_time_us: t.busy_time,
        rwnd_limited_us: t.rwnd_limited,
        sndbuf_limited_us: t.sndbuf_limited,
        delivered: t.delivered,
        delivered_ce: t.delivered_ce,
        dsack_dups: t.dsack_dups,
        reord_seen: t.reord_seen,
        rcv_ooopack: t.rcv_ooopack,
    })
}

// ── One buffer of netlink replies ────────────────────────────────────────────

/// The payloads of the connection messages in `buf` from offset `off` on,
/// and whether the dump has ended (`NLMSG_DONE` or `NLMSG_ERROR`). The walk
/// stops at a header whose length is out of range; messages of other types,
/// payloads shorter than `inet_diag_msg` and sockets with destination port 0
/// are skipped.
pub open spec fn diag_payloads(buf: Seq<u8>, off: int) -> (Seq<Seq<u8>>, bool)
    decreases buf.len() - off,
{
    if off < 0 || off + NLMSG_HDR_LEN > buf.len() {
        (Seq::empty(), false)
    } else {
        let len = le32(buf, off);
        let ty = le16(buf, off + 4);
        if len < NLMSG_HDR_LEN || off + len > buf.len() {
            (Seq::empty(), false)
        } else if ty == NLMSG_DONE || ty == NLMSG_ERROR {
            (Seq::empty(), true)
        } else {
            let data = buf.subrange(off + NLMSG_HDR_LEN, off + len);
            let here = if ty == SOCK_DIAG_BY_FAMILY && data.len() >= DIAG_MSG_LEN && be16(data, 6)
                != 0 {
                seq![data]
            } else {
                Seq::empty()
            };
            if off + align4(len) > buf.len() {
                (here, false)
            } else {
                let rest = diag_payloads(buf, off + align4(len));
                (here + rest.0, rest.1)
            }
        }
    }
}

/// `c` is the connection described by the diagnostics message payload `data`.
pub open spec fn conn_from_payload(c: ConnInfo, data: Seq<u8>, family: u8) -> bool {
    conn_built(
        c,
        data[1],
        be16(data, 4),
        be16(data, 6),
        data.subrange(8, 24),
        data.subrange(24, 40),
        tcp_info_in(data.subrange(DIAG_MSG_LEN as int, data.len() as int)),
        family,
    )
}

/// The connections found in one received buffer, and whether the dump ended.
pub struct Batch {
    pub conns: Vec<ConnInfo>,
    pub finished: bool,
}

/// Parses one buffer of netlink replies to an `INET_DIAG` dump of `family`.
pub fn parse_batch(buf: &[u8], family: u8) -> (b: Batch)
    ensures
        b.finished == diag_payloads(buf@, 0).1,
        b.conns@.len() == diag_payloads(buf@, 0).0.len(),
        forall|i: int|
            0 <= i < b.conns@.len() ==> conn_from_payload(
                #[trigger] b.conns@[i],
                diag_payloads(buf@, 0).0[i],
                family,
            ),
{
    let n = buf.len();
    let mut off: usize = 0;
    let mut conns: Vec<ConnInfo> = Vec::new();
    let ghost mut done: Seq<Seq<u8>> = Seq::empty();
    while NLMSG_HDR_LEN <= n - off
        invariant
            n == buf@.len(),
            off <= n,
            diag_payloads(buf@, 0) == (done + diag_payloads(buf@, off as int).0, diag_payloads(
                buf@,
                off as int,
            ).1),
            conns@.len() == done.len(),
            forall|i: int|
                0 <= i < conns@.len() ==> conn_from_payload(#[trigger] conns@[i], done[i], family),
        decreases n - off,
    {
        let msg_len = read_u32_le(buf, off) as usize;
        let ty = read_u16_le(buf, off + 4);
        if msg_len < NLMSG_HDR_LEN || msg_len > n - off {
            assert(diag_payloads(buf@, off as int).0 =~= Seq::<Seq<u8>>::empty());
            assert(done + Seq::<Seq<u8>>::empty() =~= done);
            return Batch { conns, finished: false };
        }
        if ty == NLMSG_DONE || ty == NLMSG_ERROR {
            assert(done + Seq::<Seq<u8>>::empty() =~= done);
            return Batch { conns, finished: true };
        }
        let ghost data = buf@.subrange(off + NLMSG_HDR_LEN, off + msg_len);
        let ghost here: Seq<Seq<u8>> = if ty == SOCK_DIAG_BY_FAMILY && data.len() >= DIAG_MSG_LEN
            && be16(data, 6) != 0 {
            seq![data]
        } else {
            Seq::empty()
        };
        if ty == SOCK_DIAG_BY_FAMILY {
            let payload = vstd::slice::slice_subrange(buf, off + NLMSG_HDR_LEN, off + msg_len);
            assert(payload@ == data);
            if payload.len() >= DIAG_MSG_LEN {
                let dmsg = decode_diag_msg(payload);
                let attrs = vstd::slice::slice_subrange(payload, DIAG_MSG_LEN, payload.len());
                let tcp_info = parse_tcp_info_nla(attrs);
                if let Some(ci) = build_conn_info(&dmsg, tcp_info, family) {
                    conns.push(ci);
                }
            }
        }
        let ghost old_done = done;
        proof {
            done = done + here;
        }
        if msg_len > usize::MAX - 3 {
            assert(done + Seq::<Seq<u8>>::empty() =~= done);
            return Batch { conns, finished: false };
        }
        let adv = nlmsg_align(msg_len);
        if adv > n - off {
            assert(done + Seq::<Seq<u8>>::empty() =~= done);
            return Batch { conns, finished: false };
        }
        off = off + adv;
        assert(old_done + (here + diag_payloads(buf@, off as int).0) =~= done + diag_payloads(
            buf@,
            off as int,
        ).0);
    }
    assert(diag_payloads(buf@, off as int).0 =~= Seq::<Seq<u8>>::empty());
    assert(done + Seq::<Seq<u8>>::empty() =~= done);
    Batch { conns, finished: false }
}

} // verus!
