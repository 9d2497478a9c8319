use tcp_monitor::addr::{decode_addr, format_addr, IpAddr};
use tcp_monitor::conn::TcpState;
use tcp_monitor::wire::{
    build_conn_info, build_request, decode_diag_msg, nlmsg_align, parse_batch, parse_tcp_info_nla,
    DiagMsg, TcpInfo, AF_INET, AF_INET6,
};

fn put_u32(b: &mut [u8], off: usize, v: u32) {
    b[off..off + 4].copy_from_slice(&v.to_le_bytes());
}

fn put_u64(b: &mut [u8], off: usize, v: u64) {
    b[off..off + 8].copy_from_slice(&v.to_le_bytes());
}

/// A `tcp_info` payload of `len` bytes with a few fields set.
fn tcp_info_payload(len: usize) -> Vec<u8> {
    let mut p = vec![0u8; 228];
    p[1] = 1; // ca_state Disorder
    put_u32(&mut p, 8, 204_000); // rto
    put_u32(&mut p, 60, 1500); // pmtu
    put_u32(&mut p, 68, 171); // rtt
    put_u32(&mut p, 72, 113); // rttvar
    put_u32(&mut p, 80, 10); // snd_cwnd
    put_u32(&mut p, 100, 3); // total_retrans
    put_u32(&mut p, 136, 721); // segs_out
    put_u32(&mut p, 140, 710); // segs_in
    put_u64(&mut p, 160, 16_840_000); // delivery_rate
    put_u64(&mut p, 200, 57_200); // bytes_sent
    put_u32(&mut p, 216, 2); // dsack_dups
    put_u32(&mut p, 224, 5); // rcv_ooopack
    p.truncate(len);
    p
}

/// One SOCK_DIAG_BY_FAMILY message with an INET_DIAG_INFO attribute.
fn diag_message(family: u8, sport: u16, dport: u16, src: [u8; 16], dst: [u8; 16], info: &[u8]) -> Vec<u8> {
    let mut body = vec![0u8; 72];
    body[0] = family;
    body[1] = 1; // ESTABLISHED
    body[4..6].copy_from_slice(&sport.to_be_bytes());
    body[6..8].copy_from_slice(&dport.to_be_bytes());
    body[8..24].copy_from_slice(&src);
    body[24..40].copy_from_slice(&dst);
    let attr_len = 4 + info.len();
    body.extend_from_slice(&(attr_len as u16).to_le_bytes());
    body.extend_from_slice(&2u16.to_le_bytes());
    body.extend_from_slice(info);
    while body.len() % 4 != 0 {
        body.push(0);
    }
    let mut msg = Vec::new();
    msg.extend_from_slice(&((16 + body.len()) as u32).to_le_bytes());
    msg.extend_from_slice(&20u16.to_le_bytes());
    msg.extend_from_slice(&2u16.to_le_bytes());
    msg.extend_from_slice(&1u32.to_le_bytes());
    msg.extend_from_slice(&0u32.to_le_bytes());
    msg.extend_from_slice(&body);
    msg
}

fn done_message() -> Vec<u8> {
    let mut msg = Vec::new();
    msg.extend_from_slice(&20u32.to_le_bytes());
    msg.extend_from_slice(&3u16.to_le_bytes());
    msg.extend_from_slice(&2u16.to_le_bytes());
    msg.extend_from_slice(&1u32.to_le_bytes());
    msg.extend_from_slice(&0u32.to_le_bytes());
    msg.extend_from_slice(&0u32.to_le_bytes());
    msg
}

fn v4(a: [u8; 4]) -> [u8; 16] {
    let mut r = [0u8; 16];
    r[..4].copy_from_slice(&a);
    r
}

#[test]
fn align_rounds_up_to_four() {
    assert_eq!(nlmsg_align(0), 0);
    assert_eq!(nlmsg_align(1), 4);
    assert_eq!(nlmsg_align(4), 4);
    assert_eq!(nlmsg_align(105), 108);
    assert_eq!(nlmsg_align(232), 232);
}

#[test]
fn request_layout() {
    let req = build_request(AF_INET);
    assert_eq!(req.len(), 72);
    assert_eq!(&req[0..4], &72u32.to_le_bytes());
    assert_eq!(&req[4..6], &20u16.to_le_bytes());
    assert_eq!(&req[6..8], &0x0301u16.to_le_bytes());
    assert_eq!(&req[8..12], &1u32.to_le_bytes());
    assert_eq!(&req[12..16], &[0, 0, 0, 0]);
    assert_eq!(&req[16..20], &[2, 6, 2, 0]);
    assert_eq!(&req[20..24], &[0xff, 0xff, 0xff, 0xff]);
    assert!(req[24..].iter().all(|&b| b == 0));
    assert_eq!(build_request(AF_INET6)[16], 10);
}

#[test]
fn tcp_info_full_payload() {
    let payload = tcp_info_payload(228);
    let mut attrs = Vec::new();
    attrs.extend_from_slice(&(4 + 228u16).to_le_bytes());
    attrs.extend_from_slice(&2u16.to_le_bytes());
    attrs.extend_from_slice(&payload);
    let t = parse_tcp_info_nla(&attrs).expect("tcp_info present");
    assert_eq!(t.rtt, 171);
    assert_eq!(t.rttvar, 113);
    assert_eq!(t.snd_cwnd, 10);
    assert_eq!(t.ca_state, 1);
    assert_eq!(t.delivery_rate, 16_840_000);
    assert_eq!(t.bytes_sent, 57_200);
    assert_eq!(t.rcv_ooopack, 5);
}

#[test]
fn tcp_info_short_payload_zero_fills() {
    // an old kernel sends only the first 104 bytes
    let payload = tcp_info_payload(104);
    let mut attrs = Vec::new();
    // an unrelated attribute first, of odd length (padded to 8)
    attrs.extend_from_slice(&5u16.to_le_bytes());
    attrs.extend_from_slice(&1u16.to_le_bytes());
    attrs.extend_from_slice(&[9, 0, 0, 0]);
    attrs.extend_from_slice(&(4 + 104u16).to_le_bytes());
    attrs.extend_from_slice(&2u16.to_le_bytes());
    attrs.extend_from_slice(&payload);
    let t = parse_tcp_info_nla(&attrs).expect("tcp_info present");
    assert_eq!(t.rtt, 171);
    assert_eq!(t.total_retrans, 3);
    assert_eq!(t.segs_out, 0);
    assert_eq!(t.delivery_rate, 0);
    assert_eq!(t.rcv_ooopack, 0);
}

#[test]
fn tcp_info_too_short_or_missing() {
    let mut attrs = Vec::new();
    attrs.extend_from_slice(&(4 + 100u16).to_le_bytes());
    attrs.extend_from_slice(&2u16.to_le_bytes());
    attrs.extend_from_slice(&[0u8; 100]);
    assert_eq!(parse_tcp_info_nla(&attrs), None);
    assert_eq!(parse_tcp_info_nla(&[]), None);
    // an attribute claiming more bytes than there are stops the walk
    assert_eq!(parse_tcp_info_nla(&[200, 0, 2, 0, 1, 2, 3]), None);
}

#[test]
fn batch_of_ipv4_connections() {
    let info = tcp_info_payload(228);
    let mut buf = diag_message(2, 58338, 6379, v4([127, 0, 0, 1]), v4([127, 0, 0, 1]), &info);
    // a listening socket (destination port 0) is skipped
    buf.extend(diag_message(2, 22, 0, v4([0, 0, 0, 0]), v4([0, 0, 0, 0]), &info));
    buf.extend(diag_message(2, 40322, 443, v4([10, 1, 2, 3]), v4([93, 184, 216, 34]), &[]));
    buf.extend(done_message());
    let b = parse_batch(&buf, AF_INET);
    assert!(b.finished);
    assert_eq!(b.conns.len(), 2);
    let c = &b.conns[0];
    assert_eq!(c.src, "127.0.0.1:58338");
    assert_eq!(c.dst, "127.0.0.1:6379");
    assert_eq!(c.key, "127.0.0.1:58338→127.0.0.1:6379");
    assert_eq!(c.state, TcpState::Established);
    assert_eq!(c.rtt_us, 171);
    assert_eq!(c.rttvar_us, 113);
    assert_eq!(c.cwnd, 10);
    assert_eq!(c.ca_state, 1);
    assert_eq!(c.rto_us, 204_000);
    assert_eq!(c.pmtu, 1500);
    assert_eq!(c.segs_out, 721);
    assert_eq!(c.delivery_rate_bps, 16_840_000);
    assert_eq!(c.dsack_dups, 2);
    assert_eq!(c.rcv_ooopack, 5);
    assert_eq!(c.samples, 1);
    assert_eq!(c.rtt_min_us, 171);
    assert_eq!(c.rtt_max_us, 171);
    assert_eq!(c.rtt_sum_us, 171);
    // without tcp_info every metric is zero and there is no sample
    let d = &b.conns[1];
    assert_eq!(d.src, "10.1.2.3:40322");
    assert_eq!(d.dst, "93.184.216.34:443");
    assert_eq!(d.rtt_us, 0);
    assert_eq!(d.samples, 0);
    assert_eq!(d.rtt_min_us, u32::MAX);
}

#[test]
fn batch_without_done_continues() {
    let info = tcp_info_payload(160);
    let buf = diag_message(2, 1000, 2000, v4([1, 2, 3, 4]), v4([5, 6, 7, 8]), &info);
    let b = parse_batch(&buf, AF_INET);
    assert!(!b.finished);
    assert_eq!(b.conns.len(), 1);
    assert_eq!(b.conns[0].segs_out, 721);
    assert_eq!(b.conns[0].delivery_rate_bps, 0);
}

#[test]
fn batch_stops_at_bad_length_and_error() {
    let mut buf = vec![8u8, 0, 0, 0, 20, 0, 0, 0, 0, 0, 0, 0, 0, 0, 0, 0];
    let b = parse_batch(&buf, AF_INET);
    assert!(!b.finished);
    assert!(b.conns.is_empty());
    buf = done_message();
    buf[4] = 2; // NLMSG_ERROR
    assert!(parse_batch(&buf, AF_INET).finished);
    assert!(!parse_batch(&[], AF_INET).finished);
}

#[test]
fn batch_ipv6_and_mapped_addresses() {
    let mut src = [0u8; 16];
    src[0] = 0x20;
    src[1] = 0x01;
    src[2] = 0x0d;
    src[3] = 0xb8;
    src[15] = 1;
    let mut mapped = [0u8; 16];
    mapped[10] = 0xff;
    mapped[11] = 0xff;
    mapped[12..].copy_from_slice(&[192, 168, 1, 20]);
    let info = tcp_info_payload(228);
    let mut buf = diag_message(10, 443, 51000, src, mapped, &info);
    buf.extend(done_message());
    let b = parse_batch(&buf, AF_INET6);
    assert_eq!(b.conns.len(), 1);
    assert_eq!(b.conns[0].src, "[2001:db8::1]:443");
    assert_eq!(b.conns[0].dst, "192.168.1.20:51000");
}

#[test]
fn ipv6_text_compresses_first_longest_zero_run() {
    let fmt = |groups: [u16; 8]| {
        let mut o = [0u8; 16];
        for (i, g) in groups.iter().enumerate() {
            o[2 * i..2 * i + 2].copy_from_slice(&g.to_be_bytes());
        }
        format_addr(&IpAddr::V6(o), 80)
    };
    assert_eq!(fmt([0, 0, 0, 0, 0, 0, 0, 1]), "[::1]:80");
    assert_eq!(fmt([0; 8]), "[::]:80");
    assert_eq!(fmt([1, 0, 0, 0, 0, 0, 0, 0]), "[1::]:80");
    assert_eq!(fmt([1, 0, 1, 0, 0, 1, 0, 0]), "[1:0:1::1:0:0]:80");
    assert_eq!(fmt([1, 2, 3, 4, 5, 6, 0, 8]), "[1:2:3:4:5:6:0:8]:80");
    assert_eq!(fmt([0xfe80, 0, 0, 0, 0xabcd, 0, 0, 0x10]), "[fe80::abcd:0:0:10]:80");
    assert_eq!(fmt([0, 0, 1, 0, 0, 1, 0, 0]), "[::1:0:0:1:0:0]:80");
}

#[test]
fn ipv4_text_and_decoding() {
    assert_eq!(format_addr(&IpAddr::V4([0, 0, 0, 0]), 0), "0.0.0.0:0");
    assert_eq!(format_addr(&IpAddr::V4([255, 255, 255, 255]), 65535), "255.255.255.255:65535");
    let raw = v4([8, 8, 4, 4]);
    assert_eq!(decode_addr(AF_INET, &raw), IpAddr::V4([8, 8, 4, 4]));
    assert_eq!(decode_addr(AF_INET6, &raw), IpAddr::V6(raw));
}

#[test]
fn diag_message_fields() {
    let msg = diag_message(2, 0x1234, 0xabcd, v4([1, 2, 3, 4]), v4([5, 6, 7, 8]), &[]);
    let m = decode_diag_msg(&msg[16..]);
    assert_eq!(m.family, 2);
    assert_eq!(m.state, 1);
    assert_eq!(m.sport, 0x1234);
    assert_eq!(m.dport, 0xabcd);
    assert_eq!(m.src, v4([1, 2, 3, 4]));
}

#[test]
fn build_conn_info_skips_unconnected() {
    let m = DiagMsg { family: 2, state: 10, sport: 80, dport: 0, src: [0; 16], dst: [0; 16] };
    assert!(build_conn_info(&m, None, AF_INET).is_none());
    let m = DiagMsg { dport: 1, ..m };
    let c = build_conn_info(&m, Some(TcpInfo::zeroed()), AF_INET).unwrap();
    assert_eq!(c.state, TcpState::Listen);
    assert_eq!(c.key, "0.0.0.0:80→0.0.0.0:1");
}
