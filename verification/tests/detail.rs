use tcp_monitor::conn::{ConnInfo, TcpState};
use tcp_monitor::health::{Color, Health};
use tcp_monitor::state::AppState;
use tcp_monitor::view::{retrans_text, retrans_tone, Tone};

fn conn(src: &str, dst: &str) -> ConnInfo {
    ConnInfo {
        key: format!("{src}→{dst}"),
        src: src.to_string(),
        dst: dst.to_string(),
        state: TcpState::Established,
        rtt_us: 0,
        rttvar_us: 0,
        min_rtt_us: 0,
        total_retrans: 0,
        retrans_in_flight: 0,
        lost: 0,
        segs_out: 0,
        segs_in: 0,
        bytes_sent: 0,
        bytes_retrans: 0,
        cwnd: 0,
        ca_state: 0,
        rto_us: 0,
        unacked: 0,
        delivery_rate_bps: 0,
        pmtu: 0,
        snd_mss: 0,
        retrans_delta: 0,
        samples: 0,
        rtt_min_us: u32::MAX,
        rtt_max_us: 0,
        rtt_sum_us: 0,
        snd_ssthresh: 0,
        rcv_ssthresh: 0,
        rcv_rtt_us: 0,
        rcv_space: 0,
        notsent_bytes: 0,
        data_segs_out: 0,
        data_segs_in: 0,
        busy_time_us: 0,
        rwnd_limited_us: 0,
        sndbuf_limited_us: 0,
        delivered: 0,
        delivered_ce: 0,
        dsack_dups: 0,
        reord_seen: 0,
        rcv_ooopack: 0,
    }
}

#[test]
fn retrans_cell_text_and_tone() {
    let mut c = conn("a", "b");
    assert_eq!(retrans_text(&c), "0");
    assert_eq!(retrans_tone(&c), Tone { color: Color::Green, bold: false });
    c.total_retrans = 12;
    assert_eq!(retrans_text(&c), "12");
    assert_eq!(retrans_tone(&c).color, Color::Yellow);
    c.retrans_delta = 3;
    assert_eq!(retrans_text(&c), "12 (+3)");
    assert_eq!(retrans_tone(&c), Tone { color: Color::Orange, bold: true });
}

#[test]
fn category_grades() {
    let mut c = conn("a", "b");
    assert_eq!(c.latency_health(), Health::Good);
    c.rto_us = 3_000_000;
    assert_eq!(c.latency_health(), Health::Bad);
    c.dsack_dups = 1;
    assert_eq!(c.loss_group_health(), Health::Warn);
    c.rcv_ooopack = 20;
    assert_eq!(c.reorder_group_health(), Health::Bad);
    c.notsent_bytes = 100_000;
    assert_eq!(c.buffer_health(), Health::Warn);
    c.busy_time_us = 100;
    c.sndbuf_limited_us = 30;
    assert_eq!(c.buffer_health(), Health::Bad);
}

#[test]
fn selected_connection_for_detail() {
    let mut s = AppState::new();
    let mut x = conn("1.1.1.1:1", "2.2.2.2:2");
    x.rtt_us = 5;
    let mut y = conn("3.3.3.3:3", "4.4.4.4:4");
    y.rtt_us = 9;
    y.state = TcpState::SynSent;
    s.merge(vec![x, y]);
    assert_eq!(s.table_selection(), Some(0));
    assert_eq!(s.selected_conn().unwrap().src, "3.3.3.3:3");
    s.move_down();
    assert_eq!(s.selected_conn().unwrap().src, "1.1.1.1:1");
    s.selected = 7;
    assert!(s.selected_conn().is_none());
}

#[test]
fn history_through_repeated_merges() {
    let mut s = AppState::new();
    for rtt in [300u32, 100, 0, 200] {
        let mut c = conn("a:1", "b:2");
        c.rtt_us = rtt;
        if rtt > 0 {
            c.samples = 1;
            c.rtt_min_us = rtt;
            c.rtt_max_us = rtt;
            c.rtt_sum_us = rtt as u64;
        }
        s.merge(vec![c]);
    }
    let c = &s.connections[0];
    assert_eq!(s.total_count(), 1);
    assert_eq!(c.samples, 3);
    assert_eq!(c.rtt_min_us, 100);
    assert_eq!(c.rtt_max_us, 300);
    assert_eq!(c.rtt_sum_us, 600);
    assert_eq!(c.rtt_us, 200);
}
