use tcp_monitor::conn::{ConnInfo, TcpState};
use tcp_monitor::health::{Color, Health};

fn conn(src: &str, dst: &str) -> ConnInfo {
    ConnInfo {
        key: format!("{src}→{dst}"),
        src: src.to_string(),
        dst: dst.to_string(),
        state: TcpState::Established,
        rtt_us: 0,
        rttvar_us: 0,
        min_rtt_us: 0,
        total_retrans: 0,
        retrans_in_flight: 0,
        lost: 0,
        segs_out: 0,
        segs_in: 0,
        bytes_sent: 0,
        bytes_retrans: 0,
        cwnd: 0,
        ca_state: 0,
        rto_us: 0,
        unacked: 0,
        delivery_rate_bps: 0,
        pmtu: 0,
        snd_mss: 0,
        retrans_delta: 0,
        samples: 0,
        rtt_min_us: u32::MAX,
        rtt_max_us: 0,
        rtt_sum_us: 0,
        snd_ssthresh: 0,
        rcv_ssthresh: 0,
        rcv_rtt_us: 0,
        rcv_space: 0,
        notsent_bytes: 0,
        data_segs_out: 0,
        data_segs_in: 0,
        busy_time_us: 0,
        rwnd_limited_us: 0,
        sndbuf_limited_us: 0,
        delivered: 0,
        delivered_ce: 0,
        dsack_dups: 0,
        reord_seen: 0,
        rcv_ooopack: 0,
    }
}

#[test]
fn tcp_state_from_kernel_numbers() {
    assert_eq!(TcpState::from_u8(1), TcpState::Established);
    assert_eq!(TcpState::from_u8(6), TcpState::TimeWait);
    assert_eq!(TcpState::from_u8(10), TcpState::Listen);
    assert_eq!(TcpState::from_u8(11), TcpState::Closing);
    assert_eq!(TcpState::from_u8(0), TcpState::Unknown(0));
    assert_eq!(TcpState::from_u8(12), TcpState::Unknown(12));
}

#[test]
fn tcp_state_labels() {
    assert_eq!(TcpState::Established.short(), "ESTAB");
    assert_eq!(TcpState::CloseWait.short(), "C-WAIT");
    assert_eq!(TcpState::Closing.short(), "CLOSNG");
    assert_eq!(TcpState::Unknown(42).short(), "?");
}

#[test]
fn health_badges_and_colors() {
    assert_eq!(Health::Good.badge(), "✓");
    assert_eq!(Health::Warn.badge(), "!");
    assert_eq!(Health::Bad.badge(), "✗");
    assert_eq!(Health::Bad.dot(), "●");
    assert_eq!(Health::Good.color(), Color::Green);
    assert_eq!(Health::Warn.color(), Color::Yellow);
    assert_eq!(Health::Bad.color(), Color::LightRed);
    assert!(Health::Good < Health::Warn && Health::Warn < Health::Bad);
    assert_eq!(Health::Warn.worse(Health::Bad), Health::Bad);
    assert_eq!(Health::Good.worse(Health::Warn), Health::Warn);
}

#[test]
fn rtt_thresholds() {
    let mut c = conn("a", "b");
    for (rtt, h) in [(0, Health::Good), (9_999, Health::Good), (10_000, Health::Warn),
                     (99_999, Health::Warn), (100_000, Health::Bad)] {
        c.rtt_us = rtt;
        assert_eq!(c.rtt_health(), h, "rtt {rtt}");
    }
}

#[test]
fn jitter_is_share_of_rtt() {
    let mut c = conn("a", "b");
    c.rtt_us = 1000;
    for (var, h) in [(0, Health::Good), (249, Health::Good), (250, Health::Warn),
                     (749, Health::Warn), (750, Health::Bad)] {
        c.rttvar_us = var;
        assert_eq!(c.jitter_health(), h, "rttvar {var}");
    }
    c.rtt_us = 0;
    c.rttvar_us = 5000;
    assert_eq!(c.jitter_health(), Health::Good);
}

#[test]
fn loss_share_thresholds() {
    let mut c = conn("a", "b");
    c.segs_out = 9_999;
    c.lost = 0;
    assert_eq!(c.loss_health(), Health::Good);
    c.lost = 1; // 1 / 10000 = 0.01%
    assert_eq!(c.loss_health(), Health::Warn);
    c.segs_out = 999;
    c.lost = 1; // exactly 0.1%
    assert_eq!(c.loss_health(), Health::Bad);
    c.segs_out = 0;
    c.lost = 0;
    assert_eq!(c.loss_health(), Health::Good);
}

#[test]
fn retrans_share_thresholds() {
    let mut c = conn("a", "b");
    c.segs_out = 1000;
    c.total_retrans = 0;
    assert_eq!(c.retrans_health(), Health::Good);
    c.total_retrans = 9;
    assert_eq!(c.retrans_health(), Health::Warn);
    c.total_retrans = 10; // exactly 1%
    assert_eq!(c.retrans_health(), Health::Bad);
    c.segs_out = 0;
    assert_eq!(c.retrans_health(), Health::Good);
}

#[test]
fn ca_state_grades_and_labels() {
    let mut c = conn("a", "b");
    let expect = [(0u8, "Open", Health::Good, false), (1, "Disord", Health::Warn, false),
                  (2, "CWR", Health::Warn, false), (3, "Recov", Health::Bad, true),
                  (4, "Loss", Health::Bad, true), (9, "?", Health::Bad, true)];
    for (s, label, h, bad) in expect {
        c.ca_state = s;
        assert_eq!(c.ca_state_str(), label);
        assert_eq!(c.ca_health(), h);
        assert_eq!(c.ca_is_bad(), bad);
        assert_eq!(c.ca_is_bad(), c.ca_health() == Health::Bad);
    }
}

#[test]
fn rto_and_counter_thresholds() {
    let mut c = conn("a", "b");
    c.rto_us = 499_999;
    assert_eq!(c.rto_health(), Health::Good);
    c.rto_us = 500_000;
    assert_eq!(c.rto_health(), Health::Warn);
    c.rto_us = 3_000_000;
    assert_eq!(c.rto_health(), Health::Bad);
    c.dsack_dups = 5;
    assert_eq!(c.dsack_health(), Health::Warn);
    c.dsack_dups = 6;
    assert_eq!(c.dsack_health(), Health::Bad);
    c.reord_seen = 3;
    assert_eq!(c.reorder_health(), Health::Warn);
    c.reord_seen = 4;
    assert_eq!(c.reorder_health(), Health::Bad);
    c.rcv_ooopack = 10;
    assert_eq!(c.ooo_health(), Health::Warn);
    c.rcv_ooopack = 11;
    assert_eq!(c.ooo_health(), Health::Bad);
    c.notsent_bytes = 65_535;
    assert_eq!(c.notsent_health(), Health::Good);
    c.notsent_bytes = 65_536;
    assert_eq!(c.notsent_health(), Health::Warn);
    c.notsent_bytes = 1_048_576;
    assert_eq!(c.notsent_health(), Health::Bad);
}

#[test]
fn limited_time_shares() {
    let mut c = conn("a", "b");
    c.busy_time_us = 0;
    c.rwnd_limited_us = 1_000;
    assert_eq!(c.rwnd_health(), Health::Good);
    c.busy_time_us = 1_000;
    c.rwnd_limited_us = 49; // 4.9%
    assert_eq!(c.rwnd_health(), Health::Good);
    c.rwnd_limited_us = 50; // 5%
    assert_eq!(c.rwnd_health(), Health::Warn);
    c.rwnd_limited_us = 250; // 25%
    assert_eq!(c.rwnd_health(), Health::Bad);
    c.sndbuf_limited_us = 100; // 10%
    assert_eq!(c.sndbuf_health(), Health::Warn);
}

#[test]
fn overall_health_is_worst_metric() {
    let mut c = conn("a", "b");
    c.rtt_us = 500;
    assert_eq!(c.overall_health(), Health::Good);
    c.dsack_dups = 2;
    assert_eq!(c.overall_health(), Health::Warn);
    c.ca_state = 4;
    assert_eq!(c.overall_health(), Health::Bad);
    let grades = [c.rtt_health(), c.jitter_health(), c.loss_health(), c.retrans_health(),
                  c.ca_health(), c.rto_health(), c.dsack_health(), c.reorder_health(),
                  c.ooo_health(), c.notsent_health(), c.rwnd_health(), c.sndbuf_health()];
    assert_eq!(c.overall_health(), grades.iter().copied().max().unwrap());
}

#[test]
fn update_keeps_identity_and_extends_history() {
    let mut c = conn("10.0.0.1:1", "10.0.0.2:2");
    c.rtt_us = 2000;
    c.samples = 1;
    c.rtt_min_us = 2000;
    c.rtt_max_us = 2000;
    c.rtt_sum_us = 2000;
    c.total_retrans = 3;
    let mut fresh = conn("other", "other");
    fresh.rtt_us = 1000;
    fresh.total_retrans = 7;
    fresh.cwnd = 42;
    c.update(&fresh);
    assert_eq!(c.key, "10.0.0.1:1→10.0.0.2:2");
    assert_eq!(c.retrans_delta, 4);
    assert_eq!(c.total_retrans, 7);
    assert_eq!(c.cwnd, 42);
    assert_eq!(c.samples, 2);
    assert_eq!(c.rtt_min_us, 1000);
    assert_eq!(c.rtt_max_us, 2000);
    assert_eq!(c.rtt_sum_us, 3000);
    // a counter that went down gives no delta; a zero RTT adds no sample
    let mut fresh2 = conn("x", "y");
    fresh2.total_retrans = 1;
    c.update(&fresh2);
    assert_eq!(c.retrans_delta, 0);
    assert_eq!(c.samples, 2);
    assert_eq!(c.rtt_us, 0);
}

#[test]
fn duplicate_copies_every_field() {
    let mut c = conn("1.2.3.4:5", "6.7.8.9:10");
    c.rtt_us = 77;
    c.bytes_sent = 1 << 40;
    let d = c.duplicate();
    assert_eq!(d.key, c.key);
    assert_eq!(d.rtt_us, 77);
    assert_eq!(d.bytes_sent, 1 << 40);
}
