use tcp_monitor::conn::{ConnInfo, TcpState};
use tcp_monitor::order::{sort_conns, SortColumn};
use tcp_monitor::state::{collect_snapshot, find_key, passes_filter, AppState, FilterMode, Key};

fn conn(src: &str, dst: &str) -> ConnInfo {
    ConnInfo {
        key: format!("{src}→{dst}"),
        src: src.to_string(),
        dst: dst.to_string(),
        state: TcpState::Established,
        rtt_us: 0,
        rttvar_us: 0,
        min_rtt_us: 0,
        total_retrans: 0,
        retrans_in_flight: 0,
        lost: 0,
        segs_out: 0,
        segs_in: 0,
        bytes_sent: 0,
        bytes_retrans: 0,
        cwnd: 0,
        ca_state: 0,
        rto_us: 0,
        unacked: 0,
        delivery_rate_bps: 0,
        pmtu: 0,
        snd_mss: 0,
        retrans_delta: 0,
        samples: 0,
        rtt_min_us: u32::MAX,
        rtt_max_us: 0,
        rtt_sum_us: 0,
        snd_ssthresh: 0,
        rcv_ssthresh: 0,
        rcv_rtt_us: 0,
        rcv_space: 0,
        notsent_bytes: 0,
        data_segs_out: 0,
        data_segs_in: 0,
        busy_time_us: 0,
        rwnd_limited_us: 0,
        sndbuf_limited_us: 0,
        delivered: 0,
        delivered_ce: 0,
        dsack_dups: 0,
        reord_seen: 0,
        rcv_ooopack: 0,
    }
}

fn with_rtt(src: &str, dst: &str, rtt: u32) -> ConnInfo {
    let mut c = conn(src, dst);
    c.rtt_us = rtt;
    c
}

fn keys(v: &[ConnInfo]) -> Vec<String> {
    v.iter().map(|c| c.src.clone()).collect()
}

#[test]
fn new_state_defaults() {
    let s = AppState::new();
    assert!(s.connections.is_empty());
    assert!(s.visible.is_empty());
    assert_eq!(s.sort_col, SortColumn::Rtt);
    assert!(!s.sort_asc);
    assert_eq!(s.filter_mode, FilterMode::Off);
    assert_eq!(s.selected, 0);
    assert!(!s.show_help);
    assert_eq!(s.total_count(), 0);
    assert_eq!(s.visible_count(), 0);
}

#[test]
fn merge_inserts_then_updates() {
    let mut s = AppState::new();
    s.merge(vec![with_rtt("a:1", "b:2", 100), with_rtt("c:3", "d:4", 300)]);
    assert_eq!(s.total_count(), 2);
    assert_eq!(s.visible_count(), 2);
    // default sort: RTT descending
    assert_eq!(keys(&s.visible), vec!["c:3", "a:1"]);
    let mut fresh = with_rtt("a:1", "b:2", 500);
    fresh.total_retrans = 2;
    s.merge(vec![fresh]);
    assert_eq!(s.total_count(), 2);
    let i = find_key(&s.connections, &"a:1→b:2".to_string()).unwrap();
    assert_eq!(s.connections[i].rtt_us, 500);
    assert_eq!(s.connections[i].retrans_delta, 2);
    assert_eq!(s.connections[i].samples, 1);
    assert_eq!(keys(&s.visible), vec!["a:1", "c:3"]);
}

#[test]
fn snapshot_keeps_last_entry_per_key() {
    let snap = collect_snapshot(vec![
        with_rtt("a", "b", 1),
        with_rtt("c", "d", 2),
        with_rtt("a", "b", 3),
    ]);
    assert_eq!(snap.len(), 2);
    assert_eq!(snap[0].rtt_us, 3);
    assert_eq!(snap[1].rtt_us, 2);
}

#[test]
fn filters_are_case_insensitive_substrings() {
    let mut s = AppState::new();
    s.merge(vec![
        with_rtt("[fe80::1]:22", "10.0.0.1:6379", 10),
        with_rtt("127.0.0.1:5000", "127.0.0.1:6379", 20),
        with_rtt("127.0.0.1:5001", "8.8.8.8:53", 30),
    ]);
    s.filter_mode = FilterMode::Src;
    for c in "FE80".chars() {
        s.filter_push(c);
    }
    assert_eq!(s.filter_src, "FE80");
    assert_eq!(keys(&s.visible), vec!["[fe80::1]:22"]);
    s.clear_active_filter();
    assert_eq!(s.filter_mode, FilterMode::Off);
    assert_eq!(s.visible_count(), 3);
    s.filter_mode = FilterMode::Dst;
    for c in ":6379".chars() {
        s.filter_push(c);
    }
    assert_eq!(keys(&s.visible), vec!["127.0.0.1:5000", "[fe80::1]:22"]);
    s.filter_backspace();
    assert_eq!(s.filter_dst, ":637");
    assert_eq!(s.visible_count(), 2);
}

#[test]
fn typing_then_backspace_restores_filter() {
    let mut s = AppState::new();
    s.merge(vec![with_rtt("a", "b", 1)]);
    s.filter_mode = FilterMode::Src;
    s.filter_push('x');
    assert_eq!(s.visible_count(), 0);
    s.filter_backspace();
    assert_eq!(s.filter_src, "");
    assert_eq!(s.visible_count(), 1);
    // backspace on an empty filter changes nothing
    s.filter_backspace();
    assert_eq!(s.filter_src, "");
}

#[test]
fn passes_filter_on_lowered_text() {
    assert!(passes_filter("10.0.0.1:22", "10.0.0.2:80", "", ""));
    assert!(passes_filter("10.0.0.1:22", "10.0.0.2:80", "0.1:2", ":80"));
    assert!(!passes_filter("10.0.0.1:22", "10.0.0.2:80", "0.2", ""));
    assert!(!passes_filter("a", "b", "", "bb"));
}

#[test]
fn sort_by_each_column() {
    let mut a = with_rtt("b-src", "z", 30);
    a.cwnd = 1;
    a.state = TcpState::TimeWait;
    let mut b = with_rtt("a-src", "y", 10);
    b.cwnd = 3;
    b.state = TcpState::Established;
    let mut c = with_rtt("c-src", "x", 20);
    c.cwnd = 2;
    c.state = TcpState::CloseWait;
    c.ca_state = 4;
    let v = || vec![a.clone(), b.clone(), c.clone()];
    assert_eq!(keys(&sort_conns(v(), SortColumn::Rtt, true)), vec!["a-src", "c-src", "b-src"]);
    assert_eq!(keys(&sort_conns(v(), SortColumn::Rtt, false)), vec!["b-src", "c-src", "a-src"]);
    assert_eq!(keys(&sort_conns(v(), SortColumn::Src, true)), vec!["a-src", "b-src", "c-src"]);
    assert_eq!(keys(&sort_conns(v(), SortColumn::Dst, true)), vec!["c-src", "a-src", "b-src"]);
    assert_eq!(keys(&sort_conns(v(), SortColumn::Cwnd, false)), vec!["a-src", "c-src", "b-src"]);
    // "C-WAIT" < "ESTAB" < "T-WAIT"
    assert_eq!(keys(&sort_conns(v(), SortColumn::State, true)), vec!["c-src", "a-src", "b-src"]);
    // c is Bad (CA Loss), the others Warn or Good by RTT
    assert_eq!(keys(&sort_conns(v(), SortColumn::Health, false))[0], "c-src");
}

#[test]
fn selection_stays_on_list() {
    let mut s = AppState::new();
    s.merge(vec![with_rtt("a", "b", 1), with_rtt("c", "d", 2), with_rtt("e", "f", 3)]);
    s.move_down();
    s.move_down();
    s.move_down();
    assert_eq!(s.selected, 2);
    s.move_up();
    assert_eq!(s.selected, 1);
    s.selected = 2;
    s.filter_mode = FilterMode::Src;
    s.filter_push('a');
    assert_eq!(s.visible_count(), 1);
    assert_eq!(s.selected, 0);
    s.move_up();
    assert_eq!(s.selected, 0);
}

#[test]
fn keys_drive_the_state() {
    let mut s = AppState::new();
    s.merge(vec![with_rtt("10.0.0.1:1", "x", 1), with_rtt("10.0.0.2:2", "y", 2)]);
    assert!(!s.handle_key(Key::F(3), false));
    assert_eq!(s.filter_mode, FilterMode::Src);
    // while editing, 'q' is text, not quit
    assert!(!s.handle_key(Key::Char('q'), false));
    assert_eq!(s.filter_src, "q");
    assert_eq!(s.visible_count(), 0);
    assert!(!s.handle_key(Key::Backspace, false));
    assert!(!s.handle_key(Key::Char('2'), false));
    assert_eq!(s.visible_count(), 1);
    assert!(!s.handle_key(Key::Esc, false));
    assert_eq!(s.filter_mode, FilterMode::Off);
    assert_eq!(s.filter_src, "2");
    // Esc in normal mode clears the filters
    assert!(!s.handle_key(Key::Esc, false));
    assert_eq!(s.filter_src, "");
    assert_eq!(s.visible_count(), 2);
    assert!(!s.handle_key(Key::Char('r'), false));
    assert!(s.sort_asc);
    assert_eq!(keys(&s.visible), vec!["10.0.0.1:1", "10.0.0.2:2"]);
    assert!(!s.handle_key(Key::F(6), false));
    assert_eq!(s.sort_col, SortColumn::Jitter);
    assert!(!s.handle_key(Key::Char('?'), false));
    assert!(s.show_help);
    assert!(!s.handle_key(Key::Esc, false));
    assert!(!s.show_help);
    assert!(!s.handle_key(Key::Down, false));
    assert_eq!(s.selected, 1);
    assert!(!s.handle_key(Key::Char('c'), false));
    assert!(s.handle_key(Key::Char('c'), true));
    assert!(s.handle_key(Key::Char('q'), false));
}

#[test]
fn sort_column_cycle_and_labels() {
    let mut c = SortColumn::Health;
    let mut labels = Vec::new();
    for _ in 0..10 {
        labels.push(c.label());
        c = c.next();
    }
    assert_eq!(c, SortColumn::Health);
    assert_eq!(labels, vec!["Health", "Source", "Destination", "State", "RTT", "Jitter",
                            "Retrans", "Loss%", "Rate", "CWND"]);
}

#[test]
fn ctrl_c_quits_while_editing_a_filter() {
    let mut s = AppState::new();
    s.merge(vec![with_rtt("10.0.0.1:1", "x", 1)]);
    assert!(!s.handle_key(Key::F(4), false));
    assert!(!s.handle_key(Key::Char('c'), false));
    assert_eq!(s.filter_dst, "c");
    assert!(s.handle_key(Key::Char('c'), true));
    // the quitting key leaves the filter as it was
    assert_eq!(s.filter_dst, "c");
    assert_eq!(s.filter_mode, FilterMode::Dst);
}

#[test]
fn unfiltered_table_lists_every_connection() {
    let mut s = AppState::new();
    s.merge(vec![
        with_rtt("a:1", "b:2", 5),
        with_rtt("c:3", "d:4", 0),
        with_rtt("e:5", "f:6", 9),
    ]);
    assert_eq!(s.total_count(), 3);
    assert_eq!(s.visible_count(), 3);
    assert_eq!(keys(&s.visible), vec!["e:5", "a:1", "c:3"]);
    s.recompute_visible();
    assert_eq!(s.visible_count(), s.total_count());
}

#[test]
fn merging_nothing_is_recomputing() {
    let fill = |s: &mut AppState| {
        s.merge(vec![with_rtt("a:1", "b", 5), with_rtt("c:1", "d", 7), with_rtt("e:2", "f", 6)]);
        s.filter_mode = FilterMode::Src;
        s.filter_push(':');
        s.filter_push('1');
        s.selected = 5;
    };
    let mut a = AppState::new();
    let mut b = AppState::new();
    fill(&mut a);
    fill(&mut b);
    a.selected = 5;
    b.selected = 5;
    a.merge(Vec::new());
    b.recompute_visible();
    assert_eq!(keys(&a.connections), keys(&b.connections));
    assert_eq!(keys(&a.visible), keys(&b.visible));
    assert_eq!(keys(&a.visible), vec!["c:1", "a:1"]);
    assert_eq!(a.selected, b.selected);
    assert_eq!(a.selected, 1);
}

#[test]
fn typing_only_narrows_the_list() {
    let mut s = AppState::new();
    s.merge(vec![
        with_rtt("10.0.0.1:22", "x", 1),
        with_rtt("10.0.0.12:80", "y", 2),
        with_rtt("10.1.0.1:443", "z", 3),
        with_rtt("[FE80::1]:22", "w", 4),
    ]);
    s.filter_mode = FilterMode::Src;
    let mut before = keys(&s.visible);
    for c in "10.0.0.1:".chars() {
        s.filter_push(c);
        let after = keys(&s.visible);
        assert!(after.len() <= before.len());
        assert!(after.iter().all(|k| before.contains(k)));
        before = after;
    }
    assert_eq!(before, vec!["10.0.0.1:22"]);
}

#[test]
fn upper_case_filter_matches_lower_case_text() {
    let mut s = AppState::new();
    s.merge(vec![with_rtt("[fe80::1]:22", "x", 1), with_rtt("[FE80::2]:22", "y", 2)]);
    s.filter_mode = FilterMode::Src;
    for c in "Fe80".chars() {
        s.filter_push(c);
    }
    assert_eq!(s.visible_count(), 2);
    s.filter_push(':');
    s.filter_push(':');
    s.filter_push('2');
    assert_eq!(keys(&s.visible), vec!["[FE80::2]:22"]);
}
