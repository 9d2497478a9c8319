use tcp_monitor::health::Color;
use tcp_monitor::order::SortColumn;
use tcp_monitor::state::{AppState, FilterMode};
use tcp_monitor::view::{
    ca_tone, filter_label, footer_hint, help_popup, latency_cell_text, loss_tone, millis_text,
    pad_left_text, retrans_tone, rtt_tone, sort_indicator, state_tone, Tone,
};
use tcp_monitor::conn::TcpState;

#[test]
fn milliseconds_with_three_decimals() {
    assert_eq!(millis_text(0), "0.000");
    assert_eq!(millis_text(171), "0.171");
    assert_eq!(millis_text(204_000), "204.000");
    assert_eq!(millis_text(12_345), "12.345");
    assert_eq!(millis_text(7), "0.007");
    // the same text as formatting the float milliseconds
    for us in [1u32, 99, 1000, 4321, 999_999, u32::MAX] {
        assert_eq!(millis_text(us), format!("{:.3}", us as f64 / 1000.0));
    }
}

#[test]
fn latency_cells() {
    assert_eq!(latency_cell_text(0), "    -  ");
    assert_eq!(latency_cell_text(325), "  0.325");
    for us in [1u32, 12_345, 99_999_999] {
        assert_eq!(latency_cell_text(us), format!("{:>7.3}", us as f64 / 1000.0));
    }
    assert_eq!(pad_left_text("abc", 2), "abc");
    assert_eq!(pad_left_text("ab", 4), "  ab");
}

#[test]
fn cell_tones() {
    assert_eq!(rtt_tone(0).color, Color::DarkGray);
    assert_eq!(rtt_tone(4_999).color, Color::Green);
    assert_eq!(rtt_tone(5_000).color, Color::Yellow);
    assert_eq!(rtt_tone(50_000).color, Color::Red);
    assert_eq!(loss_tone(1), Tone { color: Color::LightRed, bold: true });
    assert_eq!(loss_tone(0), Tone { color: Color::Green, bold: false });
    assert_eq!(ca_tone(3), Tone { color: Color::LightRed, bold: true });
    assert_eq!(ca_tone(2).color, Color::Yellow);
    assert_eq!(ca_tone(0).color, Color::DarkGray);
    assert_eq!(state_tone(TcpState::Established).color, Color::Green);
    assert_eq!(state_tone(TcpState::TimeWait).color, Color::Yellow);
    assert_eq!(state_tone(TcpState::SynSent).color, Color::Red);
}

#[test]
fn header_and_footer_texts() {
    assert_eq!(sort_indicator(SortColumn::Rtt, SortColumn::Rtt, true), " ▲");
    assert_eq!(sort_indicator(SortColumn::Rtt, SortColumn::Rtt, false), " ▼");
    assert_eq!(sort_indicator(SortColumn::Src, SortColumn::Rtt, false), "");
    assert_eq!(filter_label(""), "  -  ");
    assert_eq!(filter_label(":6379"), " :6379 ");
    assert!(footer_hint(FilterMode::Off).contains("F6"));
    assert!(footer_hint(FilterMode::Src).contains("ESC"));
}

#[test]
fn help_popup_is_centered() {
    assert_eq!(help_popup(0, 0, 200, 60), (65, 8, 70, 44));
    assert_eq!(help_popup(0, 0, 50, 20), (2, 1, 46, 18));
    assert_eq!(help_popup(3, 4, 2, 1), (4, 4, 0, 0));
}

#[test]
fn detail_panel_helpers() {
    let mut s = AppState::new();
    assert_eq!(s.table_selection(), None);
    assert!(s.selected_conn().is_none());
    s.visible = Vec::new();
    s.selected = 0;
    assert_eq!(s.table_selection(), None);
}

#[test]
fn empty_merge_and_snapshot() {
    let mut s = AppState::new();
    s.merge(Vec::new());
    assert_eq!(s.visible_count(), 0);
    let snap = tcp_monitor::state::collect_snapshot(Vec::new());
    assert!(snap.is_empty());
}

#[test]
fn ssthresh_infinity_threshold() {
    assert!(tcp_monitor::view::ssthresh_is_unbounded(0x7fff_ffff));
    assert!(tcp_monitor::view::ssthresh_is_unbounded(0x7fff_0000));
    assert!(!tcp_monitor::view::ssthresh_is_unbounded(0x7ffe_ffff));
}
