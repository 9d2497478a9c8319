use vstd::prelude::*;

use crate::conn::{
    count_grade, jitter_grade, limited_grade, loss_grade, notsent_grade, retrans_grade,
    rto_grade, rtt_grade, ConnInfo, TcpState,
};
use crate::health::{Color, Health};
use crate::order::SortColumn;
use crate::state::{AppState, FilterMode};
use crate::text::{dec, push_char, push_decimal, push_str};

verus! {

/// Colour and weight of a table cell.
#[derive(Debug, Clone, Copy, PartialEq, Eq, Structural)]
pub struct Tone {
    pub color: Color,
    pub bold: bool,
}

// ── Milliseconds with three decimals ─────────────────────────────────────────

/// The three digits of `n < 1000`, with leading zeros.
pub open spec fn three_digits(n: nat) -> Seq<char> {
    seq![
        crate::text::digit_char(n / 100),
        crate::text::digit_char((n / 10) % 10),
        crate::text::digit_char(n % 10),
    ]
}

/// `us` microseconds as milliseconds with three decimals (`12.345`).
pub open spec fn millis(us: nat) -> Seq<char> {
    dec(us / 1000) + seq!['.'] + three_digits(us % 1000)
}

/// `s` right-aligned in a field of `width` characters.
pub open spec fn pad_left(s: Seq<char>, width: nat) -> Seq<char> {
    if s.len() >= width {
        s
    } else {
        Seq::new((width - s.len()) as nat, |i: int| ' ') + s
    }
}

/// Appends `us` microseconds as milliseconds with three decimals.
pub fn push_millis(out: &mut String, us: u32)
    ensures
        final(out)@ == old(out)@ + millis(us as nat),
{
    let ghost start = out@;
    push_decimal(out, (us / 1000) as u64);
    push_char(out, '.');
    let frac = us % 1000;
    push_char(out, ((frac / 100) as u8 + 48) as char);
    push_char(out, (((frac / 10) % 10) as u8 + 48) as char);
    push_char(out, ((frac % 10) as u8 + 48) as char);
    assert(out@ =~= start + millis(us as nat));
}

/// `us` microseconds as milliseconds with three decimals.
pub fn millis_text(us: u32) -> (s: String)
    ensures
        s@ == millis(us as nat),
{
    let mut s = String::new();
    push_millis(&mut s, us);
    s
}

/// Right-aligns `s` in a field of `width` characters.
pub fn pad_left_text(s: &str, width: usize) -> (r: String)
    ensures
        r@ == pad_left(s@, width as nat),
{
    let len = s.unicode_len();
    let mut r = String::new();
    if len >= width {
        push_str(&mut r, s);
        return r;
    }
    let pad = width - len;
    let mut i: usize = 0;
    while i < pad
        invariant
            i <= pad,
            r@ == Seq::new(i as nat, |k: int| ' '),
        decreases pad - i,
    {
        push_char(&mut r, ' ');
        i = i + 1;
        assert(r@ =~= Seq::new(i as nat, |k: int| ' '));
    }
    push_str(&mut r, s);
    r
}

/// Text of an RTT or jitter cell: the milliseconds right-aligned to seven
/// characters, or a dash when there is no value.
pub fn latency_cell_text(us: u32) -> (s: String)
    ensures
        us == 0 ==> s@ == "    -  "@,
        us != 0 ==> s@ == pad_left(millis(us as nat), 7),
{
    if us == 0 {
        String::from_str("    -  ")
    } else {
        let m = millis_text(us);
        pad_left_text(m.as_str(), 7)
    }
}

/// Text of the retransmit cell: the total, and the increase since the last
/// sample in parentheses when there was one.
pub fn retrans_text(c: &ConnInfo) -> (s: String)
    ensures
        c.retrans_delta > 0 ==> s@ == dec(c.total_retrans as nat) + seq![' ', '(', '+'] + dec(
            c.retrans_delta as nat,
        ) + seq![')'],
        c.retrans_delta == 0 ==> s@ == dec(c.total_retrans as nat),
{
    let mut s = String::new();
    push_decimal(&mut s, c.total_retrans as u64);
    if c.retrans_delta > 0 {
        let ghost head = s@;
        push_char(&mut s, ' ');
        push_char(&mut s, '(');
        push_char(&mut s, '+');
        push_decimal(&mut s, c.retrans_delta as u64);
        push_char(&mut s, ')');
        assert(s@ =~= head + seq![' ', '(', '+'] + dec(c.retrans_delta as nat) + seq![')']);
    }
    s
}

// ── Cell colours ─────────────────────────────────────────────────────────────

/// Colour of a state cell: established green, waiting to close yellow, any
/// other state red.
pub fn state_tone(s: TcpState) -> (t: Tone)
    ensures
        t.color == match s {
            TcpState::Established => Color::Green,
            TcpState::CloseWait | TcpState::TimeWait => Color::Yellow,
            _ => Color::Red,
        },
        !t.bold,
{
    match s {
        TcpState::Established => Tone { color: Color::Green, bold: false },
        TcpState::CloseWait | TcpState::TimeWait => Tone { color: Color::Yellow, bold: false },
        _ => Tone { color: Color::Red, bold: false },
    }
}

/// Colour of the RTT and jitter cells: grey without a sample, green below
/// 5 ms, yellow below 50 ms, red above.
pub fn rtt_tone(rtt_us: u32) -> (t: Tone)
    ensures
        t.color == (if rtt_us == 0 {
            Color::DarkGray
        } else if rtt_us < 5_000 {
            Color::Green
        } else if rtt_us < 50_000 {
            Color::Yellow
        } else {
            Color::Red
        }),
        !t.bold,
{
    let color = if rtt_us == 0 {
        Color::DarkGray
    } else if rtt_us < 5_000 {
        Color::Green
    } else if rtt_us < 50_000 {
        Color::Yellow
    } else {
        Color::Red
    };
    Tone { color, bold: false }
}

/// Colour of the retransmit cell: bold orange when retransmits grew since
/// the last sample, yellow when there were any, green otherwise.
pub fn retrans_tone(c: &ConnInfo) -> (t: Tone)
    ensures
        t == (if c.retrans_delta > 0 {
            Tone { color: Color::Orange, bold: true }
        } else if c.total_retrans > 0 {
            Tone { color: Color::Yellow, bold: false }
        } else {
            Tone { color: Color::Green, bold: false }
        }),
{
    if c.retrans_delta > 0 {
        Tone { color: Color::Orange, bold: true }
    } else if c.total_retrans > 0 {
        Tone { color: Color::Yellow, bold: false }
    } else {
        Tone { color: Color::Green, bold: false }
    }
}

/// Colour of the loss cell: bold light red when segments are lost.
pub fn loss_tone(lost: u32) -> (t: Tone)
    ensures
        t == (if lost > 0 {
            Tone { color: Color::LightRed, bold: true }
        } else {
            Tone { color: Color::Green, bold: false }
        }),
{
    if lost > 0 {
        Tone { color: Color::LightRed, bold: true }
    } else {
        Tone { color: Color::Green, bold: false }
    }
}

/// Colour of the congestion-state cell: bold light red in Recovery or Loss,
/// yellow in Disorder or CWR, grey when Open.
pub fn ca_tone(ca_state: u8) -> (t: Tone)
    ensures
        t == (if ca_state >= 3 {
            Tone { color: Color::LightRed, bold: true }
        } else if ca_state > 0 {
            Tone { color: Color::Yellow, bold: false }
        } else {
            Tone { color: Color::DarkGray, bold: false }
        }),
{
    if ca_state >= 3 {
        Tone { color: Color::LightRed, bold: true }
    } else if ca_state > 0 {
        Tone { color: Color::Yellow, bold: false }
    } else {
        Tone { color: Color::DarkGray, bold: false }
    }
}

// ── Header, footer and layout ────────────────────────────────────────────────

/// Arrow after a column header: up or down on the sort column, nothing on
/// the others.
pub fn sort_indicator(col: SortColumn, sort_col: SortColumn, asc: bool) -> (s: &'static str)
    ensures
        col != sort_col ==> s@ == ""@,
        col == sort_col && asc ==> s@ == " ▲"@,
        col == sort_col && !asc ==> s@ == " ▼"@,
{
    if col == sort_col {
        if asc {
            " ▲"
        } else {
            " ▼"
        }
    } else {
        ""
    }
}

/// How a filter is shown in the header: a dash when empty, else the filter
/// between spaces.
pub fn filter_label(f: &str) -> (s: String)
    ensures
        f@.len() == 0 ==> s@ == "  -  "@,
        f@.len() > 0 ==> s@ == seq![' '] + f@ + seq![' '],
{
    if f.is_empty() {
        String::from_str("  -  ")
    } else {
        let mut s = String::new();
        push_char(&mut s, ' ');
        push_str(&mut s, f);
        push_char(&mut s, ' ');
        assert(s@ =~= seq![' '] + f@ + seq![' ']);
        s
    }
}

/// The key-binding hint in the footer for the current filter mode.
pub fn footer_hint(mode: FilterMode) -> (s: &'static str)
    ensures
        mode == FilterMode::Off ==> s@ == " ?/h 帮助  F3 源地址过滤  F4 目标过滤  F6 排序切换  R 反转  ESC 清除  q 退出 "@,
        mode == FilterMode::Src ==> s@ == " [编辑源地址过滤 — 输入关键字，ESC 完成] "@,
        mode == FilterMode::Dst ==> s@ == " [编辑目标过滤 — 输入关键字，ESC 完成] "@,
{
    match mode {
        FilterMode::Off => " ?/h 帮助  F3 源地址过滤  F4 目标过滤  F6 排序切换  R 反转  ESC 清除  q 退出 ",
        FilterMode::Src => " [编辑源地址过滤 — 输入关键字，ESC 完成] ",
        FilterMode::Dst => " [编辑目标过滤 — 输入关键字，ESC 完成] ",
    }
}

/// Place of the help overlay in an area at `(x, y)` of `width` × `height`:
/// at most 70 × 44, leaving a margin, centred.
pub fn help_popup(x: u16, y: u16, width: u16, height: u16) -> (r: (u16, u16, u16, u16))
    requires
        x + width <= u16::MAX,
        y + height <= u16::MAX,
    ensures
        r.2 == (if width >= 74 { 70 } else if width >= 4 { width - 4 } else { 0 }),
        r.3 == (if height >= 46 { 44 } else if height >= 2 { height - 2 } else { 0 }),
        r.0 == x + (width - r.2) / 2,
        r.1 == y + (height - r.3) / 2,
{
    let w_room = width.saturating_sub(4);
    let h_room = height.saturating_sub(2);
    let popup_w = if 70 < w_room { 70 } else { w_room };
    let popup_h = if 44 < h_room { 44 } else { h_room };
    let px = x + width.saturating_sub(popup_w) / 2;
    let py = y + height.saturating_sub(popup_h) / 2;
    (px, py, popup_w, popup_h)
}

/// A slow-start threshold this large means the connection never left slow
/// start; the detail panel shows it as infinite.
pub fn ssthresh_is_unbounded(v: u32) -> (b: bool)
    ensures
        b == (v >= 0x7fff_0000),
{
    v >= 0x7fff_0000
}

// ── Category grades of the detail panel ──────────────────────────────────────

impl ConnInfo {
    /// Latency: the worst of RTT, jitter and RTO.
    pub fn latency_health(&self) -> (h: Health)
        ensures
            h == rtt_grade(self.rtt_us).spec_worse(jitter_grade(self.rttvar_us, self.rtt_us)).spec_worse(
                rto_grade(self.rto_us),
            ),
    {
        self.rtt_health().worse(self.jitter_health()).worse(self.rto_health())
    }

    /// Loss: the worst of loss, retransmits and DSACKs.
    pub fn loss_group_health(&self) -> (h: Health)
        ensures
            h == loss_grade(self.lost, self.segs_out).spec_worse(
                retrans_grade(self.total_retrans, self.segs_out),
            ).spec_worse(count_grade(self.dsack_dups, 5)),
    {
        self.loss_health().worse(self.retrans_health()).worse(self.dsack_health())
    }

    /// Reordering: the worse of reorder events and out-of-order packets.
    pub fn reorder_group_health(&self) -> (h: Health)
        ensures
            h == count_grade(self.reord_seen, 3).spec_worse(count_grade(self.rcv_ooopack, 10)),
    {
        self.reorder_health().worse(self.ooo_health())
    }

    /// Buffers: the worst of unsent backlog and window and buffer limits.
    pub fn buffer_health(&self) -> (h: Health)
        ensures
            h == notsent_grade(self.notsent_bytes).spec_worse(
                limited_grade(self.rwnd_limited_us, self.busy_time_us),
            ).spec_worse(limited_grade(self.sndbuf_limited_us, self.busy_time_us)),
    {
        self.notsent_health().worse(self.rwnd_health()).worse(self.sndbuf_health())
    }
}

impl AppState {
    /// Row to highlight in the table: the selection, or none when the list
    /// is empty.
    pub fn table_selection(&self) -> (r: Option<usize>)
        ensures
            r == (if self.visible@.len() == 0 { None } else { Some(self.selected) }),
    {
        if self.visible.len() == 0 {
            None
        } else {
            Some(self.selected)
        }
    }

    /// The connection shown in the detail panel, if the selection is on the
    /// list.
    pub fn selected_conn(&self) -> (r: Option<&ConnInfo>)
        ensures
            self.selected < self.visible@.len() ==> r == Some(&self.visible@[self.selected as int]),
            self.selected >= self.visible@.len() ==> r is None,
    {
        if self.selected < self.visible.len() {
            Some(&self.visible[self.selected])
        } else {
            None
        }
    }
}

} // verus!
