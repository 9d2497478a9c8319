//! Properties that hold across the library's functions.
use vstd::prelude::*;

use crate::addr::is_v4_mapped;
use crate::conn::{
    ca_grade, count_grade, jitter_grade, limited_grade, loss_grade, notsent_grade, retrans_grade,
    rto_grade, rtt_grade, state_label, state_of, ConnInfo, TcpState,
};
use crate::health::Health;
use crate::order::{
    col_order, goes_before, lemma_col_order, lemma_lex_antisymmetric, lemma_lex_zero, lex_order,
    next_column, sorted_by_column, stable_for, ties, utf8, SortColumn,
};
use crate::state::{
    backspaced, has_key_at, keep_conn, kept, key_index, keyed_insert, lemma_key_index_found,
    merge_one, merged, snapshot, typed, unique_keys, AppState, FilterMode,
};
use crate::view::{millis, pad_left, three_digits};
use crate::text::{ascii_lower, contains_bytes, dec, hex, lower, occurs_at};
use vstd::utf8::{is_ascii_chars, is_ascii_chars_encode_utf8};
use crate::wire::{
    addr_text, align4, conn_from_payload, diag_payloads, info_payload, le16, le32, le64,
    metrics_from, request_bytes, tcp_info_in, tcp_info_of, zero_filled, AF_INET, AF_INET6, DIAG_MSG_LEN,
    NLMSG_DONE, REQUEST_LEN, SOCK_DIAG_BY_FAMILY, TCP_INFO_LEN, TCP_INFO_MIN_SIZE,
};

verus! {

// ── Grades ───────────────────────────────────────────────────────────────────

/// The overall health of a connection is the worst of its twelve metric
/// grades: no grade is worse, and one of them equals it.
#[verifier::rlimit(40)]
pub proof fn law_overall_is_worst(c: ConnInfo)
    ensures
        forall|i: int| 0 <= i < 12 ==> (#[trigger] c.grades()[i]).rank() <= c.overall_grade().rank(),
        exists|i: int| 0 <= i < 12 && #[trigger] c.grades()[i] == c.overall_grade(),
{
    let g = c.grades();
    assert(g.len() == 12);
    let o = c.overall_grade();
    if o == g[0] {
    } else if o == g[1] {
    } else if o == g[2] {
    } else if o == g[3] {
    } else if o == g[4] {
    } else if o == g[5] {
    } else if o == g[6] {
    } else if o == g[7] {
    } else if o == g[8] {
    } else if o == g[9] {
    } else if o == g[10] {
    } else {
        assert(o == g[11]);
    }
}

/// A congestion state counts as bad exactly when its grade is Bad.
pub proof fn law_ca_bad_is_bad_grade(ca_state: u8)
    ensures
        (ca_state >= 3) == (ca_grade(ca_state) == Health::Bad),
{
}

/// Larger RTT, RTO, unsent backlog or anomaly counts never grade better.
pub proof fn law_grades_monotone(a: u32, b: u32, warn_max: u32)
    requires
        a <= b,
    ensures
        rtt_grade(a).rank() <= rtt_grade(b).rank(),
        rto_grade(a).rank() <= rto_grade(b).rank(),
        notsent_grade(a).rank() <= notsent_grade(b).rank(),
        count_grade(a, warn_max).rank() <= count_grade(b, warn_max).rank(),
{
}

/// More lost segments or retransmits at the same number of segments sent
/// never grade better.
pub proof fn law_loss_retrans_monotone(a: u32, b: u32, segs_out: u32)
    requires
        a <= b,
    ensures
        loss_grade(a, segs_out).rank() <= loss_grade(b, segs_out).rank(),
        retrans_grade(a, segs_out).rank() <= retrans_grade(b, segs_out).rank(),
{
}

/// `worse` is the maximum of two grades: commutative, associative and
/// idempotent, with Good as identity.
pub proof fn law_worse_is_max(a: Health, b: Health, c: Health)
    ensures
        a.spec_worse(b) == b.spec_worse(a),
        a.spec_worse(b).spec_worse(c) == a.spec_worse(b.spec_worse(c)),
        a.spec_worse(a) == a,
        a.spec_worse(Health::Good) == a,
        a.spec_worse(b).rank() == if a.rank() >= b.rank() { a.rank() } else { b.rank() },
{
}

// ── History of a connection ──────────────────────────────────────────────────

/// The sample history is consistent: without samples the minimum is the
/// `u32::MAX` sentinel and the maximum and sum are zero; with samples the
/// sum lies between `samples * min` and `samples * max`, with `0 < min <= max`.
pub open spec fn history_ok(c: ConnInfo) -> bool {
    if c.samples == 0 {
        c.rtt_min_us == u32::MAX && c.rtt_max_us == 0 && c.rtt_sum_us == 0
    } else {
        &&& 0 < c.rtt_min_us <= c.rtt_max_us
        &&& c.samples * c.rtt_min_us <= c.rtt_sum_us
        &&& c.rtt_sum_us <= c.samples * c.rtt_max_us
    }
}

/// Merging a fresh measurement keeps the sample history consistent.
pub proof fn law_update_keeps_history(old: ConnInfo, fresh: ConnInfo)
    requires
        history_ok(old),
        old.can_absorb(fresh),
    ensures
        history_ok(ConnInfo::updated(old, fresh)),
{
    let new = ConnInfo::updated(old, fresh);
    if fresh.rtt_us > 0 && old.samples > 0 {
        let (s, r) = (old.samples as int, fresh.rtt_us as int);
        let (mn, mx, sum) = (old.rtt_min_us as int, old.rtt_max_us as int, old.rtt_sum_us as int);
        let (mn2, mx2) = (new.rtt_min_us as int, new.rtt_max_us as int);
        assert(mn2 <= mn && mn2 <= r && mx2 >= mx && mx2 >= r);
        assert((s + 1) * mn2 <= sum + r) by (nonlinear_arith)
            requires
                s * mn <= sum,
                mn2 <= mn,
                mn2 <= r,
                0 <= mn2,
                0 <= s,
        ;
        assert(sum + r <= (s + 1) * mx2) by (nonlinear_arith)
            requires
                sum <= s * mx,
                mx <= mx2,
                r <= mx2,
                0 <= s,
        ;
    }
}

/// The retransmit delta is the growth of the cumulative count, or zero when
/// the count did not grow.
pub proof fn law_update_retrans_delta(old: ConnInfo, fresh: ConnInfo)
    ensures
        ConnInfo::updated(old, fresh).retrans_delta + old.total_retrans == (if fresh.total_retrans
            >= old.total_retrans {
            fresh.total_retrans as int
        } else {
            old.total_retrans as int
        }),
        ConnInfo::updated(old, fresh).total_retrans == fresh.total_retrans,
{
}

// ── Keyed lists ──────────────────────────────────────────────────────────────

/// Every connection's current metrics come from `f`.
pub open spec fn current_from(c: ConnInfo, f: ConnInfo) -> bool {
    &&& c.state == f.state
    &&& c.rtt_us == f.rtt_us
    &&& c.rttvar_us == f.rttvar_us
    &&& c.total_retrans == f.total_retrans
    &&& c.cwnd == f.cwnd
    &&& c.ca_state == f.ca_state
    &&& c.lost == f.lost
    &&& c.segs_out == f.segs_out
    &&& c.delivery_rate_bps == f.delivery_rate_bps
}

proof fn lemma_keyed_step(s: Seq<ConnInfo>, c: ConnInfo, r: Seq<ConnInfo>, replace: bool)
    requires
        unique_keys(s),
        replace ==> key_index(s, c.key@) is Some,
        replace ==> r.len() == s.len() && r[key_index(s, c.key@)->0] .key@ == c.key@
            && forall|k: int| 0 <= k < s.len() && k != key_index(s, c.key@)->0 ==> r[k] == s[k],
        !replace ==> key_index(s, c.key@) is None && r == s.push(c),
    ensures
        unique_keys(r),
{
    if replace {
        let p = key_index(s, c.key@)->0;
        assert forall|i: int, j: int| 0 <= i < j < r.len() implies #[trigger] r[i].key@ != #[trigger] r[j].key@ by {
            if i == p {
                assert(s[p].key@ == c.key@);
                assert(s[j].key@ != s[p].key@);
            } else if j == p {
                assert(s[p].key@ == c.key@);
                assert(s[i].key@ != s[p].key@);
            }
        }
    } else {
        assert forall|i: int, j: int| 0 <= i < j < r.len() implies #[trigger] r[i].key@ != #[trigger] r[j].key@ by {
            if j == s.len() {
                if r[i].key@ == c.key@ {
                    lemma_key_index_found(s, c.key@, i);
                }
            }
        }
    }
}

/// Merging fresh connections keeps one connection per key.
pub proof fn law_merge_keeps_keys_unique(s: Seq<ConnInfo>, fresh: Seq<ConnInfo>)
    requires
        unique_keys(s),
    ensures
        unique_keys(merged(s, fresh)),
    decreases fresh.len(),
{
    if fresh.len() > 0 {
        law_merge_keeps_keys_unique(s, fresh.drop_last());
        let m = merged(s, fresh.drop_last());
        let f = fresh.last();
        match key_index(m, f.key@) {
            Some(i) => lemma_keyed_step(m, f, merge_one(m, f), true),
            None => {
                lemma_keyed_step(m, f, merge_one(m, f), false);
            },
        }
    }
}

/// A snapshot holds one connection per key.
pub proof fn law_snapshot_keys_unique(entries: Seq<ConnInfo>)
    ensures
        unique_keys(snapshot(entries)),
    decreases entries.len(),
{
    if entries.len() > 0 {
        law_snapshot_keys_unique(entries.drop_last());
        let m = snapshot(entries.drop_last());
        let c = entries.last();
        match key_index(m, c.key@) {
            Some(i) => lemma_keyed_step(m, c, keyed_insert(m, c), true),
            None => lemma_keyed_step(m, c, keyed_insert(m, c), false),
        }
    }
}

/// A connection built from a diagnostics message starts with a consistent
/// sample history.
pub proof fn law_built_history_ok(
    c: ConnInfo,
    state: u8,
    sport: nat,
    dport: nat,
    src: Seq<u8>,
    dst: Seq<u8>,
    info: Option<crate::wire::TcpInfo>,
    family: u8,
)
    requires
        crate::wire::conn_built(c, state, sport, dport, src, dst, info, family),
    ensures
        history_ok(c),
{
}

/// After merging `f`, the connection with `f`'s key reports `f`'s current
/// metrics, and every other connection is untouched.
pub proof fn law_merge_reads_back(s: Seq<ConnInfo>, f: ConnInfo)
    ensures
        key_index(merge_one(s, f), f.key@) matches Some(k) && current_from(merge_one(s, f)[k], f),
        forall|k: int|
            0 <= k < s.len() && s[k].key@ != f.key@ ==> #[trigger] merge_one(s, f)[k] == s[k],
{
    let r = merge_one(s, f);
    match key_index(s, f.key@) {
        Some(i) => {
            assert(crate::state::first_with_key(s, f.key@, i));
            assert(r == s.update(i, ConnInfo::updated(s[i], f)));
            assert(has_key_at(r, f.key@, i));
            lemma_key_index_found(r, f.key@, i);
            let k = key_index(r, f.key@)->0;
            if k < i {
                assert(r[k] == s[k]);
                assert(has_key_at(s, f.key@, k));
            }
            assert(k == i);
            assert(current_from(r[i], f));
        },
        None => {
            let n = s.len() as int;
            assert(r == s.push(f));
            assert(has_key_at(r, f.key@, n));
            lemma_key_index_found(r, f.key@, n);
            let k = key_index(r, f.key@)->0;
            if k < n {
                assert(r[k] == s[k]);
                lemma_key_index_found(s, f.key@, k);
            }
            assert(k == n);
            assert(current_from(r[n], f));
        },
    }
}

/// After merging a list of fresh connections, the connection with the key
/// of any fresh entry that no later entry repeats reports that entry's
/// current metrics.
pub proof fn law_merge_latest_wins(s: Seq<ConnInfo>, fresh: Seq<ConnInfo>, i: int)
    requires
        0 <= i < fresh.len(),
        forall|j: int| i < j < fresh.len() ==> #[trigger] fresh[j].key@ != fresh[i].key@,
    ensures
        key_index(merged(s, fresh), fresh[i].key@) matches Some(k) && current_from(
            merged(s, fresh)[k],
            fresh[i],
        ),
    decreases fresh.len(),
{
    let key = fresh[i].key@;
    let m = merged(s, fresh.drop_last());
    let last = fresh.last();
    law_merge_reads_back(m, last);
    if i < fresh.len() - 1 {
        assert forall|j: int| i < j < fresh.drop_last().len() implies #[trigger] fresh.drop_last()[j].key@
            != fresh.drop_last()[i].key@ by {
            assert(fresh.drop_last()[j] == fresh[j]);
        }
        law_merge_latest_wins(s, fresh.drop_last(), i);
        let k = key_index(m, key)->0;
        assert(crate::state::first_with_key(m, key, k));
        let r = merge_one(m, last);
        assert(last.key@ != key);
        assert(r[k] == m[k]);
        assert(has_key_at(r, key, k));
        lemma_key_index_found(r, key, k);
        let f = key_index(r, key)->0;
        if f < k {
            if f < m.len() && m[f].key@ != last.key@ {
                assert(r[f] == m[f]);
                assert(has_key_at(m, key, f));
            } else {
                match key_index(m, last.key@) {
                    Some(q) => {
                        if f == q {
                            assert(r[f].key@ == m[q].key@);
                            assert(m[q].key@ == last.key@);
                        } else {
                            assert(r[f] == m[f]);
                        }
                    },
                    None => {
                        assert(r[f] == m[f]);
                    },
                }
            }
        }
        assert(f == k);
    }
}

proof fn lemma_keyed_insert_reads_back(s: Seq<ConnInfo>, c: ConnInfo)
    ensures
        key_index(keyed_insert(s, c), c.key@) matches Some(k) && keyed_insert(s, c)[k] == c,
        forall|k: int|
            0 <= k < s.len() && s[k].key@ != c.key@ ==> #[trigger] keyed_insert(s, c)[k] == s[k],
{
    let r = keyed_insert(s, c);
    match key_index(s, c.key@) {
        Some(i) => {
            assert(crate::state::first_with_key(s, c.key@, i));
            assert(has_key_at(r, c.key@, i));
            lemma_key_index_found(r, c.key@, i);
            let k = key_index(r, c.key@)->0;
            if k < i {
                assert(r[k] == s[k]);
                assert(has_key_at(s, c.key@, k));
            }
            assert(k == i);
        },
        None => {
            let n = s.len() as int;
            assert(has_key_at(r, c.key@, n));
            lemma_key_index_found(r, c.key@, n);
            let k = key_index(r, c.key@)->0;
            if k < n {
                assert(r[k] == s[k]);
                lemma_key_index_found(s, c.key@, k);
            }
            assert(k == n);
        },
    }
}

/// In a snapshot, the connection with the key of an entry that no later
/// entry repeats is that entry.
pub proof fn law_snapshot_latest_wins(entries: Seq<ConnInfo>, i: int)
    requires
        0 <= i < entries.len(),
        forall|j: int| i < j < entries.len() ==> #[trigger] entries[j].key@ != entries[i].key@,
    ensures
        key_index(snapshot(entries), entries[i].key@) matches Some(k) && snapshot(entries)[k]
            == entries[i],
    decreases entries.len(),
{
    let key = entries[i].key@;
    let m = snapshot(entries.drop_last());
    let last = entries.last();
    lemma_keyed_insert_reads_back(m, last);
    if i < entries.len() - 1 {
        assert forall|j: int| i < j < entries.drop_last().len() implies #[trigger] entries.drop_last()[j].key@
            != entries.drop_last()[i].key@ by {
            assert(entries.drop_last()[j] == entries[j]);
        }
        law_snapshot_latest_wins(entries.drop_last(), i);
        let k = key_index(m, key)->0;
        assert(crate::state::first_with_key(m, key, k));
        let r = keyed_insert(m, last);
        assert(last.key@ != key);
        assert(r[k] == m[k]);
        assert(has_key_at(r, key, k));
        lemma_key_index_found(r, key, k);
        let f = key_index(r, key)->0;
        if f < k {
            if f < m.len() && m[f].key@ != last.key@ {
                assert(r[f] == m[f]);
                assert(has_key_at(m, key, f));
            } else {
                match key_index(m, last.key@) {
                    Some(q) => {
                        if f != q {
                            assert(r[f] == m[f]);
                        }
                    },
                    None => {
                        assert(r[f] == m[f]);
                    },
                }
            }
        }
        assert(f == k);
    }
}

// ── Filters, sorting and selection ───────────────────────────────────────────

/// A backspace undoes typing a character into a filter.
pub proof fn law_backspace_undoes_typing(f: Seq<char>, c: char)
    ensures
        backspaced(typed(f, c)) == f,
{
    assert(typed(f, c).drop_last() =~= f);
}

/// An empty filter lets every address through.
proof fn lemma_empty_filter_passes(addr: Seq<char>)
    ensures
        contains_bytes(utf8(lower(addr)), utf8(lower(Seq::<char>::empty()))),
{
    assert(ascii_lower(Seq::<char>::empty()) =~= Seq::<char>::empty());
    let h = utf8(lower(addr));
    assert(h.subrange(0, 0) =~= utf8(lower(Seq::<char>::empty())));
    assert(occurs_at(h, utf8(lower(Seq::<char>::empty())), 0));
}

/// A filter with all connections passing keeps the list as it is.
proof fn lemma_filter_keeps_all(s: Seq<ConnInfo>, pred: spec_fn(ConnInfo) -> bool)
    requires
        forall|k: int| 0 <= k < s.len() ==> pred(#[trigger] s[k]),
    ensures
        s.filter(pred) == s,
    decreases s.len(),
{
    reveal_with_fuel(Seq::filter, 1);
    if s.len() > 0 {
        lemma_filter_keeps_all(s.drop_last(), pred);
        assert(s.drop_last().push(s.last()) =~= s);
    }
}

/// Filtering by a stronger predicate is filtering the already filtered list.
proof fn lemma_filter_stronger(s: Seq<ConnInfo>, p: spec_fn(ConnInfo) -> bool, q: spec_fn(ConnInfo) -> bool)
    requires
        forall|x: ConnInfo| #[trigger] q(x) ==> p(x),
    ensures
        s.filter(q) == s.filter(p).filter(q),
    decreases s.len(),
{
    reveal_with_fuel(Seq::filter, 1);
    if s.len() > 0 {
        lemma_filter_stronger(s.drop_last(), p, q);
        let t = s.drop_last().filter(p);
        if p(s.last()) {
            assert(t.push(s.last()).drop_last() =~= t);
        }
    }
}

/// With both filters empty the list shows every known connection, sorted by
/// the chosen column, ties in the order of the known list.
pub proof fn law_unfiltered_shows_all(s: AppState)
    requires
        s.shows(),
        s.filter_src@.len() == 0,
        s.filter_dst@.len() == 0,
    ensures
        s.visible@.to_multiset() == s.connections@.to_multiset(),
        s.visible@.len() == s.connections@.len(),
        sorted_by_column(s.sort_col, s.sort_asc, s.visible@),
        stable_for(s.sort_col, s.connections@, s.visible@),
{
    broadcast use vstd::seq_lib::group_to_multiset_ensures;

    assert(s.filter_src@ =~= Seq::<char>::empty());
    assert(s.filter_dst@ =~= Seq::<char>::empty());
    assert forall|k: int| 0 <= k < s.connections@.len() implies keep_conn(
        #[trigger] s.connections@[k],
        s.filter_src@,
        s.filter_dst@,
    ) by {
        lemma_empty_filter_passes(s.connections@[k].src@);
        lemma_empty_filter_passes(s.connections@[k].dst@);
    }
    let fs = s.filter_src@;
    let fd = s.filter_dst@;
    lemma_filter_keeps_all(s.connections@, |c: ConnInfo| keep_conn(c, fs, fd));
    assert(kept(s.connections@, fs, fd) == s.connections@);
    assert(s.visible@.len() == s.visible@.to_multiset().len());
    assert(s.connections@.len() == s.connections@.to_multiset().len());
}

/// The list never shows more connections than are known.
pub proof fn law_shown_within_known(s: AppState)
    requires
        s.shows(),
    ensures
        s.visible@.len() <= s.connections@.len(),
{
    broadcast use vstd::seq_lib::group_to_multiset_ensures;

    let fs = s.filter_src@;
    let fd = s.filter_dst@;
    s.connections@.lemma_filter_len(|c: ConnInfo| keep_conn(c, fs, fd));
    assert(s.visible@.len() == s.visible@.to_multiset().len());
    assert(kept(s.connections@, fs, fd).len() == kept(s.connections@, fs, fd).to_multiset().len());
}

/// Merging an empty snapshot has exactly the effect of recomputing the list:
/// the same connections, the same list shown and the same selection.
pub proof fn law_merge_nothing_is_recompute(old: AppState, a: AppState, b: AppState)
    requires
        a.connections@ == merged(old.connections@, Seq::empty()),
        AppState::same_settings(old, a),
        AppState::refreshed(old, a),
        b.connections@ == old.connections@,
        AppState::same_settings(old, b),
        AppState::refreshed(old, b),
    ensures
        a.connections@ == b.connections@,
        a.visible@ == b.visible@,
        a.selected == b.selected,
        AppState::same_settings(a, b),
{
    let k = kept(old.connections@, old.filter_src@, old.filter_dst@);
    assert(kept(a.connections@, a.filter_src@, a.filter_dst@) == k);
    assert(kept(b.connections@, b.filter_src@, b.filter_dst@) == k);
    law_sort_determined(old.sort_col, old.sort_asc, k, a.visible@, b.visible@);
}

/// With an ASCII filter, typing an ASCII character makes the filter's
/// lower-cased bytes longer by one, so anything they occur in also holds the
/// filter before the keystroke.
proof fn lemma_typed_filter_narrows(hay: Seq<u8>, f: Seq<char>, c: char)
    requires
        is_ascii_chars(f),
        c <= '\u{7f}',
    ensures
        contains_bytes(hay, utf8(lower(typed(f, c)))) ==> contains_bytes(hay, utf8(lower(f))),
{
    let f2 = typed(f, c);
    assert(is_ascii_chars(f2)) by {
        assert forall|i: int| 0 <= i < f2.len() implies '\0' <= #[trigger] f2[i] <= '\u{7f}' by {
            if i < f.len() {
                assert(f2[i] == f[i]);
            }
        }
    }
    let p = ascii_lower(f);
    let p2 = ascii_lower(f2);
    assert(is_ascii_chars(p));
    assert(is_ascii_chars(p2));
    is_ascii_chars_encode_utf8(p);
    is_ascii_chars_encode_utf8(p2);
    let u = utf8(p);
    let u2 = utf8(p2);
    assert forall|i: int| 0 <= i < u.len() implies u[i] == u2[i] by {
        assert(p[i] == p2[i]);
    }
    if contains_bytes(hay, u2) {
        let i = choose|i: int| occurs_at(hay, u2, i);
        assert(hay.subrange(i, i + u.len()) =~= u) by {
            assert forall|m: int| 0 <= m < u.len() implies hay.subrange(i, i + u.len())[m] == u[m] by {
                assert(hay.subrange(i, i + u2.len())[m] == u2[m]);
            }
        }
        assert(occurs_at(hay, u, i));
    }
}

/// Typing into a filter only narrows the list: with ASCII filters and an
/// ASCII character, every connection shown afterwards was shown before, and
/// the list is no longer than before.
pub proof fn law_typing_narrows(old: AppState, new: AppState, c: char)
    requires
        old.shows(),
        is_ascii_chars(old.filter_src@),
        is_ascii_chars(old.filter_dst@),
        c <= '\u{7f}',
        AppState::after_filters(
            old,
            new,
            if old.filter_mode == FilterMode::Src { typed(old.filter_src@, c) } else { old.filter_src@ },
            if old.filter_mode == FilterMode::Dst { typed(old.filter_dst@, c) } else { old.filter_dst@ },
        ),
    ensures
        forall|x: ConnInfo| new.visible@.contains(x) ==> old.visible@.contains(x),
        new.visible@.len() <= old.visible@.len(),
{
    broadcast use vstd::seq_lib::group_to_multiset_ensures;

    let fs = old.filter_src@;
    let fd = old.filter_dst@;
    let fs2 = new.filter_src@;
    let fd2 = new.filter_dst@;
    let p = |x: ConnInfo| keep_conn(x, fs, fd);
    let q = |x: ConnInfo| keep_conn(x, fs2, fd2);
    assert forall|x: ConnInfo| #[trigger] q(x) implies p(x) by {
        lemma_typed_filter_narrows(utf8(lower(x.src@)), fs, c);
        lemma_typed_filter_narrows(utf8(lower(x.dst@)), fd, c);
    }
    let s = old.connections@;
    assert(new.connections@ == s);
    lemma_filter_stronger(s, p, q);
    s.filter(p).lemma_filter_len(q);
    assert(old.visible@.len() == old.visible@.to_multiset().len());
    assert(new.visible@.len() == new.visible@.to_multiset().len());
    assert(s.filter(p).len() == s.filter(p).to_multiset().len());
    assert(s.filter(q).len() == s.filter(q).to_multiset().len());
    assert forall|x: ConnInfo| new.visible@.contains(x) implies old.visible@.contains(x) by {
        assert(new.visible@.to_multiset().count(x) > 0);
        assert(s.filter(q).contains(x));
        s.lemma_filter_contains_rev(q, x);
        let m = choose|m: int| 0 <= m < s.filter(q).len() && s.filter(q)[m] == x;
        s.lemma_filter_pred(q, m);
        let j = choose|j: int| 0 <= j < s.len() && s[j] == x;
        s.lemma_filter_contains(p, j);
        assert(old.visible@.to_multiset().count(x) > 0);
    }
}

/// Descending order is ascending order reversed.
pub proof fn law_descending_reverses(col: SortColumn, a: ConnInfo, b: ConnInfo)
    ensures
        goes_before(col, false, a, b) == goes_before(col, true, b, a),
{
    lemma_col_order(col, a, b, a);
}

proof fn lemma_sorted_tail(col: SortColumn, asc: bool, a: Seq<ConnInfo>)
    requires
        a.len() > 0,
        sorted_by_column(col, asc, a),
    ensures
        sorted_by_column(col, asc, a.drop_first()),
{
    let ra = a.drop_first();
    assert forall|i: int, j: int| 0 <= i < j < ra.len() implies !goes_before(
        col,
        asc,
        #[trigger] ra[j],
        #[trigger] ra[i],
    ) by {
        assert(ra[i] == a[i + 1] && ra[j] == a[j + 1]);
    }
}

/// The first elements of two sorted lists with the same connections tie.
proof fn lemma_heads_tie(col: SortColumn, asc: bool, a: Seq<ConnInfo>, b: Seq<ConnInfo>)
    requires
        a.len() > 0,
        a.to_multiset() == b.to_multiset(),
        sorted_by_column(col, asc, a),
        sorted_by_column(col, asc, b),
    ensures
        b.len() > 0,
        col_order(col, a[0], b[0]) == 0,
{
    broadcast use vstd::seq_lib::group_to_multiset_ensures;

    let (a0, b0) = (a[0], b[0]);
    assert(a.contains(a0));
    assert(b.to_multiset().count(a0) > 0);
    assert(b.contains(a0));
    let k = choose|k: int| 0 <= k < b.len() && b[k] == a0;
    assert(b.to_multiset().count(b0) > 0);
    assert(a.contains(b0));
    let j = choose|j: int| 0 <= j < a.len() && a[j] == b0;
    if k > 0 {
        assert(!goes_before(col, asc, b[k], b[0]));
    }
    if j > 0 {
        assert(!goes_before(col, asc, a[j], a[0]));
    }
    lemma_col_order(col, a0, b0, a0);
    lemma_col_order(col, b0, b0, b0);
}

/// Dropping equal first elements keeps the ties in the same order.
proof fn lemma_stable_tail(col: SortColumn, a: Seq<ConnInfo>, b: Seq<ConnInfo>)
    requires
        a.len() > 0,
        b.len() > 0,
        a[0] == b[0],
        stable_for(col, a, b),
    ensures
        stable_for(col, a.drop_first(), b.drop_first()),
{
    let ra = a.drop_first();
    let rb = b.drop_first();
    let x0 = a[0];
    assert(a =~= seq![x0] + ra);
    assert(b =~= seq![x0] + rb);
    assert forall|x: ConnInfo| #[trigger] rb.filter(ties(col, x)) == ra.filter(ties(col, x)) by {
        let q = ties(col, x);
        ra.lemma_filter_prepend(x0, q);
        rb.lemma_filter_prepend(x0, q);
        assert(b.filter(q) == a.filter(q));
        let head: Seq<ConnInfo> = if q(x0) { seq![x0] } else { Seq::empty() };
        assert(ra.filter(q) =~= (head + ra.filter(q)).skip(head.len() as int));
        assert(rb.filter(q) =~= (head + rb.filter(q)).skip(head.len() as int));
    }
}

/// A sorted order that keeps ties in place is unique: two lists with the
/// same connections, both sorted by the column and with ties in the same
/// order, are equal.
pub proof fn law_stable_sort_unique(col: SortColumn, asc: bool, a: Seq<ConnInfo>, b: Seq<ConnInfo>)
    requires
        a.to_multiset() == b.to_multiset(),
        sorted_by_column(col, asc, a),
        sorted_by_column(col, asc, b),
        stable_for(col, a, b),
    ensures
        a == b,
    decreases a.len(),
{
    broadcast use vstd::seq_lib::group_to_multiset_ensures;

    assert(a.len() == a.to_multiset().len());
    assert(b.len() == b.to_multiset().len());
    if a.len() == 0 {
        assert(a =~= b);
    } else {
        lemma_heads_tie(col, asc, a, b);
        let (a0, b0) = (a[0], b[0]);
        let ra = a.drop_first();
        let rb = b.drop_first();
        assert(a =~= seq![a0] + ra);
        assert(b =~= seq![b0] + rb);
        let p = ties(col, b0);
        lemma_col_order(col, b0, b0, b0);
        ra.lemma_filter_prepend(a0, p);
        rb.lemma_filter_prepend(b0, p);
        assert(a.filter(p) == b.filter(p));
        assert(a.filter(p)[0] == a0);
        assert(b.filter(p)[0] == b0);
        assert(a.remove(0) =~= ra);
        assert(b.remove(0) =~= rb);
        lemma_stable_tail(col, a, b);
        lemma_sorted_tail(col, asc, a);
        lemma_sorted_tail(col, asc, b);
        law_stable_sort_unique(col, asc, ra, rb);
    }
}

/// Sorting determines its result: any two lists that meet `sort_conns`'s
/// contract for the same input are equal.
pub proof fn law_sort_determined(col: SortColumn, asc: bool, v: Seq<ConnInfo>, r1: Seq<ConnInfo>, r2: Seq<ConnInfo>)
    requires
        r1.to_multiset() == v.to_multiset(),
        r2.to_multiset() == v.to_multiset(),
        sorted_by_column(col, asc, r1),
        sorted_by_column(col, asc, r2),
        stable_for(col, v, r1),
        stable_for(col, v, r2),
    ensures
        r1 == r2,
{
    assert forall|x: ConnInfo| #[trigger] r2.filter(ties(col, x)) == r1.filter(ties(col, x)) by {
        assert(r2.filter(ties(col, x)) == v.filter(ties(col, x)));
        assert(r1.filter(ties(col, x)) == v.filter(ties(col, x)));
    }
    law_stable_sort_unique(col, asc, r1, r2);
}

/// F6 cycles through all ten columns and comes back after ten presses.
pub proof fn law_sort_columns_cycle(c: SortColumn)
    ensures
        next_column(next_column(next_column(next_column(next_column(next_column(next_column(
            next_column(next_column(next_column(c)))))))))) == c,
        next_column(c) != c,
{
}

/// After the list is refreshed, a non-empty list has its selection on it.
pub proof fn law_selection_on_list(old: AppState, new: AppState)
    requires
        AppState::refreshed(old, new),
        new.visible@.len() > 0,
    ensures
        new.selected < new.visible@.len(),
{
}

// ── Wire format ──────────────────────────────────────────────────────────────

/// Rounding up to four bytes never shrinks, adds at most three bytes and
/// yields a multiple of four.
pub proof fn law_align4(len: nat)
    ensures
        len <= align4(len) < len + 4,
        align4(len) % 4 == 0,
{
}

/// The request's netlink header states the request's own length and type,
/// and its body names the family asked for.
pub proof fn law_request_header(family: u8)
    ensures
        request_bytes(family).len() == REQUEST_LEN,
        le32(request_bytes(family), 0) == REQUEST_LEN,
        le16(request_bytes(family), 4) == SOCK_DIAG_BY_FAMILY,
        request_bytes(family)[16] == family,
{
    let r = request_bytes(family);
    assert(r.len() == 72);
    assert(r[0] == 72 && r[1] == 0 && r[2] == 0 && r[3] == 0);
    assert(r[4] == 20 && r[5] == 0);
}

/// A `tcp_info` payload of full length is read as it is; the fields that a
/// shorter payload lacks read as zero.
pub proof fn law_zero_fill(p: Seq<u8>)
    ensures
        p.len() >= TCP_INFO_LEN ==> tcp_info_of(zero_filled(p)) == tcp_info_of(p),
        p.len() <= 160 ==> tcp_info_of(zero_filled(p)).delivery_rate == 0,
        p.len() <= 200 ==> tcp_info_of(zero_filled(p)).bytes_sent == 0 && tcp_info_of(
            zero_filled(p),
        ).bytes_retrans == 0,
        p.len() <= 224 ==> tcp_info_of(zero_filled(p)).rcv_ooopack == 0,
{
}

/// A reply that starts with `NLMSG_DONE` ends the dump with no connection.
pub proof fn law_done_ends_dump(buf: Seq<u8>)
    requires
        buf.len() >= 16,
        16 <= le32(buf, 0) <= buf.len(),
        le16(buf, 4) == NLMSG_DONE,
    ensures
        diag_payloads(buf, 0) == (Seq::<Seq<u8>>::empty(), true),
{
}

/// An IPv4-mapped IPv6 address is shown exactly like the IPv4 address it
/// carries.
pub proof fn law_mapped_shown_as_v4(v6: Seq<u8>, port: nat)
    requires
        v6.len() == 16,
        is_v4_mapped(v6),
    ensures
        addr_text(AF_INET6, v6, port) == addr_text(AF_INET, v6.subrange(12, 16) + Seq::new(12, |i: int| 0u8), port),
{
    assert((v6.subrange(12, 16) + Seq::new(12, |i: int| 0u8)).subrange(0, 4) =~= v6.subrange(12, 16));
}

// ── Kernel layouts and numbering ─────────────────────────────────────────────

/// The little-endian 32-bit integer in bytes `o .. o + 4` of `raw`, byte by
/// byte.
pub open spec fn bytes_u32(raw: Seq<u8>, o: int) -> int {
    raw[o] + raw[o + 1] * 256 + raw[o + 2] * 65536 + raw[o + 3] * 16777216
}

/// The little-endian 64-bit integer in bytes `o .. o + 8` of `raw`.
pub open spec fn bytes_u64(raw: Seq<u8>, o: int) -> int {
    bytes_u32(raw, o) + bytes_u32(raw, o + 4) * 4294967296
}

proof fn lemma_le32_is_bytes(raw: Seq<u8>, o: int)
    requires
        0 <= o,
        o + 4 <= raw.len(),
    ensures
        le32(raw, o) == bytes_u32(raw, o),
        0 <= bytes_u32(raw, o) <= u32::MAX,
        le32(raw, o) as u32 == bytes_u32(raw, o),
{
}

proof fn lemma_le64_is_bytes(raw: Seq<u8>, o: int)
    requires
        0 <= o,
        o + 8 <= raw.len(),
    ensures
        le64(raw, o) == bytes_u64(raw, o),
        0 <= bytes_u64(raw, o) <= u64::MAX,
        le64(raw, o) as u64 == bytes_u64(raw, o),
{
    lemma_le32_is_bytes(raw, o);
    lemma_le32_is_bytes(raw, o + 4);
}

/// Each field of `tcp_info` is read at its offset in the kernel's
/// `struct tcp_info`: `tcpi_ca_state` in byte 1, then the 32-bit fields
/// `rto` at 8, `snd_mss` at 16, `unacked` at 24, `lost` at 32 (after
/// `sacked` at 28), `retrans` at 36, `pmtu` at 60, `rcv_ssthresh` at 64,
/// `rtt` at 68, `rttvar` at 72, `snd_ssthresh` at 76, `snd_cwnd` at 80,
/// `rcv_rtt` at 92, `rcv_space` at 96, `total_retrans` at 100, `segs_out` at
/// 136, `segs_in` at 140, `notsent_bytes` at 144, `min_rtt` at 148,
/// `data_segs_in` at 152, `data_segs_out` at 156, `delivered` at 192,
/// `delivered_ce` at 196, `dsack_dups` at 216, `reord_seen` at 220,
/// `rcv_ooopack` at 224, and the 64-bit fields `delivery_rate` at 160,
/// `busy_time` at 168, `rwnd_limited` at 176, `sndbuf_limited` at 184,
/// `bytes_sent` at 200 and `bytes_retrans` at 208, all little-endian.
pub proof fn law_tcp_info_layout(raw: Seq<u8>)
    requires
        raw.len() >= TCP_INFO_LEN,
    ensures
        tcp_info_of(raw).ca_state == raw[1],
        tcp_info_of(raw).rto == bytes_u32(raw, 8),
        tcp_info_of(raw).snd_mss == bytes_u32(raw, 16),
        tcp_info_of(raw).unacked == bytes_u32(raw, 24),
        tcp_info_of(raw).lost == bytes_u32(raw, 32),
        tcp_info_of(raw).retrans == bytes_u32(raw, 36),
        tcp_info_of(raw).pmtu == bytes_u32(raw, 60),
        tcp_info_of(raw).rcv_ssthresh == bytes_u32(raw, 64),
        tcp_info_of(raw).rtt == bytes_u32(raw, 68),
        tcp_info_of(raw).rttvar == bytes_u32(raw, 72),
        tcp_info_of(raw).snd_ssthresh == bytes_u32(raw, 76),
        tcp_info_of(raw).snd_cwnd == bytes_u32(raw, 80),
        tcp_info_of(raw).rcv_rtt == bytes_u32(raw, 92),
        tcp_info_of(raw).rcv_space == bytes_u32(raw, 96),
        tcp_info_of(raw).total_retrans == bytes_u32(raw, 100),
        tcp_info_of(raw).segs_out == bytes_u32(raw, 136),
        tcp_info_of(raw).segs_in == bytes_u32(raw, 140),
        tcp_info_of(raw).notsent_bytes == bytes_u32(raw, 144),
        tcp_info_of(raw).min_rtt == bytes_u32(raw, 148),
        tcp_info_of(raw).data_segs_in == bytes_u32(raw, 152),
        tcp_info_of(raw).data_segs_out == bytes_u32(raw, 156),
        tcp_info_of(raw).delivery_rate == bytes_u64(raw, 160),
        tcp_info_of(raw).busy_time == bytes_u64(raw, 168),
        tcp_info_of(raw).rwnd_limited == bytes_u64(raw, 176),
        tcp_info_of(raw).sndbuf_limited == bytes_u64(raw, 184),
        tcp_info_of(raw).delivered == bytes_u32(raw, 192),
        tcp_info_of(raw).delivered_ce == bytes_u32(raw, 196),
        tcp_info_of(raw).bytes_sent == bytes_u64(raw, 200),
        tcp_info_of(raw).bytes_retrans == bytes_u64(raw, 208),
        tcp_info_of(raw).dsack_dups == bytes_u32(raw, 216),
        tcp_info_of(raw).reord_seen == bytes_u32(raw, 220),
        tcp_info_of(raw).rcv_ooopack == bytes_u32(raw, 224),
{
    lemma_le32_is_bytes(raw, 8);
    lemma_le32_is_bytes(raw, 16);
    lemma_le32_is_bytes(raw, 24);
    lemma_le32_is_bytes(raw, 32);
    lemma_le32_is_bytes(raw, 36);
    lemma_le32_is_bytes(raw, 60);
    lemma_le32_is_bytes(raw, 64);
    lemma_le32_is_bytes(raw, 68);
    lemma_le32_is_bytes(raw, 72);
    lemma_le32_is_bytes(raw, 76);
    lemma_le32_is_bytes(raw, 80);
    lemma_le32_is_bytes(raw, 92);
    lemma_le32_is_bytes(raw, 96);
    lemma_le32_is_bytes(raw, 100);
    lemma_le32_is_bytes(raw, 136);
    lemma_le32_is_bytes(raw, 140);
    lemma_le32_is_bytes(raw, 144);
    lemma_le32_is_bytes(raw, 148);
    lemma_le32_is_bytes(raw, 152);
    lemma_le32_is_bytes(raw, 156);
    lemma_le64_is_bytes(raw, 160);
    lemma_le64_is_bytes(raw, 168);
    lemma_le64_is_bytes(raw, 176);
    lemma_le64_is_bytes(raw, 184);
    lemma_le32_is_bytes(raw, 192);
    lemma_le32_is_bytes(raw, 196);
    lemma_le64_is_bytes(raw, 200);
    lemma_le64_is_bytes(raw, 208);
    lemma_le32_is_bytes(raw, 216);
    lemma_le32_is_bytes(raw, 220);
    lemma_le32_is_bytes(raw, 224);
}

/// A connection built from a diagnostics message carries the kernel's
/// metrics field for field: each current metric is the `tcp_info` field of
/// the same meaning (lost segments are `lost`, not `sacked` or `unacked`),
/// and its state is the one the message's state number names.
pub proof fn law_built_takes_kernel_metrics(
    c: ConnInfo,
    state: u8,
    sport: nat,
    dport: nat,
    src: Seq<u8>,
    dst: Seq<u8>,
    t: crate::wire::TcpInfo,
    family: u8,
)
    requires
        crate::wire::conn_built(c, state, sport, dport, src, dst, Some(t), family),
    ensures
        c.state == state_of(state),
        c.rtt_us == t.rtt,
        c.rttvar_us == t.rttvar,
        c.min_rtt_us == t.min_rtt,
        c.total_retrans == t.total_retrans,
        c.retrans_in_flight == t.retrans,
        c.lost == t.lost,
        c.unacked == t.unacked,
        c.segs_out == t.segs_out,
        c.segs_in == t.segs_in,
        c.cwnd == t.snd_cwnd,
        c.ca_state == t.ca_state,
        c.rto_us == t.rto,
        c.delivery_rate_bps == t.delivery_rate,
        c.bytes_sent == t.bytes_sent,
        c.bytes_retrans == t.bytes_retrans,
        c.pmtu == t.pmtu,
        c.snd_mss == t.snd_mss,
        c.snd_ssthresh == t.snd_ssthresh,
        c.rcv_ssthresh == t.rcv_ssthresh,
        c.rcv_rtt_us == t.rcv_rtt,
        c.rcv_space == t.rcv_space,
        c.notsent_bytes == t.notsent_bytes,
        c.data_segs_out == t.data_segs_out,
        c.data_segs_in == t.data_segs_in,
        c.busy_time_us == t.busy_time,
        c.rwnd_limited_us == t.rwnd_limited,
        c.sndbuf_limited_us == t.sndbuf_limited,
        c.delivered == t.delivered,
        c.delivered_ce == t.delivered_ce,
        c.dsack_dups == t.dsack_dups,
        c.reord_seen == t.reord_seen,
        c.rcv_ooopack == t.rcv_ooopack,
{
}

/// State numbers follow the kernel's `TCP_*` numbering: 1 ESTABLISHED,
/// 2 SYN_SENT, 3 SYN_RECV, 4 FIN_WAIT1, 5 FIN_WAIT2, 6 TIME_WAIT, 7 CLOSE,
/// 8 CLOSE_WAIT, 9 LAST_ACK, 10 LISTEN, 11 CLOSING; any other number is
/// unknown and kept. Each state has its own label.
pub proof fn law_kernel_state_numbers(v: u8)
    ensures
        v == 1 ==> state_of(v) == TcpState::Established,
        v == 2 ==> state_of(v) == TcpState::SynSent,
        v == 3 ==> state_of(v) == TcpState::SynRecv,
        v == 4 ==> state_of(v) == TcpState::FinWait1,
        v == 5 ==> state_of(v) == TcpState::FinWait2,
        v == 6 ==> state_of(v) == TcpState::TimeWait,
        v == 7 ==> state_of(v) == TcpState::Close,
        v == 8 ==> state_of(v) == TcpState::CloseWait,
        v == 9 ==> state_of(v) == TcpState::LastAck,
        v == 10 ==> state_of(v) == TcpState::Listen,
        v == 11 ==> state_of(v) == TcpState::Closing,
        (v == 0 || v > 11) ==> state_of(v) == TcpState::Unknown(v),
        state_label(TcpState::Established) == "ESTAB"@,
        state_label(TcpState::SynSent) == "SYN-S"@,
        state_label(TcpState::SynRecv) == "SYN-R"@,
        state_label(TcpState::FinWait1) == "FIN-1"@,
        state_label(TcpState::FinWait2) == "FIN-2"@,
        state_label(TcpState::TimeWait) == "T-WAIT"@,
        state_label(TcpState::Close) == "CLOSE"@,
        state_label(TcpState::CloseWait) == "C-WAIT"@,
        state_label(TcpState::LastAck) == "L-ACK"@,
        state_label(TcpState::Listen) == "LISTEN"@,
        state_label(TcpState::Closing) == "CLOSNG"@,
        state_label(TcpState::Unknown(v)) == "?"@,
{
}

/// Two different state numbers in the kernel's range never name the same
/// state, and a known number never names an unknown state.
pub proof fn law_state_numbers_distinct(v: u8, w: u8)
    requires
        1 <= v <= 11,
        v != w,
    ensures
        state_of(v) != state_of(w),
        !(state_of(v) is Unknown),
{
}

// ── What each column sorts by ────────────────────────────────────────────────

/// Every numeric column orders connections by its own metric, smallest
/// first ascending and largest first descending: RTT by `rtt_us`, Jitter by
/// `rttvar_us`, Retrans by `total_retrans`, Loss by `lost`, Rate by
/// `delivery_rate_bps`, CWND by `cwnd`, Health by the overall grade.
pub proof fn law_numeric_columns_order(a: ConnInfo, b: ConnInfo)
    ensures
        goes_before(SortColumn::Rtt, true, a, b) == (a.rtt_us < b.rtt_us),
        goes_before(SortColumn::Rtt, false, a, b) == (a.rtt_us > b.rtt_us),
        goes_before(SortColumn::Jitter, true, a, b) == (a.rttvar_us < b.rttvar_us),
        goes_before(SortColumn::Jitter, false, a, b) == (a.rttvar_us > b.rttvar_us),
        goes_before(SortColumn::Retrans, true, a, b) == (a.total_retrans < b.total_retrans),
        goes_before(SortColumn::Retrans, false, a, b) == (a.total_retrans > b.total_retrans),
        goes_before(SortColumn::Loss, true, a, b) == (a.lost < b.lost),
        goes_before(SortColumn::Loss, false, a, b) == (a.lost > b.lost),
        goes_before(SortColumn::Rate, true, a, b) == (a.delivery_rate_bps < b.delivery_rate_bps),
        goes_before(SortColumn::Rate, false, a, b) == (a.delivery_rate_bps > b.delivery_rate_bps),
        goes_before(SortColumn::Cwnd, true, a, b) == (a.cwnd < b.cwnd),
        goes_before(SortColumn::Cwnd, false, a, b) == (a.cwnd > b.cwnd),
        goes_before(SortColumn::Health, true, a, b) == (a.overall_grade().rank() < b.overall_grade().rank()),
        goes_before(SortColumn::Health, false, a, b) == (a.overall_grade().rank() > b.overall_grade().rank()),
        col_order(SortColumn::Loss, a, b) == 0 <==> a.lost == b.lost,
{
}

// ── Jitter ───────────────────────────────────────────────────────────────────

/// Jitter is graded by its share of the RTT: good below a quarter, warning
/// below three quarters, bad from there; without an RTT or a variance it is
/// good.
pub proof fn law_jitter_is_a_share_of_rtt(rttvar: u32, rtt: u32)
    ensures
        (rttvar == 0 || rtt == 0) ==> jitter_grade(rttvar, rtt) == Health::Good,
        (rttvar > 0 && rtt > 0) ==> (jitter_grade(rttvar, rtt) == Health::Good <==> 4 * rttvar < rtt),
        (rttvar > 0 && rtt > 0) ==> (jitter_grade(rttvar, rtt) == Health::Bad <==> 4 * rttvar >= 3 * rtt),
{
}

/// The jitter grade depends on the ratio of variance to RTT alone: two
/// connections whose variance and RTT are in the same proportion get the
/// same grade.
pub proof fn law_jitter_scale_free(v1: u32, r1: u32, v2: u32, r2: u32)
    requires
        v1 > 0,
        r1 > 0,
        v2 > 0,
        r2 > 0,
        v1 * r2 == v2 * r1,
    ensures
        jitter_grade(v1, r1) == jitter_grade(v2, r2),
{
    let (a, b, c, d) = (v1 as int, r1 as int, v2 as int, r2 as int);
    assert((4 * a < b) == (4 * c < d)) by (nonlinear_arith)
        requires
            a > 0,
            b > 0,
            c > 0,
            d > 0,
            a * d == c * b,
    {
        assert((4 * a < b) == (4 * a * d < b * d));
        assert((4 * c < d) == (4 * c * b < d * b));
    }
    assert((4 * a < 3 * b) == (4 * c < 3 * d)) by (nonlinear_arith)
        requires
            a > 0,
            b > 0,
            c > 0,
            d > 0,
            a * d == c * b,
    {
        assert((4 * a < 3 * b) == (4 * a * d < 3 * b * d));
        assert((4 * c < 3 * d) == (4 * c * b < 3 * d * b));
    }
}

// ── Merging a fresh measurement ──────────────────────────────────────────────

/// Merging a fresh measurement into a known connection takes every current
/// kernel metric from the fresh measurement and keeps only the identity (key
/// and endpoints) of the known one; the history fields are covered by the
/// laws above.
pub proof fn law_update_takes_fresh_metrics(old: ConnInfo, fresh: ConnInfo)
    ensures
        ConnInfo::updated(old, fresh).key == old.key,
        ConnInfo::updated(old, fresh).src == old.src,
        ConnInfo::updated(old, fresh).dst == old.dst,
        ConnInfo::updated(old, fresh).state == fresh.state,
        ConnInfo::updated(old, fresh).rtt_us == fresh.rtt_us,
        ConnInfo::updated(old, fresh).rttvar_us == fresh.rttvar_us,
        ConnInfo::updated(old, fresh).min_rtt_us == fresh.min_rtt_us,
        ConnInfo::updated(old, fresh).total_retrans == fresh.total_retrans,
        ConnInfo::updated(old, fresh).retrans_in_flight == fresh.retrans_in_flight,
        ConnInfo::updated(old, fresh).lost == fresh.lost,
        ConnInfo::updated(old, fresh).segs_out == fresh.segs_out,
        ConnInfo::updated(old, fresh).segs_in == fresh.segs_in,
        ConnInfo::updated(old, fresh).bytes_sent == fresh.bytes_sent,
        ConnInfo::updated(old, fresh).bytes_retrans == fresh.bytes_retrans,
        ConnInfo::updated(old, fresh).cwnd == fresh.cwnd,
        ConnInfo::updated(old, fresh).ca_state == fresh.ca_state,
        ConnInfo::updated(old, fresh).rto_us == fresh.rto_us,
        ConnInfo::updated(old, fresh).unacked == fresh.unacked,
        ConnInfo::updated(old, fresh).delivery_rate_bps == fresh.delivery_rate_bps,
        ConnInfo::updated(old, fresh).pmtu == fresh.pmtu,
        ConnInfo::updated(old, fresh).snd_mss == fresh.snd_mss,
        ConnInfo::updated(old, fresh).snd_ssthresh == fresh.snd_ssthresh,
        ConnInfo::updated(old, fresh).rcv_ssthresh == fresh.rcv_ssthresh,
        ConnInfo::updated(old, fresh).rcv_rtt_us == fresh.rcv_rtt_us,
        ConnInfo::updated(old, fresh).rcv_space == fresh.rcv_space,
        ConnInfo::updated(old, fresh).notsent_bytes == fresh.notsent_bytes,
        ConnInfo::updated(old, fresh).data_segs_out == fresh.data_segs_out,
        ConnInfo::updated(old, fresh).data_segs_in == fresh.data_segs_in,
        ConnInfo::updated(old, fresh).busy_time_us == fresh.busy_time_us,
        ConnInfo::updated(old, fresh).rwnd_limited_us == fresh.rwnd_limited_us,
        ConnInfo::updated(old, fresh).sndbuf_limited_us == fresh.sndbuf_limited_us,
        ConnInfo::updated(old, fresh).delivered == fresh.delivered,
        ConnInfo::updated(old, fresh).delivered_ce == fresh.delivered_ce,
        ConnInfo::updated(old, fresh).dsack_dups == fresh.dsack_dups,
        ConnInfo::updated(old, fresh).reord_seen == fresh.reord_seen,
        ConnInfo::updated(old, fresh).rcv_ooopack == fresh.rcv_ooopack,
{
}

/// A fresh measurement without an RTT sample leaves the history as it was;
/// one with a sample adds it: one more sample, its RTT added to the sum, the
/// minimum and maximum widened to cover it.
pub proof fn law_update_history_sample(old: ConnInfo, fresh: ConnInfo)
    requires
        old.can_absorb(fresh),
    ensures
        fresh.rtt_us == 0 ==> ConnInfo::updated(old, fresh).samples == old.samples
            && ConnInfo::updated(old, fresh).rtt_sum_us == old.rtt_sum_us
            && ConnInfo::updated(old, fresh).rtt_min_us == old.rtt_min_us
            && ConnInfo::updated(old, fresh).rtt_max_us == old.rtt_max_us,
        fresh.rtt_us > 0 ==> ConnInfo::updated(old, fresh).samples == old.samples + 1
            && ConnInfo::updated(old, fresh).rtt_sum_us == old.rtt_sum_us + fresh.rtt_us
            && ConnInfo::updated(old, fresh).rtt_min_us <= fresh.rtt_us
            && ConnInfo::updated(old, fresh).rtt_min_us <= old.rtt_min_us
            && (ConnInfo::updated(old, fresh).rtt_min_us == fresh.rtt_us
                || ConnInfo::updated(old, fresh).rtt_min_us == old.rtt_min_us)
            && ConnInfo::updated(old, fresh).rtt_max_us >= fresh.rtt_us
            && ConnInfo::updated(old, fresh).rtt_max_us >= old.rtt_max_us
            && (ConnInfo::updated(old, fresh).rtt_max_us == fresh.rtt_us
                || ConnInfo::updated(old, fresh).rtt_max_us == old.rtt_max_us),
{
}

// ── Grading thresholds ───────────────────────────────────────────────────────

/// The documented thresholds of each metric's grade: RTT good below 10 ms and
/// bad from 100 ms; RTO good below 500 ms and bad from 3 s; unsent backlog
/// good below 64 KiB and bad from 1 MiB; congestion state good when Open and
/// bad in Recovery or Loss; loss good without lost segments and bad from a
/// 0.1% share of segments; retransmits good without any and bad from 1% of
/// segments sent; limited time good below 5% of busy time and bad from 25%;
/// counters good at zero and bad above their limit.
pub proof fn law_grade_thresholds(
    x: u32,
    ca: u8,
    lost: u32,
    retrans: u32,
    segs_out: u32,
    limited: u64,
    busy: u64,
    limit: u32,
)
    ensures
        (rtt_grade(x) == Health::Good) == (x < 10_000),
        (rtt_grade(x) == Health::Bad) == (x >= 100_000),
        (rto_grade(x) == Health::Good) == (x < 500_000),
        (rto_grade(x) == Health::Bad) == (x >= 3_000_000),
        (notsent_grade(x) == Health::Good) == (x < 65_536),
        (notsent_grade(x) == Health::Bad) == (x >= 1_048_576),
        (ca_grade(ca) == Health::Good) == (ca == 0),
        (ca_grade(ca) == Health::Bad) == (ca >= 3),
        (loss_grade(lost, segs_out) == Health::Good) == (lost == 0),
        (loss_grade(lost, segs_out) == Health::Bad) == (lost > 0 && 1000 * lost >= segs_out + lost),
        (retrans_grade(retrans, segs_out) == Health::Good) == (retrans == 0 || segs_out == 0),
        (retrans_grade(retrans, segs_out) == Health::Bad) == (retrans > 0 && segs_out > 0 && 100 * retrans >= segs_out),
        (limited_grade(limited, busy) == Health::Good) == (busy == 0 || 20 * limited < busy),
        (limited_grade(limited, busy) == Health::Bad) == (busy > 0 && 4 * limited >= busy),
        (count_grade(x, limit) == Health::Good) == (x == 0),
        (count_grade(x, limit) == Health::Bad) == (x > limit),
{
}

/// A connection is bad overall exactly when one of its metrics crosses its
/// bad threshold; the counters' limits are 5 DSACK blocks, 3 reordering
/// events and 10 out-of-order packets.
#[verifier::rlimit(40)]
pub proof fn law_overall_bad_when(c: ConnInfo)
    ensures
        (c.overall_grade() == Health::Bad) == (
            c.rtt_us >= 100_000
            || (c.rttvar_us > 0 && c.rtt_us > 0 && 4 * c.rttvar_us >= 3 * c.rtt_us)
            || (c.lost > 0 && 1000 * c.lost >= c.segs_out + c.lost)
            || (c.total_retrans > 0 && c.segs_out > 0 && 100 * c.total_retrans >= c.segs_out)
            || c.ca_state >= 3
            || c.rto_us >= 3_000_000
            || c.dsack_dups > 5
            || c.reord_seen > 3
            || c.rcv_ooopack > 10
            || c.notsent_bytes >= 1_048_576
            || (c.busy_time_us > 0 && 4 * c.rwnd_limited_us >= c.busy_time_us)
            || (c.busy_time_us > 0 && 4 * c.sndbuf_limited_us >= c.busy_time_us)),
{
}

/// A connection is good overall exactly when every metric is below its
/// warning threshold.
#[verifier::rlimit(40)]
pub proof fn law_overall_good_when(c: ConnInfo)
    ensures
        (c.overall_grade() == Health::Good) == (
            c.rtt_us < 10_000
            && (c.rttvar_us == 0 || c.rtt_us == 0 || 4 * c.rttvar_us < c.rtt_us)
            && c.lost == 0
            && (c.total_retrans == 0 || c.segs_out == 0)
            && c.ca_state == 0
            && c.rto_us < 500_000
            && c.dsack_dups == 0
            && c.reord_seen == 0
            && c.rcv_ooopack == 0
            && c.notsent_bytes < 65_536
            && (c.busy_time_us == 0 || 20 * c.rwnd_limited_us < c.busy_time_us)
            && (c.busy_time_us == 0 || 20 * c.sndbuf_limited_us < c.busy_time_us)),
{
}

// ── Text columns ─────────────────────────────────────────────────────────────

/// The Source, Destination and State columns compare their own text only:
/// two connections tie exactly when that text is the same, and the order
/// does not change when any other field does.
pub proof fn law_text_columns_order(a: ConnInfo, b: ConnInfo, a2: ConnInfo, b2: ConnInfo)
    ensures
        (col_order(SortColumn::Src, a, b) == 0) == (a.src@ == b.src@),
        (col_order(SortColumn::Dst, a, b) == 0) == (a.dst@ == b.dst@),
        (col_order(SortColumn::State, a, b) == 0) == (state_label(a.state) == state_label(b.state)),
        (a.src@ == a2.src@ && b.src@ == b2.src@) ==> col_order(SortColumn::Src, a, b) == col_order(SortColumn::Src, a2, b2),
        (a.dst@ == a2.dst@ && b.dst@ == b2.dst@) ==> col_order(SortColumn::Dst, a, b) == col_order(SortColumn::Dst, a2, b2),
        (a.state == a2.state && b.state == b2.state) ==> col_order(SortColumn::State, a, b) == col_order(SortColumn::State, a2, b2),
{
    lemma_text_tie(a.src@, b.src@);
    lemma_text_tie(a.dst@, b.dst@);
    lemma_text_tie(state_label(a.state), state_label(b.state));
}

proof fn lemma_text_tie(x: Seq<char>, y: Seq<char>)
    ensures
        (lex_order(utf8(x), utf8(y)) == 0) == (x == y),
{
    broadcast use vstd::utf8::encode_utf8_decode_utf8;

    lemma_lex_antisymmetric(utf8(x), utf8(x));
    if lex_order(utf8(x), utf8(y)) == 0 {
        lemma_lex_zero(utf8(x), utf8(y));
        assert(vstd::utf8::decode_utf8(utf8(x)) == x);
        assert(vstd::utf8::decode_utf8(utf8(y)) == y);
    }
}

// ── Diagnostics messages end to end ──────────────────────────────────────────

/// A connection read from an `inet_diag_msg` takes its state from byte 1,
/// its ports from bytes 4–5 and 6–7 in network byte order and its addresses
/// from bytes 8–23 and 24–39, and its key joins the two endpoints.
pub proof fn law_diag_message_layout(c: ConnInfo, data: Seq<u8>, family: u8)
    requires
        data.len() >= DIAG_MSG_LEN,
        conn_from_payload(c, data, family),
    ensures
        c.state == state_of(data[1]),
        c.src@ == addr_text(family, data.subrange(8, 24), (data[4] * 256 + data[5]) as nat),
        c.dst@ == addr_text(family, data.subrange(24, 40), (data[6] * 256 + data[7]) as nat),
        c.key@ == c.src@ + seq!['→'] + c.dst@,
{
}

/// An attribute list that starts with an `INET_DIAG_INFO` attribute (type 2)
/// long enough for the fields every kernel sends carries that attribute's
/// payload as `tcp_info`.
pub proof fn law_first_info_attribute(attrs: Seq<u8>)
    requires
        attrs.len() >= 4,
        4 + TCP_INFO_MIN_SIZE <= attrs[0] + 256 * attrs[1] <= attrs.len(),
        attrs[2] + 256 * attrs[3] == 2,
    ensures
        tcp_info_in(attrs) == Some(
            tcp_info_of(zero_filled(attrs.subrange(4, attrs[0] + 256 * attrs[1]))),
        ),
{
}

/// An attribute of another type is skipped: the search goes on at the next
/// attribute, four-byte aligned.
pub proof fn law_other_attribute_skipped(attrs: Seq<u8>)
    requires
        attrs.len() >= 4,
        4 <= attrs[0] + 256 * attrs[1],
        (attrs[0] + 256 * attrs[1] + 3) / 4 * 4 <= attrs.len(),
        attrs[2] + 256 * attrs[3] != 2,
    ensures
        tcp_info_in(attrs) == tcp_info_in(attrs.subrange(
            (attrs[0] + 256 * attrs[1] + 3) / 4 * 4,
            attrs.len() as int,
        )),
{
    let len = attrs[0] + 256 * attrs[1];
    let next = (len + 3) / 4 * 4;
    assert(align4(len as nat) == next);
    lemma_info_payload_shift(attrs, next, next);
}

/// Searching from `pos` of `buf` is searching from `pos - off` of `buf`
/// with its first `off` bytes cut off.
proof fn lemma_info_payload_shift(buf: Seq<u8>, off: int, pos: int)
    requires
        0 <= off <= pos <= buf.len(),
    ensures
        info_payload(buf, pos) == info_payload(buf.subrange(off, buf.len() as int), pos - off),
    decreases buf.len() - pos,
{
    let t = buf.subrange(off, buf.len() as int);
    if pos + 4 <= buf.len() {
        assert(le16(buf, pos) == le16(t, pos - off));
        assert(le16(buf, pos + 2) == le16(t, pos - off + 2));
        let len = le16(buf, pos);
        if len >= 4 && pos + len <= buf.len() {
            assert(buf.subrange(pos + 4, pos + len) =~= t.subrange(pos - off + 4, pos - off + len));
            if pos + align4(len) <= buf.len() {
                lemma_info_payload_shift(buf, off, pos + align4(len));
            }
        }
    }
}

/// The kernel's `tcp_info` fields reach the connection from the message
/// bytes: with a full-length `INET_DIAG_INFO` attribute right after the
/// 72-byte `inet_diag_msg`, the connection's lost count is the
/// little-endian `u32` at byte 32 of the attribute's payload, its unacked
/// count the one at byte 24, its RTT the one at byte 68 and its RTO the one
/// at byte 8.
#[verifier::rlimit(40)]
pub proof fn law_metrics_from_message_bytes(c: ConnInfo, data: Seq<u8>, family: u8)
    requires
        conn_from_payload(c, data, family),
        data.len() >= DIAG_MSG_LEN + 4 + TCP_INFO_LEN,
        4 + TCP_INFO_LEN <= data[72] + 256 * data[73] <= data.len() - 72,
        data[74] + 256 * data[75] == 2,
    ensures
        c.lost == bytes_u32(data, 108),
        c.unacked == bytes_u32(data, 100),
        c.rtt_us == bytes_u32(data, 144),
        c.rto_us == bytes_u32(data, 84),
        c.total_retrans == bytes_u32(data, 176),
        c.segs_out == bytes_u32(data, 212),
{
    let attrs = data.subrange(DIAG_MSG_LEN as int, data.len() as int);
    let len = attrs[0] + 256 * attrs[1];
    let p = attrs.subrange(4, len);
    assert(tcp_info_in(attrs) == Some(tcp_info_of(p))) by {
        law_first_info_attribute(attrs);
        law_zero_fill(p);
    }
    let t = tcp_info_of(p);
    assert(metrics_from(c, t));
    assert(t.lost == bytes_u32(p, 32) && t.unacked == bytes_u32(p, 24) && t.rtt == bytes_u32(p, 68)
        && t.rto == bytes_u32(p, 8) && t.total_retrans == bytes_u32(p, 100) && t.segs_out
        == bytes_u32(p, 136)) by {
        law_tcp_info_layout(p);
    }
    assert forall|k: int| 0 <= k < p.len() implies p[k] == data[76 + k] by {}
    assert(bytes_u32(p, 32) == bytes_u32(data, 108));
    assert(bytes_u32(p, 24) == bytes_u32(data, 100));
    assert(bytes_u32(p, 68) == bytes_u32(data, 144));
    assert(bytes_u32(p, 8) == bytes_u32(data, 84));
    assert(bytes_u32(p, 100) == bytes_u32(data, 176));
    assert(bytes_u32(p, 136) == bytes_u32(data, 212));
}

// ── Digits ───────────────────────────────────────────────────────────────────

/// Value of a decimal or lower-case hexadecimal digit character (-1 for any
/// other character).
pub open spec fn digit_value(c: char) -> int {
    if '0' <= c <= '9' {
        c as int - 48
    } else if 'a' <= c <= 'f' {
        c as int - 87
    } else {
        -1
    }
}

/// The number that the digit text `s` denotes in base `base`.
pub open spec fn text_value(s: Seq<char>, base: int) -> int
    decreases s.len(),
{
    if s.len() == 0 {
        0
    } else {
        text_value(s.drop_last(), base) * base + digit_value(s.last())
    }
}

/// Decimal text reads back as the number it was made from, uses only the
/// digits `0`–`9`, and starts with `0` only for zero itself.
pub proof fn law_decimal_text(n: nat)
    ensures
        dec(n).len() >= 1,
        forall|i: int| 0 <= i < dec(n).len() ==> '0' <= #[trigger] dec(n)[i] <= '9',
        text_value(dec(n), 10) == n,
        (dec(n)[0] == '0') == (n == 0),
    decreases n,
{
    assert(dec(n).last() as int == n % 10 + 48);
    assert(digit_value(dec(n).last()) == n % 10);
    assert(text_value(dec(n), 10) == text_value(dec(n).drop_last(), 10) * 10 + n % 10);
    if n < 10 {
        assert(dec(n).drop_last() =~= Seq::<char>::empty());
    } else {
        law_decimal_text(n / 10);
        let d = dec(n / 10);
        assert(dec(n).drop_last() =~= d);
        assert(dec(n)[0] == d[0]);
        assert(n == (n / 10) * 10 + n % 10) by (nonlinear_arith);
        assert forall|i: int| 0 <= i < dec(n).len() implies '0' <= #[trigger] dec(n)[i] <= '9' by {
            if i < d.len() {
                assert(dec(n)[i] == d[i]);
            }
        }
    }
}

/// Hexadecimal text reads back as the number it was made from, uses only
/// the digits `0`–`9` and `a`–`f`, and starts with `0` only for zero itself.
pub proof fn law_hex_text(n: nat)
    ensures
        hex(n).len() >= 1,
        forall|i: int|
            0 <= i < hex(n).len() ==> ('0' <= #[trigger] hex(n)[i] <= '9' || 'a' <= hex(n)[i] <= 'f'),
        text_value(hex(n), 16) == n,
        (hex(n)[0] == '0') == (n == 0),
    decreases n,
{
    let m = n % 16;
    assert(hex(n).last() as int == (if m < 10 { m + 48 } else { m + 87 }));
    assert(digit_value(hex(n).last()) == m);
    assert(text_value(hex(n), 16) == text_value(hex(n).drop_last(), 16) * 16 + m);
    if n < 16 {
        assert(hex(n).drop_last() =~= Seq::<char>::empty());
    } else {
        law_hex_text(n / 16);
        let d = hex(n / 16);
        assert(hex(n).drop_last() =~= d);
        assert(hex(n)[0] == d[0]);
        assert(n == (n / 16) * 16 + n % 16) by (nonlinear_arith);
        assert forall|i: int| 0 <= i < hex(n).len() implies ('0' <= #[trigger] hex(n)[i] <= '9'
            || 'a' <= hex(n)[i] <= 'f') by {
            if i < d.len() {
                assert(hex(n)[i] == d[i]);
            }
        }
    }
}

// ── Cell text ────────────────────────────────────────────────────────────────

/// Milliseconds are shown with three decimals: the text is digits, a point
/// and exactly three more digits; the part before the point reads back as
/// the whole milliseconds and the three digits as the remaining
/// microseconds.
pub proof fn law_millis_text(us: nat)
    ensures
        millis(us).len() >= 5,
        millis(us)[millis(us).len() - 4] == '.',
        text_value(millis(us).take(millis(us).len() - 4), 10) == us / 1000,
        text_value(millis(us).skip(millis(us).len() - 3), 10) == us % 1000,
        forall|i: int|
            0 <= i < millis(us).len() && i != millis(us).len() - 4 ==> '0' <= #[trigger] millis(us)[i]
                <= '9',
{
    let q = us / 1000;
    let r = us % 1000;
    law_decimal_text(q);
    let m = millis(us);
    let d = dec(q);
    let f = three_digits(r);
    let n = m.len();
    assert(m.take(n - 4) =~= d);
    assert(m.skip(n - 3) =~= f);
    let (a, b, c) = (r / 100, (r / 10) % 10, r % 10);
    assert(f[0] as int == a + 48 && f[1] as int == b + 48 && f[2] as int == c + 48);
    assert(f.drop_last().drop_last().drop_last() =~= Seq::<char>::empty());
    assert(f.drop_last().drop_last().last() == f[0]);
    assert(f.drop_last().last() == f[1]);
    assert(a < 10 && b < 10 && c < 10);
    assert(digit_value(f[0]) == a && digit_value(f[1]) == b && digit_value(f[2]) == c);
    assert(text_value(f.drop_last().drop_last(), 10) == text_value(
        f.drop_last().drop_last().drop_last(),
        10,
    ) * 10 + digit_value(f[0]));
    assert(text_value(f.drop_last().drop_last(), 10) == a);
    assert(text_value(f.drop_last(), 10) == a * 10 + b);
    assert(text_value(f, 10) == (a * 10 + b) * 10 + c);
    assert((a * 10 + b) * 10 + c == r) by (nonlinear_arith)
        requires
            a == r / 100,
            b == (r / 10) % 10,
            c == r % 10,
            0 <= r < 1000,
    ;
    assert forall|i: int| 0 <= i < n && i != n - 4 implies '0' <= #[trigger] m[i] <= '9' by {
        if i < n - 4 {
            assert(m[i] == d[i]);
        } else {
            assert(m[i] == f[i - (n - 3)]);
        }
    }
}

/// Right-aligning keeps the text whole at the end and puts only spaces in
/// front, filling the field when the text is shorter than it.
pub proof fn law_pad_left(s: Seq<char>, width: nat)
    ensures
        pad_left(s, width).len() == (if s.len() >= width { s.len() } else { width }),
        pad_left(s, width).skip(pad_left(s, width).len() - s.len()) == s,
        forall|i: int| 0 <= i < pad_left(s, width).len() - s.len() ==> #[trigger] pad_left(s, width)[i] == ' ',
{
    let p = pad_left(s, width);
    assert(p.skip(p.len() - s.len()) =~= s);
}

} // verus!
