use vstd::prelude::*;
use vstd::utf8::encode_utf8;

use crate::conn::{state_label, ConnInfo};

verus! {

/// Column by which the table is sorted.
#[derive(Debug, Clone, Copy, PartialEq, Eq, Structural)]
pub enum SortColumn {
    Health,
    Src,
    Dst,
    State,
    Rtt,
    Jitter,
    Retrans,
    Loss,
    Rate,
    Cwnd,
}

/// The column after `c` in the cycle Health, Source, Destination, State,
/// RTT, Jitter, Retrans, Loss, Rate, CWND, and back to Health.
pub open spec fn next_column(c: SortColumn) -> SortColumn {
    match c {
        SortColumn::Health => SortColumn::Src,
        SortColumn::Src => SortColumn::Dst,
        SortColumn::Dst => SortColumn::State,
        SortColumn::State => SortColumn::Rtt,
        SortColumn::Rtt => SortColumn::Jitter,
        SortColumn::Jitter => SortColumn::Retrans,
        SortColumn::Retrans => SortColumn::Loss,
        SortColumn::Loss => SortColumn::Rate,
        SortColumn::Rate => SortColumn::Cwnd,
        SortColumn::Cwnd => SortColumn::Health,
    }
}

/// Header label of a column.
pub open spec fn column_label(c: SortColumn) -> Seq<char> {
    match c {
        SortColumn::Health => "Health"@,
        SortColumn::Src => "Source"@,
        SortColumn::Dst => "Destination"@,
        SortColumn::State => "State"@,
        SortColumn::Rtt => "RTT"@,
        SortColumn::Jitter => "Jitter"@,
        SortColumn::Retrans => "Retrans"@,
        SortColumn::Loss => "Loss%"@,
        SortColumn::Rate => "Rate"@,
        SortColumn::Cwnd => "CWND"@,
    }
}

impl SortColumn {
    pub fn next(&self) -> (n: SortColumn)
        ensures n == next_column(*self),
    {
        match self {
            SortColumn::Health => SortColumn::Src,
            SortColumn::Src => SortColumn::Dst,
            SortColumn::Dst => SortColumn::State,
            SortColumn::State => SortColumn::Rtt,
            SortColumn::Rtt => SortColumn::Jitter,
            SortColumn::Jitter => SortColumn::Retrans,
            SortColumn::Retrans => SortColumn::Loss,
            SortColumn::Loss => SortColumn::Rate,
            SortColumn::Rate => SortColumn::Cwnd,
            SortColumn::Cwnd => SortColumn::Health,
        }
    }

    pub fn label(&self) -> (l: &'static str)
        ensures l@ == column_label(*self),
    {
        match self {
            SortColumn::Health => "Health",
            SortColumn::Src => "Source",
            SortColumn::Dst => "Destination",
            SortColumn::State => "State",
            SortColumn::Rtt => "RTT",
            SortColumn::Jitter => "Jitter",
            SortColumn::Retrans => "Retrans",
            SortColumn::Loss => "Loss%",
            SortColumn::Rate => "Rate",
            SortColumn::Cwnd => "CWND",
        }
    }
}

// ── Comparisons ──────────────────────────────────────────────────────────────

/// Three-way comparison of integers: -1, 0 or 1.
pub open spec fn num_order(x: int, y: int) -> int {
    if x < y {
        -1
    } else if x > y {
        1
    } else {
        0
    }
}

/// Lexicographic three-way comparison of byte strings (the order of `str`).
pub open spec fn lex_order(a: Seq<u8>, b: Seq<u8>) -> int
    decreases a.len(),
{
    if a.len() == 0 {
        if b.len() == 0 {
            0
        } else {
            -1
        }
    } else if b.len() == 0 {
        1
    } else if a[0] < b[0] {
        -1
    } else if a[0] > b[0] {
        1
    } else {
        lex_order(a.drop_first(), b.drop_first())
    }
}

/// Bytes of the UTF-8 encoding of a string.
pub open spec fn utf8(s: Seq<char>) -> Seq<u8> {
    encode_utf8(s)
}

/// How two connections compare in column `col`.
pub open spec fn col_order(col: SortColumn, a: ConnInfo, b: ConnInfo) -> int {
    match col {
        SortColumn::Health => num_order(a.overall_grade().rank() as int, b.overall_grade().rank() as int),
        SortColumn::Src => lex_order(utf8(a.src@), utf8(b.src@)),
        SortColumn::Dst => lex_order(utf8(a.dst@), utf8(b.dst@)),
        SortColumn::State => lex_order(utf8(state_label(a.state)), utf8(state_label(b.state))),
        SortColumn::Rtt => num_order(a.rtt_us as int, b.rtt_us as int),
        SortColumn::Jitter => num_order(a.rttvar_us as int, b.rttvar_us as int),
        SortColumn::Retrans => num_order(a.total_retrans as int, b.total_retrans as int),
        SortColumn::Loss => num_order(a.lost as int, b.lost as int),
        SortColumn::Rate => num_order(a.delivery_rate_bps as int, b.delivery_rate_bps as int),
        SortColumn::Cwnd => num_order(a.cwnd as int, b.cwnd as int),
    }
}

/// `a` is listed strictly before `b` when sorting by `col`, ascending or
/// descending.
pub open spec fn goes_before(col: SortColumn, asc: bool, a: ConnInfo, b: ConnInfo) -> bool {
    if asc {
        col_order(col, a, b) < 0
    } else {
        col_order(col, a, b) > 0
    }
}

/// No connection of `s` should go before one listed earlier.
pub open spec fn sorted_by_column(col: SortColumn, asc: bool, s: Seq<ConnInfo>) -> bool {
    forall|i: int, j: int| 0 <= i < j < s.len() ==> !goes_before(col, asc, #[trigger] s[j], #[trigger] s[i])
}

pub proof fn lemma_lex_antisymmetric(a: Seq<u8>, b: Seq<u8>)
    ensures
        lex_order(a, b) == -lex_order(b, a),
        -1 <= lex_order(a, b) <= 1,
    decreases a.len(),
{
    if a.len() > 0 && b.len() > 0 && a[0] == b[0] {
        lemma_lex_antisymmetric(a.drop_first(), b.drop_first());
    }
}

pub proof fn lemma_lex_transitive(a: Seq<u8>, b: Seq<u8>, c: Seq<u8>)
    requires
        lex_order(a, b) < 0,
        lex_order(b, c) < 0,
    ensures
        lex_order(a, c) < 0,
    decreases a.len(),
{
    if a.len() > 0 && b.len() > 0 && c.len() > 0 && a[0] == b[0] && b[0] == c[0] {
        lemma_lex_transitive(a.drop_first(), b.drop_first(), c.drop_first());
    }
}

proof fn lemma_num_order(x: int, y: int, z: int)
    ensures
        num_order(x, y) == -num_order(y, x),
        num_order(x, y) < 0 && num_order(y, z) < 0 ==> num_order(x, z) < 0,
{
}

proof fn lemma_lex_order(x: Seq<u8>, y: Seq<u8>, z: Seq<u8>)
    ensures
        lex_order(x, y) == -lex_order(y, x),
        lex_order(x, y) < 0 && lex_order(y, z) < 0 ==> lex_order(x, z) < 0,
{
    lemma_lex_antisymmetric(x, y);
    if lex_order(x, y) < 0 && lex_order(y, z) < 0 {
        lemma_lex_transitive(x, y, z);
    }
}

/// The comparison of a column is antisymmetric and transitive.
pub proof fn lemma_col_order(col: SortColumn, a: ConnInfo, b: ConnInfo, c: ConnInfo)
    ensures
        col_order(col, a, b) == -col_order(col, b, a),
        col_order(col, a, b) < 0 && col_order(col, b, c) < 0 ==> col_order(col, a, c) < 0,
{
    match col {
        SortColumn::Health => {
            let (x, y, z) = (
                a.overall_grade().rank() as int,
                b.overall_grade().rank() as int,
                c.overall_grade().rank() as int,
            );
            lemma_num_order(x, y, z);
        },
        SortColumn::Src => lemma_lex_order(utf8(a.src@), utf8(b.src@), utf8(c.src@)),
        SortColumn::Dst => lemma_lex_order(utf8(a.dst@), utf8(b.dst@), utf8(c.dst@)),
        SortColumn::State => lemma_lex_order(
            utf8(state_label(a.state)),
            utf8(state_label(b.state)),
            utf8(state_label(c.state)),
        ),
        _ => {},
    }
}

/// Sorting by a column orders connections strictly and consistently.
pub proof fn lemma_goes_before_order(col: SortColumn, asc: bool, a: ConnInfo, b: ConnInfo, c: ConnInfo)
    ensures
        goes_before(col, asc, a, b) ==> !goes_before(col, asc, b, a),
        goes_before(col, asc, a, b) && goes_before(col, asc, b, c) ==> goes_before(col, asc, a, c),
{
    lemma_col_order(col, a, b, c);
    lemma_col_order(col, c, b, a);
    lemma_col_order(col, a, c, b);
}

/// The connections that tie with `x` in column `col`.
pub open spec fn ties(col: SortColumn, x: ConnInfo) -> spec_fn(ConnInfo) -> bool {
    |c: ConnInfo| col_order(col, c, x) == 0
}

/// Connections that tie in column `col` appear in `output` in the order they
/// have in `input`.
pub open spec fn stable_for(col: SortColumn, input: Seq<ConnInfo>, output: Seq<ConnInfo>) -> bool {
    forall|x: ConnInfo| #[trigger] output.filter(ties(col, x)) == input.filter(ties(col, x))
}

pub proof fn lemma_lex_zero(a: Seq<u8>, b: Seq<u8>)
    requires
        lex_order(a, b) == 0,
    ensures
        a == b,
    decreases a.len(),
{
    if a.len() > 0 {
        lemma_lex_zero(a.drop_first(), b.drop_first());
        assert(a =~= seq![a[0]] + a.drop_first());
        assert(b =~= seq![b[0]] + b.drop_first());
    } else {
        assert(a =~= b);
    }
}

/// Connections that tie compare alike with every other connection.
pub proof fn lemma_tie_substitutes(col: SortColumn, a: ConnInfo, b: ConnInfo, c: ConnInfo)
    requires
        col_order(col, a, b) == 0,
    ensures
        col_order(col, a, c) == col_order(col, b, c),
        col_order(col, c, a) == col_order(col, c, b),
{
    match col {
        SortColumn::Src => lemma_lex_zero(utf8(a.src@), utf8(b.src@)),
        SortColumn::Dst => lemma_lex_zero(utf8(a.dst@), utf8(b.dst@)),
        SortColumn::State => lemma_lex_zero(utf8(state_label(a.state)), utf8(state_label(b.state))),
        _ => {},
    }
}

proof fn lemma_filter_none(s: Seq<ConnInfo>, pred: spec_fn(ConnInfo) -> bool)
    requires
        forall|k: int| 0 <= k < s.len() ==> !pred(#[trigger] s[k]),
    ensures
        s.filter(pred) == Seq::<ConnInfo>::empty(),
    decreases s.len(),
{
    reveal_with_fuel(Seq::filter, 1);
    if s.len() > 0 {
        lemma_filter_none(s.drop_last(), pred);
    }
}

/// Filtering after inserting `x` at `p`: `x` is added at the end of the
/// filtered sequence when it passes and no later element does.
proof fn lemma_filter_insert(s: Seq<ConnInfo>, p: int, x: ConnInfo, pred: spec_fn(ConnInfo) -> bool)
    requires
        0 <= p <= s.len(),
        pred(x) ==> forall|k: int| p <= k < s.len() ==> !pred(#[trigger] s[k]),
    ensures
        s.insert(p, x).filter(pred) == (if pred(x) { s.filter(pred).push(x) } else { s.filter(pred) }),
{
    reveal_with_fuel(Seq::filter, 2);
    let l = s.subrange(0, p);
    let r = s.subrange(p, s.len() as int);
    assert(s =~= l + r);
    assert(s.insert(p, x) =~= (l + seq![x]) + r);
    Seq::filter_distributes_over_add(l, r, pred);
    Seq::filter_distributes_over_add(l + seq![x], r, pred);
    Seq::filter_distributes_over_add(l, seq![x], pred);
    assert(seq![x].drop_last() =~= Seq::<ConnInfo>::empty());
    if pred(x) {
        assert forall|k: int| 0 <= k < r.len() implies !pred(#[trigger] r[k]) by {
            assert(r[k] == s[p + k]);
        }
        lemma_filter_none(r, pred);
        assert(seq![x].filter(pred) =~= seq![x]);
        assert(l.filter(pred) + seq![x] =~= l.filter(pred).push(x));
        assert(l.filter(pred) + r.filter(pred) =~= l.filter(pred));
    } else {
        assert(seq![x].filter(pred) =~= Seq::<ConnInfo>::empty());
        assert(l.filter(pred) + Seq::<ConnInfo>::empty() =~= l.filter(pred));
    }
}

/// Lexicographic comparison of two byte strings.
pub fn compare_bytes(a: &[u8], b: &[u8]) -> (r: i8)
    ensures
        r == lex_order(a@, b@),
{
    let na = a.len();
    let nb = b.len();
    let mut i: usize = 0;
    assert(a@.skip(0) =~= a@);
    assert(b@.skip(0) =~= b@);
    while i < na && i < nb
        invariant
            na == a@.len(),
            nb == b@.len(),
            i <= na,
            i <= nb,
            lex_order(a@, b@) == lex_order(a@.skip(i as int), b@.skip(i as int)),
        decreases na - i,
    {
        assert(a@.skip(i as int)[0] == a@[i as int]);
        assert(b@.skip(i as int)[0] == b@[i as int]);
        if a[i] < b[i] {
            return -1;
        }
        if a[i] > b[i] {
            return 1;
        }
        assert(a@.skip(i as int).drop_first() =~= a@.skip(i + 1));
        assert(b@.skip(i as int).drop_first() =~= b@.skip(i + 1));
        i = i + 1;
    }
    if i < nb {
        -1
    } else if i < na {
        1
    } else {
        0
    }
}

fn num_compare(x: u64, y: u64) -> (r: i8)
    ensures
        r == num_order(x as int, y as int),
{
    if x < y {
        -1
    } else if x > y {
        1
    } else {
        0
    }
}

/// How two connections compare in column `col`.
pub fn compare_by(col: SortColumn, a: &ConnInfo, b: &ConnInfo) -> (r: i8)
    ensures
        r == col_order(col, *a, *b),
{
    match col {
        SortColumn::Health => num_compare(
            a.overall_health().rank_of() as u64,
            b.overall_health().rank_of() as u64,
        ),
        SortColumn::Src => compare_bytes(a.src.as_str().as_bytes(), b.src.as_str().as_bytes()),
        SortColumn::Dst => compare_bytes(a.dst.as_str().as_bytes(), b.dst.as_str().as_bytes()),
        SortColumn::State => compare_bytes(a.state.short().as_bytes(), b.state.short().as_bytes()),
        SortColumn::Rtt => num_compare(a.rtt_us as u64, b.rtt_us as u64),
        SortColumn::Jitter => num_compare(a.rttvar_us as u64, b.rttvar_us as u64),
        SortColumn::Retrans => num_compare(a.total_retrans as u64, b.total_retrans as u64),
        SortColumn::Loss => num_compare(a.lost as u64, b.lost as u64),
        SortColumn::Rate => num_compare(a.delivery_rate_bps, b.delivery_rate_bps),
        SortColumn::Cwnd => num_compare(a.cwnd as u64, b.cwnd as u64),
    }
}

proof fn lemma_insert_multiset(s: Seq<ConnInfo>, p: int, x: ConnInfo)
    requires
        0 <= p <= s.len(),
    ensures
        s.insert(p, x).to_multiset() == s.to_multiset().insert(x),
{
    broadcast use vstd::seq_lib::group_to_multiset_ensures;

    let l = s.subrange(0, p);
    let r = s.subrange(p, s.len() as int);
    assert(s =~= l + r);
    assert(s.insert(p, x) =~= l.push(x) + r);
    vstd::seq_lib::lemma_multiset_commutative(l, r);
    vstd::seq_lib::lemma_multiset_commutative(l.push(x), r);
}

/// Sorts connections by `col`, ascending when `asc`, keeping every one of
/// them; connections that tie keep their relative order. The three clauses
/// together determine the result (see `laws::law_sort_determined`).
pub fn sort_conns(v: Vec<ConnInfo>, col: SortColumn, asc: bool) -> (r: Vec<ConnInfo>)
    ensures
        r@.to_multiset() == v@.to_multiset(),
        sorted_by_column(col, asc, r@),
        stable_for(col, v@, r@),
{
    broadcast use vstd::seq_lib::group_to_multiset_ensures;

    let mut res: Vec<ConnInfo> = Vec::new();
    let n = v.len();
    let mut i: usize = 0;
    assert(v@.subrange(0, 0) =~= Seq::<ConnInfo>::empty());
    proof {
        reveal_with_fuel(Seq::filter, 1);
    }
    while i < n
        invariant
            n == v@.len(),
            i <= n,
            res@.to_multiset() == v@.subrange(0, i as int).to_multiset(),
            sorted_by_column(col, asc, res@),
            stable_for(col, v@.subrange(0, i as int), res@),
        decreases n - i,
    {
        let x = v[i].duplicate();
        let m = res.len();
        let mut p: usize = 0;
        while p < m && !before(col, asc, &x, &res[p])
            invariant
                m == res@.len(),
                p <= m,
                forall|k: int| 0 <= k < p ==> !goes_before(col, asc, x, #[trigger] res@[k]),
            decreases m - p,
        {
            p = p + 1;
        }
        let ghost old_res = res@;
        proof {
            lemma_insert_multiset(old_res, p as int, x);
            assert(v@.subrange(0, i + 1) =~= v@.subrange(0, i as int).push(v@[i as int]));
            assert(x == v@[i as int]);
            vstd::seq_lib::to_multiset_build(v@.subrange(0, i as int), x);
            assert forall|y: ConnInfo|
                #[trigger] old_res.insert(p as int, x).filter(ties(col, y)) == v@.subrange(
                    0,
                    i + 1,
                ).filter(ties(col, y)) by {
                let pred = ties(col, y);
                reveal_with_fuel(Seq::filter, 1);
                assert(v@.subrange(0, i + 1).drop_last() =~= v@.subrange(0, i as int));
                if pred(x) {
                    assert forall|k: int| p <= k < old_res.len() implies !pred(
                        #[trigger] old_res[k],
                    ) by {
                        if pred(old_res[k]) {
                            lemma_tie_substitutes(col, x, y, old_res[k]);
                            lemma_col_order(col, old_res[k], y, x);
                            lemma_tie_substitutes(col, old_res[k], x, old_res[p as int]);
                            lemma_col_order(col, x, old_res[p as int], x);
                            lemma_col_order(col, old_res[k], old_res[p as int], x);
                            if k > p {
                                assert(!goes_before(col, asc, old_res[k], old_res[p as int]));
                            }
                        }
                    }
                }
                lemma_filter_insert(old_res, p as int, x, pred);
            }
            assert forall|a: int, b: int| 0 <= a < b < old_res.len() + 1 implies !goes_before(
                col,
                asc,
                #[trigger] old_res.insert(p as int, x)[b],
                #[trigger] old_res.insert(p as int, x)[a],
            ) by {
                let s = old_res.insert(p as int, x);
                if b < p {
                } else if b == p {
                } else if a < p {
                    // a before x's slot, b after it: both are in the old order
                } else if a == p {
                    // s[a] == x, s[b] == old_res[b - 1] with b - 1 >= p
                    if goes_before(col, asc, old_res[b - 1], x) {
                        lemma_goes_before_order(col, asc, old_res[b - 1], x, old_res[p as int]);
                        if b - 1 == p {
                        } else {
                            assert(!goes_before(col, asc, old_res[b - 1], old_res[p as int]));
                        }
                    }
                } else {
                }
            }
        }
        res.insert(p, x);
        i = i + 1;
    }
    assert(v@.subrange(0, n as int) =~= v@);
    res
}

/// Whether `a` goes strictly before `b`.
fn before(col: SortColumn, asc: bool, a: &ConnInfo, b: &ConnInfo) -> (r: bool)
    ensures
        r == goes_before(col, asc, *a, *b),
{
    let c = compare_by(col, a, b);
    if asc {
        c < 0
    } else {
        c > 0
    }
}

} // verus!
