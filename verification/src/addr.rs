use vstd::prelude::*;

use crate::text::{dec, hex, push_char, push_decimal, push_hex};

verus! {

/// An IP address as its octets in network order.
#[derive(Debug, Clone, Copy, PartialEq, Eq)]
pub enum IpAddr {
    V4([u8; 4]),
    V6([u8; 16]),
}

// ── IPv4 ─────────────────────────────────────────────────────────────────────

/// Dotted-decimal text of four octets, `a.b.c.d`.
pub open spec fn dotted(b: Seq<u8>) -> Seq<char> {
    dec(b[0] as nat) + seq!['.'] + dec(b[1] as nat) + seq!['.'] + dec(b[2] as nat) + seq!['.']
        + dec(b[3] as nat)
}

/// An IPv4-mapped IPv6 address (`::ffff:a.b.c.d`, RFC 4291 section 2.5.5.2).
pub open spec fn is_v4_mapped(b: Seq<u8>) -> bool {
    &&& forall|i: int| 0 <= i < 10 ==> b[i] == 0
    &&& b[10] == 0xff
    &&& b[11] == 0xff
}

// ── IPv6 text (RFC 5952 style, as std prints it) ─────────────────────────────

/// The `k`-th 16-bit group of sixteen octets in network order.
pub open spec fn segment(b: Seq<u8>, k: int) -> nat {
    (256 * b[2 * k] + b[2 * k + 1]) as nat
}

/// The eight 16-bit groups of an IPv6 address.
pub open spec fn segments(b: Seq<u8>) -> Seq<nat> {
    Seq::new(8, |k: int| segment(b, k))
}

/// `s[start .. start + len]` are all zero.
pub open spec fn zero_run(s: Seq<nat>, start: int, len: int) -> bool {
    &&& 0 <= start
    &&& 0 <= len
    &&& start + len <= s.len()
    &&& forall|k: int| start <= k < start + len ==> s[k] == 0
}

/// `(start, len)` is the longest run of zero groups, and the first of the
/// longest ones.
pub open spec fn first_longest_zero_run(s: Seq<nat>, start: int, len: int) -> bool {
    &&& zero_run(s, start, len)
    &&& forall|i: int, l: int| zero_run(s, i, l) ==> l <= len
    &&& forall|i: int| len > 0 && zero_run(s, i, len) ==> start <= i
}

/// Groups in lower-case hexadecimal, separated by colons.
pub open spec fn hex_groups(s: Seq<nat>) -> Seq<char>
    decreases s.len(),
{
    if s.len() == 0 {
        Seq::empty()
    } else if s.len() == 1 {
        hex(s[0])
    } else {
        hex_groups(s.drop_last()) + seq![':'] + hex(s.last())
    }
}

/// The text of the groups `s`, with the zero run `(start, len)` replaced by
/// `::` when it spans more than one group.
pub open spec fn compressed(s: Seq<nat>, start: int, len: int) -> Seq<char> {
    if len > 1 {
        hex_groups(s.subrange(0, start)) + seq![':', ':'] + hex_groups(
            s.subrange(start + len, s.len() as int),
        )
    } else {
        hex_groups(s)
    }
}

/// Text of an IPv6 address that is not IPv4-mapped: the first longest run of
/// two or more zero groups is shortened to `::`.
pub open spec fn ipv6_text(b: Seq<u8>) -> Seq<char> {
    let s = segments(b);
    let run = choose|run: (int, int)| first_longest_zero_run(s, run.0, run.1);
    compressed(s, run.0, run.1)
}

/// Text of an address with a port: `a.b.c.d:port` for IPv4 and IPv4-mapped
/// addresses, `[v6]:port` otherwise.
pub open spec fn endpoint_text(ip: IpAddr, port: u16) -> Seq<char> {
    match ip {
        IpAddr::V4(a) => dotted(a@) + seq![':'] + dec(port as nat),
        IpAddr::V6(a) => if is_v4_mapped(a@) {
            dotted(a@.subrange(12, 16)) + seq![':'] + dec(port as nat)
        } else {
            seq!['['] + ipv6_text(a@) + seq![']', ':'] + dec(port as nat)
        },
    }
}

/// The compressed text does not depend on which first-longest run is chosen.
proof fn lemma_compressed_unique(s: Seq<nat>, st1: int, ln1: int, st2: int, ln2: int)
    requires
        first_longest_zero_run(s, st1, ln1),
        first_longest_zero_run(s, st2, ln2),
    ensures
        compressed(s, st1, ln1) == compressed(s, st2, ln2),
{
    assert(ln1 <= ln2);
    assert(ln2 <= ln1);
    if ln1 > 0 {
        assert(st1 <= st2);
        assert(st2 <= st1);
    }
}

/// Appends `hex_groups(segs[from..to])` to `out`.
fn push_hex_groups(out: &mut String, segs: &[u16; 8], from: usize, to: usize, Ghost(s): Ghost<Seq<nat>>)
    requires
        from <= to <= 8,
        s.len() == 8,
        forall|k: int| 0 <= k < 8 ==> segs@[k] as nat == s[k],
    ensures
        final(out)@ == old(out)@ + hex_groups(s.subrange(from as int, to as int)),
{
    let ghost start = out@;
    assert(s.subrange(from as int, from as int) =~= Seq::<nat>::empty());
    assert(out@ =~= start + hex_groups(s.subrange(from as int, from as int)));
    let mut k = from;
    while k < to
        invariant
            from <= k <= to <= 8,
            s.len() == 8,
            forall|j: int| 0 <= j < 8 ==> segs@[j] as nat == s[j],
            out@ == start + hex_groups(s.subrange(from as int, k as int)),
        decreases to - k,
    {
        let ghost before = out@;
        let ghost next = s.subrange(from as int, k + 1);
        assert(next.drop_last() =~= s.subrange(from as int, k as int));
        if k > from {
            push_char(out, ':');
        }
        push_hex(out, segs[k]);
        assert(next.last() == s[k as int]);
        if k == from {
            assert(next.len() == 1);
            assert(hex_groups(s.subrange(from as int, from as int)) =~= Seq::<char>::empty());
        }
        assert(out@ =~= start + hex_groups(next));
        k = k + 1;
    }
}

/// Appends the dotted-decimal text of four octets to `out`.
fn push_dotted(out: &mut String, a: u8, b: u8, c: u8, d: u8)
    ensures
        final(out)@ == old(out)@ + dotted(seq![a, b, c, d]),
{
    let ghost start = out@;
    push_decimal(out, a as u64);
    push_char(out, '.');
    push_decimal(out, b as u64);
    push_char(out, '.');
    push_decimal(out, c as u64);
    push_char(out, '.');
    push_decimal(out, d as u64);
    assert(out@ =~= start + dotted(seq![a, b, c, d]));
}

/// Finds the first longest run of zero groups.
fn longest_zero_run(segs: &[u16; 8], Ghost(s): Ghost<Seq<nat>>) -> (run: (usize, usize))
    requires
        s.len() == 8,
        forall|k: int| 0 <= k < 8 ==> segs@[k] as nat == s[k],
    ensures
        first_longest_zero_run(s, run.0 as int, run.1 as int),
{
    let mut best_start: usize = 0;
    let mut best_len: usize = 0;
    let mut cur_start: usize = 0;
    let mut cur_len: usize = 0;
    let mut i: usize = 0;
    while i < 8
        invariant
            i <= 8,
            s.len() == 8,
            forall|k: int| 0 <= k < 8 ==> segs@[k] as nat == s[k],
            cur_start + cur_len == i,
            zero_run(s, cur_start as int, cur_len as int),
            cur_start > 0 ==> s[cur_start - 1] != 0,
            cur_len <= best_len,
            zero_run(s, best_start as int, best_len as int),
            best_start + best_len <= i,
            forall|a: int, l: int| zero_run(s, a, l) && a + l <= i ==> l <= best_len,
            forall|a: int| best_len > 0 && zero_run(s, a, best_len as int) && a + best_len <= i
                ==> best_start <= a,
        decreases 8 - i,
    {
        let ghost old_best_start = best_start;
        let ghost old_best_len = best_len;
        let ghost old_cur_start = cur_start;
        let ghost old_cur_len = cur_len;
        if segs[i] == 0 {
            if cur_len == 0 {
                cur_start = i;
            }
            cur_len = cur_len + 1;
            if cur_len > best_len {
                best_start = cur_start;
                best_len = cur_len;
            }
        } else {
            cur_start = i + 1;
            cur_len = 0;
        }
        assert forall|a: int, l: int| zero_run(s, a, l) && a + l <= i + 1 implies l <= best_len by {
            if a + l == i + 1 && l > 0 {
                assert(s[i as int] == 0);
                if a < cur_start {
                    assert(s[cur_start - 1] == 0);
                }
            }
        }
        assert forall|a: int|
            best_len > 0 && zero_run(s, a, best_len as int) && a + best_len <= i + 1 implies best_start
            <= a by {
            if a + best_len == i + 1 {
                assert(s[i as int] == 0);
                if a < cur_start {
                    assert(s[cur_start - 1] == 0);
                }
                if best_len == old_best_len {
                    assert(best_len as int <= cur_len);
                }
            }
        }
        i = i + 1;
    }
    (best_start, best_len)
}

/// Appends the text of an IPv6 address that is not IPv4-mapped.
fn push_ipv6(out: &mut String, o: &[u8; 16])
    ensures
        final(out)@ == old(out)@ + ipv6_text(o@),
{
    let ghost s = segments(o@);
    let segs: [u16; 8] = [
        o[0] as u16 * 256 + o[1] as u16,
        o[2] as u16 * 256 + o[3] as u16,
        o[4] as u16 * 256 + o[5] as u16,
        o[6] as u16 * 256 + o[7] as u16,
        o[8] as u16 * 256 + o[9] as u16,
        o[10] as u16 * 256 + o[11] as u16,
        o[12] as u16 * 256 + o[13] as u16,
        o[14] as u16 * 256 + o[15] as u16,
    ];
    assert forall|k: int| 0 <= k < 8 implies segs@[k] as nat == s[k] by {}
    let (start, len) = longest_zero_run(&segs, Ghost(s));
    let ghost start_out = out@;
    if len > 1 {
        push_hex_groups(out, &segs, 0, start, Ghost(s));
        push_char(out, ':');
        push_char(out, ':');
        push_hex_groups(out, &segs, start + len, 8, Ghost(s));
    } else {
        push_hex_groups(out, &segs, 0, 8, Ghost(s));
        assert(s.subrange(0, 8) =~= s);
    }
    assert(out@ =~= start_out + compressed(s, start as int, len as int));
    proof {
        let run = choose|run: (int, int)| first_longest_zero_run(s, run.0, run.1);
        assert(first_longest_zero_run(s, start as int, len as int));
        lemma_compressed_unique(s, run.0, run.1, start as int, len as int);
    }
}

/// The address held in the four words of a socket id: the first four octets
/// for IPv4, all sixteen otherwise.
pub fn decode_addr(family: u8, raw: &[u8; 16]) -> (ip: IpAddr)
    ensures
        match ip {
            IpAddr::V4(a) => family == crate::wire::AF_INET && a@ == raw@.subrange(0, 4),
            IpAddr::V6(a) => family != crate::wire::AF_INET && a@ == raw@,
        },
{
    if family == crate::wire::AF_INET {
        let a = [raw[0], raw[1], raw[2], raw[3]];
        assert(a@ =~= raw@.subrange(0, 4));
        IpAddr::V4(a)
    } else {
        IpAddr::V6(*raw)
    }
}

/// `address:port`, with IPv4-mapped IPv6 addresses shown as IPv4 and other
/// IPv6 addresses in brackets.
pub fn format_addr(ip: &IpAddr, port: u16) -> (s: String)
    ensures
        s@ == endpoint_text(*ip, port),
{
    let mut s = String::new();
    match ip {
        IpAddr::V4(a) => {
            push_dotted(&mut s, a[0], a[1], a[2], a[3]);
            assert(seq![a[0], a[1], a[2], a[3]] =~= a@);
        },
        IpAddr::V6(a) => {
            let mapped = a[0] == 0 && a[1] == 0 && a[2] == 0 && a[3] == 0 && a[4] == 0 && a[5] == 0
                && a[6] == 0 && a[7] == 0 && a[8] == 0 && a[9] == 0 && a[10] == 0xff && a[11]
                == 0xff;
            if mapped {
                push_dotted(&mut s, a[12], a[13], a[14], a[15]);
                assert(seq![a[12], a[13], a[14], a[15]] =~= a@.subrange(12, 16));
            } else {
                assert(!is_v4_mapped(a@));
                push_char(&mut s, '[');
                push_ipv6(&mut s, a);
                push_char(&mut s, ']');
            }
        },
    }
    push_char(&mut s, ':');
    push_decimal(&mut s, port as u64);
    s
}

} // verus!
