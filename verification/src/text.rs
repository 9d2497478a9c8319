use vstd::prelude::*;
use vstd::utf8::is_ascii_chars;

verus! {

// ── Digits ───────────────────────────────────────────────────────────────────

/// The ASCII digit for `d < 10`.
pub open spec fn digit_char(d: nat) -> char {
    (d + 48) as char
}

/// The lower-case hexadecimal digit for `d < 16`.
pub open spec fn hex_digit_char(d: nat) -> char {
    if d < 10 {
        (d + 48) as char
    } else {
        (d + 87) as char
    }
}

/// Decimal text of `n`, without leading zeros (`"0"` for zero).
pub open spec fn dec(n: nat) -> Seq<char>
    decreases n,
{
    if n < 10 {
        seq![digit_char(n)]
    } else {
        dec(n / 10).push(digit_char(n % 10))
    }
}

/// Lower-case hexadecimal text of `n`, without leading zeros.
pub open spec fn hex(n: nat) -> Seq<char>
    decreases n,
{
    if n < 16 {
        seq![hex_digit_char(n)]
    } else {
        hex(n / 16).push(hex_digit_char(n % 16))
    }
}

// ── Growing a string ─────────────────────────────────────────────────────────

/// Appends one character to `s` (std's `String::push`, whose documentation
/// says it appends the given char to the end of the string).
#[verifier::external_body]
pub(crate) fn push_char(s: &mut String, c: char)
    ensures
        final(s)@ == old(s)@.push(c),
{
    s.push(c);
}

/// Removes the last character of `s` (std's `String::pop`, documented to
/// return `None` when the string is empty and the removed character otherwise).
#[verifier::external_body]
pub(crate) fn pop_char(s: &mut String) -> (r: Option<char>)
    ensures
        old(s)@.len() == 0 ==> r is None && final(s)@ == old(s)@,
        old(s)@.len() > 0 ==> r == Some(old(s)@.last()) && final(s)@ == old(s)@.drop_last(),
{
    s.pop()
}

/// Appends the decimal text of `n` to `out`.
pub fn push_decimal(out: &mut String, n: u64)
    ensures
        final(out)@ == old(out)@ + dec(n as nat),
    decreases n,
{
    let ghost start = out@;
    if n >= 10 {
        push_decimal(out, n / 10);
    }
    let d = (n % 10) as u8;
    push_char(out, (d + 48) as char);
    assert(out@ =~= start + dec(n as nat));
}

/// Appends the lower-case hexadecimal text of `n` to `out`.
pub fn push_hex(out: &mut String, n: u16)
    ensures
        final(out)@ == old(out)@ + hex(n as nat),
    decreases n,
{
    let ghost start = out@;
    if n >= 16 {
        push_hex(out, n / 16);
    }
    let d = (n % 16) as u8;
    if d < 10 {
        push_char(out, (d + 48) as char);
    } else {
        push_char(out, (d + 87) as char);
    }
    assert(out@ =~= start + hex(n as nat));
}

/// Appends every character of `s` to `out`.
pub fn push_str(out: &mut String, s: &str)
    ensures
        final(out)@ == old(out)@ + s@,
{
    out.append(s);
}

// ── Lower-casing ─────────────────────────────────────────────────────────────

/// What `str::to_lowercase` returns for a string with the characters `s`.
pub uninterp spec fn lowercase(s: Seq<char>) -> Seq<char>;

/// One character lower-cased by the ASCII rule: `A`–`Z` become `a`–`z`,
/// every other character stays.
pub open spec fn ascii_lower_char(c: char) -> char {
    if 'A' <= c <= 'Z' {
        ((c as u32) + 32) as char
    } else {
        c
    }
}

/// Every character of `s` lower-cased by the ASCII rule.
pub open spec fn ascii_lower(s: Seq<char>) -> Seq<char> {
    Seq::new(s.len(), |i: int| ascii_lower_char(s[i]))
}

/// The lower-cased text of `s` as `str::to_lowercase` gives it: for ASCII
/// text the ASCII rule, for other text the named result.
pub open spec fn lower(s: Seq<char>) -> Seq<char> {
    if is_ascii_chars(s) {
        ascii_lower(s)
    } else {
        lowercase(s)
    }
}

/// Lower-cases `s` with std's `str::to_lowercase` (Unicode `Lowercase`
/// mapping). The contract names the result and claims of it only that it is
/// a function of the characters of `s`, that the empty string stays empty,
/// and that ASCII text is lower-cased character by character (`A`–`Z` to
/// `a`–`z`, the rest unchanged). What the mapping does to other characters
/// is left unsaid.
#[verifier::external_body]
pub(crate) fn to_lowercase(s: &str) -> (r: String)
    ensures
        r@ == lowercase(s@),
        s@.len() == 0 ==> r@ == Seq::<char>::empty(),
        is_ascii_chars(s@) ==> r@ == ascii_lower(s@),
{
    s.to_lowercase()
}

// ── Byte-level substring search ──────────────────────────────────────────────

/// `pat` occurs in `hay` at position `i`.
pub open spec fn occurs_at(hay: Seq<u8>, pat: Seq<u8>, i: int) -> bool {
    0 <= i && i + pat.len() <= hay.len() && hay.subrange(i, i + pat.len()) == pat
}

/// `pat` occurs somewhere in `hay` (the empty pattern occurs everywhere).
pub open spec fn contains_bytes(hay: Seq<u8>, pat: Seq<u8>) -> bool {
    exists|i: int| occurs_at(hay, pat, i)
}

/// Whether the bytes `pat` occur in the bytes `hay`.
pub fn find_bytes(hay: &[u8], pat: &[u8]) -> (found: bool)
    ensures
        found == contains_bytes(hay@, pat@),
{
    if pat.len() > hay.len() {
        assert forall|i: int| !occurs_at(hay@, pat@, i) by {}
        return false;
    }
    if pat.len() == 0 {
        assert(hay@.subrange(0, 0) =~= pat@);
        assert(occurs_at(hay@, pat@, 0));
        return true;
    }
    let hay_len = hay.len();
    let last = hay_len - pat.len();
    let mut i: usize = 0;
    while i <= last
        invariant
            last == hay@.len() - pat@.len(),
            hay_len == hay@.len(),
            1 <= pat@.len() <= hay@.len(),
            i <= last + 1,
            forall|k: int| 0 <= k < i ==> !occurs_at(hay@, pat@, k),
        decreases last + 1 - i,
    {
        let mut j: usize = 0;
        let mut same = true;
        while j < pat.len()
            invariant
                i <= last,
                last == hay@.len() - pat@.len(),
                hay_len == hay@.len(),
                1 <= pat@.len() <= hay@.len(),
                j <= pat@.len(),
                same == (forall|m: int| 0 <= m < j ==> hay@[i + m] == pat@[m]),
            decreases pat@.len() - j,
        {
            if hay[i + j] != pat[j] {
                same = false;
            }
            j = j + 1;
        }
        if same {
            assert(hay@.subrange(i as int, i + pat@.len()) =~= pat@);
            assert(occurs_at(hay@, pat@, i as int));
            return true;
        }
        assert(!occurs_at(hay@, pat@, i as int)) by {
            let m = choose|m: int| 0 <= m < pat@.len() && hay@[i + m] != pat@[m];
            if hay@.subrange(i as int, i + pat@.len()) == pat@ {
                assert(hay@.subrange(i as int, i + pat@.len())[m] == hay@[i + m]);
            }
        }
        i = i + 1;
    }
    assert forall|k: int| !occurs_at(hay@, pat@, k) by {
        if 0 <= k < i {
        }
    }
    false
}

} // verus!
