use vstd::prelude::*;
use vstd::string::StrSliceExecFns;

verus! {

/// Each byte of `s` read as the character with the same code.
pub open spec fn ascii_chars(s: Seq<u8>) -> Seq<char> {
    Seq::new(s.len(), |i: int| s[i] as char)
}

/// Every byte of `s` is ASCII.
pub open spec fn all_ascii(s: Seq<u8>) -> bool {
    forall|i: int| 0 <= i < s.len() ==> #[trigger] s[i] < 128
}

/// The text that lossy UTF-8 decoding makes of `b`.
pub uninterp spec fn utf8_lossy(b: Seq<u8>) -> Seq<char>;

/// Relies on `String::from_utf8_lossy`: a function of the bytes alone, which
/// leaves valid UTF-8 (so in particular ASCII) as it is.
#[verifier::external_body]
pub(crate) fn lossy_text(b: &[u8]) -> (r: String)
    ensures
        r@ == utf8_lossy(b@),
        all_ascii(b@) ==> r@ == ascii_chars(b@),
{
    String::from_utf8_lossy(b).into_owned()
}

/// Length of `b` once trailing zero bytes are dropped.
pub open spec fn trimmed_len(b: Seq<u8>) -> int
    decreases b.len(),
{
    if b.len() == 0 {
        0
    } else if b.last() == 0 {
        trimmed_len(b.drop_last())
    } else {
        b.len() as int
    }
}

/// `b` without its trailing zero bytes.
pub open spec fn trim_zeros(b: Seq<u8>) -> Seq<u8> {
    b.subrange(0, trimmed_len(b))
}

proof fn lemma_trimmed_len_bounds(b: Seq<u8>)
    ensures
        0 <= trimmed_len(b) <= b.len(),
    decreases b.len(),
{
    if b.len() > 0 && b.last() == 0 {
        lemma_trimmed_len_bounds(b.drop_last());
    }
}

/// Length of `b` without its trailing zero bytes.
pub fn trimmed_length(b: &[u8]) -> (r: usize)
    ensures
        r as int == trimmed_len(b@),
        r <= b@.len(),
{
    let mut n: usize = b.len();
    assert(b@.subrange(0, n as int) =~= b@);
    while n > 0 && b[n - 1] == 0
        invariant
            n <= b@.len(),
            trimmed_len(b@.subrange(0, n as int)) == trimmed_len(b@),
        decreases n,
    {
        assert(b@.subrange(0, n as int).drop_last() =~= b@.subrange(0, n - 1));
        n = n - 1;
    }
    proof {
        lemma_trimmed_len_bounds(b@);
        if n > 0 {
            assert(b@.subrange(0, n as int).last() != 0);
        } else {
            assert(b@.subrange(0, 0).len() == 0);
        }
    }
    n
}

/// Hex digit `n` (below 16) in upper case, as an ASCII byte.
pub open spec fn hex_digit(n: int) -> u8 {
    if n < 10 {
        (48 + n) as u8
    } else {
        (55 + n) as u8
    }
}

/// Two upper-case hex digits per byte.
pub open spec fn hex_ascii(b: Seq<u8>) -> Seq<u8>
    decreases b.len(),
{
    if b.len() == 0 {
        seq![]
    } else {
        hex_ascii(b.drop_last()) + seq![hex_digit(b.last() as int / 16), hex_digit(b.last() as int % 16)]
    }
}

/// Decimal digits of a byte, at least two of them.
pub open spec fn dec2_ascii(v: u8) -> Seq<u8> {
    if v < 100 {
        seq![(48 + v / 10) as u8, (48 + v % 10) as u8]
    } else {
        seq![(48 + v / 100) as u8, (48 + (v / 10) % 10) as u8, (48 + v % 10) as u8]
    }
}

/// Decimal pairs of each byte, concatenated.
pub open spec fn dec2_concat(b: Seq<u8>) -> Seq<u8>
    decreases b.len(),
{
    if b.len() == 0 {
        seq![]
    } else {
        dec2_concat(b.drop_last()) + dec2_ascii(b.last())
    }
}

proof fn lemma_hex_ascii(b: Seq<u8>)
    ensures
        hex_ascii(b).len() == 2 * b.len(),
        all_ascii(hex_ascii(b)),
    decreases b.len(),
{
    if b.len() > 0 {
        lemma_hex_ascii(b.drop_last());
    }
}

proof fn lemma_dec2_concat(b: Seq<u8>)
    ensures
        all_ascii(dec2_concat(b)),
    decreases b.len(),
{
    if b.len() > 0 {
        lemma_dec2_concat(b.drop_last());
    }
}

/// Upper-case hex text of `bytes`, two digits per byte.
pub fn hex_upper(bytes: &[u8]) -> (r: String)
    ensures
        r@ == ascii_chars(hex_ascii(bytes@)),
{
    let mut out: Vec<u8> = Vec::new();
    let mut i: usize = 0;
    while i < bytes.len()
        invariant
            i <= bytes@.len(),
            out@ == hex_ascii(bytes@.subrange(0, i as int)),
        decreases bytes@.len() - i,
    {
        assert(bytes@.subrange(0, i + 1).drop_last() =~= bytes@.subrange(0, i as int));
        let v = bytes[i];
        let hi: u8 = v / 16;
        let lo: u8 = v % 16;
        out.push(if hi < 10 { 48 + hi } else { 55 + hi });
        out.push(if lo < 10 { 48 + lo } else { 55 + lo });
        i = i + 1;
        assert(out@ =~= hex_ascii(bytes@.subrange(0, i as int)));
    }
    assert(bytes@.subrange(0, bytes@.len() as int) =~= bytes@);
    proof {
        lemma_hex_ascii(bytes@);
    }
    lossy_text(out.as_slice())
}

/// Each byte as decimal with at least two digits, concatenated.
pub fn decimal_pairs(bytes: &[u8]) -> (r: String)
    ensures
        r@ == ascii_chars(dec2_concat(bytes@)),
{
    let mut out: Vec<u8> = Vec::new();
    let mut i: usize = 0;
    while i < bytes.len()
        invariant
            i <= bytes@.len(),
            out@ == dec2_concat(bytes@.subrange(0, i as int)),
        decreases bytes@.len() - i,
    {
        assert(bytes@.subrange(0, i + 1).drop_last() =~= bytes@.subrange(0, i as int));
        let v = bytes[i];
        if v >= 100 {
            out.push(48 + v / 100);
            out.push(48 + (v / 10) % 10);
        } else {
            out.push(48 + v / 10);
        }
        out.push(48 + v % 10);
        i = i + 1;
        assert(out@ =~= dec2_concat(bytes@.subrange(0, i as int)));
    }
    assert(bytes@.subrange(0, bytes@.len() as int) =~= bytes@);
    proof {
        lemma_dec2_concat(bytes@);
    }
    lossy_text(out.as_slice())
}

/// Decimal digits of `n`, without leading zeros (`"0"` for zero).
pub open spec fn dec_ascii(n: nat) -> Seq<u8>
    decreases n,
{
    if n < 10 {
        seq![(48 + n) as u8]
    } else {
        dec_ascii(n / 10).push((48 + n % 10) as u8)
    }
}

/// Append the decimal digits of `n` to `out`.
pub fn push_decimal(out: &mut Vec<u8>, n: u32)
    ensures
        final(out)@ == old(out)@ + dec_ascii(n as nat),
    decreases n,
{
    if n >= 10 {
        push_decimal(out, n / 10);
    }
    out.push(48 + (n % 10) as u8);
    assert(out@ =~= old(out)@ + dec_ascii(n as nat));
}

/// `s` begins with `p`.
pub open spec fn starts_with(s: Seq<char>, p: Seq<char>) -> bool {
    p.len() <= s.len() && s.subrange(0, p.len() as int) == p
}

/// `n` occurs in `h` at position `i`.
pub open spec fn occurs_at(h: Seq<char>, n: Seq<char>, i: int) -> bool {
    0 <= i && i + n.len() <= h.len() && h.subrange(i, i + n.len()) == n
}

/// `n` occurs somewhere in `h`.
pub open spec fn has_infix(h: Seq<char>, n: Seq<char>) -> bool {
    exists|i: int| occurs_at(h, n, i)
}

/// Whether `n` occurs in `h` at position `at`.
pub fn occurs_at_exec(h: &str, n: &str, at: usize) -> (r: bool)
    ensures
        r == occurs_at(h@, n@, at as int),
{
    let hl = h.unicode_len();
    let nl = n.unicode_len();
    if at > hl || nl > hl - at {
        return false;
    }
    let mut j: usize = 0;
    while j < nl
        invariant
            hl == h@.len(),
            nl == n@.len(),
            at + nl <= hl,
            j <= nl,
            forall|k: int| 0 <= k < j ==> h@[at + k] == n@[k],
        decreases nl - j,
    {
        if h.get_char(at + j) != n.get_char(j) {
            assert(h@.subrange(at as int, at + nl)[j as int] != n@[j as int]);
            return false;
        }
        j = j + 1;
    }
    assert(h@.subrange(at as int, at + nl) =~= n@);
    true
}

/// Whether `h` begins with `p`.
pub fn starts_with_str(h: &str, p: &str) -> (r: bool)
    ensures
        r == starts_with(h@, p@),
{
    occurs_at_exec(h, p, 0)
}

/// Whether `n` occurs in `h`.
pub fn contains_str(h: &str, n: &str) -> (r: bool)
    ensures
        r == has_infix(h@, n@),
{
    let hl = h.unicode_len();
    let nl = n.unicode_len();
    if nl > hl {
        assert forall|i: int| !occurs_at(h@, n@, i) by {}
        return false;
    }
    let last: usize = hl - nl;
    let mut i: usize = 0;
    loop
        invariant
            hl == h@.len(),
            nl == n@.len(),
            last == hl - nl,
            i <= last,
            forall|k: int| 0 <= k < i ==> !occurs_at(h@, n@, k),
        ensures
            forall|k: int| 0 <= k <= last ==> !occurs_at(h@, n@, k),
        decreases last - i,
    {
        if occurs_at_exec(h, n, i) {
            return true;
        }
        if i == last {
            break;
        }
        i = i + 1;
    }
    assert forall|k: int| !occurs_at(h@, n@, k) by {
        if 0 <= k <= last {
        }
    }
    false
}

} // verus!
