use vstd::prelude::*;

verus! {

/// Sum of the bytes of `s`, as an unbounded integer.
pub open spec fn byte_sum(s: Seq<u8>) -> int
    decreases s.len(),
{
    if s.len() == 0 {
        0
    } else {
        byte_sum(s.drop_last()) + s.last() as int
    }
}

/// Low byte of a little-endian 16-bit field.
pub open spec fn lo8(v: int) -> u8 {
    (v % 256) as u8
}

/// High byte of a little-endian 16-bit field.
pub open spec fn hi8(v: int) -> u8 {
    ((v / 256) % 256) as u8
}

/// The two bytes of `v` in little-endian order.
pub open spec fn le16(v: int) -> Seq<u8> {
    seq![lo8(v), hi8(v)]
}

/// The `n` little-endian bytes of `v`.
pub open spec fn le_bytes(v: nat, n: nat) -> Seq<u8>
    decreases n,
{
    if n == 0 {
        seq![]
    } else {
        seq![(v % 256) as u8] + le_bytes(v / 256, (n - 1) as nat)
    }
}

/// Every byte is at most 255, so a sum of `n` bytes is at most `255 * n`.
pub proof fn lemma_byte_sum_bounds(s: Seq<u8>)
    ensures
        0 <= byte_sum(s) <= 255 * s.len(),
    decreases s.len(),
{
    if s.len() > 0 {
        lemma_byte_sum_bounds(s.drop_last());
    }
}

/// A sum over a run of zero bytes is zero.
pub proof fn lemma_byte_sum_zeros(s: Seq<u8>)
    requires
        forall|i: int| 0 <= i < s.len() ==> s[i] == 0,
    ensures
        byte_sum(s) == 0,
    decreases s.len(),
{
    if s.len() > 0 {
        lemma_byte_sum_zeros(s.drop_last());
    }
}

/// Splitting a sequence splits its sum.
pub proof fn lemma_byte_sum_concat(a: Seq<u8>, b: Seq<u8>)
    ensures
        byte_sum(a + b) == byte_sum(a) + byte_sum(b),
    decreases b.len(),
{
    if b.len() == 0 {
        assert(a + b =~= a);
    } else {
        assert((a + b).drop_last() =~= a + b.drop_last());
        lemma_byte_sum_concat(a, b.drop_last());
    }
}

/// Sum of `b[lo..hi]`.
pub fn sum_range(b: &[u8], lo: usize, hi: usize) -> (r: u32)
    requires
        lo <= hi <= b@.len(),
        hi - lo <= 0x10000,
    ensures
        r as int == byte_sum(b@.subrange(lo as int, hi as int)),
{
    let mut acc: u32 = 0;
    let mut i: usize = lo;
    while i < hi
        invariant
            lo <= i <= hi <= b@.len(),
            hi - lo <= 0x10000,
            acc as int == byte_sum(b@.subrange(lo as int, i as int)),
        decreases hi - i,
    {
        proof {
            lemma_byte_sum_bounds(b@.subrange(lo as int, i as int));
            assert(b@.subrange(lo as int, i + 1).drop_last() =~= b@.subrange(lo as int, i as int));
        }
        acc = acc + b[i] as u32;
        i = i + 1;
    }
    acc
}

} // verus!
