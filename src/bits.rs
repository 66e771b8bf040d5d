use vstd::prelude::*;

verus! {

/// Bit `b` (0 = least significant) of `v`.
pub open spec fn bit_of(v: u8, b: u8) -> bool {
    (v >> b) & 1u8 == 1u8
}

/// Number of set bits of a byte.
pub open spec fn ones(v: u8) -> nat {
    (if bit_of(v, 0) { 1nat } else { 0nat }) + (if bit_of(v, 1) { 1nat } else { 0nat }) + (if bit_of(v, 2) { 1nat } else { 0nat })
        + (if bit_of(v, 3) { 1nat } else { 0nat }) + (if bit_of(v, 4) { 1nat } else { 0nat }) + (if bit_of(v, 5) { 1nat } else { 0nat })
        + (if bit_of(v, 6) { 1nat } else { 0nat }) + (if bit_of(v, 7) { 1nat } else { 0nat })
}

/// Number of set bits over a byte sequence.
pub open spec fn ones_seq(s: Seq<u8>) -> nat
    decreases s.len(),
{
    if s.len() == 0 {
        0
    } else {
        ones_seq(s.drop_last()) + ones(s.last())
    }
}

/// No bit of zero is set.
pub proof fn lemma_zero_bits()
    ensures
        forall|c: u8| c < 8 ==> !#[trigger] bit_of(0u8, c),
{
    assert(forall|c: u8| c < 8 ==> !#[trigger] bit_of(0u8, c)) by (bit_vector);
}

/// Setting bit `b` leaves every other bit as it was.
pub proof fn lemma_set_bit(v: u8, b: u8)
    requires
        b < 8,
    ensures
        forall|c: u8| c < 8 ==> #[trigger] bit_of(v | (1u8 << b), c) == (bit_of(v, c) || c == b),
{
    assert(forall|c: u8| c < 8 ==> #[trigger] bit_of(v | (1u8 << b), c) == (bit_of(v, c) || c == b))
        by (bit_vector)
        requires
            b < 8,
    ;
}

/// Two bytes that agree on every bit are equal.
pub proof fn lemma_bits_eq(a: u8, b: u8)
    requires
        forall|c: u8| c < 8 ==> #[trigger] bit_of(a, c) == bit_of(b, c),
    ensures
        a == b,
{
    assert(bit_of(a, 0) == bit_of(b, 0));
    assert(bit_of(a, 1) == bit_of(b, 1));
    assert(bit_of(a, 2) == bit_of(b, 2));
    assert(bit_of(a, 3) == bit_of(b, 3));
    assert(bit_of(a, 4) == bit_of(b, 4));
    assert(bit_of(a, 5) == bit_of(b, 5));
    assert(bit_of(a, 6) == bit_of(b, 6));
    assert(bit_of(a, 7) == bit_of(b, 7));
    assert(a == b) by (bit_vector)
        requires
            bit_of(a, 0) == bit_of(b, 0),
            bit_of(a, 1) == bit_of(b, 1),
            bit_of(a, 2) == bit_of(b, 2),
            bit_of(a, 3) == bit_of(b, 3),
            bit_of(a, 4) == bit_of(b, 4),
            bit_of(a, 5) == bit_of(b, 5),
            bit_of(a, 6) == bit_of(b, 6),
            bit_of(a, 7) == bit_of(b, 7),
    ;
}

/// Test bit `b` of `v`.
pub fn test_bit(v: u8, b: u8) -> (r: bool)
    requires
        b < 8,
    ensures
        r == bit_of(v, b),
{
    (v >> b) & 1u8 == 1u8
}

/// Set bit `b` of `v`.
pub fn with_bit(v: u8, b: u8) -> (r: u8)
    requires
        b < 8,
    ensures
        forall|c: u8| c < 8 ==> #[trigger] bit_of(r, c) == (bit_of(v, c) || c == b),
{
    proof {
        lemma_set_bit(v, b);
    }
    v | (1u8 << b)
}

/// A byte whose bits are another's in reverse order has as many set bits.
pub proof fn lemma_ones_reversed(a: u8, b: u8)
    requires
        forall|c: u8| c < 8 ==> #[trigger] bit_of(a, c) == bit_of(b, (7 - c) as u8),
    ensures
        ones(a) == ones(b),
{
    assert(bit_of(a, 0) == bit_of(b, 7));
    assert(bit_of(a, 1) == bit_of(b, 6));
    assert(bit_of(a, 2) == bit_of(b, 5));
    assert(bit_of(a, 3) == bit_of(b, 4));
    assert(bit_of(a, 4) == bit_of(b, 3));
    assert(bit_of(a, 5) == bit_of(b, 2));
    assert(bit_of(a, 6) == bit_of(b, 1));
    assert(bit_of(a, 7) == bit_of(b, 0));
}

/// Sequences whose bytes pairwise have as many set bits have as many set
/// bits in all.
pub proof fn lemma_ones_seq_eq(s: Seq<u8>, t: Seq<u8>)
    requires
        s.len() == t.len(),
        forall|i: int| 0 <= i < s.len() ==> ones(#[trigger] s[i]) == ones(t[i]),
    ensures
        ones_seq(s) == ones_seq(t),
    decreases s.len(),
{
    if s.len() > 0 {
        lemma_ones_seq_eq(s.drop_last(), t.drop_last());
    }
}

} // verus!
