use vstd::prelude::*;

use crate::bits::{bit_of, ones, ones_seq};

verus! {

/// Number of `i` in `0..n` for which `f(i)` holds.
pub open spec fn count_true(f: spec_fn(int) -> bool, n: int) -> nat
    decreases n,
{
    if n <= 0 {
        0
    } else {
        count_true(f, n - 1) + if f(n - 1) { 1nat } else { 0nat }
    }
}

/// Counts agree when the predicates agree below `n`.
pub proof fn lemma_count_ext(f: spec_fn(int) -> bool, g: spec_fn(int) -> bool, n: int)
    requires
        forall|i: int| 0 <= i < n ==> #[trigger] f(i) == g(i),
    ensures
        count_true(f, n) == count_true(g, n),
    decreases n,
{
    if n > 0 {
        lemma_count_ext(f, g, n - 1);
    }
}

/// Past the last index where `f` holds, the count stops growing.
pub proof fn lemma_count_flat(f: spec_fn(int) -> bool, a: int, b: int)
    requires
        0 <= a <= b,
        forall|i: int| a <= i < b ==> !#[trigger] f(i),
    ensures
        count_true(f, b) == count_true(f, a),
    decreases b - a,
{
    if b > a {
        lemma_count_flat(f, a, b - 1);
    }
}

/// Counting `f`, which is `h` moved right by `off` and cut to `len`
/// positions, counts `h` over `len` positions.
pub proof fn lemma_count_shift(f: spec_fn(int) -> bool, h: spec_fn(int) -> bool, off: int, len: int, n: int)
    requires
        0 <= off,
        0 <= len,
        0 <= n,
        forall|d: int| 0 <= d < n ==> #[trigger] f(d) == (off <= d < off + len && h(d - off)),
    ensures
        count_true(f, n) == count_true(h, if n - off < 0 { 0 } else if n - off > len { len } else { n - off }),
    decreases n,
{
    if n > 0 {
        lemma_count_shift(f, h, off, len, n - 1);
    }
}

/// The dots of column `col` of column-major data.
pub open spec fn dots_of(data: Seq<u8>, bpl: int, col: int) -> spec_fn(int) -> bool {
    |d: int| bit_of(data[col * bpl + d / 8], (d % 8) as u8)
}

/// Set bits of the bytes of each column, column by column, for `c` columns.
pub open spec fn column_sum(s: Seq<u8>, bpl: int, c: int) -> nat
    decreases c,
{
    if c <= 0 {
        0
    } else {
        column_sum(s, bpl, c - 1) + ones_seq(s.subrange((c - 1) * bpl, (c - 1) * bpl + bpl))
    }
}

/// Set bits add up over a concatenation.
pub proof fn lemma_ones_seq_concat(a: Seq<u8>, b: Seq<u8>)
    ensures
        ones_seq(a + b) == ones_seq(a) + ones_seq(b),
    decreases b.len(),
{
    if b.len() == 0 {
        assert(a + b =~= a);
    } else {
        assert((a + b).drop_last() =~= a + b.drop_last());
        lemma_ones_seq_concat(a, b.drop_last());
    }
}

/// The set bits of the first `c` columns are their column-by-column sum.
pub proof fn lemma_ones_by_columns(s: Seq<u8>, bpl: int, c: int)
    requires
        0 <= bpl,
        0 <= c,
        c * bpl <= s.len(),
    ensures
        ones_seq(s.subrange(0, c * bpl)) == column_sum(s, bpl, c),
    decreases c,
{
    if c > 0 {
        assert((c - 1) * bpl + bpl == c * bpl) by (nonlinear_arith);
        assert(0 <= (c - 1) * bpl) by (nonlinear_arith)
            requires
                c >= 1,
                bpl >= 0,
        ;
        lemma_ones_by_columns(s, bpl, c - 1);
        assert(s.subrange(0, c * bpl) =~= s.subrange(0, (c - 1) * bpl) + s.subrange((c - 1) * bpl, c * bpl));
        lemma_ones_seq_concat(s.subrange(0, (c - 1) * bpl), s.subrange((c - 1) * bpl, c * bpl));
    } else {
        assert(s.subrange(0, 0).len() == 0);
    }
}

/// Column sums agree when every column has as many set bits.
pub proof fn lemma_column_sum_eq(s: Seq<u8>, sb: int, t: Seq<u8>, tb: int, c: int)
    requires
        forall|col: int| 0 <= col < c ==> #[trigger] ones_seq(s.subrange(col * sb, col * sb + sb)) == ones_seq(
            t.subrange(col * tb, col * tb + tb),
        ),
    ensures
        column_sum(s, sb, c) == column_sum(t, tb, c),
    decreases c,
{
    if c > 0 {
        lemma_column_sum_eq(s, sb, t, tb, c - 1);
        assert(ones_seq(s.subrange((c - 1) * sb, (c - 1) * sb + sb)) == ones_seq(t.subrange((c - 1) * tb, (c - 1) * tb + tb)));
    }
}

/// The dots of a column, counted over its `j` first bytes, are the set bits
/// of those bytes.
pub proof fn lemma_dots_are_ones(s: Seq<u8>, bpl: int, col: int, j: int)
    requires
        0 <= col,
        0 <= j <= bpl,
        col * bpl + bpl <= s.len(),
        0 <= col * bpl,
    ensures
        count_true(dots_of(s, bpl, col), 8 * j) == ones_seq(s.subrange(col * bpl, col * bpl + j)),
    decreases j,
{
    let f = dots_of(s, bpl, col);
    if j == 0 {
        assert(s.subrange(col * bpl, col * bpl).len() == 0);
    } else {
        lemma_dots_are_ones(s, bpl, col, j - 1);
        let k = j - 1;
        let v = s[col * bpl + k];
        assert(f(8 * k + 0) == bit_of(v, 0));
        assert(f(8 * k + 1) == bit_of(v, 1));
        assert(f(8 * k + 2) == bit_of(v, 2));
        assert(f(8 * k + 3) == bit_of(v, 3));
        assert(f(8 * k + 4) == bit_of(v, 4));
        assert(f(8 * k + 5) == bit_of(v, 5));
        assert(f(8 * k + 6) == bit_of(v, 6));
        assert(f(8 * k + 7) == bit_of(v, 7));
        assert(count_true(f, 8 * j) == count_true(f, 8 * k) + ones(v)) by {
            assert(count_true(f, 8 * k + 8) == count_true(f, 8 * k + 7) + if f(8 * k + 7) { 1nat } else { 0nat });
            assert(count_true(f, 8 * k + 7) == count_true(f, 8 * k + 6) + if f(8 * k + 6) { 1nat } else { 0nat });
            assert(count_true(f, 8 * k + 6) == count_true(f, 8 * k + 5) + if f(8 * k + 5) { 1nat } else { 0nat });
            assert(count_true(f, 8 * k + 5) == count_true(f, 8 * k + 4) + if f(8 * k + 4) { 1nat } else { 0nat });
            assert(count_true(f, 8 * k + 4) == count_true(f, 8 * k + 3) + if f(8 * k + 3) { 1nat } else { 0nat });
            assert(count_true(f, 8 * k + 3) == count_true(f, 8 * k + 2) + if f(8 * k + 2) { 1nat } else { 0nat });
            assert(count_true(f, 8 * k + 2) == count_true(f, 8 * k + 1) + if f(8 * k + 1) { 1nat } else { 0nat });
            assert(count_true(f, 8 * k + 1) == count_true(f, 8 * k) + if f(8 * k) { 1nat } else { 0nat });
        }
        assert(s.subrange(col * bpl, col * bpl + j).drop_last() =~= s.subrange(col * bpl, col * bpl + k));
    }
}

} // verus!
