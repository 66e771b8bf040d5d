use vstd::prelude::*;
use vstd::arithmetic::div_mod::lemma_fundamental_div_mod_converse;

use crate::bits::{bit_of, lemma_ones_reversed, lemma_ones_seq_eq, lemma_zero_bits, ones, ones_seq, test_bit, with_bit};
use crate::counting::{
    dots_of, lemma_column_sum_eq, lemma_count_ext, lemma_count_flat, lemma_count_shift,
    lemma_dots_are_ones, lemma_ones_by_columns,
};

verus! {

/// Printer resolution in dots per millimetre.
pub const DPI: u32 = 8;
/// Same as `DPI`, under the name the pipeline uses.
pub const DOTS_PER_MM: u32 = 8;
/// Widest label the printhead covers, in millimetres.
pub const MAX_WIDTH_MM: u32 = 48;
/// Printhead width in millimetres.
pub const PRINTHEAD_WIDTH_MM: u32 = 48;
/// Printhead width in dots.
pub const PRINTHEAD_WIDTH_DOTS: u32 = 384;
/// Bytes in one printhead column.
pub const PRINTHEAD_BYTES_PER_LINE: u32 = 48;
/// Top and bottom margin, in dots, used for every page.
pub const DEFAULT_MARGIN_DOTS: u16 = 8;

/// Bytes needed for `w` one-bit pixels.
pub open spec fn ceil8(w: int) -> int {
    (w + 7) / 8
}

/// Pixel `(x, y)` of a row-major MSB-first raster with `bpl` bytes per row.
/// Bytes past the end of the buffer read as white.
pub open spec fn raster_pixel(input: Seq<u8>, bpl: int, x: int, y: int) -> bool {
    let i = y * bpl + x / 8;
    0 <= i < input.len() && bit_of(input[i], (7 - x % 8) as u8)
}

/// Dot `d` of column `col` of column-major LSB-first data with `bpl` bytes per column.
pub open spec fn column_dot(data: Seq<u8>, bpl: int, col: int, d: int) -> bool {
    bit_of(data[col * bpl + d / 8], (d % 8) as u8)
}

/// Byte `j` of column `col` lies in the grid, in that column.
pub proof fn lemma_grid_index(col: int, rows: int, bpl: int, j: int)
    requires
        0 <= col < rows,
        0 <= j < bpl,
    ensures
        0 <= col * bpl + j < rows * bpl,
        (col * bpl + j) % bpl == j,
        (col * bpl + j) / bpl == col,
{
    assert(0 <= col * bpl) by (nonlinear_arith)
        requires
            0 <= col,
            0 <= bpl,
    ;
    assert(col * bpl + bpl <= rows * bpl) by (nonlinear_arith)
        requires
            col < rows,
            0 <= bpl,
    ;
    lemma_fundamental_div_mod_converse(col * bpl + j, bpl, col, j);
}

proof fn lemma_dot_split(d: int)
    requires
        0 <= d,
    ensures
        d == 8 * (d / 8) + d % 8,
        0 <= d % 8 < 8,
{
}

/// Mirror the first `nbits` pixels of an MSB-first byte into LSB-first order;
/// the remaining bits are clear.
fn repack_byte(v: u8, nbits: u32) -> (r: u8)
    requires
        nbits <= 8,
    ensures
        forall|b: u8| b < 8 ==> #[trigger] bit_of(r, b) == ((b as u32) < nbits && bit_of(v, (7 - b) as u8)),
{
    let mut r: u8 = 0;
    let mut b: u8 = 0;
    proof {
        lemma_zero_bits();
    }
    while (b as u32) < nbits
        invariant
            nbits <= 8,
            b as u32 <= nbits,
            forall|c: u8| c < 8 ==> #[trigger] bit_of(r, c) == (c < b && bit_of(v, (7 - c) as u8)),
        decreases nbits - b as u32,
    {
        if test_bit(v, 7 - b) {
            r = with_bit(r, b);
        }
        b = b + 1;
    }
    r
}

/// Rotate a row-major MSB-first 1bpp raster of `width` x `height` pixels
/// into column-major LSB-first data: one column per input row, each
/// `ceil(width / 8)` bytes wide, pixel `x` of row `y` becoming dot `x` of
/// column `y`.
///
/// Returns `(data, columns, bytes_per_column)`.
pub fn raster_to_column_major(input: &[u8], width: u32, height: u32) -> (r: (Vec<u8>, u32, u32))
    requires
        height as int * ceil8(width as int) <= usize::MAX,
    ensures
        r.1 == height,
        r.2 as int == ceil8(width as int),
        r.0@.len() == height as int * ceil8(width as int),
        forall|col: int, d: int|
            0 <= col < height && 0 <= d < 8 * ceil8(width as int) ==> #[trigger] column_dot(
                r.0@,
                ceil8(width as int),
                col,
                d,
            ) == (d < width && raster_pixel(input@, ceil8(width as int), d, col)),
        width % 8 == 0 && input@.len() == r.0@.len() ==> ones_seq(r.0@) == ones_seq(input@),
        padding_clear(r.0@, ceil8(width as int), width as int, height as int),
{
    let bpl: u32 = width / 8 + if width % 8 != 0 {
        1
    } else {
        0
    };
    assert(bpl as int == ceil8(width as int));
    let n: usize = height as usize * bpl as usize;
    let mut out: Vec<u8> = Vec::new();
    let mut i: usize = 0;
    while i < n
        invariant
            bpl as int == ceil8(width as int),
            n == height as int * bpl as int,
            out@.len() == i,
            i <= n,
            forall|k: int, b: u8|
                0 <= k < i && b < 8 ==> #[trigger] bit_of(out@[k], b) == (8 * (k % bpl as int) + b
                    < width && k < input@.len() && bit_of(input@[k], (7 - b) as u8)),
        decreases n - i,
    {
        proof {
            if bpl == 0 {
                assert(n == 0) by (nonlinear_arith)
                    requires
                        n == height as int * bpl as int,
                        bpl == 0,
                ;
            }
        }
        let j: u32 = (i % bpl as usize) as u32;
        let rest: u32 = width - 8 * j;
        let nbits: u32 = if rest < 8 {
            rest
        } else {
            8
        };
        let byte: u8 = if i < input.len() {
            repack_byte(input[i], nbits)
        } else {
            proof {
                lemma_zero_bits();
            }
            0
        };
        out.push(byte);
        i = i + 1;
    }
    proof {
        assert forall|col: int, d: int|
            0 <= col < height && 0 <= d < 8 * ceil8(width as int) implies #[trigger] column_dot(
            out@,
            ceil8(width as int),
            col,
            d,
        ) == (d < width && raster_pixel(input@, ceil8(width as int), d, col)) by {
            lemma_dot_split(d);
            lemma_grid_index(col, height as int, bpl as int, d / 8);
            let b = (d % 8) as u8;
            assert((7 - d % 8) as u8 == (7 - b) as u8);
            assert(bit_of(out@[col * bpl + d / 8], b) == (8 * (d / 8) + b < width && col * bpl + d
                / 8 < input@.len() && bit_of(input@[col * bpl + d / 8], (7 - b) as u8)));
        }
        assert forall|col: int, d: int|
            0 <= col < height && width <= d < 8 * ceil8(width as int) implies !#[trigger] column_dot(
            out@,
            ceil8(width as int),
            col,
            d,
        ) by {}
        if width % 8 == 0 && input@.len() == out@.len() {
            assert forall|k: int| 0 <= k < out@.len() implies ones(#[trigger] out@[k]) == ones(input@[k]) by {
                assert(k % bpl as int <= bpl - 1) by (nonlinear_arith)
                    requires
                        bpl > 0,
                ;
                assert forall|c: u8| c < 8 implies #[trigger] bit_of(out@[k], c) == bit_of(input@[k], (7 - c) as u8) by {
                    assert(8 * (k % bpl as int) + c < width);
                }
                lemma_ones_reversed(out@[k], input@[k]);
            }
            lemma_ones_seq_eq(out@, input@);
        }
    }
    (out, height, bpl)
}

/// Dot `d` of column `col` of column-major LSB-first data; dots whose byte
/// lies past the end of the buffer read as white.
pub open spec fn column_dot_or_white(data: Seq<u8>, bpl: int, col: int, d: int) -> bool {
    let i = col * bpl + d / 8;
    0 <= i < data.len() && bit_of(data[i], (d % 8) as u8)
}

/// Left offset, in dots, of content `in_dots` wide centred in `canvas_dots`.
pub open spec fn center_offset(in_dots: int, canvas_dots: int) -> int {
    (canvas_dots - in_dots) / 2
}

/// Byte `k` of canvas column `col`: input dots shifted right by `off`.
fn gather_byte(input: &[u8], col: u32, ibpl: u32, k: u32, off: u32, in_dots: u32) -> (r: u8)
    requires
        8 * k as int + 8 <= u32::MAX,
        off as int + in_dots as int <= u32::MAX,
    ensures
        forall|b: u8|
            b < 8 ==> #[trigger] bit_of(r, b) == (off <= 8 * k + b < off + in_dots
                && column_dot_or_white(input@, ibpl as int, col as int, 8 * k + b - off)),
{
    let mut r: u8 = 0;
    let mut b: u8 = 0;
    proof {
        lemma_zero_bits();
    }
    while b < 8
        invariant
            b <= 8,
            8 * k as int + 8 <= u32::MAX,
            off as int + in_dots as int <= u32::MAX,
            forall|c: u8|
                c < 8 ==> #[trigger] bit_of(r, c) == (c < b && off <= 8 * k + c < off + in_dots
                    && column_dot_or_white(input@, ibpl as int, col as int, 8 * k + c - off)),
        decreases 8 - b,
    {
        let d: u32 = 8 * k + b as u32;
        if off <= d && d < off + in_dots {
            let src: u32 = d - off;
            proof {
                assert(col as int * ibpl as int <= u32::MAX as int * u32::MAX as int) by (nonlinear_arith);
            }
            let idx: u64 = col as u64 * ibpl as u64 + (src / 8) as u64;
            if idx < input.len() as u64 {
                if test_bit(input[idx as usize], (src % 8) as u8) {
                    r = with_bit(r, b);
                }
            }
        }
        b = b + 1;
    }
    r
}

/// Every column of `data` has its dots from `dots` on clear.
pub open spec fn padding_clear(data: Seq<u8>, bpl: int, dots: int, cols: int) -> bool {
    forall|col: int, d: int| 0 <= col < cols && dots <= d < 8 * bpl ==> !#[trigger] column_dot(data, bpl, col, d)
}

proof fn lemma_centred_column(input: Seq<u8>, out: Seq<u8>, num_cols: int, in_dots: int, canvas: int, col: int)
    requires
        0 <= col < num_cols,
        0 <= in_dots < canvas,
        canvas % 8 == 0,
        input.len() == num_cols * ceil8(in_dots),
        out.len() == num_cols * (canvas / 8),
        padding_clear(input, ceil8(in_dots), in_dots, num_cols),
        forall|c: int, d: int|
            0 <= c < num_cols && 0 <= d < 8 * (canvas / 8) ==> #[trigger] column_dot(out, canvas / 8, c, d) == {
                let off = center_offset(in_dots, canvas);
                off <= d < off + in_dots && column_dot_or_white(input, ceil8(in_dots), c, d - off)
            },
    ensures
        ones_seq(out.subrange(col * (canvas / 8), col * (canvas / 8) + canvas / 8)) == ones_seq(
            input.subrange(col * ceil8(in_dots), col * ceil8(in_dots) + ceil8(in_dots)),
        ),
{
    let cb = canvas / 8;
    let ib = ceil8(in_dots);
    let off = center_offset(in_dots, canvas);
    assert(0 <= col * cb && col * cb + cb <= num_cols * cb) by (nonlinear_arith)
        requires
            0 <= col < num_cols,
            cb >= 0,
    ;
    assert(0 <= col * ib && col * ib + ib <= num_cols * ib) by (nonlinear_arith)
        requires
            0 <= col < num_cols,
            ib >= 0,
    ;
    lemma_dots_are_ones(out, cb, col, cb);
    lemma_dots_are_ones(input, ib, col, ib);
    let f = dots_of(out, cb, col);
    let h = |e: int| column_dot_or_white(input, ib, col, e);
    let g = dots_of(input, ib, col);
    assert forall|d: int| 0 <= d < 8 * cb implies #[trigger] f(d) == (off <= d < off + in_dots && h(d - off)) by {
        assert(column_dot(out, cb, col, d) == (off <= d < off + in_dots && column_dot_or_white(input, ib, col, d - off)));
    }
    lemma_count_shift(f, h, off, in_dots, 8 * cb);
    assert forall|e: int| 0 <= e < in_dots implies #[trigger] h(e) == g(e) by {
        assert(e / 8 < ib);
        assert(col * ib + e / 8 < col * ib + ib);
    }
    lemma_count_ext(h, g, in_dots);
    assert forall|d: int| in_dots <= d < 8 * ib implies !#[trigger] g(d) by {
        assert(!column_dot(input, ib, col, d));
    }
    lemma_count_flat(g, in_dots, 8 * ib);
}

/// With no stray bits past `in_dots` in the input columns, centring moves
/// dots without losing or adding any.
proof fn lemma_center_keeps_dots(input: Seq<u8>, out: Seq<u8>, num_cols: int, in_dots: int, canvas: int)
    requires
        0 <= num_cols,
        0 <= in_dots < canvas,
        canvas % 8 == 0,
        input.len() == num_cols * ceil8(in_dots),
        out.len() == num_cols * (canvas / 8),
        padding_clear(input, ceil8(in_dots), in_dots, num_cols),
        forall|c: int, d: int|
            0 <= c < num_cols && 0 <= d < 8 * (canvas / 8) ==> #[trigger] column_dot(out, canvas / 8, c, d) == {
                let off = center_offset(in_dots, canvas);
                off <= d < off + in_dots && column_dot_or_white(input, ceil8(in_dots), c, d - off)
            },
    ensures
        ones_seq(out) == ones_seq(input),
{
    let cb = canvas / 8;
    let ib = ceil8(in_dots);
    assert forall|col: int| 0 <= col < num_cols implies #[trigger] ones_seq(out.subrange(col * cb, col * cb + cb))
        == ones_seq(input.subrange(col * ib, col * ib + ib)) by {
        lemma_centred_column(input, out, num_cols, in_dots, canvas, col);
    }
    lemma_column_sum_eq(out, cb, input, ib, num_cols);
    lemma_ones_by_columns(out, cb, num_cols);
    lemma_ones_by_columns(input, ib, num_cols);
    assert(out.subrange(0, num_cols * cb) =~= out);
    assert(input.subrange(0, num_cols * ib) =~= input);
}

/// Place column-major content `input_width_dots` wide into a canvas
/// `canvas_width_dots` wide, centred with the left gap `(canvas - input) / 2`.
/// Content at least as wide as the canvas is cut to the canvas width, byte by
/// byte; a column whose bytes run past the input stays blank.
///
/// Returns `(canvas, canvas_bytes_per_column)`.
pub fn center_in_printhead(input: &[u8], num_cols: u32, input_width_dots: u32, canvas_width_dots: u32) -> (r: (Vec<u8>, u32))
    requires
        num_cols as int * (canvas_width_dots as int / 8) <= usize::MAX,
    ensures
        r.1 as int == canvas_width_dots / 8,
        r.0@.len() == num_cols * (canvas_width_dots / 8),
        input_width_dots >= canvas_width_dots ==> forall|col: int, k: int|
            0 <= col < num_cols && 0 <= k < canvas_width_dots / 8 ==> #[trigger] r.0@[col * (canvas_width_dots / 8) + k] == if col * ceil8(input_width_dots as int) + canvas_width_dots / 8 <= input@.len() {
                input@[col * ceil8(input_width_dots as int) + k]
            } else {
                0u8
            },
        input_width_dots < canvas_width_dots ==> forall|col: int, d: int|
            0 <= col < num_cols && 0 <= d < 8 * (canvas_width_dots / 8) ==> #[trigger] column_dot(
                r.0@,
                canvas_width_dots as int / 8,
                col,
                d,
            ) == {
                let off = center_offset(input_width_dots as int, canvas_width_dots as int);
                off <= d < off + input_width_dots && column_dot_or_white(
                    input@,
                    ceil8(input_width_dots as int),
                    col,
                    d - off,
                )
            },
        canvas_width_dots % 8 == 0 && input_width_dots <= canvas_width_dots && input@.len() >= num_cols * ceil8(
            input_width_dots as int,
        ) && padding_clear(input@, ceil8(input_width_dots as int), input_width_dots as int, num_cols as int)
            ==> ones_seq(r.0@) == ones_seq(input@.subrange(0, num_cols * ceil8(input_width_dots as int))),
{
    let cbpl: u32 = canvas_width_dots / 8;
    let ibpl: u32 = input_width_dots / 8 + if input_width_dots % 8 != 0 {
        1
    } else {
        0
    };
    let n: usize = num_cols as usize * cbpl as usize;
    let wide = input_width_dots >= canvas_width_dots;
    let off: u32 = if wide {
        0
    } else {
        (canvas_width_dots - input_width_dots) / 2
    };
    let mut out: Vec<u8> = Vec::new();
    let mut i: usize = 0;
    while i < n
        invariant
            n == num_cols as int * cbpl as int,
            cbpl as int == canvas_width_dots / 8,
            ibpl as int == ceil8(input_width_dots as int),
            wide == (input_width_dots >= canvas_width_dots),
            !wide ==> off as int == center_offset(input_width_dots as int, canvas_width_dots as int),
            out@.len() == i,
            i <= n,
            wide ==> forall|k: int|
                0 <= k < i ==> #[trigger] out@[k] == if (k / cbpl as int) * ibpl + cbpl <= input@.len() {
                    input@[(k / cbpl as int) * ibpl + k % cbpl as int]
                } else {
                    0u8
                },
            !wide ==> forall|k: int, b: u8|
                0 <= k < i && b < 8 ==> #[trigger] bit_of(out@[k], b) == (off <= 8 * (k % cbpl as int) + b < off + input_width_dots
                    && column_dot_or_white(input@, ibpl as int, k / cbpl as int, 8 * (k % cbpl as int) + b - off)),
        decreases n - i,
    {
        proof {
            if cbpl == 0 {
                assert(n == 0) by (nonlinear_arith)
                    requires
                        n == num_cols as int * cbpl as int,
                        cbpl == 0,
                ;
            }
            assert(i as int / cbpl as int <= n as int / cbpl as int) by (nonlinear_arith)
                requires
                    i < n,
                    cbpl > 0,
            ;
            assert(n as int / cbpl as int == num_cols) by (nonlinear_arith)
                requires
                    n == num_cols as int * cbpl as int,
                    cbpl > 0,
            ;
        }
        let col: u32 = (i / cbpl as usize) as u32;
        let k: u32 = (i % cbpl as usize) as u32;
        let byte: u8 = if wide {
            proof {
                assert(col as int * ibpl as int <= u32::MAX as int * u32::MAX as int) by (nonlinear_arith);
            }
            let start: u64 = col as u64 * ibpl as u64;
            if start + cbpl as u64 <= input.len() as u64 {
                input[(start + k as u64) as usize]
            } else {
                0
            }
        } else {
            gather_byte(input, col, ibpl, k, off, input_width_dots)
        };
        out.push(byte);
        i = i + 1;
    }
    proof {
        if wide {
            assert forall|col: int, k: int|
                0 <= col < num_cols && 0 <= k < cbpl implies #[trigger] out@[col * cbpl + k] == if col * ibpl + cbpl <= input@.len() {
                    input@[col * ibpl + k]
                } else {
                    0u8
                } by {
                lemma_grid_index(col, num_cols as int, cbpl as int, k);
            }
            if canvas_width_dots % 8 == 0 && input_width_dots == canvas_width_dots && input@.len() >= num_cols * ibpl {
                assert(ibpl == cbpl);
                assert forall|i: int| 0 <= i < out@.len() implies out@[i] == input@[i] by {
                    let col = i / cbpl as int;
                    let k = i % cbpl as int;
                    assert(i == col * cbpl + k && 0 <= k < cbpl) by (nonlinear_arith)
                        requires
                            col == i / cbpl as int,
                            k == i % cbpl as int,
                            cbpl > 0,
                    ;
                    assert(0 <= col < num_cols) by (nonlinear_arith)
                        requires
                            col == i / cbpl as int,
                            0 <= i < num_cols * cbpl,
                            cbpl > 0,
                    ;
                    assert(col * ibpl + cbpl <= input@.len()) by (nonlinear_arith)
                        requires
                            col < num_cols,
                            input@.len() >= num_cols * ibpl,
                            ibpl == cbpl,
                    ;
                }
                assert(out@ =~= input@.subrange(0, num_cols * ibpl));
            }
        } else {
            assert forall|col: int, d: int|
                0 <= col < num_cols && 0 <= d < 8 * cbpl implies #[trigger] column_dot(out@, cbpl as int, col, d) == (
                off <= d < off + input_width_dots && column_dot_or_white(input@, ibpl as int, col, d - off)) by {
                lemma_dot_split(d);
                lemma_grid_index(col, num_cols as int, cbpl as int, d / 8);
                let b = (d % 8) as u8;
                assert(bit_of(out@[col * cbpl + d / 8], b) == (off <= 8 * (d / 8) + b < off + input_width_dots
                    && column_dot_or_white(input@, ibpl as int, col, 8 * (d / 8) + b - off)));
            }
            if canvas_width_dots % 8 == 0 && input@.len() >= num_cols * ibpl && padding_clear(
                input@,
                ibpl as int,
                input_width_dots as int,
                num_cols as int,
            ) {
                let ghost ib = ibpl as int;
                let ghost nn = num_cols * ib;
                let ghost inp = input@.subrange(0, nn);
                assert forall|col: int, d: int| 0 <= col < num_cols && 0 <= d < 8 * ib implies (#[trigger] column_dot(
                    inp,
                    ib,
                    col,
                    d,
                ) == column_dot(input@, ib, col, d)) by {
                    lemma_grid_index(col, num_cols as int, ib, d / 8);
                }
                assert forall|col: int, d: int|
                    0 <= col < num_cols && 0 <= d < 8 * (canvas_width_dots as int / 8) implies #[trigger] column_dot(
                    out@,
                    canvas_width_dots as int / 8,
                    col,
                    d,
                ) == (off <= d < off + input_width_dots && column_dot_or_white(inp, ib, col, d - off)) by {
                    assert(column_dot(out@, cbpl as int, col, d) == (off <= d < off + input_width_dots && column_dot_or_white(
                        input@,
                        ib,
                        col,
                        d - off,
                    )));
                    if off <= d < off + input_width_dots {
                        lemma_grid_index(col, num_cols as int, ib, (d - off) / 8);
                    }
                }
                lemma_center_keeps_dots(inp, out@, num_cols as int, input_width_dots as int, canvas_width_dots as int);
            }
        }
    }
    (out, cbpl)
}

/// Distance between two integers.
pub open spec fn dist(a: int, b: int) -> int {
    if a >= b {
        a - b
    } else {
        b - a
    }
}

/// Whether dot `lr` of column `lc` of print buffer `k` of the test pattern
/// lies in one of its `k + 1` numbering squares (8 x 8 dots, 12 dots apart,
/// starting at dot 10 of column 10).
pub open spec fn number_dot(lr: int, lc: int, k: int) -> bool {
    10 <= lc < 18 && lr >= 10 && (lr - 10) % 12 < 8 && (lr - 10) / 12 <= k
}

/// Whether label dot `lr` of page column `col` is black in the test
/// pattern of a label `label` dots wide and `height` columns long: a 2-dot
/// outer border, and within each print buffer's stretch of columns between
/// the 8-dot margins a 2-dot border, an X from corner to corner, and as many
/// numbering squares as the buffer's position.
pub open spec fn pattern_dot(label: int, height: int, col: int, lr: int) -> bool {
    let outer = lr < 2 || lr >= label - 2 || col < 2 || col >= height - 2;
    let in_buffers = 8 <= col < height - 8;
    let k = (col - 8) / 84;
    let bs = 8 + 84 * k;
    let be = if bs + 84 < height - 8 { bs + 84 } else { height - 8 };
    let bh = be - bs;
    let lc = col - bs;
    let e1 = lc * label / bh;
    let e2 = label - 1 - e1;
    outer || (in_buffers && (lc < 2 || lc >= bh - 2 || dist(lr, e1) < 2 || dist(lr, e2) < 2 || number_dot(
        lr,
        lc,
        k,
    )))
}

/// Whether dot `row` of page column `col` is black in the test pattern:
/// label dots are centred on the printhead, the rest stay white.
pub open spec fn test_pattern_dot(label: int, height: int, col: int, row: int) -> bool {
    let off = (384 - label) / 2;
    off <= row < off + label && pattern_dot(label, height, col, row - off)
}

fn pattern_dot_exec(label: u32, height: u32, col: u32, row: u32) -> (r: bool)
    requires
        label <= 384,
        8 <= height <= 0x0800_0000,
        col < height,
        row < 384,
    ensures
        r == test_pattern_dot(label as int, height as int, col as int, row as int),
{
    let off: u32 = (384 - label) / 2;
    if row < off || row >= off + label {
        return false;
    }
    let lr: u32 = row - off;
    let outer = lr < 2 || lr >= label - 2 || col < 2 || col >= height - 2;
    if outer {
        return true;
    }
    if col < 8 || col >= height - 8 {
        return false;
    }
    let k: u32 = (col - 8) / 84;
    let bs: u32 = 8 + 84 * k;
    let be: u32 = if bs + 84 < height - 8 {
        bs + 84
    } else {
        height - 8
    };
    let bh: u32 = be - bs;
    let lc: u32 = col - bs;
    assert(0 <= lc < 84) by (nonlinear_arith)
        requires
            lc == col - bs,
            bs == 8 + 84 * k,
            k == (col - 8) / 84,
            col >= 8,
    ;
    assert(lc < bh);
    assert(lc as int * label as int <= 84 * 384) by (nonlinear_arith)
        requires
            lc < 84,
            label <= 384,
    ;
    let e1: u32 = lc * label / bh;
    assert(e1 < label) by (nonlinear_arith)
        requires
            e1 == lc as int * label as int / bh as int,
            lc < bh,
            label >= 1,
    ;
    let e2: u32 = label - 1 - e1;
    let d1: u32 = if lr >= e1 {
        lr - e1
    } else {
        e1 - lr
    };
    let d2: u32 = if lr >= e2 {
        lr - e2
    } else {
        e2 - lr
    };
    let num = 10 <= lc && lc < 18 && lr >= 10 && (lr - 10) % 12 < 8 && (lr - 10) / 12 <= k;
    lc < 2 || (bh >= 2 && lc >= bh - 2) || bh < 2 || d1 < 2 || d2 < 2 || num
}

/// A test pattern for a label `label_width_mm` wide and `height_mm` long,
/// already in the printhead's column-major LSB-first layout.
///
/// Returns `(data, canvas_width_dots, height_dots, bytes_per_line)`.
pub fn create_test_pattern(label_width_mm: u32, height_mm: u32) -> (r: (Vec<u8>, u32, u32, u32))
    requires
        label_width_mm <= 48,
        height_mm <= 0x0010_0000,
    ensures
        r.1 == 384 && r.3 == 48,
        r.2 == 8 * height_mm,
        r.0@.len() == 48 * r.2,
        forall|col: int, row: int|
            0 <= col < r.2 && 0 <= row < 384 ==> #[trigger] column_dot(r.0@, 48, col, row) == test_pattern_dot(
                8 * label_width_mm,
                8 * height_mm,
                col,
                row,
            ),
{
    let canvas: u32 = PRINTHEAD_WIDTH_MM * DPI;
    let height: u32 = height_mm * DPI;
    let bpl: u32 = canvas / 8;
    let label: u32 = label_width_mm * DPI;
    let n: usize = height as usize * bpl as usize;
    let mut out: Vec<u8> = Vec::new();
    let mut i: usize = 0;
    while i < n
        invariant
            canvas == 384,
            bpl == 48,
            height == 8 * height_mm,
            label == 8 * label_width_mm,
            label_width_mm <= 48,
            height_mm <= 0x0010_0000,
            n == height as int * 48,
            out@.len() == i,
            i <= n,
            forall|k: int, b: u8|
                0 <= k < i && b < 8 ==> #[trigger] bit_of(out@[k], b) == test_pattern_dot(
                    label as int,
                    height as int,
                    k / 48,
                    8 * (k % 48) + b,
                ),
        decreases n - i,
    {
        let col: u32 = (i / 48) as u32;
        let j: u32 = (i % 48) as u32;
        let mut v: u8 = 0;
        let mut b: u8 = 0;
        proof {
            lemma_zero_bits();
        }
        while b < 8
            invariant
                b <= 8,
                j < 48,
                col < height,
                height == 8 * height_mm,
                label == 8 * label_width_mm,
                label_width_mm <= 48,
                height_mm <= 0x0010_0000,
                forall|c: u8| c < 8 ==> #[trigger] bit_of(v, c) == (c < b && test_pattern_dot(
                    label as int,
                    height as int,
                    col as int,
                    8 * j + c,
                )),
            decreases 8 - b,
        {
            if pattern_dot_exec(label, height, col, 8 * j + b as u32) {
                v = with_bit(v, b);
            }
            b = b + 1;
        }
        out.push(v);
        i = i + 1;
    }
    proof {
        assert forall|col: int, row: int|
            0 <= col < height && 0 <= row < 384 implies #[trigger] column_dot(out@, 48, col, row) == test_pattern_dot(
            label as int,
            height as int,
            col,
            row,
        ) by {
            lemma_dot_split(row);
            lemma_grid_index(col, height as int, 48, row / 8);
        }
    }
    (out, canvas, height, bpl)
}

} // verus!
