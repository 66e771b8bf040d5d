use vstd::prelude::*;

use crate::bits::{bit_of, lemma_zero_bits, test_bit, with_bit};
use crate::text::{dec_ascii, push_decimal};

verus! {

/// The header of a binary PBM image: its magic, then width and height in
/// decimal, each line ended by a newline.
pub open spec fn pbm_header(width: u32, height: u32) -> Seq<u8> {
    seq![80u8, 52u8, 10u8] + dec_ascii(width as nat) + seq![32u8] + dec_ascii(height as nat) + seq![10u8]
}

/// The header of a binary PGM image: its magic, width and height in
/// decimal, and the largest grey value, 255.
pub open spec fn pgm_header(width: u32, height: u32) -> Seq<u8> {
    seq![80u8, 53u8, 10u8] + dec_ascii(width as nat) + seq![32u8] + dec_ascii(height as nat) + seq![
        10u8,
        50u8,
        53u8,
        53u8,
        10u8,
    ]
}

/// The first `n` bytes of `data`, or all of it when shorter.
pub open spec fn prefix(data: Seq<u8>, n: int) -> Seq<u8> {
    if data.len() >= n {
        data.subrange(0, n)
    } else {
        data
    }
}

fn push_slice(out: &mut Vec<u8>, data: &[u8], n: usize)
    ensures
        final(out)@ == old(out)@ + prefix(data@, n as int),
{
    if data.len() >= n {
        out.extend_from_slice(&data[0..n]);
    } else {
        out.extend_from_slice(data);
    }
    assert(out@ =~= old(out)@ + prefix(data@, n as int));
}

fn push_header(out: &mut Vec<u8>, magic: u8, width: u32, height: u32)
    ensures
        final(out)@ == old(out)@ + seq![80u8, magic, 10u8] + dec_ascii(width as nat) + seq![32u8] + dec_ascii(
            height as nat,
        ) + seq![10u8],
{
    out.push(80);
    out.push(magic);
    out.push(10);
    push_decimal(out, width);
    out.push(32);
    push_decimal(out, height);
    out.push(10);
    assert(out@ =~= old(out)@ + seq![80u8, magic, 10u8] + dec_ascii(width as nat) + seq![32u8] + dec_ascii(
        height as nat,
    ) + seq![10u8]);
}

/// A row-major MSB-first raster as a binary PBM image, which has exactly
/// that pixel layout: the header, then the raster's first
/// `height * bytes_per_line` bytes.
pub fn pbm_image(raster: &[u8], width: u32, height: u32, bytes_per_line: u32) -> (r: Vec<u8>)
    requires
        height as int * bytes_per_line as int <= usize::MAX,
    ensures
        r@ == pbm_header(width, height) + prefix(raster@, height as int * bytes_per_line as int),
{
    let mut out: Vec<u8> = Vec::new();
    push_header(&mut out, 52, width, height);
    push_slice(&mut out, raster, height as usize * bytes_per_line as usize);
    assert(out@ =~= pbm_header(width, height) + prefix(raster@, height as int * bytes_per_line as int));
    out
}

/// Pixel `x` of row `y` of the viewable image of a column-major canvas:
/// dot `y` of column `x`, white past the end of the data.
pub open spec fn canvas_pixel(canvas: Seq<u8>, bpl: int, x: int, y: int) -> bool {
    let i = x * bpl + y / 8;
    0 <= i < canvas.len() && bit_of(canvas[i], (y % 8) as u8)
}

/// Byte `j` of row `y` of that image, MSB-first, `width` pixels wide.
fn row_byte(canvas: &[u8], cbpl: u32, width: u32, y: u32, j: u32) -> (r: u8)
    ensures
        forall|b: u8|
            b < 8 ==> #[trigger] bit_of(r, (7 - b) as u8) == (8 * j + b < width && canvas_pixel(
                canvas@,
                cbpl as int,
                8 * j + b,
                y as int,
            )),
{
    let mut r: u8 = 0;
    let mut b: u8 = 0;
    proof {
        lemma_zero_bits();
    }
    while b < 8
        invariant
            b <= 8,
            forall|c: u8|
                c < 8 ==> #[trigger] bit_of(r, (7 - c) as u8) == (c < b && 8 * j + c < width && canvas_pixel(
                    canvas@,
                    cbpl as int,
                    8 * j + c,
                    y as int,
                )),
        decreases 8 - b,
    {
        let x: u64 = 8 * j as u64 + b as u64;
        if x < width as u64 {
            proof {
                assert(x as int * cbpl as int <= u32::MAX as int * u32::MAX as int) by (nonlinear_arith)
                    requires
                        x < width,
                ;
            }
            let src: u64 = x * cbpl as u64 + (y / 8) as u64;
            if src < canvas.len() as u64 && test_bit(canvas[src as usize], (y % 8) as u8) {
                let ghost old_r = r;
                r = with_bit(r, 7 - b);
                proof {
                    assert forall|c: u8| c < 8 implies #[trigger] bit_of(r, (7 - c) as u8) == (bit_of(old_r, (7 - c) as u8) || c == b) by {
                        assert((7 - c) as u8 == (7 - b) as u8 <==> c == b);
                    }
                }
            }
        }
        b = b + 1;
    }
    r
}

/// Number of bytes of a row `width` pixels wide.
pub open spec fn row_bytes(width: u32) -> int {
    (width + 7) / 8
}

/// The column-major canvas turned back into a viewable binary PBM image of
/// `printhead_dots` rows and `num_cols` columns: pixel `(x, y)` is dot `y`
/// of canvas column `x`.
pub fn printhead_pbm(canvas: &[u8], num_cols: u32, canvas_bpl: u32, printhead_dots: u32) -> (r: Vec<u8>)
    ensures
        r@.len() == pbm_header(num_cols, printhead_dots).len() + printhead_dots * row_bytes(num_cols),
        r@.subrange(0, pbm_header(num_cols, printhead_dots).len() as int) == pbm_header(num_cols, printhead_dots),
        forall|y: int, x: int|
            0 <= y < printhead_dots && 0 <= x < 8 * row_bytes(num_cols) ==> #[trigger] bit_of(
                r@[pbm_header(num_cols, printhead_dots).len() + y * row_bytes(num_cols) + x / 8],
                (7 - x % 8) as u8,
            ) == (x < num_cols && canvas_pixel(canvas@, canvas_bpl as int, x, y)),
{
    let mut out: Vec<u8> = Vec::new();
    push_header(&mut out, 52, num_cols, printhead_dots);
    let ghost h = pbm_header(num_cols, printhead_dots);
    assert(out@ =~= h);
    let rb: u32 = num_cols / 8 + if num_cols % 8 != 0 {
        1
    } else {
        0
    };
    let mut y: u32 = 0;
    while y < printhead_dots
        invariant
            y <= printhead_dots,
            rb as int == row_bytes(num_cols),
            out@.len() == h.len() + y * rb,
            out@.subrange(0, h.len() as int) == h,
            forall|yy: int, x: int|
                0 <= yy < y && 0 <= x < 8 * rb ==> #[trigger] bit_of(out@[h.len() + yy * rb + x / 8], (7 - x % 8) as u8)
                    == (x < num_cols && canvas_pixel(canvas@, canvas_bpl as int, x, yy)),
        decreases printhead_dots - y,
    {
        let ghost before = out@;
        let mut j: u32 = 0;
        while j < rb
            invariant
                y < printhead_dots,
                j <= rb,
                rb as int == row_bytes(num_cols),
                before.len() == h.len() + y * rb,
                out@.len() == before.len() + j,
                forall|i: int| 0 <= i < before.len() ==> #[trigger] out@[i] == before[i],
                forall|jj: int, b: u8|
                    0 <= jj < j && b < 8 ==> #[trigger] bit_of(out@[before.len() + jj], (7 - b) as u8) == (8 * jj + b
                        < num_cols && canvas_pixel(canvas@, canvas_bpl as int, 8 * jj + b, y as int)),
            decreases rb - j,
        {
            let v = row_byte(canvas, canvas_bpl, num_cols, y, j);
            out.push(v);
            j = j + 1;
        }
        proof {
            assert forall|yy: int, x: int|
                0 <= yy < y + 1 && 0 <= x < 8 * rb implies #[trigger] bit_of(out@[h.len() + yy * rb + x / 8], (7 - x % 8) as u8)
                == (x < num_cols && canvas_pixel(canvas@, canvas_bpl as int, x, yy)) by {
                assert(0 <= x / 8 < rb);
                assert(x == 8 * (x / 8) + x % 8);
                assert(0 <= yy * rb) by (nonlinear_arith)
                    requires
                        0 <= yy,
                        0 <= rb,
                ;
                if yy < y {
                    assert(yy * rb + x / 8 < y * rb) by (nonlinear_arith)
                        requires
                            yy < y,
                            x / 8 < rb,
                            0 <= x / 8,
                    ;
                    assert(out@[h.len() + yy * rb + x / 8] == before[h.len() + yy * rb + x / 8]);
                } else {
                    assert(yy * rb == y * rb);
                    let b = (x % 8) as u8;
                    assert((7 - x % 8) as u8 == (7 - b) as u8);
                    assert(bit_of(out@[before.len() + x / 8], (7 - b) as u8) == (8 * (x / 8) + b < num_cols
                        && canvas_pixel(canvas@, canvas_bpl as int, 8 * (x / 8) + b, y as int)));
                }
            }
            assert(out@.subrange(0, h.len() as int) =~= h) by {
                assert forall|i: int| 0 <= i < h.len() implies out@[i] == h[i] by {
                    assert(out@[i] == before[i]);
                    assert(before.subrange(0, h.len() as int)[i] == h[i]);
                }
            }
            assert((y + 1) * rb == y * rb + rb) by (nonlinear_arith);
        }
        y = y + 1;
    }
    out
}

/// Collects 8-bit grayscale scanlines of a page before dithering, for
/// writing out as a PGM image.
pub struct PgmAccumulator {
    pub width: u32,
    pub height: u32,
    pub data: Vec<u8>,
    pub lines_received: u32,
}

impl PgmAccumulator {
    /// The image buffer holds `width * height` pixels.
    pub open spec fn wf(&self) -> bool {
        self.data@.len() == self.width as int * self.height as int
    }

    /// An empty accumulator for a `width` x `height` page.
    pub fn new(width: u32, height: u32) -> (r: Self)
        requires
            width as int * height as int <= usize::MAX,
        ensures
            r.wf(),
            r.width == width,
            r.height == height,
            r.lines_received == 0,
            forall|i: int| 0 <= i < r.data@.len() ==> r.data@[i] == 0,
    {
        PgmAccumulator { width, height, data: vec![0u8; width as usize * height as usize], lines_received: 0 }
    }

    /// Store scanline `y`: its first `width` pixels go to row `y`. Lines at
    /// or below the page's height are ignored.
    pub fn push_line(&mut self, y: u32, line: &[u8])
        requires
            old(self).wf(),
        ensures
            final(self).wf(),
            final(self).width == old(self).width,
            final(self).height == old(self).height,
            y >= old(self).height ==> *final(self) == *old(self),
            y < old(self).height ==> {
                &&& final(self).lines_received == if old(self).lines_received < u32::MAX {
                    (old(self).lines_received + 1) as u32
                } else {
                    old(self).lines_received
                }
                &&& forall|i: int|
                    0 <= i < final(self).data@.len() ==> #[trigger] final(self).data@[i] == {
                        let off = y as int * old(self).width as int;
                        if off <= i < off + old(self).width && i - off < line@.len() {
                            line@[i - off]
                        } else {
                            old(self).data@[i]
                        }
                    }
            },
    {
        if y >= self.height {
            return;
        }
        proof {
            assert(y as int * self.width as int + self.width as int <= self.width as int * self.height as int) by (nonlinear_arith)
                requires
                    y < self.height,
            ;
        }
        let total = self.data.len();
        let off: usize = y as usize * self.width as usize;
        let n: usize = if line.len() < self.width as usize {
            line.len()
        } else {
            self.width as usize
        };
        let ghost orig = self.data@;
        let ghost before = *self;
        let mut k: usize = 0;
        while k < n
            invariant
                k <= n,
                total == orig.len(),
                self.width == before.width,
                self.height == before.height,
                self.lines_received == before.lines_received,
                orig.len() == self.width as int * self.height as int,
                n <= line@.len(),
                n <= self.width,
                off + self.width <= orig.len(),
                off == y as int * self.width as int,
                self.data@.len() == orig.len(),
                forall|i: int|
                    0 <= i < orig.len() ==> #[trigger] self.data@[i] == if off <= i < off + k {
                        line@[i - off]
                    } else {
                        orig[i]
                    },
            decreases n - k,
        {
            self.data.set(off + k, line[k]);
            k = k + 1;
        }
        if self.lines_received < u32::MAX {
            self.lines_received = self.lines_received + 1;
        }
    }

    /// The collected page as a binary PGM image.
    pub fn pgm_image(&self) -> (r: Vec<u8>)
        requires
            self.wf(),
        ensures
            r@ == pgm_header(self.width, self.height) + self.data@,
    {
        let mut out: Vec<u8> = Vec::new();
        out.push(80);
        out.push(53);
        out.push(10);
        push_decimal(&mut out, self.width);
        out.push(32);
        push_decimal(&mut out, self.height);
        out.push(10);
        out.push(50);
        out.push(53);
        out.push(53);
        out.push(10);
        out.extend_from_slice(self.data.as_slice());
        assert(out@ =~= pgm_header(self.width, self.height) + self.data@);
        out
    }
}

} // verus!
