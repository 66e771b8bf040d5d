use vstd::prelude::*;

use crate::bitmap::{
    center_in_printhead, center_offset, ceil8, column_dot, lemma_grid_index, raster_pixel, raster_to_column_major,
    DEFAULT_MARGIN_DOTS, PRINTHEAD_WIDTH_DOTS,
};
use crate::buffer::{buffer_count, split_buffer, split_into_buffers};
use crate::compress::{compress_buffers, concat_seqs, lemma_concat_views, lzma_stream};
use crate::dump::PgmAccumulator;
use crate::error;
use crate::speed::{calc_speed, speed_for};

verus! {

/// A page ready for transfer.
pub struct RenderedPage {
    /// The compressed stream of all print buffers of the page.
    pub compressed: Vec<u8>,
    /// Speed code chosen from the average compressed size per buffer.
    pub speed: u16,
    /// Number of print buffers in the stream.
    pub buffers: usize,
    /// The page on the printhead: column-major LSB-first, 48 bytes a column.
    pub canvas: Vec<u8>,
}

/// Dot `d` of page column `col` on the printhead: pixel `(x, col)` of the
/// raster, for a raster narrower than the printhead centred with `x = d -
/// (384 - width) / 2`, for a wider one cut at dot 384.
pub open spec fn page_dot(raster: Seq<u8>, width: int, col: int, d: int) -> bool {
    if width >= 384 {
        raster_pixel(raster, ceil8(width), d, col)
    } else {
        let off = center_offset(width, 384);
        off <= d < off + width && raster_pixel(raster, ceil8(width), d - off, col)
    }
}

/// The print buffers of a page `height` columns long drawn on `canvas`.
pub open spec fn page_buffers(canvas: Seq<u8>, height: int, density: u8) -> Seq<Seq<u8>> {
    Seq::new(
        buffer_count(height - 16, 84) as nat,
        |i: int| split_buffer(canvas, 48, height as u16, 8, 8, density, i),
    )
}

/// `p` is the rendering of `raster`: its canvas holds the page's dots, and
/// its stream compresses that canvas's print buffers, at the speed their
/// average compressed size calls for.
pub open spec fn renders(p: RenderedPage, raster: Seq<u8>, width: u32, height: u32, density: u8) -> bool {
    &&& p.canvas@.len() == height * 48
    &&& forall|col: int, d: int|
        0 <= col < height && 0 <= d < 384 ==> #[trigger] column_dot(p.canvas@, 48, col, d) == page_dot(
            raster,
            width as int,
            col,
            d,
        )
    &&& p.buffers as int == buffer_count(height - 16, 84)
    &&& p.compressed@ == lzma_stream(concat_seqs(page_buffers(p.canvas@, height as int, density)))
    &&& p.speed == speed_for(p.compressed@.len() as int / p.buffers as int)
}

/// Turn a row-major MSB-first raster of `width` x `height` pixels into the
/// compressed stream of one page: rotate to columns, centre on the 384-dot
/// printhead, cut into print buffers between 8-dot margins, compress, and
/// pick the speed. A page needs more than its two margins, at most 65535
/// columns, and a rotated image that fits in memory.
pub fn render_raster(raster: &[u8], width: u32, height: u32, density: u8) -> (r: error::Result<RenderedPage>)
    ensures
        (height <= 16 || height > 65535) ==> r matches Err(error::Error::InvalidParam(_)),
        (17 <= height <= 65535 && height * ceil8(width as int) <= usize::MAX) ==> r is Ok,
        r matches Err(e) ==> e is InvalidParam,
        r matches Ok(p) ==> renders(p, raster@, width, height, density),
{
    if height <= 16 || height > 65535 {
        return Err(error::Error::InvalidParam("page height out of range".to_owned()));
    }
    let bpl: u64 = (width as u64 + 7) / 8;
    proof {
        assert(height as int * bpl as int <= 65535 * 0x2000_0000) by (nonlinear_arith)
            requires
                height <= 65535,
                bpl <= 0x2000_0000,
        ;
    }
    if height as u64 * bpl > usize::MAX as u64 {
        return Err(error::Error::InvalidParam("page too large".to_owned()));
    }
    let (col_data, num_cols, _col_bpl) = raster_to_column_major(raster, width, height);
    let (canvas, canvas_bpl) = center_in_printhead(col_data.as_slice(), num_cols, width, PRINTHEAD_WIDTH_DOTS);
    proof {
        let ib = ceil8(width as int);
        let h = height as int;
        assert forall|col: int, d: int|
            0 <= col < height && 0 <= d < 384 implies #[trigger] column_dot(canvas@, 48, col, d) == page_dot(
            raster@,
            width as int,
            col,
            d,
        ) by {
            if width >= 384 {
                assert(ib >= 48);
                assert(0 <= col * ib && col * ib + 48 <= h * ib) by (nonlinear_arith)
                    requires
                        0 <= col < h,
                        ib >= 48,
                ;
                assert(canvas@[col * 48 + d / 8] == col_data@[col * ib + d / 8]);
                assert(column_dot(col_data@, ib, col, d) == (d < width && raster_pixel(raster@, ib, d, col)));
            } else {
                let off = center_offset(width as int, 384);
                if off <= d < off + width {
                    let e = d - off;
                    lemma_grid_index(col, h, ib, e / 8);
                    assert(column_dot(col_data@, ib, col, e) == (e < width && raster_pixel(raster@, ib, e, col)));
                }
            }
        }
    }
    let buffers = split_into_buffers(
        canvas.as_slice(),
        canvas_bpl as u8,
        num_cols as u16,
        DEFAULT_MARGIN_DOTS,
        DEFAULT_MARGIN_DOTS,
        density,
    );
    assert(4074int / 48 == 84);
    proof {
        assert(buffer_count(height - 16, 84) > 0);
        lemma_concat_views(buffers@, page_buffers(canvas@, height as int, density));
    }
    let (compressed, avg) = match compress_buffers(buffers.as_slice()) {
        Ok(c) => c,
        Err(e) => return Err(e),
    };
    let speed = calc_speed(avg);
    Ok(RenderedPage { compressed, speed, buffers: buffers.len(), canvas })
}

/// A print job's page being received line by line.
pub struct KsJob {
    pub width: u32,
    pub height: u32,
    pub bytes_per_line: u32,
    pub raster_data: Vec<u8>,
    pub lines_received: u32,
    pub density: u8,
    /// Grayscale lines kept for a debugging dump, when one was asked for.
    pub pgm_acc: Option<PgmAccumulator>,
}

impl KsJob {
    /// The raster holds `height * bytes_per_line` bytes.
    pub open spec fn wf(&self) -> bool {
        self.raster_data@.len() == self.height as int * self.bytes_per_line as int
    }

    /// A job for pages of `w` x `h` pixels with `bpl` bytes per raster line,
    /// its raster blank.
    pub fn new(w: u32, h: u32, bpl: u32, density: u8) -> (r: Self)
        requires
            h as int * bpl as int <= usize::MAX,
        ensures
            r.wf(),
            r.width == w && r.height == h && r.bytes_per_line == bpl && r.density == density,
            r.lines_received == 0,
            r.pgm_acc is None,
            forall|i: int| 0 <= i < r.raster_data@.len() ==> r.raster_data@[i] == 0,
    {
        KsJob {
            width: w,
            height: h,
            bytes_per_line: bpl,
            raster_data: vec![0u8; h as usize * bpl as usize],
            lines_received: 0,
            density,
            pgm_acc: None,
        }
    }

    /// Store raster line `y`: its first `bytes_per_line` bytes go to row `y`.
    /// Returns false, changing nothing, for a line past the page.
    pub fn write_line(&mut self, y: u32, line: &[u8]) -> (r: bool)
        requires
            old(self).wf(),
        ensures
            final(self).wf(),
            r == (y < old(self).height),
            final(self).width == old(self).width,
            final(self).height == old(self).height,
            final(self).bytes_per_line == old(self).bytes_per_line,
            final(self).density == old(self).density,
            final(self).pgm_acc == old(self).pgm_acc,
            !r ==> final(self).raster_data@ == old(self).raster_data@ && final(self).lines_received == old(self).lines_received,
            r ==> {
                &&& final(self).lines_received == if old(self).lines_received < u32::MAX {
                    (old(self).lines_received + 1) as u32
                } else {
                    old(self).lines_received
                }
                &&& forall|i: int|
                    0 <= i < final(self).raster_data@.len() ==> #[trigger] final(self).raster_data@[i] == {
                        let off = y as int * old(self).bytes_per_line as int;
                        if off <= i < off + old(self).bytes_per_line && i - off < line@.len() {
                            line@[i - off]
                        } else {
                            old(self).raster_data@[i]
                        }
                    }
            },
    {
        if y >= self.height {
            return false;
        }
        proof {
            assert(y as int * self.bytes_per_line as int + self.bytes_per_line as int <= self.height as int
                * self.bytes_per_line as int) by (nonlinear_arith)
                requires
                    y < self.height,
            ;
        }
        let total = self.raster_data.len();
        let bpl = self.bytes_per_line;
        let off: usize = y as usize * bpl as usize;
        let n: usize = if line.len() < bpl as usize {
            line.len()
        } else {
            bpl as usize
        };
        let ghost orig = self.raster_data@;
        let ghost before = *self;
        let mut k: usize = 0;
        while k < n
            invariant
                k <= n,
                n <= line@.len(),
                n <= bpl,
                bpl == before.bytes_per_line,
                total == orig.len(),
                off + bpl <= orig.len(),
                off == y as int * bpl as int,
                self.width == before.width,
                self.height == before.height,
                self.bytes_per_line == before.bytes_per_line,
                self.density == before.density,
                self.pgm_acc == before.pgm_acc,
                self.lines_received == before.lines_received,
                orig.len() == self.height as int * self.bytes_per_line as int,
                self.raster_data@.len() == orig.len(),
                forall|i: int|
                    0 <= i < orig.len() ==> #[trigger] self.raster_data@[i] == if off <= i < off + k {
                        line@[i - off]
                    } else {
                        orig[i]
                    },
            decreases n - k,
        {
            self.raster_data.set(off + k, line[k]);
            k = k + 1;
        }
        if self.lines_received < u32::MAX {
            self.lines_received = self.lines_received + 1;
        }
        true
    }

    /// Render the received page for transfer.
    pub fn render_page(&self) -> (r: error::Result<RenderedPage>)
        ensures
            (self.height <= 16 || self.height > 65535) ==> r matches Err(error::Error::InvalidParam(_)),
            (17 <= self.height <= 65535 && self.height * ceil8(self.width as int) <= usize::MAX) ==> r is Ok,
            r matches Err(e) ==> e is InvalidParam,
            r matches Ok(p) ==> renders(p, self.raster_data@, self.width, self.height, self.density),
    {
        render_raster(self.raster_data.as_slice(), self.width, self.height, self.density)
    }

    /// Blank the raster for the next page.
    pub fn clear_page(&mut self)
        requires
            old(self).wf(),
        ensures
            final(self).wf(),
            final(self).lines_received == 0,
            final(self).raster_data@.len() == old(self).raster_data@.len(),
            forall|i: int| 0 <= i < final(self).raster_data@.len() ==> final(self).raster_data@[i] == 0,
            final(self).width == old(self).width && final(self).height == old(self).height,
            final(self).bytes_per_line == old(self).bytes_per_line && final(self).density == old(self).density,
    {
        let n = self.raster_data.len();
        let ghost before = *self;
        let mut k: usize = 0;
        while k < n
            invariant
                k <= n,
                n == self.raster_data@.len(),
                self.width == before.width,
                self.height == before.height,
                self.bytes_per_line == before.bytes_per_line,
                self.density == before.density,
                n == self.height as int * self.bytes_per_line as int,
                forall|i: int| 0 <= i < k ==> self.raster_data@[i] == 0,
            decreases n - k,
        {
            self.raster_data.set(k, 0);
            k = k + 1;
        }
        self.lines_received = 0;
    }
}

} // verus!
