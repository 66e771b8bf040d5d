use vstd::prelude::*;
use vstd::arithmetic::div_mod::lemma_fundamental_div_mod_converse;

use crate::bits::bit_of;
use crate::bytes::{byte_sum, hi8, lo8, sum_range, lemma_byte_sum_bounds};

verus! {

/// Largest image payload of one print buffer, in bytes.
pub const MAX_BUF_DATA: usize = 4074;
/// Size of one print buffer.
pub const PRINT_BUF_SIZE: usize = 4096;
/// Size of the print buffer header.
pub const PRINT_BUF_HEADER: usize = 14;

/// Fields of the two-byte page register of a print buffer header.
#[derive(Debug, Clone, Copy)]
pub struct PageRegBits {
    pub page_st: bool,
    pub page_end: bool,
    pub prt_end: bool,
    pub cut: u8,
    pub savepaper: bool,
    pub first_cut: u8,
    pub nodu: u8,
    pub mat: u8,
}

impl Default for PageRegBits {
    fn default() -> (r: Self)
        ensures
            !r.page_st && !r.page_end && !r.prt_end && r.cut == 0 && !r.savepaper && r.first_cut == 0
                && r.nodu == 0 && r.mat == 0,
    {
        PageRegBits {
            page_st: false,
            page_end: false,
            prt_end: false,
            cut: 0,
            savepaper: false,
            first_cut: 0,
            nodu: 0,
            mat: 0,
        }
    }
}

/// Byte 0 of the page register: flags in bits 1 to 3, cut mode in bits 4
/// to 6, save-paper in bit 7.
pub open spec fn page_reg_byte0(st: bool, end: bool, prt: bool, cut: u8, savepaper: bool) -> u8 {
    ((((if st { 0x02u8 } else { 0u8 }) | (if end { 0x04u8 } else { 0u8 }) | (if prt { 0x08u8 } else { 0u8 }))
        & 0x0Fu8) | ((cut & 0x07u8) << 4u8)) | (if savepaper { 0x80u8 } else { 0u8 })
}

/// Byte 1 of the page register: first-cut in bits 0 and 1, density in bits
/// 2 to 5, material in bits 6 and 7.
pub open spec fn page_reg_byte1(first_cut: u8, nodu: u8, mat: u8) -> u8 {
    ((first_cut & 0x03u8) | ((nodu & 0x0Fu8) << 2u8)) | ((mat & 0x03u8) << 6u8)
}

/// Encode the page register of a print buffer header.
pub fn build_page_reg_bits(p: &PageRegBits) -> (r: [u8; 2])
    ensures
        r@ == seq![
            page_reg_byte0(p.page_st, p.page_end, p.prt_end, p.cut, p.savepaper),
            page_reg_byte1(p.first_cut, p.nodu, p.mat),
        ],
{
    let st: u8 = if p.page_st {
        0x02
    } else {
        0
    };
    let end: u8 = if p.page_end {
        0x04
    } else {
        0
    };
    let prt: u8 = if p.prt_end {
        0x08
    } else {
        0
    };
    let save: u8 = if p.savepaper {
        0x80
    } else {
        0
    };
    // Only the flag bits survive in the low nibble.
    let b0: u8 = (((st | end | prt) & 0x0F) | ((p.cut & 0x07) << 4u8)) | save;
    let b1: u8 = ((p.first_cut & 0x03) | ((p.nodu & 0x0F) << 2u8)) | ((p.mat & 0x03) << 6u8);
    let r = [b0, b1];
    assert(r@ =~= seq![
        page_reg_byte0(p.page_st, p.page_end, p.prt_end, p.cut, p.savepaper),
        page_reg_byte1(p.first_cut, p.nodu, p.mat),
    ]);
    r
}

/// The page-start, page-end and print-end flags read back from byte 0 of the
/// page register.
pub proof fn lemma_page_flags(st: bool, end: bool, prt: bool, cut: u8, savepaper: bool)
    ensures
        bit_of(page_reg_byte0(st, end, prt, cut, savepaper), 1) == st,
        bit_of(page_reg_byte0(st, end, prt, cut, savepaper), 2) == end,
        bit_of(page_reg_byte0(st, end, prt, cut, savepaper), 3) == prt,
{
    assert(bit_of(page_reg_byte0(st, end, prt, cut, savepaper), 1) == st) by (bit_vector);
    assert(bit_of(page_reg_byte0(st, end, prt, cut, savepaper), 2) == end) by (bit_vector);
    assert(bit_of(page_reg_byte0(st, end, prt, cut, savepaper), 3) == prt) by (bit_vector);
}

/// Inputs of one print buffer.
pub struct PrintBufferParams<'a> {
    pub image_data: &'a [u8],
    pub per_line_byte: u8,
    pub cols_in_buf: u16,
    pub page_st: bool,
    pub page_end: bool,
    pub prt_end: bool,
    pub margin_top: u16,
    pub margin_bottom: u16,
    pub density: u8,
}

/// A margin clamped to the range the firmware accepts, 1 to 900 dots.
pub open spec fn clamp_margin(m: u16) -> u16 {
    if m < 1 {
        1
    } else if m > 900 {
        900
    } else {
        m
    }
}

/// Density limited to its largest value, 15.
pub open spec fn cap_density(d: u8) -> u8 {
    if d > 15 {
        15
    } else {
        d
    }
}

/// The 14-byte header of a print buffer, with the checksum bytes still zero.
pub open spec fn buffer_header(
    bpl: u8,
    cols: u16,
    st: bool,
    end: bool,
    prt: bool,
    mt: u16,
    mb: u16,
    density: u8,
) -> Seq<u8> {
    seq![
        0u8,
        0u8,
        page_reg_byte0(st, end, prt, 0, false),
        page_reg_byte1(0, density, 1),
        lo8(cols as int),
        hi8(cols as int),
        bpl,
        0u8,
        lo8(clamp_margin(mt) as int),
        hi8(clamp_margin(mt) as int),
        lo8(clamp_margin(mb) as int),
        hi8(clamp_margin(mb) as int),
        cap_density(density),
        0u8,
    ]
}

/// A print buffer before its checksum is filled in: the header, then the
/// image bytes (cut at the buffer's end), then zeros.
pub open spec fn buffer_body(
    img: Seq<u8>,
    bpl: u8,
    cols: u16,
    st: bool,
    end: bool,
    prt: bool,
    mt: u16,
    mb: u16,
    density: u8,
) -> Seq<u8> {
    buffer_header(bpl, cols, st, end, prt, mt, mb, density) + Seq::new(
        4082,
        |k: int|
            if k < img.len() {
                img[k]
            } else {
                0u8
            },
    )
}

/// Sum of the bytes at offsets `256 * k - 1` for `k` in `1..=n` that lie
/// inside `buf`.
pub open spec fn stride_sum(buf: Seq<u8>, n: int) -> int
    decreases n,
{
    if n <= 0 {
        0
    } else {
        stride_sum(buf, n - 1) + if n * 256 - 1 < buf.len() {
            buf[n * 256 - 1] as int
        } else {
            0
        }
    }
}

/// The firmware's checksum: header bytes 2 to 13 plus one byte at the end of
/// each full 256-byte stride up to `data_end`.
pub open spec fn buffer_checksum(buf: Seq<u8>, data_end: int) -> int {
    byte_sum(buf.subrange(2, 14)) + stride_sum(buf, data_end / 256)
}

/// A complete print buffer: the body with the low 16 bits of its checksum
/// stored little-endian in bytes 0 and 1.
pub open spec fn print_buffer(
    img: Seq<u8>,
    bpl: u8,
    cols: u16,
    st: bool,
    end: bool,
    prt: bool,
    mt: u16,
    mb: u16,
    density: u8,
) -> Seq<u8> {
    let body = buffer_body(img, bpl, cols, st, end, prt, mt, mb, density);
    let chk = buffer_checksum(body, cols * bpl + 14);
    body.update(0, lo8(chk)).update(1, hi8(chk))
}

proof fn lemma_stride_sum_cap(buf: Seq<u8>, n: int)
    requires
        buf.len() == 4096,
        n >= 16,
    ensures
        stride_sum(buf, n) == stride_sum(buf, 16),
    decreases n,
{
    if n > 16 {
        lemma_stride_sum_cap(buf, n - 1);
    }
}

proof fn lemma_stride_sum_frame(a: Seq<u8>, b: Seq<u8>, n: int)
    requires
        a.len() == b.len(),
        forall|i: int| 2 <= i < a.len() ==> a[i] == b[i],
    ensures
        stride_sum(a, n) == stride_sum(b, n),
    decreases n,
{
    if n > 0 {
        lemma_stride_sum_frame(a, b, n - 1);
    }
}

proof fn lemma_stride_sum_bound(buf: Seq<u8>, n: int)
    ensures
        0 <= stride_sum(buf, n) <= 255 * if n < 0 { 0 } else { n },
    decreases n,
{
    if n > 0 {
        lemma_stride_sum_bound(buf, n - 1);
    }
}

fn clamp_u16(v: u16) -> (r: u16)
    ensures
        r == clamp_margin(v),
{
    if v < 1 {
        1
    } else if v > 900 {
        900
    } else {
        v
    }
}

/// Assemble one 4096-byte print buffer: header, image bytes at offset 14,
/// and the firmware's sparse-stride checksum in bytes 0 and 1.
pub fn build_print_buffer(p: &PrintBufferParams) -> (r: [u8; 4096])
    ensures
        r@ == print_buffer(
            p.image_data@,
            p.per_line_byte,
            p.cols_in_buf,
            p.page_st,
            p.page_end,
            p.prt_end,
            p.margin_top,
            p.margin_bottom,
            p.density,
        ),
{
    let mut buf = [0u8; 4096];
    let page_bits = build_page_reg_bits(
        &PageRegBits {
            page_st: p.page_st,
            page_end: p.page_end,
            prt_end: p.prt_end,
            cut: 0,
            savepaper: false,
            first_cut: 0,
            nodu: p.density,
            mat: 1,
        },
    );
    buf[2] = page_bits[0];
    buf[3] = page_bits[1];
    buf[4] = (p.cols_in_buf % 256) as u8;
    buf[5] = (p.cols_in_buf / 256) as u8;
    buf[6] = p.per_line_byte;
    let mt = clamp_u16(p.margin_top);
    let mb = clamp_u16(p.margin_bottom);
    buf[8] = (mt % 256) as u8;
    buf[9] = (mt / 256) as u8;
    buf[10] = (mb % 256) as u8;
    buf[11] = (mb / 256) as u8;
    buf[12] = if p.density > 15 {
        15
    } else {
        p.density
    };
    let ghost hdr = buffer_header(
        p.per_line_byte,
        p.cols_in_buf,
        p.page_st,
        p.page_end,
        p.prt_end,
        p.margin_top,
        p.margin_bottom,
        p.density,
    );
    let ghost img = p.image_data@;
    assert(buf@.subrange(0, 14) =~= hdr);
    let data_len: usize = if p.image_data.len() < 4082 {
        p.image_data.len()
    } else {
        4082
    };
    let mut k: usize = 0;
    while k < data_len
        invariant
            data_len <= 4082,
            data_len <= img.len(),
            img == p.image_data@,
            k <= data_len,
            buf@.len() == 4096,
            buf@.subrange(0, 14) == hdr,
            forall|j: int| 14 <= j < 4096 ==> #[trigger] buf@[j] == if j - 14 < k { img[j - 14] } else { 0u8 },
        decreases data_len - k,
    {
        buf[14 + k] = p.image_data[k];
        k = k + 1;
        assert(buf@.subrange(0, 14) =~= hdr);
    }
    let ghost body = buffer_body(
        img,
        p.per_line_byte,
        p.cols_in_buf,
        p.page_st,
        p.page_end,
        p.prt_end,
        p.margin_top,
        p.margin_bottom,
        p.density,
    );
    assert forall|j: int| 0 <= j < 4096 implies #[trigger] buf@[j] == body[j] by {
        if j < 14 {
            assert(buf@[j] == buf@.subrange(0, 14)[j]);
        }
    }
    assert(buf@ =~= body);
    let head = sum_range(buf.as_slice(), 2, 14);
    proof {
        assert(p.cols_in_buf as int * p.per_line_byte as int <= 65535 * 255) by (nonlinear_arith);
    }
    let data_end: usize = p.cols_in_buf as usize * p.per_line_byte as usize + 14;
    let n: usize = data_end / 256;
    let m: usize = if n < 16 {
        n
    } else {
        16
    };
    let mut acc: u32 = 0;
    let mut i: usize = 1;
    while i <= m
        invariant
            m <= 16,
            1 <= i <= m + 1,
            buf@ == body,
            body.len() == 4096,
            acc as int == stride_sum(body, i - 1),
            acc <= 255 * (i - 1),
        decreases m + 1 - i,
    {
        let idx: usize = i * 256 - 1;
        if idx < 4096 {
            acc = acc + buf[idx] as u32;
        }
        i = i + 1;
    }
    proof {
        if n >= 16 {
            lemma_stride_sum_cap(body, n as int);
        }
        lemma_byte_sum_bounds(body.subrange(2, 14));
        assert(data_end as int == p.cols_in_buf as int * p.per_line_byte as int + 14);
    }
    let chk: u32 = head + acc;
    buf[0] = (chk % 256) as u8;
    buf[1] = ((chk / 256) % 256) as u8;
    assert(buf@ =~= body.update(0, lo8(chk as int)).update(1, hi8(chk as int)));
    buf
}

/// Columns that fit in one print buffer at `bpl` bytes per column.
pub open spec fn max_cols(bpl: u8) -> int {
    4074int / bpl as int
}

/// Image columns of a page: the total less both margins.
pub open spec fn image_cols(total: u16, mt: u16, mb: u16) -> int {
    total - mt - mb
}

/// Number of print buffers a page of `cols` image columns takes.
pub open spec fn buffer_count(cols: int, per_buf: int) -> int {
    (cols + per_buf - 1) / per_buf
}

/// Columns carried by buffer `i` of a page.
pub open spec fn chunk_cols(bpl: u8, total: u16, mt: u16, mb: u16, i: int) -> int {
    let rest = image_cols(total, mt, mb) - i * max_cols(bpl);
    if rest < max_cols(bpl) {
        rest
    } else {
        max_cols(bpl)
    }
}

/// The image bytes of buffer `i`, cut to what `image` holds.
pub open spec fn chunk_bytes(image: Seq<u8>, bpl: u8, total: u16, mt: u16, mb: u16, i: int) -> Seq<u8> {
    let start = (mt + i * max_cols(bpl)) * bpl;
    let end = start + chunk_cols(bpl, total, mt, mb, i) * bpl;
    let s = if start < image.len() { start } else { image.len() as int };
    let e = if end < image.len() { end } else { image.len() as int };
    image.subrange(s, e)
}

/// Buffer `i` of a page: flagged as the page start when first, and as page
/// end and print end when it holds the last columns.
pub open spec fn split_buffer(image: Seq<u8>, bpl: u8, total: u16, mt: u16, mb: u16, density: u8, i: int) -> Seq<u8> {
    let last = image_cols(total, mt, mb) - i * max_cols(bpl) <= max_cols(bpl);
    print_buffer(
        chunk_bytes(image, bpl, total, mt, mb, i),
        bpl,
        chunk_cols(bpl, total, mt, mb, i) as u16,
        i == 0,
        last,
        last,
        mt,
        mb,
        density,
    )
}

/// Cut the columns between the margins of a column-major canvas into print
/// buffers of at most `4074 / per_line_byte` columns each.
pub fn split_into_buffers(
    image_data: &[u8],
    per_line_byte: u8,
    total_cols: u16,
    margin_top: u16,
    margin_bottom: u16,
    density: u8,
) -> (r: Vec<[u8; 4096]>)
    requires
        per_line_byte > 0,
        margin_top + margin_bottom <= total_cols,
    ensures
        r@.len() == buffer_count(image_cols(total_cols, margin_top, margin_bottom), max_cols(per_line_byte)),
        forall|i: int|
            0 <= i < r@.len() ==> #[trigger] r@[i]@ == split_buffer(
                image_data@,
                per_line_byte,
                total_cols,
                margin_top,
                margin_bottom,
                density,
                i,
            ),
{
    let max_c: u16 = (4074 / per_line_byte as usize) as u16;
    let cols: u16 = total_cols - margin_top - margin_bottom;
    let mut buffers: Vec<[u8; 4096]> = Vec::new();
    let mut remaining: u16 = cols;
    let mut current: u16 = 0;
    let ghost mc = max_cols(per_line_byte);
    proof {
        assert(15 <= mc <= 4074) by (nonlinear_arith)
            requires
                mc == 4074int / per_line_byte as int,
                1 <= per_line_byte <= 255,
        ;
        assert(0 * mc == 0);
        assert(buffer_count(0, mc) == 0) by (nonlinear_arith)
            requires
                mc >= 15,
        ;
    }
    while remaining > 0
        invariant
            max_c as int == mc,
            mc == max_cols(per_line_byte),
            15 <= mc <= 4074,
            per_line_byte > 0,
            margin_top + margin_bottom <= total_cols,
            cols as int == image_cols(total_cols, margin_top, margin_bottom),
            current + remaining == cols,
            remaining > 0 ==> current as int == buffers@.len() * mc,
            remaining == 0 ==> buffers@.len() == buffer_count(cols as int, mc),
            forall|i: int|
                0 <= i < buffers@.len() ==> #[trigger] buffers@[i]@ == split_buffer(
                    image_data@,
                    per_line_byte,
                    total_cols,
                    margin_top,
                    margin_bottom,
                    density,
                    i,
                ),
        decreases remaining,
    {
        let ghost i = buffers@.len() as int;
        let in_buf: u16 = if remaining < max_c {
            remaining
        } else {
            max_c
        };
        let is_first = current == 0;
        let is_last = remaining <= max_c;
        proof {
            assert((margin_top + current) as int * per_line_byte as int <= 65535 * 255) by (nonlinear_arith)
                requires
                    margin_top + current <= 65535,
            ;
            assert(in_buf as int * per_line_byte as int <= 65535 * 255) by (nonlinear_arith);
            if is_first {
                assert(i == 0) by (nonlinear_arith)
                    requires
                        current as int == i * mc,
                        current == 0,
                        mc >= 15,
                        i >= 0,
                ;
            }
        }
        let start: usize = (margin_top + current) as usize * per_line_byte as usize;
        let end: usize = start + in_buf as usize * per_line_byte as usize;
        let s: usize = if start < image_data.len() {
            start
        } else {
            image_data.len()
        };
        let e: usize = if end < image_data.len() {
            end
        } else {
            image_data.len()
        };
        let chunk = &image_data[s..e];
        let buf = build_print_buffer(
            &PrintBufferParams {
                image_data: chunk,
                per_line_byte,
                cols_in_buf: in_buf,
                page_st: is_first,
                page_end: is_last,
                prt_end: is_last,
                margin_top,
                margin_bottom,
                density,
            },
        );
        assert(buf@ == split_buffer(image_data@, per_line_byte, total_cols, margin_top, margin_bottom, density, i));
        buffers.push(buf);
        proof {
            if is_last {
                // The page is `i` full buffers and one of `in_buf >= 1` columns.
                assert(cols as int + mc - 1 == (i + 1) * mc + (in_buf - 1)) by (nonlinear_arith)
                    requires
                        current as int == i * mc,
                        current + remaining == cols,
                        in_buf == remaining,
                ;
                lemma_fundamental_div_mod_converse(cols as int + mc - 1, mc, i + 1, in_buf - 1);
            } else {
                assert(current + in_buf == (i + 1) * mc) by (nonlinear_arith)
                    requires
                        current as int == i * mc,
                        in_buf == mc,
                ;
            }
        }
        current = current + in_buf;
        remaining = remaining - in_buf;
    }
    buffers
}

/// Every page is cut into `ceil(image_cols / max_cols)` buffers; the first
/// carries the page-start flag, the last carries page-end and print-end, and
/// every other buffer carries none of these.
pub proof fn lemma_split_flags(image: Seq<u8>, bpl: u8, total: u16, mt: u16, mb: u16, density: u8, i: int)
    requires
        bpl > 0,
        mt + mb <= total,
        0 <= i < buffer_count(image_cols(total, mt, mb), max_cols(bpl)),
    ensures
        bit_of(split_buffer(image, bpl, total, mt, mb, density, i)[2], 1) == (i == 0),
        bit_of(split_buffer(image, bpl, total, mt, mb, density, i)[2], 2) == (i == buffer_count(
            image_cols(total, mt, mb),
            max_cols(bpl),
        ) - 1),
        bit_of(split_buffer(image, bpl, total, mt, mb, density, i)[2], 3) == (i == buffer_count(
            image_cols(total, mt, mb),
            max_cols(bpl),
        ) - 1),
{
    let mc = max_cols(bpl);
    let cols = image_cols(total, mt, mb);
    let n = buffer_count(cols, mc);
    assert(15 <= mc) by (nonlinear_arith)
        requires
            mc == 4074int / bpl as int,
            1 <= bpl <= 255,
    ;
    let last = cols - i * mc <= mc;
    // `n` is the least count whose columns cover the page.
    assert(n * mc >= cols && (n - 1) * mc < cols) by (nonlinear_arith)
        requires
            n == (cols + mc - 1) / mc,
            mc >= 15,
            cols >= 0,
    ;
    assert(last == (i == n - 1)) by (nonlinear_arith)
        requires
            last == (cols - i * mc <= mc),
            n * mc >= cols,
            (n - 1) * mc < cols,
            0 <= i < n,
            mc >= 15,
    ;
    let b = split_buffer(image, bpl, total, mt, mb, density, i);
    let c = chunk_cols(bpl, total, mt, mb, i);
    let body = buffer_body(chunk_bytes(image, bpl, total, mt, mb, i), bpl, c as u16, i == 0, last, last, mt, mb, density);
    assert(b[2] == body[2]);
    lemma_page_flags(i == 0, last, last, 0, false);
}

} // verus!
