use std::io::Write;

use supvan_proto::bitmap::{
    center_in_printhead, create_test_pattern, raster_to_column_major, DEFAULT_MARGIN_DOTS, DOTS_PER_MM,
    PRINTHEAD_BYTES_PER_LINE, PRINTHEAD_WIDTH_DOTS,
};
use supvan_proto::buffer::{
    build_page_reg_bits, build_print_buffer, split_into_buffers, PageRegBits, PrintBufferParams, MAX_BUF_DATA,
    PRINT_BUF_HEADER, PRINT_BUF_SIZE,
};
use supvan_proto::compress::{compress_buffers, compress_lzma};
use supvan_proto::error::Error;
use supvan_proto::job::render_raster;

fn generate_row_major_1bpp(width: u32, height: u32, fill: u8) -> Vec<u8> {
    let bytes_per_row = width.div_ceil(8) as usize;
    vec![fill; bytes_per_row * height as usize]
}

fn write_pbm_p4(data: &[u8], width: u32, height: u32) -> Vec<u8> {
    let header = format!("P4\n{width} {height}\n");
    let mut buf = Vec::with_capacity(header.len() + data.len());
    buf.extend_from_slice(header.as_bytes());
    buf.extend_from_slice(data);
    buf
}

fn parse_pbm_p4(pbm: &[u8]) -> (u32, u32, usize) {
    assert!(pbm.len() >= 7, "PBM too short");
    assert_eq!(&pbm[..3], b"P4\n", "not a P4 PBM");
    let nl_pos = pbm[3..].iter().position(|&b| b == b'\n').expect("missing newline after dimensions");
    let dims = std::str::from_utf8(&pbm[3..3 + nl_pos]).expect("dimensions not ASCII");
    let mut parts = dims.split_whitespace();
    let w: u32 = parts.next().unwrap().parse().unwrap();
    let h: u32 = parts.next().unwrap().parse().unwrap();
    let offset = 3 + nl_pos + 1;
    (w, h, offset)
}

fn decompress_lzma(data: &[u8]) -> Vec<u8> {
    let stream = xz2::stream::Stream::new_lzma_decoder(u64::MAX).unwrap();
    let mut decompressed = Vec::new();
    let mut decoder = xz2::write::XzDecoder::new_stream(&mut decompressed, stream);
    decoder.write_all(data).unwrap();
    decoder.flush().unwrap();
    drop(decoder);
    decompressed
}

fn run_pipeline(raster: &[u8], width: u32, height: u32) -> (Vec<[u8; PRINT_BUF_SIZE]>, Vec<u8>, Vec<u8>) {
    let (col_data, num_cols, _col_bpl) = raster_to_column_major(raster, width, height);
    let canvas_width_dots = PRINTHEAD_WIDTH_DOTS;
    let (canvas, canvas_bpl) = center_in_printhead(&col_data, num_cols, width, canvas_width_dots);
    let buffers = split_into_buffers(
        &canvas,
        canvas_bpl as u8,
        num_cols as u16,
        DEFAULT_MARGIN_DOTS,
        DEFAULT_MARGIN_DOTS,
        4,
    );
    let (compressed, _avg) = compress_buffers(&buffers).unwrap();
    let decompressed = decompress_lzma(&compressed);
    (buffers, compressed, decompressed)
}

fn concat(buffers: &[[u8; PRINT_BUF_SIZE]]) -> Vec<u8> {
    let mut c = Vec::with_capacity(buffers.len() * PRINT_BUF_SIZE);
    for buf in buffers {
        c.extend_from_slice(buf);
    }
    c
}

#[test]
fn test_full_pipeline_solid_black() {
    let width = 40 * DOTS_PER_MM;
    let height = 30 * DOTS_PER_MM;
    let raster = generate_row_major_1bpp(width, height, 0xFF);
    let pbm = write_pbm_p4(&raster, width, height);
    let (pw, ph, offset) = parse_pbm_p4(&pbm);
    assert_eq!(pw, width);
    assert_eq!(ph, height);
    assert_eq!(&pbm[offset..], &raster[..]);
    let (buffers, compressed, decompressed) = run_pipeline(&raster, width, height);
    assert_eq!(buffers.len(), 3, "expected 3 buffers for 40x30mm");
    assert!(compressed.len() > 13, "compressed too small");
    assert_eq!(decompressed.len(), buffers.len() * PRINT_BUF_SIZE, "decompressed size mismatch");
    assert_eq!(decompressed, concat(&buffers), "roundtrip mismatch");
    for (i, buf) in buffers.iter().enumerate() {
        let has_data = buf[PRINT_BUF_HEADER..].iter().any(|&b| b != 0);
        assert!(has_data, "buffer {i} has no image data for solid black input");
    }
}

#[test]
fn test_full_pipeline_solid_white() {
    let width = 40 * DOTS_PER_MM;
    let height = 30 * DOTS_PER_MM;
    let raster = generate_row_major_1bpp(width, height, 0x00);
    let (buffers, _compressed, decompressed) = run_pipeline(&raster, width, height);
    assert_eq!(buffers.len(), 3);
    assert_eq!(decompressed, concat(&buffers));
    for (i, buf) in buffers.iter().enumerate() {
        let all_zero = buf[PRINT_BUF_HEADER..].iter().all(|&b| b == 0);
        assert!(all_zero, "buffer {i} has non-zero data for white input");
    }
}

#[test]
fn test_full_pipeline_checkerboard() {
    let width = 40 * DOTS_PER_MM;
    let height = 30 * DOTS_PER_MM;
    let bytes_per_row = width.div_ceil(8) as usize;
    let mut raster = Vec::with_capacity(bytes_per_row * height as usize);
    for y in 0..height {
        let fill = if y % 2 == 0 { 0xAA } else { 0x55 };
        raster.extend(std::iter::repeat_n(fill, bytes_per_row));
    }
    let (buffers, compressed, decompressed) = run_pipeline(&raster, width, height);
    assert_eq!(buffers.len(), 3);
    assert!(compressed.len() > 13);
    assert_eq!(decompressed, concat(&buffers));
    for (i, buf) in buffers.iter().enumerate() {
        let has_data = buf[PRINT_BUF_HEADER..].iter().any(|&b| b != 0);
        assert!(has_data, "buffer {i} has no data for checkerboard input");
    }
}

#[test]
fn test_full_pipeline_test_pattern() {
    let (col_data, canvas_width_dots, height_dots, bytes_per_line) = create_test_pattern(40, 30);
    assert_eq!(canvas_width_dots, 384);
    assert_eq!(height_dots, 240);
    assert_eq!(bytes_per_line, 48);
    let buffers = split_into_buffers(
        &col_data,
        bytes_per_line as u8,
        height_dots as u16,
        DEFAULT_MARGIN_DOTS,
        DEFAULT_MARGIN_DOTS,
        4,
    );
    assert_eq!(buffers.len(), 3);
    let (compressed, avg) = compress_buffers(&buffers).unwrap();
    assert!(avg > 0, "average compressed size should be > 0");
    let decompressed = decompress_lzma(&compressed);
    assert_eq!(decompressed, concat(&buffers), "test pattern roundtrip mismatch");
    for (i, buf) in buffers.iter().enumerate() {
        let has_data = buf[PRINT_BUF_HEADER..].iter().any(|&b| b != 0);
        assert!(has_data, "buffer {i} has no data for test pattern");
    }
}

#[test]
fn test_pipeline_various_sizes() {
    let sizes: &[(u32, u32)] = &[(40, 30), (30, 20), (48, 70), (25, 25), (50, 30)];
    for &(w_mm, h_mm) in sizes {
        let width = w_mm * DOTS_PER_MM;
        let height = h_mm * DOTS_PER_MM;
        let raster = generate_row_major_1bpp(width, height, 0xFF);
        let (col_data, num_cols, _) = raster_to_column_major(&raster, width, height);
        let canvas_width_dots = PRINTHEAD_WIDTH_DOTS;
        let (canvas, canvas_bpl) = center_in_printhead(&col_data, num_cols, width, canvas_width_dots);
        assert_eq!(canvas_bpl, PRINTHEAD_BYTES_PER_LINE, "{w_mm}x{h_mm}mm: canvas_bpl mismatch");
        assert_eq!(
            canvas.len(),
            num_cols as usize * PRINTHEAD_BYTES_PER_LINE as usize,
            "{w_mm}x{h_mm}mm: canvas size mismatch"
        );
        let buffers = split_into_buffers(
            &canvas,
            canvas_bpl as u8,
            num_cols as u16,
            DEFAULT_MARGIN_DOTS,
            DEFAULT_MARGIN_DOTS,
            4,
        );
        let image_cols = height - DEFAULT_MARGIN_DOTS as u32 * 2;
        let max_cols_per_buf = MAX_BUF_DATA as u32 / PRINTHEAD_BYTES_PER_LINE;
        let expected_bufs = image_cols.div_ceil(max_cols_per_buf) as usize;
        assert_eq!(buffers.len(), expected_bufs, "{w_mm}x{h_mm}mm: buffer count mismatch");
        let (compressed, _) = compress_buffers(&buffers).unwrap();
        let decompressed = decompress_lzma(&compressed);
        assert_eq!(decompressed, concat(&buffers), "{w_mm}x{h_mm}mm: roundtrip mismatch");
    }
}

#[test]
fn test_pbm_write_read() {
    let width = 40 * DOTS_PER_MM;
    let height = 30 * DOTS_PER_MM;
    let bytes_per_row = width.div_ceil(8) as usize;
    let mut data = vec![0u8; bytes_per_row * height as usize];
    for y in 0..height as usize {
        for bx in 0..bytes_per_row {
            data[y * bytes_per_row + bx] = ((y + bx) & 0xFF) as u8;
        }
    }
    let pbm = write_pbm_p4(&data, width, height);
    let (pw, ph, offset) = parse_pbm_p4(&pbm);
    assert_eq!(pw, width);
    assert_eq!(ph, height);
    assert_eq!(&pbm[offset..], &data[..], "PBM pixel data does not match original");
}

#[test]
fn test_raster_to_column_major_simple() {
    let input = [0xFF, 0x00];
    let (output, cols, bpl) = raster_to_column_major(&input, 8, 2);
    assert_eq!(cols, 2);
    assert_eq!(bpl, 1);
    assert_eq!(output[0], 0xFF);
    assert_eq!(output[1], 0x00);
}

#[test]
fn rotation_mirrors_bits_and_keeps_count() {
    let input = [0b1000_0001, 0b0110_0000, 0b1111_0000, 0x00];
    let (output, cols, bpl) = raster_to_column_major(&input, 16, 2);
    assert_eq!((cols, bpl), (2, 2));
    assert_eq!(output, vec![0b1000_0001, 0b0000_0110, 0b0000_1111, 0x00]);
    let ones = |v: &[u8]| v.iter().map(|b| b.count_ones()).sum::<u32>();
    assert_eq!(ones(&output), ones(&input));
}

#[test]
fn rotation_clears_bits_past_width() {
    let input = [0xFF, 0xFF];
    let (output, _, bpl) = raster_to_column_major(&input, 5, 2);
    assert_eq!(bpl, 1);
    assert_eq!(output, vec![0b0001_1111, 0b0001_1111]);
    let (short, _, _) = raster_to_column_major(&[0xFF], 8, 2);
    assert_eq!(short, vec![0xFF, 0x00]);
}

#[test]
fn test_center_in_printhead() {
    let input = vec![0xFF; 2];
    let (output, bpl) = center_in_printhead(&input, 2, 8, 24);
    assert_eq!(bpl, 3);
    assert_eq!(output[0], 0x00);
    assert_eq!(output[1], 0xFF);
    assert_eq!(output[2], 0x00);
}

#[test]
fn centring_keeps_dot_count_and_width() {
    let width = 37u32;
    let raster = generate_row_major_1bpp(width, 10, 0xFF);
    let (col, n, _) = raster_to_column_major(&raster, width, 10);
    let (canvas, bpl) = center_in_printhead(&col, n, width, 384);
    assert_eq!(bpl, 48);
    assert_eq!(canvas.len(), 10 * 48);
    let ones = |v: &[u8]| v.iter().map(|b| b.count_ones()).sum::<u32>();
    assert_eq!(ones(&canvas), ones(&col));
    assert_eq!(ones(&canvas), 37 * 10);
    // Odd gap: (384 - 37) / 2 = 173, so the first dot is bit 5 of byte 21.
    assert_eq!(canvas[21], 0b1110_0000);
    assert_eq!(canvas[20], 0);
}

#[test]
fn wide_input_is_cut_to_canvas() {
    let input: Vec<u8> = (0..8u8).collect();
    let (output, bpl) = center_in_printhead(&input, 2, 32, 16);
    assert_eq!(bpl, 2);
    assert_eq!(output, vec![0, 1, 4, 5]);
}

#[test]
fn test_create_test_pattern_dimensions() {
    let (data, w, h, bpl) = create_test_pattern(40, 30);
    assert_eq!(w, 384);
    assert_eq!(h, 240);
    assert_eq!(bpl, 48);
    assert_eq!(data.len(), 240 * 48);
}

#[test]
fn test_pattern_border_and_margins() {
    let (data, _, _, _) = create_test_pattern(40, 30);
    let dot = |col: usize, row: usize| (data[col * 48 + row / 8] >> (row % 8)) & 1 == 1;
    // Label is 320 dots centred at 32..352.
    assert!(!dot(0, 31));
    assert!(dot(0, 32));
    assert!(dot(100, 33));
    assert!(!dot(100, 34 + 100));
    assert!(dot(100, 351));
    assert!(!dot(100, 352));
    assert!(dot(239, 200));
}

#[test]
fn test_build_page_reg_bits_defaults() {
    let bits = build_page_reg_bits(&PageRegBits { nodu: 4, mat: 1, ..Default::default() });
    assert_eq!(bits[0], 0x00);
    assert_eq!(bits[1], 0x50);
}

#[test]
fn test_build_page_reg_bits_first_last() {
    let bits = build_page_reg_bits(&PageRegBits {
        page_st: true,
        page_end: true,
        prt_end: true,
        nodu: 4,
        mat: 1,
        ..Default::default()
    });
    assert_eq!(bits[0], 0x0E);
    assert_eq!(bits[1], 0x50);
}

#[test]
fn page_reg_bits_all_fields() {
    let bits = build_page_reg_bits(&PageRegBits {
        page_st: false,
        page_end: true,
        prt_end: false,
        cut: 0xFF,
        savepaper: true,
        first_cut: 0xFF,
        nodu: 0xFF,
        mat: 0xFF,
    });
    assert_eq!(bits[0], 0x04 | 0x70 | 0x80);
    assert_eq!(bits[1], 0xFF);
}

#[test]
fn test_build_print_buffer_checksum() {
    let data = vec![0u8; 84 * 48];
    let buf = build_print_buffer(&PrintBufferParams {
        image_data: &data,
        per_line_byte: 48,
        cols_in_buf: 84,
        page_st: true,
        page_end: true,
        prt_end: true,
        margin_top: 8,
        margin_bottom: 8,
        density: 4,
    });
    assert_eq!(buf[6], 48);
    assert_eq!(buf[4], 84);
    assert_eq!(buf[5], 0);
    assert_eq!(buf[8], 8);
    assert_eq!(buf[12], 4);
    let chk = buf[0] as u16 | ((buf[1] as u16) << 8);
    assert!(chk > 0);
}

#[test]
fn print_buffer_sparse_checksum() {
    let data = vec![1u8; 84 * 48];
    let buf = build_print_buffer(&PrintBufferParams {
        image_data: &data,
        per_line_byte: 48,
        cols_in_buf: 84,
        page_st: true,
        page_end: false,
        prt_end: false,
        margin_top: 0,
        margin_bottom: 2000,
        density: 20,
    });
    // Margins clamp to 1 and 900, density to 15 (the page register masks it to 4 bits).
    assert_eq!(&buf[8..12], &[1, 0, 0x84, 0x03]);
    assert_eq!(buf[12], 15);
    let head: u32 = buf[2..14].iter().map(|&b| b as u32).sum();
    // data_end = 84 * 48 + 14 = 4046: strides at 255, 511, ..., 3839 (15 of them), all image bytes of 1.
    let expected = head + 15;
    assert_eq!(buf[0] as u32 + 256 * buf[1] as u32, expected);
    assert!(buf[14 + 84 * 48..].iter().all(|&b| b == 0));
}

#[test]
fn test_split_into_buffers() {
    let per_line_byte = 48u8;
    let total_cols = 240u16;
    let image_data = vec![0u8; total_cols as usize * per_line_byte as usize];
    let bufs = split_into_buffers(&image_data, per_line_byte, total_cols, 8, 8, 4);
    assert_eq!(bufs.len(), 3);
}

#[test]
fn split_flags_first_and_last() {
    let image_data = vec![0u8; 400 * 48];
    let bufs = split_into_buffers(&image_data, 48, 400, 8, 8, 4);
    assert_eq!(bufs.len(), (384 + 83) / 84);
    for (i, b) in bufs.iter().enumerate() {
        let st = b[2] & 0x02 != 0;
        let end = b[2] & 0x04 != 0;
        let prt = b[2] & 0x08 != 0;
        assert_eq!(st, i == 0);
        assert_eq!(end, i == bufs.len() - 1);
        assert_eq!(prt, i == bufs.len() - 1);
    }
    assert_eq!(bufs[4][4] as usize, 384 - 4 * 84);
    let single = split_into_buffers(&image_data, 48, 20, 8, 8, 4);
    assert_eq!(single.len(), 1);
    assert_eq!(single[0][2] & 0x0E, 0x0E);
    assert!(split_into_buffers(&image_data, 48, 16, 8, 8, 4).is_empty());
}

#[test]
fn test_compress_lzma_header() {
    let data = vec![0u8; 4096];
    let compressed = compress_lzma(&data).unwrap();
    assert!(compressed.len() >= 13, "compressed too short: {}", compressed.len());
    assert_eq!(compressed[0], 0x5D, "wrong properties byte");
    assert_eq!(&compressed[1..5], &8192u32.to_le_bytes(), "wrong dict size");
    assert_eq!(&compressed[5..13], &4096u64.to_le_bytes(), "wrong uncompressed size");
}

#[test]
fn lzma_header_of_empty_input() {
    let c = compress_lzma(&[]).unwrap();
    assert_eq!(&c[..13], &[0x5D, 0x00, 0x20, 0x00, 0x00, 0, 0, 0, 0, 0, 0, 0, 0]);
}

#[test]
fn test_compress_roundtrip() {
    let data = vec![0x42u8; 1024];
    let compressed = compress_lzma(&data).unwrap();
    let stream = xz2::stream::Stream::new_lzma_decoder(u64::MAX).unwrap();
    let mut decompressed = Vec::new();
    let mut decoder = xz2::write::XzDecoder::new_stream(&mut decompressed, stream);
    std::io::Write::write_all(&mut decoder, &compressed).unwrap();
    std::io::Write::flush(&mut decoder).unwrap();
    drop(decoder);
    assert_eq!(decompressed, data);
}

#[test]
fn test_compress_buffers() {
    let buf = [0u8; 4096];
    let buffers = vec![buf; 3];
    let (compressed, avg) = compress_buffers(&buffers).unwrap();
    assert!(compressed.len() > 13);
    assert!(avg > 0);
}

#[test]
fn compress_buffers_rejects_empty_and_averages() {
    assert!(matches!(compress_buffers(&[]), Err(Error::InvalidParam(_))));
    let buffers = vec![[7u8; 4096]; 2];
    let (compressed, avg) = compress_buffers(&buffers).unwrap();
    assert_eq!(avg, compressed.len() / 2);
    assert_eq!(&compressed[5..13], &8192u64.to_le_bytes());
    assert_eq!(decompress_lzma(&compressed), concat(&buffers));
}

#[test]
fn render_raster_matches_manual_pipeline() {
    let width = 40 * DOTS_PER_MM;
    let height = 30 * DOTS_PER_MM;
    let raster = generate_row_major_1bpp(width, height, 0xFF);
    let page = render_raster(&raster, width, height, 4).unwrap();
    assert_eq!(page.buffers, 3);
    let (buffers, _, _) = run_pipeline(&raster, width, height);
    assert_eq!(decompress_lzma(&page.compressed), concat(&buffers));
    assert_eq!(page.speed, supvan_proto::speed::calc_speed(page.compressed.len() / 3));
    let (col, n, _) = raster_to_column_major(&raster, width, height);
    let (canvas, _) = center_in_printhead(&col, n, width, 384);
    assert_eq!(page.canvas, canvas);
    assert!(matches!(render_raster(&raster, width, 15, 4), Err(Error::InvalidParam(_))));
    assert!(matches!(render_raster(&raster, width, 16, 4), Err(Error::InvalidParam(_))));
    assert_eq!(render_raster(&raster, width, 17, 4).unwrap().buffers, 1);
}
