use vstd::prelude::*;

use crate::bits::{bit_of, lemma_zero_bits, test_bit};
use crate::cmd::{CMD_INQUIRY_STA, CMD_RD_DEV_NAME, CMD_READ_FWVER, CMD_READ_REV, CMD_RETURN_MAT, MAGIC1, MAGIC2};
use crate::text::{
    ascii_chars, dec2_concat, decimal_pairs, hex_ascii, hex_upper, lossy_text, trim_zeros, trimmed_length,
    trimmed_len, utf8_lossy,
};

verus! {

/// Printer status registers as reported by a status query.
#[derive(Debug, Clone, Copy)]
pub struct PrinterStatus {
    pub buf_full: bool,
    pub label_rw_error: bool,
    pub label_end: bool,
    pub label_mode_error: bool,
    pub ribbon_rw_error: bool,
    pub ribbon_end: bool,
    pub low_battery: bool,
    pub device_busy: bool,
    pub head_temp_high: bool,
    pub cover_open: bool,
    pub insert_usb: bool,
    pub printing: bool,
    pub label_not_installed: bool,
    pub print_count: u16,
}

impl Default for PrinterStatus {
    fn default() -> (r: Self)
        ensures
            r == decode_status(0, 0, 0, 0, 0, 0),
    {
        proof {
            lemma_zero_bits();
        }
        PrinterStatus {
            buf_full: false,
            label_rw_error: false,
            label_end: false,
            label_mode_error: false,
            ribbon_rw_error: false,
            ribbon_end: false,
            low_battery: false,
            device_busy: false,
            head_temp_high: false,
            cover_open: false,
            insert_usb: false,
            printing: false,
            label_not_installed: false,
            print_count: 0,
        }
    }
}

/// `parts` with `label` added when `flag` is set.
pub open spec fn push_if(parts: Seq<Seq<char>>, flag: bool, label: Seq<char>) -> Seq<Seq<char>> {
    if flag {
        parts.push(label)
    } else {
        parts
    }
}

/// Labels of the error flags, in reporting order.
pub open spec fn error_labels(s: PrinterStatus) -> Seq<Seq<char>> {
    let p1 = push_if(seq![], s.label_rw_error, "label read/write error"@);
    let p2 = push_if(p1, s.label_end, "label roll end"@);
    let p3 = push_if(p2, s.label_mode_error, "label mode mismatch"@);
    let p4 = push_if(p3, s.ribbon_rw_error, "ribbon read/write error"@);
    let p5 = push_if(p4, s.ribbon_end, "ribbon end"@);
    let p6 = push_if(p5, s.cover_open, "cover open"@);
    let p7 = push_if(p6, s.head_temp_high, "printhead temperature too high"@);
    push_if(p7, s.label_not_installed, "label not installed"@)
}

/// Parts joined with `", "` between them.
pub open spec fn join_comma(parts: Seq<Seq<char>>) -> Seq<char>
    decreases parts.len(),
{
    if parts.len() == 0 {
        seq![]
    } else if parts.len() == 1 {
        parts[0]
    } else {
        join_comma(parts.drop_last()) + ", "@ + parts.last()
    }
}

impl PrinterStatus {
    /// Some error flag is set.
    pub open spec fn any_error(&self) -> bool {
        self.label_rw_error || self.label_end || self.label_mode_error || self.ribbon_rw_error
            || self.ribbon_end || self.cover_open || self.head_temp_high || self.label_not_installed
    }

    /// Whether any error flag is set.
    pub fn has_error(&self) -> (r: bool)
        ensures
            r == self.any_error(),
    {
        self.label_rw_error || self.label_end || self.label_mode_error || self.ribbon_rw_error
            || self.ribbon_end || self.cover_open || self.head_temp_high || self.label_not_installed
    }

    /// The labels of the set error flags joined by `", "`, or `None` when no
    /// error flag is set.
    pub fn error_description(&self) -> (r: Option<String>)
        ensures
            r is None <==> !self.any_error(),
            r matches Some(t) ==> t@ == join_comma(error_labels(*self)),
    {
        let mut out = String::new();
        let mut n: usize = 0;
        let ghost p0: Seq<Seq<char>> = seq![];
        add_if(&mut out, &mut n, Ghost(p0), self.label_rw_error, "label read/write error");
        let ghost p1 = push_if(p0, self.label_rw_error, "label read/write error"@);
        add_if(&mut out, &mut n, Ghost(p1), self.label_end, "label roll end");
        let ghost p2 = push_if(p1, self.label_end, "label roll end"@);
        add_if(&mut out, &mut n, Ghost(p2), self.label_mode_error, "label mode mismatch");
        let ghost p3 = push_if(p2, self.label_mode_error, "label mode mismatch"@);
        add_if(&mut out, &mut n, Ghost(p3), self.ribbon_rw_error, "ribbon read/write error");
        let ghost p4 = push_if(p3, self.ribbon_rw_error, "ribbon read/write error"@);
        add_if(&mut out, &mut n, Ghost(p4), self.ribbon_end, "ribbon end");
        let ghost p5 = push_if(p4, self.ribbon_end, "ribbon end"@);
        add_if(&mut out, &mut n, Ghost(p5), self.cover_open, "cover open");
        let ghost p6 = push_if(p5, self.cover_open, "cover open"@);
        add_if(&mut out, &mut n, Ghost(p6), self.head_temp_high, "printhead temperature too high");
        let ghost p7 = push_if(p6, self.head_temp_high, "printhead temperature too high"@);
        add_if(&mut out, &mut n, Ghost(p7), self.label_not_installed, "label not installed");
        if n == 0 {
            None
        } else {
            Some(out)
        }
    }
}

fn add_if(out: &mut String, n: &mut usize, Ghost(parts): Ghost<Seq<Seq<char>>>, flag: bool, part: &str)
    requires
        old(out)@ == join_comma(parts),
        *old(n) == parts.len(),
        parts.len() < 8,
    ensures
        final(out)@ == join_comma(push_if(parts, flag, part@)),
        *final(n) == push_if(parts, flag, part@).len(),
{
    if flag {
        assert(parts.push(part@).drop_last() =~= parts);
        if *n > 0 {
            out.append(", ");
        }
        out.append(part);
        *n = *n + 1;
    }
}

/// The status carried by the four register bytes and the LE16 print count.
pub open spec fn decode_status(m0: u8, m1: u8, f0: u8, f1: u8, c0: u8, c1: u8) -> PrinterStatus {
    PrinterStatus {
        buf_full: bit_of(m0, 0),
        label_rw_error: bit_of(m0, 1),
        label_end: bit_of(m0, 2),
        label_mode_error: bit_of(m0, 3),
        ribbon_rw_error: bit_of(m0, 4),
        ribbon_end: bit_of(m0, 5),
        low_battery: bit_of(m0, 6),
        device_busy: bit_of(m1, 2),
        head_temp_high: bit_of(m1, 3),
        cover_open: bit_of(f0, 3),
        insert_usb: bit_of(f0, 4),
        printing: bit_of(f0, 6),
        label_not_installed: bit_of(f1, 0),
        print_count: (c0 + 256 * c1) as u16,
    }
}

/// Decode the status registers.
pub fn status_from_registers(m0: u8, m1: u8, f0: u8, f1: u8, c0: u8, c1: u8) -> (r: PrinterStatus)
    ensures
        r == decode_status(m0, m1, f0, f1, c0, c1),
{
    PrinterStatus {
        buf_full: test_bit(m0, 0),
        label_rw_error: test_bit(m0, 1),
        label_end: test_bit(m0, 2),
        label_mode_error: test_bit(m0, 3),
        ribbon_rw_error: test_bit(m0, 4),
        ribbon_end: test_bit(m0, 5),
        low_battery: test_bit(m0, 6),
        device_busy: test_bit(m1, 2),
        head_temp_high: test_bit(m1, 3),
        cover_open: test_bit(f0, 3),
        insert_usb: test_bit(f0, 4),
        printing: test_bit(f0, 6),
        label_not_installed: test_bit(f1, 0),
        print_count: c0 as u16 + 256 * c1 as u16,
    }
}

/// A frame opens with the two magic bytes and echoes `cmd` at byte 7.
pub open spec fn frame_echoes(data: Seq<u8>, cmd: u8) -> bool {
    data.len() >= 8 && data[0] == MAGIC1 && data[1] == MAGIC2 && data[7] == cmd
}

/// Whether `data` is a response frame that echoes `expected_cmd`.
pub fn validate_response(data: &[u8], expected_cmd: u8) -> (r: bool)
    ensures
        r == frame_echoes(data@, expected_cmd),
{
    data.len() >= 8 && data[0] == MAGIC1 && data[1] == MAGIC2 && data[7] == expected_cmd
}

/// The status a Bluetooth status response carries, if it is one.
pub open spec fn bt_status(data: Seq<u8>) -> Option<PrinterStatus> {
    if data.len() >= 20 && frame_echoes(data, CMD_INQUIRY_STA) {
        Some(decode_status(data[14], data[15], data[16], data[17], data[18], data[19]))
    } else {
        None
    }
}

/// Decode a Bluetooth status response: at least 20 bytes echoing the status
/// query, registers at bytes 14 to 17 and the print count at 18 and 19.
pub fn parse_status(data: &[u8]) -> (r: Option<PrinterStatus>)
    ensures
        r == bt_status(data@),
{
    if data.len() < 20 {
        return None;
    }
    if data[0] != MAGIC1 || data[1] != MAGIC2 {
        return None;
    }
    if data[7] != CMD_INQUIRY_STA {
        return None;
    }
    Some(status_from_registers(data[14], data[15], data[16], data[17], data[18], data[19]))
}

/// Label and device details reported by a material query.
#[derive(Debug, Clone)]
pub struct MaterialInfo {
    pub uuid: String,
    pub code: String,
    pub sn: u16,
    pub label_type: u8,
    pub width_mm: u8,
    pub height_mm: u8,
    pub gap_mm: u8,
    pub remaining: Option<u32>,
    pub device_sn: Option<String>,
}

/// Little-endian 32-bit value of four bytes.
pub open spec fn le32(b0: u8, b1: u8, b2: u8, b3: u8) -> int {
    b0 + 256 * b1 + 65536 * b2 + 16777216 * b3
}

/// Decode a Bluetooth material response of at least 43 bytes echoing the
/// material query. The remaining-label count is present from 47 bytes on,
/// the device serial from 57 bytes on.
pub fn parse_material(data: &[u8]) -> (r: Option<MaterialInfo>)
    ensures
        r is Some <==> (data@.len() >= 43 && frame_echoes(data@, CMD_RETURN_MAT)),
        r matches Some(m) ==> {
            &&& m.uuid@ == ascii_chars(hex_ascii(data@.subrange(22, 29)))
            &&& m.code@ == ascii_chars(hex_ascii(data@.subrange(29, 37)))
            &&& m.sn as int == 256 * data@[37] + data@[38]
            &&& m.label_type == data@[39]
            &&& m.width_mm == data@[40]
            &&& m.height_mm == data@[41]
            &&& m.gap_mm == data@[42]
            &&& (m.remaining is Some <==> data@.len() >= 47)
            &&& (m.remaining matches Some(n) ==> n as int == le32(data@[43], data@[44], data@[45], data@[46]))
            &&& (m.device_sn is Some <==> data@.len() >= 57)
            &&& (m.device_sn matches Some(t) ==> t@ == ascii_chars(dec2_concat(data@.subrange(51, 57))))
        },
{
    if data.len() < 43 {
        return None;
    }
    if data[0] != MAGIC1 || data[1] != MAGIC2 {
        return None;
    }
    if data[7] != CMD_RETURN_MAT {
        return None;
    }
    let uuid = hex_upper(&data[22..29]);
    let code = hex_upper(&data[29..37]);
    // The serial is big-endian, unlike every other field.
    let sn: u16 = 256 * data[37] as u16 + data[38] as u16;
    let remaining = if data.len() >= 47 {
        Some(
            data[43] as u32 + 256 * data[44] as u32 + 65536 * data[45] as u32 + 16777216 * data[46] as u32,
        )
    } else {
        None
    };
    let device_sn = if data.len() >= 57 {
        Some(decimal_pairs(&data[51..57]))
    } else {
        None
    };
    Some(
        MaterialInfo {
            uuid,
            code,
            sn,
            label_type: data[39],
            width_mm: data[40],
            height_mm: data[41],
            gap_mm: data[42],
            remaining,
            device_sn,
        },
    )
}

/// Length of the name field of a device-name response: the LE16 payload
/// length at bytes 2 and 3, less 18, floored at zero.
pub open spec fn name_len(data: Seq<u8>) -> int {
    let p = data[2] + 256 * data[3];
    if p > 18 {
        p - 18
    } else {
        0
    }
}

/// The name field of a device-name response.
pub open spec fn name_field(data: Seq<u8>) -> Seq<u8> {
    data.subrange(22, 22 + name_len(data))
}

/// A device-name response that carries a non-empty name.
pub open spec fn device_name_ok(data: Seq<u8>) -> bool {
    data.len() > 22 && frame_echoes(data, CMD_RD_DEV_NAME) && 0 < name_len(data) <= data.len() - 22
        && trimmed_len(name_field(data)) > 0
}

/// A protocol-version response that carries a non-empty version.
pub open spec fn version_ok(data: Seq<u8>) -> bool {
    data.len() > 24 && frame_echoes(data, CMD_READ_REV) && trimmed_len(data.subrange(22, 25)) > 0
}

/// Decode a device-name response: the name field after the 22-byte header,
/// decoded as UTF-8 with invalid sequences replaced, trailing NULs dropped.
/// `None` when the frame is malformed or the name is empty.
pub fn parse_device_name(data: &[u8]) -> (r: Option<String>)
    ensures
        r is Some <==> device_name_ok(data@),
        r matches Some(t) ==> t@ == utf8_lossy(trim_zeros(name_field(data@))),
{
    if data.len() <= 22 || data[0] != MAGIC1 || data[1] != MAGIC2 {
        return None;
    }
    if data[7] != CMD_RD_DEV_NAME {
        return None;
    }
    let payload_len: usize = data[2] as usize + 256 * data[3] as usize;
    let data_len: usize = if payload_len > 18 {
        payload_len - 18
    } else {
        0
    };
    if data_len == 0 || data_len > data.len() - 22 {
        return None;
    }
    let field = &data[22..22 + data_len];
    let n = trimmed_length(field);
    if n == 0 {
        return None;
    }
    Some(lossy_text(&field[0..n]))
}

/// Decode a firmware-version response: the byte after the 22-byte header.
pub fn parse_firmware_version(data: &[u8]) -> (r: Option<u8>)
    ensures
        r is Some <==> (data@.len() > 22 && frame_echoes(data@, CMD_READ_FWVER)),
        r matches Some(v) ==> v == data@[22],
{
    if data.len() <= 22 || data[0] != MAGIC1 || data[1] != MAGIC2 {
        return None;
    }
    if data[7] != CMD_READ_FWVER {
        return None;
    }
    Some(data[22])
}

/// Decode a protocol-version response: bytes 22 to 24 as text, trailing NULs
/// dropped; `None` when malformed or empty.
pub fn parse_version(data: &[u8]) -> (r: Option<String>)
    ensures
        r is Some <==> version_ok(data@),
        r matches Some(t) ==> t@ == utf8_lossy(trim_zeros(data@.subrange(22, 25))),
{
    if data.len() <= 24 || data[0] != MAGIC1 || data[1] != MAGIC2 {
        return None;
    }
    if data[7] != CMD_READ_REV {
        return None;
    }
    let field = &data[22..25];
    let n = trimmed_length(field);
    if n == 0 {
        return None;
    }
    Some(lossy_text(&field[0..n]))
}

/// A status reports an error exactly when its description names at least
/// one flag, and the description names every flag that is set.
pub proof fn lemma_error_report(s: PrinterStatus)
    ensures
        s.any_error() <==> error_labels(s).len() > 0,
        s.label_rw_error ==> error_labels(s).contains("label read/write error"@),
        s.label_end ==> error_labels(s).contains("label roll end"@),
        s.label_mode_error ==> error_labels(s).contains("label mode mismatch"@),
        s.ribbon_rw_error ==> error_labels(s).contains("ribbon read/write error"@),
        s.ribbon_end ==> error_labels(s).contains("ribbon end"@),
        s.cover_open ==> error_labels(s).contains("cover open"@),
        s.head_temp_high ==> error_labels(s).contains("printhead temperature too high"@),
        s.label_not_installed ==> error_labels(s).contains("label not installed"@),
{
    let p1 = push_if(seq![], s.label_rw_error, "label read/write error"@);
    let p2 = push_if(p1, s.label_end, "label roll end"@);
    let p3 = push_if(p2, s.label_mode_error, "label mode mismatch"@);
    let p4 = push_if(p3, s.ribbon_rw_error, "ribbon read/write error"@);
    let p5 = push_if(p4, s.ribbon_end, "ribbon end"@);
    let p6 = push_if(p5, s.cover_open, "cover open"@);
    let p7 = push_if(p6, s.head_temp_high, "printhead temperature too high"@);
    let p8 = push_if(p7, s.label_not_installed, "label not installed"@);
    lemma_push_if_keeps(seq![], s.label_rw_error, "label read/write error"@, p8);
    lemma_push_if_keeps(p1, s.label_end, "label roll end"@, p8);
    lemma_push_if_keeps(p2, s.label_mode_error, "label mode mismatch"@, p8);
    lemma_push_if_keeps(p3, s.ribbon_rw_error, "ribbon read/write error"@, p8);
    lemma_push_if_keeps(p4, s.ribbon_end, "ribbon end"@, p8);
    lemma_push_if_keeps(p5, s.cover_open, "cover open"@, p8);
    lemma_push_if_keeps(p6, s.head_temp_high, "printhead temperature too high"@, p8);
    lemma_push_if_keeps(p7, s.label_not_installed, "label not installed"@, p8);
}

proof fn lemma_push_if_keeps(p: Seq<Seq<char>>, flag: bool, label: Seq<char>, whole: Seq<Seq<char>>)
    requires
        whole.len() >= push_if(p, flag, label).len(),
        forall|i: int| 0 <= i < push_if(p, flag, label).len() ==> whole[i] == push_if(p, flag, label)[i],
    ensures
        flag ==> whole.contains(label),
        whole.len() >= p.len(),
        flag ==> whole.len() > 0,
{
    if flag {
        assert(whole[p.len() as int] == label);
    }
}

} // verus!
