use vstd::prelude::*;

use crate::status::{decode_status, status_from_registers, MaterialInfo, PrinterStatus};
use crate::text::{lossy_text, utf8_lossy};

verus! {

/// First byte of a USB HID command.
pub const USB_MAGIC1: u8 = 0xC0;
/// Second byte of a USB HID command.
pub const USB_MAGIC2: u8 = 0x40;
/// Size of one HID report.
pub const HID_REPORT_SIZE: usize = 64;

/// The 8-byte USB command: header, big-endian parameter, command, trailer.
pub open spec fn usb_frame(cmd: u8, param: u16) -> Seq<u8> {
    seq![USB_MAGIC1, USB_MAGIC2, (param / 256) as u8, (param % 256) as u8, cmd, 0x00u8, 0x08u8, 0x00u8]
}

/// Build the 8-byte USB command for `cmd` with one big-endian parameter.
pub fn make_usb_cmd(cmd: u8, param: u16) -> (r: [u8; 8])
    ensures
        r@ == usb_frame(cmd, param),
{
    let r = [USB_MAGIC1, USB_MAGIC2, (param / 256) as u8, (param % 256) as u8, cmd, 0x00, 0x08, 0x00];
    assert(r@ =~= usb_frame(cmd, param));
    r
}

/// Build the 10-byte USB command for a command with two parameters: the
/// 8-byte form followed by the second parameter, big-endian.
pub fn make_usb_cmd_two(cmd: u8, param1: u16, param2: u16) -> (r: [u8; 10])
    ensures
        r@ == usb_frame(cmd, param1) + seq![(param2 / 256) as u8, (param2 % 256) as u8],
{
    let r = [
        USB_MAGIC1,
        USB_MAGIC2,
        (param1 / 256) as u8,
        (param1 % 256) as u8,
        cmd,
        0x00,
        0x08,
        0x00,
        (param2 / 256) as u8,
        (param2 % 256) as u8,
    ];
    assert(r@ =~= usb_frame(cmd, param1) + seq![(param2 / 256) as u8, (param2 % 256) as u8]);
    r
}

/// A HID output report: the first 64 bytes of `data`, zero-padded to 64.
pub open spec fn hid_report(data: Seq<u8>) -> Seq<u8> {
    Seq::new(64, |i: int| if i < data.len() { data[i] } else { 0u8 })
}

/// Pad or cut `data` to one 64-byte HID report.
pub fn pad_report(data: &[u8]) -> (r: [u8; 64])
    ensures
        r@ == hid_report(data@),
{
    let mut report = [0u8; 64];
    let n: usize = if data.len() < 64 {
        data.len()
    } else {
        64
    };
    let mut i: usize = 0;
    while i < n
        invariant
            n <= 64,
            n <= data@.len(),
            i <= n,
            report@.len() == 64,
            forall|j: int| 0 <= j < 64 ==> #[trigger] report@[j] == if j < i { data@[j] } else { 0u8 },
        decreases n - i,
    {
        report[i] = data[i];
        i = i + 1;
    }
    assert(report@ =~= hid_report(data@));
    report
}

/// Number of HID reports for `len` bytes.
pub open spec fn report_count(len: int) -> int {
    (len + 63) / 64
}

/// Bytes of report `i`: 64 bytes, the last report possibly shorter.
pub open spec fn report_chunk(data: Seq<u8>, i: int) -> Seq<u8> {
    let end = if 64 * i + 64 < data.len() { 64 * i + 64 } else { data.len() as int };
    data.subrange(64 * i, end)
}

/// Cut a compressed stream into raw HID report payloads, with no framing.
pub fn usb_bulk_chunks(data: &[u8]) -> (r: Vec<Vec<u8>>)
    ensures
        r@.len() == report_count(data@.len() as int),
        forall|i: int| 0 <= i < r@.len() ==> #[trigger] r@[i]@ == report_chunk(data@, i),
{
    let len = data.len();
    let num: usize = len / 64 + if len % 64 != 0 {
        1
    } else {
        0
    };
    let mut out: Vec<Vec<u8>> = Vec::new();
    let mut i: usize = 0;
    while i < num
        invariant
            num as int == report_count(len as int),
            len == data@.len(),
            i <= num,
            out@.len() == i,
            forall|j: int| 0 <= j < i ==> #[trigger] out@[j]@ == report_chunk(data@, j),
        decreases num - i,
    {
        proof {
            assert(64 * i < len) by (nonlinear_arith)
                requires
                    i < num,
                    num == (len + 63) / 64,
            ;
        }
        let off: usize = i * 64;
        let end: usize = if len - off > 64 {
            off + 64
        } else {
            len
        };
        let mut chunk: Vec<u8> = Vec::new();
        chunk.extend_from_slice(&data[off..end]);
        assert(chunk@ =~= report_chunk(data@, i as int));
        out.push(chunk);
        i = i + 1;
    }
    out
}

/// A USB response acknowledges a command when it is not empty; the USB
/// protocol does not echo the command byte.
pub fn validate_usb_response(resp: &[u8], _expected_cmd: u8) -> (r: bool)
    ensures
        r == (resp@.len() > 0),
{
    resp.len() > 0
}

/// The status a USB status response carries, if it is long enough.
pub open spec fn usb_status(resp: Seq<u8>) -> Option<PrinterStatus> {
    if resp.len() >= 7 {
        Some(decode_status(resp[1], resp[2], resp[3], resp[4], resp[5], resp[6]))
    } else {
        None
    }
}

/// Decode a USB status response: echo byte, four register bytes, LE16 count.
pub fn parse_usb_status(resp: &[u8]) -> (r: Option<PrinterStatus>)
    ensures
        r == usb_status(resp@),
{
    if resp.len() < 7 {
        return None;
    }
    Some(status_from_registers(resp[1], resp[2], resp[3], resp[4], resp[5], resp[6]))
}

/// Index of the first zero byte of `b` at or after `from`, or `b.len()`.
pub open spec fn nul_at(b: Seq<u8>, from: int) -> int
    decreases b.len() - from,
{
    if from >= b.len() {
        b.len() as int
    } else if b[from] == 0 {
        from
    } else {
        nul_at(b, from + 1)
    }
}

proof fn lemma_nul_at_bounds(b: Seq<u8>, from: int)
    requires
        0 <= from <= b.len(),
    ensures
        from <= nul_at(b, from) <= b.len(),
    decreases b.len() - from,
{
    if from < b.len() && b[from] != 0 {
        lemma_nul_at_bounds(b, from + 1);
    }
}

/// Decode a USB material response of at least 40 bytes. The device serial is
/// the NUL-terminated text from byte 40, absent when empty; the USB report
/// carries no tag identifiers and no remaining count.
pub fn parse_usb_material(resp: &[u8]) -> (r: Option<MaterialInfo>)
    ensures
        r is Some <==> resp@.len() >= 40,
        r matches Some(m) ==> {
            &&& m.uuid@.len() == 0
            &&& m.code@.len() == 0
            &&& m.sn as int == resp@[31] + 256 * resp@[32]
            &&& m.label_type == resp@[22]
            &&& m.width_mm == resp@[19]
            &&& m.height_mm == resp@[20]
            &&& m.gap_mm == resp@[21]
            &&& m.remaining is None
            &&& (m.device_sn is Some <==> (resp@.len() > 40 && nul_at(resp@, 40) > 40))
            &&& (m.device_sn matches Some(t) ==> t@ == utf8_lossy(resp@.subrange(40, nul_at(resp@, 40))))
        },
{
    if resp.len() < 40 {
        return None;
    }
    let mut end: usize = 40;
    while end < resp.len() && resp[end] != 0
        invariant
            40 <= end <= resp@.len(),
            nul_at(resp@, end as int) == nul_at(resp@, 40),
        decreases resp@.len() - end,
    {
        end = end + 1;
    }
    let device_sn = if end > 40 {
        Some(lossy_text(&resp[40..end]))
    } else {
        None
    };
    Some(
        MaterialInfo {
            uuid: String::new(),
            code: String::new(),
            sn: resp[31] as u16 + 256 * resp[32] as u16,
            label_type: resp[22],
            width_mm: resp[19],
            height_mm: resp[20],
            gap_mm: resp[21],
            remaining: None,
            device_sn,
        },
    )
}

} // verus!
