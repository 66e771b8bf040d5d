use vstd::prelude::*;

use crate::bytes::{byte_sum, hi8, lo8, sum_range, lemma_byte_sum_bounds};

verus! {

/// First frame magic byte.
pub const MAGIC1: u8 = 0x7E;
/// Second frame magic byte.
pub const MAGIC2: u8 = 0x5A;
/// Protocol identifier.
pub const PROTO_ID: u8 = 0x10;
/// Protocol version used by command frames.
pub const PROTO_VER: u8 = 0x01;
/// Marker that precedes the command byte.
pub const MARKER_AA: u8 = 0xAA;
/// Frame type of a bulk data transfer frame.
pub const DATA_TYPE: u8 = 0x02;

/// Announce the compressed length and speed after a bulk transfer.
pub const CMD_BUF_FULL: u8 = 0x10;
/// Query the status registers.
pub const CMD_INQUIRY_STA: u8 = 0x11;
/// Presence probe.
pub const CMD_CHECK_DEVICE: u8 = 0x12;
/// Begin a page.
pub const CMD_START_PRINT: u8 = 0x13;
/// Abort printing.
pub const CMD_STOP_PRINT: u8 = 0x14;
/// Read the device name.
pub const CMD_RD_DEV_NAME: u8 = 0x16;
/// Read the protocol revision.
pub const CMD_READ_REV: u8 = 0x17;
/// Feed paper.
pub const CMD_PAPER_SKIP: u8 = 0x2E;
/// Read the loaded material.
pub const CMD_RETURN_MAT: u8 = 0x30;
/// Announce a compressed bulk transfer.
pub const CMD_NEXT_ZIPPEDBULK: u8 = 0x5C;
/// Write RFID data.
pub const CMD_SET_RFID_DATA: u8 = 0x5D;
/// Read the firmware version.
pub const CMD_READ_FWVER: u8 = 0xC5;

/// The six checksummed payload bytes of a Bluetooth command frame.
pub open spec fn bt_payload(p1: u16, p2: u16) -> Seq<u8> {
    seq![0x00u8, 0x01u8, lo8(p1 as int), hi8(p1 as int), lo8(p2 as int), hi8(p2 as int)]
}

/// The 16-byte Bluetooth command frame: header, command, LE16 checksum of
/// the payload, then the payload with both parameters little-endian.
pub open spec fn bt_frame(cmd: u8, p1: u16, p2: u16) -> Seq<u8> {
    let chk = byte_sum(bt_payload(p1, p2));
    seq![MAGIC1, MAGIC2, 0x0Cu8, 0x00u8, PROTO_ID, PROTO_VER, MARKER_AA, cmd, lo8(chk), hi8(chk)]
        + bt_payload(p1, p2)
}

fn frame_with_params(cmd: u8, p1: u16, p2: u16) -> (r: [u8; 16])
    ensures
        r@ == bt_frame(cmd, p1, p2),
{
    let mut pkt = [0u8; 16];
    pkt[0] = MAGIC1;
    pkt[1] = MAGIC2;
    pkt[2] = 0x0C;
    pkt[4] = PROTO_ID;
    pkt[5] = PROTO_VER;
    pkt[6] = MARKER_AA;
    pkt[7] = cmd;
    pkt[11] = 0x01;
    pkt[12] = (p1 % 256) as u8;
    pkt[13] = (p1 / 256) as u8;
    pkt[14] = (p2 % 256) as u8;
    pkt[15] = (p2 / 256) as u8;
    let chk = sum_range(pkt.as_slice(), 10, 16);
    proof {
        assert(pkt@.subrange(10, 16) =~= bt_payload(p1, p2));
        lemma_byte_sum_bounds(bt_payload(p1, p2));
    }
    pkt[8] = (chk % 256) as u8;
    pkt[9] = (chk / 256) as u8;
    assert(pkt@ =~= bt_frame(cmd, p1, p2));
    pkt
}

/// Build the 16-byte command frame for `cmd` with one parameter.
pub fn make_cmd(cmd: u8, param: u16) -> (r: [u8; 16])
    ensures
        r@ == bt_frame(cmd, param, 0),
{
    frame_with_params(cmd, param, 0)
}

/// Build the 16-byte command frame for a command with two parameters
/// (block size and block count for a bulk announcement; compressed length
/// and speed code for the end-of-transfer command).
pub fn make_cmd_start_trans(cmd: u8, block_size: u16, block_count: u16) -> (r: [u8; 16])
    ensures
        r@ == bt_frame(cmd, block_size, block_count),
{
    frame_with_params(cmd, block_size, block_count)
}

/// The checksum of every command frame is the little-endian sum of its
/// bytes 10 to 15.
pub proof fn lemma_bt_frame_checksum(cmd: u8, p1: u16, p2: u16)
    ensures
        bt_frame(cmd, p1, p2).len() == 16,
        bt_frame(cmd, p1, p2)[8] as int + 256 * bt_frame(cmd, p1, p2)[9] as int == byte_sum(
            bt_frame(cmd, p1, p2).subrange(10, 16),
        ),
{
    let f = bt_frame(cmd, p1, p2);
    assert(f.subrange(10, 16) =~= bt_payload(p1, p2));
    lemma_byte_sum_bounds(bt_payload(p1, p2));
}

} // verus!
