use vstd::prelude::*;

use crate::bytes::{byte_sum, hi8, lo8, sum_range, lemma_byte_sum_bounds};
use crate::cmd::{DATA_TYPE, MAGIC1, MAGIC2, PROTO_ID};

verus! {

/// First magic byte of a data packet.
pub const DATA_MAGIC1: u8 = 0xAA;
/// Second magic byte of a data packet.
pub const DATA_MAGIC2: u8 = 0xBB;
/// Payload bytes carried by one data packet.
pub const DATA_PAYLOAD_SIZE: usize = 500;

/// A data packet before its checksum is filled in.
pub open spec fn packet_body(chunk: Seq<u8>, idx: u8, total: u8) -> Seq<u8> {
    seq![DATA_MAGIC1, DATA_MAGIC2, 0u8, 0u8, idx, total] + Seq::new(
        500,
        |k: int|
            if k < chunk.len() {
                chunk[k]
            } else {
                0u8
            },
    )
}

/// The 506-byte data packet: magic, LE16 checksum of bytes 4 to 505, index,
/// total, and the chunk zero-padded to 500 bytes.
pub open spec fn data_packet(chunk: Seq<u8>, idx: u8, total: u8) -> Seq<u8> {
    let body = packet_body(chunk, idx, total);
    let chk = byte_sum(body.subrange(4, 506));
    body.update(2, lo8(chk)).update(3, hi8(chk))
}

/// The 512-byte transfer frame around a data packet.
pub open spec fn data_frame(packet: Seq<u8>) -> Seq<u8> {
    seq![MAGIC1, MAGIC2, 0xFCu8, 0x01u8, PROTO_ID, DATA_TYPE] + packet
}

/// Build a data packet from up to 500 bytes of payload.
pub fn make_data_packet(data_chunk: &[u8], pkt_idx: u8, pkt_total: u8) -> (r: [u8; 506])
    ensures
        r@ == data_packet(data_chunk@, pkt_idx, pkt_total),
{
    let mut pkt = [0u8; 506];
    pkt[0] = DATA_MAGIC1;
    pkt[1] = DATA_MAGIC2;
    pkt[4] = pkt_idx;
    pkt[5] = pkt_total;
    let copy_len: usize = if data_chunk.len() < 500 {
        data_chunk.len()
    } else {
        500
    };
    let ghost body = packet_body(data_chunk@, pkt_idx, pkt_total);
    let mut k: usize = 0;
    while k < copy_len
        invariant
            copy_len <= 500,
            copy_len <= data_chunk@.len(),
            k <= copy_len,
            pkt@.len() == 506,
            forall|j: int| 0 <= j < 6 ==> #[trigger] pkt@[j] == body[j],
            forall|j: int| 6 <= j < 506 ==> #[trigger] pkt@[j] == if j - 6 < k { data_chunk@[j - 6] } else { 0u8 },
        decreases copy_len - k,
    {
        pkt[6 + k] = data_chunk[k];
        k = k + 1;
    }
    assert(pkt@ =~= body);
    let chk = sum_range(pkt.as_slice(), 4, 506);
    proof {
        lemma_byte_sum_bounds(body.subrange(4, 506));
    }
    pkt[2] = (chk % 256) as u8;
    pkt[3] = ((chk / 256) % 256) as u8;
    assert(pkt@ =~= data_packet(data_chunk@, pkt_idx, pkt_total));
    pkt
}

/// Wrap a data packet in its transfer frame.
pub fn wrap_data_frame(payload: &[u8; 506]) -> (r: [u8; 512])
    ensures
        r@ == data_frame(payload@),
{
    let mut frame = [0u8; 512];
    frame[0] = MAGIC1;
    frame[1] = MAGIC2;
    frame[2] = 0xFC;
    frame[3] = 0x01;
    frame[4] = PROTO_ID;
    frame[5] = DATA_TYPE;
    let mut k: usize = 0;
    while k < 506
        invariant
            k <= 506,
            frame@.len() == 512,
            forall|j: int| 0 <= j < 6 ==> #[trigger] frame@[j] == data_frame(payload@)[j],
            forall|j: int| 6 <= j < 6 + k ==> #[trigger] frame@[j] == payload@[j - 6],
        decreases 506 - k,
    {
        frame[6 + k] = payload[k];
        k = k + 1;
    }
    assert(frame@ =~= data_frame(payload@));
    frame
}

/// Number of data packets for `len` bytes of payload.
pub open spec fn packet_count(len: int) -> int {
    (len + 499) / 500
}

/// Payload of packet `i`.
pub open spec fn packet_chunk(data: Seq<u8>, i: int) -> Seq<u8> {
    let end = if 500 * i + 500 < data.len() { 500 * i + 500 } else { data.len() as int };
    data.subrange(500 * i, end)
}

/// Cut a compressed stream into numbered data packets, each wrapped in its
/// transfer frame. The packet count travels in one byte, so the stream may
/// hold at most 255 packets.
pub fn build_data_frames(compressed: &[u8]) -> (r: Vec<[u8; 512]>)
    requires
        compressed@.len() <= 255 * 500,
    ensures
        r@.len() == packet_count(compressed@.len() as int),
        forall|i: int|
            0 <= i < r@.len() ==> #[trigger] r@[i]@ == data_frame(
                data_packet(packet_chunk(compressed@, i), i as u8, packet_count(compressed@.len() as int) as u8),
            ),
{
    let len = compressed.len();
    let num: usize = len / 500 + if len % 500 != 0 {
        1
    } else {
        0
    };
    assert(num as int == packet_count(len as int));
    let total: u8 = num as u8;
    let mut frames: Vec<[u8; 512]> = Vec::new();
    let mut i: usize = 0;
    while i < num
        invariant
            num as int == packet_count(len as int),
            len == compressed@.len(),
            num <= 255,
            total == num as u8,
            i <= num,
            frames@.len() == i,
            forall|j: int|
                0 <= j < i ==> #[trigger] frames@[j]@ == data_frame(
                    data_packet(packet_chunk(compressed@, j), j as u8, total),
                ),
        decreases num - i,
    {
        let off: usize = i * 500;
        proof {
            assert(500 * i < len) by (nonlinear_arith)
                requires
                    i < num,
                    num == (len + 499) / 500,
            ;
        }
        let end: usize = if off + 500 < len {
            off + 500
        } else {
            len
        };
        let pkt = make_data_packet(&compressed[off..end], i as u8, total);
        frames.push(wrap_data_frame(&pkt));
        i = i + 1;
    }
    frames
}

/// The checksum field of every data packet is the little-endian low 16 bits
/// of the sum of its bytes 4 to 505.
pub proof fn lemma_data_packet_checksum(chunk: Seq<u8>, idx: u8, total: u8)
    ensures
        data_packet(chunk, idx, total).len() == 506,
        data_packet(chunk, idx, total)[2] as int + 256 * data_packet(chunk, idx, total)[3] as int
            == byte_sum(data_packet(chunk, idx, total).subrange(4, 506)) % 65536,
{
    let body = packet_body(chunk, idx, total);
    let p = data_packet(chunk, idx, total);
    assert(p.subrange(4, 506) =~= body.subrange(4, 506));
    lemma_byte_sum_bounds(body.subrange(4, 506));
}

} // verus!
