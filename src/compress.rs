use vstd::prelude::*;

use crate::bytes::le_bytes;
use crate::error;

verus! {

/// The dictionary size an LZMA1 "alone" header records for a requested
/// size: rounded up to `2^n` or `2^n + 2^(n-1)`.
pub open spec fn alone_dict(d: u32) -> u32 {
    let x0 = (d - 1) as u32;
    let x1 = x0 | (x0 >> 2u32);
    let x2 = x1 | (x1 >> 3u32);
    let x3 = x2 | (x2 >> 4u32);
    let x4 = x3 | (x3 >> 8u32);
    let x5 = x4 | (x4 >> 16u32);
    if x5 != 0xFFFF_FFFFu32 {
        (x5 + 1) as u32
    } else {
        x5
    }
}

/// The 13-byte header liblzma writes before an "alone" stream: the
/// properties byte `(pb * 5 + lp) * 9 + lc`, the rounded dictionary size,
/// and eight `0xFF` bytes for a size it does not know.
pub open spec fn alone_header(lc: u32, lp: u32, pb: u32, dict_size: u32) -> Seq<u8> {
    seq![((pb * 5 + lp) * 9 + lc) as u8] + le_bytes(alone_dict(dict_size) as nat, 4) + Seq::new(8, |i: int| 0xFFu8)
}

/// The compressed body that follows the 13-byte header of an LZMA1 "alone"
/// stream encoding `data` with the given options.
pub uninterp spec fn lzma_alone_body(
    data: Seq<u8>,
    preset: u32,
    dict_size: u32,
    lc: u32,
    lp: u32,
    pb: u32,
    nice_len: u32,
) -> Seq<u8>;

/// Relies on xz2's `LzmaOptions::new_preset` and setters,
/// `Stream::new_lzma_encoder` (liblzma's `lzma_alone_encoder`) and
/// `write::XzEncoder`: with valid options the encoding succeeds, and the
/// stream is the alone header (properties byte, rounded dictionary size,
/// eight `0xFF` bytes for an unknown size) followed by the compressed body.
#[verifier::external_body]
fn lzma_alone_encode(
    data: &[u8],
    preset: u32,
    dict_size: u32,
    lc: u32,
    lp: u32,
    pb: u32,
    nice_len: u32,
) -> (r: Result<Vec<u8>, String>)
    requires
        preset <= 9,
        lc <= 4 && lp <= 4 && lc + lp <= 4 && pb <= 4,
        4096 <= dict_size <= 0x4000_0000,
        4 <= nice_len <= 273,
    ensures
        r is Ok,
        r matches Ok(v) ==> v@ == alone_header(lc, lp, pb, dict_size) + lzma_alone_body(
            data@,
            preset,
            dict_size,
            lc,
            lp,
            pb,
            nice_len,
        ),
{
    let mut o = xz2::stream::LzmaOptions::new_preset(preset).map_err(|e| e.to_string())?;
    o.dict_size(dict_size).literal_context_bits(lc).literal_position_bits(lp).position_bits(pb).nice_len(nice_len);
    let s = xz2::stream::Stream::new_lzma_encoder(&o).map_err(|e| e.to_string())?;
    let mut enc = xz2::write::XzEncoder::new_stream(Vec::new(), s);
    std::io::Write::write_all(&mut enc, data).map_err(|e| e.to_string())?;
    enc.finish().map_err(|e| e.to_string())
}

/// `encoded` with bytes 5 to 12 replaced by the little-endian 64-bit `len`,
/// when it is long enough to hold the 13-byte header.
pub open spec fn with_size_field(encoded: Seq<u8>, len: nat) -> Seq<u8> {
    if encoded.len() >= 13 {
        encoded.subrange(0, 5) + le_bytes(len, 8) + encoded.subrange(13, encoded.len() as int)
    } else {
        encoded
    }
}

/// Write the exact uncompressed size into the size field of an LZMA1
/// "alone" header, which encoders leave as unknown.
pub fn patch_size_field(encoded: &mut Vec<u8>, len: u64)
    ensures
        final(encoded)@ == with_size_field(old(encoded)@, len as nat),
{
    if encoded.len() >= 13 {
        let ghost orig = encoded@;
        let mut v: u64 = len;
        let mut i: usize = 0;
        assert(encoded@.subrange(5, 5) + le_bytes(len as nat, 8) =~= le_bytes(len as nat, 8));
        while i < 8
            invariant
                i <= 8,
                encoded@.len() == orig.len(),
                orig.len() >= 13,
                forall|j: int| 0 <= j < 5 ==> #[trigger] encoded@[j] == orig[j],
                forall|j: int| 13 <= j < orig.len() ==> #[trigger] encoded@[j] == orig[j],
                encoded@.subrange(5, 5 + i as int) + le_bytes(v as nat, (8 - i) as nat) == le_bytes(len as nat, 8),
            decreases 8 - i,
        {
            let ghost before = encoded@;
            encoded.set(5 + i, (v % 256) as u8);
            assert(encoded@.subrange(5, 5 + i + 1) =~= before.subrange(5, 5 + i as int).push((v % 256) as u8));
            assert(encoded@.subrange(5, 5 + i + 1) + le_bytes((v / 256) as nat, (8 - i - 1) as nat) =~= before.subrange(
                5,
                5 + i as int,
            ) + le_bytes(v as nat, (8 - i) as nat));
            v = v / 256;
            i = i + 1;
        }
        proof {
            assert(le_bytes(v as nat, 0) =~= Seq::<u8>::empty());
            assert(encoded@.subrange(5, 13) =~= le_bytes(len as nat, 8));
        }
        assert(encoded@ =~= with_size_field(orig, len as nat));
    }
}

/// The stream the printer receives for `data`: the alone header with
/// properties byte `0x5D` (lc 3, lp 0, pb 2), an 8 KiB dictionary and the
/// exact input length, then the body compressed with preset 6 and nice
/// length 128.
pub open spec fn lzma_stream(data: Seq<u8>) -> Seq<u8> {
    seq![0x5Du8] + le_bytes(8192, 4) + le_bytes(data.len(), 8) + lzma_alone_body(data, 6, 8192, 3, 0, 2, 128)
}

/// Encode `data` as an LZMA1 "alone" stream with the parameters the
/// printer's decoder can hold (preset 6, 8 KiB dictionary, lc 3, lp 0, pb 2,
/// nice length 128), then write the exact input length into the header's
/// size field.
pub fn compress_lzma(data: &[u8]) -> (r: error::Result<Vec<u8>>)
    ensures
        r is Ok,
        r matches Ok(v) ==> v@ == lzma_stream(data@),
{
    let ghost body = lzma_alone_body(data@, 6, 8192, 3, 0, 2, 128);
    let mut out = match lzma_alone_encode(data, 6, 8192, 3, 0, 2, 128) {
        Ok(v) => v,
        Err(t) => return Err(error::Error::Compression(t)),
    };
    proof {
        assert(alone_dict(8192) == 8192u32) by (bit_vector);
        lemma_le_bytes_len(8192, 4);
        lemma_le_bytes_len(data@.len() as nat, 8);
    }
    let ghost before = out@;
    patch_size_field(&mut out, data.len() as u64);
    assert(out@ =~= lzma_stream(data@)) by {
        assert(before.subrange(0, 5) =~= seq![0x5Du8] + le_bytes(8192, 4));
        assert(before.subrange(13, before.len() as int) =~= body);
    }
    Ok(out)
}

proof fn lemma_le_bytes_len(v: nat, n: nat)
    ensures
        le_bytes(v, n).len() == n,
    decreases n,
{
    if n > 0 {
        lemma_le_bytes_len(v / 256, (n - 1) as nat);
    }
}

/// All buffers of a page, back to back.
pub open spec fn concat_buffers(b: Seq<[u8; 4096]>) -> Seq<u8>
    decreases b.len(),
{
    if b.len() == 0 {
        seq![]
    } else {
        concat_buffers(b.drop_last()) + b.last()@
    }
}

proof fn lemma_concat_len(b: Seq<[u8; 4096]>)
    ensures
        concat_buffers(b).len() == 4096 * b.len(),
    decreases b.len(),
{
    if b.len() > 0 {
        lemma_concat_len(b.drop_last());
    }
}

/// Concatenate the print buffers of a page and compress them as one stream.
/// Returns the stream and the average compressed size per buffer, which
/// selects the print speed.
pub fn compress_buffers(buffers: &[[u8; 4096]]) -> (r: error::Result<(Vec<u8>, usize)>)
    ensures
        buffers@.len() == 0 ==> r matches Err(error::Error::InvalidParam(_)),
        buffers@.len() > 0 ==> r is Ok,
        r matches Ok((v, avg)) ==> v@ == lzma_stream(concat_buffers(buffers@)) && avg == v@.len() / buffers@.len(),
{
    if buffers.len() == 0 {
        return Err(error::Error::InvalidParam("no buffers to compress".to_owned()));
    }
    let mut concat: Vec<u8> = Vec::new();
    let mut i: usize = 0;
    while i < buffers.len()
        invariant
            i <= buffers@.len(),
            concat@ == concat_buffers(buffers@.subrange(0, i as int)),
        decreases buffers@.len() - i,
    {
        assert(buffers@.subrange(0, i + 1).drop_last() =~= buffers@.subrange(0, i as int));
        concat.extend_from_slice(buffers[i].as_slice());
        i = i + 1;
        assert(concat@ =~= concat_buffers(buffers@.subrange(0, i as int)));
    }
    assert(buffers@.subrange(0, buffers@.len() as int) =~= buffers@);
    proof {
        lemma_concat_len(buffers@);
    }
    let compressed = compress_lzma(concat.as_slice())?;
    let avg = compressed.len() / buffers.len();
    Ok((compressed, avg))
}

/// Byte sequences back to back.
pub open spec fn concat_seqs(s: Seq<Seq<u8>>) -> Seq<u8>
    decreases s.len(),
{
    if s.len() == 0 {
        seq![]
    } else {
        concat_seqs(s.drop_last()) + s.last()
    }
}

/// Concatenating buffers is concatenating their byte views.
pub proof fn lemma_concat_views(b: Seq<[u8; 4096]>, s: Seq<Seq<u8>>)
    requires
        b.len() == s.len(),
        forall|i: int| 0 <= i < b.len() ==> #[trigger] b[i]@ == s[i],
    ensures
        concat_buffers(b) == concat_seqs(s),
    decreases b.len(),
{
    if b.len() > 0 {
        lemma_concat_views(b.drop_last(), s.drop_last());
    }
}

} // verus!
