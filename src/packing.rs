use crate::bytes::{
    be_bytes, be_bytes_of, be_value, be_value_at, lemma_be_bytes_len, lemma_be_round_trip,
    pow256,
};
use crate::error::CodecError;
use crate::format::{decode_metadata_spec, lemma_format_sizes, lemma_metadata_fidelity, PixelFormat};
use crate::geometry::{lemma_square_fill, PackLayout};
use vstd::prelude::*;

verus! {

/// The byte stream of a packed image: the metadata pixel, the padding length as
/// 16 big-endian bytes, the payload, then the filler.
pub open spec fn packed_stream(
    payload: Seq<u8>,
    format: PixelFormat,
    padding: nat,
    filler: Seq<u8>,
) -> Seq<u8> {
    format.metadata_pixel() + be_bytes(padding, 16) + payload + filler
}

/// What `unpack` returns for a pixel stream read in `format`.
pub open spec fn unpack_spec(pixels: Seq<u8>, format: PixelFormat) -> Result<Seq<u8>, CodecError> {
    if !format.valid() {
        Err(CodecError::UnsupportedFormat)
    } else {
        let bpp = format.bytes_per_pixel_spec();
        if pixels.len() <= bpp + 16 {
            Err(CodecError::TruncatedData)
        } else {
            let padding = be_value(pixels.subrange(bpp, bpp + 16));
            if padding > pixels.len() - bpp - 16 {
                Err(CodecError::TruncatedData)
            } else {
                Ok(pixels.subrange(bpp + 16, pixels.len() - padding))
            }
        }
    }
}

/// What `unpack_stream` returns: the format comes from the stream's first byte.
pub open spec fn unpack_stream_spec(pixels: Seq<u8>) -> Result<Seq<u8>, CodecError> {
    if pixels.len() == 0 {
        Err(CodecError::TruncatedData)
    } else {
        match decode_metadata_spec(pixels[0]) {
            Ok(format) => unpack_spec(pixels, format),
            Err(e) => Err(e),
        }
    }
}

/// A `Result` over a byte vector, seen as a `Result` over its bytes.
pub open spec fn bytes_result(r: Result<Vec<u8>, CodecError>) -> Result<Seq<u8>, CodecError> {
    match r {
        Ok(v) => Ok(v@),
        Err(e) => Err(e),
    }
}

/// A square image's pixel bytes, row-major, in `format`.
pub struct PackedImage {
    pub side: u32,
    pub format: PixelFormat,
    pub pixels: Vec<u8>,
}

fn append_bytes(out: &mut Vec<u8>, src: &Vec<u8>, from: usize, to: usize)
    requires
        from <= to <= src@.len(),
    ensures
        final(out)@ == old(out)@ + src@.subrange(from as int, to as int),
{
    let mut i: usize = from;
    while i < to
        invariant
            from <= i <= to <= src@.len(),
            out@ == old(out)@ + src@.subrange(from as int, i as int),
        decreases to - i,
    {
        out.push(src[i]);
        assert(src@.subrange(from as int, i + 1) =~= src@.subrange(from as int, i as int).push(
            src@[i as int],
        ));
        i = i + 1;
    }
}

/// Lays out `payload` in the square image that `layout` describes, with `filler`
/// as the padding bytes.
pub fn pack(payload: &Vec<u8>, layout: &PackLayout, filler: &Vec<u8>) -> (r: PackedImage)
    requires
        layout.is_plan_for(payload@.len() as int),
        filler@.len() == layout.padding,
    ensures
        r.side == layout.side,
        r.format == layout.format,
        r.pixels@ == packed_stream(payload@, layout.format, layout.padding as nat, filler@),
        r.pixels@.len() == r.side as int * r.side as int * layout.format.bytes_per_pixel_spec(),
{
    proof {
        lemma_format_sizes(layout.format);
        lemma_square_fill(payload@.len() as int, layout.format.bytes_per_pixel_spec());
        lemma_be_bytes_len(layout.padding as nat, 16);
    }
    let mut out = layout.format.metadata_pixel_bytes();
    let field = be_bytes_of(layout.padding as u128, 16);
    append_bytes(&mut out, &field, 0, 16);
    append_bytes(&mut out, payload, 0, payload.len());
    append_bytes(&mut out, filler, 0, filler.len());
    assert(field@.subrange(0, 16) =~= field@);
    assert(payload@.subrange(0, payload@.len() as int) =~= payload@);
    assert(filler@.subrange(0, filler@.len() as int) =~= filler@);
    PackedImage { side: layout.side, format: layout.format, pixels: out }
}

/// Recovers the payload from pixel bytes read in `format`: drops the metadata
/// pixel, reads the padding length, and drops that many bytes from the end.
pub fn unpack(pixels: &Vec<u8>, format: PixelFormat) -> (r: Result<Vec<u8>, CodecError>)
    ensures
        bytes_result(r) == unpack_spec(pixels@, format),
{
    if !format.is_valid() {
        return Err(CodecError::UnsupportedFormat);
    }
    let bpp = format.bytes_per_pixel() as usize;
    let len = pixels.len();
    if len <= bpp + 16 {
        return Err(CodecError::TruncatedData);
    }
    let padding = be_value_at(pixels, bpp);
    let rest = len - bpp - 16;
    if padding > rest as u128 {
        return Err(CodecError::TruncatedData);
    }
    let end = len - padding as usize;
    let mut out: Vec<u8> = Vec::new();
    append_bytes(&mut out, pixels, bpp + 16, end);
    assert(out@ =~= pixels@.subrange(bpp + 16, end as int));
    Ok(out)
}

/// Recovers the payload from pixel bytes whose format is recorded in their first
/// byte, the metadata pixel.
pub fn unpack_stream(pixels: &Vec<u8>) -> (r: Result<Vec<u8>, CodecError>)
    ensures
        bytes_result(r) == unpack_stream_spec(pixels@),
{
    if pixels.len() == 0 {
        return Err(CodecError::TruncatedData);
    }
    let format = PixelFormat::decode_metadata(pixels[0])?;
    unpack(pixels, format)
}

/// Unpacking a packed stream gives the payload back, both in the format used to
/// pack it and in the format its metadata pixel records, whenever the payload and
/// the padding are not both empty.
pub proof fn lemma_pack_round_trip(
    payload: Seq<u8>,
    format: PixelFormat,
    padding: nat,
    filler: Seq<u8>,
)
    requires
        format.valid(),
        padding < pow256(16),
        filler.len() == padding,
        payload.len() + padding > 0,
    ensures
        unpack_spec(packed_stream(payload, format, padding, filler), format) == Ok::<
            Seq<u8>,
            CodecError,
        >(payload),
        unpack_stream_spec(packed_stream(payload, format, padding, filler)) == Ok::<
            Seq<u8>,
            CodecError,
        >(payload),
{
    let s = packed_stream(payload, format, padding, filler);
    let bpp = format.bytes_per_pixel_spec();
    lemma_format_sizes(format);
    lemma_be_bytes_len(padding, 16);
    lemma_be_round_trip(padding, 16);
    assert(s.subrange(bpp, bpp + 16) =~= be_bytes(padding, 16));
    assert(s.subrange(bpp + 16, s.len() - padding) =~= payload);
    lemma_metadata_fidelity(format);
    assert(s[0] == format.metadata_pixel()[0]);
}

/// A packed stream cut down to fewer than a pixel and sixteen bytes fails to
/// unpack with `TruncatedData`, in the format used to pack it and in the format
/// its metadata pixel records.
pub proof fn lemma_truncation(
    payload: Seq<u8>,
    format: PixelFormat,
    padding: nat,
    filler: Seq<u8>,
    n: int,
)
    requires
        format.valid(),
        0 <= n < format.bytes_per_pixel_spec() + 16,
        n <= packed_stream(payload, format, padding, filler).len(),
    ensures
        unpack_spec(packed_stream(payload, format, padding, filler).subrange(0, n), format)
            == Err::<Seq<u8>, CodecError>(CodecError::TruncatedData),
        unpack_stream_spec(packed_stream(payload, format, padding, filler).subrange(0, n))
            == Err::<Seq<u8>, CodecError>(CodecError::TruncatedData),
{
    let s = packed_stream(payload, format, padding, filler);
    lemma_format_sizes(format);
    lemma_metadata_fidelity(format);
    if n > 0 {
        assert(s.subrange(0, n)[0] == format.metadata_pixel()[0]);
    }
}

} // verus!
