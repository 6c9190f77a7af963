use crate::bin::Bin;
use crate::error::CodecError;
use crate::external::{lzma_compressed, lzma_decompressed, png_encoding};
use crate::format::{color_code_of, PixelFormat};
use crate::geometry::{fits, padding_for, side_for};
use crate::img::{decode_image_spec, Img};
use crate::packing::packed_stream;
use vstd::prelude::*;

verus! {

/// Encodes `data` as a PNG image in `format`: compresses it, packs it into the
/// smallest square image with random padding, and writes the image.
pub fn encode(data: &Vec<u8>, format: PixelFormat) -> (r: Result<Vec<u8>, CodecError>)
    ensures
        !format.valid() ==> r == Err::<Vec<u8>, CodecError>(CodecError::UnsupportedFormat),
        format.valid() && !fits(
            lzma_compressed(data@).len() as int,
            format.bytes_per_pixel_spec(),
        ) ==> r == Err::<Vec<u8>, CodecError>(CodecError::ArithmeticOverflow),
        format.valid() && fits(lzma_compressed(data@).len() as int, format.bytes_per_pixel_spec())
            ==> r is Ok,
        r is Ok ==> ({
            let c = lzma_compressed(data@);
            let bpp = format.bytes_per_pixel_spec();
            exists|filler: Seq<u8>|
                filler.len() == padding_for(c.len() as int, bpp) && r->Ok_0@
                    == #[trigger] png_encoding(
                    packed_stream(c, format, padding_for(c.len() as int, bpp) as nat, filler),
                    side_for(c.len() as int, bpp) as u32,
                    format.bit_depth,
                    color_code_of(format.color_channels as int) as u8,
                )
        }),
{
    let mut bin = match Bin::new(data) {
        Ok(b) => b,
        Err(e) => {
            return Err(e);
        },
    };
    bin.format = format;
    match bin.to_img() {
        Ok(img) => Ok(img.into_inner()),
        Err(e) => Err(e),
    }
}

/// Decodes a PNG image made by `encode` back into the original bytes: reads the
/// format from the metadata pixel, unpacks the payload and decompresses it.
pub fn decode(image: &Vec<u8>) -> (r: Result<Vec<u8>, CodecError>)
    ensures
        decode_image_spec(image@) is Err ==> r == Err::<Vec<u8>, CodecError>(
            decode_image_spec(image@)->Err_0,
        ),
        decode_image_spec(image@) is Ok ==> ({
            let c = decode_image_spec(image@)->Ok_0;
            &&& (r is Ok <==> lzma_decompressed(c) is Some)
            &&& (r is Ok ==> r->Ok_0@ == lzma_decompressed(c)->Some_0)
            &&& (r is Err ==> r->Err_0 == CodecError::CompressionError)
            &&& forall|x: Seq<u8>| #[trigger] lzma_compressed(x) == c ==> r is Ok && r->Ok_0@ == x
        }),
{
    let img = Img::new(image.clone());
    let bin = match img.to_bin() {
        Ok(b) => b,
        Err(e) => {
            return Err(e);
        },
    };
    bin.decompress()
}

} // verus!
