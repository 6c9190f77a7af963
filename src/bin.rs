use crate::error::CodecError;
use crate::external::{
    lzma_compress_bytes, lzma_compressed, lzma_decompress_bytes, lzma_decompressed, random_bytes,
};
use crate::format::PixelFormat;
use crate::geometry::{fits, lemma_square_fill, padding_for, side_for, PackLayout};
use crate::packing::{
    pack, packed_stream, unpack, unpack_spec, unpack_stream, unpack_stream_spec, PackedImage,
};
use vstd::prelude::*;

verus! {

/// The format that a payload is packed in unless another is chosen: 16-bit RGBA.
pub open spec fn default_format() -> PixelFormat {
    PixelFormat { bit_depth: 16, color_channels: 4 }
}

/// A `Result` over a `Bin`, seen as a `Result` over its compressed bytes.
pub open spec fn bin_payload(r: Result<Bin, CodecError>) -> Result<Seq<u8>, CodecError> {
    match r {
        Ok(b) => Ok(b.compressed@),
        Err(e) => Err(e),
    }
}

/// A compressed payload and the pixel format it is to be packed in.
pub struct Bin {
    pub compressed: Vec<u8>,
    pub format: PixelFormat,
}

impl Bin {
    /// Compresses `data` with LZMA; the format is 16-bit RGBA.
    pub fn new(data: &Vec<u8>) -> (r: Result<Bin, CodecError>)
        ensures
            r is Ok,
            r is Ok ==> r->Ok_0.compressed@ == lzma_compressed(data@) && r->Ok_0.format
                == default_format(),
    {
        match lzma_compress_bytes(data) {
            Some(compressed) => Ok(Bin::new_raw(compressed)),
            None => Err(CodecError::CompressionError),
        }
    }

    /// Wraps an already compressed payload; the format is 16-bit RGBA.
    pub fn new_raw(compressed: Vec<u8>) -> (r: Bin)
        ensures
            r.compressed == compressed,
            r.format == default_format(),
    {
        Bin { compressed, format: PixelFormat { bit_depth: 16, color_channels: 4 } }
    }

    /// The payload as it was before compression. A payload that compression
    /// produced from some bytes gives those bytes back; one shorter than the
    /// stream header fails.
    pub fn decompress(&self) -> (r: Result<Vec<u8>, CodecError>)
        ensures
            r is Ok <==> lzma_decompressed(self.compressed@) is Some,
            r is Ok ==> r->Ok_0@ == lzma_decompressed(self.compressed@)->Some_0,
            self.compressed@.len() < 13 ==> r is Err,
            forall|x: Seq<u8>| #[trigger]
                lzma_compressed(x) == self.compressed@ ==> r is Ok && r->Ok_0@ == x,
            r is Err ==> r->Err_0 == CodecError::CompressionError,
    {
        match lzma_decompress_bytes(&self.compressed) {
            Some(data) => Ok(data),
            None => Err(CodecError::CompressionError),
        }
    }

    /// Lays the payload out in the smallest square image of its format, with
    /// random filler as padding.
    pub fn to_packed(&self) -> (r: Result<PackedImage, CodecError>)
        ensures
            !self.format.valid() ==> r == Err::<PackedImage, CodecError>(
                CodecError::UnsupportedFormat,
            ),
            self.format.valid() && !fits(
                self.compressed@.len() as int,
                self.format.bytes_per_pixel_spec(),
            ) ==> r == Err::<PackedImage, CodecError>(CodecError::ArithmeticOverflow),
            self.format.valid() && fits(
                self.compressed@.len() as int,
                self.format.bytes_per_pixel_spec(),
            ) ==> r is Ok,
            r is Ok ==> ({
                let img = r->Ok_0;
                let len = self.compressed@.len() as int;
                let bpp = self.format.bytes_per_pixel_spec();
                &&& img.format == self.format
                &&& img.side as int == side_for(len, bpp)
                &&& img.pixels@.len() == img.side as int * img.side as int * bpp
                &&& img.pixels@.len() >= bpp + 16 + len
                &&& exists|filler: Seq<u8>|
                    filler.len() == padding_for(len, bpp) && #[trigger] packed_stream(
                        self.compressed@,
                        self.format,
                        padding_for(len, bpp) as nat,
                        filler,
                    ) == img.pixels@
            }),
    {
        let layout = PackLayout::plan(self.compressed.len(), self.format)?;
        let filler = random_bytes(layout.padding);
        let packed = pack(&self.compressed, &layout, &filler);
        proof {
            lemma_square_fill(self.compressed@.len() as int, self.format.bytes_per_pixel_spec());
        }
        let ghost len = self.compressed@.len() as int;
        let ghost bpp = self.format.bytes_per_pixel_spec();
        assert(padding_for(len, bpp) as nat == layout.padding as nat);
        assert(packed_stream(self.compressed@, self.format, padding_for(len, bpp) as nat, filler@)
            == packed.pixels@);
        Ok(packed)
    }

    /// The payload held by pixel bytes read in `format`; the result has the
    /// default format, as a freshly compressed payload has.
    pub fn from_pixels(pixels: &Vec<u8>, format: PixelFormat) -> (r: Result<Bin, CodecError>)
        ensures
            bin_payload(r) == unpack_spec(pixels@, format),
            r is Ok ==> r->Ok_0.format == default_format(),
    {
        let compressed = unpack(pixels, format)?;
        Ok(Bin::new_raw(compressed))
    }

    /// The payload held by pixel bytes whose metadata pixel records their format;
    /// the result has the default format.
    pub fn from_stream(pixels: &Vec<u8>) -> (r: Result<Bin, CodecError>)
        ensures
            bin_payload(r) == unpack_stream_spec(pixels@),
            r is Ok ==> r->Ok_0.format == default_format(),
    {
        let compressed = unpack_stream(pixels)?;
        Ok(Bin::new_raw(compressed))
    }
}

} // verus!
