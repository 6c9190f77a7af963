use crate::bin::{bin_payload, default_format, Bin};
use crate::error::CodecError;
use crate::external::{
    image_decode, image_dimensions, image_first_channel, image_luma16, image_luma8,
    image_luma_alpha16, image_luma_alpha8, image_rgb16, image_rgb8, image_rgba16, image_rgba8,
    png_encode, png_encoding, decoded_image, image_size, top_left_channel, luma8_samples,
    luma_alpha8_samples, rgb8_samples, rgba8_samples, luma16_samples, luma_alpha16_samples,
    rgb16_samples, rgba16_samples,
};
use crate::format::{
    channels_of_code, color_code_of, decode_metadata_spec, lemma_format_sizes, PixelFormat,
};
use crate::geometry::{fits, lemma_square_fill, padding_for, side_for};
use crate::packing::{packed_stream, unpack_spec, PackedImage};
use vstd::prelude::*;

verus! {

/// 16-bit samples as bytes, each sample most significant byte first.
pub open spec fn be_samples(s: Seq<u16>) -> Seq<u8> {
    Seq::new(
        2 * s.len(),
        |i: int|
            if i % 2 == 0 {
                (s[i / 2] / 256) as u8
            } else {
                (s[i / 2] % 256) as u8
            },
    )
}

/// The samples of a decoded image in a format's layout, 16-bit ones big-endian.
pub open spec fn image_pixels(img: image::DynamicImage, f: PixelFormat) -> Seq<u8> {
    if f.bit_depth == 8 {
        if f.color_channels == 1 {
            luma8_samples(img)
        } else if f.color_channels == 2 {
            luma_alpha8_samples(img)
        } else if f.color_channels == 3 {
            rgb8_samples(img)
        } else {
            rgba8_samples(img)
        }
    } else {
        be_samples(
            if f.color_channels == 1 {
                luma16_samples(img)
            } else if f.color_channels == 2 {
                luma_alpha16_samples(img)
            } else if f.color_channels == 3 {
                rgb16_samples(img)
            } else {
                rgba16_samples(img)
            },
        )
    }
}

/// What decoding an image file yields: the compressed payload, read in the format
/// that the top-left pixel records.
pub open spec fn decode_image_spec(bytes: Seq<u8>) -> Result<Seq<u8>, CodecError> {
    match decoded_image(bytes) {
        None => Err(CodecError::ImageError),
        Some(img) => if image_size(img).0 == 0 || image_size(img).1 == 0 {
            Err(CodecError::TruncatedData)
        } else {
            match decode_metadata_spec(top_left_channel(img)) {
                Err(e) => Err(e),
                Ok(f) => unpack_spec(image_pixels(img, f), f),
            }
        },
    }
}

/// Writes 16-bit samples as big-endian byte pairs.
pub fn samples_to_be_bytes(samples: &Vec<u16>) -> (r: Vec<u8>)
    ensures
        r@ == be_samples(samples@),
{
    let mut out: Vec<u8> = Vec::new();
    let mut i: usize = 0;
    while i < samples.len()
        invariant
            i <= samples@.len(),
            out@.len() == 2 * i,
            forall|k: int| 0 <= k < 2 * i ==> out@[k] == be_samples(samples@)[k],
        decreases samples@.len() - i,
    {
        let v = samples[i];
        out.push((v / 256) as u8);
        out.push((v % 256) as u8);
        i = i + 1;
    }
    assert(out@ =~= be_samples(samples@));
    out
}

/// The bytes of an image file.
pub struct Img {
    pub bytes: Vec<u8>,
}

impl Img {
    pub fn new(img: Vec<u8>) -> (r: Img)
        ensures
            r.bytes == img,
    {
        Img { bytes: img }
    }

    pub fn into_inner(self) -> (r: Vec<u8>)
        ensures
            r == self.bytes,
    {
        self.bytes
    }

    pub fn as_bytes(&self) -> (r: &Vec<u8>)
        ensures
            *r == self.bytes,
    {
        &self.bytes
    }

    /// Decodes the image, reads the payload's format from its top-left pixel,
    /// takes its samples in that format (16-bit ones big-endian) and unpacks them.
    /// The result has the default format, as a freshly compressed payload has.
    pub fn to_bin(&self) -> (r: Result<Bin, CodecError>)
        ensures
            bin_payload(r) == decode_image_spec(self.bytes@),
            r is Ok ==> r->Ok_0.format == default_format(),
    {
        let img = match image_decode(&self.bytes) {
            Some(img) => img,
            None => {
                return Err(CodecError::ImageError);
            },
        };
        let (width, height) = image_dimensions(&img);
        if width == 0 || height == 0 {
            return Err(CodecError::TruncatedData);
        }
        let meta = image_first_channel(&img);
        let format = PixelFormat::decode_metadata(meta)?;
        let ghost decoded = img;
        let pixels: Vec<u8> = if format.bit_depth == 8 {
            match format.color_channels {
                1 => image_luma8(img),
                2 => image_luma_alpha8(img),
                3 => image_rgb8(img),
                _ => image_rgba8(img),
            }
        } else {
            let samples = match format.color_channels {
                1 => image_luma16(img),
                2 => image_luma_alpha16(img),
                3 => image_rgb16(img),
                _ => image_rgba16(img),
            };
            samples_to_be_bytes(&samples)
        };
        assert(pixels@ == image_pixels(decoded, format));
        Bin::from_pixels(&pixels, format)
    }
}

impl PackedImage {
    /// Encodes the pixels as a PNG file of `side` by `side` pixels in the image's
    /// format; fails unless there are exactly that many pixels.
    pub fn to_img(&self) -> (r: Result<Img, CodecError>)
        ensures
            !self.format.valid() ==> r == Err::<Img, CodecError>(CodecError::UnsupportedFormat),
            self.format.valid() && self.pixels@.len() != self.side as int * self.side as int
                * self.format.bytes_per_pixel_spec() ==> r == Err::<Img, CodecError>(
                CodecError::ImageError,
            ),
            self.format.valid() && self.side > 0 && self.pixels@.len() == self.side as int
                * self.side as int * self.format.bytes_per_pixel_spec() ==> r is Ok,
            self.format.valid() && r is Err ==> r->Err_0 == CodecError::ImageError,
            r is Ok ==> r->Ok_0.bytes@ == png_encoding(
                self.pixels@,
                self.side,
                self.format.bit_depth,
                color_code_of(self.format.color_channels as int) as u8,
            ),
    {
        if !self.format.is_valid() {
            return Err(CodecError::UnsupportedFormat);
        }
        let bpp = self.format.bytes_per_pixel();
        let side = self.side as u128;
        assert(side * side <= 0xFFFF_FFFFu128 * 0xFFFF_FFFFu128) by (nonlinear_arith)
            requires
                side <= 0xFFFF_FFFFu128,
        ;
        let square = side * side;
        assert(square * (bpp as u128) <= 0xFFFF_FFFFu128 * 0xFFFF_FFFFu128 * 8) by (nonlinear_arith)
            requires
                square <= 0xFFFF_FFFFu128 * 0xFFFF_FFFFu128,
                bpp <= 8,
        ;
        let expected = square * bpp as u128;
        if self.pixels.len() as u128 != expected {
            return Err(CodecError::ImageError);
        }
        let code = self.format.color_type_code()?;
        proof {
            lemma_format_sizes(self.format);
            let s = self.side as int;
            let d = self.format.bit_depth as int / 8;
            let c = self.format.color_channels as int;
            assert(s * s * (d * c) == s * s * d * c) by (nonlinear_arith);
            assert(channels_of_code(code as int) == Some(self.format.color_channels));
        }
        match png_encode(&self.pixels, self.side, self.format.bit_depth, code) {
            Some(bytes) => Ok(Img::new(bytes)),
            None => Err(CodecError::ImageError),
        }
    }
}

impl Bin {
    /// Packs the payload into its square image and encodes it as PNG.
    pub fn to_img(&self) -> (r: Result<Img, CodecError>)
        ensures
            !self.format.valid() ==> r == Err::<Img, CodecError>(CodecError::UnsupportedFormat),
            self.format.valid() && !fits(
                self.compressed@.len() as int,
                self.format.bytes_per_pixel_spec(),
            ) ==> r == Err::<Img, CodecError>(CodecError::ArithmeticOverflow),
            self.format.valid() && fits(
                self.compressed@.len() as int,
                self.format.bytes_per_pixel_spec(),
            ) ==> r is Ok,
            r is Ok ==> ({
                let len = self.compressed@.len() as int;
                let bpp = self.format.bytes_per_pixel_spec();
                exists|filler: Seq<u8>|
                    filler.len() == padding_for(len, bpp) && r->Ok_0.bytes@ == #[trigger] png_encoding(
                        packed_stream(
                            self.compressed@,
                            self.format,
                            padding_for(len, bpp) as nat,
                            filler,
                        ),
                        side_for(len, bpp) as u32,
                        self.format.bit_depth,
                        color_code_of(self.format.color_channels as int) as u8,
                    )
            }),
    {
        let packed = self.to_packed()?;
        proof {
            lemma_square_fill(self.compressed@.len() as int, self.format.bytes_per_pixel_spec());
        }
        let r = packed.to_img();
        proof {
            if r is Ok {
                let len = self.compressed@.len() as int;
                let bpp = self.format.bytes_per_pixel_spec();
                let filler = choose|filler: Seq<u8>|
                    filler.len() == padding_for(len, bpp) && #[trigger] packed_stream(
                        self.compressed@,
                        self.format,
                        padding_for(len, bpp) as nat,
                        filler,
                    ) == packed.pixels@;
                assert(r->Ok_0.bytes@ == png_encoding(
                    packed_stream(
                        self.compressed@,
                        self.format,
                        padding_for(len, bpp) as nat,
                        filler,
                    ),
                    side_for(len, bpp) as u32,
                    self.format.bit_depth,
                    color_code_of(self.format.color_channels as int) as u8,
                ));
            }
        }
        r
    }
}

} // verus!
