//! The calls into the compression, image and random-number crates, with the
//! contracts that the rest of the library relies on.
use image::GenericImageView;
use rand::RngCore;
use crate::format::channels_of_code;
use vstd::prelude::*;

verus! {

#[verifier::external_type_specification]
#[verifier::external_body]
pub struct ExDynamicImage(image::DynamicImage);

/// The LZMA stream that `lzma_rs::lzma_compress` writes for an input.
pub uninterp spec fn lzma_compressed(data: Seq<u8>) -> Seq<u8>;

/// The PNG file that `png::Encoder` writes for square pixel data.
pub uninterp spec fn png_encoding(pixels: Seq<u8>, side: u32, bit_depth: u8, color_code: u8) -> Seq<u8>;

/// What `lzma_rs::lzma_decompress` yields for a stream, where it succeeds.
pub uninterp spec fn lzma_decompressed(data: Seq<u8>) -> Option<Seq<u8>>;

/// The image that `image::io::Reader` decodes from a file's bytes, where it can.
pub uninterp spec fn decoded_image(bytes: Seq<u8>) -> Option<image::DynamicImage>;

/// The width and height of a decoded image.
pub uninterp spec fn image_size(img: image::DynamicImage) -> (u32, u32);

/// The first channel of an image's top-left pixel, as eight bits.
pub uninterp spec fn top_left_channel(img: image::DynamicImage) -> u8;

/// An image's samples as 8-bit gray.
pub uninterp spec fn luma8_samples(img: image::DynamicImage) -> Seq<u8>;

/// An image's samples as 8-bit gray and alpha.
pub uninterp spec fn luma_alpha8_samples(img: image::DynamicImage) -> Seq<u8>;

/// An image's samples as 8-bit RGB.
pub uninterp spec fn rgb8_samples(img: image::DynamicImage) -> Seq<u8>;

/// An image's samples as 8-bit RGBA.
pub uninterp spec fn rgba8_samples(img: image::DynamicImage) -> Seq<u8>;

/// An image's samples as 16-bit gray.
pub uninterp spec fn luma16_samples(img: image::DynamicImage) -> Seq<u16>;

/// An image's samples as 16-bit gray and alpha.
pub uninterp spec fn luma_alpha16_samples(img: image::DynamicImage) -> Seq<u16>;

/// An image's samples as 16-bit RGB.
pub uninterp spec fn rgb16_samples(img: image::DynamicImage) -> Seq<u16>;

/// An image's samples as 16-bit RGBA.
pub uninterp spec fn rgba16_samples(img: image::DynamicImage) -> Seq<u16>;

/// Relies on `lzma_rs::lzma_compress`: its output depends on the input alone and
/// starts with a 13-byte header (properties, dictionary size, unpacked size). It
/// fails only where its reader or writer does, and a slice and a `Vec` never do.
#[verifier::external_body]
pub(crate) fn lzma_compress_bytes(data: &Vec<u8>) -> (r: Option<Vec<u8>>)
    ensures
        r is Some,
        r is Some ==> r->Some_0@ == lzma_compressed(data@) && r->Some_0@.len() >= 13,
{
    let mut out: Vec<u8> = Vec::new();
    match lzma_rs::lzma_compress(&mut data.as_slice(), &mut out) {
        Ok(()) => Some(out),
        Err(_) => None,
    }
}

/// Relies on `lzma_rs::lzma_decompress`: its result depends on the stream alone;
/// a stream shorter than the 13-byte header fails; a stream that `lzma_compress`
/// wrote for some input decodes to that input.
#[verifier::external_body]
pub(crate) fn lzma_decompress_bytes(data: &Vec<u8>) -> (r: Option<Vec<u8>>)
    ensures
        r is Some <==> lzma_decompressed(data@) is Some,
        r is Some ==> r->Some_0@ == lzma_decompressed(data@)->Some_0,
        data@.len() < 13 ==> r is None,
        forall|x: Seq<u8>| #[trigger] lzma_compressed(x) == data@ ==> r is Some && r->Some_0@ == x,
{
    let mut out: Vec<u8> = Vec::new();
    match lzma_rs::lzma_decompress(&mut data.as_slice(), &mut out) {
        Ok(()) => Some(out),
        Err(_) => None,
    }
}

/// Relies on `png::Encoder` (fast compression, no filter) and on
/// `Writer::write_image_data`: the PNG file of a `side` by `side` image, which
/// depends on the pixels, the side, the bit depth and the colour type alone. It
/// fails only on a zero side (writing to a `Vec` never fails); the pixel count is
/// required to match, since a mismatched one is an error and an overflowing one
/// a panic.
#[verifier::external_body]
pub(crate) fn png_encode(pixels: &Vec<u8>, side: u32, bit_depth: u8, color_code: u8) -> (r: Option<
    Vec<u8>,
>)
    requires
        bit_depth == 8 || bit_depth == 16,
        channels_of_code(color_code as int) is Some,
        pixels@.len() == side as int * side as int * (bit_depth as int / 8) * channels_of_code(
            color_code as int,
        )->Some_0 as int,
    ensures
        side > 0 ==> r is Some,
        r is Some ==> r->Some_0@ == png_encoding(pixels@, side, bit_depth, color_code),
{
    let mut out: Vec<u8> = Vec::new();
    let mut encoder = png::Encoder::new(&mut out, side, side);
    encoder.set_depth(png::BitDepth::from_u8(bit_depth)?);
    encoder.set_color(png::ColorType::from_u8(color_code)?);
    encoder.set_compression(png::Compression::Fast);
    encoder.set_filter(png::FilterType::NoFilter);
    let mut writer = encoder.write_header().ok()?;
    writer.write_image_data(pixels).ok()?;
    writer.finish().ok()?;
    Some(out)
}

/// Relies on `image::io::Reader` (format guessed from the bytes, limits lifted)
/// and its `decode`.
#[verifier::external_body]
pub(crate) fn image_decode(bytes: &Vec<u8>) -> (r: Option<image::DynamicImage>)
    ensures
        r == decoded_image(bytes@),
{
    let mut reader = image::io::Reader::new(std::io::Cursor::new(bytes.as_slice()));
    reader.no_limits();
    reader.with_guessed_format().ok()?.decode().ok()
}

/// Relies on `GenericImageView::dimensions` of `image::DynamicImage`.
#[verifier::external_body]
pub(crate) fn image_dimensions(img: &image::DynamicImage) -> (r: (u32, u32))
    ensures
        r == image_size(*img),
{
    img.dimensions()
}

/// Relies on `GenericImageView::get_pixel` of `image::DynamicImage`, which panics
/// outside the image: the first channel of the top-left pixel, as eight bits.
#[verifier::external_body]
pub(crate) fn image_first_channel(img: &image::DynamicImage) -> (r: u8)
    requires
        image_size(*img).0 > 0,
        image_size(*img).1 > 0,
    ensures
        r == top_left_channel(*img),
{
    img.get_pixel(0, 0)[0]
}

/// Relies on `DynamicImage::into_luma8`: the image's samples as 8-bit gray.
#[verifier::external_body]
pub(crate) fn image_luma8(img: image::DynamicImage) -> (r: Vec<u8>)
    ensures
        r@ == luma8_samples(img),
{
    img.into_luma8().into_raw()
}

/// Relies on `DynamicImage::into_luma_alpha8`: the samples as 8-bit gray and alpha.
#[verifier::external_body]
pub(crate) fn image_luma_alpha8(img: image::DynamicImage) -> (r: Vec<u8>)
    ensures
        r@ == luma_alpha8_samples(img),
{
    img.into_luma_alpha8().into_raw()
}

/// Relies on `DynamicImage::into_rgb8`: the samples as 8-bit RGB.
#[verifier::external_body]
pub(crate) fn image_rgb8(img: image::DynamicImage) -> (r: Vec<u8>)
    ensures
        r@ == rgb8_samples(img),
{
    img.into_rgb8().into_raw()
}

/// Relies on `DynamicImage::into_rgba8`: the samples as 8-bit RGBA.
#[verifier::external_body]
pub(crate) fn image_rgba8(img: image::DynamicImage) -> (r: Vec<u8>)
    ensures
        r@ == rgba8_samples(img),
{
    img.into_rgba8().into_raw()
}

/// Relies on `DynamicImage::into_luma16`: the samples as 16-bit gray.
#[verifier::external_body]
pub(crate) fn image_luma16(img: image::DynamicImage) -> (r: Vec<u16>)
    ensures
        r@ == luma16_samples(img),
{
    img.into_luma16().into_raw()
}

/// Relies on `DynamicImage::into_luma_alpha16`: the samples as 16-bit gray and alpha.
#[verifier::external_body]
pub(crate) fn image_luma_alpha16(img: image::DynamicImage) -> (r: Vec<u16>)
    ensures
        r@ == luma_alpha16_samples(img),
{
    img.into_luma_alpha16().into_raw()
}

/// Relies on `DynamicImage::into_rgb16`: the samples as 16-bit RGB.
#[verifier::external_body]
pub(crate) fn image_rgb16(img: image::DynamicImage) -> (r: Vec<u16>)
    ensures
        r@ == rgb16_samples(img),
{
    img.into_rgb16().into_raw()
}

/// Relies on `DynamicImage::into_rgba16`: the samples as 16-bit RGBA.
#[verifier::external_body]
pub(crate) fn image_rgba16(img: image::DynamicImage) -> (r: Vec<u16>)
    ensures
        r@ == rgba16_samples(img),
{
    img.into_rgba16().into_raw()
}

/// Relies on `rand::thread_rng` and `RngCore::fill_bytes`: `n` bytes of
/// unspecified value.
#[verifier::external_body]
pub(crate) fn random_bytes(n: usize) -> (r: Vec<u8>)
    ensures
        r@.len() == n,
{
    let mut buf: Vec<u8> = vec![0u8; n];
    rand::thread_rng().fill_bytes(&mut buf);
    buf
}

} // verus!
