use crate::error::CodecError;
use vstd::prelude::*;

verus! {

/// A raster pixel format: bits per channel and number of colour channels
/// (1 gray, 2 gray with alpha, 3 RGB, 4 RGBA).
#[derive(Clone, Copy, Debug, PartialEq, Eq, Structural)]
pub struct PixelFormat {
    pub bit_depth: u8,
    pub color_channels: u8,
}

/// The colour-type code of the image container for a channel count.
pub open spec fn color_code_of(channels: int) -> int {
    if channels == 1 {
        0
    } else if channels == 2 {
        4
    } else if channels == 3 {
        2
    } else {
        6
    }
}

/// The channel count for a colour-type code, where the code is recognised.
pub open spec fn channels_of_code(code: int) -> Option<u8> {
    if code == 0 {
        Some(1u8)
    } else if code == 4 {
        Some(2u8)
    } else if code == 2 {
        Some(3u8)
    } else if code == 6 {
        Some(4u8)
    } else {
        None
    }
}

/// What `PixelFormat::decode_metadata` returns for a byte.
pub open spec fn decode_metadata_spec(b: u8) -> Result<PixelFormat, CodecError> {
    let depth = b / 8;
    let code = b % 8;
    if (depth == 8 || depth == 16) && channels_of_code(code as int) is Some {
        Ok(PixelFormat { bit_depth: depth, color_channels: channels_of_code(code as int)->Some_0 })
    } else {
        Err(CodecError::UnsupportedFormat)
    }
}

impl PixelFormat {
    /// Bit depth 8 or 16, and one to four channels.
    pub open spec fn valid(self) -> bool {
        &&& (self.bit_depth == 8 || self.bit_depth == 16)
        &&& 1 <= self.color_channels <= 4
    }

    pub open spec fn bytes_per_channel_spec(self) -> int {
        self.bit_depth as int / 8
    }

    pub open spec fn bytes_per_pixel_spec(self) -> int {
        self.bytes_per_channel_spec() * self.color_channels as int
    }

    /// Gray with alpha and RGBA carry an alpha channel as their last channel.
    pub open spec fn has_alpha(self) -> bool {
        self.color_channels == 2 || self.color_channels == 4
    }

    /// The metadata byte of a valid format: bit depth shifted left by three, or'ed
    /// with the colour-type code.
    pub open spec fn metadata_byte(self) -> u8 {
        (self.bit_depth * 8 + color_code_of(self.color_channels as int)) as u8
    }

    /// The metadata pixel: every channel holds the metadata byte in each of its
    /// bytes, except an alpha channel, which is fully opaque.
    pub open spec fn metadata_pixel(self) -> Seq<u8> {
        let bpp = self.bytes_per_pixel_spec();
        let bpc = self.bytes_per_channel_spec();
        Seq::new(
            bpp as nat,
            |i: int|
                if self.has_alpha() && i >= bpp - bpc {
                    0xFFu8
                } else {
                    self.metadata_byte()
                },
        )
    }

    /// Builds a format from a bit depth and a channel count; fails on anything
    /// but 8 or 16 bits and one to four channels.
    pub fn new(bit_depth: u8, color_channels: u8) -> (r: Result<PixelFormat, CodecError>)
        ensures
            ({
                let f = PixelFormat { bit_depth, color_channels };
                if f.valid() {
                    r == Ok::<PixelFormat, CodecError>(f)
                } else {
                    r == Err::<PixelFormat, CodecError>(CodecError::UnsupportedFormat)
                }
            }),
    {
        let f = PixelFormat { bit_depth, color_channels };
        if f.is_valid() {
            Ok(f)
        } else {
            Err(CodecError::UnsupportedFormat)
        }
    }

    /// Builds a format from a bit depth and the image container's colour-type
    /// code (0 gray, 2 RGB, 4 gray with alpha, 6 RGBA).
    pub fn from_code(bit_depth: u8, color_code: u8) -> (r: Result<PixelFormat, CodecError>)
        ensures
            (bit_depth == 8 || bit_depth == 16) && channels_of_code(color_code as int) is Some
                ==> r == Ok::<PixelFormat, CodecError>(
                PixelFormat {
                    bit_depth,
                    color_channels: channels_of_code(color_code as int)->Some_0,
                },
            ),
            !((bit_depth == 8 || bit_depth == 16) && channels_of_code(color_code as int) is Some)
                ==> r == Err::<PixelFormat, CodecError>(CodecError::UnsupportedFormat),
    {
        let channels: u8 = match color_code {
            0 => 1,
            4 => 2,
            2 => 3,
            6 => 4,
            _ => {
                return Err(CodecError::UnsupportedFormat);
            },
        };
        PixelFormat::new(bit_depth, channels)
    }

    pub fn is_valid(&self) -> (r: bool)
        ensures
            r == self.valid(),
    {
        (self.bit_depth == 8 || self.bit_depth == 16) && 1 <= self.color_channels
            && self.color_channels <= 4
    }

    /// The bit depth, where it is 8 or 16.
    pub fn bit_depth_checked(&self) -> (r: Result<u8, CodecError>)
        ensures
            (self.bit_depth == 8 || self.bit_depth == 16) ==> r == Ok::<u8, CodecError>(
                self.bit_depth,
            ),
            !(self.bit_depth == 8 || self.bit_depth == 16) ==> r == Err::<u8, CodecError>(
                CodecError::UnsupportedFormat,
            ),
    {
        if self.bit_depth == 8 || self.bit_depth == 16 {
            Ok(self.bit_depth)
        } else {
            Err(CodecError::UnsupportedFormat)
        }
    }

    /// The number of channels, where it is one of the four recognised layouts.
    pub fn colors_per_pixel(&self) -> (r: Result<u8, CodecError>)
        ensures
            1 <= self.color_channels <= 4 ==> r == Ok::<u8, CodecError>(self.color_channels),
            !(1 <= self.color_channels <= 4) ==> r == Err::<u8, CodecError>(
                CodecError::UnsupportedFormat,
            ),
    {
        if 1 <= self.color_channels && self.color_channels <= 4 {
            Ok(self.color_channels)
        } else {
            Err(CodecError::UnsupportedFormat)
        }
    }

    /// The number of channels that are not alpha.
    pub fn colors_per_pixel_except_alpha(&self) -> (r: Result<u8, CodecError>)
        ensures
            1 <= self.color_channels <= 4 ==> r == Ok::<u8, CodecError>(
                if self.has_alpha() {
                    (self.color_channels - 1) as u8
                } else {
                    self.color_channels
                },
            ),
            !(1 <= self.color_channels <= 4) ==> r == Err::<u8, CodecError>(
                CodecError::UnsupportedFormat,
            ),
    {
        match self.color_channels {
            1 => Ok(1),
            2 => Ok(1),
            3 => Ok(3),
            4 => Ok(3),
            _ => Err(CodecError::UnsupportedFormat),
        }
    }

    /// The colour-type code of the image container: gray 0, RGB 2, gray with
    /// alpha 4, RGBA 6.
    pub fn color_type_code(&self) -> (r: Result<u8, CodecError>)
        ensures
            1 <= self.color_channels <= 4 ==> r == Ok::<u8, CodecError>(
                color_code_of(self.color_channels as int) as u8,
            ),
            !(1 <= self.color_channels <= 4) ==> r == Err::<u8, CodecError>(
                CodecError::UnsupportedFormat,
            ),
    {
        match self.color_channels {
            1 => Ok(0),
            2 => Ok(4),
            3 => Ok(2),
            4 => Ok(6),
            _ => Err(CodecError::UnsupportedFormat),
        }
    }

    /// Bytes per channel of a valid format: 1 or 2.
    pub fn bytes_per_channel(&self) -> (r: u8)
        requires
            self.valid(),
        ensures
            r as int == self.bytes_per_channel_spec(),
            r == 1 || r == 2,
    {
        self.bit_depth / 8
    }

    /// Bytes per pixel of a valid format: 1 to 8.
    pub fn bytes_per_pixel(&self) -> (r: u8)
        requires
            self.valid(),
        ensures
            r as int == self.bytes_per_pixel_spec(),
            1 <= r <= 8,
    {
        if self.bit_depth == 8 {
            assert(self.bytes_per_channel_spec() == 1);
            self.color_channels
        } else {
            assert(self.bytes_per_channel_spec() == 2);
            2 * self.color_channels
        }
    }

    /// The metadata byte `(bit_depth << 3) | color_type_code`; fails on a format
    /// that is not recognised.
    pub fn encode_metadata(&self) -> (r: Result<u8, CodecError>)
        ensures
            self.valid() ==> r == Ok::<u8, CodecError>(self.metadata_byte()),
            !self.valid() ==> r == Err::<u8, CodecError>(CodecError::UnsupportedFormat),
    {
        let depth = self.bit_depth_checked()?;
        let code = self.color_type_code()?;
        Ok(depth * 8 + code)
    }

    /// The format that a metadata byte records: bit depth `b >> 3`, colour-type
    /// code `b & 7`; fails unless both are recognised.
    pub fn decode_metadata(b: u8) -> (r: Result<PixelFormat, CodecError>)
        ensures
            r == decode_metadata_spec(b),
    {
        let depth = b / 8;
        let code = b % 8;
        if depth != 8 && depth != 16 {
            return Err(CodecError::UnsupportedFormat);
        }
        let channels: u8 = match code {
            0 => 1,
            4 => 2,
            2 => 3,
            6 => 4,
            _ => {
                return Err(CodecError::UnsupportedFormat);
            },
        };
        Ok(PixelFormat { bit_depth: depth, color_channels: channels })
    }

    /// The bytes of the metadata pixel of a valid format.
    pub fn metadata_pixel_bytes(&self) -> (r: Vec<u8>)
        requires
            self.valid(),
        ensures
            r@ == self.metadata_pixel(),
    {
        let meta = self.bit_depth * 8 + if self.color_channels == 1 {
            0u8
        } else if self.color_channels == 2 {
            4u8
        } else if self.color_channels == 3 {
            2u8
        } else {
            6u8
        };
        let bpc = self.bytes_per_channel();
        let bpp = self.bytes_per_pixel();
        let opaque_from: u8 = if self.color_channels == 2 || self.color_channels == 4 {
            bpp - bpc
        } else {
            bpp
        };
        let mut out: Vec<u8> = Vec::new();
        let mut i: u8 = 0;
        while i < bpp
            invariant
                self.valid(),
                bpp as int == self.bytes_per_pixel_spec(),
                bpc as int == self.bytes_per_channel_spec(),
                meta == self.metadata_byte(),
                opaque_from as int == (if self.has_alpha() {
                    bpp - bpc
                } else {
                    bpp as int
                }),
                i <= bpp,
                out@.len() == i,
                forall|k: int| 0 <= k < i ==> out@[k] == self.metadata_pixel()[k],
            decreases bpp - i,
        {
            if i >= opaque_from {
                out.push(0xFF);
            } else {
                out.push(meta);
            }
            i = i + 1;
        }
        assert(out@ =~= self.metadata_pixel());
        out
    }
}

/// A valid format has one or two bytes per channel and one to eight per pixel;
/// its metadata pixel starts with the metadata byte.
pub proof fn lemma_format_sizes(f: PixelFormat)
    requires
        f.valid(),
    ensures
        f.bytes_per_channel_spec() == 1 || f.bytes_per_channel_spec() == 2,
        1 <= f.bytes_per_pixel_spec() <= 8,
        f.metadata_pixel().len() == f.bytes_per_pixel_spec(),
        f.metadata_pixel()[0] == f.metadata_byte(),
{
    if f.bit_depth == 8 {
        assert(f.bytes_per_channel_spec() == 1);
    } else {
        assert(f.bytes_per_channel_spec() == 2);
    }
}

/// Decoding the metadata byte of a valid format gives the format back.
pub proof fn lemma_metadata_fidelity(f: PixelFormat)
    requires
        f.valid(),
    ensures
        decode_metadata_spec(f.metadata_byte()) == Ok::<PixelFormat, CodecError>(f),
{
}

} // verus!
