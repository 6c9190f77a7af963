//! Carries an arbitrary byte payload as the pixels of a square, lossless image.
//!
//! The payload is compressed, framed behind a metadata pixel and a padding-length
//! field, padded to a perfect square of pixels, and handed to an image encoder.
//! Decoding reverses each step exactly.
use vstd::prelude::*;

pub mod bin;
pub mod buffer;
pub mod bytes;
pub mod codec;
pub mod error;
pub mod external;
pub mod format;
pub mod geometry;
pub mod img;
pub mod packing;

pub use crate::bin::Bin;
pub use crate::buffer::{LowMemoryReadableVec, WritableRcRefCellVec};
pub use crate::codec::{decode, encode};
pub use crate::error::CodecError;
pub use crate::format::PixelFormat;
pub use crate::geometry::{ceil_sqrt_u128, PackLayout};
pub use crate::img::{samples_to_be_bytes, Img};
pub use crate::packing::{pack, unpack, unpack_stream, PackedImage};
