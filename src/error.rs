use vstd::prelude::*;

verus! {

/// The structured outcomes in which encoding or decoding fails.
#[derive(Clone, Copy, Debug, PartialEq, Eq, Structural)]
pub enum CodecError {
    /// The bit depth or colour layout is not one of the recognised ones.
    UnsupportedFormat,
    /// The square side or the byte count of the image does not fit its integer type.
    ArithmeticOverflow,
    /// The pixel stream is too short for its metadata, its padding field or its padding.
    TruncatedData,
    /// The compression transform rejected its input.
    CompressionError,
    /// The image container could not be written or read.
    ImageError,
}

} // verus!
