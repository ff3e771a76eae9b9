//! The error taxonomy of the decoder.
//!
//! Every failure of a decode session is reported as one of these variants;
//! the decoder never panics and never substitutes default pixels.

use vstd::prelude::*;

verus! {

/// The header field that an `UnsupportedHeaderField` error points at.
#[derive(Clone, Copy, Debug, PartialEq, Eq, Structural)]
pub enum HeaderField {
    BitDepth,
    ColorModel,
    CompressionMethod,
    FilterMethod,
    InterlaceMethod,
}

/// Why a decode session failed.
#[derive(Clone, Copy, Debug, PartialEq, Eq, Structural)]
pub enum PngError {
    /// The buffer does not start with the fixed signature bytes.
    InvalidSignature,
    /// A record's length field claims more bytes than remain in the buffer,
    /// or the decompressed stream holds fewer bytes than the raster needs.
    TruncatedStream,
    /// The buffer is empty before any record could be read.
    EmptyStream,
    /// The first record is not an image header record.
    MissingHeader,
    /// The header record's payload is not exactly 13 bytes, or a dimension
    /// is zero.
    MalformedHeader,
    /// A header field holds a code outside its legal set.
    UnsupportedHeaderField(HeaderField),
    /// The palette payload is not a whole number of RGB triples, or holds
    /// more than 256 of them.
    MalformedPalette,
    /// The image is indexed but no palette record was found.
    MissingPalette,
    /// No image-data record was found.
    MissingImageData,
    /// The concatenated image-data payload is not a valid compressed stream.
    CompressedStreamCorrupt,
    /// A scanline starts with a filter-type byte outside 0..=4.
    UnknownFilterType,
    /// An indexed sample is not below the palette length.
    PaletteIndexOutOfRange,
    /// The header signals interlacing, which this decoder does not support.
    InterlacingUnsupported,
}

} // verus!
