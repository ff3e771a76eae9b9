//! The header resolver: interprets the first record as the image's
//! structural header, and the derived per-row quantities (channel count,
//! stride, filter distance) that the rest of the pipeline works with.

use vstd::prelude::*;

use crate::chunk::be_u32_at;
use crate::chunk::Chunk;
use crate::chunk::ChunkView;
use crate::error::HeaderField;
use crate::error::PngError;

verus! {

/// The structural header of the image: dimensions, sample layout, and the
/// three method codes.
#[derive(Debug, Clone, Copy, PartialEq, Eq, Structural)]
pub struct PNGHeader {
    pub width: u32,
    pub height: u32,
    pub bit_depth: u8,
    pub color_type: u8,
    pub compression_method: u8,
    pub filter_method: u8,
    pub interlace_method: u8,
}

/// The type tag of the header record.
pub open spec fn ihdr_tag() -> Seq<u8> {
    seq![73u8, 72u8, 68u8, 82u8]
}

/// The five color model codes: grayscale, truecolor, indexed,
/// grayscale-alpha, truecolor-alpha.
pub open spec fn color_type_valid(ct: u8) -> bool {
    ct == 0 || ct == 2 || ct == 3 || ct == 4 || ct == 6
}

/// The legal bit depths for a color model: sub-byte depths exist only for
/// grayscale and indexed images, and indexed images stop at 8.
pub open spec fn bit_depth_valid(ct: u8, d: u8) -> bool {
    if ct == 0 {
        d == 1 || d == 2 || d == 4 || d == 8 || d == 16
    } else if ct == 3 {
        d == 1 || d == 2 || d == 4 || d == 8
    } else {
        d == 8 || d == 16
    }
}

/// Samples per pixel of a color model.
pub open spec fn channel_count(ct: u8) -> int {
    if ct == 0 {
        1
    } else if ct == 2 {
        3
    } else if ct == 3 {
        1
    } else if ct == 4 {
        2
    } else {
        4
    }
}

/// Bytes of sample data in one reconstructed row: the packed samples of
/// `w` pixels, rounded up to whole bytes.
pub open spec fn stride_of(ct: u8, d: u8, w: int) -> int {
    (w * channel_count(ct) * d + 7) / 8
}

/// The "byte distance back" used by filters that reference the same row:
/// the bytes of one complete pixel, at least 1.
pub open spec fn bytes_per_pixel(ct: u8, d: u8) -> int {
    let b = channel_count(ct) * d / 8;
    if b < 1 {
        1
    } else {
        b
    }
}

/// The header spelled by the first record, or the error that rules it out:
/// `MissingHeader` for a wrong tag, `MalformedHeader` for a payload that is
/// not 13 bytes or a zero dimension, `UnsupportedHeaderField` for a code
/// outside its legal set.
pub open spec fn spec_parse_header(c: ChunkView) -> Result<PNGHeader, PngError> {
    if c.type_tag != ihdr_tag() {
        Err(PngError::MissingHeader)
    } else if c.data.len() != 13 {
        Err(PngError::MalformedHeader)
    } else {
        let h = PNGHeader {
            width: be_u32_at(c.data, 0) as u32,
            height: be_u32_at(c.data, 4) as u32,
            bit_depth: c.data[8],
            color_type: c.data[9],
            compression_method: c.data[10],
            filter_method: c.data[11],
            interlace_method: c.data[12],
        };
        if h.width == 0 || h.height == 0 {
            Err(PngError::MalformedHeader)
        } else if !color_type_valid(h.color_type) {
            Err(PngError::UnsupportedHeaderField(HeaderField::ColorModel))
        } else if !bit_depth_valid(h.color_type, h.bit_depth) {
            Err(PngError::UnsupportedHeaderField(HeaderField::BitDepth))
        } else if h.compression_method != 0 {
            Err(PngError::UnsupportedHeaderField(HeaderField::CompressionMethod))
        } else if h.filter_method != 0 {
            Err(PngError::UnsupportedHeaderField(HeaderField::FilterMethod))
        } else if h.interlace_method > 1 {
            Err(PngError::UnsupportedHeaderField(HeaderField::InterlaceMethod))
        } else {
            Ok(h)
        }
    }
}

impl PNGHeader {
    /// Interprets a record as the image header: the tag must read "IHDR",
    /// the payload must be exactly 13 bytes, the dimensions must be
    /// positive, and every coded field must sit in its legal set.
    pub fn from_chunk(c: &Chunk) -> (r: Result<PNGHeader, PngError>)
        ensures
            r == spec_parse_header(c@),
    {
        let tag_ok = c.chunk_type.len() == 4 && c.chunk_type[0] == 73u8 && c.chunk_type[1] == 72u8
            && c.chunk_type[2] == 68u8 && c.chunk_type[3] == 82u8;
        proof {
            if tag_ok {
                assert(c.chunk_type@ =~= ihdr_tag());
            } else {
                assert(c.chunk_type@ != ihdr_tag()) by {
                    if c.chunk_type@ == ihdr_tag() {
                        assert(c.chunk_type@.len() == 4);
                        assert(c.chunk_type@[0] == 73u8);
                        assert(c.chunk_type@[1] == 72u8);
                        assert(c.chunk_type@[2] == 68u8);
                        assert(c.chunk_type@[3] == 82u8);
                    }
                }
            }
        }
        if !tag_ok {
            return Err(PngError::MissingHeader);
        }
        if c.data.len() != 13 {
            return Err(PngError::MalformedHeader);
        }
        let width = crate::chunk::read_be_u32(&c.data, 0);
        let height = crate::chunk::read_be_u32(&c.data, 4);
        let h = PNGHeader {
            width,
            height,
            bit_depth: c.data[8],
            color_type: c.data[9],
            compression_method: c.data[10],
            filter_method: c.data[11],
            interlace_method: c.data[12],
        };
        if h.width == 0 || h.height == 0 {
            Err(PngError::MalformedHeader)
        } else if !(h.color_type == 0 || h.color_type == 2 || h.color_type == 3 || h.color_type == 4
            || h.color_type == 6) {
            Err(PngError::UnsupportedHeaderField(HeaderField::ColorModel))
        } else if !bit_depth_ok(h.color_type, h.bit_depth) {
            Err(PngError::UnsupportedHeaderField(HeaderField::BitDepth))
        } else if h.compression_method != 0 {
            Err(PngError::UnsupportedHeaderField(HeaderField::CompressionMethod))
        } else if h.filter_method != 0 {
            Err(PngError::UnsupportedHeaderField(HeaderField::FilterMethod))
        } else if h.interlace_method > 1 {
            Err(PngError::UnsupportedHeaderField(HeaderField::InterlaceMethod))
        } else {
            Ok(h)
        }
    }
}

/// Decides `bit_depth_valid` on concrete codes.
pub fn bit_depth_ok(ct: u8, d: u8) -> (r: bool)
    ensures
        r == bit_depth_valid(ct, d),
{
    if ct == 0 {
        d == 1 || d == 2 || d == 4 || d == 8 || d == 16
    } else if ct == 3 {
        d == 1 || d == 2 || d == 4 || d == 8
    } else {
        d == 8 || d == 16
    }
}

} // verus!
