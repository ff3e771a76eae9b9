//! The decode session: from the raw byte buffer to the parsed record
//! list, header, palette and raster.

use vstd::prelude::*;

use crate::chunk::chunk_views;
use crate::chunk::parse_chunks;
use crate::chunk::spec_parse_chunks;
use crate::chunk::Chunk;
use crate::chunk::ChunkView;
use crate::error::PngError;
use crate::header::spec_parse_header;
use crate::header::PNGHeader;
use crate::palette::spec_parse_palette;
use crate::raster::idat_payload;
use crate::raster::spec_inflate_decode;
use crate::raster::RGBImage;
use crate::raster::RGB;
use crate::raster::RGBA;

verus! {

/// The fixed 8-byte file signature that precedes the chunk stream.
pub open spec fn png_signature() -> Seq<u8> {
    seq![137u8, 80u8, 78u8, 71u8, 13u8, 10u8, 26u8, 10u8]
}

/// The type tag of a palette record.
pub open spec fn plte_tag() -> Seq<u8> {
    seq![80u8, 76u8, 84u8, 69u8]
}

/// The type tag of an image-data record.
pub open spec fn idat_tag() -> Seq<u8> {
    seq![73u8, 68u8, 65u8, 84u8]
}

/// The first palette record of the stream, if any.
pub open spec fn spec_find_plte(cs: Seq<ChunkView>) -> Option<ChunkView>
    decreases cs.len(),
{
    if cs.len() == 0 {
        None
    } else if cs[0].type_tag == plte_tag() {
        Some(cs[0])
    } else {
        spec_find_plte(cs.drop_first())
    }
}

/// The image-data records of the stream, in file order.
pub open spec fn idat_chunks(cs: Seq<ChunkView>) -> Seq<ChunkView>
    decreases cs.len(),
{
    if cs.len() == 0 {
        Seq::empty()
    } else if cs.last().type_tag == idat_tag() {
        idat_chunks(cs.drop_last()).push(cs.last())
    } else {
        idat_chunks(cs.drop_last())
    }
}

/// The palette of the stream: absent where no palette record is, parsed
/// from the first palette record otherwise.
pub open spec fn spec_palette_of(cs: Seq<ChunkView>) -> Result<Option<Seq<RGB>>, PngError> {
    match spec_find_plte(cs) {
        None => Ok(None),
        Some(c) => match spec_parse_palette(c.data) {
            Ok(p) => Ok(Some(p)),
            Err(e) => Err(e),
        },
    }
}

/// A whole decode session over an already-parsed record list: resolve the
/// header from the first record, refuse interlacing, parse the palette,
/// concatenate and decode the image-data records under the header's color
/// model. On success, the header, the palette and the raster rows.
pub open spec fn spec_from_chunks(cs: Seq<ChunkView>) -> Result<
    (PNGHeader, Option<Seq<RGB>>, Seq<Seq<RGBA>>),
    PngError,
> {
    if cs.len() == 0 {
        Err(PngError::MissingHeader)
    } else {
        match spec_parse_header(cs[0]) {
            Err(e) => Err(e),
            Ok(h) => {
                if h.interlace_method == 1 {
                    Err(PngError::InterlacingUnsupported)
                } else {
                    match spec_palette_of(cs) {
                        Err(e) => Err(e),
                        Ok(pal) => {
                            let idats = idat_chunks(cs);
                            if idats.len() == 0 {
                                Err(PngError::MissingImageData)
                            } else {
                                let res = if h.color_type == 3 {
                                    match pal {
                                        None => Err(PngError::MissingPalette),
                                        Some(p) => spec_inflate_decode(
                                            idat_payload(idats),
                                            3,
                                            h.bit_depth,
                                            h.width as int,
                                            h.height as int,
                                            p,
                                        ),
                                    }
                                } else {
                                    spec_inflate_decode(
                                        idat_payload(idats),
                                        h.color_type,
                                        h.bit_depth,
                                        h.width as int,
                                        h.height as int,
                                        Seq::empty(),
                                    )
                                };
                                match res {
                                    Err(e) => Err(e),
                                    Ok(rows) => Ok((h, pal, rows)),
                                }
                            }
                        },
                    }
                }
            },
        }
    }
}

/// A whole decode session over the raw buffer that follows the signature.
pub open spec fn spec_from_bytes(b: Seq<u8>) -> Result<
    (Seq<ChunkView>, PNGHeader, Option<Seq<RGB>>, Seq<Seq<RGBA>>),
    PngError,
> {
    if b.len() == 0 {
        Err(PngError::EmptyStream)
    } else {
        match spec_parse_chunks(b) {
            None => Err(PngError::TruncatedStream),
            Some(cs) => match spec_from_chunks(cs) {
                Err(e) => Err(e),
                Ok((h, pal, rows)) => Ok((cs, h, pal, rows)),
            },
        }
    }
}

/// A completed decode session: the parsed header, the full record list,
/// the raster, and the palette if one was present.
#[derive(Debug, Clone)]
pub struct PNG {
    pub header: PNGHeader,
    pub chunks: Vec<Chunk>,
    pub image: RGBImage,
    pub palette: Option<Vec<RGB>>,
}

/// Checks the fixed signature and hands back the bytes that follow it;
/// fails with `InvalidSignature` where the buffer does not start with it.
pub fn strip_signature(bytes: &Vec<u8>) -> (r: Result<Vec<u8>, PngError>)
    ensures
        match r {
            Ok(rest) => bytes@.len() >= 8 && bytes@.take(8) == png_signature() && rest@
                == bytes@.skip(8),
            Err(e) => e == PngError::InvalidSignature && (bytes@.len() < 8 || bytes@.take(8)
                != png_signature()),
        },
{
    if bytes.len() < 8 {
        return Err(PngError::InvalidSignature);
    }
    let sig_ok = bytes[0] == 137 && bytes[1] == 80 && bytes[2] == 78 && bytes[3] == 71 && bytes[4]
        == 13 && bytes[5] == 10 && bytes[6] == 26 && bytes[7] == 10;
    proof {
        if sig_ok {
            assert(bytes@.take(8) =~= png_signature());
        } else {
            assert(bytes@.take(8) != png_signature()) by {
                if bytes@.take(8) == png_signature() {
                    assert(bytes@.take(8)[0] == 137u8);
                    assert(bytes@.take(8)[1] == 80u8);
                    assert(bytes@.take(8)[2] == 78u8);
                    assert(bytes@.take(8)[3] == 71u8);
                    assert(bytes@.take(8)[4] == 13u8);
                    assert(bytes@.take(8)[5] == 10u8);
                    assert(bytes@.take(8)[6] == 26u8);
                    assert(bytes@.take(8)[7] == 10u8);
                }
            }
        }
    }
    if !sig_ok {
        return Err(PngError::InvalidSignature);
    }
    let rest = crate::chunk::copy_range(bytes, 8, bytes.len() - 8);
    proof {
        assert(rest@ =~= bytes@.skip(8));
    }
    Ok(rest)
}

/// Copies one record field by field.
fn clone_chunk(c: &Chunk) -> (r: Chunk)
    ensures
        r@ == c@,
{
    let chunk_type = crate::chunk::copy_range(&c.chunk_type, 0, c.chunk_type.len());
    let data = crate::chunk::copy_range(&c.data, 0, c.data.len());
    let crc = crate::chunk::copy_range(&c.crc, 0, c.crc.len());
    proof {
        assert(chunk_type@ =~= c.chunk_type@);
        assert(data@ =~= c.data@);
        assert(crc@ =~= c.crc@);
    }
    Chunk::new(c.length, chunk_type, data, crc)
}

/// Copies a palette.
fn clone_palette(p: &Vec<RGB>) -> (r: Vec<RGB>)
    ensures
        r@ == p@,
{
    let mut out: Vec<RGB> = Vec::new();
    let mut i: usize = 0;
    let n = p.len();
    while i < n
        invariant
            n == p@.len(),
            i <= n,
            out@ == p@.take(i as int),
        decreases n - i,
    {
        out.push(p[i]);
        proof {
            assert(p@.take(i + 1) =~= p@.take(i as int).push(p@[i as int]));
        }
        i += 1;
    }
    proof {
        assert(p@.take(n as int) =~= p@);
    }
    out
}

/// Decides whether a record carries the given 4-byte tag.
fn tag_is(c: &Chunk, t0: u8, t1: u8, t2: u8, t3: u8) -> (r: bool)
    ensures
        r <==> c@.type_tag == seq![t0, t1, t2, t3],
{
    let r = c.chunk_type.len() == 4 && c.chunk_type[0] == t0 && c.chunk_type[1] == t1
        && c.chunk_type[2] == t2 && c.chunk_type[3] == t3;
    proof {
        if r {
            assert(c.chunk_type@ =~= seq![t0, t1, t2, t3]);
        } else {
            assert(c.chunk_type@ != seq![t0, t1, t2, t3]) by {
                if c.chunk_type@ == seq![t0, t1, t2, t3] {
                    assert(c.chunk_type@.len() == 4);
                    assert(c.chunk_type@[0] == t0);
                    assert(c.chunk_type@[1] == t1);
                    assert(c.chunk_type@[2] == t2);
                    assert(c.chunk_type@[3] == t3);
                }
            }
        }
    }
    r
}

/// Finds the index of the first palette record, if any.
fn find_plte(chunks: &Vec<Chunk>) -> (r: Option<usize>)
    ensures
        match r {
            Some(i) => i < chunks@.len() && spec_find_plte(chunk_views(chunks@)) == Some(
                chunks@[i as int]@,
            ),
            None => spec_find_plte(chunk_views(chunks@)) is None,
        },
{
    let ghost cs = chunk_views(chunks@);
    let mut i: usize = 0;
    let n = chunks.len();
    proof {
        assert(cs.skip(0) =~= cs);
    }
    while i < n
        invariant
            n == chunks@.len(),
            cs == chunk_views(chunks@),
            i <= n,
            spec_find_plte(cs) == spec_find_plte(cs.skip(i as int)),
        decreases n - i,
    {
        let hit = tag_is(&chunks[i], 80, 76, 84, 69);
        proof {
            assert(cs.skip(i as int)[0] == cs[i as int]);
        }
        if hit {
            proof {
                assert(spec_find_plte(cs.skip(i as int)) == Some(cs[i as int]));
            }
            return Some(i);
        }
        proof {
            assert(cs.skip(i as int).drop_first() =~= cs.skip(i + 1));
        }
        i += 1;
    }
    proof {
        assert(cs.skip(n as int) =~= Seq::<ChunkView>::empty());
    }
    None
}

/// Collects copies of the image-data records, in file order.
fn filter_idats(chunks: &Vec<Chunk>) -> (r: Vec<Chunk>)
    ensures
        chunk_views(r@) == idat_chunks(chunk_views(chunks@)),
{
    let ghost cs = chunk_views(chunks@);
    let mut out: Vec<Chunk> = Vec::new();
    let mut i: usize = 0;
    let n = chunks.len();
    proof {
        assert(cs.take(0) =~= Seq::<ChunkView>::empty());
        assert(chunk_views(out@) =~= idat_chunks(cs.take(0)));
    }
    while i < n
        invariant
            n == chunks@.len(),
            cs == chunk_views(chunks@),
            i <= n,
            chunk_views(out@) == idat_chunks(cs.take(i as int)),
        decreases n - i,
    {
        let hit = tag_is(&chunks[i], 73, 68, 65, 84);
        proof {
            assert(cs.take(i + 1).drop_last() =~= cs.take(i as int));
            assert(cs.take(i + 1).last() == cs[i as int]);
        }
        if hit {
            let c = clone_chunk(&chunks[i]);
            out.push(c);
            proof {
                assert(chunk_views(out@) =~= chunk_views(out@.drop_last()).push(cs[i as int]));
            }
        }
        i += 1;
    }
    proof {
        assert(cs.take(n as int) =~= cs);
    }
    out
}

impl PNG {
    /// Packs a completed decode session.
    pub fn new(
        header: PNGHeader,
        chunks: Vec<Chunk>,
        palette: Option<Vec<RGB>>,
        image: RGBImage,
    ) -> (r: Self)
        ensures
            r.header == header,
            r.chunks == chunks,
            r.palette == palette,
            r.image == image,
    {
        Self { header, chunks, palette, image }
    }

    /// Decodes a whole session from an already-parsed record list: header
    /// first, then interlacing, palette, and the image data under the
    /// header's color model. On success the raster has exactly `height`
    /// rows of `width` pixels.
    pub fn from_chunks(chunks: Vec<Chunk>) -> (r: Result<Self, PngError>)
        ensures
            match (r, spec_from_chunks(chunk_views(chunks@))) {
                (Ok(png), Ok(parts)) => png.header == parts.0 && (match (png.palette, parts.1) {
                    (Some(p), Some(sp)) => p@ == sp,
                    (None, None) => true,
                    _ => false,
                }) && png.image@ == parts.2 && chunk_views(png.chunks@) == chunk_views(chunks@)
                    && png.image@.len() == png.header.height && (forall|n: int|
                    0 <= n < png.image@.len() ==> (#[trigger] png.image@[n]).len()
                        == png.header.width),
                (Err(e1), Err(e2)) => e1 == e2,
                _ => false,
            },
{
        let ghost cs = chunk_views(chunks@);
        if chunks.len() == 0 {
            return Err(PngError::MissingHeader);
        }
        let header = match PNGHeader::from_chunk(&chunks[0]) {
            Ok(h) => h,
            Err(e) => {
                return Err(e);
            },
        };
        if header.interlace_method == 1 {
            return Err(PngError::InterlacingUnsupported);
        }
        let palette: Option<Vec<RGB>> = match find_plte(&chunks) {
            None => None,
            Some(i) => match crate::palette::parse_palette(&chunks[i]) {
                Ok(p) => Some(p),
                Err(e) => {
                    return Err(e);
                },
            },
        };
        let idats = filter_idats(&chunks);
        if idats.len() == 0 {
            proof {
                assert(idat_chunks(cs).len() == 0);
            }
            return Err(PngError::MissingImageData);
        }
        let image = if header.color_type == 0 {
            RGBImage::from_grayscale_idat(idats, header.bit_depth, header.width, header.height)
        } else if header.color_type == 2 {
            RGBImage::from_rgb_idat(idats, header.bit_depth, header.width, header.height)
        } else if header.color_type == 3 {
            let pal_copy: Option<Vec<RGB>> = match &palette {
                None => None,
                Some(p) => Some(clone_palette(p)),
            };
            RGBImage::from_palette_idat(
                idats,
                header.bit_depth,
                header.width,
                header.height,
                pal_copy,
            )
        } else if header.color_type == 4 {
            RGBImage::from_alpha_grayscale_idat(
                idats,
                header.bit_depth,
                header.width,
                header.height,
            )
        } else {
            RGBImage::from_alpha_rgb_idat(idats, header.bit_depth, header.width, header.height)
        };
        match image {
            Ok(img) => Ok(PNG::new(header, chunks, palette, img)),
            Err(e) => Err(e),
        }
    }

    /// Decodes a whole session from the byte buffer that follows the
    /// fixed signature: splits it into records and decodes them.
    pub fn from_bytes(bytes: Vec<u8>) -> (r: Result<Self, PngError>)
        ensures
            match (r, spec_from_bytes(bytes@)) {
                (Ok(png), Ok(parts)) => png.header == parts.1 && (match (png.palette, parts.2) {
                    (Some(p), Some(sp)) => p@ == sp,
                    (None, None) => true,
                    _ => false,
                }) && png.image@ == parts.3 && chunk_views(png.chunks@) == parts.0 && png.image@.len()
                    == png.header.height && (forall|n: int|
                    0 <= n < png.image@.len() ==> (#[trigger] png.image@[n]).len()
                        == png.header.width),
                (Err(e1), Err(e2)) => e1 == e2,
                _ => false,
            },
    {
        let chunks = match parse_chunks(&bytes) {
            Ok(cs) => cs,
            Err(e) => {
                return Err(e);
            },
        };
        PNG::from_chunks(chunks)
    }
}

} // verus!
