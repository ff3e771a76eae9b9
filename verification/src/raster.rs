//! The color model resolver and the decode drivers: from the image-data
//! records to the final raster.
//!
//! The records' payloads are concatenated in file order, decompressed by
//! the external inflate collaborator, reconstructed row by row, unpacked
//! into samples, and resolved into 8-bit RGBA pixels. Models without an
//! alpha channel resolve with alpha 255.

use vstd::prelude::*;

use crate::chunk::chunk_views;
use crate::chunk::Chunk;
use crate::chunk::ChunkView;
use crate::error::PngError;
use crate::filter::filters_known;
use crate::filter::spec_scanline;
use crate::header::bit_depth_valid;
use crate::header::bytes_per_pixel;
use crate::header::channel_count;
use crate::header::color_type_valid;
use crate::header::stride_of;
use crate::sample::spec_samples;

verus! {

/// One palette entry or opaque pixel value.
pub type RGB = (u8, u8, u8);

/// One resolved pixel: red, green, blue, alpha.
pub type RGBA = (u8, u8, u8, u8);

/// The decode output: `height` rows of `width` RGBA pixels, top row first.
#[derive(Debug, Clone)]
pub struct RGBImage(pub Vec<Vec<RGBA>>);

impl View for RGBImage {
    type V = Seq<Seq<RGBA>>;

    open spec fn view(&self) -> Seq<Seq<RGBA>> {
        self.0@.map_values(|r: Vec<RGBA>| r@)
    }
}

/// Pixel `i` of a row, resolved from its normalized samples: grayscale
/// replicates, truecolor reads three samples, indexed looks the sample up
/// in the palette, and the alpha models carry their trailing alpha sample.
pub open spec fn spec_pixel(samples: Seq<u8>, ct: u8, pal: Seq<RGB>, i: int) -> RGBA {
    if ct == 0 {
        (samples[i], samples[i], samples[i], 255u8)
    } else if ct == 2 {
        (samples[3 * i], samples[3 * i + 1], samples[3 * i + 2], 255u8)
    } else if ct == 3 {
        let p = pal[samples[i] as int];
        (p.0, p.1, p.2, 255u8)
    } else if ct == 4 {
        (samples[2 * i], samples[2 * i], samples[2 * i], samples[2 * i + 1])
    } else {
        (samples[4 * i], samples[4 * i + 1], samples[4 * i + 2], samples[4 * i + 3])
    }
}

/// Every sample of an indexed row is below the palette length.
pub open spec fn indexed_in_range(samples: Seq<u8>, pal_len: nat) -> bool {
    forall|i: int| 0 <= i < samples.len() ==> (samples[i] as int) < pal_len
}

/// One resolved row of `w` pixels.
pub open spec fn spec_pixel_row(samples: Seq<u8>, ct: u8, pal: Seq<RGB>, w: int) -> Seq<RGBA> {
    Seq::new(w as nat, |i: int| spec_pixel(samples, ct, pal, i))
}

/// The raster spelled by a decompressed scanline stream, or the error that
/// rules it out: `TruncatedStream` for a stream shorter than
/// `height * (stride + 1)` bytes, `UnknownFilterType` for a filter code
/// above 4, `PaletteIndexOutOfRange` for an indexed sample not below the
/// palette length.
pub open spec fn spec_decode_stream(
    s: Seq<u8>,
    ct: u8,
    d: u8,
    w: int,
    h: int,
    pal: Seq<RGB>,
) -> Result<Seq<Seq<RGBA>>, PngError> {
    let st = stride_of(ct, d, w);
    let bpp = bytes_per_pixel(ct, d);
    if s.len() < h * (st + 1) {
        Err(PngError::TruncatedStream)
    } else if !filters_known(s, st, h) {
        Err(PngError::UnknownFilterType)
    } else if ct == 3 && exists|n: int|
        0 <= n < h && !indexed_in_range(
            spec_samples(spec_scanline(s, st, bpp, n), ct, d, w),
            pal.len(),
        ) {
        Err(PngError::PaletteIndexOutOfRange)
    } else {
        Ok(
            Seq::new(
                h as nat,
                |n: int|
                    spec_pixel_row(spec_samples(spec_scanline(s, st, bpp, n), ct, d, w), ct, pal, w),
            ),
        )
    }
}

/// What `inflate` spells out of a compressed byte sequence, or `None`
/// where the sequence is not a well-formed stream. The outcome depends on
/// the bytes alone.
pub uninterp spec fn inflate_of(compressed: Seq<u8>) -> Option<Seq<u8>>;

/// Relies on `inflate::inflate_bytes_zlib`: decompresses a zlib-framed
/// stream into its plain bytes, or reports a malformed stream; a pure
/// function of the input bytes.
#[verifier::external_body]
fn inflate_zlib(compressed: &Vec<u8>) -> (r: Option<Vec<u8>>)
    ensures
        match r {
            Some(out) => inflate_of(compressed@) == Some(out@),
            None => inflate_of(compressed@) is None,
        },
{
    inflate::inflate_bytes_zlib(compressed.as_slice()).ok()
}

/// The concatenated payloads of a record sequence, in file order.
pub open spec fn idat_payload(cs: Seq<ChunkView>) -> Seq<u8>
    decreases cs.len(),
{
    if cs.len() == 0 {
        Seq::empty()
    } else {
        idat_payload(cs.drop_last()) + cs.last().data
    }
}

/// The raster spelled by the concatenated image-data payload once the
/// inflate collaborator has spoken: its failure surfaces as
/// `CompressedStreamCorrupt`.
pub open spec fn spec_inflate_decode(
    compressed: Seq<u8>,
    ct: u8,
    d: u8,
    w: int,
    h: int,
    pal: Seq<RGB>,
) -> Result<Seq<Seq<RGBA>>, PngError> {
    match inflate_of(compressed) {
        None => Err(PngError::CompressedStreamCorrupt),
        Some(s) => spec_decode_stream(s, ct, d, w, h, pal),
    }
}

/// An image result agrees with a raster result: same rows on success,
/// same error on failure.
pub open spec fn decode_matches(
    r: Result<RGBImage, PngError>,
    s: Result<Seq<Seq<RGBA>>, PngError>,
) -> bool {
    match (r, s) {
        (Ok(img), Ok(rows)) => img@ == rows,
        (Err(e1), Err(e2)) => e1 == e2,
        _ => false,
    }
}

/// Concatenates the payloads of the given records in order.
fn concat_idats(idat: &Vec<Chunk>) -> (out: Vec<u8>)
    ensures
        out@ == idat_payload(chunk_views(idat@)),
{
    let mut out: Vec<u8> = Vec::new();
    let mut i: usize = 0;
    proof {
        assert(chunk_views(idat@.take(0)) =~= Seq::<ChunkView>::empty());
    }
    while i < idat.len()
        invariant
            i <= idat@.len(),
            out@ == idat_payload(chunk_views(idat@.take(i as int))),
        decreases idat@.len() - i,
    {
        let data = &idat[i].data;
        let mut j: usize = 0;
        let ghost base = out@;
        let dn = data.len();
        while j < dn
            invariant
                dn == data@.len(),
                j <= dn,
                out@ == base + data@.take(j as int),
            decreases dn - j,
        {
            out.push(data[j]);
            proof {
                assert(base + data@.take(j + 1) =~= (base + data@.take(j as int)).push(
                    data@[j as int],
                ));
            }
            j += 1;
        }
        proof {
            let pre = chunk_views(idat@.take(i as int));
            let cur = chunk_views(idat@.take(i + 1));
            assert(cur.drop_last() =~= pre);
            assert(cur.last() == idat@[i as int]@);
            assert(data@.take(dn as int) =~= data@);
            assert(out@ == idat_payload(cur));
        }
        i += 1;
    }
    proof {
        assert(idat@.take(idat@.len() as int) =~= idat@);
    }
    out
}

/// Decides `channel_count` on a concrete code.
fn channels(ct: u8) -> (r: usize)
    requires
        color_type_valid(ct),
    ensures
        r as int == channel_count(ct),
{
    if ct == 0 {
        1
    } else if ct == 2 {
        3
    } else if ct == 3 {
        1
    } else if ct == 4 {
        2
    } else {
        4
    }
}

/// Resolves one row of normalized samples into pixels. For an indexed row,
/// fails with `PaletteIndexOutOfRange` if and only if some sample is not
/// below the palette length; the palette is never read out of bounds.
pub fn resolve_row(samples: &Vec<u8>, ct: u8, palette: &Vec<RGB>, width: u32) -> (r: Result<
    Vec<RGBA>,
    PngError,
>)
    requires
        color_type_valid(ct),
        samples@.len() == width * channel_count(ct),
    ensures
        if ct == 3 && !indexed_in_range(samples@, palette@.len()) {
            r == Err::<Vec<RGBA>, PngError>(PngError::PaletteIndexOutOfRange)
        } else {
            r matches Ok(row) && row@ == spec_pixel_row(samples@, ct, palette@, width as int)
        },
{
    let ch = channels(ct);
    let sn = samples.len();
    let mut row: Vec<RGBA> = Vec::new();
    let mut px: u32 = 0;
    while px < width
        invariant
            color_type_valid(ct),
            samples@.len() == width * channel_count(ct),
            sn == samples@.len(),
            ch as int == channel_count(ct),
            px <= width,
            row@.len() == px,
            forall|k: int|
                0 <= k < px ==> row@[k] == spec_pixel(samples@, ct, palette@, k),
            ct == 3 ==> indexed_in_range(samples@.take(px as int), palette@.len()),
        decreases width - px,
    {
        proof {
            assert((px + 1) * (ch as int) <= width * (ch as int)) by (nonlinear_arith)
                requires
                    px < width,
                    ch >= 1,
            ;
            assert((px + 1) * (ch as int) == px * (ch as int) + (ch as int)) by (nonlinear_arith);
            assert(px * (ch as int) + (ch as int) <= sn);
            assert(px * (ch as int) >= 0) by (nonlinear_arith)
                requires
                    px >= 0,
                    ch >= 1,
            ;
        }
        let base: usize = px as usize * ch;
        let pixel: RGBA = if ct == 0 {
            let v = samples[base];
            (v, v, v, 255u8)
        } else if ct == 2 {
            (samples[base], samples[base + 1], samples[base + 2], 255u8)
        } else if ct == 3 {
            let v = samples[base];
            if v as usize >= palette.len() {
                proof {
                    assert(samples@[px as int] as int >= palette@.len());
                    assert(!indexed_in_range(samples@, palette@.len()));
                }
                return Err(PngError::PaletteIndexOutOfRange);
            }
            let p = palette[v as usize];
            (p.0, p.1, p.2, 255u8)
        } else if ct == 4 {
            let v = samples[base];
            (v, v, v, samples[base + 1])
        } else {
            (samples[base], samples[base + 1], samples[base + 2], samples[base + 3])
        };
        proof {
            assert(pixel == spec_pixel(samples@, ct, palette@, px as int));
            if ct == 3 {
                assert(indexed_in_range(samples@.take(px + 1), palette@.len())) by {
                    assert(forall|i: int|
                        0 <= i < px + 1 ==> samples@.take(px + 1)[i] == samples@[i]);
                }
            }
        }
        row.push(pixel);
        px += 1;
    }
    proof {
        if ct == 3 {
            assert(width as int * channel_count(ct) == width as int) by (nonlinear_arith)
                requires
                    channel_count(ct) == 1,
            ;
            assert(samples@.take(width as int) =~= samples@);
        }
        assert(row@ =~= spec_pixel_row(samples@, ct, palette@, width as int));
    }
    Ok(row)
}

/// Decodes a decompressed scanline stream into the raster: reconstructs
/// each row in order, unpacks its samples, and resolves its pixels.
pub fn decode_stream(
    s: &Vec<u8>,
    ct: u8,
    depth: u8,
    width: u32,
    height: u32,
    palette: &Vec<RGB>,
) -> (r: Result<Vec<Vec<RGBA>>, PngError>)
    requires
        color_type_valid(ct),
        bit_depth_valid(ct, depth),
    ensures
        match r {
            Ok(rows) => spec_decode_stream(
                s@,
                ct,
                depth,
                width as int,
                height as int,
                palette@,
            ) == Ok::<Seq<Seq<RGBA>>, PngError>(rows@.map_values(|v: Vec<RGBA>| v@)),
            Err(e) => spec_decode_stream(s@, ct, depth, width as int, height as int, palette@)
                == Err::<Seq<Seq<RGBA>>, PngError>(e),
        },
{
    let ghost w = width as int;
    let ghost h = height as int;
    let ch = channels(ct);
    proof {
        assert(width as int * (ch as int) * (depth as int) <= 0xFFFF_FFFF * 4 * 16)
            by (nonlinear_arith)
            requires
                width <= 0xFFFF_FFFF,
                1 <= ch <= 4,
                1 <= depth <= 16,
        ;
    }
    let stride: u64 = (width as u64 * ch as u64 * depth as u64 + 7) / 8;
    let bppn: usize = ch * depth as usize / 8;
    let bpp: usize = if bppn < 1 {
        1
    } else {
        bppn
    };
    proof {
        assert(stride as int == stride_of(ct, depth, w));
        assert(bpp as int == bytes_per_pixel(ct, depth));
    }
    let ghost st = stride_of(ct, depth, w);
    let scanlines = match crate::filter::reconstruct_scanlines(s, height, stride, bpp) {
        Ok(rows) => rows,
        Err(e) => {
            return Err(e);
        },
    };
    let mut out: Vec<Vec<RGBA>> = Vec::new();
    let mut n: usize = 0;
    while n < scanlines.len()
        invariant
            color_type_valid(ct),
            bit_depth_valid(ct, depth),
            w == width as int,
            h == height as int,
            st == stride_of(ct, depth, w),
            scanlines@.len() == h,
            s@.len() >= h * (st + 1),
            filters_known(s@, st, h),
            forall|k: int|
                0 <= k < h ==> (#[trigger] scanlines@[k])@ == spec_scanline(
                    s@,
                    st,
                    bytes_per_pixel(ct, depth),
                    k,
                ),
            n <= h,
            out@.len() == n,
            forall|k: int|
                0 <= k < n ==> (#[trigger] out@[k])@ == spec_pixel_row(
                    spec_samples(spec_scanline(s@, st, bytes_per_pixel(ct, depth), k), ct, depth, w),
                    ct,
                    palette@,
                    w,
                ),
            ct == 3 ==> forall|k: int|
                0 <= k < n ==> indexed_in_range(
                    #[trigger] spec_samples(
                        spec_scanline(s@, st, bytes_per_pixel(ct, depth), k),
                        ct,
                        depth,
                        w,
                    ),
                    palette@.len(),
                ),
        decreases scanlines@.len() - n,
    {
        proof {
            let st1 = st + 1;
            assert((n + 1) * st1 <= h * st1) by (nonlinear_arith)
                requires
                    n < h,
                    st1 >= 1,
            ;
            assert((n + 1) * st1 == n * st1 + st1) by (nonlinear_arith);
            assert(n * st1 >= 0) by (nonlinear_arith)
                requires
                    n >= 0,
                    st1 >= 1,
            ;
            assert(scanlines@[n as int]@.len() == st);
        }
        let samples = crate::sample::unpack_samples(&scanlines[n], ct, depth, width);
        proof {
            if depth == 8 {
                assert(samples@.len() == width * channel_count(ct)) by (nonlinear_arith)
                    requires
                        samples@.len() == (width * channel_count(ct) * 8 + 7) / 8,
                        width >= 0,
                        channel_count(ct) >= 1,
                ;
            } else if depth == 16 {
            } else {
                assert(channel_count(ct) == 1);
                assert(samples@.len() == width * channel_count(ct)) by (nonlinear_arith)
                    requires
                        samples@.len() == width as int,
                        channel_count(ct) == 1,
                ;
            }
        }
        let row = match resolve_row(&samples, ct, palette, width) {
            Ok(row) => row,
            Err(e) => {
                proof {
                    assert(e == PngError::PaletteIndexOutOfRange);
                    assert(ct == 3 && !indexed_in_range(
                        spec_samples(
                            spec_scanline(s@, st, bytes_per_pixel(ct, depth), n as int),
                            ct,
                            depth,
                            w,
                        ),
                        palette@.len(),
                    ));
                }
                return Err(e);
            },
        };
        out.push(row);
        n += 1;
    }
    proof {
        if ct == 3 {
            assert(forall|k: int|
                0 <= k < h ==> indexed_in_range(
                    #[trigger] spec_samples(
                        spec_scanline(s@, st, bytes_per_pixel(ct, depth), k),
                        ct,
                        depth,
                        w,
                    ),
                    palette@.len(),
                ));
        }
        assert(out@.map_values(|v: Vec<RGBA>| v@) =~= spec_decode_stream(
            s@,
            ct,
            depth,
            w,
            h,
            palette@,
        ).unwrap());
    }
    Ok(out)
}

/// Concatenates the given records' payloads, inflates them, and decodes
/// the stream for one color model.
fn decode_idat(
    idat: &Vec<Chunk>,
    ct: u8,
    depth: u8,
    width: u32,
    height: u32,
    palette: &Vec<RGB>,
) -> (r: Result<RGBImage, PngError>)
    requires
        color_type_valid(ct),
        bit_depth_valid(ct, depth),
    ensures
        decode_matches(
            r,
            spec_inflate_decode(
                idat_payload(chunk_views(idat@)),
                ct,
                depth,
                width as int,
                height as int,
                palette@,
            ),
        ),
{
    let compressed = concat_idats(idat);
    let inflated = match inflate_zlib(&compressed) {
        Some(s) => s,
        None => {
            return Err(PngError::CompressedStreamCorrupt);
        },
    };
    match decode_stream(&inflated, ct, depth, width, height, palette) {
        Ok(rows) => Ok(RGBImage(rows)),
        Err(e) => Err(e),
    }
}

impl RGBImage {
    /// Decodes a grayscale image from its image-data records.
    pub fn from_grayscale_idat(idat: Vec<Chunk>, bit_depth: u8, width: u32, height: u32) -> (r:
        Result<Self, PngError>)
        requires
            bit_depth_valid(0, bit_depth),
        ensures
            decode_matches(
                r,
                spec_inflate_decode(
                    idat_payload(chunk_views(idat@)),
                    0,
                    bit_depth,
                    width as int,
                    height as int,
                    Seq::empty(),
                ),
            ),
    {
        let empty: Vec<RGB> = Vec::new();
        decode_idat(&idat, 0, bit_depth, width, height, &empty)
    }

    /// Decodes a truecolor image from its image-data records.
    pub fn from_rgb_idat(idat: Vec<Chunk>, bit_depth: u8, width: u32, height: u32) -> (r: Result<
        Self,
        PngError,
    >)
        requires
            bit_depth_valid(2, bit_depth),
        ensures
            decode_matches(
                r,
                spec_inflate_decode(
                    idat_payload(chunk_views(idat@)),
                    2,
                    bit_depth,
                    width as int,
                    height as int,
                    Seq::empty(),
                ),
            ),
    {
        let empty: Vec<RGB> = Vec::new();
        decode_idat(&idat, 2, bit_depth, width, height, &empty)
    }

    /// Decodes an indexed image from its image-data records and its
    /// palette; fails with `MissingPalette` where no palette was found.
    pub fn from_palette_idat(
        idat: Vec<Chunk>,
        bit_depth: u8,
        width: u32,
        height: u32,
        palette: Option<Vec<RGB>>,
    ) -> (r: Result<Self, PngError>)
        requires
            bit_depth_valid(3, bit_depth),
        ensures
            match palette {
                None => r == Err::<RGBImage, PngError>(PngError::MissingPalette),
                Some(p) => decode_matches(
                    r,
                    spec_inflate_decode(
                        idat_payload(chunk_views(idat@)),
                        3,
                        bit_depth,
                        width as int,
                        height as int,
                        p@,
                    ),
                ),
            },
    {
        match palette {
            None => Err(PngError::MissingPalette),
            Some(p) => decode_idat(&idat, 3, bit_depth, width, height, &p),
        }
    }

    /// Decodes a grayscale-alpha image from its image-data records.
    pub fn from_alpha_grayscale_idat(idat: Vec<Chunk>, bit_depth: u8, width: u32, height: u32) -> (r:
        Result<Self, PngError>)
        requires
            bit_depth_valid(4, bit_depth),
        ensures
            decode_matches(
                r,
                spec_inflate_decode(
                    idat_payload(chunk_views(idat@)),
                    4,
                    bit_depth,
                    width as int,
                    height as int,
                    Seq::empty(),
                ),
            ),
    {
        let empty: Vec<RGB> = Vec::new();
        decode_idat(&idat, 4, bit_depth, width, height, &empty)
    }

    /// Decodes a truecolor-alpha image from its image-data records.
    pub fn from_alpha_rgb_idat(idat: Vec<Chunk>, bit_depth: u8, width: u32, height: u32) -> (r:
        Result<Self, PngError>)
        requires
            bit_depth_valid(6, bit_depth),
        ensures
            decode_matches(
                r,
                spec_inflate_decode(
                    idat_payload(chunk_views(idat@)),
                    6,
                    bit_depth,
                    width as int,
                    height as int,
                    Seq::empty(),
                ),
            ),
    {
        let empty: Vec<RGB> = Vec::new();
        decode_idat(&idat, 6, bit_depth, width, height, &empty)
    }
}

} // verus!
