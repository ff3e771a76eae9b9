//! The scanline reconstructor: reverses the per-row delta filtering of the
//! decompressed byte stream.
//!
//! Each row of the stream is one filter-type byte followed by `stride`
//! filtered bytes. The five filters predict each byte from the byte one
//! pixel to the left, the byte directly above, and the byte above-left;
//! reconstruction adds the prediction back, modulo 256. Because the `Up`,
//! `Average` and `Paeth` predictions read the previous reconstructed row,
//! rows can only be reconstructed strictly in order.

use vstd::prelude::*;

use crate::error::PngError;

verus! {

/// The prediction a filter makes for one byte, from its reconstructed
/// neighbors: `left` one pixel back in the same row, `above` in the prior
/// row, `upleft` one pixel back in the prior row. Filter codes:
/// 0 none, 1 sub, 2 up, 3 average, 4 paeth.
pub open spec fn predictor(f: u8, left: u8, above: u8, upleft: u8) -> u8 {
    if f == 0 {
        0u8
    } else if f == 1 {
        left
    } else if f == 2 {
        above
    } else if f == 3 {
        ((left + above) / 2) as u8
    } else {
        paeth_predictor(left, above, upleft)
    }
}

/// The Paeth prediction: whichever of the three neighbors deviates least
/// from `left + above - upleft`, ties broken left, above, upleft.
pub open spec fn paeth_predictor(left: u8, above: u8, upleft: u8) -> u8 {
    let p = left + above - upleft;
    let pa = if p >= left {
        p - left
    } else {
        left - p
    };
    let pb = if p >= above {
        p - above
    } else {
        above - p
    };
    let pc = if p >= upleft {
        p - upleft
    } else {
        upleft - p
    };
    if pa <= pb && pa <= pc {
        left
    } else if pb <= pc {
        above
    } else {
        upleft
    }
}

/// Byte `i` of the reconstructed row: the filtered byte plus the
/// prediction from already-reconstructed neighbors, modulo 256.
/// Out-of-range neighbors read as 0; `prior` is empty for the first row.
pub open spec fn recon_byte(f: u8, prior: Seq<u8>, bpp: int, x: Seq<u8>, i: int) -> u8
    decreases i,
{
    let left = if bpp >= 1 && i >= bpp {
        recon_byte(f, prior, bpp, x, i - bpp)
    } else {
        0u8
    };
    let above = if 0 <= i < prior.len() {
        prior[i]
    } else {
        0u8
    };
    let upleft = if bpp >= 1 && i >= bpp && i - bpp < prior.len() {
        prior[i - bpp]
    } else {
        0u8
    };
    (((x[i] + predictor(f, left, above, upleft)) % 256) as u8)
}

/// The whole reconstructed row for filtered bytes `x`.
pub open spec fn recon_row(f: u8, prior: Seq<u8>, bpp: int, x: Seq<u8>) -> Seq<u8> {
    Seq::new(x.len(), |i: int| recon_byte(f, prior, bpp, x, i))
}

/// Byte `i` of the forward-filtered row for original bytes `orig`: the
/// original byte minus the prediction, modulo 256. This is the direction
/// an encoder applies; the decoder only ever reverses it.
pub open spec fn filter_byte(f: u8, prior: Seq<u8>, bpp: int, orig: Seq<u8>, i: int) -> u8 {
    let left = if bpp >= 1 && i >= bpp {
        orig[i - bpp]
    } else {
        0u8
    };
    let above = if 0 <= i < prior.len() {
        prior[i]
    } else {
        0u8
    };
    let upleft = if bpp >= 1 && i >= bpp && i - bpp < prior.len() {
        prior[i - bpp]
    } else {
        0u8
    };
    (((orig[i] - predictor(f, left, above, upleft)) % 256) as u8)
}

/// The whole forward-filtered row for original bytes `orig`.
pub open spec fn filter_row(f: u8, prior: Seq<u8>, bpp: int, orig: Seq<u8>) -> Seq<u8> {
    Seq::new(orig.len(), |i: int| filter_byte(f, prior, bpp, orig, i))
}

proof fn lemma_mod_roundtrip(a: int, p: int)
    requires
        0 <= a < 256,
        0 <= p < 256,
    ensures
        ((a - p) % 256 + p) % 256 == a,
{
    if a >= p {
        assert((a - p) % 256 == a - p);
        assert((a - p + p) % 256 == a);
    } else {
        assert((a - p) % 256 == a - p + 256);
        assert((a - p + 256 + p) % 256 == a);
    }
}

proof fn lemma_roundtrip_byte(f: u8, prior: Seq<u8>, bpp: int, orig: Seq<u8>, i: int)
    requires
        f <= 4,
        bpp >= 1,
        0 <= i < orig.len(),
    ensures
        recon_byte(f, prior, bpp, filter_row(f, prior, bpp, orig), i) == orig[i],
    decreases i,
{
    let x = filter_row(f, prior, bpp, orig);
    if i >= bpp {
        lemma_roundtrip_byte(f, prior, bpp, orig, i - bpp);
    }
    let left = if i >= bpp {
        orig[i - bpp]
    } else {
        0u8
    };
    let above = if 0 <= i < prior.len() {
        prior[i]
    } else {
        0u8
    };
    let upleft = if i >= bpp && i - bpp < prior.len() {
        prior[i - bpp]
    } else {
        0u8
    };
    let p = predictor(f, left, above, upleft);
    assert(x[i] == (((orig[i] - p) % 256) as u8));
    lemma_mod_roundtrip(orig[i] as int, p as int);
}

/// Round-trip law: forward-filtering a row of any content with any of the
/// five filter types and then reconstructing it recovers the row exactly,
/// whatever the prior row was.
pub proof fn lemma_unfilter_inverts_filter(f: u8, prior: Seq<u8>, bpp: int, orig: Seq<u8>)
    requires
        f <= 4,
        bpp >= 1,
    ensures
        recon_row(f, prior, bpp, filter_row(f, prior, bpp, orig)) == orig,
{
    let x = filter_row(f, prior, bpp, orig);
    assert forall|i: int| 0 <= i < orig.len() implies recon_byte(f, prior, bpp, x, i) == orig[i] by {
        lemma_roundtrip_byte(f, prior, bpp, orig, i);
    }
    assert(recon_row(f, prior, bpp, x) =~= orig);
}

/// The filter-type byte of row `n` in the decompressed stream.
pub open spec fn row_filter_byte(s: Seq<u8>, stride: int, n: int) -> u8 {
    s[n * (stride + 1)]
}

/// The filtered sample bytes of row `n` in the decompressed stream.
pub open spec fn row_filtered_bytes(s: Seq<u8>, stride: int, n: int) -> Seq<u8> {
    s.subrange(n * (stride + 1) + 1, (n + 1) * (stride + 1))
}

/// Every row of the stream starts with a known filter code.
pub open spec fn filters_known(s: Seq<u8>, stride: int, height: int) -> bool {
    forall|n: int| 0 <= n < height ==> row_filter_byte(s, stride, n) <= 4
}

/// Row `n` as reconstructed in order: its filter reversed against the
/// fully reconstructed row `n - 1` (or no prior row for row 0).
pub open spec fn spec_scanline(s: Seq<u8>, stride: int, bpp: int, n: int) -> Seq<u8>
    decreases n,
{
    let prior = if n >= 1 {
        spec_scanline(s, stride, bpp, n - 1)
    } else {
        Seq::<u8>::empty()
    };
    recon_row(row_filter_byte(s, stride, n), prior, bpp, row_filtered_bytes(s, stride, n))
}

/// Reconstructs all `height` rows of the decompressed stream, strictly in
/// order. Fails with `TruncatedStream` where the stream holds fewer than
/// `height * (stride + 1)` bytes, and with `UnknownFilterType` where some
/// row's filter code is above 4; bytes past the needed length are ignored.
pub fn reconstruct_scanlines(data: &Vec<u8>, height: u32, stride: u64, bpp: usize) -> (r: Result<
    Vec<Vec<u8>>,
    PngError,
>)
    requires
        bpp >= 1,
    ensures
        ({
            let s = data@;
            let st = stride as int;
            if s.len() < height * (st + 1) {
                r == Err::<Vec<Vec<u8>>, PngError>(PngError::TruncatedStream)
            } else if !filters_known(s, st, height as int) {
                r == Err::<Vec<Vec<u8>>, PngError>(PngError::UnknownFilterType)
            } else {
                r matches Ok(rows) && rows@.len() == height && (forall|n: int|
                    0 <= n < height ==> (#[trigger] rows@[n])@ == spec_scanline(
                        s,
                        st,
                        bpp as int,
                        n,
                    ))
            }
        }),
{
    let len = data.len();
    proof {
        vstd::arithmetic::mul::lemma_mul_upper_bound(
            height as int,
            0xFFFF_FFFF,
            stride as int + 1,
            0x1_0000_0000_0000_0000,
        );
    }
    let needed: u128 = (height as u128) * (stride as u128 + 1);
    if (len as u128) < needed {
        proof {
            assert(data@.len() < height * (stride as int + 1));
        }
        return Err(PngError::TruncatedStream);
    }
    proof {
        assert(data@.len() >= height * (stride as int + 1));
    }
    let mut rows: Vec<Vec<u8>> = Vec::new();
    let empty_row: Vec<u8> = Vec::new();
    let mut n: usize = 0;
    let mut pos: usize = 0;
    while n < height as usize
        invariant
            bpp >= 1,
            len == data@.len(),
            len >= height * (stride as int + 1),
            n <= height,
            pos == n * (stride as int + 1),
            rows@.len() == n,
            empty_row@ == Seq::<u8>::empty(),
            forall|k: int| 0 <= k < n ==> row_filter_byte(data@, stride as int, k) <= 4,
            forall|k: int|
                0 <= k < n ==> (#[trigger] rows@[k])@ == spec_scanline(
                    data@,
                    stride as int,
                    bpp as int,
                    k,
                ),
        decreases height - n,
    {
        let ghost st = stride as int;
        proof {
            assert((n + 1) * (st + 1) <= height * (st + 1)) by (nonlinear_arith)
                requires
                    n < height,
                    st >= 0,
            ;
            assert((n + 1) * (st + 1) == n * (st + 1) + (st + 1)) by (nonlinear_arith);
        }
        let row_span: usize = stride as usize + 1;
        let f = data[pos];
        if f > 4 {
            proof {
                assert(row_filter_byte(data@, st, n as int) == f);
                assert(!filters_known(data@, st, height as int));
            }
            return Err(PngError::UnknownFilterType);
        }
        let filtered = crate::chunk::copy_range(data, pos + 1, stride as usize);
        let row = if n == 0 {
            unfilter_scanline(f, &empty_row, bpp, &filtered)
        } else {
            unfilter_scanline(f, &rows[n - 1], bpp, &filtered)
        };
        match row {
            Ok(out) => {
                proof {
                    assert(filtered@ =~= row_filtered_bytes(data@, st, n as int));
                    assert(row_filter_byte(data@, st, n as int) == f);
                    assert(out@ == spec_scanline(data@, st, bpp as int, n as int));
                }
                rows.push(out);
            },
            Err(_) => {
                proof {
                    assert(false);
                }
                return Err(PngError::UnknownFilterType);
            },
        }
        pos = pos + row_span;
        n += 1;
    }
    proof {
        assert(filters_known(data@, stride as int, height as int));
    }
    Ok(rows)
}

/// Decides the Paeth prediction on concrete bytes.
fn paeth(left: u8, above: u8, upleft: u8) -> (r: u8)
    ensures
        r == paeth_predictor(left, above, upleft),
{
    let p: i32 = left as i32 + above as i32 - upleft as i32;
    let da: i32 = p - left as i32;
    let pa: i32 = if da < 0 {
        -da
    } else {
        da
    };
    let db: i32 = p - above as i32;
    let pb: i32 = if db < 0 {
        -db
    } else {
        db
    };
    let dc: i32 = p - upleft as i32;
    let pc: i32 = if dc < 0 {
        -dc
    } else {
        dc
    };
    if pa <= pb && pa <= pc {
        left
    } else if pb <= pc {
        above
    } else {
        upleft
    }
}

/// Decides the prediction of a known filter on concrete bytes.
fn predict(f: u8, left: u8, above: u8, upleft: u8) -> (r: u8)
    requires
        f <= 4,
    ensures
        r == predictor(f, left, above, upleft),
{
    if f == 0 {
        0
    } else if f == 1 {
        left
    } else if f == 2 {
        above
    } else if f == 3 {
        ((left as u16 + above as u16) / 2) as u8
    } else {
        paeth(left, above, upleft)
    }
}

/// Reverses one row's filter. `prior` is the fully reconstructed previous
/// row, or empty for the first row; `bpp` is the byte distance of one
/// pixel. Fails with `UnknownFilterType` on a filter code above 4.
pub fn unfilter_scanline(filter: u8, prior: &Vec<u8>, bpp: usize, filtered: &Vec<u8>) -> (r: Result<
    Vec<u8>,
    PngError,
>)
    requires
        bpp >= 1,
    ensures
        filter <= 4 ==> (r matches Ok(out) && out@ == recon_row(
            filter,
            prior@,
            bpp as int,
            filtered@,
        )),
        filter > 4 ==> r == Err::<Vec<u8>, PngError>(PngError::UnknownFilterType),
{
    if filter > 4 {
        return Err(PngError::UnknownFilterType);
    }
    let n = filtered.len();
    let pn = prior.len();
    let mut out: Vec<u8> = Vec::new();
    let mut i: usize = 0;
    while i < n
        invariant
            bpp >= 1,
            filter <= 4,
            n == filtered@.len(),
            pn == prior@.len(),
            i <= n,
            out@.len() == i,
            forall|k: int|
                0 <= k < i ==> out@[k] == recon_byte(filter, prior@, bpp as int, filtered@, k),
        decreases n - i,
    {
        let left: u8 = if i >= bpp {
            out[i - bpp]
        } else {
            0
        };
        let above: u8 = if i < pn {
            prior[i]
        } else {
            0
        };
        let upleft: u8 = if i >= bpp && i - bpp < pn {
            prior[i - bpp]
        } else {
            0
        };
        let p = predict(filter, left, above, upleft);
        let v: u8 = ((filtered[i] as u16 + p as u16) % 256) as u8;
        proof {
            assert(v == recon_byte(filter, prior@, bpp as int, filtered@, i as int));
        }
        out.push(v);
        i += 1;
    }
    proof {
        assert(out@ =~= recon_row(filter, prior@, bpp as int, filtered@));
    }
    Ok(out)
}

} // verus!
