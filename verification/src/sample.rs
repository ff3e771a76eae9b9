//! The sample unpacker: expands a reconstructed row's bytes into one
//! 8-bit sample per channel per pixel.
//!
//! Depth 8 passes through; depth 16 keeps the high-order byte of each
//! big-endian pair; depths 1, 2 and 4 are packed most-significant-bit
//! first and are scaled to the 8-bit range by replication, except for
//! indexed images, whose raw values are palette indices and stay as-is.

use vstd::prelude::*;

use crate::header::bit_depth_valid;
use crate::header::channel_count;
use crate::header::color_type_valid;
use crate::header::stride_of;

verus! {

/// The mask of one packed sample at depth `d`.
pub open spec fn depth_mask(d: u8) -> u8 {
    if d == 1 {
        1u8
    } else if d == 2 {
        3u8
    } else {
        15u8
    }
}

/// The factor that replicates a `d`-bit value across 8 bits.
pub open spec fn scale_factor(d: u8) -> u8 {
    if d == 1 {
        255u8
    } else if d == 2 {
        85u8
    } else {
        17u8
    }
}

/// Sample `i` of a row packed at depth `d` (1, 2 or 4), counted
/// most-significant-bit first within each byte.
pub open spec fn packed_sample(row: Seq<u8>, d: u8, i: int) -> u8 {
    let per = 8int / (d as int);
    let b = row[i / per];
    let sh = (8 - (d as int) * ((i % per) + 1)) as u8;
    (b >> sh) & depth_mask(d)
}

/// Sample `i` of a packed row after normalization: the raw index for an
/// indexed image, the replicated 8-bit value otherwise.
pub open spec fn unpacked_sample(row: Seq<u8>, d: u8, indexed: bool, i: int) -> u8 {
    let v = packed_sample(row, d, i);
    if indexed {
        v
    } else {
        (v * scale_factor(d)) as u8
    }
}

/// The normalized 8-bit samples of one reconstructed row of `w` pixels:
/// `w * channels` samples, one per channel per pixel.
pub open spec fn spec_samples(row: Seq<u8>, ct: u8, d: u8, w: int) -> Seq<u8> {
    if d == 8 {
        row
    } else if d == 16 {
        Seq::new((w * channel_count(ct)) as nat, |i: int| row[2 * i])
    } else {
        Seq::new(w as nat, |i: int| unpacked_sample(row, d, ct == 3, i))
    }
}

/// Unpacks one reconstructed row of `stride` bytes into its normalized
/// samples.
pub fn unpack_samples(row: &Vec<u8>, ct: u8, depth: u8, width: u32) -> (out: Vec<u8>)
    requires
        color_type_valid(ct),
        bit_depth_valid(ct, depth),
        row@.len() == stride_of(ct, depth, width as int),
    ensures
        out@ == spec_samples(row@, ct, depth, width as int),
{
    let ghost w = width as int;
    let ghost ch = channel_count(ct);
    if depth == 8 {
        let out = crate::chunk::copy_range(row, 0, row.len());
        proof {
            assert(out@ =~= row@);
        }
        out
    } else if depth == 16 {
        proof {
            assert(row@.len() == 2 * (w * ch)) by (nonlinear_arith)
                requires
                    row@.len() == (w * ch * 16 + 7) / 8,
                    w >= 0,
                    ch >= 1,
            ;
        }
        let rn = row.len();
        let count = rn / 2;
        let mut out: Vec<u8> = Vec::new();
        let mut j: usize = 0;
        while j < count
            invariant
                rn == row@.len(),
                count == row@.len() / 2,
                row@.len() == 2 * count,
                j <= count,
                out@.len() == j,
                forall|k: int| 0 <= k < j ==> out@[k] == row@[2 * k],
            decreases count - j,
        {
            out.push(row[2 * j]);
            j += 1;
        }
        proof {
            assert(out@ =~= spec_samples(row@, ct, depth, w));
        }
        out
    } else {
        let indexed = ct == 3;
        proof {
            assert(ch == 1);
        }
        let per: u8 = 8 / depth;
        let mask: u8 = if depth == 1 {
            1
        } else if depth == 2 {
            3
        } else {
            15
        };
        let factor: u8 = if depth == 1 {
            255
        } else if depth == 2 {
            85
        } else {
            17
        };
        proof {
            assert(w * ch * (depth as int) == w * (depth as int)) by (nonlinear_arith)
                requires
                    ch == 1,
            ;
            assert(row@.len() * (per as int) >= w) by (nonlinear_arith)
                requires
                    row@.len() == (w * (depth as int) + 7) / 8,
                    (depth == 1 || depth == 2 || depth == 4),
                    per as int == 8int / (depth as int),
                    w >= 0,
            ;
        }
        let mut out: Vec<u8> = Vec::new();
        let mut i: u32 = 0;
        while i < width
            invariant
                depth == 1 || depth == 2 || depth == 4,
                per as int == 8int / (depth as int),
                mask == depth_mask(depth),
                factor == scale_factor(depth),
                indexed == (ct == 3),
                row@.len() * (per as int) >= w,
                w == width as int,
                i <= width,
                out@.len() == i,
                forall|k: int| 0 <= k < i ==> out@[k] == unpacked_sample(row@, depth, indexed, k),
            decreases width - i,
        {
            proof {
                assert((i as int) / (per as int) < row@.len()) by (nonlinear_arith)
                    requires
                        0 <= i < w,
                        row@.len() * (per as int) >= w,
                        per == 2 || per == 4 || per == 8,
                ;
            }
            let bi: usize = (i / per as u32) as usize;
            let k: u8 = (i % per as u32) as u8;
            let sh: u8 = 8 - depth * (k + 1);
            let b = row[bi];
            let v: u8 = (b >> sh) & mask;
            proof {
                assert(v == packed_sample(row@, depth, i as int));
                assert(((b >> sh) & mask) <= mask) by (bit_vector);
            }
            let s: u8 = if indexed {
                v
            } else {
                #[verifier::truncate] ((v as u16 * factor as u16) as u8)
            };
            proof {
                assert(s == unpacked_sample(row@, depth, indexed, i as int));
            }
            out.push(s);
            i += 1;
        }
        proof {
            assert(out@ =~= spec_samples(row@, ct, depth, w));
        }
        out
    }
}

} // verus!
