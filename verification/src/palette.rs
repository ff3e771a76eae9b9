//! The palette table: groups the palette record's payload into ordered
//! RGB triples for indexed-color lookup.

use vstd::prelude::*;

use crate::chunk::Chunk;
use crate::error::PngError;
use crate::raster::RGB;

verus! {

/// The triples spelled by a palette payload.
pub open spec fn spec_triples(d: Seq<u8>) -> Seq<RGB> {
    Seq::new((d.len() / 3) as nat, |i: int| (d[3 * i], d[3 * i + 1], d[3 * i + 2]))
}

/// The palette spelled by a palette record's payload: `MalformedPalette`
/// where the payload is not a whole number of triples or holds more than
/// 256 of them.
pub open spec fn spec_parse_palette(d: Seq<u8>) -> Result<Seq<RGB>, PngError> {
    if d.len() % 3 != 0 || d.len() / 3 > 256 {
        Err(PngError::MalformedPalette)
    } else {
        Ok(spec_triples(d))
    }
}

/// Groups a palette record's payload into consecutive RGB triples.
pub fn parse_palette(c: &Chunk) -> (r: Result<Vec<RGB>, PngError>)
    ensures
        match (r, spec_parse_palette(c@.data)) {
            (Ok(v), Ok(s)) => v@ == s,
            (Err(e1), Err(e2)) => e1 == e2,
            _ => false,
        },
{
    let n = c.data.len();
    if n % 3 != 0 || n / 3 > 256 {
        return Err(PngError::MalformedPalette);
    }
    let count = n / 3;
    let mut out: Vec<RGB> = Vec::new();
    let mut i: usize = 0;
    while i < count
        invariant
            n == c.data@.len(),
            n % 3 == 0,
            count == n / 3,
            i <= count,
            out@.len() == i,
            forall|k: int|
                0 <= k < i ==> out@[k] == (c.data@[3 * k], c.data@[3 * k + 1], c.data@[3 * k + 2]),
        decreases count - i,
    {
        out.push((c.data[3 * i], c.data[3 * i + 1], c.data[3 * i + 2]));
        i += 1;
    }
    proof {
        assert(out@ =~= spec_triples(c.data@));
    }
    Ok(out)
}

} // verus!
