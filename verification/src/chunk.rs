//! The chunk stream reader: splits a flat byte buffer into a sequence of
//! typed, length-delimited records.
//!
//! Each record is framed as a 4-byte big-endian length, a 4-byte type tag,
//! `length` bytes of payload, and a 4-byte checksum.

use vstd::prelude::*;

use crate::error::PngError;

verus! {

/// The mathematical model of one record: its declared length, its 4-byte
/// type tag, its payload, and its checksum bytes.
pub struct ChunkView {
    pub length: int,
    pub type_tag: Seq<u8>,
    pub data: Seq<u8>,
    pub crc: Seq<u8>,
}

/// One record of the container: a type tag, a payload of `length` bytes,
/// and a checksum covering tag and payload.
#[derive(Debug, Clone)]
pub struct Chunk {
    pub length: u32,
    pub chunk_type: Vec<u8>,
    pub data: Vec<u8>,
    pub crc: Vec<u8>,
}

impl View for Chunk {
    type V = ChunkView;

    open spec fn view(&self) -> ChunkView {
        ChunkView {
            length: self.length as int,
            type_tag: self.chunk_type@,
            data: self.data@,
            crc: self.crc@,
        }
    }
}

/// The big-endian 32-bit value spelled by `b[i..i+4]`.
pub open spec fn be_u32_at(b: Seq<u8>, i: int) -> int
    recommends
        0 <= i,
        i + 4 <= b.len(),
{
    b[i] * 0x1000000 + b[i + 1] * 0x10000 + b[i + 2] * 0x100 + b[i + 3]
}

/// The record sequence spelled by `b`, or `None` where a record's frame
/// claims more bytes than remain.
pub open spec fn spec_parse_chunks(b: Seq<u8>) -> Option<Seq<ChunkView>>
    decreases b.len(),
{
    if b.len() == 0 {
        Some(Seq::empty())
    } else if b.len() < 12 {
        None
    } else {
        let len = be_u32_at(b, 0);
        if b.len() < 12 + len {
            None
        } else {
            let c = ChunkView {
                length: len,
                type_tag: b.subrange(4, 8),
                data: b.subrange(8, 8 + len),
                crc: b.subrange(8 + len, 12 + len),
            };
            match spec_parse_chunks(b.skip(12 + len)) {
                None => None,
                Some(rest) => Some(seq![c] + rest),
            }
        }
    }
}

/// Combines an already-parsed prefix with the outcome of parsing the rest.
pub open spec fn parse_after(prefix: Seq<ChunkView>, rest: Option<Seq<ChunkView>>) -> Option<
    Seq<ChunkView>,
> {
    match rest {
        None => None,
        Some(r) => Some(prefix + r),
    }
}

/// The views of a vector of chunks.
pub open spec fn chunk_views(cs: Seq<Chunk>) -> Seq<ChunkView> {
    cs.map_values(|c: Chunk| c@)
}

/// Copies `bytes[start..start + count]` into a fresh vector.
pub(crate) fn copy_range(bytes: &Vec<u8>, start: usize, count: usize) -> (out: Vec<u8>)
    requires
        start + count <= bytes@.len(),
    ensures
        out@ == bytes@.subrange(start as int, start + count),
{
    let n = bytes.len();
    let mut out: Vec<u8> = Vec::new();
    let mut j: usize = 0;
    while j < count
        invariant
            n == bytes@.len(),
            start + count <= n,
            j <= count,
            out@ == bytes@.subrange(start as int, start + j),
        decreases count - j,
    {
        out.push(bytes[start + j]);
        assert(out@ =~= bytes@.subrange(start as int, start + j + 1));
        j += 1;
    }
    out
}

/// Reads the big-endian 32-bit value at `bytes[i..i+4]`.
pub(crate) fn read_be_u32(bytes: &Vec<u8>, i: usize) -> (r: u32)
    requires
        i + 4 <= bytes@.len(),
    ensures
        r == be_u32_at(bytes@, i as int),
{
    let n = bytes.len();
    assert(i + 4 <= n);
    let b0 = bytes[i] as u32;
    let b1 = bytes[i + 1] as u32;
    let b2 = bytes[i + 2] as u32;
    let b3 = bytes[i + 3] as u32;
    b0 * 0x1000000 + b1 * 0x10000 + b2 * 0x100 + b3
}

/// Relies on `String::push`: appends one character to the string.
#[verifier::external_body]
fn push_char(s: &mut String, c: char)
    ensures
        final(s)@ == old(s)@.push(c),
{
    s.push(c);
}

impl Chunk {
    /// The type tag read as text, one character per byte.
    pub fn type_str(&self) -> (r: String)
        ensures
            r@ == self.chunk_type@.map_values(|b: u8| b as char),
    {
        let mut s = String::new();
        let mut i: usize = 0;
        let n = self.chunk_type.len();
        while i < n
            invariant
                n == self.chunk_type@.len(),
                i <= n,
                s@ == self.chunk_type@.take(i as int).map_values(|b: u8| b as char),
            decreases n - i,
        {
            push_char(&mut s, self.chunk_type[i] as char);
            proof {
                assert(self.chunk_type@.take(i + 1).map_values(|b: u8| b as char)
                    =~= self.chunk_type@.take(i as int).map_values(|b: u8| b as char).push(
                    self.chunk_type@[i as int] as char,
                ));
            }
            i += 1;
        }
        proof {
            assert(self.chunk_type@.take(n as int) =~= self.chunk_type@);
        }
        s
    }

    /// Packs the four fields of a record.
    pub fn new(length: u32, chunk_type: Vec<u8>, data: Vec<u8>, crc: Vec<u8>) -> (c: Self)
        ensures
            c.length == length,
            c.chunk_type@ == chunk_type@,
            c.data@ == data@,
            c.crc@ == crc@,
    {
        Self { length, chunk_type, data, crc }
    }
}

/// Splits the byte buffer that follows the fixed file signature into its
/// records. Fails with `EmptyStream` on an empty buffer and with
/// `TruncatedStream` where a record's frame claims more bytes than remain.
pub fn parse_chunks(bytes: &Vec<u8>) -> (r: Result<Vec<Chunk>, PngError>)
    ensures
        match r {
            Ok(cs) => bytes@.len() > 0 && spec_parse_chunks(bytes@) == Some(chunk_views(cs@)),
            Err(e) => (e == PngError::EmptyStream && bytes@.len() == 0) || (e
                == PngError::TruncatedStream && bytes@.len() > 0 && spec_parse_chunks(bytes@)
                is None),
        },
{
    if bytes.len() == 0 {
        return Err(PngError::EmptyStream);
    }
    let mut chunks: Vec<Chunk> = Vec::new();
    let mut pos: usize = 0;
    assert(spec_parse_chunks(bytes@) == parse_after(
        chunk_views(chunks@),
        spec_parse_chunks(bytes@.skip(0)),
    )) by {
        assert(bytes@.skip(0) =~= bytes@);
        match spec_parse_chunks(bytes@) {
            None => {},
            Some(r) => {
                assert(chunk_views(chunks@) + r =~= r);
            },
        }
    }
    while pos < bytes.len()
        invariant
            pos <= bytes@.len(),
            spec_parse_chunks(bytes@) == parse_after(
                chunk_views(chunks@),
                spec_parse_chunks(bytes@.skip(pos as int)),
            ),
        decreases bytes@.len() - pos,
    {
        let ghost suffix = bytes@.skip(pos as int);
        assert(suffix.len() == bytes@.len() - pos);
        if bytes.len() - pos < 12 {
            assert(spec_parse_chunks(suffix) is None);
            return Err(PngError::TruncatedStream);
        }
        let len = read_be_u32(bytes, pos);
        assert(be_u32_at(suffix, 0) == be_u32_at(bytes@, pos as int)) by {
            assert(suffix[0] == bytes@[pos as int]);
            assert(suffix[1] == bytes@[pos + 1]);
            assert(suffix[2] == bytes@[pos + 2]);
            assert(suffix[3] == bytes@[pos + 3]);
        }
        if (len as usize) > bytes.len() - pos - 12 {
            assert(spec_parse_chunks(suffix) is None);
            return Err(PngError::TruncatedStream);
        }
        let chunk_type = copy_range(bytes, pos + 4, 4);
        let data = copy_range(bytes, pos + 8, len as usize);
        let crc = copy_range(bytes, pos + 8 + len as usize, 4);
        let c = Chunk::new(len, chunk_type, data, crc);
        let ghost cv = ChunkView {
            length: len as int,
            type_tag: suffix.subrange(4, 8),
            data: suffix.subrange(8, 8 + len),
            crc: suffix.subrange(8 + len, 12 + len),
        };
        proof {
            assert(c@.type_tag =~= cv.type_tag);
            assert(c@.data =~= cv.data);
            assert(c@.crc =~= cv.crc);
            assert(suffix.skip(12 + len) =~= bytes@.skip(pos + 12 + len));
            assert(spec_parse_chunks(suffix) == parse_after(
                seq![cv],
                spec_parse_chunks(bytes@.skip(pos + 12 + len)),
            ));
        }
        chunks.push(c);
        proof {
            assert(chunk_views(chunks@) =~= chunk_views(chunks@.drop_last()).push(cv));
            match spec_parse_chunks(bytes@.skip(pos + 12 + len)) {
                None => {},
                Some(rest) => {
                    assert(chunk_views(chunks@.drop_last()) + (seq![cv] + rest) =~= chunk_views(
                        chunks@,
                    ) + rest);
                },
            }
        }
        pos = pos + 12 + len as usize;
    }
    proof {
        assert(bytes@.skip(pos as int) =~= Seq::<u8>::empty());
        assert(spec_parse_chunks(bytes@.skip(pos as int)) == Some(Seq::<ChunkView>::empty()));
        assert(chunk_views(chunks@) + Seq::<ChunkView>::empty() =~= chunk_views(chunks@));
    }
    Ok(chunks)
}

} // verus!
