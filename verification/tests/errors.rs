// One failing input for every error the decoder can report.

use png_decode::png::strip_signature;
use png_decode::HeaderField;
use png_decode::PngError;
use png_decode::PNG;

fn adler32(data: &[u8]) -> u32 {
    let mut a: u32 = 1;
    let mut b: u32 = 0;
    for &x in data {
        a = (a + x as u32) % 65521;
        b = (b + a) % 65521;
    }
    (b << 16) | a
}

fn zlib_store(data: &[u8]) -> Vec<u8> {
    let mut out: Vec<u8> = vec![0x78, 0x01];
    let len = data.len() as u16;
    out.push(0x01);
    out.push((len & 0xFF) as u8);
    out.push((len >> 8) as u8);
    out.push((!len & 0xFF) as u8);
    out.push(((!len >> 8) & 0xFF) as u8);
    for &x in data {
        out.push(x);
    }
    let ad = adler32(data);
    out.push((ad >> 24) as u8);
    out.push((ad >> 16) as u8);
    out.push((ad >> 8) as u8);
    out.push(ad as u8);
    out
}

fn chunk_bytes(tag: [u8; 4], data: &[u8]) -> Vec<u8> {
    let mut out: Vec<u8> = Vec::new();
    let len = data.len() as u32;
    out.push((len >> 24) as u8);
    out.push((len >> 16) as u8);
    out.push((len >> 8) as u8);
    out.push(len as u8);
    for &t in tag.iter() {
        out.push(t);
    }
    for &x in data {
        out.push(x);
    }
    out.push(0);
    out.push(0);
    out.push(0);
    out.push(0);
    out
}

fn ihdr_bytes(width: u32, height: u32, depth: u8, color: u8, comp: u8, filt: u8, inter: u8) -> Vec<u8> {
    let mut d: Vec<u8> = Vec::new();
    d.push((width >> 24) as u8);
    d.push((width >> 16) as u8);
    d.push((width >> 8) as u8);
    d.push(width as u8);
    d.push((height >> 24) as u8);
    d.push((height >> 16) as u8);
    d.push((height >> 8) as u8);
    d.push(height as u8);
    d.push(depth);
    d.push(color);
    d.push(comp);
    d.push(filt);
    d.push(inter);
    chunk_bytes([73, 72, 68, 82], &d)
}

fn gray_image(depth: u8, color: u8, comp: u8, filt: u8, inter: u8, scanlines: &[u8]) -> Vec<u8> {
    let mut out = ihdr_bytes(2, 1, depth, color, comp, filt, inter);
    out.extend(chunk_bytes([73, 68, 65, 84], &zlib_store(scanlines)));
    out
}

#[test]
fn invalid_signature_is_reported() {
    assert_eq!(strip_signature(&vec![1, 2, 3]), Err(PngError::InvalidSignature));
    let mut almost = vec![137, 80, 78, 71, 13, 10, 26, 11];
    almost.push(0);
    assert_eq!(strip_signature(&almost), Err(PngError::InvalidSignature));
}

#[test]
fn valid_signature_is_stripped() {
    let buf = vec![137, 80, 78, 71, 13, 10, 26, 10, 7, 8];
    assert_eq!(strip_signature(&buf), Ok(vec![7, 8]));
}

#[test]
fn empty_stream_is_reported() {
    assert_eq!(PNG::from_bytes(Vec::new()).err(), Some(PngError::EmptyStream));
}

#[test]
fn truncated_chunk_is_reported() {
    // The length field claims 100 payload bytes; only 3 follow the tag.
    let bytes = vec![0, 0, 0, 100, 73, 72, 68, 82, 1, 2, 3];
    assert_eq!(PNG::from_bytes(bytes).err(), Some(PngError::TruncatedStream));
}

#[test]
fn missing_header_is_reported() {
    let bytes = chunk_bytes([65, 65, 65, 65], &[1, 2, 3]);
    assert_eq!(PNG::from_bytes(bytes).err(), Some(PngError::MissingHeader));
}

#[test]
fn short_header_payload_is_reported() {
    let bytes = chunk_bytes([73, 72, 68, 82], &[0; 12]);
    assert_eq!(PNG::from_bytes(bytes).err(), Some(PngError::MalformedHeader));
}

#[test]
fn zero_width_is_reported() {
    let bytes = ihdr_bytes(0, 1, 8, 0, 0, 0, 0);
    assert_eq!(PNG::from_bytes(bytes).err(), Some(PngError::MalformedHeader));
}

#[test]
fn bad_color_model_is_reported() {
    let bytes = ihdr_bytes(1, 1, 8, 5, 0, 0, 0);
    assert_eq!(
        PNG::from_bytes(bytes).err(),
        Some(PngError::UnsupportedHeaderField(HeaderField::ColorModel))
    );
}

#[test]
fn bad_bit_depth_is_reported() {
    let bytes = ihdr_bytes(1, 1, 4, 2, 0, 0, 0);
    assert_eq!(
        PNG::from_bytes(bytes).err(),
        Some(PngError::UnsupportedHeaderField(HeaderField::BitDepth))
    );
}

#[test]
fn bad_compression_method_is_reported() {
    let bytes = ihdr_bytes(1, 1, 8, 0, 9, 0, 0);
    assert_eq!(
        PNG::from_bytes(bytes).err(),
        Some(PngError::UnsupportedHeaderField(HeaderField::CompressionMethod))
    );
}

#[test]
fn bad_filter_method_is_reported() {
    let bytes = ihdr_bytes(1, 1, 8, 0, 0, 9, 0);
    assert_eq!(
        PNG::from_bytes(bytes).err(),
        Some(PngError::UnsupportedHeaderField(HeaderField::FilterMethod))
    );
}

#[test]
fn bad_interlace_method_is_reported() {
    let bytes = ihdr_bytes(1, 1, 8, 0, 0, 0, 2);
    assert_eq!(
        PNG::from_bytes(bytes).err(),
        Some(PngError::UnsupportedHeaderField(HeaderField::InterlaceMethod))
    );
}

#[test]
fn interlacing_is_refused_explicitly() {
    let bytes = gray_image(8, 0, 0, 0, 1, &[0, 1, 2]);
    assert_eq!(PNG::from_bytes(bytes).err(), Some(PngError::InterlacingUnsupported));
}

#[test]
fn malformed_palette_is_reported() {
    let mut out = ihdr_bytes(2, 1, 8, 3, 0, 0, 0);
    out.extend(chunk_bytes([80, 76, 84, 69], &[1, 2, 3, 4]));
    out.extend(chunk_bytes([73, 68, 65, 84], &zlib_store(&[0, 0, 0])));
    assert_eq!(PNG::from_bytes(out).err(), Some(PngError::MalformedPalette));
}

#[test]
fn missing_palette_is_reported() {
    let bytes = gray_image(8, 3, 0, 0, 0, &[0, 0, 0]);
    assert_eq!(PNG::from_bytes(bytes).err(), Some(PngError::MissingPalette));
}

#[test]
fn missing_image_data_is_reported() {
    let bytes = ihdr_bytes(2, 1, 8, 0, 0, 0, 0);
    assert_eq!(PNG::from_bytes(bytes).err(), Some(PngError::MissingImageData));
}

#[test]
fn corrupt_compressed_stream_is_reported() {
    let mut out = ihdr_bytes(2, 1, 8, 0, 0, 0, 0);
    out.extend(chunk_bytes([73, 68, 65, 84], &[9, 9, 9]));
    assert_eq!(PNG::from_bytes(out).err(), Some(PngError::CompressedStreamCorrupt));
}

#[test]
fn unknown_filter_type_is_reported() {
    let bytes = gray_image(8, 0, 0, 0, 0, &[9, 1, 2]);
    assert_eq!(PNG::from_bytes(bytes).err(), Some(PngError::UnknownFilterType));
}

#[test]
fn short_inflated_stream_is_reported() {
    // The stream inflates fine but holds fewer bytes than one scanline.
    let bytes = gray_image(8, 0, 0, 0, 0, &[0, 1]);
    assert_eq!(PNG::from_bytes(bytes).err(), Some(PngError::TruncatedStream));
}

#[test]
fn palette_of_256_entries_is_accepted() {
    let mut pal: Vec<u8> = Vec::new();
    for i in 0..256u32 {
        pal.push(i as u8);
        pal.push(0);
        pal.push(7);
    }
    let mut out = ihdr_bytes(1, 1, 8, 3, 0, 0, 0);
    out.extend(chunk_bytes([80, 76, 84, 69], &pal));
    out.extend(chunk_bytes([73, 68, 65, 84], &zlib_store(&[0, 255])));
    let png = PNG::from_bytes(out).unwrap();
    assert_eq!(png.image.0[0], vec![(255, 0, 7, 255)]);
}

#[test]
fn palette_of_257_entries_is_refused() {
    let pal = vec![0u8; 257 * 3];
    let mut out = ihdr_bytes(1, 1, 8, 3, 0, 0, 0);
    out.extend(chunk_bytes([80, 76, 84, 69], &pal));
    out.extend(chunk_bytes([73, 68, 65, 84], &zlib_store(&[0, 0])));
    assert_eq!(PNG::from_bytes(out).err(), Some(PngError::MalformedPalette));
}

#[test]
fn empty_image_data_record_contributes_nothing() {
    let mut out = ihdr_bytes(1, 1, 8, 0, 0, 0, 0);
    out.extend(chunk_bytes([73, 68, 65, 84], &[]));
    out.extend(chunk_bytes([73, 68, 65, 84], &zlib_store(&[0, 42])));
    let png = PNG::from_bytes(out).unwrap();
    assert_eq!(png.image.0[0], vec![(42, 42, 42, 255)]);
}

#[test]
fn palette_index_out_of_range_is_reported() {
    let mut out = ihdr_bytes(1, 1, 8, 3, 0, 0, 0);
    out.extend(chunk_bytes([80, 76, 84, 69], &[255, 0, 0, 0, 255, 0]));
    out.extend(chunk_bytes([73, 68, 65, 84], &zlib_store(&[0, 2])));
    assert_eq!(PNG::from_bytes(out).err(), Some(PngError::PaletteIndexOutOfRange));
}
