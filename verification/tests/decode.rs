// End-to-end decode tests over hand-built containers: the compressed
// image-data payload is framed as a stored (uncompressed) zlib block with
// a real adler32 trailer, so the actual inflate collaborator runs.

use png_decode::PNG;

fn adler32(data: &[u8]) -> u32 {
    let mut a: u32 = 1;
    let mut b: u32 = 0;
    for &x in data {
        a = (a + x as u32) % 65521;
        b = (b + a) % 65521;
    }
    (b << 16) | a
}

fn zlib_store(data: &[u8]) -> Vec<u8> {
    let mut out: Vec<u8> = vec![0x78, 0x01];
    let len = data.len() as u16;
    out.push(0x01);
    out.push((len & 0xFF) as u8);
    out.push((len >> 8) as u8);
    out.push((!len & 0xFF) as u8);
    out.push(((!len >> 8) & 0xFF) as u8);
    for &x in data {
        out.push(x);
    }
    let ad = adler32(data);
    out.push((ad >> 24) as u8);
    out.push((ad >> 16) as u8);
    out.push((ad >> 8) as u8);
    out.push(ad as u8);
    out
}

fn chunk_bytes(tag: [u8; 4], data: &[u8]) -> Vec<u8> {
    let mut out: Vec<u8> = Vec::new();
    let len = data.len() as u32;
    out.push((len >> 24) as u8);
    out.push((len >> 16) as u8);
    out.push((len >> 8) as u8);
    out.push(len as u8);
    for &t in tag.iter() {
        out.push(t);
    }
    for &x in data {
        out.push(x);
    }
    out.push(0);
    out.push(0);
    out.push(0);
    out.push(0);
    out
}

fn ihdr_bytes(width: u32, height: u32, depth: u8, color: u8, interlace: u8) -> Vec<u8> {
    let mut d: Vec<u8> = Vec::new();
    d.push((width >> 24) as u8);
    d.push((width >> 16) as u8);
    d.push((width >> 8) as u8);
    d.push(width as u8);
    d.push((height >> 24) as u8);
    d.push((height >> 16) as u8);
    d.push((height >> 8) as u8);
    d.push(height as u8);
    d.push(depth);
    d.push(color);
    d.push(0);
    d.push(0);
    d.push(interlace);
    chunk_bytes([73, 72, 68, 82], &d)
}

fn image_bytes(
    width: u32,
    height: u32,
    depth: u8,
    color: u8,
    palette: Option<&[u8]>,
    scanlines: &[u8],
) -> Vec<u8> {
    let mut out = ihdr_bytes(width, height, depth, color, 0);
    if let Some(p) = palette {
        out.extend(chunk_bytes([80, 76, 84, 69], p));
    }
    out.extend(chunk_bytes([73, 68, 65, 84], &zlib_store(scanlines)));
    out.extend(chunk_bytes([73, 69, 78, 68], &[]));
    out
}

#[test]
fn grayscale_2x2_filter_none() {
    let bytes = image_bytes(2, 2, 8, 0, None, &[0, 10, 20, 0, 30, 40]);
    let png = PNG::from_bytes(bytes).unwrap();
    assert_eq!(png.header.width, 2);
    assert_eq!(png.header.height, 2);
    assert_eq!(png.image.0.len(), 2);
    assert_eq!(png.image.0[0], vec![(10, 10, 10, 255), (20, 20, 20, 255)]);
    assert_eq!(png.image.0[1], vec![(30, 30, 30, 255), (40, 40, 40, 255)]);
}

#[test]
fn grayscale_2x2_filter_sub() {
    let bytes = image_bytes(2, 2, 8, 0, None, &[1, 10, 10, 0, 0, 0]);
    let png = PNG::from_bytes(bytes).unwrap();
    assert_eq!(png.image.0[0], vec![(10, 10, 10, 255), (20, 20, 20, 255)]);
    assert_eq!(png.image.0[1], vec![(0, 0, 0, 255), (0, 0, 0, 255)]);
}

#[test]
fn indexed_1x1_second_entry() {
    let bytes = image_bytes(1, 1, 8, 3, Some(&[255, 0, 0, 0, 255, 0]), &[0, 1]);
    let png = PNG::from_bytes(bytes).unwrap();
    assert_eq!(png.image.0[0], vec![(0, 255, 0, 255)]);
    assert_eq!(png.palette, Some(vec![(255, 0, 0), (0, 255, 0)]));
}

#[test]
fn raster_matches_header_dimensions() {
    let bytes = image_bytes(3, 2, 8, 0, None, &[0, 1, 2, 3, 0, 4, 5, 6]);
    let png = PNG::from_bytes(bytes).unwrap();
    assert_eq!(png.image.0.len() as u32, png.header.height);
    let mut pixels = 0u32;
    for row in &png.image.0 {
        assert_eq!(row.len() as u32, png.header.width);
        pixels += row.len() as u32;
    }
    assert_eq!(pixels, png.header.width * png.header.height);
}

#[test]
fn image_data_split_over_two_records() {
    let mut out = ihdr_bytes(2, 2, 8, 0, 0);
    let z = zlib_store(&[0, 10, 20, 0, 30, 40]);
    let (za, zb) = z.split_at(5);
    out.extend(chunk_bytes([73, 68, 65, 84], za));
    out.extend(chunk_bytes([73, 68, 65, 84], zb));
    let png = PNG::from_bytes(out).unwrap();
    assert_eq!(png.image.0[0], vec![(10, 10, 10, 255), (20, 20, 20, 255)]);
    assert_eq!(png.image.0[1], vec![(30, 30, 30, 255), (40, 40, 40, 255)]);
}

#[test]
fn truecolor_1x1() {
    let bytes = image_bytes(1, 1, 8, 2, None, &[0, 9, 8, 7]);
    let png = PNG::from_bytes(bytes).unwrap();
    assert_eq!(png.image.0[0], vec![(9, 8, 7, 255)]);
}

#[test]
fn truecolor_16_bit_keeps_high_bytes() {
    let bytes = image_bytes(1, 1, 16, 2, None, &[0, 0x12, 0x34, 0xAB, 0xCD, 0x01, 0xFF]);
    let png = PNG::from_bytes(bytes).unwrap();
    assert_eq!(png.image.0[0], vec![(0x12, 0xAB, 0x01, 255)]);
}

#[test]
fn grayscale_alpha_1x1() {
    let bytes = image_bytes(1, 1, 8, 4, None, &[0, 100, 200]);
    let png = PNG::from_bytes(bytes).unwrap();
    assert_eq!(png.image.0[0], vec![(100, 100, 100, 200)]);
}

#[test]
fn truecolor_alpha_1x1() {
    let bytes = image_bytes(1, 1, 8, 6, None, &[0, 1, 2, 3, 4]);
    let png = PNG::from_bytes(bytes).unwrap();
    assert_eq!(png.image.0[0], vec![(1, 2, 3, 4)]);
}

#[test]
fn grayscale_depth_1_replicates_bits() {
    // 0b10110010: bits read most-significant first.
    let bytes = image_bytes(8, 1, 1, 0, None, &[0, 0b1011_0010]);
    let png = PNG::from_bytes(bytes).unwrap();
    assert_eq!(
        png.image.0[0],
        vec![
            (255, 255, 255, 255),
            (0, 0, 0, 255),
            (255, 255, 255, 255),
            (255, 255, 255, 255),
            (0, 0, 0, 255),
            (0, 0, 0, 255),
            (255, 255, 255, 255),
            (0, 0, 0, 255),
        ]
    );
}

#[test]
fn grayscale_depth_2_scales_by_85() {
    let bytes = image_bytes(4, 1, 2, 0, None, &[0, 0b0001_1011]);
    let png = PNG::from_bytes(bytes).unwrap();
    assert_eq!(
        png.image.0[0],
        vec![(0, 0, 0, 255), (85, 85, 85, 255), (170, 170, 170, 255), (255, 255, 255, 255)]
    );
}

#[test]
fn grayscale_depth_4_scales_by_17() {
    let bytes = image_bytes(2, 1, 4, 0, None, &[0, 0xF0]);
    let png = PNG::from_bytes(bytes).unwrap();
    assert_eq!(png.image.0[0], vec![(255, 255, 255, 255), (0, 0, 0, 255)]);
}

#[test]
fn grayscale_depth_1_ignores_pad_bits() {
    // Width 3 with 5 pad bits in the single row byte.
    let bytes = image_bytes(3, 1, 1, 0, None, &[0, 0b1010_0111]);
    let png = PNG::from_bytes(bytes).unwrap();
    assert_eq!(png.image.0[0], vec![(255, 255, 255, 255), (0, 0, 0, 255), (255, 255, 255, 255)]);
}

#[test]
fn indexed_depth_4_keeps_raw_indices() {
    // One byte holds two 4-bit palette indices, unscaled.
    let pal = [10, 11, 12, 20, 21, 22, 30, 31, 32];
    let bytes = image_bytes(2, 1, 4, 3, Some(&pal), &[0, 0x12]);
    let png = PNG::from_bytes(bytes).unwrap();
    assert_eq!(png.image.0[0], vec![(20, 21, 22, 255), (30, 31, 32, 255)]);
}

#[test]
fn palette_present_on_grayscale_is_kept_but_not_consulted() {
    let mut out = ihdr_bytes(1, 1, 8, 0, 0);
    out.extend(chunk_bytes([80, 76, 84, 69], &[1, 2, 3]));
    out.extend(chunk_bytes([73, 68, 65, 84], &zlib_store(&[0, 77])));
    let png = PNG::from_bytes(out).unwrap();
    assert_eq!(png.image.0[0], vec![(77, 77, 77, 255)]);
    assert_eq!(png.palette, Some(vec![(1, 2, 3)]));
}

#[test]
fn up_filter_uses_previous_row() {
    let bytes = image_bytes(2, 2, 8, 0, None, &[0, 10, 20, 2, 5, 5]);
    let png = PNG::from_bytes(bytes).unwrap();
    assert_eq!(png.image.0[1], vec![(15, 15, 15, 255), (25, 25, 25, 255)]);
}

#[test]
fn average_filter_floors_the_mean() {
    // Row 0: [10, 20]; row 1 average-filtered [4, 7]:
    // out[0] = 4 + (0 + 10)/2 = 9; out[1] = 7 + (9 + 20)/2 = 21.
    let bytes = image_bytes(2, 2, 8, 0, None, &[0, 10, 20, 3, 4, 7]);
    let png = PNG::from_bytes(bytes).unwrap();
    assert_eq!(png.image.0[1], vec![(9, 9, 9, 255), (21, 21, 21, 255)]);
}

#[test]
fn paeth_filter_full_decode() {
    // Row 0: [10, 100]; row 1 paeth-filtered [1, 2]:
    // out[0] = 1 + paeth(0, 10, 0) = 11; out[1] = 2 + paeth(11, 100, 10) = 102
    // since p = 101, and |101-100| beats |101-11|.
    let bytes = image_bytes(2, 2, 8, 0, None, &[0, 10, 100, 4, 1, 2]);
    let png = PNG::from_bytes(bytes).unwrap();
    assert_eq!(png.image.0[1], vec![(11, 11, 11, 255), (102, 102, 102, 255)]);
}
