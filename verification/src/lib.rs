//! A verified decoder for PNG-style raster images.
//!
//! The input is a chunked binary container: a sequence of length-delimited,
//! type-tagged records. The first record carries the image header, an
//! optional record carries a color palette, and the image-data records carry
//! a zlib-compressed stream of filtered scanlines. Decoding reverses the
//! per-row delta filters, unpacks sub-byte samples, and resolves each of the
//! five color models into a uniform 8-bit RGBA raster.
//!
//! Decompression of the image-data stream is delegated to the `inflate`
//! crate behind a trusted wrapper; everything else is verified.

pub mod chunk;
pub mod error;
pub mod filter;
pub mod header;
pub mod palette;
pub mod png;
pub mod raster;
pub mod sample;

pub use chunk::Chunk;
pub use error::HeaderField;
pub use error::PngError;
pub use header::PNGHeader;
pub use png::PNG;
pub use raster::RGBImage;
pub use raster::RGB;
pub use raster::RGBA;
