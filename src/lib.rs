//! Decoding of uncompressed BMP images (BITMAPINFOHEADER family, 24 or 32 bits
//! per pixel) from a byte buffer into a grid of RGBA pixels.

pub mod cursor;
pub mod error;
pub mod header;
pub mod pixels;
pub mod decoder;
