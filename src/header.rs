//! The outer file header (signature plus twelve ignored bytes) and the info
//! header that describes the pixel array.

use vstd::prelude::*;

use crate::cursor::{consume_n, fits, le_u16, le_u32, read_dword, read_n_bytes, read_word};
use crate::error::DecodeError;

verus! {

/// Size in bytes of the outer file header.
pub const FILE_HEADER_LEN: usize = 14;

/// First byte of the signature, ASCII `B`.
pub const MAGIC_0: u8 = 0x42;

/// Second byte of the signature, ASCII `M`.
pub const MAGIC_1: u8 = 0x4D;

/// The fields of the info header that decoding needs.
#[derive(Clone, Copy, Debug, PartialEq, Eq, Structural)]
pub struct DIBHeader {
    pub width: u32,
    pub height: u32,
    pub depth: u16,
}

impl DIBHeader {
    /// A header that the info header reader can produce: a supported depth.
    pub open spec fn wf(&self) -> bool {
        is_supported_depth(self.depth)
    }
}

/// The known lengths of the BITMAPINFOHEADER family.
pub open spec fn is_supported_header_len(len: u32) -> bool {
    len == 40 || len == 52 || len == 56 || len == 108 || len == 124
}

/// The bit depths that can be decoded.
pub open spec fn is_supported_depth(depth: u16) -> bool {
    depth == 24 || depth == 32
}

/// Outcome of reading the file header at `pos`: the offset just past it.
pub open spec fn file_header_result(data: Seq<u8>, pos: int) -> Result<int, DecodeError> {
    if !fits(data, pos, FILE_HEADER_LEN as int) {
        Err(DecodeError::OutOfBounds)
    } else if data[pos] != MAGIC_0 || data[pos + 1] != MAGIC_1 {
        Err(DecodeError::InvalidMagic)
    } else {
        Ok(pos + FILE_HEADER_LEN)
    }
}

/// Outcome of reading the info header at `pos`: its fields and the offset
/// just past the whole declared header. The length field comes first, then
/// width, height, the plane count and the depth; whatever else the header
/// declares is skipped.
pub open spec fn dib_header_result(data: Seq<u8>, pos: int) -> Result<(DIBHeader, int), DecodeError> {
    if !fits(data, pos, 4) {
        Err(DecodeError::OutOfBounds)
    } else if !is_supported_header_len(le_u32(data, pos)) {
        Err(DecodeError::UnsupportedHeaderVariant)
    } else if !fits(data, pos, 16) {
        Err(DecodeError::OutOfBounds)
    } else if !is_supported_depth(le_u16(data, pos + 14)) {
        Err(DecodeError::UnsupportedBitDepth)
    } else if !fits(data, pos, le_u32(data, pos) as int) {
        Err(DecodeError::OutOfBounds)
    } else {
        Ok(
            (
                DIBHeader {
                    width: le_u32(data, pos + 4),
                    height: le_u32(data, pos + 8),
                    depth: le_u16(data, pos + 14),
                },
                pos + le_u32(data, pos),
            ),
        )
    }
}

/// Checks the signature and moves the cursor past the file header. A buffer
/// too short for the whole header fails before the signature is looked at.
pub fn read_bmp_header(data: &Vec<u8>, cursor: &mut usize) -> (r: Result<(), DecodeError>)
    ensures
        match file_header_result(data@, *old(cursor) as int) {
            Ok(end) => r is Ok && *final(cursor) == end,
            Err(e) => r == Err::<(), DecodeError>(e),
        },
        r == Err::<(), DecodeError>(DecodeError::OutOfBounds) ==> *final(cursor) == *old(cursor),
        r == Err::<(), DecodeError>(DecodeError::InvalidMagic) ==> *final(cursor) == *old(cursor) + 2,
{
    if *cursor > data.len() || data.len() - *cursor < FILE_HEADER_LEN {
        return Err(DecodeError::OutOfBounds);
    }
    let magic = read_n_bytes(data, cursor, 2)?;
    if magic[0] != MAGIC_0 || magic[1] != MAGIC_1 {
        return Err(DecodeError::InvalidMagic);
    }
    consume_n(data, cursor, FILE_HEADER_LEN - 2)
}

/// Reads the info header and moves the cursor to the first byte after it.
pub fn read_dib_header(data: &Vec<u8>, cursor: &mut usize) -> (r: Result<DIBHeader, DecodeError>)
    ensures
        match dib_header_result(data@, *old(cursor) as int) {
            Ok((info, end)) => r == Ok::<DIBHeader, DecodeError>(info) && *final(cursor) == end,
            Err(e) => r == Err::<DIBHeader, DecodeError>(e),
        },
        r matches Ok(info) ==> info.wf(),
        *final(cursor) >= *old(cursor),
{
    let start = *cursor;
    let length = read_dword(data, cursor)?;
    if !(length == 40 || length == 52 || length == 56 || length == 108 || length == 124) {
        return Err(DecodeError::UnsupportedHeaderVariant);
    }
    let width = read_dword(data, cursor)?;
    let height = read_dword(data, cursor)?;
    consume_n(data, cursor, 2)?;
    let depth = read_word(data, cursor)?;
    if !(depth == 24 || depth == 32) {
        return Err(DecodeError::UnsupportedBitDepth);
    }
    assert(*cursor == start + 16);
    consume_n(data, cursor, length as usize - 16)?;
    Ok(DIBHeader { width, height, depth })
}

} // verus!
