//! Bounds-checked sequential reads from a byte buffer. The cursor is a plain
//! offset; every read either succeeds and moves it forward by exactly the
//! number of bytes read, or fails with `OutOfBounds` and leaves it unchanged.

use vstd::prelude::*;
use vstd::slice::slice_subrange;

use crate::error::DecodeError;

verus! {

/// Whether `n` bytes can be taken from `data` starting at offset `pos`.
pub open spec fn fits(data: Seq<u8>, pos: int, n: int) -> bool {
    pos + n <= data.len()
}

/// The little-endian unsigned value of the two bytes at `pos`.
pub open spec fn le_u16(data: Seq<u8>, pos: int) -> u16 {
    (data[pos] + 0x100 * data[pos + 1]) as u16
}

/// The little-endian unsigned value of the four bytes at `pos`.
pub open spec fn le_u32(data: Seq<u8>, pos: int) -> u32 {
    (data[pos] + 0x100 * data[pos + 1] + 0x1_0000 * data[pos + 2] + 0x100_0000 * data[pos + 3]) as u32
}

/// Moves the cursor forward by `n` bytes.
pub fn consume_n(data: &Vec<u8>, cursor: &mut usize, n: usize) -> (r: Result<(), DecodeError>)
    ensures
        r is Ok <==> fits(data@, *old(cursor) as int, n as int),
        r is Ok ==> *final(cursor) == *old(cursor) + n,
        r is Err ==> r == Err::<(), DecodeError>(DecodeError::OutOfBounds) && *final(cursor) == *old(cursor),
{
    if *cursor > data.len() || n > data.len() - *cursor {
        return Err(DecodeError::OutOfBounds);
    }
    *cursor = *cursor + n;
    Ok(())
}

/// Reads the next `n` bytes and moves the cursor past them.
pub fn read_n_bytes<'a>(data: &'a Vec<u8>, cursor: &mut usize, n: usize) -> (r: Result<&'a [u8], DecodeError>)
    ensures
        r is Ok <==> fits(data@, *old(cursor) as int, n as int),
        r matches Ok(b) ==> b@ == data@.subrange(*old(cursor) as int, *old(cursor) + n)
            && *final(cursor) == *old(cursor) + n,
        r matches Err(e) ==> e == DecodeError::OutOfBounds && *final(cursor) == *old(cursor),
{
    let orig = *cursor;
    consume_n(data, cursor, n)?;
    Ok(slice_subrange(data.as_slice(), orig, orig + n))
}

/// Reads the next byte.
pub fn read_byte(data: &Vec<u8>, cursor: &mut usize) -> (r: Result<u8, DecodeError>)
    ensures
        r is Ok <==> fits(data@, *old(cursor) as int, 1),
        r matches Ok(b) ==> b == data@[*old(cursor) as int] && *final(cursor) == *old(cursor) + 1,
        r matches Err(e) ==> e == DecodeError::OutOfBounds && *final(cursor) == *old(cursor),
{
    let orig = *cursor;
    consume_n(data, cursor, 1)?;
    Ok(data[orig])
}

/// Reads the next two bytes as a little-endian `u16`.
pub fn read_word(data: &Vec<u8>, cursor: &mut usize) -> (r: Result<u16, DecodeError>)
    ensures
        r is Ok <==> fits(data@, *old(cursor) as int, 2),
        r matches Ok(w) ==> w == le_u16(data@, *old(cursor) as int) && *final(cursor) == *old(cursor) + 2,
        r matches Err(e) ==> e == DecodeError::OutOfBounds && *final(cursor) == *old(cursor),
{
    let bytes = read_n_bytes(data, cursor, 2)?;
    let w: u16 = bytes[0] as u16 + 0x100 * (bytes[1] as u16);
    Ok(w)
}

/// Reads the next four bytes as a little-endian `u32`.
pub fn read_dword(data: &Vec<u8>, cursor: &mut usize) -> (r: Result<u32, DecodeError>)
    ensures
        r is Ok <==> fits(data@, *old(cursor) as int, 4),
        r matches Ok(d) ==> d == le_u32(data@, *old(cursor) as int) && *final(cursor) == *old(cursor) + 4,
        r matches Err(e) ==> e == DecodeError::OutOfBounds && *final(cursor) == *old(cursor),
{
    let bytes = read_n_bytes(data, cursor, 4)?;
    let d: u32 = bytes[0] as u32 + 0x100 * (bytes[1] as u32) + 0x1_0000 * (bytes[2] as u32)
        + 0x100_0000 * (bytes[3] as u32);
    Ok(d)
}

} // verus!
