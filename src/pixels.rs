//! The pixel array: rows stored bottom row first, each pixel as blue, green,
//! red (preceded by alpha at depth 32), each row followed by `width % 4`
//! padding bytes.

use vstd::prelude::*;

use crate::cursor::{consume_n, fits, read_byte};
use crate::error::DecodeError;
use crate::header::DIBHeader;

verus! {

/// A pixel with four 8-bit channels.
#[derive(Clone, Copy, Debug, PartialEq, Eq, Structural)]
pub struct Pixel {
    pub red: u8,
    pub green: u8,
    pub blue: u8,
    pub alpha: u8,
}

/// One letter naming an opaque pure colour: red, yellow, green, blue, dark
/// (black) or white; `X` for any other pixel.
pub open spec fn symbol_of(p: Pixel) -> char {
    if p.alpha != 255 {
        'X'
    } else if p.red == 255 && p.green == 0 && p.blue == 0 {
        'R'
    } else if p.red == 255 && p.green == 255 && p.blue == 0 {
        'Y'
    } else if p.red == 0 && p.green == 255 && p.blue == 0 {
        'G'
    } else if p.red == 0 && p.green == 0 && p.blue == 255 {
        'B'
    } else if p.red == 0 && p.green == 0 && p.blue == 0 {
        'D'
    } else if p.red == 255 && p.green == 255 && p.blue == 255 {
        'W'
    } else {
        'X'
    }
}

/// The letter that stands for `p` in a text rendering of an image.
pub fn pixel_symbol(p: &Pixel) -> (r: char)
    ensures
        r == symbol_of(*p),
{
    match (p.red, p.green, p.blue, p.alpha) {
        (255, 0, 0, 255) => 'R',
        (255, 255, 0, 255) => 'Y',
        (0, 255, 0, 255) => 'G',
        (0, 0, 255, 255) => 'B',
        (0, 0, 0, 255) => 'D',
        (255, 255, 255, 255) => 'W',
        _ => 'X',
    }
}

/// Bytes that one stored pixel occupies: three at depth 24, four otherwise.
pub open spec fn bytes_per_pixel(depth: u16) -> int {
    if depth == 24 {
        3
    } else {
        4
    }
}

/// Padding bytes stored after each row.
pub open spec fn row_padding(info: DIBHeader) -> int {
    (info.width % 4) as int
}

/// Bytes that one stored row occupies, padding included.
pub open spec fn row_stride(info: DIBHeader) -> int {
    info.width * bytes_per_pixel(info.depth) + row_padding(info)
}

/// Offset of the first byte of stored row `s` when the array starts at `start`.
pub open spec fn row_offset(start: int, info: DIBHeader, s: int) -> int {
    start + s * row_stride(info)
}

/// Offset of the first byte of pixel `c` of stored row `s`.
pub open spec fn pixel_offset(start: int, info: DIBHeader, s: int, c: int) -> int {
    row_offset(start, info, s) + c * bytes_per_pixel(info.depth)
}

/// Offset just past the whole pixel array.
pub open spec fn pixel_array_end(start: int, info: DIBHeader) -> int {
    row_offset(start, info, info.height as int)
}

/// The pixel whose stored bytes begin at `off`. At depth 24 the bytes are
/// blue, green, red and alpha is 0; otherwise they are alpha, blue, green, red.
pub open spec fn pixel_at(data: Seq<u8>, off: int, depth: u16) -> Pixel {
    if depth == 24 {
        Pixel { red: data[off + 2], green: data[off + 1], blue: data[off], alpha: 0 }
    } else {
        Pixel { red: data[off + 3], green: data[off + 2], blue: data[off + 1], alpha: data[off] }
    }
}

/// Pixel `c` of stored row `s` (stored row 0 is the bottom of the image).
pub open spec fn stored_pixel(data: Seq<u8>, start: int, info: DIBHeader, s: int, c: int) -> Pixel {
    pixel_at(data, pixel_offset(start, info, s, c), info.depth)
}

/// Pixel `c` of row `r` counted from the top of the image.
pub open spec fn decoded_pixel(data: Seq<u8>, start: int, info: DIBHeader, r: int, c: int) -> Pixel {
    stored_pixel(data, start, info, info.height - 1 - r, c)
}

/// `rows` is the image whose array starts at `start`, top row first.
pub open spec fn grid_matches(rows: Seq<Vec<Pixel>>, data: Seq<u8>, start: int, info: DIBHeader) -> bool {
    &&& rows.len() == info.height
    &&& forall|r: int| 0 <= r < info.height ==> #[trigger] rows[r]@.len() == info.width
    &&& forall|r: int, c: int|
        0 <= r < info.height && 0 <= c < info.width ==> #[trigger] rows[r]@[c] == decoded_pixel(
            data,
            start,
            info,
            r,
            c,
        )
}

/// Within an array of `h` rows of `w` pixels, the byte `k` of pixel `c` of
/// row `s` lies before the end of the array.
proof fn lemma_byte_in_array(s: int, c: int, k: int, w: int, h: int, bpp: int, pad: int)
    requires
        0 <= s < h,
        0 <= c < w,
        0 <= k < bpp,
        0 <= pad,
    ensures
        s * (w * bpp + pad) + c * bpp + k + 1 <= h * (w * bpp + pad),
{
    assert(c * bpp + k + 1 <= w * bpp) by (nonlinear_arith)
        requires
            0 <= c < w,
            0 <= k < bpp,
    ;
    assert(s * (w * bpp + pad) + (w * bpp + pad) <= h * (w * bpp + pad)) by (nonlinear_arith)
        requires
            0 <= s < h,
            0 <= w * bpp + pad,
    ;
}

/// Stored row `s + 1` begins one stride after stored row `s`.
proof fn lemma_next_row(start: int, info: DIBHeader, s: int)
    ensures
        row_offset(start, info, s + 1) == row_offset(start, info, s) + row_stride(info),
{
    assert((s + 1) * row_stride(info) == s * row_stride(info) + row_stride(info)) by (nonlinear_arith);
}

/// Reads one pixel of the given depth.
fn read_pixel(data: &Vec<u8>, cursor: &mut usize, depth: u16) -> (r: Result<Pixel, DecodeError>)
    ensures
        r is Ok <==> fits(data@, *old(cursor) as int, bytes_per_pixel(depth)),
        r matches Ok(p) ==> p == pixel_at(data@, *old(cursor) as int, depth)
            && *final(cursor) == *old(cursor) + bytes_per_pixel(depth),
        r matches Err(e) ==> e == DecodeError::OutOfBounds,
{
    let alpha = if depth == 24 {
        0
    } else {
        read_byte(data, cursor)?
    };
    let blue = read_byte(data, cursor)?;
    let green = read_byte(data, cursor)?;
    let red = read_byte(data, cursor)?;
    Ok(Pixel { red, green, blue, alpha })
}

/// Reads `info.height` rows of `info.width` pixels starting at the cursor,
/// skipping `width % 4` padding bytes after each row, and returns them top
/// row first.
pub fn read_pixel_array(data: &Vec<u8>, cursor: &mut usize, info: &DIBHeader) -> (r: Result<
    Vec<Vec<Pixel>>,
    DecodeError,
>)
    ensures
        r is Ok <==> pixel_array_end(*old(cursor) as int, *info) <= data@.len(),
        r matches Ok(rows) ==> grid_matches(rows@, data@, *old(cursor) as int, *info)
            && *final(cursor) == pixel_array_end(*old(cursor) as int, *info),
        r matches Err(e) ==> e == DecodeError::OutOfBounds,
{
    let ghost start = *cursor as int;
    let ghost len = data@.len() as int;
    let ghost bpp = bytes_per_pixel(info.depth);
    let ghost stride = row_stride(*info);
    proof {
        assert(info.height * stride >= 0) by (nonlinear_arith)
            requires
                stride >= 0,
        ;
    }
    if *cursor > data.len() {
        return Err(DecodeError::OutOfBounds);
    }
    let pad_bytes: u32 = info.width % 4;
    let mut stored: Vec<Vec<Pixel>> = Vec::new();
    let mut s: u32 = 0;
    while s < info.height
        invariant
            0 <= s <= info.height,
            bpp == bytes_per_pixel(info.depth),
            stride == row_stride(*info),
            pad_bytes == row_padding(*info),
            start == *old(cursor),
            len == data@.len(),
            *cursor == row_offset(start, *info, s as int),
            *cursor <= len,
            stored@.len() == s,
            forall|j: int| 0 <= j < s ==> #[trigger] stored@[j]@.len() == info.width,
            forall|j: int, c: int|
                0 <= j < s && 0 <= c < info.width ==> #[trigger] stored@[j]@[c] == stored_pixel(
                    data@,
                    start,
                    *info,
                    j,
                    c,
                ),
        decreases info.height - s,
    {
        let mut row: Vec<Pixel> = Vec::new();
        let mut c: u32 = 0;
        while c < info.width
            invariant
                0 <= s < info.height,
                0 <= c <= info.width,
                bpp == bytes_per_pixel(info.depth),
                stride == row_stride(*info),
                start == *old(cursor),
                len == data@.len(),
                *cursor == pixel_offset(start, *info, s as int, c as int),
                *cursor <= len,
                row@.len() == c,
                forall|k: int| 0 <= k < c ==> #[trigger] row@[k] == stored_pixel(data@, start, *info, s as int, k),
            decreases info.width - c,
        {
            let ghost at = *cursor as int;
            proof {
                lemma_byte_in_array(s as int, c as int, bpp - 1, info.width as int, info.height as int, bpp, row_padding(*info));
            }
            match read_pixel(data, cursor, info.depth) {
                Ok(p) => row.push(p),
                Err(e) => {
                    assert(at + bpp > len);
                    assert(pixel_array_end(start, *info) > len);
                    return Err(e);
                }
            }
            assert(*cursor == pixel_offset(start, *info, s as int, c + 1)) by (nonlinear_arith)
                requires
                    at == pixel_offset(start, *info, s as int, c as int),
                    *cursor == at + bpp,
                    bpp == bytes_per_pixel(info.depth),
            ;
            c = c + 1;
        }
        proof {
            lemma_next_row(start, *info, s as int);
            assert((s as int + 1) * stride <= info.height * stride) by (nonlinear_arith)
                requires
                    s < info.height,
                    stride >= 0,
            ;
            assert(*cursor + row_padding(*info) == row_offset(start, *info, s + 1));
        }
        match consume_n(data, cursor, pad_bytes as usize) {
            Ok(()) => {},
            Err(e) => {
                assert(pixel_array_end(start, *info) > len);
                return Err(e);
            },
        }
        stored.push(row);
        s = s + 1;
    }
    let mut rows: Vec<Vec<Pixel>> = Vec::new();
    while stored.len() > 0
        invariant
            rows@.len() + stored@.len() == info.height,
            forall|j: int| 0 <= j < stored@.len() ==> #[trigger] stored@[j]@.len() == info.width,
            forall|j: int, c: int|
                0 <= j < stored@.len() && 0 <= c < info.width ==> #[trigger] stored@[j]@[c]
                    == stored_pixel(data@, start, *info, j, c),
            forall|r: int| 0 <= r < rows@.len() ==> #[trigger] rows@[r]@.len() == info.width,
            forall|r: int, c: int|
                0 <= r < rows@.len() && 0 <= c < info.width ==> #[trigger] rows@[r]@[c]
                    == decoded_pixel(data@, start, *info, r, c),
        decreases stored@.len(),
    {
        let row = stored.pop().unwrap();
        rows.push(row);
    }
    Ok(rows)
}

} // verus!
