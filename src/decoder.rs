//! Whole-buffer decoding: file header, info header, then pixel array.

use vstd::prelude::*;

use crate::cursor::{le_u16, le_u32};
use crate::error::DecodeError;
use crate::header::{
    dib_header_result, file_header_result, is_supported_header_len, read_bmp_header,
    read_dib_header, DIBHeader, FILE_HEADER_LEN, MAGIC_0, MAGIC_1,
};
use crate::pixels::{
    bytes_per_pixel, decoded_pixel, grid_matches, pixel_array_end, pixel_offset, read_pixel_array,
    row_offset, row_padding, stored_pixel, Pixel,
};

verus! {

/// A decoded image: `data[r][c]` is column `c` of row `r`, row 0 at the top.
pub struct DecodedBMP {
    pub width: u32,
    pub height: u32,
    pub data: Vec<Vec<Pixel>>,
}

/// Outcome of decoding `data`: on success the info header and the offset at
/// which the pixel array begins.
pub open spec fn decode_result(data: Seq<u8>) -> Result<(DIBHeader, int), DecodeError> {
    match file_header_result(data, 0) {
        Err(e) => Err(e),
        Ok(pos) => match dib_header_result(data, pos) {
            Err(e) => Err(e),
            Ok((info, start)) => if pixel_array_end(start, info) <= data.len() {
                Ok((info, start))
            } else {
                Err(DecodeError::OutOfBounds)
            },
        },
    }
}

/// Decodes a whole BMP buffer. The first error met is returned unchanged.
pub fn decode_bmp(data: &Vec<u8>) -> (r: Result<DecodedBMP, DecodeError>)
    ensures
        match decode_result(data@) {
            Ok((info, start)) => r matches Ok(img) && img.width == info.width && img.height
                == info.height && grid_matches(img.data@, data@, start, info),
            Err(e) => r matches Err(e2) && e2 == e,
        },
{
    let mut cursor: usize = 0;
    read_bmp_header(data, &mut cursor)?;
    let info = read_dib_header(data, &mut cursor)?;
    let rows = read_pixel_array(data, &mut cursor, &info)?;
    Ok(DecodedBMP { width: info.width, height: info.height, data: rows })
}

/// A buffer too short for the file header fails with `OutOfBounds`, whatever
/// its bytes are.
pub proof fn lemma_short_buffer_out_of_bounds(data: Seq<u8>)
    requires
        data.len() < FILE_HEADER_LEN,
    ensures
        decode_result(data) == Err::<(DIBHeader, int), DecodeError>(DecodeError::OutOfBounds),
{
}

/// A buffer long enough for the file header that does not start with `BM`
/// fails with `InvalidMagic`.
pub proof fn lemma_bad_magic(data: Seq<u8>)
    requires
        data.len() >= FILE_HEADER_LEN,
        data[0] != MAGIC_0 || data[1] != MAGIC_1,
    ensures
        decode_result(data) == Err::<(DIBHeader, int), DecodeError>(DecodeError::InvalidMagic),
{
}

/// On success the info header length `L` stored at offset 14 is one of the
/// accepted lengths, and the pixel array begins exactly `14 + L` bytes into
/// the buffer.
pub proof fn lemma_pixel_data_offset(data: Seq<u8>)
    requires
        decode_result(data) is Ok,
    ensures
        is_supported_header_len(le_u32(data, FILE_HEADER_LEN as int)),
        decode_result(data)->Ok_0.1 == FILE_HEADER_LEN + le_u32(data, FILE_HEADER_LEN as int),
{
}

/// At depth 24 every decoded pixel has alpha 0; at depth 32 its alpha is the
/// first of the four bytes stored for that pixel.
pub proof fn lemma_alpha_channel(data: Seq<u8>, r: int, c: int)
    requires
        decode_result(data) is Ok,
        0 <= r < decode_result(data)->Ok_0.0.height,
        0 <= c < decode_result(data)->Ok_0.0.width,
    ensures
        ({
            let (info, start) = decode_result(data)->Ok_0;
            let p = decoded_pixel(data, start, info, r, c);
            &&& info.depth == 24 ==> p.alpha == 0
            &&& info.depth == 32 ==> p.alpha == data[pixel_offset(start, info, info.height - 1 - r, c)]
        }),
{
}

/// Rows come out in the reverse of their stored order: output row `r` is
/// stored row `height - 1 - r`, so the first output row is the last stored
/// row and the last output row is the first stored row.
pub proof fn lemma_vertical_flip(data: Seq<u8>, c: int)
    requires
        decode_result(data) is Ok,
        0 <= c < decode_result(data)->Ok_0.0.width,
    ensures
        ({
            let (info, start) = decode_result(data)->Ok_0;
            &&& forall|r: int|
                0 <= r < info.height ==> #[trigger] decoded_pixel(data, start, info, r, c)
                    == stored_pixel(data, start, info, info.height - 1 - r, c)
            &&& decoded_pixel(data, start, info, 0, c) == stored_pixel(
                data,
                start,
                info,
                info.height - 1,
                c,
            )
            &&& decoded_pixel(data, start, info, info.height - 1, c) == stored_pixel(
                data,
                start,
                info,
                0,
                c,
            )
        }),
{
}

/// Every stored row is followed by exactly `width % 4` padding bytes: the
/// next row (or the end of the pixel array) begins that many bytes after the
/// end of the row's last pixel, and the whole array lies within the buffer.
pub proof fn lemma_row_padding(data: Seq<u8>, s: int)
    requires
        decode_result(data) is Ok,
        0 <= s < decode_result(data)->Ok_0.0.height,
    ensures
        ({
            let (info, start) = decode_result(data)->Ok_0;
            &&& row_offset(start, info, s + 1) == pixel_offset(start, info, s, info.width as int) + (
            info.width % 4)
            &&& row_offset(start, info, info.height as int) <= data.len()
        }),
{
    let (info, start) = decode_result(data)->Ok_0;
    let stride = info.width * bytes_per_pixel(info.depth) + row_padding(info);
    assert((s + 1) * stride == s * stride + stride) by (nonlinear_arith);
}

/// A header length of 12 (the older core header) is refused.
pub proof fn lemma_core_header_refused(data: Seq<u8>)
    requires
        data.len() >= FILE_HEADER_LEN + 4,
        data[0] == MAGIC_0 && data[1] == MAGIC_1,
        le_u32(data, FILE_HEADER_LEN as int) == 12,
    ensures
        decode_result(data) == Err::<(DIBHeader, int), DecodeError>(
            DecodeError::UnsupportedHeaderVariant,
        ),
{
}

/// A bit depth of 8 is refused even when every other field is acceptable.
pub proof fn lemma_depth_8_refused(data: Seq<u8>)
    requires
        data.len() >= FILE_HEADER_LEN + 16,
        data[0] == MAGIC_0 && data[1] == MAGIC_1,
        is_supported_header_len(le_u32(data, FILE_HEADER_LEN as int)),
        le_u16(data, FILE_HEADER_LEN + 14) == 8,
    ensures
        decode_result(data) == Err::<(DIBHeader, int), DecodeError>(
            DecodeError::UnsupportedBitDepth,
        ),
{
}

} // verus!
