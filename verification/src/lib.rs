//! The codec-independent core of a stateless, hardware-accelerated video decoder.
//!
//! The core sits between a bitstream parser and a VA-API style driver. It keeps the stream
//! metadata, negotiates the output format with the client, manages the reference pictures,
//! recycles surfaces through a pool, refuses work when no surface is free, and hands decoded
//! frames out in display order.
//!
//! The parser and the driver are capabilities that the embedding program provides, through the
//! traits [`decoders::vp8::parser::Parser`] and [`utils::vaapi::Display`]. Nothing is assumed of
//! what they return: every contract in this crate holds whatever they answer.

use vstd::prelude::*;

pub mod decoder;
pub mod decoders;
pub mod utils;

verus! {

/// Width and height of a picture, in pixels.
#[derive(Clone, Copy, Debug, PartialEq, Eq, Structural, Hash, Default)]
pub struct Resolution {
    pub width: u32,
    pub height: u32,
}

/// Pixel layouts in which decoded frames can be handed to the client.
#[derive(Clone, Copy, Debug, PartialEq, Eq, Structural, Hash)]
pub enum DecodedFormat {
    /// A luma plane followed by one plane of interleaved chroma samples.
    NV12,
    /// A luma plane followed by a U plane and a V plane.
    I420,
}

/// `n` rounded up to the next even number.
pub open spec fn align2(n: int) -> int {
    n + n % 2
}

/// The number of bytes in a tightly packed 4:2:0 frame of `width` by `height` pixels: the
/// luma plane, then the chroma samples of the picture rounded up to even dimensions.
pub open spec fn spec_decoded_frame_size(format: DecodedFormat, width: int, height: int) -> int {
    width * height + align2(width) * (align2(height) / 2)
}

/// Index of the byte at (`row`, `col`) in a plane that starts at `offset` and whose rows are
/// `pitch` bytes apart.
pub open spec fn plane_index(offset: int, pitch: int, row: int, col: int) -> int {
    offset + row * pitch + col
}

/// A plane of `rows` rows of `row_width` bytes, `pitch` bytes apart from `offset` on, lies
/// within a buffer of `len` bytes.
pub open spec fn plane_fits(len: int, offset: int, pitch: int, row_width: int, rows: int) -> bool {
    rows > 0 && row_width > 0 ==> row_width <= pitch && offset + (rows - 1) * pitch + row_width
        <= len
}

/// `dst` holds, packed from `dst_offset` on, the plane of `src` described by `offset` and
/// `pitch`.
pub open spec fn plane_copied(
    src: Seq<u8>,
    offset: int,
    pitch: int,
    dst: Seq<u8>,
    dst_offset: int,
    row_width: int,
    rows: int,
) -> bool {
    forall|row: int, col: int|
        0 <= row < rows && 0 <= col < row_width ==> #[trigger] dst[plane_index(
            dst_offset,
            row_width,
            row,
            col,
        )] == src[plane_index(offset, pitch, row, col)]
}

/// The source layout of an NV12 image is addressable for every byte that `nv12_copy` reads.
pub open spec fn nv12_readable(
    len: int,
    width: int,
    height: int,
    strides: [u32; 3],
    offsets: [u32; 3],
) -> bool {
    &&& plane_fits(len, offsets[0] as int, strides[0] as int, width, height)
    &&& plane_fits(len, offsets[1] as int, strides[1] as int, align2(width), align2(height) / 2)
}

/// The source layout of an I420 image is addressable for every byte that `i420_copy` reads.
pub open spec fn i420_readable(
    len: int,
    width: int,
    height: int,
    strides: [u32; 3],
    offsets: [u32; 3],
) -> bool {
    &&& plane_fits(len, offsets[0] as int, strides[0] as int, width, height)
    &&& plane_fits(
        len,
        offsets[1] as int,
        strides[1] as int,
        align2(width) / 2,
        align2(height) / 2,
    )
    &&& plane_fits(
        len,
        offsets[2] as int,
        strides[2] as int,
        align2(width) / 2,
        align2(height) / 2,
    )
}

/// `dst` is the packed NV12 frame that the padded image `src` holds.
pub open spec fn is_nv12_of(
    dst: Seq<u8>,
    src: Seq<u8>,
    width: int,
    height: int,
    strides: [u32; 3],
    offsets: [u32; 3],
) -> bool {
    &&& plane_copied(src, offsets[0] as int, strides[0] as int, dst, 0, width, height)
    &&& plane_copied(
        src,
        offsets[1] as int,
        strides[1] as int,
        dst,
        width * height,
        align2(width),
        align2(height) / 2,
    )
}

/// `dst` is the packed I420 frame that the padded image `src` holds.
pub open spec fn is_i420_of(
    dst: Seq<u8>,
    src: Seq<u8>,
    width: int,
    height: int,
    strides: [u32; 3],
    offsets: [u32; 3],
) -> bool {
    &&& plane_copied(src, offsets[0] as int, strides[0] as int, dst, 0, width, height)
    &&& plane_copied(
        src,
        offsets[1] as int,
        strides[1] as int,
        dst,
        width * height,
        align2(width) / 2,
        align2(height) / 2,
    )
    &&& plane_copied(
        src,
        offsets[2] as int,
        strides[2] as int,
        dst,
        width * height + (align2(width) / 2) * (align2(height) / 2),
        align2(width) / 2,
        align2(height) / 2,
    )
}

/// Rows of a packed plane do not overlap: an earlier row ends before a later one begins.
pub proof fn lemma_rows_are_disjoint(row_width: int, earlier: int, later: int)
    requires
        0 <= row_width,
        0 <= earlier < later,
    ensures
        earlier * row_width + row_width <= later * row_width,
        0 <= earlier * row_width,
{
    assert(earlier * row_width + row_width == (earlier + 1) * row_width) by (nonlinear_arith);
    assert((earlier + 1) * row_width <= later * row_width) by (nonlinear_arith)
        requires
            earlier + 1 <= later,
            0 <= row_width,
    ;
    assert(0 <= earlier * row_width) by (nonlinear_arith)
        requires
            0 <= earlier,
            0 <= row_width,
    ;
}

/// The rows of a plane that fits lie within the buffer.
pub proof fn lemma_row_within_plane(
    len: int,
    offset: int,
    pitch: int,
    row_width: int,
    rows: int,
    row: int,
)
    requires
        0 <= offset,
        0 < row_width,
        0 <= row < rows,
        plane_fits(len, offset, pitch, row_width, rows),
    ensures
        0 <= row * pitch,
        offset + row * pitch + row_width <= len,
{
    assert(row * pitch <= (rows - 1) * pitch) by (nonlinear_arith)
        requires
            row <= rows - 1,
            0 <= pitch,
    ;
    assert(0 <= row * pitch) by (nonlinear_arith)
        requires
            0 <= row,
            0 <= pitch,
    ;
}

/// Copies one plane of `src` into `dst`, dropping the padding at the end of each row. Only
/// the `rows * row_width` bytes of `dst` from `dst_offset` on change.
pub fn copy_plane(
    src: &[u8],
    offset: usize,
    pitch: usize,
    dst: &mut [u8],
    dst_offset: usize,
    row_width: usize,
    rows: usize,
)
    requires
        plane_fits(src@.len() as int, offset as int, pitch as int, row_width as int, rows as int),
        dst_offset + rows * row_width <= old(dst)@.len(),
    ensures
        final(dst)@.len() == old(dst)@.len(),
        plane_copied(
            src@,
            offset as int,
            pitch as int,
            final(dst)@,
            dst_offset as int,
            row_width as int,
            rows as int,
        ),
        forall|i: int|
            0 <= i < old(dst)@.len() && !(dst_offset <= i < dst_offset + rows * row_width)
                ==> final(dst)@[i] == old(dst)@[i],
{
    if row_width == 0 {
        return ;
    }
    let src_len: usize = src.len();
    let dst_len: usize = dst.len();
    let mut row: usize = 0;
    while row < rows
        invariant
            0 < row_width,
            src_len == src@.len(),
            dst_len == dst@.len(),
            row <= rows,
            plane_fits(
                src@.len() as int,
                offset as int,
                pitch as int,
                row_width as int,
                rows as int,
            ),
            dst_offset + rows * row_width <= old(dst)@.len(),
            dst@.len() == old(dst)@.len(),
            plane_copied(
                src@,
                offset as int,
                pitch as int,
                dst@,
                dst_offset as int,
                row_width as int,
                row as int,
            ),
            forall|i: int|
                0 <= i < old(dst)@.len() && !(dst_offset <= i < dst_offset + row * row_width)
                    ==> dst@[i] == old(dst)@[i],
        decreases rows - row,
    {
        proof {
            lemma_row_within_plane(
                src@.len() as int,
                offset as int,
                pitch as int,
                row_width as int,
                rows as int,
                row as int,
            );
            lemma_rows_are_disjoint(row_width as int, row as int, rows as int);
        }
        let src_row: usize = offset + row * pitch;
        let dst_row: usize = dst_offset + row * row_width;
        let ghost before = dst@;
        let mut col: usize = 0;
        while col < row_width
            invariant
                col <= row_width,
                row < rows,
                src_len == src@.len(),
                dst_len == dst@.len(),
                src_row == offset + row * pitch,
                dst_row == dst_offset + row * row_width,
                src_row + row_width <= src@.len(),
                dst_row + row_width <= dst_offset + rows * row_width,
                dst_offset + rows * row_width <= dst@.len(),
                dst@.len() == before.len(),
                forall|i: int|
                    dst_row <= i < dst_row + col ==> dst@[i] == src@[i - dst_row + src_row],
                forall|i: int|
                    0 <= i < before.len() && !(dst_row <= i < dst_row + col) ==> dst@[i]
                        == before[i],
            decreases row_width - col,
        {
            dst[dst_row + col] = src[src_row + col];
            col += 1;
        }
        proof {
            let done = dst@;
            assert forall|r: int, c: int|
                0 <= r < row + 1 && 0 <= c < row_width implies #[trigger] done[plane_index(
                dst_offset as int,
                row_width as int,
                r,
                c,
            )] == src@[plane_index(offset as int, pitch as int, r, c)] by {
                if r < row {
                    lemma_rows_are_disjoint(row_width as int, r, row as int);
                    assert(before[plane_index(dst_offset as int, row_width as int, r, c)]
                        == src@[plane_index(offset as int, pitch as int, r, c)]);
                }
            }
            assert forall|i: int|
                0 <= i < old(dst)@.len() && !(dst_offset <= i < dst_offset + (row + 1)
                    * row_width) implies done[i] == old(dst)@[i] by {
                assert((row + 1) * row_width == row * row_width + row_width)
                    by (nonlinear_arith);
            }
        }
        row += 1;
    }
}

/// The planes of a packed 4:2:0 frame have non-negative sizes, whichever way the factors
/// are written.
pub proof fn lemma_plane_sizes(width: int, height: int)
    requires
        0 <= width,
        0 <= height,
    ensures
        0 <= width * height == height * width,
        0 <= align2(width) * (align2(height) / 2) == (align2(height) / 2) * align2(width),
        0 <= (align2(width) / 2) * (align2(height) / 2) == (align2(height) / 2) * (align2(width)
            / 2),
        align2(width) * (align2(height) / 2) == 2 * ((align2(width) / 2) * (align2(height) / 2)),
{
    let aw = align2(width);
    let cw = align2(width) / 2;
    let ch = align2(height) / 2;
    assert(aw == 2 * cw);
    assert(0 <= width * height == height * width) by (nonlinear_arith)
        requires
            0 <= width,
            0 <= height,
    ;
    assert(0 <= aw * ch == ch * aw) by (nonlinear_arith)
        requires
            0 <= aw,
            0 <= ch,
    ;
    assert(0 <= cw * ch == ch * cw) by (nonlinear_arith)
        requires
            0 <= cw,
            0 <= ch,
    ;
    assert(aw * ch == 2 * (cw * ch)) by (nonlinear_arith)
        requires
            aw == 2 * cw,
    ;
}

/// The size in bytes of a decoded frame of `width` by `height` pixels in `format`.
pub fn decoded_frame_size(format: DecodedFormat, width: u16, height: u16) -> (size: usize)
    requires
        spec_decoded_frame_size(format, width as int, height as int) <= usize::MAX,
    ensures
        size == spec_decoded_frame_size(format, width as int, height as int),
{
    proof {
        lemma_plane_sizes(width as int, height as int);
    }
    let aligned_width: usize = (width as usize + 1) / 2 * 2;
    let chroma_rows: usize = (height as usize + 1) / 2;
    assert(aligned_width == align2(width as int));
    assert(chroma_rows == align2(height as int) / 2);
    width as usize * height as usize + aligned_width * chroma_rows
}

/// Copies the NV12 image `src`, whose planes start at `offsets` and whose rows are `strides`
/// bytes apart, into `dst` without padding.
pub fn nv12_copy(
    src: &[u8],
    dst: &mut [u8],
    width: u16,
    height: u16,
    strides: [u32; 3],
    offsets: [u32; 3],
)
    requires
        nv12_readable(src@.len() as int, width as int, height as int, strides, offsets),
        old(dst)@.len() == spec_decoded_frame_size(
            DecodedFormat::NV12,
            width as int,
            height as int,
        ),
    ensures
        final(dst)@.len() == old(dst)@.len(),
        is_nv12_of(final(dst)@, src@, width as int, height as int, strides, offsets),
{
    let dst_len: usize = dst.len();
    proof {
        lemma_plane_sizes(width as int, height as int);
    }
    let aligned_width: usize = (width as usize + 1) / 2 * 2;
    let chroma_rows: usize = (height as usize + 1) / 2;
    assert(aligned_width == align2(width as int));
    assert(chroma_rows == align2(height as int) / 2);
    let luma_size: usize = width as usize * height as usize;
    copy_plane(
        src,
        offsets[0] as usize,
        strides[0] as usize,
        dst,
        0,
        width as usize,
        height as usize,
    );
    let ghost luma = dst@;
    copy_plane(
        src,
        offsets[1] as usize,
        strides[1] as usize,
        dst,
        luma_size,
        aligned_width,
        chroma_rows,
    );
    proof {
        assert forall|row: int, col: int|
            0 <= row < height && 0 <= col < width implies #[trigger] dst@[plane_index(
            0,
            width as int,
            row,
            col,
        )] == src@[plane_index(offsets[0] as int, strides[0] as int, row, col)] by {
            lemma_rows_are_disjoint(width as int, row, height as int);
            assert(luma[plane_index(0, width as int, row, col)] == src@[plane_index(
                offsets[0] as int,
                strides[0] as int,
                row,
                col,
            )]);
        }
    }
}

/// Copies the I420 image `src`, whose planes start at `offsets` and whose rows are `strides`
/// bytes apart, into `dst` without padding.
pub fn i420_copy(
    src: &[u8],
    dst: &mut [u8],
    width: u16,
    height: u16,
    strides: [u32; 3],
    offsets: [u32; 3],
)
    requires
        i420_readable(src@.len() as int, width as int, height as int, strides, offsets),
        old(dst)@.len() == spec_decoded_frame_size(
            DecodedFormat::I420,
            width as int,
            height as int,
        ),
    ensures
        final(dst)@.len() == old(dst)@.len(),
        is_i420_of(final(dst)@, src@, width as int, height as int, strides, offsets),
{
    let dst_len: usize = dst.len();
    proof {
        lemma_plane_sizes(width as int, height as int);
    }
    let chroma_width: usize = (width as usize + 1) / 2;
    let chroma_rows: usize = (height as usize + 1) / 2;
    assert(chroma_width == align2(width as int) / 2);
    assert(chroma_rows == align2(height as int) / 2);
    let luma_size: usize = width as usize * height as usize;
    let chroma_size: usize = chroma_width * chroma_rows;
    copy_plane(
        src,
        offsets[0] as usize,
        strides[0] as usize,
        dst,
        0,
        width as usize,
        height as usize,
    );
    let ghost luma = dst@;
    copy_plane(
        src,
        offsets[1] as usize,
        strides[1] as usize,
        dst,
        luma_size,
        chroma_width,
        chroma_rows,
    );
    let ghost with_u = dst@;
    copy_plane(
        src,
        offsets[2] as usize,
        strides[2] as usize,
        dst,
        luma_size + chroma_size,
        chroma_width,
        chroma_rows,
    );
    proof {
        assert forall|row: int, col: int|
            0 <= row < height && 0 <= col < width implies #[trigger] dst@[plane_index(
            0,
            width as int,
            row,
            col,
        )] == src@[plane_index(offsets[0] as int, strides[0] as int, row, col)] by {
            lemma_rows_are_disjoint(width as int, row, height as int);
            assert(luma[plane_index(0, width as int, row, col)] == src@[plane_index(
                offsets[0] as int,
                strides[0] as int,
                row,
                col,
            )]);
            assert(with_u[plane_index(0, width as int, row, col)] == luma[plane_index(
                0,
                width as int,
                row,
                col,
            )]);
        }
        assert forall|row: int, col: int|
            0 <= row < chroma_rows && 0 <= col < chroma_width implies #[trigger] dst@[plane_index(
            luma_size as int,
            chroma_width as int,
            row,
            col,
        )] == src@[plane_index(offsets[1] as int, strides[1] as int, row, col)] by {
            lemma_rows_are_disjoint(chroma_width as int, row, chroma_rows as int);
            assert(with_u[plane_index(luma_size as int, chroma_width as int, row, col)]
                == src@[plane_index(offsets[1] as int, strides[1] as int, row, col)]);
        }
    }
}

} // verus!
