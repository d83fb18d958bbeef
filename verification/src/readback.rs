//! Frames read back from the GPU.
//!
//! A copy from a texture to a buffer wants every row to start at a multiple
//! of 256 bytes, so the rows of a read-back frame are padded. The raw
//! buffer and the RGBA frame are different things: the padding is stripped
//! row by row before a frame goes to the encoder.

use vstd::prelude::*;

verus! {

/// Alignment of the rows of a read-back buffer, in bytes.
pub const ROW_ALIGNMENT: u32 = 256;

/// Bytes of one row of pixels, without padding.
pub open spec fn row_len(width: int) -> int {
    4 * width
}

/// Bytes from the start of one row of a read-back buffer to the start of
/// the next: the row's bytes, rounded up to the alignment.
pub open spec fn padded_row_len(width: int) -> int {
    ((row_len(width) + 255) / 256) * 256
}

/// Position in the padded buffer of byte `i` of the frame.
pub open spec fn padded_index(i: int, width: int, stride: int) -> int {
    (i / row_len(width)) * stride + i % row_len(width)
}

/// The frame without its padding: `height` rows of `row_len(width)` bytes,
/// row `r` taken from position `r * stride` of the buffer.
pub open spec fn unpadded(data: Seq<u8>, width: int, height: int, stride: int) -> Seq<u8> {
    Seq::new(
        (row_len(width) * height) as nat,
        |i: int| data[padded_index(i, width, stride)],
    )
}

/// The padded length is a multiple of the alignment that holds a row and
/// wastes less than one alignment unit.
pub proof fn lemma_padded_row_len(width: int)
    requires
        0 <= width,
    ensures
        padded_row_len(width) % 256 == 0,
        row_len(width) <= padded_row_len(width) < row_len(width) + 256,
{
    let q = (row_len(width) + 255) / 256;
    assert(q * 256 % 256 == 0) by (nonlinear_arith);
}

/// No smaller multiple of the alignment holds a row.
pub proof fn lemma_padded_row_len_is_least(width: int, n: int)
    requires
        0 <= width,
        n % 256 == 0,
        row_len(width) <= n,
    ensures
        padded_row_len(width) <= n,
{
    let q = (row_len(width) + 255) / 256;
    let k = n / 256;
    assert(n == k * 256);
    assert(q <= k);
}

/// Row `row`, column `col` of the frame has index `row * row_len + col`,
/// and that index leads back to the row and the column.
proof fn lemma_row_major(row: int, col: int, len: int, rows: int)
    requires
        0 <= row < rows,
        0 <= col < len,
    ensures
        0 <= row * len + col < len * rows,
        (row * len + col) / len == row,
        (row * len + col) % len == col,
{
    vstd::arithmetic::div_mod::lemma_fundamental_div_mod_converse(row * len + col, len, row, col);
    assert(0 <= row * len) by (nonlinear_arith)
        requires
            0 <= row,
            0 <= len,
    ;
    assert(row * len + len <= len * rows) by (nonlinear_arith)
        requires
            0 <= row < rows,
            0 <= len,
    ;
}

/// Bytes per row of the read-back buffer for a frame of the given width.
pub fn padded_bytes_per_row(width: u32) -> (stride: u32)
    requires
        row_len(width as int) + 255 <= u32::MAX,
    ensures
        stride == padded_row_len(width as int),
        stride % 256 == 0,
        row_len(width as int) <= stride < row_len(width as int) + 256,
{
    let bytes_per_row: u32 = 4 * width;
    let bumped: u32 = bytes_per_row + 255;
    assert(bumped & !255u32 == (bumped / 256) * 256) by (bit_vector);
    proof {
        lemma_padded_row_len(width as int);
    }
    bumped & !255u32
}

/// Number of bytes that a read-back buffer must hold for every row of the
/// frame to lie inside it: the last row need not be padded.
pub open spec fn padded_len(width: int, height: int, stride: int) -> int {
    if height <= 0 {
        0
    } else {
        (height - 1) * stride + row_len(width)
    }
}

/// Strips the row padding of a read-back buffer.
pub fn strip_row_padding(data: &[u8], width: u32, height: u32, stride: u32) -> (frame: Vec<u8>)
    requires
        row_len(width as int) <= stride,
        padded_len(width as int, height as int, stride as int) <= data@.len(),
    ensures
        frame@ == unpadded(data@, width as int, height as int, stride as int),
        frame@.len() == row_len(width as int) * height,
{
    let len: usize = data.len();
    let row_bytes: usize = 4 * (width as usize);
    let rows: usize = height as usize;
    let step: usize = stride as usize;
    let ghost w = width as int;
    let ghost h = height as int;
    let ghost s = stride as int;
    let mut frame: Vec<u8> = Vec::new();
    let mut row: usize = 0;
    while row < rows
        invariant
            row <= rows,
            rows == h,
            step == s,
            row_bytes == row_len(w),
            row_bytes <= step,
            padded_len(w, h, s) <= data@.len() == len,
            frame@.len() == row * row_bytes,
            forall|i: int|
                0 <= i < frame@.len() ==> #[trigger] frame@[i] == data@[padded_index(i, w, s)],
        decreases rows - row,
    {
        assert(0 <= row * step && row * step + row_bytes <= padded_len(w, h, s))
            by (nonlinear_arith)
            requires
                0 <= row < h,
                step == s,
                0 <= s,
                padded_len(w, h, s) == (h - 1) * s + row_bytes,
        ;
        let start: usize = row * step;
        let mut col: usize = 0;
        while col < row_bytes
            invariant
                row < rows,
                col <= row_bytes,
                rows == h,
                step == s,
                row_bytes == row_len(w),
                start == row * step,
                start + row_bytes <= len,
                data@.len() == len,
                frame@.len() == row * row_bytes + col,
                forall|i: int|
                    0 <= i < frame@.len() ==> #[trigger] frame@[i] == data@[padded_index(i, w, s)],
            decreases row_bytes - col,
        {
            proof {
                lemma_row_major(row as int, col as int, row_bytes as int, h);
            }
            frame.push(data[start + col]);
            col += 1;
        }
        assert(row * row_bytes + row_bytes == (row + 1) * row_bytes) by (nonlinear_arith);
        row += 1;
    }
    assert(frame@.len() == row_len(w) * h) by (nonlinear_arith)
        requires
            frame@.len() == row * row_bytes,
            row == h,
            row_bytes == row_len(w),
    ;
    assert(frame@ =~= unpadded(data@, w, h, s));
    frame
}

} // verus!
