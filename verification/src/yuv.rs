//! Planar YUV 4:2:0 frames and their conversion from packed RGBA.
//!
//! The conversion uses the BT.601 integer coefficients with studio-range
//! offsets. Chroma is sampled at half resolution in both directions by
//! taking the top-left pixel of every 2x2 block.

use vstd::prelude::*;

verus! {

/// Clamps an integer sample to the range of a byte.
pub open spec fn clamp_sample(x: int) -> int {
    if x < 0 {
        0
    } else if x > 255 {
        255
    } else {
        x
    }
}

/// Luma of one pixel. The division rounds towards minus infinity, which is
/// what an arithmetic shift right by eight bits computes.
pub open spec fn luma(r: int, g: int, b: int) -> int {
    clamp_sample((66 * r + 129 * g + 25 * b + 128) / 256 + 16)
}

/// Blue-difference chroma of one pixel.
pub open spec fn chroma_u(r: int, g: int, b: int) -> int {
    clamp_sample((-38 * r - 74 * g + 112 * b + 128) / 256 + 128)
}

/// Red-difference chroma of one pixel.
pub open spec fn chroma_v(r: int, g: int, b: int) -> int {
    clamp_sample((112 * r - 94 * g - 18 * b + 128) / 256 + 128)
}

/// Number of bytes of an RGBA frame of the given size.
pub open spec fn rgba_len(width: int, height: int) -> int {
    4 * (width * height)
}

/// Index, in pixels, of the pixel that the chroma sample `i` is taken from:
/// the top-left pixel of the 2x2 block that the sample stands for.
pub open spec fn chroma_source(i: int, width: int) -> int {
    let half = width / 2;
    (2 * (i / half)) * width + 2 * (i % half)
}

/// The luma plane of an RGBA frame, row by row.
pub open spec fn luma_plane(rgba: Seq<u8>, width: int, height: int) -> Seq<u8> {
    Seq::new(
        (width * height) as nat,
        |i: int| luma(rgba[4 * i] as int, rgba[4 * i + 1] as int, rgba[4 * i + 2] as int) as u8,
    )
}

/// The blue-difference plane of an RGBA frame, at half resolution.
pub open spec fn chroma_u_plane(rgba: Seq<u8>, width: int, height: int) -> Seq<u8> {
    Seq::new(
        ((width / 2) * (height / 2)) as nat,
        |i: int|
            {
                let p = chroma_source(i, width);
                chroma_u(rgba[4 * p] as int, rgba[4 * p + 1] as int, rgba[4 * p + 2] as int) as u8
            },
    )
}

/// The red-difference plane of an RGBA frame, at half resolution.
pub open spec fn chroma_v_plane(rgba: Seq<u8>, width: int, height: int) -> Seq<u8> {
    Seq::new(
        ((width / 2) * (height / 2)) as nat,
        |i: int|
            {
                let p = chroma_source(i, width);
                chroma_v(rgba[4 * p] as int, rgba[4 * p + 1] as int, rgba[4 * p + 2] as int) as u8
            },
    )
}

/// For even dimensions a quarter of the pixels is the product of the halves.
pub proof fn lemma_quarter_is_product_of_halves(width: int, height: int)
    requires
        0 <= width,
        0 <= height,
        width % 2 == 0,
        height % 2 == 0,
    ensures
        (width * height) / 4 == (width / 2) * (height / 2),
        (width * height) % 4 == 0,
{
    let hw = width / 2;
    let hh = height / 2;
    assert(width == 2 * hw);
    assert(height == 2 * hh);
    assert(width * height == 4 * (hw * hh)) by (nonlinear_arith)
        requires
            width == 2 * hw,
            height == 2 * hh,
    ;
}

/// The pixel a chroma sample is taken from lies inside the frame, and the
/// sample's row and column are recovered from its index.
pub proof fn lemma_chroma_source(row: int, col: int, width: int, height: int)
    requires
        0 <= row < height / 2,
        0 <= col < width / 2,
        width % 2 == 0,
        height % 2 == 0,
    ensures
        0 <= row * (width / 2) + col < (width / 2) * (height / 2),
        chroma_source(row * (width / 2) + col, width) == (2 * row) * width + 2 * col,
        0 <= (2 * row) * width + 2 * col < width * height,
{
    let half = width / 2;
    let hh = height / 2;
    let i = row * half + col;
    vstd::arithmetic::div_mod::lemma_fundamental_div_mod_converse(i, half, row, col);
    assert(0 <= row * half) by (nonlinear_arith)
        requires
            0 <= row,
            0 <= half,
    ;
    assert(row * half + half <= half * hh) by (nonlinear_arith)
        requires
            0 <= row < hh,
            0 <= half,
    ;
    assert((2 * row) * width + width <= width * height) by (nonlinear_arith)
        requires
            0 <= row,
            2 * row + 1 < height,
            0 <= width,
    ;
    assert(0 <= (2 * row) * width) by (nonlinear_arith)
        requires
            0 <= row,
            0 <= width,
    ;
}

/// A frame in planar YUV 4:2:0: one full-resolution luma plane and two
/// chroma planes of a quarter of its size. Rows are stored without padding,
/// so each plane's stride is its width.
pub struct Yuv420Buffer {
    width: usize,
    height: usize,
    y: Vec<u8>,
    u: Vec<u8>,
    v: Vec<u8>,
}

impl Yuv420Buffer {
    /// Width of the frame in pixels.
    pub closed spec fn spec_width(&self) -> int {
        self.width as int
    }

    /// Height of the frame in pixels.
    pub closed spec fn spec_height(&self) -> int {
        self.height as int
    }

    /// The luma plane.
    pub closed spec fn y_plane(&self) -> Seq<u8> {
        self.y@
    }

    /// The blue-difference chroma plane.
    pub closed spec fn u_plane(&self) -> Seq<u8> {
        self.u@
    }

    /// The red-difference chroma plane.
    pub closed spec fn v_plane(&self) -> Seq<u8> {
        self.v@
    }

    /// The planes have the sizes that the dimensions call for.
    pub open spec fn wf(&self) -> bool {
        &&& 0 <= self.spec_width()
        &&& 0 <= self.spec_height()
        &&& self.y_plane().len() == self.spec_width() * self.spec_height()
        &&& self.u_plane().len() == (self.spec_width() * self.spec_height()) / 4
        &&& self.v_plane().len() == (self.spec_width() * self.spec_height()) / 4
    }

    /// A black frame: luma zero, both chroma planes at their midpoint.
    pub fn new(width: usize, height: usize) -> (buf: Self)
        requires
            width * height <= usize::MAX,
        ensures
            buf.wf(),
            buf.spec_width() == width,
            buf.spec_height() == height,
            buf.y_plane() == Seq::new((width * height) as nat, |i: int| 0u8),
            buf.u_plane() == Seq::new(((width * height) / 4) as nat, |i: int| 128u8),
            buf.v_plane() == Seq::new(((width * height) / 4) as nat, |i: int| 128u8),
    {
        assert(0 <= width * height) by (nonlinear_arith)
            requires
                0 <= width,
                0 <= height,
        ;
        let pixels: usize = width * height;
        let y = constant_plane(0u8, pixels);
        let u = constant_plane(128u8, pixels / 4);
        let v = constant_plane(128u8, pixels / 4);
        Yuv420Buffer { width, height, y, u, v }
    }

    /// Converts an RGBA frame. The alpha channel is ignored.
    pub fn from_rgba(rgba: &[u8], width: usize, height: usize) -> (buf: Self)
        requires
            width % 2 == 0,
            height % 2 == 0,
            rgba_len(width as int, height as int) <= rgba@.len(),
        ensures
            buf.wf(),
            buf.spec_width() == width,
            buf.spec_height() == height,
            buf.y_plane() == luma_plane(rgba@, width as int, height as int),
            buf.u_plane() == chroma_u_plane(rgba@, width as int, height as int),
            buf.v_plane() == chroma_v_plane(rgba@, width as int, height as int),
            buf.y_plane().len() == width * height,
            buf.u_plane().len() == (width * height) / 4,
            buf.v_plane().len() == (width * height) / 4,
    {
        assert(0 <= width * height) by (nonlinear_arith)
            requires
                0 <= width,
                0 <= height,
        ;
        proof {
            lemma_quarter_is_product_of_halves(width as int, height as int);
        }
        let available: usize = rgba.len();
        let pixels: usize = width * height;
        let half_width: usize = width / 2;
        let half_height: usize = height / 2;
        let ghost w = width as int;
        let ghost h = height as int;

        let mut y: Vec<u8> = Vec::with_capacity(pixels);
        let mut i: usize = 0;
        while i < pixels
            invariant
                i <= pixels,
                pixels == w * h,
                4 * pixels <= rgba@.len() == available,
                y@.len() == i,
                forall|k: int| 0 <= k < i ==> #[trigger] y@[k] == luma_plane(rgba@, w, h)[k],
            decreases pixels - i,
        {
            let sample = luma_of(rgba[4 * i], rgba[4 * i + 1], rgba[4 * i + 2]);
            y.push(sample);
            i += 1;
        }
        assert(y@ =~= luma_plane(rgba@, w, h));

        let quarter: usize = pixels / 4;
        let mut u: Vec<u8> = Vec::with_capacity(quarter);
        let mut v: Vec<u8> = Vec::with_capacity(quarter);
        let mut row: usize = 0;
        while row < half_height
            invariant
                row <= half_height,
                w == width,
                h == height,
                w % 2 == 0,
                h % 2 == 0,
                half_width == w / 2,
                half_height == h / 2,
                pixels == w * h,
                4 * pixels <= rgba@.len() == available,
                quarter == (w / 2) * (h / 2),
                u@.len() == row * half_width,
                v@.len() == row * half_width,
                forall|k: int|
                    0 <= k < u@.len() ==> #[trigger] u@[k] == chroma_u_plane(rgba@, w, h)[k],
                forall|k: int|
                    0 <= k < v@.len() ==> #[trigger] v@[k] == chroma_v_plane(rgba@, w, h)[k],
            decreases half_height - row,
        {
            let mut col: usize = 0;
            while col < half_width
                invariant
                    row < half_height,
                    col <= half_width,
                    w == width,
                    h == height,
                    w % 2 == 0,
                    h % 2 == 0,
                    half_width == w / 2,
                    half_height == h / 2,
                    pixels == w * h,
                    4 * pixels <= rgba@.len() == available,
                    quarter == (w / 2) * (h / 2),
                    u@.len() == row * half_width + col,
                    v@.len() == row * half_width + col,
                    forall|k: int|
                        0 <= k < u@.len() ==> #[trigger] u@[k] == chroma_u_plane(rgba@, w, h)[k],
                    forall|k: int|
                        0 <= k < v@.len() ==> #[trigger] v@[k] == chroma_v_plane(rgba@, w, h)[k],
                decreases half_width - col,
            {
                proof {
                    lemma_chroma_source(row as int, col as int, w, h);
                }
                let p: usize = (2 * row) * width + 2 * col;
                let r = rgba[4 * p];
                let g = rgba[4 * p + 1];
                let b = rgba[4 * p + 2];
                u.push(chroma_u_of(r, g, b));
                v.push(chroma_v_of(r, g, b));
                col += 1;
            }
            assert(row * half_width + half_width == (row + 1) * half_width) by (nonlinear_arith);
            row += 1;
        }
        assert(u@.len() == quarter) by {
            assert(row == half_height);
            assert(row * half_width == (w / 2) * (h / 2)) by (nonlinear_arith)
                requires
                    row == h / 2,
                    half_width == w / 2,
            ;
        }
        assert(u@ =~= chroma_u_plane(rgba@, w, h));
        assert(v@ =~= chroma_v_plane(rgba@, w, h));
        Yuv420Buffer { width, height, y, u, v }
    }

    /// Width and height in pixels.
    pub fn dimensions(&self) -> (d: (usize, usize))
        ensures
            d.0 == self.spec_width(),
            d.1 == self.spec_height(),
    {
        (self.width, self.height)
    }

    /// Bytes per row of the luma plane and of the two chroma planes.
    pub fn strides(&self) -> (s: (usize, usize, usize))
        ensures
            s.0 == self.spec_width(),
            s.1 == self.spec_width() / 2,
            s.2 == self.spec_width() / 2,
    {
        (self.width, self.width / 2, self.width / 2)
    }

    /// The luma plane.
    pub fn y(&self) -> (plane: &[u8])
        ensures
            plane@ == self.y_plane(),
    {
        self.y.as_slice()
    }

    /// The blue-difference chroma plane.
    pub fn u(&self) -> (plane: &[u8])
        ensures
            plane@ == self.u_plane(),
    {
        self.u.as_slice()
    }

    /// The red-difference chroma plane.
    pub fn v(&self) -> (plane: &[u8])
        ensures
            plane@ == self.v_plane(),
    {
        self.v.as_slice()
    }
}

/// A plane of `len` equal samples.
fn constant_plane(value: u8, len: usize) -> (plane: Vec<u8>)
    ensures
        plane@ == Seq::new(len as nat, |i: int| value),
{
    let mut plane: Vec<u8> = Vec::with_capacity(len);
    let mut i: usize = 0;
    while i < len
        invariant
            i <= len,
            plane@.len() == i,
            forall|k: int| 0 <= k < i ==> #[trigger] plane@[k] == value,
        decreases len - i,
    {
        plane.push(value);
        i += 1;
    }
    assert(plane@ =~= Seq::new(len as nat, |i: int| value));
    plane
}

/// Luma of one pixel, computed without leaving the unsigned range.
pub fn luma_of(r: u8, g: u8, b: u8) -> (sample: u8)
    ensures
        sample == luma(r as int, g as int, b as int),
        16 <= sample <= 235,
{
    let sum: u32 = 66 * (r as u32) + 129 * (g as u32) + 25 * (b as u32) + 128;
    let sample: u32 = sum / 256 + 16;
    sample as u8
}

/// Blue-difference chroma of one pixel. The sum is shifted up by 128 * 256
/// so that it stays positive, which moves the quotient by the offset 128.
pub fn chroma_u_of(r: u8, g: u8, b: u8) -> (sample: u8)
    ensures
        sample == chroma_u(r as int, g as int, b as int),
        16 <= sample <= 240,
{
    let sum: u32 = 32896 + 112 * (b as u32) - 38 * (r as u32) - 74 * (g as u32);
    let sample: u32 = sum / 256;
    sample as u8
}

/// Red-difference chroma of one pixel.
pub fn chroma_v_of(r: u8, g: u8, b: u8) -> (sample: u8)
    ensures
        sample == chroma_v(r as int, g as int, b as int),
        16 <= sample <= 240,
{
    let sum: u32 = 32896 + 112 * (r as u32) - 94 * (g as u32) - 18 * (b as u32);
    let sample: u32 = sum / 256;
    sample as u8
}

} // verus!
