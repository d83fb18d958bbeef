//! The H.264 encoder adapter: RGBA frames in, Annex-B units out.
//!
//! The codec itself is the `openh264` crate. This module checks what goes
//! into it, converts the frame, and decides what becomes of what comes out:
//! an encoder may withhold output, and such an empty unit is never passed on.

use vstd::prelude::*;
use crate::yuv::{lemma_quarter_is_product_of_halves, rgba_len, Yuv420Buffer};

verus! {

/// `openh264::encoder::Encoder`, the codec's encoder state. It is carried
/// through as it is: nothing inside it is visible to the proofs.
#[verifier::external_type_specification]
#[verifier::external_body]
pub struct ExEncoder(openh264::encoder::Encoder);

/// `openh264::Error`, the codec's error value, carried through as it is.
#[verifier::external_type_specification]
#[verifier::external_body]
pub struct ExCodecError(openh264::Error);

/// `bytes::Bytes`, a cheaply shareable byte buffer. The proofs know of it
/// only what `bytes_content` names.
#[verifier::external_type_specification]
#[verifier::external_body]
pub struct ExBytes(bytes::Bytes);

/// The bytes that a `bytes::Bytes` holds, in order. The name has no
/// definition here: what is known of it is what the wrappers of
/// `Bytes::from` and `Bytes::len` state.
pub uninterp spec fn bytes_content(b: bytes::Bytes) -> Seq<u8>;

/// `Bytes::from(Vec<u8>)`. Believed, not proved: the buffer holds the
/// vector's bytes, unchanged and in order.
#[verifier::external_body]
pub(crate) fn bytes_from_vec(data: Vec<u8>) -> (b: bytes::Bytes)
    ensures
        bytes_content(b) == data@,
{
    bytes::Bytes::from(data)
}

/// `Bytes::len()`. Believed, not proved: the result is the number of bytes
/// that the buffer holds.
#[verifier::external_body]
pub(crate) fn bytes_len(b: &bytes::Bytes) -> (len: usize)
    ensures
        len == bytes_content(*b).len(),
{
    b.len()
}

/// `openh264::encoder::Encoder::new()`: an encoder with the codec's default
/// settings. The codec may refuse, and nothing is claimed of when or of
/// what it returns.
#[verifier::external_body]
fn codec_new() -> (res: Result<openh264::encoder::Encoder, openh264::Error>) {
    openh264::encoder::Encoder::new()
}

/// `openh264::encoder::Encoder::encode()` on three planes handed over as
/// `openh264::formats::YUVSlices`, with `EncodedBitStream::to_vec()` on what
/// it returns. What the codec emits depends on the frames it has seen, so
/// nothing is claimed of the result. The preconditions are the conditions
/// that `YUVSlices::new` asserts, and bounds under which the codec's casts
/// of sizes and strides to 32-bit signed integers keep their values; they
/// also keep empty pictures from the codec.
#[verifier::external_body]
fn codec_encode(
    encoder: &mut openh264::encoder::Encoder,
    y: &[u8],
    u: &[u8],
    v: &[u8],
    dimensions: (usize, usize),
    strides: (usize, usize, usize),
) -> (res: Result<Vec<u8>, openh264::Error>)
    requires
        0 < dimensions.0 <= 0x7fff_ffff,
        0 < dimensions.1 <= 0x7fff_ffff,
        dimensions.0 <= strides.0 <= 0x7fff_ffff,
        dimensions.0 / 2 <= strides.1 <= 0x7fff_ffff,
        dimensions.0 / 2 <= strides.2 <= 0x7fff_ffff,
        dimensions.1 * strides.0 == y@.len(),
        (dimensions.1 / 2) * strides.1 == u@.len(),
        (dimensions.1 / 2) * strides.2 == v@.len(),
{
    let source = openh264::formats::YUVSlices::new((y, u, v), dimensions, strides);
    let stream = encoder.encode(&source)?;
    Ok(stream.to_vec())
}

/// Why the adapter could not be built or a frame could not be encoded.
#[derive(Debug)]
pub enum EncoderError {
    /// The frame size is not usable: a dimension is zero, odd or beyond the
    /// codec's range, or a frame of that size could not be addressed.
    InvalidDimensions { width: u32, height: u32 },
    /// A frame did not have the four bytes per pixel that the size calls for.
    FrameSizeMismatch { expected: usize, got: usize },
    /// The codec refused.
    Codec(openh264::Error),
}

/// The largest dimension that the codec can be told of: it takes sizes as
/// 32-bit signed integers.
pub const MAX_DIMENSION: u32 = 0x7fff_ffff;

/// Whether a frame size can be encoded: both dimensions positive, even and
/// within the codec's range, and the frame's byte length within the
/// machine's range.
pub open spec fn valid_dimensions(width: u32, height: u32) -> bool {
    &&& 0 < width <= MAX_DIMENSION
    &&& 0 < height <= MAX_DIMENSION
    &&& width % 2 == 0
    &&& height % 2 == 0
    &&& rgba_len(width as int, height as int) <= usize::MAX
}

/// Tests `valid_dimensions`.
pub fn check_dimensions(width: u32, height: u32) -> (ok: bool)
    ensures
        ok == valid_dimensions(width, height),
{
    if width == 0 || height == 0 || width % 2 != 0 || height % 2 != 0 {
        return false;
    }
    if width > MAX_DIMENSION || height > MAX_DIMENSION {
        return false;
    }
    assert(width * height <= 0xffff_ffff * 0xffff_ffff) by (nonlinear_arith)
        requires
            0 <= width <= 0xffff_ffff,
            0 <= height <= 0xffff_ffff,
    ;
    let pixels: u64 = (width as u64) * (height as u64);
    pixels <= (usize::MAX as u64) / 4
}

/// Byte length of an RGBA frame, where it fits the machine's range.
pub fn frame_len(width: u32, height: u32) -> (len: Option<usize>)
    ensures
        match len {
            Some(n) => n == rgba_len(width as int, height as int),
            None => rgba_len(width as int, height as int) > usize::MAX,
        },
{
    assert(0 <= width * height <= 0xffff_ffff * 0xffff_ffff) by (nonlinear_arith)
        requires
            0 <= width <= 0xffff_ffff,
            0 <= height <= 0xffff_ffff,
    ;
    let pixels: u64 = (width as u64) * (height as u64);
    if pixels <= (usize::MAX as u64) / 4 {
        Some((pixels * 4) as usize)
    } else {
        None
    }
}

/// What becomes of the codec's output for one frame: an empty unit means
/// "not yet" and is dropped, anything else is passed on unchanged.
pub fn encoded_unit(data: Vec<u8>) -> (unit: Option<bytes::Bytes>)
    ensures
        data@.len() == 0 <==> unit is None,
        unit matches Some(b) ==> bytes_content(b) == data@,
{
    if data.len() == 0 {
        None
    } else {
        Some(bytes_from_vec(data))
    }
}

/// An H.264 encoder for frames of one fixed size.
pub struct H264Encoder {
    encoder: openh264::encoder::Encoder,
    width: u32,
    height: u32,
}

impl H264Encoder {
    /// Width of the frames it takes.
    pub closed spec fn spec_width(&self) -> u32 {
        self.width
    }

    /// Height of the frames it takes.
    pub closed spec fn spec_height(&self) -> u32 {
        self.height
    }

    /// The frame size is one that can be encoded.
    pub open spec fn wf(&self) -> bool {
        valid_dimensions(self.spec_width(), self.spec_height())
    }

    /// Byte length of the frames it takes.
    pub open spec fn spec_frame_len(&self) -> int {
        rgba_len(self.spec_width() as int, self.spec_height() as int)
    }

    /// An encoder for frames of the given size. Sizes that cannot be encoded
    /// are refused before the codec is asked; after that the codec decides.
    pub fn new(width: u32, height: u32) -> (res: Result<Self, EncoderError>)
        ensures
            !valid_dimensions(width, height) ==> res == Err::<Self, EncoderError>(
                EncoderError::InvalidDimensions { width, height },
            ),
            valid_dimensions(width, height) ==> match res {
                Ok(enc) => enc.wf() && enc.spec_width() == width && enc.spec_height() == height,
                Err(e) => e is Codec,
            },
    {
        if !check_dimensions(width, height) {
            return Err(EncoderError::InvalidDimensions { width, height });
        }
        match codec_new() {
            Ok(encoder) => Ok(H264Encoder { encoder, width, height }),
            Err(e) => Err(EncoderError::Codec(e)),
        }
    }

    /// Width of the frames it takes.
    pub fn width(&self) -> (w: u32)
        ensures
            w == self.spec_width(),
    {
        self.width
    }

    /// Height of the frames it takes.
    pub fn height(&self) -> (h: u32)
        ensures
            h == self.spec_height(),
    {
        self.height
    }

    /// Encodes one RGBA frame. A frame of the wrong length is refused. For a
    /// frame of the right length the codec decides: it may fail, withhold
    /// output (`None`), or emit a unit, which is then never empty.
    pub fn encode(&mut self, rgba: &[u8]) -> (res: Result<Option<bytes::Bytes>, EncoderError>)
        requires
            old(self).wf(),
        ensures
            final(self).wf(),
            final(self).spec_width() == old(self).spec_width(),
            final(self).spec_height() == old(self).spec_height(),
            rgba@.len() != old(self).spec_frame_len() ==> res == Err::<
                Option<bytes::Bytes>,
                EncoderError,
            >(
                EncoderError::FrameSizeMismatch {
                    expected: old(self).spec_frame_len() as usize,
                    got: rgba@.len() as usize,
                },
            ),
            rgba@.len() == old(self).spec_frame_len() ==> match res {
                Ok(Some(unit)) => bytes_content(unit).len() > 0,
                Ok(None) => true,
                Err(e) => e is Codec,
            },
    {
        let width: usize = self.width as usize;
        let height: usize = self.height as usize;
        assert(4 * (width * height) == rgba_len(self.width as int, self.height as int));
        let expected: usize = 4 * (width * height);
        if rgba.len() != expected {
            return Err(EncoderError::FrameSizeMismatch { expected, got: rgba.len() });
        }
        let frame = Yuv420Buffer::from_rgba(rgba, width, height);
        let dimensions = frame.dimensions();
        let strides = frame.strides();
        proof {
            let w = width as int;
            let h = height as int;
            lemma_quarter_is_product_of_halves(w, h);
            assert(h * w == w * h) by (nonlinear_arith);
            assert((h / 2) * (w / 2) == (w / 2) * (h / 2)) by (nonlinear_arith);
        }
        match codec_encode(
            &mut self.encoder,
            frame.y(),
            frame.u(),
            frame.v(),
            dimensions,
            strides,
        ) {
            Ok(data) => Ok(encoded_unit(data)),
            Err(e) => Err(EncoderError::Codec(e)),
        }
    }
}

} // verus!
