//! Block-based texture codecs for the BC1, BC2 and BC7 GPU texture formats.
//!
//! Each codec transforms a fixed 4x4 grid of texels into a fixed-size wire
//! block (and back), using color-endpoint interpolation. All transforms are
//! bit-exact pure functions; their contracts pin the produced bytes and
//! texels down to the wire format.

use vstd::prelude::*;

pub mod bc1;
pub mod bc2;
pub mod bc7;
pub mod bits;
pub mod stream;

verus! {

/// Wire block of the BC1 format and of the BC2 color section.
pub type Block8 = [u8; 8];

/// Wire block of the BC2 and BC7 formats.
pub type Block16 = [u8; 16];

/// One RGBA texel sample; each channel is an 8-bit unsigned value.
#[derive(Copy, Clone, Debug, PartialEq, Eq, Hash, Structural)]
pub struct Rgba8 {
    pub r: u8,
    pub g: u8,
    pub b: u8,
    pub a: u8,
}

/// One opaque RGB texel sample.
#[derive(Copy, Clone, Debug, PartialEq, Eq, Structural)]
pub struct Rgb8 {
    pub r: u8,
    pub g: u8,
    pub b: u8,
}

impl Rgba8 {
    pub fn from_array(v: [u8; 4]) -> (c: Self)
        ensures
            c == (Rgba8 { r: v@[0], g: v@[1], b: v@[2], a: v@[3] }),
    {
        Self { r: v[0], g: v[1], b: v[2], a: v[3] }
    }

    /// The RGB projection of this sample, with the alpha channel dropped.
    pub open spec fn spec_rgb(self) -> Rgb8 {
        Rgb8 { r: self.r, g: self.g, b: self.b }
    }

    pub fn to_rgb8(self) -> (c: Rgb8)
        ensures
            c == self.spec_rgb(),
    {
        Rgb8 { r: self.r, g: self.g, b: self.b }
    }
}

pub open spec fn spec_sq(x: int) -> int {
    x * x
}

/// Squared Euclidean distance between two colors: the sum of the squared
/// per-channel differences.
pub open spec fn spec_distance(a: Rgb8, b: Rgb8) -> int {
    spec_sq(a.r - b.r) + spec_sq(a.g - b.g) + spec_sq(a.b - b.b)
}

impl Rgb8 {
    pub fn from_arry(v: [u8; 3]) -> (c: Self)
        ensures
            c == (Rgb8 { r: v@[0], g: v@[1], b: v@[2] }),
    {
        Self { r: v[0], g: v[1], b: v[2] }
    }

    pub fn distance(self, other: Self) -> (d: i32)
        ensures
            d == spec_distance(self, other),
            0 <= d <= 3 * 255 * 255,
    {
        let dr = self.r as i32 - other.r as i32;
        let dg = self.g as i32 - other.g as i32;
        let db = self.b as i32 - other.b as i32;
        proof {
            assert(0 <= dr * dr <= 255 * 255 && 0 <= dg * dg <= 255 * 255 && 0 <= db * db
                <= 255 * 255) by (nonlinear_arith)
                requires
                    -255 <= dr <= 255,
                    -255 <= dg <= 255,
                    -255 <= db <= 255,
            ;
        }
        dr * dr + dg * dg + db * db
    }
}

/// The 16-bit value stored in two consecutive bytes, least-significant
/// byte first.
pub open spec fn spec_u16_le(lo: u8, hi: u8) -> u16 {
    (lo + 256 * hi) as u16
}

pub fn read_u16_le(a: u8, b: u8) -> (v: u16)
    ensures
        v == spec_u16_le(a, b),
{
    a as u16 + 256 * (b as u16)
}

/// The RGB projection of a sequence of RGBA texels.
pub open spec fn spec_rgb_seq(s: Seq<Rgba8>) -> Seq<Rgb8> {
    Seq::new(s.len(), |i: int| s[i].spec_rgb())
}

/// What every block format declares to the streaming layer: its block
/// byte size and its tile dimension (pixels in both directions).
pub trait Sealed {
    /// Input block size in bytes.
    spec fn spec_block_size() -> usize;

    /// Number of pixels in both directions for each block's tile.
    spec fn spec_num_pixels() -> usize;

    fn block_size() -> (n: usize)
        ensures
            n == Self::spec_block_size(),
            0 < n,
    ;

    fn num_pixels() -> (n: usize)
        ensures
            n == Self::spec_num_pixels(),
            0 < n,
    ;
}

/// A block format the streaming layer can decode with.
pub trait Decoder: Sealed {
    /// The texels one block decodes to, in row-major tile order.
    spec fn spec_decoded(block: Seq<u8>) -> Seq<Rgba8>;

    fn decode_block(block: &[u8]) -> (out: Vec<Rgba8>)
        requires
            block@.len() == Self::spec_block_size(),
        ensures
            out@ == Self::spec_decoded(block@),
            out@.len() == Self::spec_num_pixels() * Self::spec_num_pixels(),
    ;
}

/// A block format the streaming layer can encode with.
pub trait Encoder: Sealed {
    /// The block one tile of texels encodes to.
    spec fn spec_encoded(texels: Seq<Rgba8>) -> Seq<u8>;

    fn encode_block(texels: &[Rgba8]) -> (out: Vec<u8>)
        requires
            texels@.len() == Self::spec_num_pixels() * Self::spec_num_pixels(),
        ensures
            out@ == Self::spec_encoded(texels@),
            out@.len() == Self::spec_block_size(),
    ;
}

/// Distance is zero exactly on equal colors; this is what lets a palette
/// search recover the index of a color that is itself a palette entry.
pub proof fn lemma_distance_zero_iff_eq(a: Rgb8, b: Rgb8)
    ensures
        spec_distance(a, b) >= 0,
        spec_distance(a, b) == 0 <==> a == b,
{
    assert(spec_sq(a.r - b.r) >= 0 && (spec_sq(a.r - b.r) == 0 <==> a.r == b.r))
        by (nonlinear_arith);
    assert(spec_sq(a.g - b.g) >= 0 && (spec_sq(a.g - b.g) == 0 <==> a.g == b.g))
        by (nonlinear_arith);
    assert(spec_sq(a.b - b.b) >= 0 && (spec_sq(a.b - b.b) == 0 <==> a.b == b.b))
        by (nonlinear_arith);
    assert(a == b <==> (a.r == b.r && a.g == b.g && a.b == b.b));
}

} // verus!
